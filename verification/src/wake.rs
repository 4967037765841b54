//! Wake-on-LAN: which machines to wake, the MAC address each is woken by,
//! and the magic packet that wakes it.
use vstd::prelude::*;
use vstd::string::*;
use crate::domain::host::Host;
use crate::text::{push_replacing, replace_char};
use std::collections::HashSet;

verus! {

broadcast use vstd::std_specs::hash::group_hash_axioms;

/// The MAC addresses to send wake-up packets to: those of the hosts whose id
/// is among `host_ids`, in the order of `hosts`, each with every `-`
/// written as `:`.
pub open spec fn wake_macs(hosts: Seq<Host>, host_ids: Seq<i64>) -> Seq<Seq<char>> {
    hosts.filter_map(
        |h: Host| if host_ids.contains(h.id) { Some(replace_char(h.mac_address@, '-', ':')) } else { None },
    )
}

/// The set of the ids in `host_ids`.
fn wanted_set(host_ids: &Vec<i64>) -> (set: HashSet<i64>)
    ensures
        forall|id: i64| #[trigger] set@.contains(id) <==> host_ids@.contains(id),
{
    let mut set: HashSet<i64> = HashSet::new();
    let mut i: usize = 0;
    while i < host_ids.len()
        invariant
            0 <= i <= host_ids.len(),
            forall|id: i64| #[trigger] set@.contains(id) <==> host_ids@.take(i as int).contains(id),
        decreases host_ids.len() - i,
    {
        set.insert(host_ids[i]);
        proof {
            assert(host_ids@.take(i + 1) =~= host_ids@.take(i as int).push(host_ids@[i as int]));
            assert forall|id: i64| #[trigger] set@.contains(id) <==> host_ids@.take(i + 1).contains(id) by {
                if id == host_ids@[i as int] {
                    assert(host_ids@.take(i + 1)[i as int] == id);
                }
                if host_ids@.take(i + 1).contains(id) && id != host_ids@[i as int] {
                    let k = choose|k: int| 0 <= k < i + 1 && #[trigger] host_ids@.take(i + 1)[k] == id;
                    assert(host_ids@.take(i as int)[k] == id);
                }
            }
        }
        i = i + 1;
    }
    proof {
        assert(host_ids@.take(host_ids.len() as int) =~= host_ids@);
    }
    set
}

/// The MAC addresses, colon-separated, of the hosts to wake among `hosts`:
/// those whose id is in `host_ids`, in the order of `hosts`.
pub fn wake_targets(hosts: &Vec<Host>, host_ids: &Vec<i64>) -> (macs: Vec<String>)
    ensures
        macs@.map_values(|m: String| m@) == wake_macs(hosts@, host_ids@),
{
    let wanted = wanted_set(host_ids);
    let mut macs: Vec<String> = Vec::new();
    let mut i: usize = 0;
    let ghost f = |h: Host| if host_ids@.contains(h.id) { Some(replace_char(h.mac_address@, '-', ':')) } else { None };
    while i < hosts.len()
        invariant
            0 <= i <= hosts.len(),
            forall|id: i64| #[trigger] wanted@.contains(id) <==> host_ids@.contains(id),
            f == (|h: Host| if host_ids@.contains(h.id) { Some(replace_char(h.mac_address@, '-', ':')) } else { None }),
            macs@.map_values(|m: String| m@) == hosts@.take(i as int).filter_map(f),
        decreases hosts.len() - i,
    {
        proof {
            hosts@.lemma_filter_map_take_succ(f, i as int);
        }
        let host = &hosts[i];
        if wanted.contains(&host.id) {
            let mut mac = String::new();
            push_replacing(&mut mac, host.mac_address.as_str(), '-', ':');
            proof {
                assert(mac@ =~= replace_char(host.mac_address@, '-', ':'));
            }
            let ghost before = macs@;
            macs.push(mac);
            proof {
                assert(macs@.map_values(|m: String| m@) =~= before.map_values(|m: String| m@) + seq![mac@]);
            }
        }
        i = i + 1;
    }
    proof {
        assert(hosts@.take(hosts.len() as int) =~= hosts@);
    }
    macs
}

/// The number of `:` characters in `s`.
pub open spec fn colon_count(s: Seq<char>) -> nat
    decreases s.len(),
{
    if s.len() == 0 {
        0
    } else {
        colon_count(s.drop_last()) + if s.last() == ':' { 1nat } else { 0nat }
    }
}

/// `m` written `n` times in a row.
pub open spec fn repeated(m: Seq<u8>, n: nat) -> Seq<u8>
    decreases n,
{
    if n == 0 {
        Seq::empty()
    } else {
        repeated(m, (n - 1) as nat) + m
    }
}

/// The wake-on-LAN magic packet for the MAC bytes `m`: six `0xFF` bytes,
/// then `m` sixteen times.
pub open spec fn magic_packet(m: Seq<u8>) -> Seq<u8> {
    seq![0xffu8, 0xffu8, 0xffu8, 0xffu8, 0xffu8, 0xffu8] + repeated(m, 16)
}

/// Whether `c` is a hexadecimal digit, in either case.
pub open spec fn is_hex_digit(c: char) -> bool {
    ('0' <= c && c <= '9') || ('a' <= c && c <= 'f') || ('A' <= c && c <= 'F')
}

/// The value of the hexadecimal digit `c`.
pub open spec fn hex_value(c: char) -> int {
    if '0' <= c && c <= '9' {
        c as int - '0' as int
    } else if 'a' <= c && c <= 'f' {
        c as int - 'a' as int + 10
    } else {
        c as int - 'A' as int + 10
    }
}

/// The characters of `mac` other than `:`.
pub open spec fn hex_digits(mac: Seq<char>) -> Seq<char> {
    mac.filter(|c: char| c != ':')
}

/// The bytes of the MAC address written as text in `mac`, as
/// `wakey::WolPacket::from_string` with `:` as separator reads them: 17
/// characters, five of them `:`, splitting the rest into groups of an even
/// number of hexadecimal digits; the digits, read in pairs, give the six
/// bytes. `None` for any other text.
pub open spec fn mac_bytes(mac: Seq<char>) -> Option<Seq<u8>> {
    let d = hex_digits(mac);
    if mac.len() == 17 && colon_count(mac) == 5
        && (forall|k: int| 0 <= k < mac.len() && mac[k] != ':' ==> is_hex_digit(#[trigger] mac[k]))
        && (forall|k: int| 0 <= k < mac.len() && #[trigger] mac[k] == ':' ==> hex_digits(mac.take(k)).len() % 2 == 0) {
        Some(Seq::new(6, |i: int| (hex_value(d[2 * i]) * 16 + hex_value(d[2 * i + 1])) as u8))
    } else {
        None
    }
}

/// Calls `wakey::WolPacket::from_string` with `:` as the separator and hands
/// back the bytes of the packet it builds. It accepts the texts `mac_bytes`
/// reads (a length of 17 bytes, then each `:`-separated group decoded as
/// hexadecimal by the `hex` crate); the packet is six `0xFF` bytes followed
/// by the six bytes read sixteen times. The call panics on some texts of 17 bytes that do not hold exactly
/// five separators (its fixed-size buffers overflow), so those are left out.
#[verifier::external_body]
fn wol_packet(mac: &str) -> (r: Option<Vec<u8>>)
    requires
        colon_count(mac@) == 5,
    ensures
        r is Some <==> mac_bytes(mac@) is Some,
        r matches Some(p) ==> mac_bytes(mac@)->0.len() == 6 && p@ == magic_packet(mac_bytes(mac@)->0),
{
    match wakey::WolPacket::from_string(mac, ':') {
        Ok(packet) => Some(packet.into_inner().to_vec()),
        Err(_) => None,
    }
}

/// The number of `:` characters in `s`.
fn count_colons(s: &str) -> (n: usize)
    ensures
        n == colon_count(s@),
{
    let len = s.unicode_len();
    let mut n: usize = 0;
    let mut i: usize = 0;
    while i < len
        invariant
            len == s@.len(),
            i <= len,
            n == colon_count(s@.take(i as int)),
            n <= i,
        decreases len - i,
    {
        let c = s.get_char(i);
        assert(s@.take(i + 1).drop_last() =~= s@.take(i as int));
        if c == ':' {
            n = n + 1;
        }
        i = i + 1;
    }
    assert(s@.take(len as int) =~= s@);
    n
}

/// The packet that wakes the machine with the MAC address text `mac`: none
/// when the text does not hold exactly five `:` separators or is not a MAC
/// address.
pub open spec fn wake_packet(mac: Seq<char>) -> Option<Seq<u8>> {
    if colon_count(mac) == 5 {
        match mac_bytes(mac) {
            Some(m) => Some(magic_packet(m)),
            None => None,
        }
    } else {
        None
    }
}

/// The bytes of an optional packet.
pub open spec fn packet_bytes(p: Option<Vec<u8>>) -> Option<Seq<u8>> {
    match p {
        Some(v) => Some(v@),
        None => None,
    }
}

/// The wake-on-LAN packets to send: for each host to wake (those of
/// `wake_targets`, in the same order), its colon-separated MAC address and
/// the magic packet for it, or `None` where the address is not one.
pub fn wake_packets(hosts: &Vec<Host>, host_ids: &Vec<i64>) -> (r: Vec<(String, Option<Vec<u8>>)>)
    ensures
        r@.len() == wake_macs(hosts@, host_ids@).len(),
        forall|i: int|
            0 <= i < r@.len() ==> {
                &&& (#[trigger] r@[i]).0@ == wake_macs(hosts@, host_ids@)[i]
                &&& packet_bytes(r@[i].1) == wake_packet(wake_macs(hosts@, host_ids@)[i])
            },
{
    let macs = wake_targets(hosts, host_ids);
    let ghost want = wake_macs(hosts@, host_ids@);
    assert(macs@.map_values(|m: String| m@).len() == macs@.len());
    let mut r: Vec<(String, Option<Vec<u8>>)> = Vec::new();
    let mut i: usize = 0;
    while i < macs.len()
        invariant
            i <= macs.len(),
            macs@.map_values(|m: String| m@) == want,
            want == wake_macs(hosts@, host_ids@),
            r@.len() == i,
            forall|k: int|
                0 <= k < i ==> {
                    &&& (#[trigger] r@[k]).0@ == want[k]
                    &&& packet_bytes(r@[k].1) == wake_packet(want[k])
                },
        decreases macs.len() - i,
    {
        let mac = macs[i].clone();
        assert(mac@ == want[i as int]);
        let packet = if count_colons(mac.as_str()) == 5 {
            wol_packet(mac.as_str())
        } else {
            None
        };
        r.push((mac, packet));
        i = i + 1;
    }
    r
}

} // verus!
