//! Fixtures for end-to-end runs: MAC addresses for hosts that do not exist.
use vstd::prelude::*;
use vstd::string::*;
use crate::text::{hex2, hex_char, push_hex2, push_str};

verus! {

/// The MAC address made from the low 24 bits of `n`: the locally
/// administered unicast prefix `02:00:00`, then those bits as three
/// lowercase two-digit hexadecimal octets, high octet first.
pub open spec fn mac_text(n: u64) -> Seq<char> {
    "02:00:00:"@ + hex2(((n >> 16u64) & 0xffu64) as int) + ":"@ + hex2(((n >> 8u64) & 0xffu64) as int)
        + ":"@ + hex2((n & 0xffu64) as int)
}

/// Returns the MAC address for the current value of `counter` and advances
/// the counter by one (wrapping), so that each call gives a fresh address.
pub fn unique_mac(counter: &mut u64) -> (mac: String)
    ensures
        mac@ == mac_text(*old(counter)),
        *final(counter) == (if *old(counter) == u64::MAX { 0 } else { *old(counter) + 1 }),
{
    let n = *counter;
    *counter = n.wrapping_add(1);
    let high = (n >> 16u64) & 0xffu64;
    let middle = (n >> 8u64) & 0xffu64;
    let low = n & 0xffu64;
    assert(high < 256 && middle < 256 && low < 256) by (bit_vector)
        requires
            high == (n >> 16u64) & 0xffu64,
            middle == (n >> 8u64) & 0xffu64,
            low == n & 0xffu64,
    ;
    let mut mac = String::new();
    push_str(&mut mac, "02:00:00:");
    push_hex2(&mut mac, high);
    push_str(&mut mac, ":");
    push_hex2(&mut mac, middle);
    push_str(&mut mac, ":");
    push_hex2(&mut mac, low);
    assert(mac@ =~= mac_text(n));
    mac
}

proof fn lemma_hex2_injective(a: int, b: int)
    requires
        0 <= a < 256,
        0 <= b < 256,
        hex2(a) == hex2(b),
    ensures
        a == b,
{
    assert(hex2(a)[0] == hex2(b)[0]);
    assert(hex2(a)[1] == hex2(b)[1]);
    assert(hex_char(a / 16) == hex_char(b / 16));
    assert(hex_char(a % 16) == hex_char(b % 16));
    assert(a / 16 == b / 16);
    assert(a % 16 == b % 16);
}

/// The MAC addresses of two counter values differ whenever the values differ
/// in their low 24 bits: the first 2^24 calls of `unique_mac` from one
/// starting value give pairwise distinct addresses.
pub proof fn lemma_macs_distinct(a: u64, b: u64)
    requires
        a % 0x100_0000 != b % 0x100_0000,
    ensures
        mac_text(a) != mac_text(b),
{
    let (ah, am, al) = ((a >> 16u64) & 0xffu64, (a >> 8u64) & 0xffu64, a & 0xffu64);
    let (bh, bm, bl) = ((b >> 16u64) & 0xffu64, (b >> 8u64) & 0xffu64, b & 0xffu64);
    assert(ah < 256 && am < 256 && al < 256 && bh < 256 && bm < 256 && bl < 256
        && a % 0x100_0000 == ah * 0x1_0000 + am * 0x100 + al
        && b % 0x100_0000 == bh * 0x1_0000 + bm * 0x100 + bl) by (bit_vector)
        requires
            ah == (a >> 16u64) & 0xffu64,
            am == (a >> 8u64) & 0xffu64,
            al == a & 0xffu64,
            bh == (b >> 16u64) & 0xffu64,
            bm == (b >> 8u64) & 0xffu64,
            bl == b & 0xffu64,
    ;
    if mac_text(a) == mac_text(b) {
        reveal_strlit("02:00:00:");
        reveal_strlit(":");
        let ta = mac_text(a);
        let tb = mac_text(b);
        assert(ta.subrange(9, 11) =~= hex2(ah as int));
        assert(tb.subrange(9, 11) =~= hex2(bh as int));
        assert(ta.subrange(12, 14) =~= hex2(am as int));
        assert(tb.subrange(12, 14) =~= hex2(bm as int));
        assert(ta.subrange(15, 17) =~= hex2(al as int));
        assert(tb.subrange(15, 17) =~= hex2(bl as int));
        lemma_hex2_injective(ah as int, bh as int);
        lemma_hex2_injective(am as int, bm as int);
        lemma_hex2_injective(al as int, bl as int);
    }
}

} // verus!
