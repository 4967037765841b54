//! Hosts: machines known to the server, identified by their MAC address.
use vstd::prelude::*;
use vstd::string::*;
use crate::text::{push_replacing, replace_char};

verus! {

/// A known machine.
#[derive(Debug)]
pub struct Host {
    pub id: i64,
    pub name: String,
    pub mac_address: String,
    pub disk_size: u64,
    pub ip: Option<String>,
}

impl Host {
    pub fn new(id: i64, name: String, mac_address: String, disk_size: u64, ip: Option<String>) -> (h: Host)
        ensures
            h.id == id,
            h.name == name,
            h.mac_address == mac_address,
            h.disk_size == disk_size,
            h.ip == ip,
    {
        Host { id, name, mac_address, disk_size, ip }
    }

    /// A host from its stored row. Disk sizes are stored as signed 64-bit
    /// integers and reinterpreted bit for bit as unsigned.
    pub fn from_row(id: i64, name: String, mac: String, disk_size_bytes: i64, ip: Option<String>) -> (h: Host)
        ensures
            h.id == id,
            h.name == name,
            h.mac_address == mac,
            h.disk_size == disk_size_bytes as u64,
            h.ip == ip,
    {
        Host { id, name, mac_address: mac, disk_size: disk_size_bytes as u64, ip }
    }
}

/// The name a host gets when it first connects: its MAC address with every
/// `:` written as `-`.
pub fn default_host_name(mac_address: &str) -> (name: String)
    ensures
        name@ == replace_char(mac_address@, ':', '-'),
{
    let mut name = String::new();
    push_replacing(&mut name, mac_address, ':', '-');
    assert(name@ =~= replace_char(mac_address@, ':', '-'));
    name
}

/// The signed 64-bit value a disk size is stored as.
pub fn stored_disk_size(disk_size_bytes: u64) -> (stored: i64)
    ensures
        stored == disk_size_bytes as i64,
{
    disk_size_bytes as i64
}

/// Storing a disk size and reading it back gives the same size, for every
/// size including those above `i64::MAX` (which are stored as negatives).
pub proof fn lemma_disk_size_round_trips(size: u64)
    ensures
        ((size as i64) as u64) == size,
        size > 0x7fff_ffff_ffff_ffff ==> (size as i64) < 0,
{
    assert(((size as i64) as u64) == size) by (bit_vector);
    assert(size > 0x7fff_ffff_ffff_ffff ==> (size as i64) < 0) by (bit_vector);
}

} // verus!
