use vstd::prelude::*;

verus! {

/// Base port for a single file in a multicast transfer.
///
/// Every file (partition table and each partition) gets its own slot, and
/// every slot owns two ports: the sender binds `port`, the group carries the
/// traffic on `port + 1`. Slot 0 is the partition table, slot N is partition
/// number N.
pub const MULTICAST_PORT_BASE: u16 = 50_000;

/// The largest valid slot: `(u16::MAX - MULTICAST_PORT_BASE - 2) / 2`.
pub const MAX_MULTICAST_SLOT: i64 = 7766;

/// The port every out-of-range slot is mapped to. It is odd, so no valid slot
/// can claim it as its sender port, and it lies above every valid group port.
pub const SENTINEL_PORT: u16 = 65535;

/// Whether `slot` is inside the domain of `get_multicast_port`.
pub open spec fn valid_slot(slot: int) -> bool {
    0 <= slot <= MAX_MULTICAST_SLOT
}

/// The port of a slot, as a mathematical function.
pub open spec fn multicast_port(slot: int) -> int {
    if valid_slot(slot) {
        MULTICAST_PORT_BASE + 2 * slot
    } else {
        SENTINEL_PORT as int
    }
}

/// Maps a transfer slot to the sender port of its file. Valid slots land on the
/// even ports `50000..=65532`; any other slot gets the odd sentinel `65535`.
pub fn get_multicast_port(slot: i64) -> (port: u16)
    ensures
        port == multicast_port(slot as int),
{
    if 0 <= slot && slot <= MAX_MULTICAST_SLOT {
        MULTICAST_PORT_BASE + (slot as u16) * 2
    } else {
        SENTINEL_PORT
    }
}

/// The constant `MAX_MULTICAST_SLOT` is the largest slot whose group port
/// (`port + 1`) still fits below the sentinel, and the next slot would not.
pub proof fn lemma_max_slot_is_the_last_fitting_slot()
    ensures
        MAX_MULTICAST_SLOT == (SENTINEL_PORT - MULTICAST_PORT_BASE - 2) / 2,
        multicast_port(MAX_MULTICAST_SLOT as int) + 1 < SENTINEL_PORT,
        MULTICAST_PORT_BASE + 2 * (MAX_MULTICAST_SLOT + 1) + 1 >= SENTINEL_PORT,
{
}

/// Every valid slot maps to an even port inside the dynamic range, at its even
/// offset from the base.
pub proof fn lemma_valid_slot_port(slot: int)
    requires
        valid_slot(slot),
    ensures
        multicast_port(slot) == MULTICAST_PORT_BASE + 2 * slot,
        multicast_port(slot) % 2 == 0,
        MULTICAST_PORT_BASE <= multicast_port(slot) <= 65532,
{
}

/// No two distinct valid slots share a port: neither their sender ports nor
/// their group ports, nor one's sender port with the other's group port.
pub proof fn lemma_valid_slots_never_collide(a: int, b: int)
    requires
        valid_slot(a),
        valid_slot(b),
        a != b,
    ensures
        multicast_port(a) != multicast_port(b),
        multicast_port(a) + 1 != multicast_port(b),
        multicast_port(a) != multicast_port(b) + 1,
        multicast_port(a) + 1 != multicast_port(b) + 1,
{
}

/// An out-of-range slot gets the sentinel, and the sentinel is neither the
/// sender port nor the group port of any valid slot.
pub proof fn lemma_invalid_slot_never_aliases(bad: int, good: int)
    requires
        !valid_slot(bad),
        valid_slot(good),
    ensures
        multicast_port(bad) == SENTINEL_PORT,
        SENTINEL_PORT % 2 == 1,
        multicast_port(bad) != multicast_port(good),
        multicast_port(bad) != multicast_port(good) + 1,
{
}

} // verus!
