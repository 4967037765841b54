//! Groups: named sets of hosts, e.g. the machines of one lab.
use vstd::prelude::*;

verus! {

/// A named group of hosts.
#[derive(Debug)]
pub struct Group {
    pub id: i64,
    pub name: String,
}

impl Group {
    pub fn new(id: i64, name: String) -> (g: Group)
        ensures
            g.id == id,
            g.name == name,
    {
        Group { id, name }
    }
}

} // verus!
