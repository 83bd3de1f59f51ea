use vstd::prelude::*;

verus! {

/// The two settings of one dataset's reaper: how long an entry lives, in
/// seconds, and how many keys one deletion takes.
#[derive(Clone, Copy, Debug, PartialEq, Eq, Structural)]
pub struct Task1Settings {
    pub expiry_time: u64,
    pub deletion_bulk_count: usize,
}

} // verus!
