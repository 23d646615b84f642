use vstd::prelude::*;

verus! {

/// The two mutually exclusive root slots of the dual-root layout.
#[derive(Debug, Clone, Copy, PartialEq, Eq, Structural)]
pub enum TargetRoots {
    A,
    B,
}

/// The canonical subvolume name of a slot, as a sequence of characters.
pub open spec fn slot_name(slot: TargetRoots) -> Seq<char> {
    match slot {
        TargetRoots::A => "@active_a"@,
        TargetRoots::B => "@active_b"@,
    }
}

impl TargetRoots {
    /// The canonical subvolume name backing this slot.
    pub fn as_str(&self) -> (r: &'static str)
        ensures
            r@ == slot_name(*self),
    {
        match self {
            TargetRoots::A => "@active_a",
            TargetRoots::B => "@active_b",
        }
    }
}

/// The slot that is not `slot`.
pub open spec fn other_slot(slot: TargetRoots) -> TargetRoots {
    match slot {
        TargetRoots::A => TargetRoots::B,
        TargetRoots::B => TargetRoots::A,
    }
}

/// The path reported for the root subvolume when the mount source names none.
pub open spec fn unresolved_path() -> Seq<char> {
    "unknown"@
}

/// One named, independently mountable copy-on-write filesystem tree.
#[derive(Debug, Clone, PartialEq)]
pub struct Subvolume {
    /// Filesystem-assigned numeric identifier.
    pub id: u64,
    /// Location relative to the filesystem's top-level root.
    pub path: String,
    /// Filesystem-assigned stable identifier.
    pub uuid: String,
    /// The subvolume this one was snapshotted from, if known.
    pub parent_uuid: Option<String>,
}

} // verus!
