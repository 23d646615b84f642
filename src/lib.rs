//! The dual-root (blue/green) subvolume manager of the JigOS installer: which of
//! two root subvolumes is running, which one is the next deployment target, and the
//! create, delete and mount requests on subvolumes, all derived from captured
//! backend output. The installer's step sequencing stands beside it.

pub mod backend;
pub mod btrfs;
pub mod installer;
pub mod storage;
pub mod text;
pub mod types;
