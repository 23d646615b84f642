use vstd::prelude::*;
use crate::backend::{BackendCommand, CommandOutput, StorageError};
use crate::btrfs::BtrfsDriver;
use crate::types::{Subvolume, TargetRoots};

verus! {

/// The capabilities of a copy-on-write storage backend that the root switch needs.
/// Each answer is derived from the backend output it is handed; operations that
/// change the filesystem hand back the command to run, if any.
pub trait StorageManager {
    /// The subvolume mounted at `/`.
    fn get_current_root(
        &self,
        source: &CommandOutput,
        rootid: &CommandOutput,
        show: &CommandOutput,
    ) -> Result<Subvolume, StorageError>;

    /// The slot that is not running, the deployment target.
    fn get_next_target(
        &self,
        source: &CommandOutput,
        rootid: &CommandOutput,
        show: &CommandOutput,
    ) -> Result<TargetRoots, StorageError>;

    /// Whether a subvolume of exactly that name exists.
    fn subvolume_exists(&self, listing: &CommandOutput, name: &str) -> Result<bool, StorageError>;

    /// The command that deletes a subvolume, if it exists and is not the running root.
    /// No backend hands back a command that deletes the subvolume mounted at `/`.
    fn delete_subvolume(&self, current: &Subvolume, listing: &CommandOutput, name: &str) -> (r: Result<
        Option<BackendCommand>,
        StorageError,
    >)
        ensures
            r matches Ok(Some(_)) ==> name@ != current.path@,
    ;

    /// The command that creates an empty subvolume, unless it exists.
    fn create_subvolume(&self, listing: &CommandOutput, name: &str) -> Result<
        Option<BackendCommand>,
        StorageError,
    >;

    /// The command that mounts a subvolume at a path. No backend mounts anything at
    /// `/`, where the running root is.
    fn mount_subvolume(&self, source: &CommandOutput, name: &str, target: &str) -> (r: Result<
        BackendCommand,
        StorageError,
    >)
        ensures
            target@ == "/"@ ==> r is Err,
    ;
}

impl StorageManager for BtrfsDriver {
    fn get_current_root(
        &self,
        source: &CommandOutput,
        rootid: &CommandOutput,
        show: &CommandOutput,
    ) -> Result<Subvolume, StorageError> {
        BtrfsDriver::get_current_root(self, source, rootid, show)
    }

    fn get_next_target(
        &self,
        source: &CommandOutput,
        rootid: &CommandOutput,
        show: &CommandOutput,
    ) -> Result<TargetRoots, StorageError> {
        BtrfsDriver::get_next_target(self, source, rootid, show)
    }

    fn subvolume_exists(&self, listing: &CommandOutput, name: &str) -> Result<bool, StorageError> {
        BtrfsDriver::subvolume_exists(self, listing, name)
    }

    fn delete_subvolume(&self, current: &Subvolume, listing: &CommandOutput, name: &str) -> Result<
        Option<BackendCommand>,
        StorageError,
    > {
        BtrfsDriver::delete_subvolume(self, current, listing, name)
    }

    fn create_subvolume(&self, listing: &CommandOutput, name: &str) -> Result<
        Option<BackendCommand>,
        StorageError,
    > {
        BtrfsDriver::create_subvolume(self, listing, name)
    }

    fn mount_subvolume(&self, source: &CommandOutput, name: &str, target: &str) -> Result<
        BackendCommand,
        StorageError,
    > {
        BtrfsDriver::mount_subvolume(self, source, name, target)
    }
}

} // verus!
