//! The request/response boundary of the daemon.
//!
//! [`DaemonInterface`] is the wire contract: the set of operations a client
//! can invoke, each returning its result or a single message-carrying
//! [`Error`]. The daemon side implements it over [`crate::daemon::Daemon`],
//! performing the physical filesystem work between `begin_mutation` and the
//! matching `finish_*` call; that glue, which talks to the driver, lives
//! outside the verified core.

use vstd::prelude::*;
use crate::data::{BtrfsFilesystem, SnapshotFlags, Subvolume};
use crate::error::{error_message, render_error, Error, ErrorKind};

verus! {

/// The operations the daemon offers to external callers.
///
/// Every internal failure kind is rendered as the single message-carrying
/// [`Error`]; clients distinguish failure causes only by message text.
pub trait DaemonInterface {
    /// All currently known Btrfs filesystems.
    fn list_filesystems(&mut self) -> Result<Vec<BtrfsFilesystem>, Error>;

    /// The identifier of the filesystem selected for operations, if any.
    fn filesystem(&self) -> Option<u128>;

    /// Selects a filesystem; returns whether the selection changed.
    fn set_filesystem(&mut self, fs: BtrfsFilesystem) -> Result<bool, Error>;

    /// The subvolumes of the active filesystem, with lineage.
    fn list_subvolumes(&self) -> Result<Vec<Subvolume>, Error>;

    /// Relocates a subvolume of the active filesystem.
    fn move_subvolume(&mut self, from: String, to: String) -> Result<(), Error>;

    /// Removes a subvolume of the active filesystem.
    fn delete_subvolume(&mut self, path: String) -> Result<(), Error>;

    /// Creates a snapshot of a subvolume of the active filesystem.
    fn create_snapshot(&mut self, src: String, dest: String, flags: SnapshotFlags) -> Result<
        Subvolume,
        Error,
    >;

    /// Whether scheduled snapshots are enabled.
    fn is_schedule_enabled(&self) -> bool;

    /// Enables or disables scheduled snapshots; idempotent.
    fn set_is_schedule_enabled(&mut self, is_enabled: bool) -> Result<(), Error>;
}

/// Renders an internal result as the boundary result: the value is passed
/// through, and a failure kind becomes the message-carrying error.
pub fn to_boundary<T>(r: Result<T, ErrorKind>) -> (out: Result<T, Error>)
    ensures
        match r {
            Result::Ok(v) => out is Ok && out.unwrap() == v,
            Result::Err(k) => out is Err && (out->Err_0)@ == error_message(k),
        },
{
    match r {
        Result::Ok(v) => Result::Ok(v),
        Result::Err(k) => Result::Err(render_error(k)),
    }
}

} // verus!
