//! The data model: filesystems, subvolumes, mount entries, snapshot flags,
//! together with the mathematical views and well-formedness predicates that
//! the contracts of the core are stated over.
//!
//! Filesystem and subvolume identifiers are 128-bit values, the numeric form
//! of the UUIDs that the filesystem itself assigns.

use vstd::prelude::*;

verus! {

/// Snapshot semantics selected by a `create_snapshot` request.
#[derive(Clone, Copy, PartialEq, Eq, Structural, Debug)]
pub enum SnapshotFlags {
    /// The snapshot is created read-only.
    ReadOnly,
    /// The snapshot is created writable.
    Writable,
}

/// One subvolume path of a filesystem together with the host directories
/// where it is currently mounted (possibly none).
#[derive(Debug, PartialEq, Eq)]
pub struct MountEntry {
    /// The subvolume's path within the filesystem namespace.
    pub subvol_path: String,
    /// The host-visible directories where that subvolume is mounted.
    pub mount_dirs: Vec<String>,
}

/// Mathematical view of a [`MountEntry`].
pub ghost struct MountEntryView {
    pub subvol_path: Seq<char>,
    pub mount_dirs: Seq<Seq<char>>,
}

impl View for MountEntry {
    type V = MountEntryView;

    open spec fn view(&self) -> MountEntryView {
        MountEntryView {
            subvol_path: self.subvol_path@,
            mount_dirs: self.mount_dirs.deep_view(),
        }
    }
}

/// A Btrfs filesystem as known to the registry.
#[derive(Debug, PartialEq, Eq)]
pub struct BtrfsFilesystem {
    /// Optional human-readable name; not guaranteed unique.
    pub label: Option<String>,
    /// Identifier assigned by the filesystem itself; the primary key.
    pub uuid: u128,
    /// Backing device paths; non-empty for a registered filesystem.
    pub devices: Vec<String>,
    /// Mount directories by subvolume path.
    pub mounts: Vec<MountEntry>,
}

/// Mathematical view of a [`BtrfsFilesystem`].
pub ghost struct BtrfsFilesystemView {
    pub label: Option<Seq<char>>,
    pub uuid: u128,
    pub devices: Seq<Seq<char>>,
    pub mounts: Seq<MountEntryView>,
}

impl View for BtrfsFilesystem {
    type V = BtrfsFilesystemView;

    open spec fn view(&self) -> BtrfsFilesystemView {
        BtrfsFilesystemView {
            label: match self.label {
                Option::Some(l) => Option::Some(l@),
                Option::None => Option::None,
            },
            uuid: self.uuid,
            devices: self.devices.deep_view(),
            mounts: Seq::new(self.mounts@.len(), |i: int| self.mounts@[i]@),
        }
    }
}

/// A filesystem record is well-formed when it names at least one backing
/// device and its mount table has at most one entry per subvolume path.
pub open spec fn fs_wf(f: BtrfsFilesystemView) -> bool {
    &&& f.devices.len() > 0
    &&& forall|i: int, j: int|
        0 <= i < j < f.mounts.len() ==> f.mounts[i].subvol_path != f.mounts[j].subvol_path
}

/// Whether, according to the filesystem record `f`, the subvolume at `path`
/// is currently mounted somewhere.
pub open spec fn is_mounted(f: BtrfsFilesystemView, path: Seq<char>) -> bool {
    exists|i: int|
        0 <= i < f.mounts.len() && f.mounts[i].subvol_path == path && f.mounts[i].mount_dirs.len()
            > 0
}

/// What the filesystem driver reports back for a successfully created
/// snapshot: the identifier the filesystem assigned to the new subvolume,
/// and the creation timestamp.
#[derive(Clone, Copy, PartialEq, Eq, Structural, Debug)]
pub struct SnapshotReply {
    /// Identifier of the new subvolume, assigned by the filesystem.
    pub uuid: u128,
    /// Creation timestamp, in seconds since the epoch.
    pub created: u64,
}

/// A tracked subvolume of some filesystem.
#[derive(Debug, PartialEq, Eq)]
pub struct Subvolume {
    /// The subvolume's location within its filesystem's namespace.
    pub path: String,
    /// Identifier unique within the owning filesystem.
    pub uuid: u128,
    /// Creation timestamp, in seconds since the epoch.
    pub created: u64,
    /// The subvolume this one was snapshotted from, if any. A historical
    /// back-reference: the source may since have been deleted.
    pub snapshot_source_uuid: Option<u128>,
}

/// Mathematical view of a [`Subvolume`].
pub ghost struct SubvolumeView {
    pub path: Seq<char>,
    pub uuid: u128,
    pub created: u64,
    pub snapshot_source_uuid: Option<u128>,
}

impl View for Subvolume {
    type V = SubvolumeView;

    open spec fn view(&self) -> SubvolumeView {
        SubvolumeView {
            path: self.path@,
            uuid: self.uuid,
            created: self.created,
            snapshot_source_uuid: self.snapshot_source_uuid,
        }
    }
}

impl Default for Subvolume {
    /// The empty subvolume record: empty path, zero identifier, the epoch
    /// as creation time, and no snapshot source.
    fn default() -> (s: Subvolume)
        ensures
            s@.path == Seq::<char>::empty(),
            s@.uuid == 0,
            s@.created == 0,
            s@.snapshot_source_uuid is None,
    {
        Subvolume {
            path: String::new(),
            uuid: 0,
            created: 0,
            snapshot_source_uuid: Option::None,
        }
    }
}

impl Subvolume {
    /// A field-for-field copy of this record.
    pub fn duplicate(&self) -> (r: Subvolume)
        ensures
            r@ == self@,
    {
        Subvolume {
            path: self.path.clone(),
            uuid: self.uuid,
            created: self.created,
            snapshot_source_uuid: self.snapshot_source_uuid,
        }
    }
}

/// Copies a vector of strings, preserving its contents.
pub fn clone_string_vec(v: &Vec<String>) -> (r: Vec<String>)
    ensures
        r.deep_view() == v.deep_view(),
{
    let mut r: Vec<String> = Vec::new();
    let mut i: usize = 0;
    while i < v.len()
        invariant
            0 <= i <= v.len(),
            r.deep_view() =~= v.deep_view().take(i as int),
        decreases v.len() - i,
    {
        let ghost pre = r.deep_view();
        r.push(v[i].clone());
        i = i + 1;
        proof {
            assert(r.deep_view() =~= pre.push(v@[i - 1]@));
            assert(r.deep_view() =~= v.deep_view().take(i as int));
        }
    }
    proof {
        assert(r.deep_view() =~= v.deep_view());
    }
    r
}

impl MountEntry {
    /// A field-for-field copy of this entry.
    pub fn duplicate(&self) -> (r: MountEntry)
        ensures
            r@ == self@,
    {
        MountEntry { subvol_path: self.subvol_path.clone(), mount_dirs: clone_string_vec(
            &self.mount_dirs,
        ) }
    }
}

impl BtrfsFilesystem {
    /// A field-for-field copy of this record.
    pub fn duplicate(&self) -> (r: BtrfsFilesystem)
        ensures
            r@ == self@,
    {
        let label: Option<String> = match &self.label {
            Option::Some(l) => Option::Some(l.clone()),
            Option::None => Option::None,
        };
        let mut mounts: Vec<MountEntry> = Vec::new();
        let mut i: usize = 0;
        while i < self.mounts.len()
            invariant
                0 <= i <= self.mounts.len(),
                Seq::new(mounts@.len(), |k: int| mounts@[k]@) =~= Seq::new(
                    self.mounts@.len(),
                    |k: int| self.mounts@[k]@,
                ).take(i as int),
            decreases self.mounts.len() - i,
        {
            let ghost pre = Seq::new(mounts@.len(), |k: int| mounts@[k]@);
            mounts.push(self.mounts[i].duplicate());
            i = i + 1;
            proof {
                assert(Seq::new(mounts@.len(), |k: int| mounts@[k]@) =~= pre.push(
                    self.mounts@[i - 1]@,
                ));
                assert(Seq::new(mounts@.len(), |k: int| mounts@[k]@) =~= Seq::new(
                    self.mounts@.len(),
                    |k: int| self.mounts@[k]@,
                ).take(i as int));
            }
        }
        let r = BtrfsFilesystem {
            label,
            uuid: self.uuid,
            devices: clone_string_vec(&self.devices),
            mounts,
        };
        proof {
            assert(r@.mounts =~= self@.mounts);
            assert(r@ == self@);
        }
        r
    }
}

} // verus!
