//! The filesystem registry: the set of currently known Btrfs filesystems and
//! the active selection. Records are created by discovery and replaced
//! wholesale on re-discovery; the filesystem uuid is the primary key and is
//! unique across the registry.

use vstd::prelude::*;
use crate::data::{fs_wf, BtrfsFilesystem, BtrfsFilesystemView};
use crate::error::ErrorKind;

verus! {

/// Views of a sequence of filesystem records.
pub open spec fn fs_views(s: Seq<BtrfsFilesystem>) -> Seq<BtrfsFilesystemView> {
    Seq::new(s.len(), |i: int| s[i]@)
}

/// Whether some record in `s` carries the uuid `uuid`.
pub open spec fn has_fs(s: Seq<BtrfsFilesystemView>, uuid: u128) -> bool {
    exists|i: int| 0 <= i < s.len() && s[i].uuid == uuid
}

/// The index of the record carrying `uuid`; meaningful only when `has_fs`.
pub open spec fn fs_index(s: Seq<BtrfsFilesystemView>, uuid: u128) -> int {
    choose|i: int| 0 <= i < s.len() && s[i].uuid == uuid
}

/// A discovery result is acceptable when every record is well-formed and no
/// two records carry the same uuid.
pub open spec fn fs_seq_wf(s: Seq<BtrfsFilesystemView>) -> bool {
    &&& forall|i: int| 0 <= i < s.len() ==> fs_wf(#[trigger] s[i])
    &&& forall|i: int, j: int| 0 <= i < j < s.len() ==> s[i].uuid != s[j].uuid
}

/// Whether, according to the registry, the subvolume at `path` of the
/// filesystem `fs` is currently mounted somewhere. False when the
/// filesystem is not registered: the registry then has no mount knowledge.
pub open spec fn mounted_in_registry(r: RegistryView, fs: u128, path: Seq<char>) -> bool {
    has_fs(r.filesystems, fs) && crate::data::is_mounted(
        r.filesystems[fs_index(r.filesystems, fs)],
        path,
    )
}

/// Mathematical view of the registry.
pub ghost struct RegistryView {
    pub filesystems: Seq<BtrfsFilesystemView>,
    pub active: Option<u128>,
}

/// The registry of known filesystems, plus the active selection.
#[derive(Debug)]
pub struct Registry {
    filesystems: Vec<BtrfsFilesystem>,
    active: Option<u128>,
}

impl View for Registry {
    type V = RegistryView;

    closed spec fn view(&self) -> RegistryView {
        RegistryView { filesystems: fs_views(self.filesystems@), active: self.active }
    }
}

/// The registry invariant: its records form an acceptable discovery result,
/// and the active selection, when present, names a registered filesystem.
pub open spec fn registry_wf(r: RegistryView) -> bool {
    &&& fs_seq_wf(r.filesystems)
    &&& match r.active {
        Option::Some(u) => has_fs(r.filesystems, u),
        Option::None => true,
    }
}

/// Checks that a single discovered record is well-formed: at least one
/// backing device, and at most one mount entry per subvolume path.
fn check_fs_record(f: &BtrfsFilesystem) -> (ok: bool)
    ensures
        ok == fs_wf(f@),
{
    if f.devices.len() == 0 {
        return false;
    }
    let mut i: usize = 0;
    while i < f.mounts.len()
        invariant
            0 <= i <= f.mounts.len(),
            f.devices@.len() > 0,
            forall|a: int, b: int|
                0 <= a < b < i ==> f@.mounts[a].subvol_path != f@.mounts[b].subvol_path,
        decreases f.mounts.len() - i,
    {
        let mut j: usize = 0;
        while j < i
            invariant
                0 <= j <= i < f.mounts.len(),
                forall|b: int| 0 <= b < j ==> f@.mounts[b].subvol_path != f@.mounts[i as int].subvol_path,
            decreases i - j,
        {
            if f.mounts[j].subvol_path == f.mounts[i].subvol_path {
                proof {
                    assert(f@.mounts[j as int].subvol_path == f@.mounts[i as int].subvol_path);
                    assert(!fs_wf(f@));
                }
                return false;
            }
            j = j + 1;
        }
        i = i + 1;
    }
    proof {
        assert(fs_wf(f@));
    }
    true
}

/// Finds the index of the record carrying `uuid`, if any.
pub(crate) fn find_fs(v: &Vec<BtrfsFilesystem>, uuid: u128) -> (r: Option<usize>)
    ensures
        match r {
            Option::Some(i) => i < v@.len() && v@[i as int]@.uuid == uuid,
            Option::None => !has_fs(fs_views(v@), uuid),
        },
{
    let mut i: usize = 0;
    while i < v.len()
        invariant
            0 <= i <= v.len(),
            forall|k: int| 0 <= k < i ==> fs_views(v@)[k].uuid != uuid,
        decreases v.len() - i,
    {
        if v[i].uuid == uuid {
            return Option::Some(i);
        }
        i = i + 1;
    }
    Option::None
}

impl Registry {
    /// An empty registry: no filesystems known, none selected.
    pub fn new() -> (r: Registry)
        ensures
            r@.filesystems == Seq::<BtrfsFilesystemView>::empty(),
            r@.active is None,
            registry_wf(r@),
    {
        let r = Registry { filesystems: Vec::new(), active: Option::None };
        proof {
            assert(r@.filesystems =~= Seq::<BtrfsFilesystemView>::empty());
        }
        r
    }

    /// Replaces the registry contents with a fresh discovery result.
    ///
    /// Rejects the result with `Discovery` when a record has no backing
    /// device, duplicates a mount path, or duplicates another record's uuid;
    /// the registry is then unchanged. On success the records are installed,
    /// and the active selection is kept exactly when it still names one of
    /// the new records, and cleared otherwise.
    pub fn refresh(&mut self, discovered: Vec<BtrfsFilesystem>) -> (r: Result<(), ErrorKind>)
        requires
            registry_wf(old(self)@),
        ensures
            registry_wf(final(self)@),
            match r {
                Result::Ok(()) => {
                    &&& fs_seq_wf(fs_views(discovered@))
                    &&& final(self)@.filesystems == fs_views(discovered@)
                    &&& final(self)@.active == (match old(self)@.active {
                        Option::Some(u) => if has_fs(fs_views(discovered@), u) {
                            Option::Some(u)
                        } else {
                            Option::None
                        },
                        Option::None => Option::None::<u128>,
                    })
                },
                Result::Err(k) => {
                    &&& k == ErrorKind::Discovery
                    &&& !fs_seq_wf(fs_views(discovered@))
                    &&& final(self)@ == old(self)@
                },
            },
    {
        let mut i: usize = 0;
        while i < discovered.len()
            invariant
                0 <= i <= discovered.len(),
                self.filesystems@ == old(self).filesystems@,
                self.active == old(self).active,
                registry_wf(old(self)@),
                forall|k: int| 0 <= k < i ==> fs_wf(#[trigger] fs_views(discovered@)[k]),
                forall|a: int, b: int|
                    0 <= a < b < i ==> fs_views(discovered@)[a].uuid != fs_views(
                        discovered@,
                    )[b].uuid,
            decreases discovered.len() - i,
        {
            if !check_fs_record(&discovered[i]) {
                proof {
                    assert(fs_views(discovered@)[i as int] == discovered@[i as int]@);
                    assert(!fs_seq_wf(fs_views(discovered@)));
                }
                return Result::Err(ErrorKind::Discovery);
            }
            let mut j: usize = 0;
            while j < i
                invariant
                    0 <= j <= i < discovered.len(),
                    self.filesystems@ == old(self).filesystems@,
                self.active == old(self).active,
                    registry_wf(old(self)@),
                    forall|b: int|
                        0 <= b < j ==> fs_views(discovered@)[b].uuid != fs_views(
                            discovered@,
                        )[i as int].uuid,
                decreases i - j,
            {
                if discovered[j].uuid == discovered[i].uuid {
                    proof {
                        assert(fs_views(discovered@)[j as int].uuid == fs_views(
                            discovered@,
                        )[i as int].uuid);
                        assert(!fs_seq_wf(fs_views(discovered@)));
                    }
                    return Result::Err(ErrorKind::Discovery);
                }
                j = j + 1;
            }
            i = i + 1;
        }
        proof {
            assert(fs_seq_wf(fs_views(discovered@)));
        }
        let keep_active: Option<u128> = match self.active {
            Option::Some(u) => {
                match find_fs(&discovered, u) {
                    Option::Some(idx) => {
                        proof {
                            assert(fs_views(discovered@)[idx as int].uuid == u);
                            assert(has_fs(fs_views(discovered@), u));
                        }
                        Option::Some(u)
                    },
                    Option::None => Option::None,
                }
            },
            Option::None => Option::None,
        };
        self.filesystems = discovered;
        self.active = keep_active;
        Result::Ok(())
    }

    /// All currently known filesystems, as copies of the registry records.
    pub fn list_filesystems(&self) -> (r: Vec<BtrfsFilesystem>)
        ensures
            fs_views(r@) == self@.filesystems,
    {
        let mut r: Vec<BtrfsFilesystem> = Vec::new();
        let mut i: usize = 0;
        while i < self.filesystems.len()
            invariant
                0 <= i <= self.filesystems.len(),
                fs_views(r@) =~= fs_views(self.filesystems@).take(i as int),
            decreases self.filesystems.len() - i,
        {
            let ghost pre = fs_views(r@);
            r.push(self.filesystems[i].duplicate());
            i = i + 1;
            proof {
                assert(fs_views(r@) =~= pre.push(fs_views(self.filesystems@)[i - 1]));
                assert(fs_views(r@) =~= fs_views(self.filesystems@).take(i as int));
            }
        }
        proof {
            assert(fs_views(r@) =~= self@.filesystems);
        }
        r
    }

    /// The identifier of the filesystem currently selected for operations.
    pub fn active_filesystem(&self) -> (r: Option<u128>)
        ensures
            r == self@.active,
    {
        self.active
    }

    /// Whether the subvolume at `path` of filesystem `fs` is currently
    /// mounted somewhere, as far as the registry knows.
    pub fn is_mounted_at(&self, fs: u128, path: &String) -> (r: bool)
        requires
            registry_wf(self@),
        ensures
            r == mounted_in_registry(self@, fs, path@),
    {
        match find_fs(&self.filesystems, fs) {
            Option::Some(idx) => {
                proof {
                    assert(fs_views(self.filesystems@)[idx as int].uuid == fs);
                    assert(has_fs(self@.filesystems, fs));
                    let k = fs_index(self@.filesystems, fs);
                    assert(0 <= k < self@.filesystems.len() && self@.filesystems[k].uuid == fs);
                    assert(k == idx as int);
                }
                let f = &self.filesystems[idx];
                let ghost fv = self@.filesystems[idx as int];
                let mut j: usize = 0;
                while j < f.mounts.len()
                    invariant
                        0 <= j <= f.mounts.len(),
                        fv == f@,
                        idx < self.filesystems@.len(),
                        fv == self@.filesystems[idx as int],
                        has_fs(self@.filesystems, fs),
                        fs_index(self@.filesystems, fs) == idx as int,
                        forall|k: int|
                            0 <= k < j ==> !(fv.mounts[k].subvol_path == path@
                                && fv.mounts[k].mount_dirs.len() > 0),
                    decreases f.mounts.len() - j,
                {
                    if f.mounts[j].subvol_path == *path && f.mounts[j].mount_dirs.len() > 0 {
                        proof {
                            assert(fv.mounts[j as int].subvol_path == path@);
                            assert(crate::data::is_mounted(fv, path@));
                        }
                        return true;
                    }
                    j = j + 1;
                }
                proof {
                    assert(!crate::data::is_mounted(fv, path@));
                }
                false
            },
            Option::None => {
                proof {
                    assert(!has_fs(self@.filesystems, fs));
                }
                false
            },
        }
    }

    /// Selects `fs` as the active filesystem.
    ///
    /// Fails with `NotFound` when no registered filesystem carries
    /// `fs.uuid`; otherwise records the selection and returns whether it
    /// changed.
    pub fn set_active_filesystem(&mut self, fs: &BtrfsFilesystem) -> (r: Result<bool, ErrorKind>)
        requires
            registry_wf(old(self)@),
        ensures
            registry_wf(final(self)@),
            final(self)@.filesystems == old(self)@.filesystems,
            match r {
                Result::Ok(changed) => {
                    &&& has_fs(old(self)@.filesystems, fs@.uuid)
                    &&& final(self)@.active == Option::Some(fs@.uuid)
                    &&& changed == (old(self)@.active != Option::Some(fs@.uuid))
                },
                Result::Err(k) => {
                    &&& k == ErrorKind::NotFound
                    &&& !has_fs(old(self)@.filesystems, fs@.uuid)
                    &&& final(self)@ == old(self)@
                },
            },
    {
        match find_fs(&self.filesystems, fs.uuid) {
            Option::Some(idx) => {
                proof {
                    assert(fs_views(self.filesystems@)[idx as int].uuid == fs@.uuid);
                    assert(has_fs(self@.filesystems, fs@.uuid));
                }
                let changed: bool = match self.active {
                    Option::Some(u) => u != fs.uuid,
                    Option::None => true,
                };
                self.active = Option::Some(fs.uuid);
                Result::Ok(changed)
            },
            Option::None => Result::Err(ErrorKind::NotFound),
        }
    }
}

} // verus!
