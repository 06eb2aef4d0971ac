//! The daemon core: the authoritative tracker of subvolumes per filesystem,
//! combined with the filesystem registry, the per-filesystem serialization
//! tokens, and the schedule state.
//!
//! A mutating operation (move, delete, create snapshot, scheduled snapshot)
//! runs as: `begin_mutation` (or `tick_begin` for the scheduler) acquires the
//! filesystem's token; the caller asks the filesystem driver to perform the
//! physical operation; `finish_move` / `finish_delete` / `finish_snapshot`
//! applies the tracked-state change exactly when the driver confirmed
//! success, and releases the token on every path. Tracked state thus never
//! changes unless the driver confirmed the corresponding physical change.

use vstd::prelude::*;
use crate::data::{
    BtrfsFilesystem, BtrfsFilesystemView, SnapshotReply, Subvolume, SubvolumeView,
};
use crate::error::ErrorKind;
use crate::registry::{
    fs_views, has_fs, mounted_in_registry, registry_wf, Registry, RegistryView,
};
use crate::scheduler::{ScheduleState, ScheduleStateView, TickOutcome};
use crate::tokens::{token_held, tokens_wf, TokenTable};

verus! {

/// A subvolume tracked for a particular filesystem.
#[derive(Debug)]
pub struct TrackedSubvolume {
    /// The uuid of the filesystem the subvolume belongs to.
    pub fs_uuid: u128,
    /// The tracked record.
    pub subvol: Subvolume,
}

/// Mathematical view of a [`TrackedSubvolume`].
pub ghost struct TrackedSubvolumeView {
    pub fs_uuid: u128,
    pub subvol: SubvolumeView,
}

impl View for TrackedSubvolume {
    type V = TrackedSubvolumeView;

    open spec fn view(&self) -> TrackedSubvolumeView {
        TrackedSubvolumeView { fs_uuid: self.fs_uuid, subvol: self.subvol@ }
    }
}

/// Views of a sequence of tracked subvolumes.
pub open spec fn tracked_views(s: Seq<TrackedSubvolume>) -> Seq<TrackedSubvolumeView> {
    Seq::new(s.len(), |i: int| s[i]@)
}

/// Views of a sequence of subvolume records.
pub open spec fn subvol_views(s: Seq<Subvolume>) -> Seq<SubvolumeView> {
    Seq::new(s.len(), |i: int| s[i]@)
}

/// Whether filesystem `fs` has a tracked subvolume at `path`.
pub open spec fn has_subvol(s: Seq<TrackedSubvolumeView>, fs: u128, path: Seq<char>) -> bool {
    exists|i: int| 0 <= i < s.len() && s[i].fs_uuid == fs && s[i].subvol.path == path
}

/// The index of filesystem `fs`'s subvolume at `path`; meaningful only when
/// `has_subvol` holds (and then unique, by `tracker_wf`).
pub open spec fn subvol_index(s: Seq<TrackedSubvolumeView>, fs: u128, path: Seq<char>) -> int {
    choose|i: int| 0 <= i < s.len() && s[i].fs_uuid == fs && s[i].subvol.path == path
}

/// Whether filesystem `fs` has a tracked subvolume with identifier `uuid`.
pub open spec fn has_subvol_uuid(s: Seq<TrackedSubvolumeView>, fs: u128, uuid: u128) -> bool {
    exists|i: int| 0 <= i < s.len() && s[i].fs_uuid == fs && s[i].subvol.uuid == uuid
}

/// Whether some tracked subvolume of filesystem `fs` records `uuid` as its
/// snapshot source.
pub open spec fn referenced_as_source(
    s: Seq<TrackedSubvolumeView>,
    fs: u128,
    uuid: u128,
) -> bool {
    exists|i: int|
        0 <= i < s.len() && s[i].fs_uuid == fs && s[i].subvol.snapshot_source_uuid
            == Option::Some(uuid)
}

/// The tracker invariant. Within one filesystem, paths and identifiers are
/// unique, and every snapshot-source back-reference that resolves to a live
/// subvolume resolves to one that stands earlier in the sequence. The last
/// clause makes the lineage edges a forest: no chain of back-references among
/// live subvolumes can return to its start.
pub open spec fn tracker_wf(s: Seq<TrackedSubvolumeView>) -> bool {
    &&& forall|i: int, j: int|
        #![trigger s[i], s[j]]
        0 <= i < j < s.len() && s[i].fs_uuid == s[j].fs_uuid ==> s[i].subvol.path
            != s[j].subvol.path
    &&& forall|i: int, j: int|
        #![trigger s[i], s[j]]
        0 <= i < j < s.len() && s[i].fs_uuid == s[j].fs_uuid ==> s[i].subvol.uuid
            != s[j].subvol.uuid
    &&& forall|i: int, j: int|
        #![trigger s[i], s[j]]
        0 <= i < s.len() && 0 <= j < s.len() && s[i].fs_uuid == s[j].fs_uuid
            && s[i].subvol.snapshot_source_uuid == Option::Some(s[j].subvol.uuid) ==> j < i
}

/// The subvolume records of filesystem `fs`, in tracking order.
pub open spec fn subvols_of(s: Seq<TrackedSubvolumeView>, fs: u128) -> Seq<SubvolumeView>
    decreases s.len(),
{
    if s.len() == 0 {
        Seq::empty()
    } else {
        let rest = subvols_of(s.drop_last(), fs);
        if s.last().fs_uuid == fs {
            rest.push(s.last().subvol)
        } else {
            rest
        }
    }
}

/// The result of relocating the subvolume at index `i` to path `to`:
/// everything else is unchanged, and the subvolume keeps its identifier,
/// creation time, and lineage.
pub open spec fn move_transition(
    s: Seq<TrackedSubvolumeView>,
    i: int,
    to: Seq<char>,
) -> Seq<TrackedSubvolumeView> {
    s.update(
        i,
        TrackedSubvolumeView {
            fs_uuid: s[i].fs_uuid,
            subvol: SubvolumeView {
                path: to,
                uuid: s[i].subvol.uuid,
                created: s[i].subvol.created,
                snapshot_source_uuid: s[i].subvol.snapshot_source_uuid,
            },
        },
    )
}

/// The result of deleting the subvolume at index `i`: the record is removed
/// and every other record is untouched — in particular, back-references to
/// the deleted subvolume survive in the records that carry them.
pub open spec fn delete_transition(
    s: Seq<TrackedSubvolumeView>,
    i: int,
) -> Seq<TrackedSubvolumeView> {
    s.remove(i)
}

/// The record appended for a snapshot of the subvolume with identifier
/// `src_uuid`, created at `dest` with the driver-reported identity `reply`.
pub open spec fn snapshot_entry(
    fs: u128,
    dest: Seq<char>,
    reply: SnapshotReply,
    src_uuid: u128,
) -> TrackedSubvolumeView {
    TrackedSubvolumeView {
        fs_uuid: fs,
        subvol: SubvolumeView {
            path: dest,
            uuid: reply.uuid,
            created: reply.created,
            snapshot_source_uuid: Option::Some(src_uuid),
        },
    }
}

/// A driver-assigned identifier is acceptable for a new snapshot of
/// filesystem `fs` when it collides neither with a live identifier nor with
/// a recorded back-reference; either collision would corrupt the lineage
/// forest and is reported as a driver error.
pub open spec fn reply_uuid_fresh(s: Seq<TrackedSubvolumeView>, fs: u128, uuid: u128) -> bool {
    !has_subvol_uuid(s, fs, uuid) && !referenced_as_source(s, fs, uuid)
}

/// Mathematical view of the daemon state.
pub ghost struct DaemonView {
    pub registry: RegistryView,
    pub subvols: Seq<TrackedSubvolumeView>,
    pub tokens: Seq<u128>,
    pub sched: ScheduleStateView,
}

/// The daemon's authoritative state.
#[derive(Debug)]
pub struct Daemon {
    registry: Registry,
    subvols: Vec<TrackedSubvolume>,
    tokens: TokenTable,
    sched: ScheduleState,
}

impl View for Daemon {
    type V = DaemonView;

    closed spec fn view(&self) -> DaemonView {
        DaemonView {
            registry: self.registry@,
            subvols: tracked_views(self.subvols@),
            tokens: self.tokens@,
            sched: self.sched@,
        }
    }
}

/// The daemon invariant.
pub open spec fn daemon_wf(d: DaemonView) -> bool {
    &&& registry_wf(d.registry)
    &&& tracker_wf(d.subvols)
    &&& tokens_wf(d.tokens)
}

/// Finds the index of filesystem `fs`'s tracked subvolume at `path`, if any.
fn find_subvol(v: &Vec<TrackedSubvolume>, fs: u128, path: &String) -> (r: Option<usize>)
    ensures
        match r {
            Option::Some(i) => i < v@.len() && tracked_views(v@)[i as int].fs_uuid == fs
                && tracked_views(v@)[i as int].subvol.path == path@,
            Option::None => !has_subvol(tracked_views(v@), fs, path@),
        },
{
    let mut i: usize = 0;
    while i < v.len()
        invariant
            0 <= i <= v.len(),
            forall|k: int|
                0 <= k < i ==> !(tracked_views(v@)[k].fs_uuid == fs && tracked_views(
                    v@,
                )[k].subvol.path == path@),
        decreases v.len() - i,
    {
        if v[i].fs_uuid == fs && v[i].subvol.path == *path {
            return Option::Some(i);
        }
        i = i + 1;
    }
    Option::None
}

impl Daemon {
    /// A fresh daemon: nothing discovered, nothing tracked, no token held,
    /// schedule disabled.
    pub fn new() -> (d: Daemon)
        ensures
            daemon_wf(d@),
            d@.registry.filesystems == Seq::<BtrfsFilesystemView>::empty(),
            d@.registry.active is None,
            d@.subvols == Seq::<TrackedSubvolumeView>::empty(),
            d@.tokens == Seq::<u128>::empty(),
            !d@.sched.enabled,
            d@.sched.skipped_ticks == 0,
            d@.sched.failed_ticks == 0,
    {
        let d = Daemon {
            registry: Registry::new(),
            subvols: Vec::new(),
            tokens: TokenTable::new(),
            sched: ScheduleState::new(),
        };
        proof {
            assert(d@.subvols =~= Seq::<TrackedSubvolumeView>::empty());
        }
        d
    }

    /// Installs a fresh discovery result in the registry; see
    /// [`Registry::refresh`]. Tracked subvolumes, tokens, and schedule state
    /// are untouched.
    pub fn refresh_filesystems(&mut self, discovered: Vec<BtrfsFilesystem>) -> (r: Result<
        (),
        ErrorKind,
    >)
        requires
            daemon_wf(old(self)@),
        ensures
            daemon_wf(final(self)@),
            final(self)@.subvols == old(self)@.subvols,
            final(self)@.tokens == old(self)@.tokens,
            final(self)@.sched == old(self)@.sched,
            match r {
                Result::Ok(()) => {
                    &&& crate::registry::fs_seq_wf(fs_views(discovered@))
                    &&& final(self)@.registry.filesystems == fs_views(discovered@)
                    &&& final(self)@.registry.active == (match old(self)@.registry.active {
                        Option::Some(u) => if crate::registry::has_fs(fs_views(discovered@), u) {
                            Option::Some(u)
                        } else {
                            Option::None
                        },
                        Option::None => Option::None::<u128>,
                    })
                },
                Result::Err(k) => {
                    &&& k == ErrorKind::Discovery
                    &&& !crate::registry::fs_seq_wf(fs_views(discovered@))
                    &&& final(self)@ == old(self)@
                },
            },
    {
        self.registry.refresh(discovered)
    }

    /// All currently known filesystems. Their uuids are pairwise distinct.
    pub fn list_filesystems(&self) -> (r: Vec<BtrfsFilesystem>)
        requires
            daemon_wf(self@),
        ensures
            fs_views(r@) == self@.registry.filesystems,
            forall|i: int, j: int|
                #![trigger fs_views(r@)[i], fs_views(r@)[j]]
                0 <= i < j < r@.len() ==> fs_views(r@)[i].uuid != fs_views(r@)[j].uuid,
    {
        self.registry.list_filesystems()
    }

    /// The identifier of the active filesystem, if one is selected.
    pub fn filesystem(&self) -> (r: Option<u128>)
        ensures
            r == self@.registry.active,
    {
        self.registry.active_filesystem()
    }

    /// Selects `fs` as the active filesystem; see
    /// [`Registry::set_active_filesystem`].
    pub fn set_filesystem(&mut self, fs: &BtrfsFilesystem) -> (r: Result<bool, ErrorKind>)
        requires
            daemon_wf(old(self)@),
        ensures
            daemon_wf(final(self)@),
            final(self)@.subvols == old(self)@.subvols,
            final(self)@.tokens == old(self)@.tokens,
            final(self)@.sched == old(self)@.sched,
            final(self)@.registry.filesystems == old(self)@.registry.filesystems,
            match r {
                Result::Ok(changed) => {
                    &&& has_fs(old(self)@.registry.filesystems, fs@.uuid)
                    &&& final(self)@.registry.active == Option::Some(fs@.uuid)
                    &&& changed == (old(self)@.registry.active != Option::Some(fs@.uuid))
                },
                Result::Err(k) => {
                    &&& k == ErrorKind::NotFound
                    &&& !has_fs(old(self)@.registry.filesystems, fs@.uuid)
                    &&& final(self)@ == old(self)@
                },
            },
    {
        self.registry.set_active_filesystem(fs)
    }

    /// The subvolumes of the active filesystem, each with its lineage, in
    /// tracking order. Fails with `NoActiveFilesystem` when none is selected.
    pub fn list_subvolumes(&self) -> (r: Result<Vec<Subvolume>, ErrorKind>)
        ensures
            match r {
                Result::Ok(list) => {
                    &&& self@.registry.active is Some
                    &&& subvol_views(list@) == subvols_of(
                        self@.subvols,
                        self@.registry.active.unwrap(),
                    )
                },
                Result::Err(k) => {
                    &&& k == ErrorKind::NoActiveFilesystem
                    &&& self@.registry.active is None
                },
            },
    {
        let fs: u128 = match self.registry.active_filesystem() {
            Option::Some(u) => u,
            Option::None => {
                return Result::Err(ErrorKind::NoActiveFilesystem);
            },
        };
        let mut list: Vec<Subvolume> = Vec::new();
        let mut i: usize = 0;
        while i < self.subvols.len()
            invariant
                0 <= i <= self.subvols.len(),
                subvol_views(list@) =~= subvols_of(
                    tracked_views(self.subvols@).take(i as int),
                    fs,
                ),
            decreases self.subvols.len() - i,
        {
            let ghost pre = subvol_views(list@);
            let ghost prefix = tracked_views(self.subvols@).take(i as int);
            if self.subvols[i].fs_uuid == fs {
                list.push(self.subvols[i].subvol.duplicate());
                proof {
                    assert(subvol_views(list@) =~= pre.push(
                        tracked_views(self.subvols@)[i as int].subvol,
                    ));
                }
            }
            i = i + 1;
            proof {
                let prefix2 = tracked_views(self.subvols@).take(i as int);
                assert(prefix2.drop_last() =~= prefix);
                assert(prefix2.last() == tracked_views(self.subvols@)[i - 1]);
                assert(subvol_views(list@) =~= subvols_of(prefix2, fs));
            }
        }
        proof {
            assert(tracked_views(self.subvols@).take(self.subvols@.len() as int)
                =~= tracked_views(self.subvols@));
        }
        Result::Ok(list)
    }

    /// Begins a client-initiated mutation on the active filesystem:
    /// resolves the selection and acquires the filesystem's serialization
    /// token without blocking. On success the returned uuid names the
    /// filesystem whose token is now held; the caller must end the mutation
    /// with a `finish_*` call or with `abort_mutation`, either of which
    /// releases the token.
    ///
    /// Fails with `NoActiveFilesystem` when none is selected, and with
    /// `Busy` when another mutation on the same filesystem is in flight.
    pub fn begin_mutation(&mut self) -> (r: Result<u128, ErrorKind>)
        requires
            daemon_wf(old(self)@),
        ensures
            daemon_wf(final(self)@),
            final(self)@.registry == old(self)@.registry,
            final(self)@.subvols == old(self)@.subvols,
            final(self)@.sched == old(self)@.sched,
            match r {
                Result::Ok(fs) => {
                    &&& old(self)@.registry.active == Option::Some(fs)
                    &&& !token_held(old(self)@.tokens, fs)
                    &&& final(self)@.tokens == old(self)@.tokens.push(fs)
                    &&& token_held(final(self)@.tokens, fs)
                },
                Result::Err(k) => {
                    &&& final(self)@.tokens == old(self)@.tokens
                    &&& (k == ErrorKind::NoActiveFilesystem && old(self)@.registry.active is None)
                        || (k == ErrorKind::Busy && old(self)@.registry.active is Some
                        && token_held(old(self)@.tokens, old(self)@.registry.active.unwrap()))
                },
            },
    {
        let fs: u128 = match self.registry.active_filesystem() {
            Option::Some(u) => u,
            Option::None => {
                return Result::Err(ErrorKind::NoActiveFilesystem);
            },
        };
        if self.tokens.try_acquire(fs) {
            Result::Ok(fs)
        } else {
            Result::Err(ErrorKind::Busy)
        }
    }

    /// Ends a mutation without a tracked-state change, releasing the
    /// filesystem's token. Used when validation fails before the driver is
    /// called, or when the caller must bail out on another path.
    pub fn abort_mutation(&mut self, fs: u128)
        requires
            daemon_wf(old(self)@),
        ensures
            daemon_wf(final(self)@),
            final(self)@.registry == old(self)@.registry,
            final(self)@.subvols == old(self)@.subvols,
            final(self)@.sched == old(self)@.sched,
            !token_held(final(self)@.tokens, fs),
            forall|u: u128|
                u != fs ==> token_held(final(self)@.tokens, u) == token_held(
                    old(self)@.tokens,
                    u,
                ),
    {
        self.tokens.release(fs);
    }

    /// Validates a move without performing it: the source must be tracked
    /// and the destination free. Read-only.
    pub fn check_move(&self, fs: u128, from: &String, to: &String) -> (r: Result<(), ErrorKind>)
        ensures
            match r {
                Result::Ok(()) => has_subvol(self@.subvols, fs, from@) && !has_subvol(
                    self@.subvols,
                    fs,
                    to@,
                ),
                Result::Err(k) => (k == ErrorKind::NotFound && !has_subvol(
                    self@.subvols,
                    fs,
                    from@,
                )) || (k == ErrorKind::Conflict && has_subvol(self@.subvols, fs, from@)
                    && has_subvol(self@.subvols, fs, to@)),
            },
    {
        match find_subvol(&self.subvols, fs, from) {
            Option::None => Result::Err(ErrorKind::NotFound),
            Option::Some(i) => {
                proof {
                    assert(has_subvol(self@.subvols, fs, from@));
                }
                match find_subvol(&self.subvols, fs, to) {
                    Option::Some(j) => {
                        proof {
                            assert(has_subvol(self@.subvols, fs, to@));
                        }
                        Result::Err(ErrorKind::Conflict)
                    },
                    Option::None => Result::Ok(()),
                }
            },
        }
    }

    /// Validates a delete without performing it: the subvolume must be
    /// tracked and not currently mounted anywhere. Read-only.
    pub fn check_delete(&self, fs: u128, path: &String) -> (r: Result<(), ErrorKind>)
        requires
            daemon_wf(self@),
        ensures
            match r {
                Result::Ok(()) => has_subvol(self@.subvols, fs, path@) && !mounted_in_registry(
                    self@.registry,
                    fs,
                    path@,
                ),
                Result::Err(k) => (k == ErrorKind::NotFound && !has_subvol(
                    self@.subvols,
                    fs,
                    path@,
                )) || (k == ErrorKind::Busy && has_subvol(self@.subvols, fs, path@)
                    && mounted_in_registry(self@.registry, fs, path@)),
            },
    {
        match find_subvol(&self.subvols, fs, path) {
            Option::None => Result::Err(ErrorKind::NotFound),
            Option::Some(i) => {
                proof {
                    assert(has_subvol(self@.subvols, fs, path@));
                }
                if self.registry.is_mounted_at(fs, path) {
                    Result::Err(ErrorKind::Busy)
                } else {
                    Result::Ok(())
                }
            },
        }
    }

    /// Validates a snapshot without performing it: the source must be
    /// tracked and the destination free. Read-only.
    pub fn check_snapshot(&self, fs: u128, src: &String, dest: &String) -> (r: Result<
        (),
        ErrorKind,
    >)
        ensures
            match r {
                Result::Ok(()) => has_subvol(self@.subvols, fs, src@) && !has_subvol(
                    self@.subvols,
                    fs,
                    dest@,
                ),
                Result::Err(k) => (k == ErrorKind::NotFound && !has_subvol(
                    self@.subvols,
                    fs,
                    src@,
                )) || (k == ErrorKind::Conflict && has_subvol(self@.subvols, fs, src@)
                    && has_subvol(self@.subvols, fs, dest@)),
            },
    {
        self.check_move(fs, src, dest)
    }

    /// Records a subvolume reported by discovery for filesystem `fs`,
    /// appending it to the tracked state.
    ///
    /// Rejects the record when its path is already tracked (`Conflict`), or
    /// when its identifier is already live or already recorded as some
    /// subvolume's snapshot source, or the record names itself as its own
    /// source (`Discovery`) — any of these would corrupt the lineage forest.
    /// A `snapshot_source_uuid` pointing at no live subvolume is accepted:
    /// back-references outlive their source.
    pub fn track_discovered_subvolume(&mut self, fs: u128, sv: Subvolume) -> (r: Result<
        (),
        ErrorKind,
    >)
        requires
            daemon_wf(old(self)@),
        ensures
            daemon_wf(final(self)@),
            final(self)@.registry == old(self)@.registry,
            final(self)@.tokens == old(self)@.tokens,
            final(self)@.sched == old(self)@.sched,
            match r {
                Result::Ok(()) => {
                    &&& !has_subvol(old(self)@.subvols, fs, sv@.path)
                    &&& reply_uuid_fresh(old(self)@.subvols, fs, sv@.uuid)
                    &&& sv@.snapshot_source_uuid != Option::Some(sv@.uuid)
                    &&& final(self)@.subvols == old(self)@.subvols.push(
                        TrackedSubvolumeView { fs_uuid: fs, subvol: sv@ },
                    )
                },
                Result::Err(k) => {
                    &&& final(self)@.subvols == old(self)@.subvols
                    &&& (k == ErrorKind::Conflict && has_subvol(old(self)@.subvols, fs, sv@.path))
                        || (k == ErrorKind::Discovery && !has_subvol(
                        old(self)@.subvols,
                        fs,
                        sv@.path,
                    ) && (!reply_uuid_fresh(old(self)@.subvols, fs, sv@.uuid)
                        || sv@.snapshot_source_uuid == Option::Some(sv@.uuid)))
                },
            },
    {
        match find_subvol(&self.subvols, fs, &sv.path) {
            Option::Some(_) => {
                proof {
                    assert(has_subvol(self@.subvols, fs, sv@.path));
                }
                Result::Err(ErrorKind::Conflict)
            },
            Option::None => {
                if !self.reply_uuid_is_fresh(fs, sv.uuid) {
                    return Result::Err(ErrorKind::Discovery);
                }
                let self_ref: bool = match sv.snapshot_source_uuid {
                    Option::Some(u) => u == sv.uuid,
                    Option::None => false,
                };
                if self_ref {
                    return Result::Err(ErrorKind::Discovery);
                }
                let ghost pre = tracked_views(self.subvols@);
                let ghost svv = sv@;
                self.subvols.push(TrackedSubvolume { fs_uuid: fs, subvol: sv });
                proof {
                    let cur = tracked_views(self.subvols@);
                    let entry = TrackedSubvolumeView { fs_uuid: fs, subvol: svv };
                    assert(cur =~= pre.push(entry));
                    assert forall|k: int| 0 <= k < pre.len() implies cur[k] == pre[k] by {}
                    assert(cur[pre.len() as int] == entry);
                    assert(tracker_wf(cur)) by {
                        let n = pre.len() as int;
                        assert forall|a: int, b: int|
                            0 <= a < b < cur.len() && cur[a].fs_uuid == cur[b].fs_uuid
                            implies cur[a].subvol.path != cur[b].subvol.path by {
                            if b == n {
                                if cur[a].subvol.path == svv.path {
                                    assert(has_subvol(pre, fs, svv.path));
                                }
                            }
                        }
                        assert forall|a: int, b: int|
                            0 <= a < b < cur.len() && cur[a].fs_uuid == cur[b].fs_uuid
                            implies cur[a].subvol.uuid != cur[b].subvol.uuid by {
                            if b == n {
                                if cur[a].subvol.uuid == svv.uuid {
                                    assert(has_subvol_uuid(pre, fs, svv.uuid));
                                }
                            }
                        }
                        assert forall|a: int, b: int|
                            0 <= a < cur.len() && 0 <= b < cur.len() && cur[a].fs_uuid
                                == cur[b].fs_uuid && cur[a].subvol.snapshot_source_uuid
                                == Option::Some(cur[b].subvol.uuid) implies b < a by {
                            if a == n && b == n {
                                assert(svv.snapshot_source_uuid != Option::Some(svv.uuid));
                            } else if a < n && b == n {
                                assert(pre[a].fs_uuid == fs
                                    && pre[a].subvol.snapshot_source_uuid == Option::Some(
                                    svv.uuid,
                                ));
                                assert(referenced_as_source(pre, fs, svv.uuid));
                            }
                        }
                    }
                }
                Result::Ok(())
            },
        }
    }

    /// Completes a move of filesystem `fs`'s subvolume from `from` to `to`,
    /// where `driver_ok` reports whether the filesystem driver confirmed the
    /// physical rename. The caller must hold the filesystem's token (from
    /// `begin_mutation` or `tick_begin`); it is released on every path.
    ///
    /// The tracked path changes exactly when the source is tracked, the
    /// destination is free, and the driver confirmed; the subvolume keeps
    /// its identifier, creation time, and lineage. Otherwise the tracked
    /// state is unchanged and the error says why: `NotFound` (source not
    /// tracked), `Conflict` (destination occupied), or `Operation` (driver
    /// failure).
    pub fn finish_move(&mut self, fs: u128, from: &String, to: &String, driver_ok: bool) -> (r:
        Result<(), ErrorKind>)
        requires
            daemon_wf(old(self)@),
            token_held(old(self)@.tokens, fs),
        ensures
            daemon_wf(final(self)@),
            final(self)@.registry == old(self)@.registry,
            final(self)@.sched == old(self)@.sched,
            !token_held(final(self)@.tokens, fs),
            forall|u: u128|
                u != fs ==> token_held(final(self)@.tokens, u) == token_held(
                    old(self)@.tokens,
                    u,
                ),
            match r {
                Result::Ok(()) => {
                    &&& has_subvol(old(self)@.subvols, fs, from@)
                    &&& !has_subvol(old(self)@.subvols, fs, to@)
                    &&& driver_ok
                    &&& final(self)@.subvols == move_transition(
                        old(self)@.subvols,
                        subvol_index(old(self)@.subvols, fs, from@),
                        to@,
                    )
                },
                Result::Err(k) => {
                    &&& final(self)@.subvols == old(self)@.subvols
                    &&& (k == ErrorKind::NotFound && !has_subvol(old(self)@.subvols, fs, from@))
                        || (k == ErrorKind::Conflict && has_subvol(old(self)@.subvols, fs, from@)
                        && has_subvol(old(self)@.subvols, fs, to@)) || (k == ErrorKind::Operation
                        && has_subvol(old(self)@.subvols, fs, from@) && !has_subvol(
                        old(self)@.subvols,
                        fs,
                        to@,
                    ) && !driver_ok)
                },
            },
    {
        let decision: Result<(), ErrorKind> = match find_subvol(&self.subvols, fs, from) {
            Option::None => Result::Err(ErrorKind::NotFound),
            Option::Some(i) => {
                proof {
                    assert(has_subvol(self@.subvols, fs, from@));
                }
                match find_subvol(&self.subvols, fs, to) {
                    Option::Some(_) => {
                        proof {
                            assert(has_subvol(self@.subvols, fs, to@));
                        }
                        Result::Err(ErrorKind::Conflict)
                    },
                    Option::None => {
                        if !driver_ok {
                            Result::Err(ErrorKind::Operation)
                        } else {
                            let ghost pre = tracked_views(self.subvols@);
                            let entry = TrackedSubvolume {
                                fs_uuid: fs,
                                subvol: Subvolume {
                                    path: to.clone(),
                                    uuid: self.subvols[i].subvol.uuid,
                                    created: self.subvols[i].subvol.created,
                                    snapshot_source_uuid: self.subvols[i].subvol
                                        .snapshot_source_uuid,
                                },
                            };
                            self.subvols.set(i, entry);
                            proof {
                                let cur = tracked_views(self.subvols@);
                                assert forall|k: int| 0 <= k < pre.len() && k != i as int
                                    implies cur[k] == pre[k] by {}
                                assert(subvol_index(pre, fs, from@) == i as int) by {
                                    let w = subvol_index(pre, fs, from@);
                                    assert(0 <= w < pre.len() && pre[w].fs_uuid == fs
                                        && pre[w].subvol.path == from@);
                                    if w != i as int {
                                        assert(pre[w].subvol.path != pre[i as int].subvol.path);
                                    }
                                }
                                assert(cur =~= move_transition(pre, i as int, to@));
                                assert(tracker_wf(cur)) by {
                                    assert forall|a: int, b: int|
                                        0 <= a < b < cur.len() && cur[a].fs_uuid
                                            == cur[b].fs_uuid implies cur[a].subvol.path
                                        != cur[b].subvol.path by {
                                        if a == i as int {
                                            if cur[b].subvol.path == to@ {
                                                assert(pre[b].fs_uuid == fs
                                                    && pre[b].subvol.path == to@);
                                                assert(has_subvol(pre, fs, to@));
                                            }
                                        } else if b == i as int {
                                            if cur[a].subvol.path == to@ {
                                                assert(pre[a].fs_uuid == fs
                                                    && pre[a].subvol.path == to@);
                                                assert(has_subvol(pre, fs, to@));
                                            }
                                        }
                                    }
                                }
                            }
                            Result::Ok(())
                        }
                    },
                }
            },
        };
        self.tokens.release(fs);
        decision
    }

    /// Completes a delete of filesystem `fs`'s subvolume at `path`, where
    /// `driver_ok` reports whether the filesystem driver confirmed the
    /// physical removal. The caller must hold the filesystem's token; it is
    /// released on every path.
    ///
    /// The tracked record is removed exactly when it exists, it is not
    /// mounted anywhere, and the driver confirmed; every other record is
    /// untouched, so subvolumes snapshotted from the deleted one keep their
    /// back-reference. Otherwise the tracked state is unchanged and the
    /// error says why: `NotFound`, `Busy` (still mounted), or `Operation`.
    pub fn finish_delete(&mut self, fs: u128, path: &String, driver_ok: bool) -> (r: Result<
        (),
        ErrorKind,
    >)
        requires
            daemon_wf(old(self)@),
            token_held(old(self)@.tokens, fs),
        ensures
            daemon_wf(final(self)@),
            final(self)@.registry == old(self)@.registry,
            final(self)@.sched == old(self)@.sched,
            !token_held(final(self)@.tokens, fs),
            forall|u: u128|
                u != fs ==> token_held(final(self)@.tokens, u) == token_held(
                    old(self)@.tokens,
                    u,
                ),
            match r {
                Result::Ok(()) => {
                    &&& has_subvol(old(self)@.subvols, fs, path@)
                    &&& !mounted_in_registry(old(self)@.registry, fs, path@)
                    &&& driver_ok
                    &&& final(self)@.subvols == delete_transition(
                        old(self)@.subvols,
                        subvol_index(old(self)@.subvols, fs, path@),
                    )
                },
                Result::Err(k) => {
                    &&& final(self)@.subvols == old(self)@.subvols
                    &&& (k == ErrorKind::NotFound && !has_subvol(old(self)@.subvols, fs, path@))
                        || (k == ErrorKind::Busy && has_subvol(old(self)@.subvols, fs, path@)
                        && mounted_in_registry(old(self)@.registry, fs, path@)) || (k
                        == ErrorKind::Operation && has_subvol(old(self)@.subvols, fs, path@)
                        && !mounted_in_registry(old(self)@.registry, fs, path@) && !driver_ok)
                },
            },
    {
        let decision: Result<(), ErrorKind> = match find_subvol(&self.subvols, fs, path) {
            Option::None => Result::Err(ErrorKind::NotFound),
            Option::Some(i) => {
                proof {
                    assert(has_subvol(self@.subvols, fs, path@));
                }
                if self.registry.is_mounted_at(fs, path) {
                    Result::Err(ErrorKind::Busy)
                } else if !driver_ok {
                    Result::Err(ErrorKind::Operation)
                } else {
                    let ghost pre = tracked_views(self.subvols@);
                    self.subvols.remove(i);
                    proof {
                        let cur = tracked_views(self.subvols@);
                        assert(subvol_index(pre, fs, path@) == i as int) by {
                            let w = subvol_index(pre, fs, path@);
                            assert(0 <= w < pre.len() && pre[w].fs_uuid == fs
                                && pre[w].subvol.path == path@);
                            if w != i as int {
                                assert(pre[w].subvol.path != pre[i as int].subvol.path);
                            }
                        }
                        assert(cur =~= pre.remove(i as int));
                        assert forall|k: int| 0 <= k < cur.len() implies cur[k] == (if k
                            < i as int {
                            pre[k]
                        } else {
                            pre[k + 1]
                        }) by {}
                        assert(tracker_wf(cur)) by {
                            assert forall|a: int, b: int|
                                0 <= a < b < cur.len() && cur[a].fs_uuid == cur[b].fs_uuid
                                implies cur[a].subvol.path != cur[b].subvol.path by {
                                let a0 = if a < i as int { a } else { a + 1 };
                                let b0 = if b < i as int { b } else { b + 1 };
                                assert(cur[a] == pre[a0] && cur[b] == pre[b0]);
                            }
                            assert forall|a: int, b: int|
                                0 <= a < b < cur.len() && cur[a].fs_uuid == cur[b].fs_uuid
                                implies cur[a].subvol.uuid != cur[b].subvol.uuid by {
                                let a0 = if a < i as int { a } else { a + 1 };
                                let b0 = if b < i as int { b } else { b + 1 };
                                assert(cur[a] == pre[a0] && cur[b] == pre[b0]);
                            }
                            assert forall|a: int, b: int|
                                0 <= a < cur.len() && 0 <= b < cur.len() && cur[a].fs_uuid
                                    == cur[b].fs_uuid && cur[a].subvol.snapshot_source_uuid
                                    == Option::Some(cur[b].subvol.uuid) implies b < a by {
                                let a0 = if a < i as int { a } else { a + 1 };
                                let b0 = if b < i as int { b } else { b + 1 };
                                assert(cur[a] == pre[a0] && cur[b] == pre[b0]);
                                assert(b0 < a0);
                            }
                        }
                    }
                    Result::Ok(())
                }
            },
        };
        self.tokens.release(fs);
        decision
    }

    /// Completes a snapshot of filesystem `fs`'s subvolume at `src` into a
    /// new subvolume at `dest`. `reply` is what the filesystem driver
    /// reported: the new subvolume's identity on success, or nothing on
    /// driver failure. The caller must hold the filesystem's token; it is
    /// released on every path.
    ///
    /// On success the returned record — also appended to the tracked state —
    /// sits at `dest`, carries the driver-assigned identifier and creation
    /// time, and records the source subvolume's identifier as its snapshot
    /// source. Errors: `NotFound` (source not tracked), `Conflict`
    /// (destination occupied), or `Operation` (driver failure, or a
    /// driver-assigned identifier that would corrupt the lineage forest).
    pub fn finish_snapshot(
        &mut self,
        fs: u128,
        src: &String,
        dest: &String,
        reply: Option<SnapshotReply>,
    ) -> (r: Result<Subvolume, ErrorKind>)
        requires
            daemon_wf(old(self)@),
            token_held(old(self)@.tokens, fs),
        ensures
            daemon_wf(final(self)@),
            final(self)@.registry == old(self)@.registry,
            final(self)@.sched == old(self)@.sched,
            !token_held(final(self)@.tokens, fs),
            forall|u: u128|
                u != fs ==> token_held(final(self)@.tokens, u) == token_held(
                    old(self)@.tokens,
                    u,
                ),
            match r {
                Result::Ok(sv) => {
                    &&& has_subvol(old(self)@.subvols, fs, src@)
                    &&& !has_subvol(old(self)@.subvols, fs, dest@)
                    &&& reply is Some
                    &&& reply_uuid_fresh(old(self)@.subvols, fs, reply.unwrap().uuid)
                    &&& sv@ == snapshot_entry(
                        fs,
                        dest@,
                        reply.unwrap(),
                        old(self)@.subvols[subvol_index(old(self)@.subvols, fs, src@)].subvol.uuid,
                    ).subvol
                    &&& final(self)@.subvols == old(self)@.subvols.push(
                        snapshot_entry(
                            fs,
                            dest@,
                            reply.unwrap(),
                            old(self)@.subvols[subvol_index(
                                old(self)@.subvols,
                                fs,
                                src@,
                            )].subvol.uuid,
                        ),
                    )
                },
                Result::Err(k) => {
                    &&& final(self)@.subvols == old(self)@.subvols
                    &&& (k == ErrorKind::NotFound && !has_subvol(old(self)@.subvols, fs, src@))
                        || (k == ErrorKind::Conflict && has_subvol(old(self)@.subvols, fs, src@)
                        && has_subvol(old(self)@.subvols, fs, dest@)) || (k == ErrorKind::Operation
                        && has_subvol(old(self)@.subvols, fs, src@) && !has_subvol(
                        old(self)@.subvols,
                        fs,
                        dest@,
                    ) && (reply is None || !reply_uuid_fresh(
                        old(self)@.subvols,
                        fs,
                        reply.unwrap().uuid,
                    )))
                },
            },
    {
        let decision: Result<Subvolume, ErrorKind> = match find_subvol(&self.subvols, fs, src) {
            Option::None => Result::Err(ErrorKind::NotFound),
            Option::Some(i) => {
                proof {
                    assert(has_subvol(self@.subvols, fs, src@));
                }
                match find_subvol(&self.subvols, fs, dest) {
                    Option::Some(_) => {
                        proof {
                            assert(has_subvol(self@.subvols, fs, dest@));
                        }
                        Result::Err(ErrorKind::Conflict)
                    },
                    Option::None => {
                        match reply {
                            Option::None => Result::Err(ErrorKind::Operation),
                            Option::Some(rep) => {
                                if !self.reply_uuid_is_fresh(fs, rep.uuid) {
                                    Result::Err(ErrorKind::Operation)
                                } else {
                                    let ghost pre = tracked_views(self.subvols@);
                                    let src_uuid = self.subvols[i].subvol.uuid;
                                    proof {
                                        assert(subvol_index(pre, fs, src@) == i as int) by {
                                            let w = subvol_index(pre, fs, src@);
                                            assert(0 <= w < pre.len() && pre[w].fs_uuid == fs
                                                && pre[w].subvol.path == src@);
                                            if w != i as int {
                                                assert(pre[w].subvol.path
                                                    != pre[i as int].subvol.path);
                                            }
                                        }
                                    }
                                    let sv = Subvolume {
                                        path: dest.clone(),
                                        uuid: rep.uuid,
                                        created: rep.created,
                                        snapshot_source_uuid: Option::Some(src_uuid),
                                    };
                                    let copy = sv.duplicate();
                                    self.subvols.push(TrackedSubvolume { fs_uuid: fs, subvol: sv });
                                    proof {
                                        let cur = tracked_views(self.subvols@);
                                        let entry = snapshot_entry(fs, dest@, rep, src_uuid);
                                        assert(cur =~= pre.push(entry));
                                        assert forall|k: int| 0 <= k < pre.len() implies cur[k]
                                            == pre[k] by {}
                                        assert(cur[pre.len() as int] == entry);
                                        assert(tracker_wf(cur)) by {
                                            let n = pre.len() as int;
                                            assert forall|a: int, b: int|
                                                0 <= a < b < cur.len() && cur[a].fs_uuid
                                                    == cur[b].fs_uuid
                                                implies cur[a].subvol.path
                                                != cur[b].subvol.path by {
                                                if b == n {
                                                    if cur[a].subvol.path == dest@ {
                                                        assert(has_subvol(pre, fs, dest@));
                                                    }
                                                }
                                            }
                                            assert forall|a: int, b: int|
                                                0 <= a < b < cur.len() && cur[a].fs_uuid
                                                    == cur[b].fs_uuid
                                                implies cur[a].subvol.uuid
                                                != cur[b].subvol.uuid by {
                                                if b == n {
                                                    if cur[a].subvol.uuid == rep.uuid {
                                                        assert(has_subvol_uuid(pre, fs, rep.uuid));
                                                    }
                                                }
                                            }
                                            assert forall|a: int, b: int|
                                                0 <= a < cur.len() && 0 <= b < cur.len()
                                                    && cur[a].fs_uuid == cur[b].fs_uuid
                                                    && cur[a].subvol.snapshot_source_uuid
                                                    == Option::Some(cur[b].subvol.uuid)
                                                implies b < a by {
                                                if a == n && b == n {
                                                    assert(has_subvol_uuid(pre, fs, rep.uuid));
                                                } else if a < n && b == n {
                                                    assert(pre[a].fs_uuid == fs
                                                        && pre[a].subvol.snapshot_source_uuid
                                                        == Option::Some(rep.uuid));
                                                    assert(referenced_as_source(pre, fs, rep.uuid));
                                                }
                                            }
                                        }
                                    }
                                    Result::Ok(copy)
                                }
                            },
                        }
                    },
                }
            },
        };
        self.tokens.release(fs);
        decision
    }

    /// Whether `uuid` is acceptable as a driver-assigned identifier for a
    /// new snapshot on filesystem `fs`; see [`reply_uuid_fresh`].
    fn reply_uuid_is_fresh(&self, fs: u128, uuid: u128) -> (r: bool)
        ensures
            r == reply_uuid_fresh(self@.subvols, fs, uuid),
    {
        let mut i: usize = 0;
        while i < self.subvols.len()
            invariant
                0 <= i <= self.subvols.len(),
                forall|k: int|
                    0 <= k < i ==> !(tracked_views(self.subvols@)[k].fs_uuid == fs
                        && tracked_views(self.subvols@)[k].subvol.uuid == uuid),
                forall|k: int|
                    0 <= k < i ==> !(tracked_views(self.subvols@)[k].fs_uuid == fs
                        && tracked_views(self.subvols@)[k].subvol.snapshot_source_uuid
                        == Option::Some(uuid)),
            decreases self.subvols.len() - i,
        {
            if self.subvols[i].fs_uuid == fs {
                if self.subvols[i].subvol.uuid == uuid {
                    proof {
                        assert(tracked_views(self.subvols@)[i as int].fs_uuid == fs
                            && tracked_views(self.subvols@)[i as int].subvol.uuid == uuid);
                        assert(has_subvol_uuid(self@.subvols, fs, uuid));
                    }
                    return false;
                }
                let is_ref: bool = match self.subvols[i].subvol.snapshot_source_uuid {
                    Option::Some(u) => u == uuid,
                    Option::None => false,
                };
                if is_ref {
                    proof {
                        assert(tracked_views(self.subvols@)[i as int].fs_uuid == fs
                            && tracked_views(
                            self.subvols@,
                        )[i as int].subvol.snapshot_source_uuid == Option::Some(uuid));
                        assert(referenced_as_source(self@.subvols, fs, uuid));
                    }
                    return false;
                }
            }
            i = i + 1;
        }
        proof {
            assert(!has_subvol_uuid(self@.subvols, fs, uuid));
            assert(!referenced_as_source(self@.subvols, fs, uuid));
        }
        true
    }

    /// Whether scheduled snapshots are enabled.
    pub fn is_schedule_enabled(&self) -> (r: bool)
        ensures
            r == self@.sched.enabled,
    {
        self.sched.is_enabled()
    }

    /// Sets the schedule-enabled flag. Always succeeds; setting the current
    /// value again is a no-op that still succeeds.
    pub fn set_is_schedule_enabled(&mut self, is_enabled: bool) -> (r: Result<(), ErrorKind>)
        requires
            daemon_wf(old(self)@),
        ensures
            daemon_wf(final(self)@),
            r is Ok,
            final(self)@.sched.enabled == is_enabled,
            final(self)@.sched.skipped_ticks == old(self)@.sched.skipped_ticks,
            final(self)@.sched.failed_ticks == old(self)@.sched.failed_ticks,
            final(self)@.registry == old(self)@.registry,
            final(self)@.subvols == old(self)@.subvols,
            final(self)@.tokens == old(self)@.tokens,
    {
        self.sched.set_enabled(is_enabled);
        Result::Ok(())
    }

    /// The number of scheduler ticks skipped because a token was busy.
    pub fn skipped_ticks(&self) -> (r: u64)
        ensures
            r == self@.sched.skipped_ticks,
    {
        self.sched.skipped_ticks()
    }

    /// The number of scheduled snapshots whose driver call failed.
    pub fn failed_ticks(&self) -> (r: u64)
        ensures
            r == self@.sched.failed_ticks,
    {
        self.sched.failed_ticks()
    }

    /// One scheduler tick's attempt to begin a scheduled snapshot on
    /// filesystem `fs`. Non-blocking: when the schedule is disabled nothing
    /// happens, and when the filesystem's token is unavailable the tick is
    /// recorded as skipped — tracked state is never touched. Only on
    /// `Attempted` is the token acquired, and the caller must then end the
    /// mutation with `finish_snapshot` or `abort_mutation`.
    pub fn tick_begin(&mut self, fs: u128) -> (o: TickOutcome)
        requires
            daemon_wf(old(self)@),
        ensures
            daemon_wf(final(self)@),
            final(self)@.registry == old(self)@.registry,
            final(self)@.subvols == old(self)@.subvols,
            final(self)@.sched.enabled == old(self)@.sched.enabled,
            final(self)@.sched.failed_ticks == old(self)@.sched.failed_ticks,
            match o {
                TickOutcome::SkippedDisabled => {
                    &&& !old(self)@.sched.enabled
                    &&& final(self)@ == old(self)@
                },
                TickOutcome::SkippedBusy => {
                    &&& old(self)@.sched.enabled
                    &&& token_held(old(self)@.tokens, fs)
                    &&& final(self)@.tokens == old(self)@.tokens
                    &&& (old(self)@.sched.skipped_ticks < u64::MAX
                        ==> final(self)@.sched.skipped_ticks == old(self)@.sched.skipped_ticks
                        + 1)
                    &&& (old(self)@.sched.skipped_ticks == u64::MAX
                        ==> final(self)@.sched.skipped_ticks == u64::MAX)
                },
                TickOutcome::Attempted => {
                    &&& old(self)@.sched.enabled
                    &&& !token_held(old(self)@.tokens, fs)
                    &&& final(self)@.tokens == old(self)@.tokens.push(fs)
                    &&& token_held(final(self)@.tokens, fs)
                    &&& final(self)@.sched.skipped_ticks == old(self)@.sched.skipped_ticks
                },
            },
    {
        if !self.sched.is_enabled() {
            return TickOutcome::SkippedDisabled;
        }
        if self.tokens.try_acquire(fs) {
            TickOutcome::Attempted
        } else {
            self.sched.record_skip();
            TickOutcome::SkippedBusy
        }
    }

    /// Records a failed scheduled snapshot; the failure never stops future
    /// ticks.
    pub fn record_tick_failure(&mut self)
        requires
            daemon_wf(old(self)@),
        ensures
            daemon_wf(final(self)@),
            final(self)@.registry == old(self)@.registry,
            final(self)@.subvols == old(self)@.subvols,
            final(self)@.tokens == old(self)@.tokens,
            final(self)@.sched.enabled == old(self)@.sched.enabled,
            final(self)@.sched.skipped_ticks == old(self)@.sched.skipped_ticks,
            old(self)@.sched.failed_ticks < u64::MAX
                ==> final(self)@.sched.failed_ticks == old(self)@.sched.failed_ticks + 1,
            old(self)@.sched.failed_ticks == u64::MAX ==> final(self)@.sched.failed_ticks
                == u64::MAX,
    {
        self.sched.record_failure();
    }
}

} // verus!
