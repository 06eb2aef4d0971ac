//! Laws of the core, stated over the same views and transitions that the
//! executable functions' contracts use, and proved once and for all.

use vstd::prelude::*;
use crate::daemon::{
    delete_transition, has_subvol, move_transition, snapshot_entry, subvol_index, subvols_of,
    tracker_wf, TrackedSubvolumeView,
};
use crate::registry::RegistryView;
use crate::scheduler::ScheduleStateView;
use crate::tokens::token_held;

verus! {

/// Registered filesystem uuids are unique: no two records of a well-formed
/// registry carry the same uuid, so `list_filesystems` never reports a
/// duplicate.
pub proof fn lemma_filesystem_uuids_unique(r: RegistryView)
    requires
        crate::registry::registry_wf(r),
    ensures
        forall|i: int, j: int|
            #![trigger r.filesystems[i], r.filesystems[j]]
            0 <= i < j < r.filesystems.len() ==> r.filesystems[i].uuid != r.filesystems[j].uuid,
{
}

/// A created snapshot is listed with its lineage: after the snapshot
/// transition, the subvolumes of the filesystem end with a record at the
/// destination path whose snapshot source is the source subvolume's uuid.
pub proof fn lemma_snapshot_lineage(
    s: Seq<TrackedSubvolumeView>,
    fs: u128,
    src: Seq<char>,
    dest: Seq<char>,
    reply: crate::data::SnapshotReply,
)
    requires
        has_subvol(s, fs, src),
    ensures
        ({
            let src_uuid = s[subvol_index(s, fs, src)].subvol.uuid;
            let after = s.push(snapshot_entry(fs, dest, reply, src_uuid));
            let listed = subvols_of(after, fs);
            &&& listed.len() > 0
            &&& listed.last().path == dest
            &&& listed.last().snapshot_source_uuid == Option::Some(src_uuid)
        }),
{
    let src_uuid = s[subvol_index(s, fs, src)].subvol.uuid;
    let entry = snapshot_entry(fs, dest, reply, src_uuid);
    let after = s.push(entry);
    assert(after.drop_last() =~= s);
    assert(after.last() == entry);
}

/// Deleting a subvolume removes exactly its own record: every record before
/// it is untouched and every record after it only shifts down by one — in
/// particular, subvolumes snapshotted from the deleted one keep their
/// `snapshot_source_uuid` back-reference unchanged.
pub proof fn lemma_delete_preserves_lineage(s: Seq<TrackedSubvolumeView>, i: int)
    requires
        0 <= i < s.len(),
    ensures
        delete_transition(s, i).len() == s.len() - 1,
        forall|k: int| 0 <= k < i ==> delete_transition(s, i)[k] == s[k],
        forall|k: int| i <= k < s.len() - 1 ==> delete_transition(s, i)[k] == s[k + 1],
        forall|k: int|
            0 <= k < s.len() && k != i && s[k].subvol.snapshot_source_uuid == Option::Some(
                s[i].subvol.uuid,
            ) ==> exists|m: int|
                0 <= m < delete_transition(s, i).len() && delete_transition(s, i)[m] == s[k],
{
    let cur = delete_transition(s, i);
    assert forall|k: int|
        0 <= k < s.len() && k != i && s[k].subvol.snapshot_source_uuid == Option::Some(
            s[i].subvol.uuid,
        ) implies exists|m: int| 0 <= m < cur.len() && cur[m] == s[k] by {
        if k < i {
            assert(cur[k] == s[k]);
        } else {
            assert(cur[k - 1] == s[k]);
        }
    }
}

/// Moving a subvolume and moving it back is a no-op on the tracked state:
/// the record returns to its place with the same uuid, creation time, and
/// lineage, and nothing else ever changed.
pub proof fn lemma_move_roundtrip(s: Seq<TrackedSubvolumeView>, fs: u128, a: Seq<char>, b: Seq<
    char,
>)
    requires
        tracker_wf(s),
        has_subvol(s, fs, a),
        !has_subvol(s, fs, b),
    ensures
        ({
            let i = subvol_index(s, fs, a);
            let s1 = move_transition(s, i, b);
            &&& has_subvol(s1, fs, b)
            &&& !has_subvol(s1, fs, a)
            &&& subvol_index(s1, fs, b) == i
            &&& s1[i].subvol.uuid == s[i].subvol.uuid
            &&& s1[i].subvol.snapshot_source_uuid == s[i].subvol.snapshot_source_uuid
            &&& move_transition(s1, subvol_index(s1, fs, b), a) == s
        }),
{
    let i = subvol_index(s, fs, a);
    assert(0 <= i < s.len() && s[i].fs_uuid == fs && s[i].subvol.path == a);
    let s1 = move_transition(s, i, b);
    assert(s1[i].fs_uuid == fs && s1[i].subvol.path == b);
    assert(has_subvol(s1, fs, b));
    assert(!has_subvol(s1, fs, a)) by {
        if has_subvol(s1, fs, a) {
            let w = choose|w: int|
                0 <= w < s1.len() && s1[w].fs_uuid == fs && s1[w].subvol.path == a;
            assert(w != i);
            assert(s1[w] == s[w]);
            assert(a != b);
            assert(s[w].subvol.path != s[i].subvol.path);
        }
    }
    assert(subvol_index(s1, fs, b) == i) by {
        let w = subvol_index(s1, fs, b);
        assert(0 <= w < s1.len() && s1[w].fs_uuid == fs && s1[w].subvol.path == b);
        if w != i {
            assert(s1[w] == s[w]);
            assert(has_subvol(s, fs, b));
        }
    }
    assert(move_transition(s1, i, a) =~= s);
}

/// Setting the schedule-enabled flag is the transition a successful
/// `set_is_schedule_enabled` call promises: the flag takes the requested
/// value and the tick records are untouched.
pub open spec fn set_enabled_transition(
    pre: ScheduleStateView,
    post: ScheduleStateView,
    v: bool,
) -> bool {
    &&& post.enabled == v
    &&& post.skipped_ticks == pre.skipped_ticks
    &&& post.failed_ticks == pre.failed_ticks
}

/// Enabling the schedule twice is the same as enabling it once: the second
/// `set_is_schedule_enabled` with the same flag succeeds and leaves the
/// state exactly where the first left it.
pub proof fn lemma_set_enabled_idempotent(
    s0: ScheduleStateView,
    s1: ScheduleStateView,
    s2: ScheduleStateView,
    v: bool,
)
    requires
        set_enabled_transition(s0, s1, v),
        set_enabled_transition(s1, s2, v),
    ensures
        s2 == s1,
{
}

/// While a mutation holds a filesystem's serialization token, the token is
/// held — so a second `begin_mutation` or `tick_begin` on the same
/// filesystem cannot acquire it and reports `Busy` or a skipped tick.
/// Hence two mutations on one filesystem — say a move and a delete over
/// overlapping paths — never run at once: one of the two fails its begin.
pub proof fn lemma_serialization_excludes_second_begin(t: Seq<u128>, fs: u128)
    ensures
        token_held(t.push(fs), fs),
{
    assert(t.push(fs).last() == fs);
}

} // verus!
