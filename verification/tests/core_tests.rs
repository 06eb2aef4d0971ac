use btrfsd_core::daemon::Daemon;
use btrfsd_core::data::{BtrfsFilesystem, MountEntry, SnapshotReply, Subvolume};
use btrfsd_core::error::{Error, ErrorKind};
use btrfsd_core::interface::to_boundary;
use btrfsd_core::scheduler::TickOutcome;

fn fs_record(uuid: u128, label: &str) -> BtrfsFilesystem {
    BtrfsFilesystem {
        label: Some(label.to_string()),
        uuid,
        devices: vec!["/dev/sda1".to_string()],
        mounts: Vec::new(),
    }
}

fn subvol(path: &str, uuid: u128, created: u64, source: Option<u128>) -> Subvolume {
    Subvolume {
        path: path.to_string(),
        uuid,
        created,
        snapshot_source_uuid: source,
    }
}

#[test]
fn list_filesystems_unique_uuids() {
    let mut d = Daemon::new();
    d.refresh_filesystems(vec![fs_record(1, "a"), fs_record(2, "b")])
        .unwrap();
    let listed = d.list_filesystems();
    assert_eq!(listed.len(), 2);
    assert_eq!(listed[0].uuid, 1);
    assert_eq!(listed[1].uuid, 2);
    assert!(listed[0].uuid != listed[1].uuid);
}

#[test]
fn refresh_rejects_duplicate_uuid() {
    let mut d = Daemon::new();
    let r = d.refresh_filesystems(vec![fs_record(7, "a"), fs_record(7, "b")]);
    assert_eq!(r, Err(ErrorKind::Discovery));
    assert!(d.list_filesystems().is_empty());
}

#[test]
fn refresh_rejects_empty_devices() {
    let mut d = Daemon::new();
    let bad = BtrfsFilesystem {
        label: None,
        uuid: 3,
        devices: Vec::new(),
        mounts: Vec::new(),
    };
    assert_eq!(d.refresh_filesystems(vec![bad]), Err(ErrorKind::Discovery));
}

#[test]
fn set_filesystem_unknown_is_not_found() {
    let mut d = Daemon::new();
    d.refresh_filesystems(vec![fs_record(1, "a")]).unwrap();
    let r = d.set_filesystem(&fs_record(99, "ghost"));
    assert_eq!(r, Err(ErrorKind::NotFound));
    assert_eq!(d.filesystem(), None);
}

#[test]
fn set_filesystem_reports_change() {
    let mut d = Daemon::new();
    d.refresh_filesystems(vec![fs_record(1, "a")]).unwrap();
    assert_eq!(d.set_filesystem(&fs_record(1, "a")), Ok(true));
    assert_eq!(d.set_filesystem(&fs_record(1, "a")), Ok(false));
    assert_eq!(d.filesystem(), Some(1));
}

#[test]
fn refresh_clears_vanished_active_selection() {
    let mut d = Daemon::new();
    d.refresh_filesystems(vec![fs_record(1, "a"), fs_record(2, "b")])
        .unwrap();
    d.set_filesystem(&fs_record(1, "a")).unwrap();
    d.refresh_filesystems(vec![fs_record(1, "a")]).unwrap();
    assert_eq!(d.filesystem(), Some(1));
    d.refresh_filesystems(vec![fs_record(2, "b")]).unwrap();
    assert_eq!(d.filesystem(), None);
}

#[test]
fn list_subvolumes_needs_selection() {
    let d = Daemon::new();
    assert_eq!(d.list_subvolumes(), Err(ErrorKind::NoActiveFilesystem));
}

#[test]
fn tracked_subvolumes_are_listed_in_order() {
    let mut d = Daemon::new();
    d.refresh_filesystems(vec![fs_record(1, "a")]).unwrap();
    d.set_filesystem(&fs_record(1, "a")).unwrap();
    d.track_discovered_subvolume(1, subvol("/data", 10, 5, None))
        .unwrap();
    d.track_discovered_subvolume(1, subvol("/home", 11, 6, None))
        .unwrap();
    let listed = d.list_subvolumes().unwrap();
    assert_eq!(listed.len(), 2);
    assert_eq!(listed[0], subvol("/data", 10, 5, None));
    assert_eq!(listed[1], subvol("/home", 11, 6, None));
}

#[test]
fn track_rejects_bad_records() {
    let mut d = Daemon::new();
    d.track_discovered_subvolume(1, subvol("/data", 10, 5, None))
        .unwrap();
    assert_eq!(
        d.track_discovered_subvolume(1, subvol("/data", 12, 5, None)),
        Err(ErrorKind::Conflict)
    );
    assert_eq!(
        d.track_discovered_subvolume(1, subvol("/other", 10, 5, None)),
        Err(ErrorKind::Discovery)
    );
    assert_eq!(
        d.track_discovered_subvolume(1, subvol("/selfy", 13, 5, Some(13))),
        Err(ErrorKind::Discovery)
    );
}

#[test]
fn move_then_move_back_is_identity() {
    let mut d = Daemon::new();
    d.refresh_filesystems(vec![fs_record(1, "a")]).unwrap();
    d.set_filesystem(&fs_record(1, "a")).unwrap();
    d.track_discovered_subvolume(1, subvol("/data", 10, 5, Some(42)))
        .unwrap();
    let before = d.list_subvolumes().unwrap();

    let fs = d.begin_mutation().unwrap();
    d.finish_move(fs, &"/data".to_string(), &"/data2".to_string(), true)
        .unwrap();
    let mid = d.list_subvolumes().unwrap();
    assert_eq!(mid[0].path, "/data2".to_string());
    assert_eq!(mid[0].uuid, 10);
    assert_eq!(mid[0].snapshot_source_uuid, Some(42));

    let fs = d.begin_mutation().unwrap();
    d.finish_move(fs, &"/data2".to_string(), &"/data".to_string(), true)
        .unwrap();
    assert_eq!(d.list_subvolumes().unwrap(), before);
}

#[test]
fn move_errors_leave_state_unchanged() {
    let mut d = Daemon::new();
    d.refresh_filesystems(vec![fs_record(1, "a")]).unwrap();
    d.set_filesystem(&fs_record(1, "a")).unwrap();
    d.track_discovered_subvolume(1, subvol("/data", 10, 5, None))
        .unwrap();
    d.track_discovered_subvolume(1, subvol("/home", 11, 6, None))
        .unwrap();
    let before = d.list_subvolumes().unwrap();

    let fs = d.begin_mutation().unwrap();
    assert_eq!(
        d.finish_move(fs, &"/nope".to_string(), &"/x".to_string(), true),
        Err(ErrorKind::NotFound)
    );
    let fs = d.begin_mutation().unwrap();
    assert_eq!(
        d.finish_move(fs, &"/data".to_string(), &"/home".to_string(), true),
        Err(ErrorKind::Conflict)
    );
    let fs = d.begin_mutation().unwrap();
    assert_eq!(
        d.finish_move(fs, &"/data".to_string(), &"/fresh".to_string(), false),
        Err(ErrorKind::Operation)
    );
    assert_eq!(d.list_subvolumes().unwrap(), before);
}

#[test]
fn snapshot_records_lineage() {
    let mut d = Daemon::new();
    d.refresh_filesystems(vec![fs_record(1, "a")]).unwrap();
    d.set_filesystem(&fs_record(1, "a")).unwrap();
    d.track_discovered_subvolume(1, subvol("/data", 10, 5, None))
        .unwrap();

    let fs = d.begin_mutation().unwrap();
    assert_eq!(d.check_snapshot(fs, &"/data".to_string(), &"/data-snap".to_string()), Ok(()));
    let created = d
        .finish_snapshot(
            fs,
            &"/data".to_string(),
            &"/data-snap".to_string(),
            Some(SnapshotReply { uuid: 20, created: 99 }),
        )
        .unwrap();
    assert_eq!(created, subvol("/data-snap", 20, 99, Some(10)));
    let listed = d.list_subvolumes().unwrap();
    assert!(listed.contains(&subvol("/data-snap", 20, 99, Some(10))));
}

#[test]
fn snapshot_rejects_colliding_reply_uuid() {
    let mut d = Daemon::new();
    d.refresh_filesystems(vec![fs_record(1, "a")]).unwrap();
    d.set_filesystem(&fs_record(1, "a")).unwrap();
    d.track_discovered_subvolume(1, subvol("/data", 10, 5, None))
        .unwrap();
    let fs = d.begin_mutation().unwrap();
    let r = d.finish_snapshot(
        fs,
        &"/data".to_string(),
        &"/data-snap".to_string(),
        Some(SnapshotReply { uuid: 10, created: 99 }),
    );
    assert_eq!(r, Err(ErrorKind::Operation));
    assert_eq!(d.list_subvolumes().unwrap().len(), 1);
}

#[test]
fn delete_preserves_snapshot_lineage() {
    let mut d = Daemon::new();
    d.refresh_filesystems(vec![fs_record(1, "f")]).unwrap();
    d.set_filesystem(&fs_record(1, "f")).unwrap();
    d.track_discovered_subvolume(1, subvol("/data", 10, 5, None))
        .unwrap();

    let fs = d.begin_mutation().unwrap();
    let snap = d
        .finish_snapshot(
            fs,
            &"/data".to_string(),
            &"/data-snap".to_string(),
            Some(SnapshotReply { uuid: 20, created: 99 }),
        )
        .unwrap();
    assert_eq!(snap.snapshot_source_uuid, Some(10));

    let fs = d.begin_mutation().unwrap();
    assert_eq!(d.check_delete(fs, &"/data".to_string()), Ok(()));
    d.finish_delete(fs, &"/data".to_string(), true).unwrap();

    let listed = d.list_subvolumes().unwrap();
    assert_eq!(listed.len(), 1);
    assert_eq!(listed[0], subvol("/data-snap", 20, 99, Some(10)));
}

#[test]
fn delete_of_mounted_subvolume_is_busy() {
    let mut d = Daemon::new();
    let fs_rec = BtrfsFilesystem {
        label: Some("f".to_string()),
        uuid: 1,
        devices: vec!["/dev/sda1".to_string()],
        mounts: vec![MountEntry {
            subvol_path: "/data".to_string(),
            mount_dirs: vec!["/mnt/data".to_string()],
        }],
    };
    d.refresh_filesystems(vec![fs_rec]).unwrap();
    d.set_filesystem(&fs_record(1, "f")).unwrap();
    d.track_discovered_subvolume(1, subvol("/data", 10, 5, None))
        .unwrap();
    let fs = d.begin_mutation().unwrap();
    assert_eq!(
        d.finish_delete(fs, &"/data".to_string(), true),
        Err(ErrorKind::Busy)
    );
    assert_eq!(d.list_subvolumes().unwrap().len(), 1);
}

#[test]
fn schedule_toggle_is_idempotent() {
    let mut d = Daemon::new();
    assert!(!d.is_schedule_enabled());
    assert_eq!(d.set_is_schedule_enabled(true), Ok(()));
    assert_eq!(d.set_is_schedule_enabled(true), Ok(()));
    assert!(d.is_schedule_enabled());
    assert_eq!(d.set_is_schedule_enabled(false), Ok(()));
    assert!(!d.is_schedule_enabled());
}

#[test]
fn second_begin_on_same_filesystem_is_busy() {
    let mut d = Daemon::new();
    d.refresh_filesystems(vec![fs_record(1, "a")]).unwrap();
    d.set_filesystem(&fs_record(1, "a")).unwrap();
    let fs = d.begin_mutation().unwrap();
    assert_eq!(d.begin_mutation(), Err(ErrorKind::Busy));
    d.abort_mutation(fs);
    assert_eq!(d.begin_mutation(), Ok(1));
}

#[test]
fn busy_tick_is_skipped_without_touching_state() {
    let mut d = Daemon::new();
    d.refresh_filesystems(vec![fs_record(1, "a")]).unwrap();
    d.set_filesystem(&fs_record(1, "a")).unwrap();
    d.track_discovered_subvolume(1, subvol("/data", 10, 5, None))
        .unwrap();
    d.set_is_schedule_enabled(true).unwrap();

    let fs = d.begin_mutation().unwrap();
    assert_eq!(d.tick_begin(fs), TickOutcome::SkippedBusy);
    assert_eq!(d.skipped_ticks(), 1);
    assert_eq!(d.list_subvolumes().unwrap().len(), 1);
    d.abort_mutation(fs);

    assert_eq!(d.tick_begin(1), TickOutcome::Attempted);
    let snap = d
        .finish_snapshot(
            1,
            &"/data".to_string(),
            &"/auto-1".to_string(),
            Some(SnapshotReply { uuid: 30, created: 100 }),
        )
        .unwrap();
    assert_eq!(snap.snapshot_source_uuid, Some(10));
}

#[test]
fn disabled_tick_does_nothing() {
    let mut d = Daemon::new();
    assert_eq!(d.tick_begin(1), TickOutcome::SkippedDisabled);
    assert_eq!(d.skipped_ticks(), 0);
}

#[test]
fn tick_failures_are_recorded_not_fatal() {
    let mut d = Daemon::new();
    d.record_tick_failure();
    d.record_tick_failure();
    assert_eq!(d.failed_ticks(), 2);
    assert_eq!(d.tick_begin(1), TickOutcome::SkippedDisabled);
}

#[test]
fn boundary_errors_carry_messages() {
    let r: Result<(), Error> = to_boundary(Err(ErrorKind::NotFound));
    assert_eq!(
        r.unwrap_err().message(),
        "subvolume or filesystem not found"
    );
    let r: Result<(), Error> = to_boundary(Err(ErrorKind::Busy));
    assert_eq!(r.unwrap_err().message(), "resource is busy");
    let r: Result<u32, Error> = to_boundary(Ok(7));
    assert_eq!(r.unwrap(), 7);
}

#[test]
fn error_new_keeps_message() {
    let e = Error::new("boom".to_string());
    assert_eq!(e.message(), "boom");
}

#[test]
fn subvolume_default_is_empty_record() {
    let s = Subvolume::default();
    assert_eq!(s, subvol("", 0, 0, None));
}
