use btrfsd_core::codec::{decode_filesystem, decode_subvolume, encode_filesystem, encode_subvolume};
use btrfsd_core::data::{BtrfsFilesystem, MountEntry, Subvolume};

fn subvol(path: &str, uuid: u128, created: u64, source: Option<u128>) -> Subvolume {
    Subvolume {
        path: path.to_string(),
        uuid,
        created,
        snapshot_source_uuid: source,
    }
}

#[test]
fn subvolume_roundtrip_without_source() {
    let sv = subvol("/data", 10, 5, None);
    let bytes = encode_subvolume(&sv);
    assert_eq!(decode_subvolume(&bytes), Some(sv));
}

#[test]
fn subvolume_roundtrip_with_source() {
    let sv = subvol("/data-snap", u128::MAX, u64::MAX, Some(12345678901234567890));
    let bytes = encode_subvolume(&sv);
    assert_eq!(decode_subvolume(&bytes), Some(sv));
}

#[test]
fn subvolume_roundtrip_empty_path() {
    let sv = subvol("", 0, 0, Some(0));
    let bytes = encode_subvolume(&sv);
    assert_eq!(decode_subvolume(&bytes), Some(sv));
}

#[test]
fn subvolume_roundtrip_unicode_path() {
    let sv = subvol("/données/ぼりゅーむ", 77, 3, None);
    let bytes = encode_subvolume(&sv);
    assert_eq!(decode_subvolume(&bytes), Some(sv));
}

#[test]
fn encoding_is_not_the_identity() {
    let sv = subvol("/data", 10, 5, None);
    let bytes = encode_subvolume(&sv);
    assert_eq!(bytes.len(), 8 + 5 + 16 + 8 + 1);
    assert_eq!(&bytes[0..8], &[5, 0, 0, 0, 0, 0, 0, 0]);
    assert_eq!(&bytes[8..13], "/data".as_bytes());
}

#[test]
fn truncated_bytes_do_not_decode() {
    let sv = subvol("/data", 10, 5, Some(11));
    let mut bytes = encode_subvolume(&sv);
    bytes.pop();
    assert_eq!(decode_subvolume(&bytes), None);
    assert_eq!(decode_subvolume(&Vec::new()), None);
}

#[test]
fn bad_tag_does_not_decode() {
    let sv = subvol("a", 1, 2, None);
    let mut bytes = encode_subvolume(&sv);
    let last = bytes.len() - 1;
    bytes[last] = 7;
    assert_eq!(decode_subvolume(&bytes), None);
}

#[test]
fn invalid_utf8_path_does_not_decode() {
    let sv = subvol("ab", 1, 2, None);
    let mut bytes = encode_subvolume(&sv);
    bytes[8] = 0xff;
    bytes[9] = 0xfe;
    assert_eq!(decode_subvolume(&bytes), None);
}

fn fs_rec(label: Option<&str>, uuid: u128, devices: &[&str], mounts: &[(&str, &[&str])]) -> BtrfsFilesystem {
    BtrfsFilesystem {
        label: label.map(|l| l.to_string()),
        uuid,
        devices: devices.iter().map(|d| d.to_string()).collect(),
        mounts: mounts
            .iter()
            .map(|(p, dirs)| MountEntry {
                subvol_path: p.to_string(),
                mount_dirs: dirs.iter().map(|d| d.to_string()).collect(),
            })
            .collect(),
    }
}

#[test]
fn filesystem_roundtrip_full() {
    let f = fs_rec(
        Some("tank"),
        42,
        &["/dev/sda1", "/dev/sdb1"],
        &[("/data", &["/mnt/data", "/srv/data"]), ("/home", &[])],
    );
    let bytes = encode_filesystem(&f);
    assert_eq!(decode_filesystem(&bytes), Some(f));
}

#[test]
fn filesystem_roundtrip_minimal() {
    let f = fs_rec(None, 0, &[], &[]);
    let bytes = encode_filesystem(&f);
    assert_eq!(decode_filesystem(&bytes), Some(f));
}

#[test]
fn filesystem_rejects_trailing_bytes() {
    let f = fs_rec(Some("t"), 1, &["/dev/sda1"], &[]);
    let mut bytes = encode_filesystem(&f);
    bytes.push(0);
    assert_eq!(decode_filesystem(&bytes), None);
    bytes.pop();
    bytes.pop();
    assert_eq!(decode_filesystem(&bytes), None);
}

#[test]
fn subvolume_rejects_trailing_bytes() {
    let sv = subvol("/data", 10, 5, None);
    let mut bytes = encode_subvolume(&sv);
    bytes.push(0);
    assert_eq!(decode_subvolume(&bytes), None);
}
