//! A byte codec for the records that cross the service boundary or are
//! persisted. The encoding is little-endian and length-prefixed: a string is
//! its UTF-8 byte length (8 bytes) followed by its UTF-8 bytes; an optional
//! identifier is a tag byte (0 or 1) optionally followed by 16 identifier
//! bytes.
//!
//! Each decoder refines a spec-level decoder exactly, returning a record
//! precisely when the bytes are one whole record's encoding; the round-trip
//! lemmas ([`lemma_subvolume_roundtrip`], [`lemma_fs_roundtrip`]) prove that
//! the spec decoders invert the encodings, so decoding an encoding yields
//! the encoded record.

use vstd::prelude::*;
use vstd::bytes::{
    lemma_auto_spec_u128_to_from_le_bytes, lemma_auto_spec_u64_to_from_le_bytes,
    spec_u128_from_le_bytes, spec_u128_to_le_bytes, spec_u64_from_le_bytes,
    spec_u64_to_le_bytes, u128_from_le_bytes, u128_to_le_bytes, u64_from_le_bytes,
    u64_to_le_bytes,
};
use vstd::slice::{slice_subrange, slice_to_vec};
use vstd::utf8::{decode_utf8, encode_utf8, valid_utf8};
use crate::data::{
    BtrfsFilesystem, BtrfsFilesystemView, MountEntry, MountEntryView, Subvolume, SubvolumeView,
};

verus! {

/// Relies on String::from_utf8: it succeeds exactly on the byte sequences
/// that are valid UTF-8 and yields the characters those bytes encode (the
/// model vstd's utf8 module gives to str::as_bytes and str::from_utf8_unchecked).
#[verifier::external_body]
fn string_from_utf8(bytes: Vec<u8>) -> (r: Option<String>)
    ensures
        r is Some <==> valid_utf8(bytes@),
        r is Some ==> r.unwrap()@ == decode_utf8(bytes@),
{
    match String::from_utf8(bytes) {
        Ok(s) => Option::Some(s),
        Err(_) => Option::None,
    }
}

/// The encoding of a string: the length of its UTF-8 form, then that form.
pub open spec fn spec_encode_str(s: Seq<char>) -> Seq<u8> {
    spec_u64_to_le_bytes(encode_utf8(s).len() as u64) + encode_utf8(s)
}

/// The encoding of an optional identifier: a tag byte, then the identifier.
pub open spec fn spec_encode_opt_u128(o: Option<u128>) -> Seq<u8> {
    match o {
        Option::None => seq![0u8],
        Option::Some(u) => seq![1u8] + spec_u128_to_le_bytes(u),
    }
}

/// The encoding of a subvolume record: path, uuid, creation time, source.
pub open spec fn spec_encode_subvolume(v: SubvolumeView) -> Seq<u8> {
    spec_encode_str(v.path) + spec_u128_to_le_bytes(v.uuid) + spec_u64_to_le_bytes(v.created)
        + spec_encode_opt_u128(v.snapshot_source_uuid)
}

/// Encodes a subvolume record.
pub fn encode_subvolume(sv: &Subvolume) -> (b: Vec<u8>)
    ensures
        subvolume_encodable(sv@),
        b@ == spec_encode_subvolume(sv@),
{
    let mut b: Vec<u8> = Vec::new();
    let sbytes: &[u8] = sv.path.as_str().as_bytes();
    let n: u64 = sbytes.len() as u64;
    let mut piece = u64_to_le_bytes(n);
    b.append(&mut piece);
    let mut sb = slice_to_vec(sbytes);
    b.append(&mut sb);
    let mut ub = u128_to_le_bytes(sv.uuid);
    b.append(&mut ub);
    let mut cb = u64_to_le_bytes(sv.created);
    b.append(&mut cb);
    match sv.snapshot_source_uuid {
        Option::None => {
            b.push(0u8);
        },
        Option::Some(u) => {
            b.push(1u8);
            let mut xb = u128_to_le_bytes(u);
            b.append(&mut xb);
        },
    }
    proof {
        assert(b@ =~= spec_encode_subvolume(sv@));
    }
    b
}

} // verus!

// == The filesystem record codec ==
//
// A filesystem record nests lists, so its decoder is specified as a
// remainder-passing spec function: each piece consumes a prefix of the byte
// sequence and hands the rest on. The decoder below refines that spec, and
// the round-trip lemma shows that the spec decoder inverts the encoding.

verus! {

/// Whether a string fits the 8-byte length prefix; true of every string an
/// executable value can hold.
pub open spec fn str_encodable(s: Seq<char>) -> bool {
    encode_utf8(s).len() <= u64::MAX
}

/// Whether a list of strings fits the encoding's count and length prefixes.
pub open spec fn strs_encodable(l: Seq<Seq<char>>) -> bool {
    &&& l.len() <= u64::MAX
    &&& forall|i: int| 0 <= i < l.len() ==> str_encodable(#[trigger] l[i])
}

/// Whether a mount entry fits the encoding's prefixes.
pub open spec fn mount_encodable(m: MountEntryView) -> bool {
    str_encodable(m.subvol_path) && strs_encodable(m.mount_dirs)
}

/// Whether a filesystem record fits the encoding's prefixes.
pub open spec fn fs_encodable(v: BtrfsFilesystemView) -> bool {
    &&& match v.label {
        Option::Some(l) => str_encodable(l),
        Option::None => true,
    }
    &&& strs_encodable(v.devices)
    &&& v.mounts.len() <= u64::MAX
    &&& forall|i: int| 0 <= i < v.mounts.len() ==> mount_encodable(#[trigger] v.mounts[i])
}

/// The encoding of an optional string: a tag byte, then the string.
pub open spec fn spec_encode_opt_str(o: Option<Seq<char>>) -> Seq<u8> {
    match o {
        Option::None => seq![0u8],
        Option::Some(s) => seq![1u8] + spec_encode_str(s),
    }
}

/// The encodings of a list's elements, in order.
pub open spec fn spec_encode_str_list(l: Seq<Seq<char>>) -> Seq<u8>
    decreases l.len(),
{
    if l.len() == 0 {
        Seq::empty()
    } else {
        spec_encode_str(l.first()) + spec_encode_str_list(l.drop_first())
    }
}

/// The encoding of a list of strings: its count, then its elements.
pub open spec fn spec_encode_strs(l: Seq<Seq<char>>) -> Seq<u8> {
    spec_u64_to_le_bytes(l.len() as u64) + spec_encode_str_list(l)
}

/// The encoding of a mount entry: the subvolume path, then the mount dirs.
pub open spec fn spec_encode_mount(m: MountEntryView) -> Seq<u8> {
    spec_encode_str(m.subvol_path) + spec_encode_strs(m.mount_dirs)
}

/// The encodings of a mount list's entries, in order.
pub open spec fn spec_encode_mount_list(l: Seq<MountEntryView>) -> Seq<u8>
    decreases l.len(),
{
    if l.len() == 0 {
        Seq::empty()
    } else {
        spec_encode_mount(l.first()) + spec_encode_mount_list(l.drop_first())
    }
}

/// The encoding of a list of mount entries: its count, then its entries.
pub open spec fn spec_encode_mounts(l: Seq<MountEntryView>) -> Seq<u8> {
    spec_u64_to_le_bytes(l.len() as u64) + spec_encode_mount_list(l)
}

/// The encoding of a filesystem record: label, uuid, devices, mounts.
pub open spec fn spec_encode_fs(v: BtrfsFilesystemView) -> Seq<u8> {
    spec_encode_opt_str(v.label) + spec_u128_to_le_bytes(v.uuid) + spec_encode_strs(v.devices)
        + spec_encode_mounts(v.mounts)
}

/// Spec decoder for a fixed-width integer: the first 8 bytes, little-endian.
pub open spec fn sdec_u64(b: Seq<u8>) -> Option<(u64, Seq<u8>)> {
    if b.len() >= 8 {
        Option::Some((spec_u64_from_le_bytes(b.take(8)), b.skip(8)))
    } else {
        Option::None
    }
}

/// Spec decoder for a 16-byte little-endian identifier.
pub open spec fn sdec_u128(b: Seq<u8>) -> Option<(u128, Seq<u8>)> {
    if b.len() >= 16 {
        Option::Some((spec_u128_from_le_bytes(b.take(16)), b.skip(16)))
    } else {
        Option::None
    }
}

/// Spec decoder for a length-prefixed UTF-8 string.
pub open spec fn sdec_str(b: Seq<u8>) -> Option<(Seq<char>, Seq<u8>)> {
    match sdec_u64(b) {
        Option::None => Option::None,
        Option::Some((n, rest)) => {
            if rest.len() >= n && valid_utf8(rest.take(n as int)) {
                Option::Some((decode_utf8(rest.take(n as int)), rest.skip(n as int)))
            } else {
                Option::None
            }
        },
    }
}

/// Spec decoder for a tagged optional string.
pub open spec fn sdec_opt_str(b: Seq<u8>) -> Option<(Option<Seq<char>>, Seq<u8>)> {
    if b.len() < 1 {
        Option::None
    } else if b.first() == 0u8 {
        Option::Some((Option::None, b.drop_first()))
    } else if b.first() == 1u8 {
        match sdec_str(b.drop_first()) {
            Option::None => Option::None,
            Option::Some((s, rest)) => Option::Some((Option::Some(s), rest)),
        }
    } else {
        Option::None
    }
}

/// Spec decoder for exactly `k` consecutive strings.
pub open spec fn sdec_str_list(b: Seq<u8>, k: nat) -> Option<(Seq<Seq<char>>, Seq<u8>)>
    decreases k,
{
    if k == 0 {
        Option::Some((Seq::empty(), b))
    } else {
        match sdec_str(b) {
            Option::None => Option::None,
            Option::Some((s, rest)) => {
                match sdec_str_list(rest, (k - 1) as nat) {
                    Option::None => Option::None,
                    Option::Some((l, rest2)) => Option::Some((seq![s] + l, rest2)),
                }
            },
        }
    }
}

/// Spec decoder for a count-prefixed list of strings.
pub open spec fn sdec_strs(b: Seq<u8>) -> Option<(Seq<Seq<char>>, Seq<u8>)> {
    match sdec_u64(b) {
        Option::None => Option::None,
        Option::Some((n, rest)) => sdec_str_list(rest, n as nat),
    }
}

/// Spec decoder for one mount entry.
pub open spec fn sdec_mount(b: Seq<u8>) -> Option<(MountEntryView, Seq<u8>)> {
    match sdec_str(b) {
        Option::None => Option::None,
        Option::Some((p, rest)) => {
            match sdec_strs(rest) {
                Option::None => Option::None,
                Option::Some((dirs, rest2)) => Option::Some(
                    (MountEntryView { subvol_path: p, mount_dirs: dirs }, rest2),
                ),
            }
        },
    }
}

/// Spec decoder for exactly `k` consecutive mount entries.
pub open spec fn sdec_mount_list(b: Seq<u8>, k: nat) -> Option<(Seq<MountEntryView>, Seq<u8>)>
    decreases k,
{
    if k == 0 {
        Option::Some((Seq::empty(), b))
    } else {
        match sdec_mount(b) {
            Option::None => Option::None,
            Option::Some((m, rest)) => {
                match sdec_mount_list(rest, (k - 1) as nat) {
                    Option::None => Option::None,
                    Option::Some((l, rest2)) => Option::Some((seq![m] + l, rest2)),
                }
            },
        }
    }
}

/// Spec decoder for a count-prefixed list of mount entries.
pub open spec fn sdec_mounts(b: Seq<u8>) -> Option<(Seq<MountEntryView>, Seq<u8>)> {
    match sdec_u64(b) {
        Option::None => Option::None,
        Option::Some((n, rest)) => sdec_mount_list(rest, n as nat),
    }
}

/// Spec decoder for a whole filesystem record; the encoding must take up
/// the whole input.
pub open spec fn sdec_fs(b: Seq<u8>) -> Option<BtrfsFilesystemView> {
    match sdec_opt_str(b) {
        Option::None => Option::None,
        Option::Some((label, r1)) => {
            match sdec_u128(r1) {
                Option::None => Option::None,
                Option::Some((uuid, r2)) => {
                    match sdec_strs(r2) {
                        Option::None => Option::None,
                        Option::Some((devices, r3)) => {
                            match sdec_mounts(r3) {
                                Option::None => Option::None,
                                Option::Some((mounts, r4)) => {
                                    if r4.len() == 0 {
                                        Option::Some(
                                            BtrfsFilesystemView { label, uuid, devices, mounts },
                                        )
                                    } else {
                                        Option::None
                                    }
                                },
                            }
                        },
                    }
                },
            }
        },
    }
}

} // verus!

// == Round trip of the filesystem codec, at the spec level ==

verus! {

proof fn lemma_sdec_u64_enc(x: u64, rest: Seq<u8>)
    ensures
        sdec_u64(spec_u64_to_le_bytes(x) + rest) == Option::Some((x, rest)),
{
    lemma_auto_spec_u64_to_from_le_bytes();
    let b = spec_u64_to_le_bytes(x) + rest;
    assert(b.take(8) =~= spec_u64_to_le_bytes(x));
    assert(b.skip(8) =~= rest);
}

proof fn lemma_sdec_u128_enc(x: u128, rest: Seq<u8>)
    ensures
        sdec_u128(spec_u128_to_le_bytes(x) + rest) == Option::Some((x, rest)),
{
    lemma_auto_spec_u128_to_from_le_bytes();
    let b = spec_u128_to_le_bytes(x) + rest;
    assert(b.take(16) =~= spec_u128_to_le_bytes(x));
    assert(b.skip(16) =~= rest);
}

proof fn lemma_sdec_str_enc(s: Seq<char>, rest: Seq<u8>)
    requires
        str_encodable(s),
    ensures
        sdec_str(spec_encode_str(s) + rest) == Option::Some((s, rest)),
{
    lemma_auto_spec_u64_to_from_le_bytes();
    broadcast use vstd::utf8::encode_utf8_valid_utf8;
    broadcast use vstd::utf8::encode_utf8_decode_utf8;

    let u = encode_utf8(s);
    let n = u.len() as u64;
    assert(spec_encode_str(s) + rest =~= spec_u64_to_le_bytes(n) + (u + rest));
    lemma_sdec_u64_enc(n, u + rest);
    assert((u + rest).take(n as int) =~= u);
    assert((u + rest).skip(n as int) =~= rest);
}

proof fn lemma_sdec_opt_str_enc(o: Option<Seq<char>>, rest: Seq<u8>)
    requires
        match o {
            Option::Some(s) => str_encodable(s),
            Option::None => true,
        },
    ensures
        sdec_opt_str(spec_encode_opt_str(o) + rest) == Option::Some((o, rest)),
{
    match o {
        Option::None => {
            let b = spec_encode_opt_str(o) + rest;
            assert(b.first() == 0u8);
            assert(b.drop_first() =~= rest);
        },
        Option::Some(s) => {
            let b = spec_encode_opt_str(o) + rest;
            assert(b =~= seq![1u8] + (spec_encode_str(s) + rest));
            assert(b.first() == 1u8);
            assert(b.drop_first() =~= spec_encode_str(s) + rest);
            lemma_sdec_str_enc(s, rest);
        },
    }
}

proof fn lemma_sdec_str_list_enc(l: Seq<Seq<char>>, rest: Seq<u8>)
    requires
        forall|i: int| 0 <= i < l.len() ==> str_encodable(#[trigger] l[i]),
    ensures
        sdec_str_list(spec_encode_str_list(l) + rest, l.len()) == Option::Some((l, rest)),
    decreases l.len(),
{
    if l.len() == 0 {
        assert(spec_encode_str_list(l) + rest =~= rest);
        assert(l =~= Seq::<Seq<char>>::empty());
    } else {
        let tail = l.drop_first();
        assert(spec_encode_str_list(l) + rest =~= spec_encode_str(l.first()) + (
        spec_encode_str_list(tail) + rest));
        lemma_sdec_str_enc(l.first(), spec_encode_str_list(tail) + rest);
        assert(forall|i: int| 0 <= i < tail.len() ==> str_encodable(#[trigger] tail[i]));
        lemma_sdec_str_list_enc(tail, rest);
        assert(seq![l.first()] + tail =~= l);
    }
}

proof fn lemma_sdec_strs_enc(l: Seq<Seq<char>>, rest: Seq<u8>)
    requires
        strs_encodable(l),
    ensures
        sdec_strs(spec_encode_strs(l) + rest) == Option::Some((l, rest)),
{
    let n = l.len() as u64;
    assert(spec_encode_strs(l) + rest =~= spec_u64_to_le_bytes(n) + (spec_encode_str_list(l)
        + rest));
    lemma_sdec_u64_enc(n, spec_encode_str_list(l) + rest);
    lemma_sdec_str_list_enc(l, rest);
    assert(n as nat == l.len());
}

proof fn lemma_sdec_mount_enc(m: MountEntryView, rest: Seq<u8>)
    requires
        mount_encodable(m),
    ensures
        sdec_mount(spec_encode_mount(m) + rest) == Option::Some((m, rest)),
{
    assert(spec_encode_mount(m) + rest =~= spec_encode_str(m.subvol_path) + (spec_encode_strs(
        m.mount_dirs,
    ) + rest));
    lemma_sdec_str_enc(m.subvol_path, spec_encode_strs(m.mount_dirs) + rest);
    lemma_sdec_strs_enc(m.mount_dirs, rest);
}

proof fn lemma_sdec_mount_list_enc(l: Seq<MountEntryView>, rest: Seq<u8>)
    requires
        forall|i: int| 0 <= i < l.len() ==> mount_encodable(#[trigger] l[i]),
    ensures
        sdec_mount_list(spec_encode_mount_list(l) + rest, l.len()) == Option::Some((l, rest)),
    decreases l.len(),
{
    if l.len() == 0 {
        assert(spec_encode_mount_list(l) + rest =~= rest);
        assert(l =~= Seq::<MountEntryView>::empty());
    } else {
        let tail = l.drop_first();
        assert(spec_encode_mount_list(l) + rest =~= spec_encode_mount(l.first()) + (
        spec_encode_mount_list(tail) + rest));
        lemma_sdec_mount_enc(l.first(), spec_encode_mount_list(tail) + rest);
        assert(forall|i: int| 0 <= i < tail.len() ==> mount_encodable(#[trigger] tail[i]));
        lemma_sdec_mount_list_enc(tail, rest);
        assert(seq![l.first()] + tail =~= l);
    }
}

proof fn lemma_sdec_mounts_enc(l: Seq<MountEntryView>, rest: Seq<u8>)
    requires
        l.len() <= u64::MAX,
        forall|i: int| 0 <= i < l.len() ==> mount_encodable(#[trigger] l[i]),
    ensures
        sdec_mounts(spec_encode_mounts(l) + rest) == Option::Some((l, rest)),
{
    let n = l.len() as u64;
    assert(spec_encode_mounts(l) + rest =~= spec_u64_to_le_bytes(n) + (spec_encode_mount_list(l)
        + rest));
    lemma_sdec_u64_enc(n, spec_encode_mount_list(l) + rest);
    lemma_sdec_mount_list_enc(l, rest);
    assert(n as nat == l.len());
}

/// The codec round trip for a filesystem record: decoding the encoding of
/// any encodable record yields exactly that record.
pub proof fn lemma_fs_roundtrip(v: BtrfsFilesystemView)
    requires
        fs_encodable(v),
    ensures
        sdec_fs(spec_encode_fs(v)) == Option::Some(v),
{
    let t3 = spec_encode_mounts(v.mounts);
    let t2 = spec_encode_strs(v.devices) + t3;
    let t1 = spec_u128_to_le_bytes(v.uuid) + t2;
    let b = spec_encode_fs(v);
    assert(b =~= spec_encode_opt_str(v.label) + t1);
    lemma_sdec_opt_str_enc(v.label, t1);
    assert(t1 =~= spec_u128_to_le_bytes(v.uuid) + t2);
    lemma_sdec_u128_enc(v.uuid, t2);
    assert(t2 =~= spec_encode_strs(v.devices) + t3);
    lemma_sdec_strs_enc(v.devices, t3);
    assert(t3 =~= spec_encode_mounts(v.mounts) + Seq::<u8>::empty());
    lemma_sdec_mounts_enc(v.mounts, Seq::<u8>::empty());
    assert(BtrfsFilesystemView {
        label: v.label,
        uuid: v.uuid,
        devices: v.devices,
        mounts: v.mounts,
    } == v);
}

} // verus!

// == The filesystem record codec, executable ==

verus! {

/// Views of a sequence of mount entries.
pub open spec fn mount_views(v: Seq<MountEntry>) -> Seq<MountEntryView> {
    Seq::new(v.len(), |i: int| v[i]@)
}

proof fn lemma_enc_str_list_snoc(l: Seq<Seq<char>>, i: int)
    requires
        0 <= i < l.len(),
    ensures
        spec_encode_str_list(l.take(i + 1)) == spec_encode_str_list(l.take(i))
            + spec_encode_str(l[i]),
    decreases i,
{
    if i == 0 {
        assert(l.take(1).first() == l[0]);
        assert(l.take(1).drop_first() =~= Seq::<Seq<char>>::empty());
        assert(l.take(0) =~= Seq::<Seq<char>>::empty());
        assert(spec_encode_str_list(l.take(1)) =~= spec_encode_str_list(l.take(0))
            + spec_encode_str(l[0]));
    } else {
        let t = l.drop_first();
        assert(l.take(i + 1).first() == l[0]);
        assert(l.take(i + 1).drop_first() =~= t.take(i));
        assert(l.take(i).first() == l[0]);
        assert(l.take(i).drop_first() =~= t.take(i - 1));
        lemma_enc_str_list_snoc(t, i - 1);
        assert(t[i - 1] == l[i]);
        assert(spec_encode_str(l[0]) + (spec_encode_str_list(t.take(i - 1)) + spec_encode_str(
            l[i],
        )) =~= (spec_encode_str(l[0]) + spec_encode_str_list(t.take(i - 1))) + spec_encode_str(
            l[i],
        ));
    }
}

proof fn lemma_enc_mount_list_snoc(l: Seq<MountEntryView>, i: int)
    requires
        0 <= i < l.len(),
    ensures
        spec_encode_mount_list(l.take(i + 1)) == spec_encode_mount_list(l.take(i))
            + spec_encode_mount(l[i]),
    decreases i,
{
    if i == 0 {
        assert(l.take(1).first() == l[0]);
        assert(l.take(1).drop_first() =~= Seq::<MountEntryView>::empty());
        assert(l.take(0) =~= Seq::<MountEntryView>::empty());
        assert(spec_encode_mount_list(l.take(1)) =~= spec_encode_mount_list(l.take(0))
            + spec_encode_mount(l[0]));
    } else {
        let t = l.drop_first();
        assert(l.take(i + 1).first() == l[0]);
        assert(l.take(i + 1).drop_first() =~= t.take(i));
        assert(l.take(i).first() == l[0]);
        assert(l.take(i).drop_first() =~= t.take(i - 1));
        lemma_enc_mount_list_snoc(t, i - 1);
        assert(t[i - 1] == l[i]);
        assert(spec_encode_mount(l[0]) + (spec_encode_mount_list(t.take(i - 1))
            + spec_encode_mount(l[i])) =~= (spec_encode_mount(l[0]) + spec_encode_mount_list(
            t.take(i - 1),
        )) + spec_encode_mount(l[i]));
    }
}

fn enc_str_into(b: &mut Vec<u8>, s: &String)
    ensures
        str_encodable(s@),
        final(b)@ == old(b)@ + spec_encode_str(s@),
{
    let sbytes: &[u8] = s.as_str().as_bytes();
    let n: u64 = sbytes.len() as u64;
    let mut piece = u64_to_le_bytes(n);
    b.append(&mut piece);
    let mut sb = slice_to_vec(sbytes);
    b.append(&mut sb);
    proof {
        assert(b@ =~= old(b)@ + spec_encode_str(s@));
    }
}

fn enc_strs_into(b: &mut Vec<u8>, l: &Vec<String>)
    ensures
        strs_encodable(l.deep_view()),
        final(b)@ == old(b)@ + spec_encode_strs(l.deep_view()),
{
    let n: u64 = l.len() as u64;
    let mut piece = u64_to_le_bytes(n);
    b.append(&mut piece);
    let ghost start = b@;
    let mut i: usize = 0;
    while i < l.len()
        invariant
            0 <= i <= l.len(),
            b@ == start + spec_encode_str_list(l.deep_view().take(i as int)),
            forall|k: int| 0 <= k < i ==> str_encodable(#[trigger] l.deep_view()[k]),
        decreases l.len() - i,
    {
        enc_str_into(b, &l[i]);
        i = i + 1;
        proof {
            assert(l.deep_view()[i - 1] == l@[i - 1]@);
            lemma_enc_str_list_snoc(l.deep_view(), i - 1);
            assert(b@ =~= start + spec_encode_str_list(l.deep_view().take(i as int)));
        }
    }
    proof {
        assert(l.deep_view().take(l@.len() as int) =~= l.deep_view());
        assert(b@ =~= old(b)@ + spec_encode_strs(l.deep_view()));
    }
}

fn enc_mount_into(b: &mut Vec<u8>, m: &MountEntry)
    ensures
        mount_encodable(m@),
        final(b)@ == old(b)@ + spec_encode_mount(m@),
{
    enc_str_into(b, &m.subvol_path);
    enc_strs_into(b, &m.mount_dirs);
    proof {
        assert(b@ =~= old(b)@ + spec_encode_mount(m@));
    }
}

fn enc_mounts_into(b: &mut Vec<u8>, l: &Vec<MountEntry>)
    ensures
        mount_views(l@).len() <= u64::MAX,
        forall|i: int| 0 <= i < l@.len() ==> mount_encodable(#[trigger] mount_views(l@)[i]),
        final(b)@ == old(b)@ + spec_encode_mounts(mount_views(l@)),
{
    let n: u64 = l.len() as u64;
    let mut piece = u64_to_le_bytes(n);
    b.append(&mut piece);
    let ghost start = b@;
    let mut i: usize = 0;
    while i < l.len()
        invariant
            0 <= i <= l.len(),
            b@ == start + spec_encode_mount_list(mount_views(l@).take(i as int)),
            forall|k: int| 0 <= k < i ==> mount_encodable(#[trigger] mount_views(l@)[k]),
        decreases l.len() - i,
    {
        enc_mount_into(b, &l[i]);
        i = i + 1;
        proof {
            assert(mount_views(l@)[i - 1] == l@[i - 1]@);
            lemma_enc_mount_list_snoc(mount_views(l@), i - 1);
            assert(b@ =~= start + spec_encode_mount_list(mount_views(l@).take(i as int)));
        }
    }
    proof {
        assert(mount_views(l@).take(l@.len() as int) =~= mount_views(l@));
        assert(b@ =~= old(b)@ + spec_encode_mounts(mount_views(l@)));
    }
}

/// Encodes a filesystem record.
pub fn encode_filesystem(f: &BtrfsFilesystem) -> (b: Vec<u8>)
    ensures
        fs_encodable(f@),
        b@ == spec_encode_fs(f@),
{
    let mut b: Vec<u8> = Vec::new();
    match &f.label {
        Option::None => {
            b.push(0u8);
        },
        Option::Some(l) => {
            b.push(1u8);
            enc_str_into(&mut b, l);
        },
    }
    proof {
        assert(b@ =~= spec_encode_opt_str(f@.label));
    }
    let mut ub = u128_to_le_bytes(f.uuid);
    b.append(&mut ub);
    enc_strs_into(&mut b, &f.devices);
    enc_mounts_into(&mut b, &f.mounts);
    proof {
        assert(f@.devices == f.devices.deep_view());
        assert(f@.mounts == mount_views(f.mounts@));
        assert(b@ =~= spec_encode_fs(f@));
    }
    b
}

} // verus!

verus! {

fn dec_u64_at(b: &Vec<u8>, pos: usize) -> (r: Option<(u64, usize)>)
    requires
        pos <= b@.len(),
    ensures
        match r {
            Option::Some((v, p2)) => pos <= p2 <= b@.len() && sdec_u64(b@.skip(pos as int))
                == Option::Some((v, b@.skip(p2 as int))),
            Option::None => sdec_u64(b@.skip(pos as int)) is None,
        },
{
    if b.len() - pos < 8 {
        return Option::None;
    }
    let v = u64_from_le_bytes(slice_subrange(b.as_slice(), pos, pos + 8));
    proof {
        assert(b@.skip(pos as int).take(8) =~= b@.subrange(pos as int, pos + 8));
        assert(b@.skip(pos as int).skip(8) =~= b@.skip(pos + 8));
    }
    Option::Some((v, pos + 8))
}

fn dec_u128_at(b: &Vec<u8>, pos: usize) -> (r: Option<(u128, usize)>)
    requires
        pos <= b@.len(),
    ensures
        match r {
            Option::Some((v, p2)) => pos <= p2 <= b@.len() && sdec_u128(b@.skip(pos as int))
                == Option::Some((v, b@.skip(p2 as int))),
            Option::None => sdec_u128(b@.skip(pos as int)) is None,
        },
{
    if b.len() - pos < 16 {
        return Option::None;
    }
    let v = u128_from_le_bytes(slice_subrange(b.as_slice(), pos, pos + 16));
    proof {
        assert(b@.skip(pos as int).take(16) =~= b@.subrange(pos as int, pos + 16));
        assert(b@.skip(pos as int).skip(16) =~= b@.skip(pos + 16));
    }
    Option::Some((v, pos + 16))
}

fn dec_str_at(b: &Vec<u8>, pos: usize) -> (r: Option<(String, usize)>)
    requires
        pos <= b@.len(),
    ensures
        match r {
            Option::Some((s, p2)) => pos <= p2 <= b@.len() && sdec_str(b@.skip(pos as int))
                == Option::Some((s@, b@.skip(p2 as int))),
            Option::None => sdec_str(b@.skip(pos as int)) is None,
        },
{
    let (n, p1) = match dec_u64_at(b, pos) {
        Option::Some(x) => x,
        Option::None => {
            return Option::None;
        },
    };
    let ghost rest = b@.skip(p1 as int);
    if n > (b.len() - p1) as u64 {
        proof {
            assert(rest.len() < n);
        }
        return Option::None;
    }
    let nn: usize = n as usize;
    let chunk: Vec<u8> = slice_to_vec(slice_subrange(b.as_slice(), p1, p1 + nn));
    proof {
        assert(chunk@ =~= rest.take(n as int));
    }
    match string_from_utf8(chunk) {
        Option::None => {
            return Option::None;
        },
        Option::Some(s) => {
            proof {
                assert(b@.skip(p1 + nn) =~= rest.skip(n as int));
            }
            Option::Some((s, p1 + nn))
        },
    }
}

fn dec_opt_str_at(b: &Vec<u8>, pos: usize) -> (r: Option<(Option<String>, usize)>)
    requires
        pos <= b@.len(),
    ensures
        match r {
            Option::Some((o, p2)) => pos <= p2 <= b@.len() && sdec_opt_str(b@.skip(pos as int))
                == Option::Some(
                (
                    match o {
                        Option::Some(s) => Option::Some(s@),
                        Option::None => Option::None,
                    },
                    b@.skip(p2 as int),
                ),
            ),
            Option::None => sdec_opt_str(b@.skip(pos as int)) is None,
        },
{
    if pos >= b.len() {
        return Option::None;
    }
    let tag: u8 = b[pos];
    proof {
        assert(b@.skip(pos as int).first() == b@[pos as int]);
        assert(b@.skip(pos as int).drop_first() =~= b@.skip(pos + 1));
    }
    if tag == 0 {
        Option::Some((Option::None, pos + 1))
    } else if tag == 1 {
        match dec_str_at(b, pos + 1) {
            Option::None => Option::None,
            Option::Some((s, p2)) => Option::Some((Option::Some(s), p2)),
        }
    } else {
        Option::None
    }
}

fn dec_str_list_at(b: &Vec<u8>, pos: usize, k: u64) -> (r: Option<(Vec<String>, usize)>)
    requires
        pos <= b@.len(),
    ensures
        match r {
            Option::Some((l, p2)) => pos <= p2 <= b@.len() && sdec_str_list(
                b@.skip(pos as int),
                k as nat,
            ) == Option::Some((l.deep_view(), b@.skip(p2 as int))),
            Option::None => sdec_str_list(b@.skip(pos as int), k as nat) is None,
        },
    decreases k,
{
    if k == 0 {
        let l: Vec<String> = Vec::new();
        proof {
            assert(l.deep_view() =~= Seq::<Seq<char>>::empty());
        }
        return Option::Some((l, pos));
    }
    let (s, p1) = match dec_str_at(b, pos) {
        Option::Some(x) => x,
        Option::None => {
            return Option::None;
        },
    };
    let (mut l, p2) = match dec_str_list_at(b, p1, k - 1) {
        Option::Some(x) => x,
        Option::None => {
            return Option::None;
        },
    };
    let ghost tail_views = l.deep_view();
    l.insert(0, s);
    proof {
        assert(l.deep_view() =~= seq![s@] + tail_views);
    }
    Option::Some((l, p2))
}

fn dec_strs_at(b: &Vec<u8>, pos: usize) -> (r: Option<(Vec<String>, usize)>)
    requires
        pos <= b@.len(),
    ensures
        match r {
            Option::Some((l, p2)) => pos <= p2 <= b@.len() && sdec_strs(b@.skip(pos as int))
                == Option::Some((l.deep_view(), b@.skip(p2 as int))),
            Option::None => sdec_strs(b@.skip(pos as int)) is None,
        },
{
    let (n, p1) = match dec_u64_at(b, pos) {
        Option::Some(x) => x,
        Option::None => {
            return Option::None;
        },
    };
    dec_str_list_at(b, p1, n)
}

fn dec_mount_at(b: &Vec<u8>, pos: usize) -> (r: Option<(MountEntry, usize)>)
    requires
        pos <= b@.len(),
    ensures
        match r {
            Option::Some((m, p2)) => pos <= p2 <= b@.len() && sdec_mount(b@.skip(pos as int))
                == Option::Some((m@, b@.skip(p2 as int))),
            Option::None => sdec_mount(b@.skip(pos as int)) is None,
        },
{
    let (subvol_path, p1) = match dec_str_at(b, pos) {
        Option::Some(x) => x,
        Option::None => {
            return Option::None;
        },
    };
    let (mount_dirs, p2) = match dec_strs_at(b, p1) {
        Option::Some(x) => x,
        Option::None => {
            return Option::None;
        },
    };
    Option::Some((MountEntry { subvol_path, mount_dirs }, p2))
}

fn dec_mount_list_at(b: &Vec<u8>, pos: usize, k: u64) -> (r: Option<(Vec<MountEntry>, usize)>)
    requires
        pos <= b@.len(),
    ensures
        match r {
            Option::Some((l, p2)) => pos <= p2 <= b@.len() && sdec_mount_list(
                b@.skip(pos as int),
                k as nat,
            ) == Option::Some((mount_views(l@), b@.skip(p2 as int))),
            Option::None => sdec_mount_list(b@.skip(pos as int), k as nat) is None,
        },
    decreases k,
{
    if k == 0 {
        let l: Vec<MountEntry> = Vec::new();
        proof {
            assert(mount_views(l@) =~= Seq::<MountEntryView>::empty());
        }
        return Option::Some((l, pos));
    }
    let (m, p1) = match dec_mount_at(b, pos) {
        Option::Some(x) => x,
        Option::None => {
            return Option::None;
        },
    };
    let (mut l, p2) = match dec_mount_list_at(b, p1, k - 1) {
        Option::Some(x) => x,
        Option::None => {
            return Option::None;
        },
    };
    let ghost tail_views = mount_views(l@);
    let ghost mv = m@;
    l.insert(0, m);
    proof {
        assert(mount_views(l@) =~= seq![mv] + tail_views);
    }
    Option::Some((l, p2))
}

fn dec_mounts_at(b: &Vec<u8>, pos: usize) -> (r: Option<(Vec<MountEntry>, usize)>)
    requires
        pos <= b@.len(),
    ensures
        match r {
            Option::Some((l, p2)) => pos <= p2 <= b@.len() && sdec_mounts(b@.skip(pos as int))
                == Option::Some((mount_views(l@), b@.skip(p2 as int))),
            Option::None => sdec_mounts(b@.skip(pos as int)) is None,
        },
{
    let (n, p1) = match dec_u64_at(b, pos) {
        Option::Some(x) => x,
        Option::None => {
            return Option::None;
        },
    };
    dec_mount_list_at(b, p1, n)
}

/// Decodes a filesystem record, refining the spec decoder exactly: the
/// result is a value precisely when the bytes are one whole record's
/// encoding, and is then that record. With [`lemma_fs_roundtrip`] and the
/// encoder's contract, decoding an encoding yields the encoded record.
pub fn decode_filesystem(b: &Vec<u8>) -> (r: Option<BtrfsFilesystem>)
    ensures
        match sdec_fs(b@) {
            Option::Some(v) => r is Some && r.unwrap()@ == v,
            Option::None => r is None,
        },
{
    proof {
        assert(b@.skip(0) =~= b@);
    }
    let (label, p1) = match dec_opt_str_at(b, 0) {
        Option::Some(x) => x,
        Option::None => {
            return Option::None;
        },
    };
    let (uuid, p2) = match dec_u128_at(b, p1) {
        Option::Some(x) => x,
        Option::None => {
            return Option::None;
        },
    };
    let (devices, p3) = match dec_strs_at(b, p2) {
        Option::Some(x) => x,
        Option::None => {
            return Option::None;
        },
    };
    let (mounts, p4) = match dec_mounts_at(b, p3) {
        Option::Some(x) => x,
        Option::None => {
            return Option::None;
        },
    };
    if p4 != b.len() {
        return Option::None;
    }
    let f = BtrfsFilesystem { label, uuid, devices, mounts };
    proof {
        assert(f@.devices == f.devices.deep_view());
        assert(f@.mounts =~= mount_views(f.mounts@));
    }
    Option::Some(f)
}

} // verus!

// == The subvolume record codec, spec decoder and executable decoder ==

verus! {

/// Whether a subvolume record fits the encoding's length prefix; true of
/// every record an executable value can hold.
pub open spec fn subvolume_encodable(v: SubvolumeView) -> bool {
    str_encodable(v.path)
}

/// Spec decoder for a tagged optional identifier.
pub open spec fn sdec_opt_u128(b: Seq<u8>) -> Option<(Option<u128>, Seq<u8>)> {
    if b.len() < 1 {
        Option::None
    } else if b.first() == 0u8 {
        Option::Some((Option::None, b.drop_first()))
    } else if b.first() == 1u8 {
        match sdec_u128(b.drop_first()) {
            Option::None => Option::None,
            Option::Some((u, rest)) => Option::Some((Option::Some(u), rest)),
        }
    } else {
        Option::None
    }
}

/// Spec decoder for a whole subvolume record; the encoding must take up the
/// whole input.
pub open spec fn sdec_subvolume(b: Seq<u8>) -> Option<SubvolumeView> {
    match sdec_str(b) {
        Option::None => Option::None,
        Option::Some((path, r1)) => {
            match sdec_u128(r1) {
                Option::None => Option::None,
                Option::Some((uuid, r2)) => {
                    match sdec_u64(r2) {
                        Option::None => Option::None,
                        Option::Some((created, r3)) => {
                            match sdec_opt_u128(r3) {
                                Option::None => Option::None,
                                Option::Some((snapshot_source_uuid, r4)) => {
                                    if r4.len() == 0 {
                                        Option::Some(
                                            SubvolumeView {
                                                path,
                                                uuid,
                                                created,
                                                snapshot_source_uuid,
                                            },
                                        )
                                    } else {
                                        Option::None
                                    }
                                },
                            }
                        },
                    }
                },
            }
        },
    }
}

proof fn lemma_sdec_opt_u128_enc(o: Option<u128>, rest: Seq<u8>)
    ensures
        sdec_opt_u128(spec_encode_opt_u128(o) + rest) == Option::Some((o, rest)),
{
    match o {
        Option::None => {
            let b = spec_encode_opt_u128(o) + rest;
            assert(b.first() == 0u8);
            assert(b.drop_first() =~= rest);
        },
        Option::Some(u) => {
            let b = spec_encode_opt_u128(o) + rest;
            assert(b =~= seq![1u8] + (spec_u128_to_le_bytes(u) + rest));
            assert(b.first() == 1u8);
            assert(b.drop_first() =~= spec_u128_to_le_bytes(u) + rest);
            lemma_sdec_u128_enc(u, rest);
        },
    }
}

/// The codec round trip for a subvolume record: decoding the encoding of
/// any encodable record yields exactly that record.
pub proof fn lemma_subvolume_roundtrip(v: SubvolumeView)
    requires
        subvolume_encodable(v),
    ensures
        sdec_subvolume(spec_encode_subvolume(v)) == Option::Some(v),
{
    let t3 = spec_encode_opt_u128(v.snapshot_source_uuid);
    let t2 = spec_u64_to_le_bytes(v.created) + t3;
    let t1 = spec_u128_to_le_bytes(v.uuid) + t2;
    let b = spec_encode_subvolume(v);
    assert(b =~= spec_encode_str(v.path) + t1);
    lemma_sdec_str_enc(v.path, t1);
    assert(t1 =~= spec_u128_to_le_bytes(v.uuid) + t2);
    lemma_sdec_u128_enc(v.uuid, t2);
    assert(t2 =~= spec_u64_to_le_bytes(v.created) + t3);
    lemma_sdec_u64_enc(v.created, t3);
    assert(t3 =~= spec_encode_opt_u128(v.snapshot_source_uuid) + Seq::<u8>::empty());
    lemma_sdec_opt_u128_enc(v.snapshot_source_uuid, Seq::<u8>::empty());
    assert(SubvolumeView {
        path: v.path,
        uuid: v.uuid,
        created: v.created,
        snapshot_source_uuid: v.snapshot_source_uuid,
    } == v);
}

fn dec_opt_u128_at(b: &Vec<u8>, pos: usize) -> (r: Option<(Option<u128>, usize)>)
    requires
        pos <= b@.len(),
    ensures
        match r {
            Option::Some((o, p2)) => pos <= p2 <= b@.len() && sdec_opt_u128(b@.skip(pos as int))
                == Option::Some((o, b@.skip(p2 as int))),
            Option::None => sdec_opt_u128(b@.skip(pos as int)) is None,
        },
{
    if pos >= b.len() {
        return Option::None;
    }
    let tag: u8 = b[pos];
    proof {
        assert(b@.skip(pos as int).first() == b@[pos as int]);
        assert(b@.skip(pos as int).drop_first() =~= b@.skip(pos + 1));
    }
    if tag == 0 {
        Option::Some((Option::None, pos + 1))
    } else if tag == 1 {
        match dec_u128_at(b, pos + 1) {
            Option::None => Option::None,
            Option::Some((u, p2)) => Option::Some((Option::Some(u), p2)),
        }
    } else {
        Option::None
    }
}

/// Decodes a subvolume record, refining the spec decoder exactly: the
/// result is a value precisely when the bytes are one whole record's
/// encoding, and is then that record. With [`lemma_subvolume_roundtrip`]
/// and the encoder's contract, decoding an encoding yields the encoded
/// record.
pub fn decode_subvolume(b: &Vec<u8>) -> (r: Option<Subvolume>)
    ensures
        match sdec_subvolume(b@) {
            Option::Some(v) => r is Some && r.unwrap()@ == v,
            Option::None => r is None,
        },
{
    proof {
        assert(b@.skip(0) =~= b@);
    }
    let (path, p1) = match dec_str_at(b, 0) {
        Option::Some(x) => x,
        Option::None => {
            return Option::None;
        },
    };
    let (uuid, p2) = match dec_u128_at(b, p1) {
        Option::Some(x) => x,
        Option::None => {
            return Option::None;
        },
    };
    let (created, p3) = match dec_u64_at(b, p2) {
        Option::Some(x) => x,
        Option::None => {
            return Option::None;
        },
    };
    let (snapshot_source_uuid, p4) = match dec_opt_u128_at(b, p3) {
        Option::Some(x) => x,
        Option::None => {
            return Option::None;
        },
    };
    if p4 != b.len() {
        return Option::None;
    }
    Option::Some(Subvolume { path, uuid, created, snapshot_source_uuid })
}

} // verus!
