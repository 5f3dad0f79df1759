//! Binary encoding and decoding of 9P2000.L messages.
//!
//! Every message body is a flat list of fields whose kinds depend on the
//! message type alone (its schema). The wire form of a message is its type
//! byte, its tag and then each field in order, all integers little-endian.
use vstd::bytes::*;
use vstd::prelude::*;
use vstd::slice::{slice_subrange, slice_to_vec};
use vstd::string::StringSliceAdditionalSpecFns;
use vstd::utf8::{decode_utf8, encode_utf8, valid_utf8};

use crate::fcall::{
    str_bytes, Data, DirEntry, Msg, DirEntryData, FCall, Flock, Getlock, QId, SetAttr, Stat, StatFs, Time,
    GETATTR_ALL, LOCK_FLAG_ALL, LOCK_STATUS_ALL, LOCK_TYPE_ALL, SETATTR_ALL,
};

verus! {

broadcast use vstd::utf8::group_utf8_lib;

/// The error of a message that cannot be encoded or decoded: a truncated or
/// oversized buffer, an unknown type byte, a string that is not UTF-8, or a
/// length that does not match what follows.
#[derive(Copy, Clone, Debug, PartialEq, Eq)]
pub struct ProtocolError;

/// The kind of a field on the wire.
#[derive(Copy, Clone, Debug, PartialEq, Eq)]
pub enum Kind {
    U8,
    U16,
    U32,
    U64,
    /// A one-byte bit set; bits outside the mask are dropped when decoding
    Flags8(u8),
    /// A four-byte bit set; bits outside the mask are dropped when decoding
    Flags32(u32),
    /// An eight-byte bit set; bits outside the mask are dropped when decoding
    Flags64(u64),
    /// Two-byte byte length, then UTF-8 bytes
    Str,
    /// Four-byte byte count, then the bytes
    Data,
    /// A qid: type byte, four-byte version, eight-byte path
    Qid,
    /// Two-byte count, then that many strings
    Strs,
    /// Two-byte count, then that many qids
    Qids,
    /// Four-byte byte size, then directory entries filling exactly that size
    Dirents,
    /// A reserved eight-byte field, written as zero and ignored when read
    Zero64,
}

/// A directory entry as the protocol sees it.
pub struct DirEntV {
    pub qid: QId,
    pub offset: u64,
    pub typ: u8,
    pub name: Seq<char>,
}

/// The value of one field.
pub enum FieldV {
    U8(u8),
    U16(u16),
    U32(u32),
    U64(u64),
    Str(Seq<char>),
    Data(Seq<u8>),
    Qid(QId),
    Strs(Seq<Seq<char>>),
    Qids(Seq<QId>),
    Dirents(Seq<DirEntV>),
    Zero64,
}

/// A field value held by executable code.
pub enum Field {
    U8(u8),
    U16(u16),
    U32(u32),
    U64(u64),
    Str(String),
    Data(Vec<u8>),
    Qid(QId),
    Strs(Vec<String>),
    Qids(Vec<QId>),
    Dirents(Vec<DirEntry>),
    Zero64,
}

pub open spec fn dirent_view(e: DirEntry) -> DirEntV {
    DirEntV { qid: e.qid, offset: e.offset, typ: e.typ, name: e.name@ }
}

pub open spec fn strings_view(v: Seq<String>) -> Seq<Seq<char>> {
    v.map_values(|s: String| s@)
}

pub open spec fn dirents_view(v: Seq<DirEntry>) -> Seq<DirEntV> {
    v.map_values(|e: DirEntry| dirent_view(e))
}

impl View for Field {
    type V = FieldV;

    open spec fn view(&self) -> FieldV {
        match self {
            Field::U8(v) => FieldV::U8(*v),
            Field::U16(v) => FieldV::U16(*v),
            Field::U32(v) => FieldV::U32(*v),
            Field::U64(v) => FieldV::U64(*v),
            Field::Str(s) => FieldV::Str(s@),
            Field::Data(d) => FieldV::Data(d@),
            Field::Qid(q) => FieldV::Qid(*q),
            Field::Strs(v) => FieldV::Strs(strings_view(v@)),
            Field::Qids(v) => FieldV::Qids(v@),
            Field::Dirents(v) => FieldV::Dirents(dirents_view(v@)),
            Field::Zero64 => FieldV::Zero64,
        }
    }
}

pub open spec fn fields_view(v: Seq<Field>) -> Seq<FieldV> {
    v.map_values(|f: Field| f@)
}

// ---------------------------------------------------------------------------
// Wire form
// ---------------------------------------------------------------------------

pub open spec fn le16(v: u16) -> Seq<u8> {
    spec_u16_to_le_bytes(v)
}

pub open spec fn le32(v: u32) -> Seq<u8> {
    spec_u32_to_le_bytes(v)
}

pub open spec fn le64(v: u64) -> Seq<u8> {
    spec_u64_to_le_bytes(v)
}

/// A string on the wire: its byte length, then its UTF-8 bytes.
pub open spec fn str_wire(s: Seq<char>) -> Seq<u8> {
    le16(str_bytes(s).len() as u16) + str_bytes(s)
}

pub open spec fn qid_wire(q: QId) -> Seq<u8> {
    seq![q.typ] + le32(q.version) + le64(q.path)
}

pub open spec fn dirent_wire(e: DirEntV) -> Seq<u8> {
    qid_wire(e.qid) + le64(e.offset) + seq![e.typ] + str_wire(e.name)
}

pub open spec fn strs_pieces(v: Seq<Seq<char>>) -> Seq<Seq<u8>> {
    v.map_values(|s: Seq<char>| str_wire(s))
}

pub open spec fn strs_wire(v: Seq<Seq<char>>) -> Seq<u8> {
    strs_pieces(v).flatten()
}

pub open spec fn qids_pieces(v: Seq<QId>) -> Seq<Seq<u8>> {
    v.map_values(|q: QId| qid_wire(q))
}

pub open spec fn qids_wire(v: Seq<QId>) -> Seq<u8> {
    qids_pieces(v).flatten()
}

pub open spec fn dirents_pieces(v: Seq<DirEntV>) -> Seq<Seq<u8>> {
    v.map_values(|e: DirEntV| dirent_wire(e))
}

pub open spec fn dirents_wire(v: Seq<DirEntV>) -> Seq<u8> {
    dirents_pieces(v).flatten()
}

pub open spec fn field_wire(f: FieldV) -> Seq<u8> {
    match f {
        FieldV::U8(v) => seq![v],
        FieldV::U16(v) => le16(v),
        FieldV::U32(v) => le32(v),
        FieldV::U64(v) => le64(v),
        FieldV::Str(s) => str_wire(s),
        FieldV::Data(d) => le32(d.len() as u32) + d,
        FieldV::Qid(q) => qid_wire(q),
        FieldV::Strs(v) => le16(v.len() as u16) + strs_wire(v),
        FieldV::Qids(v) => le16(v.len() as u16) + qids_wire(v),
        FieldV::Dirents(v) => le32(dirents_wire(v).len() as u32) + dirents_wire(v),
        FieldV::Zero64 => le64(0),
    }
}

pub open spec fn fields_pieces(v: Seq<FieldV>) -> Seq<Seq<u8>> {
    v.map_values(|f: FieldV| field_wire(f))
}

pub open spec fn fields_wire(v: Seq<FieldV>) -> Seq<u8> {
    fields_pieces(v).flatten()
}

/// A message on the wire, without the frame's size: type byte, tag, fields.
pub open spec fn msg_wire(typ: u8, tag: u16, fields: Seq<FieldV>) -> Seq<u8> {
    seq![typ] + le16(tag) + fields_wire(fields)
}

/// A frame: the total size including the four size bytes, then the message.
pub open spec fn frame_wire(body: Seq<u8>) -> Seq<u8> {
    le32((body.len() + 4) as u32) + body
}

// ---------------------------------------------------------------------------
// Well-formed fields: what fits in the wire's length prefixes
// ---------------------------------------------------------------------------

pub open spec fn str_fits(s: Seq<char>) -> bool {
    str_bytes(s).len() <= 0xffff
}

pub open spec fn field_fits(f: FieldV, k: Kind) -> bool {
    match (f, k) {
        (FieldV::U8(_), Kind::U8) => true,
        (FieldV::U16(_), Kind::U16) => true,
        (FieldV::U32(_), Kind::U32) => true,
        (FieldV::U64(_), Kind::U64) => true,
        (FieldV::U8(v), Kind::Flags8(m)) => v & m == v,
        (FieldV::U32(v), Kind::Flags32(m)) => v & m == v,
        (FieldV::U64(v), Kind::Flags64(m)) => v & m == v,
        (FieldV::Str(s), Kind::Str) => str_fits(s),
        (FieldV::Data(d), Kind::Data) => d.len() <= u32::MAX,
        (FieldV::Qid(_), Kind::Qid) => true,
        (FieldV::Strs(v), Kind::Strs) => v.len() <= 0xffff && forall|i: int|
            0 <= i < v.len() ==> str_fits(#[trigger] v[i]),
        (FieldV::Qids(v), Kind::Qids) => v.len() <= 0xffff,
        (FieldV::Dirents(v), Kind::Dirents) => dirents_wire(v).len() <= u32::MAX && forall|i: int|
            0 <= i < v.len() ==> str_fits(#[trigger] v[i].name),
        (FieldV::Zero64, Kind::Zero64) => true,
        _ => false,
    }
}

/// Each field fits the kind that the schema gives it.
pub open spec fn fields_fit(fs: Seq<FieldV>, ks: Seq<Kind>) -> bool {
    &&& fs.len() == ks.len()
    &&& forall|i: int| 0 <= i < fs.len() ==> field_fits(#[trigger] fs[i], ks[i])
}

// ---------------------------------------------------------------------------
// Parsing: each parser returns the value and the number of bytes it used
// ---------------------------------------------------------------------------

pub open spec fn parse_u16(s: Seq<u8>) -> Option<(u16, nat)> {
    if s.len() >= 2 {
        Some((spec_u16_from_le_bytes(s.take(2)), 2))
    } else {
        None
    }
}

pub open spec fn parse_u32(s: Seq<u8>) -> Option<(u32, nat)> {
    if s.len() >= 4 {
        Some((spec_u32_from_le_bytes(s.take(4)), 4))
    } else {
        None
    }
}

pub open spec fn parse_u64(s: Seq<u8>) -> Option<(u64, nat)> {
    if s.len() >= 8 {
        Some((spec_u64_from_le_bytes(s.take(8)), 8))
    } else {
        None
    }
}

pub open spec fn parse_str(s: Seq<u8>) -> Option<(Seq<char>, nat)> {
    match parse_u16(s) {
        None => None,
        Some((n, _)) => {
            let end = 2 + n as int;
            if s.len() >= end && valid_utf8(s.subrange(2, end)) {
                Some((decode_utf8(s.subrange(2, end)), end as nat))
            } else {
                None
            }
        },
    }
}

pub open spec fn parse_data(s: Seq<u8>) -> Option<(Seq<u8>, nat)> {
    match parse_u32(s) {
        None => None,
        Some((n, _)) => {
            let end = 4 + n as int;
            if s.len() >= end {
                Some((s.subrange(4, end), end as nat))
            } else {
                None
            }
        },
    }
}

pub open spec fn parse_qid(s: Seq<u8>) -> Option<(QId, nat)> {
    if s.len() >= 13 {
        Some(
            (
                QId {
                    typ: s[0],
                    version: spec_u32_from_le_bytes(s.subrange(1, 5)),
                    path: spec_u64_from_le_bytes(s.subrange(5, 13)),
                },
                13,
            ),
        )
    } else {
        None
    }
}

/// `count` strings, back to back.
pub open spec fn parse_strs(count: nat, s: Seq<u8>) -> Option<(Seq<Seq<char>>, nat)>
    decreases count,
{
    if count == 0 {
        Some((Seq::empty(), 0))
    } else {
        match parse_str(s) {
            None => None,
            Some((x, n)) => match parse_strs((count - 1) as nat, s.skip(n as int)) {
                None => None,
                Some((xs, m)) => Some((seq![x] + xs, n + m)),
            },
        }
    }
}

/// `count` qids, back to back.
pub open spec fn parse_qids(count: nat, s: Seq<u8>) -> Option<(Seq<QId>, nat)>
    decreases count,
{
    if count == 0 {
        Some((Seq::empty(), 0))
    } else {
        match parse_qid(s) {
            None => None,
            Some((x, n)) => match parse_qids((count - 1) as nat, s.skip(n as int)) {
                None => None,
                Some((xs, m)) => Some((seq![x] + xs, n + m)),
            },
        }
    }
}

pub open spec fn parse_dirent(s: Seq<u8>) -> Option<(DirEntV, nat)> {
    match parse_qid(s) {
        None => None,
        Some((qid, _)) => match parse_u64(s.skip(13)) {
            None => None,
            Some((offset, _)) => if s.len() >= 22 {
                match parse_str(s.skip(22)) {
                    None => None,
                    Some((name, n)) => Some(
                        (DirEntV { qid, offset, typ: s[21], name }, 22 + n),
                    ),
                }
            } else {
                None
            },
        },
    }
}

/// Directory entries that fill `s` exactly.
pub open spec fn parse_dirents(s: Seq<u8>) -> Option<Seq<DirEntV>>
    decreases s.len(),
{
    if s.len() == 0 {
        Some(Seq::empty())
    } else {
        match parse_dirent(s) {
            None => None,
            Some((e, n)) => if 0 < n <= s.len() {
                match parse_dirents(s.skip(n as int)) {
                    None => None,
                    Some(es) => Some(seq![e] + es),
                }
            } else {
                None
            },
        }
    }
}

pub open spec fn parse_field(k: Kind, s: Seq<u8>) -> Option<(FieldV, nat)> {
    match k {
        Kind::U8 => if s.len() >= 1 {
            Some((FieldV::U8(s[0]), 1))
        } else {
            None
        },
        Kind::U16 => match parse_u16(s) {
            Some((v, n)) => Some((FieldV::U16(v), n)),
            None => None,
        },
        Kind::U32 => match parse_u32(s) {
            Some((v, n)) => Some((FieldV::U32(v), n)),
            None => None,
        },
        Kind::U64 => match parse_u64(s) {
            Some((v, n)) => Some((FieldV::U64(v), n)),
            None => None,
        },
        Kind::Flags8(m) => if s.len() >= 1 {
            Some((FieldV::U8(s[0] & m), 1))
        } else {
            None
        },
        Kind::Flags32(m) => match parse_u32(s) {
            Some((v, n)) => Some((FieldV::U32(v & m), n)),
            None => None,
        },
        Kind::Flags64(m) => match parse_u64(s) {
            Some((v, n)) => Some((FieldV::U64(v & m), n)),
            None => None,
        },
        Kind::Str => match parse_str(s) {
            Some((v, n)) => Some((FieldV::Str(v), n)),
            None => None,
        },
        Kind::Data => match parse_data(s) {
            Some((v, n)) => Some((FieldV::Data(v), n)),
            None => None,
        },
        Kind::Qid => match parse_qid(s) {
            Some((v, n)) => Some((FieldV::Qid(v), n)),
            None => None,
        },
        Kind::Strs => match parse_u16(s) {
            Some((c, _)) => match parse_strs(c as nat, s.skip(2)) {
                Some((v, n)) => Some((FieldV::Strs(v), 2 + n)),
                None => None,
            },
            None => None,
        },
        Kind::Qids => match parse_u16(s) {
            Some((c, _)) => match parse_qids(c as nat, s.skip(2)) {
                Some((v, n)) => Some((FieldV::Qids(v), 2 + n)),
                None => None,
            },
            None => None,
        },
        Kind::Dirents => match parse_u32(s) {
            Some((size, _)) => if s.len() >= 4 + size as int {
                match parse_dirents(s.subrange(4, 4 + size as int)) {
                    Some(v) => Some((FieldV::Dirents(v), 4 + size as nat)),
                    None => None,
                }
            } else {
                None
            },
            None => None,
        },
        Kind::Zero64 => if s.len() >= 8 {
            Some((FieldV::Zero64, 8))
        } else {
            None
        },
    }
}

/// The fields of a schema, back to back.
pub open spec fn parse_fields(ks: Seq<Kind>, s: Seq<u8>) -> Option<(Seq<FieldV>, nat)>
    decreases ks.len(),
{
    if ks.len() == 0 {
        Some((Seq::empty(), 0))
    } else {
        match parse_field(ks[0], s) {
            None => None,
            Some((f, n)) => match parse_fields(ks.drop_first(), s.skip(n as int)) {
                None => None,
                Some((fs, m)) => Some((seq![f] + fs, n + m)),
            },
        }
    }
}

// ---------------------------------------------------------------------------
// Decoding what was encoded gives the value back
// ---------------------------------------------------------------------------

pub proof fn lemma_le_lengths(a: u16, b: u32, c: u64)
    ensures
        le16(a).len() == 2,
        le32(b).len() == 4,
        le64(c).len() == 8,
{
    lemma_auto_spec_u16_to_from_le_bytes();
    lemma_auto_spec_u32_to_from_le_bytes();
    lemma_auto_spec_u64_to_from_le_bytes();
}

pub proof fn lemma_parse_le(a: u16, b: u32, c: u64, t: Seq<u8>)
    ensures
        parse_u16(le16(a) + t) == Some((a, 2nat)),
        parse_u32(le32(b) + t) == Some((b, 4nat)),
        parse_u64(le64(c) + t) == Some((c, 8nat)),
{
    lemma_auto_spec_u16_to_from_le_bytes();
    lemma_auto_spec_u32_to_from_le_bytes();
    lemma_auto_spec_u64_to_from_le_bytes();
    assert((le16(a) + t).take(2) =~= le16(a));
    assert((le32(b) + t).take(4) =~= le32(b));
    assert((le64(c) + t).take(8) =~= le64(c));
}

pub proof fn lemma_str_wire_len(s: Seq<char>)
    requires
        str_fits(s),
    ensures
        str_wire(s).len() == 2 + str_bytes(s).len(),
{
    lemma_le_lengths(str_bytes(s).len() as u16, 0, 0);
}

pub proof fn lemma_parse_str(s: Seq<char>, t: Seq<u8>)
    requires
        str_fits(s),
    ensures
        parse_str(str_wire(s) + t) == Some((s, str_wire(s).len())),
{
    let b = str_bytes(s);
    let w = str_wire(s) + t;
    lemma_parse_le(b.len() as u16, 0, 0, b + t);
    assert(w =~= le16(b.len() as u16) + (b + t));
    lemma_le_lengths(b.len() as u16, 0, 0);
    assert(w.subrange(2, 2 + b.len() as int) =~= b);
}

pub proof fn lemma_qid_wire_len(q: QId)
    ensures
        qid_wire(q).len() == 13,
{
    lemma_le_lengths(0, q.version, q.path);
}

pub proof fn lemma_parse_qid(q: QId, t: Seq<u8>)
    ensures
        parse_qid(qid_wire(q) + t) == Some((q, 13nat)),
{
    let w = qid_wire(q) + t;
    lemma_le_lengths(0, q.version, q.path);
    lemma_auto_spec_u32_to_from_le_bytes();
    lemma_auto_spec_u64_to_from_le_bytes();
    assert(w.subrange(1, 5) =~= le32(q.version));
    assert(w.subrange(5, 13) =~= le64(q.path));
}

pub proof fn lemma_strs_wire_first(v: Seq<Seq<char>>)
    requires
        v.len() > 0,
    ensures
        strs_wire(v) == str_wire(v[0]) + strs_wire(v.drop_first()),
{
    assert(strs_pieces(v).drop_first() =~= strs_pieces(v.drop_first()));
}

pub proof fn lemma_qids_wire_first(v: Seq<QId>)
    requires
        v.len() > 0,
    ensures
        qids_wire(v) == qid_wire(v[0]) + qids_wire(v.drop_first()),
{
    assert(qids_pieces(v).drop_first() =~= qids_pieces(v.drop_first()));
}

pub proof fn lemma_dirents_wire_first(v: Seq<DirEntV>)
    requires
        v.len() > 0,
    ensures
        dirents_wire(v) == dirent_wire(v[0]) + dirents_wire(v.drop_first()),
{
    assert(dirents_pieces(v).drop_first() =~= dirents_pieces(v.drop_first()));
}

pub proof fn lemma_fields_wire_first(v: Seq<FieldV>)
    requires
        v.len() > 0,
    ensures
        fields_wire(v) == field_wire(v[0]) + fields_wire(v.drop_first()),
{
    assert(fields_pieces(v).drop_first() =~= fields_pieces(v.drop_first()));
}

pub proof fn lemma_parse_strs(v: Seq<Seq<char>>, t: Seq<u8>)
    requires
        forall|i: int| 0 <= i < v.len() ==> str_fits(#[trigger] v[i]),
    ensures
        parse_strs(v.len(), strs_wire(v) + t) == Some((v, strs_wire(v).len())),
    decreases v.len(),
{
    if v.len() == 0 {
        assert(v =~= Seq::<Seq<char>>::empty());
    } else {
        let rest = v.drop_first();
        assert(str_fits(v[0]));
        assert forall|i: int| 0 <= i < rest.len() implies str_fits(#[trigger] rest[i]) by {
            assert(rest[i] == v[i + 1]);
        }
        lemma_strs_wire_first(v);
        let w = strs_wire(v) + t;
        assert(w =~= str_wire(v[0]) + (strs_wire(rest) + t));
        lemma_parse_str(v[0], strs_wire(rest) + t);
        let n = str_wire(v[0]).len();
        assert(w.skip(n as int) =~= strs_wire(rest) + t);
        lemma_parse_strs(rest, t);
        assert(seq![v[0]] + rest =~= v);
    }
}

pub proof fn lemma_parse_qids(v: Seq<QId>, t: Seq<u8>)
    ensures
        parse_qids(v.len(), qids_wire(v) + t) == Some((v, qids_wire(v).len())),
    decreases v.len(),
{
    if v.len() == 0 {
        assert(v =~= Seq::<QId>::empty());
    } else {
        let rest = v.drop_first();
        lemma_qids_wire_first(v);
        let w = qids_wire(v) + t;
        assert(w =~= qid_wire(v[0]) + (qids_wire(rest) + t));
        lemma_parse_qid(v[0], qids_wire(rest) + t);
        lemma_qid_wire_len(v[0]);
        assert(w.skip(13) =~= qids_wire(rest) + t);
        lemma_parse_qids(rest, t);
        assert(seq![v[0]] + rest =~= v);
    }
}

pub proof fn lemma_dirent_wire_len(e: DirEntV)
    requires
        str_fits(e.name),
    ensures
        dirent_wire(e).len() == 24 + str_bytes(e.name).len(),
{
    lemma_qid_wire_len(e.qid);
    lemma_le_lengths(0, 0, e.offset);
    lemma_str_wire_len(e.name);
}

pub proof fn lemma_parse_dirent(e: DirEntV, t: Seq<u8>)
    requires
        str_fits(e.name),
    ensures
        parse_dirent(dirent_wire(e) + t) == Some((e, dirent_wire(e).len())),
{
    let w = dirent_wire(e) + t;
    lemma_qid_wire_len(e.qid);
    lemma_le_lengths(0, 0, e.offset);
    lemma_dirent_wire_len(e);
    assert(w =~= qid_wire(e.qid) + (le64(e.offset) + seq![e.typ] + str_wire(e.name) + t));
    lemma_parse_qid(e.qid, le64(e.offset) + seq![e.typ] + str_wire(e.name) + t);
    assert(w.skip(13) =~= le64(e.offset) + (seq![e.typ] + str_wire(e.name) + t));
    lemma_parse_le(0, 0, e.offset, seq![e.typ] + str_wire(e.name) + t);
    assert(w[21] == e.typ);
    assert(w.skip(22) =~= str_wire(e.name) + t);
    lemma_parse_str(e.name, t);
}

pub proof fn lemma_parse_dirents(v: Seq<DirEntV>)
    requires
        forall|i: int| 0 <= i < v.len() ==> str_fits(#[trigger] v[i].name),
    ensures
        parse_dirents(dirents_wire(v)) == Some(v),
    decreases v.len(),
{
    if v.len() == 0 {
        assert(v =~= Seq::<DirEntV>::empty());
        assert(dirents_wire(v) =~= Seq::<u8>::empty());
    } else {
        let rest = v.drop_first();
        assert(str_fits(v[0].name));
        assert forall|i: int| 0 <= i < rest.len() implies str_fits(#[trigger] rest[i].name) by {
            assert(rest[i] == v[i + 1]);
        }
        lemma_dirents_wire_first(v);
        let w = dirents_wire(v);
        lemma_parse_dirent(v[0], dirents_wire(rest));
        lemma_dirent_wire_len(v[0]);
        let n = dirent_wire(v[0]).len();
        assert(w.skip(n as int) =~= dirents_wire(rest));
        lemma_parse_dirents(rest);
        assert(seq![v[0]] + rest =~= v);
    }
}

pub proof fn lemma_parse_field(f: FieldV, k: Kind, t: Seq<u8>)
    requires
        field_fits(f, k),
    ensures
        parse_field(k, field_wire(f) + t) == Some((f, field_wire(f).len())),
{
    let w = field_wire(f) + t;
    match (f, k) {
        (FieldV::U8(v), _) => {
            assert(w[0] == v);
        },
        (FieldV::U16(v), _) => {
            lemma_parse_le(v, 0, 0, t);
            lemma_le_lengths(v, 0, 0);
        },
        (FieldV::U32(v), _) => {
            lemma_parse_le(0, v, 0, t);
            lemma_le_lengths(0, v, 0);
        },
        (FieldV::U64(v), _) => {
            lemma_parse_le(0, 0, v, t);
            lemma_le_lengths(0, 0, v);
        },
        (FieldV::Str(s), _) => {
            lemma_parse_str(s, t);
        },
        (FieldV::Data(d), _) => {
            lemma_le_lengths(0, d.len() as u32, 0);
            lemma_parse_le(0, d.len() as u32, 0, d + t);
            assert(w =~= le32(d.len() as u32) + (d + t));
            assert(w.subrange(4, 4 + d.len() as int) =~= d);
        },
        (FieldV::Qid(q), _) => {
            lemma_parse_qid(q, t);
            lemma_qid_wire_len(q);
        },
        (FieldV::Strs(v), _) => {
            lemma_le_lengths(v.len() as u16, 0, 0);
            lemma_parse_le(v.len() as u16, 0, 0, strs_wire(v) + t);
            assert(w =~= le16(v.len() as u16) + (strs_wire(v) + t));
            assert(w.skip(2) =~= strs_wire(v) + t);
            lemma_parse_strs(v, t);
        },
        (FieldV::Qids(v), _) => {
            lemma_le_lengths(v.len() as u16, 0, 0);
            lemma_parse_le(v.len() as u16, 0, 0, qids_wire(v) + t);
            assert(w =~= le16(v.len() as u16) + (qids_wire(v) + t));
            assert(w.skip(2) =~= qids_wire(v) + t);
            lemma_parse_qids(v, t);
        },
        (FieldV::Dirents(v), _) => {
            let d = dirents_wire(v);
            lemma_le_lengths(0, d.len() as u32, 0);
            lemma_parse_le(0, d.len() as u32, 0, d + t);
            assert(w =~= le32(d.len() as u32) + (d + t));
            assert(w.subrange(4, 4 + d.len() as int) =~= d);
            lemma_parse_dirents(v);
        },
        (FieldV::Zero64, _) => {
            lemma_le_lengths(0, 0, 0);
        },
    }
}

pub proof fn lemma_parse_fields(fs: Seq<FieldV>, ks: Seq<Kind>, t: Seq<u8>)
    requires
        fields_fit(fs, ks),
    ensures
        parse_fields(ks, fields_wire(fs) + t) == Some((fs, fields_wire(fs).len())),
    decreases fs.len(),
{
    if fs.len() == 0 {
        assert(fs =~= Seq::<FieldV>::empty());
        assert(fields_wire(fs) =~= Seq::<u8>::empty());
        assert(fields_wire(fs) + t =~= t);
    } else {
        let rest = fs.drop_first();
        let krest = ks.drop_first();
        assert(field_fits(fs[0], ks[0]));
        assert forall|i: int| 0 <= i < rest.len() implies field_fits(#[trigger] rest[i], krest[i]) by {
            assert(rest[i] == fs[i + 1]);
            assert(krest[i] == ks[i + 1]);
            assert(field_fits(fs[i + 1], ks[i + 1]));
        }
        lemma_fields_wire_first(fs);
        let w = fields_wire(fs) + t;
        assert(w =~= field_wire(fs[0]) + (fields_wire(rest) + t));
        lemma_parse_field(fs[0], ks[0], fields_wire(rest) + t);
        let n = field_wire(fs[0]).len();
        assert(w.skip(n as int) =~= fields_wire(rest) + t);
        lemma_parse_fields(rest, krest, t);
        assert(seq![fs[0]] + rest =~= fs);
    }
}

// ---------------------------------------------------------------------------
// Reading
// ---------------------------------------------------------------------------

/// Relies on `std::str::from_utf8`: it accepts exactly the byte sequences
/// that are valid UTF-8, and the text it returns is made of those bytes.
#[verifier::external_body]
fn utf8_str(b: &[u8]) -> (r: Option<&str>)
    ensures
        r is Some <==> valid_utf8(b@),
        r is Some ==> r->Some_0.spec_bytes() == b@,
{
    std::str::from_utf8(b).ok()
}

/// A cursor over a byte buffer that decodes 9P values from its front.
pub struct Decoder {
    reader: Vec<u8>,
    pos: usize,
}

impl Decoder {
    /// The bytes not read yet.
    pub closed spec fn rest(&self) -> Seq<u8> {
        self.reader@.skip(self.pos as int)
    }

    /// The whole buffer.
    pub closed spec fn buffer(&self) -> Seq<u8> {
        self.reader@
    }

    pub closed spec fn wf(&self) -> bool {
        self.pos <= self.reader@.len()
    }

    /// A decoder at the start of `reader`.
    pub fn new(reader: Vec<u8>) -> (r: Decoder)
        ensures
            r.wf(),
            r.buffer() == reader@,
            r.rest() == reader@,
    {
        let r = Decoder { reader, pos: 0 };
        proof {
            assert(r.reader@.skip(0) =~= r.reader@);
        }
        r
    }

    /// Number of bytes not read yet.
    pub fn remaining(&self) -> (r: usize)
        requires
            self.wf(),
        ensures
            r == self.rest().len(),
    {
        self.reader.len() - self.pos
    }

    /// The whole buffer back.
    pub fn into_inner(self) -> (r: Vec<u8>)
        ensures
            r@ == self.buffer(),
    {
        self.reader
    }

    proof fn lemma_advance(&self, n: int)
        requires
            self.wf(),
            0 <= n <= self.rest().len(),
        ensures
            self.reader@.skip(self.pos + n) == self.rest().skip(n),
            self.reader@.subrange(self.pos as int, self.pos + n) == self.rest().take(n),
    {
        assert(self.reader@.skip(self.pos + n) =~= self.rest().skip(n));
        assert(self.reader@.subrange(self.pos as int, self.pos + n) =~= self.rest().take(n));
    }

    pub fn read_u8(&mut self) -> (r: Result<u8, ProtocolError>)
        requires
            old(self).wf(),
        ensures
            final(self).wf(),
            final(self).buffer() == old(self).buffer(),
            match r {
                Ok(v) => old(self).rest().len() >= 1 && v == old(self).rest()[0]
                    && final(self).rest() == old(self).rest().skip(1),
                Err(_) => old(self).rest().len() == 0,
            },
    {
        if self.reader.len() - self.pos < 1 {
            return Err(ProtocolError);
        }
        let v = self.reader[self.pos];
        proof {
            self.lemma_advance(1);
        }
        self.pos = self.pos + 1;
        Ok(v)
    }

    pub fn read_u16(&mut self) -> (r: Result<u16, ProtocolError>)
        requires
            old(self).wf(),
        ensures
            final(self).wf(),
            final(self).buffer() == old(self).buffer(),
            match (r, parse_u16(old(self).rest())) {
                (Ok(v), Some((w, n))) => v == w && final(self).rest() == old(self).rest().skip(n as int),
                (Err(_), None) => true,
                _ => false,
            },
    {
        if self.reader.len() - self.pos < 2 {
            return Err(ProtocolError);
        }
        proof {
            self.lemma_advance(2);
        }
        let v = u16_from_le_bytes(slice_subrange(self.reader.as_slice(), self.pos, self.pos + 2));
        self.pos = self.pos + 2;
        Ok(v)
    }

    pub fn read_u32(&mut self) -> (r: Result<u32, ProtocolError>)
        requires
            old(self).wf(),
        ensures
            final(self).wf(),
            final(self).buffer() == old(self).buffer(),
            match (r, parse_u32(old(self).rest())) {
                (Ok(v), Some((w, n))) => v == w && final(self).rest() == old(self).rest().skip(n as int),
                (Err(_), None) => true,
                _ => false,
            },
    {
        if self.reader.len() - self.pos < 4 {
            return Err(ProtocolError);
        }
        proof {
            self.lemma_advance(4);
        }
        let v = u32_from_le_bytes(slice_subrange(self.reader.as_slice(), self.pos, self.pos + 4));
        self.pos = self.pos + 4;
        Ok(v)
    }

    pub fn read_u64(&mut self) -> (r: Result<u64, ProtocolError>)
        requires
            old(self).wf(),
        ensures
            final(self).wf(),
            final(self).buffer() == old(self).buffer(),
            match (r, parse_u64(old(self).rest())) {
                (Ok(v), Some((w, n))) => v == w && final(self).rest() == old(self).rest().skip(n as int),
                (Err(_), None) => true,
                _ => false,
            },
    {
        if self.reader.len() - self.pos < 8 {
            return Err(ProtocolError);
        }
        proof {
            self.lemma_advance(8);
        }
        let v = u64_from_le_bytes(slice_subrange(self.reader.as_slice(), self.pos, self.pos + 8));
        self.pos = self.pos + 8;
        Ok(v)
    }

    pub fn read_str(&mut self) -> (r: Result<String, ProtocolError>)
        requires
            old(self).wf(),
        ensures
            final(self).wf(),
            final(self).buffer() == old(self).buffer(),
            match (r, parse_str(old(self).rest())) {
                (Ok(v), Some((w, n))) => v@ == w && final(self).rest() == old(self).rest().skip(n as int),
                (Err(_), None) => true,
                _ => false,
            },
    {
        let ghost s0 = self.rest();
        let n = self.read_u16()? as usize;
        proof {
            assert(self.rest().len() == self.reader@.len() - self.pos);
            assert(self.rest().len() == s0.len() - 2);
        }
        if self.reader.len() - self.pos < n {
            return Err(ProtocolError);
        }
        proof {
            self.lemma_advance(n as int);
            assert(s0.subrange(2, 2 + n as int) =~= self.rest().take(n as int));
            assert(s0.skip(2 + n as int) =~= self.rest().skip(n as int));
        }
        let b = slice_subrange(self.reader.as_slice(), self.pos, self.pos + n);
        match utf8_str(b) {
            None => Err(ProtocolError),
            Some(text) => {
                self.pos = self.pos + n;
                let owned = text.to_owned();
                proof {
                    vstd::utf8::encode_utf8_decode_utf8(text@);
                }
                Ok(owned)
            },
        }
    }

    pub fn read_data(&mut self) -> (r: Result<Vec<u8>, ProtocolError>)
        requires
            old(self).wf(),
        ensures
            final(self).wf(),
            final(self).buffer() == old(self).buffer(),
            match (r, parse_data(old(self).rest())) {
                (Ok(v), Some((w, n))) => v@ == w && final(self).rest() == old(self).rest().skip(n as int),
                (Err(_), None) => true,
                _ => false,
            },
    {
        let ghost s0 = self.rest();
        let n = self.read_u32()? as usize;
        proof {
            assert(self.rest().len() == self.reader@.len() - self.pos);
            assert(self.rest().len() == s0.len() - 4);
        }
        if self.reader.len() - self.pos < n {
            return Err(ProtocolError);
        }
        proof {
            self.lemma_advance(n as int);
            assert(s0.subrange(4, 4 + n as int) =~= self.rest().take(n as int));
            assert(s0.skip(4 + n as int) =~= self.rest().skip(n as int));
        }
        let v = slice_to_vec(slice_subrange(self.reader.as_slice(), self.pos, self.pos + n));
        self.pos = self.pos + n;
        Ok(v)
    }

    pub fn read_qid(&mut self) -> (r: Result<QId, ProtocolError>)
        requires
            old(self).wf(),
        ensures
            final(self).wf(),
            final(self).buffer() == old(self).buffer(),
            match (r, parse_qid(old(self).rest())) {
                (Ok(v), Some((w, n))) => v == w && final(self).rest() == old(self).rest().skip(n as int),
                (Err(_), None) => true,
                _ => false,
            },
    {
        if self.reader.len() - self.pos < 13 {
            return Err(ProtocolError);
        }
        let ghost s0 = self.rest();
        proof {
            self.lemma_advance(13);
            assert(self.reader@.subrange(self.pos + 1, self.pos + 5) =~= s0.subrange(1, 5));
            assert(self.reader@.subrange(self.pos + 5, self.pos + 13) =~= s0.subrange(5, 13));
        }
        let typ = self.reader[self.pos];
        let version = u32_from_le_bytes(
            slice_subrange(self.reader.as_slice(), self.pos + 1, self.pos + 5),
        );
        let path = u64_from_le_bytes(
            slice_subrange(self.reader.as_slice(), self.pos + 5, self.pos + 13),
        );
        self.pos = self.pos + 13;
        Ok(QId { typ, version, path })
    }

    /// `count` strings.
    fn read_strs(&mut self, count: u16) -> (r: Result<Vec<String>, ProtocolError>)
        requires
            old(self).wf(),
        ensures
            final(self).wf(),
            final(self).buffer() == old(self).buffer(),
            match (r, parse_strs(count as nat, old(self).rest())) {
                (Ok(v), Some((w, n))) => strings_view(v@) == w && final(self).rest() == old(self).rest().skip(n as int),
                (Err(_), None) => true,
                _ => false,
            },
    {
        let ghost s0 = self.rest();
        let mut acc: Vec<String> = Vec::new();
        let mut i: u16 = 0;
        while i < count
            invariant
                self.wf(),
                self.buffer() == old(self).buffer(),
                0 <= i <= count,
                s0 == old(self).rest(),
                s0.len() >= self.rest().len(),
                self.rest() == s0.skip(s0.len() - self.rest().len()),
                match parse_strs((count - i) as nat, self.rest()) {
                    Some((xs, m)) => parse_strs(count as nat, s0) == Some((strings_view(acc@) + xs, (s0.len() - self.rest().len() + m) as nat)),
                    None => parse_strs(count as nat, s0) is None,
                },
            decreases count - i,
        {
            let ghost before = self.rest();
            let x = match self.read_str() {
                Ok(x) => x,
                Err(e) => {
                    proof {
                        assert(parse_strs((count - i) as nat, before) is None);
                    }
                    return Err(e);
                },
            };
            proof {
                assert(self.rest() =~= s0.skip(s0.len() - self.rest().len()));
                assert(strings_view(acc@.push(x)) =~= strings_view(acc@).push(x@));
                match parse_strs((count - i - 1) as nat, self.rest()) {
                    Some((xs, m)) => {
                        assert(strings_view(acc@).push(x@) + xs =~= strings_view(acc@) + (seq![x@] + xs));
                    },
                    None => {},
                }
            }
            acc.push(x);
            i = i + 1;
        }
        proof {
            assert(strings_view(acc@) + Seq::<Seq<char>>::empty() =~= strings_view(acc@));
        }
        Ok(acc)
    }

    /// `count` qids.
    fn read_qids(&mut self, count: u16) -> (r: Result<Vec<QId>, ProtocolError>)
        requires
            old(self).wf(),
        ensures
            final(self).wf(),
            final(self).buffer() == old(self).buffer(),
            match (r, parse_qids(count as nat, old(self).rest())) {
                (Ok(v), Some((w, n))) => v@ == w && final(self).rest() == old(self).rest().skip(n as int),
                (Err(_), None) => true,
                _ => false,
            },
    {
        let ghost s0 = self.rest();
        let mut acc: Vec<QId> = Vec::new();
        let mut i: u16 = 0;
        while i < count
            invariant
                self.wf(),
                self.buffer() == old(self).buffer(),
                0 <= i <= count,
                s0 == old(self).rest(),
                s0.len() >= self.rest().len(),
                self.rest() == s0.skip(s0.len() - self.rest().len()),
                match parse_qids((count - i) as nat, self.rest()) {
                    Some((xs, m)) => parse_qids(count as nat, s0) == Some((acc@ + xs, (s0.len() - self.rest().len() + m) as nat)),
                    None => parse_qids(count as nat, s0) is None,
                },
            decreases count - i,
        {
            let ghost before = self.rest();
            let x = match self.read_qid() {
                Ok(x) => x,
                Err(e) => {
                    proof {
                        assert(parse_qids((count - i) as nat, before) is None);
                    }
                    return Err(e);
                },
            };
            proof {
                assert(self.rest() =~= s0.skip(s0.len() - self.rest().len()));
                match parse_qids((count - i - 1) as nat, self.rest()) {
                    Some((xs, m)) => {
                        assert(acc@.push(x) + xs =~= acc@ + (seq![x] + xs));
                    },
                    None => {},
                }
            }
            acc.push(x);
            i = i + 1;
        }
        proof {
            assert(acc@ + Seq::<QId>::empty() =~= acc@);
        }
        Ok(acc)
    }

    pub fn read_dirent(&mut self) -> (r: Result<DirEntry, ProtocolError>)
        requires
            old(self).wf(),
        ensures
            final(self).wf(),
            final(self).buffer() == old(self).buffer(),
            match (r, parse_dirent(old(self).rest())) {
                (Ok(v), Some((w, n))) => dirent_view(v) == w && final(self).rest() == old(self).rest().skip(n as int),
                (Err(_), None) => true,
                _ => false,
            },
    {
        let ghost s0 = self.rest();
        let qid = self.read_qid()?;
        let offset = self.read_u64()?;
        proof {
            assert(self.rest() =~= s0.skip(21));
        }
        let typ = self.read_u8()?;
        proof {
            assert(self.rest() =~= s0.skip(22));
        }
        let name = self.read_str()?;
        proof {
            assert(self.rest() =~= s0.skip(22 + parse_str(s0.skip(22)).unwrap().1 as int));
        }
        Ok(DirEntry { qid, offset, typ, name })
    }

    /// Directory entries filling exactly the next `size` bytes.
    fn read_dirents(&mut self, size: u32) -> (r: Result<Vec<DirEntry>, ProtocolError>)
        requires
            old(self).wf(),
        ensures
            final(self).wf(),
            final(self).buffer() == old(self).buffer(),
            r is Ok ==> old(self).rest().len() >= size && final(self).rest() == old(self).rest().skip(size as int),
            match r {
                Ok(v) => parse_dirents(old(self).rest().take(size as int)) == Some(dirents_view(v@)),
                Err(_) => old(self).rest().len() < size || parse_dirents(old(self).rest().take(size as int)) is None,
            },
    {
        let n = size as usize;
        if self.reader.len() - self.pos < n {
            return Err(ProtocolError);
        }
        proof {
            self.lemma_advance(n as int);
        }
        let region = slice_to_vec(slice_subrange(self.reader.as_slice(), self.pos, self.pos + n));
        let ghost whole = region@;
        let mut sub = Decoder::new(region);
        let mut acc: Vec<DirEntry> = Vec::new();
        while sub.remaining() > 0
            invariant
                sub.wf(),
                sub.buffer() == whole,
                *self == *old(self),
                self.wf(),
                whole == old(self).rest().take(n as int),
                n == size as usize,
                n <= old(self).rest().len(),
                match parse_dirents(sub.rest()) {
                    Some(es) => parse_dirents(whole) == Some(dirents_view(acc@) + es),
                    None => parse_dirents(whole) is None,
                },
            decreases sub.rest().len(),
        {
            let ghost before = sub.rest();
            let e = match sub.read_dirent() {
                Ok(e) => e,
                Err(err) => {
                    proof {
                        assert(parse_dirents(before) is None);
                    }
                    return Err(err);
                },
            };
            proof {
                let (w, k) = parse_dirent(before).unwrap();
                lemma_dirent_parse_len(before);
                assert(dirents_view(acc@.push(e)) =~= dirents_view(acc@).push(dirent_view(e)));
                match parse_dirents(sub.rest()) {
                    Some(es) => {
                        assert(dirents_view(acc@).push(w) + es =~= dirents_view(acc@) + (seq![w] + es));
                    },
                    None => {},
                }
            }
            acc.push(e);
        }
        proof {
            assert(sub.rest().len() == 0);
            assert(dirents_view(acc@) + Seq::<DirEntV>::empty() =~= dirents_view(acc@));
        }
        self.pos = self.pos + n;
        Ok(acc)
    }

    /// One field of the given kind.
    pub fn read_field(&mut self, k: Kind) -> (r: Result<Field, ProtocolError>)
        requires
            old(self).wf(),
        ensures
            final(self).wf(),
            final(self).buffer() == old(self).buffer(),
            match (r, parse_field(k, old(self).rest())) {
                (Ok(v), Some((w, n))) => v@ == w && final(self).rest() == old(self).rest().skip(n as int),
                (Err(_), None) => true,
                _ => false,
            },
    {
        let ghost s0 = self.rest();
        match k {
            Kind::U8 => Ok(Field::U8(self.read_u8()?)),
            Kind::U16 => Ok(Field::U16(self.read_u16()?)),
            Kind::U32 => Ok(Field::U32(self.read_u32()?)),
            Kind::U64 => Ok(Field::U64(self.read_u64()?)),
            Kind::Flags8(m) => Ok(Field::U8(self.read_u8()? & m)),
            Kind::Flags32(m) => Ok(Field::U32(self.read_u32()? & m)),
            Kind::Flags64(m) => Ok(Field::U64(self.read_u64()? & m)),
            Kind::Str => Ok(Field::Str(self.read_str()?)),
            Kind::Data => Ok(Field::Data(self.read_data()?)),
            Kind::Qid => Ok(Field::Qid(self.read_qid()?)),
            Kind::Strs => {
                let c = self.read_u16()?;
                let ghost mid = self.rest();
                let v = self.read_strs(c)?;
                proof {
                    let n = parse_strs(c as nat, mid).unwrap().1;
                    lemma_parse_strs_len(c as nat, mid);
                    assert(mid.skip(n as int) =~= s0.skip(2 + n as int));
                }
                Ok(Field::Strs(v))
            },
            Kind::Qids => {
                let c = self.read_u16()?;
                let ghost mid = self.rest();
                let v = self.read_qids(c)?;
                proof {
                    let n = parse_qids(c as nat, mid).unwrap().1;
                    lemma_parse_qids_len(c as nat, mid);
                    assert(mid.skip(n as int) =~= s0.skip(2 + n as int));
                }
                Ok(Field::Qids(v))
            },
            Kind::Dirents => {
                let size = self.read_u32()?;
                proof {
                    if s0.len() >= 4 + size as int {
                        assert(s0.skip(4).take(size as int) =~= s0.subrange(4, 4 + size as int));
                    }
                }
                let v = self.read_dirents(size)?;
                proof {
                    assert(self.rest() =~= s0.skip(4 + size as int));
                }
                Ok(Field::Dirents(v))
            },
            Kind::Zero64 => {
                let _ = self.read_u64()?;
                Ok(Field::Zero64)
            },
        }
    }

    /// The fields of a schema, in order.
    pub fn read_fields(&mut self, ks: &Vec<Kind>) -> (r: Result<Vec<Field>, ProtocolError>)
        requires
            old(self).wf(),
        ensures
            final(self).wf(),
            final(self).buffer() == old(self).buffer(),
            match (r, parse_fields(ks@, old(self).rest())) {
                (Ok(v), Some((w, n))) => fields_view(v@) == w && final(self).rest() == old(self).rest().skip(n as int),
                (Err(_), None) => true,
                _ => false,
            },
    {
        let ghost s0 = self.rest();
        let mut acc: Vec<Field> = Vec::new();
        let mut i: usize = 0;
        proof {
            assert(ks@.skip(0) =~= ks@);
            assert(self.rest() =~= s0.skip(0));
            assert(fields_view(acc@) =~= Seq::<FieldV>::empty());
            match parse_fields(ks@, s0) {
                Some((xs, m)) => {
                    assert(fields_view(acc@) + xs =~= xs);
                },
                None => {},
            }
        }
        while i < ks.len()
            invariant
                self.wf(),
                self.buffer() == old(self).buffer(),
                0 <= i <= ks@.len(),
                s0 == old(self).rest(),
                s0.len() >= self.rest().len(),
                self.rest() == s0.skip(s0.len() - self.rest().len()),
                match parse_fields(ks@.skip(i as int), self.rest()) {
                    Some((xs, m)) => parse_fields(ks@, s0) == Some((fields_view(acc@) + xs, (s0.len() - self.rest().len() + m) as nat)),
                    None => parse_fields(ks@, s0) is None,
                },
            decreases ks@.len() - i,
        {
            let ghost before = self.rest();
            proof {
                assert(ks@.skip(i as int)[0] == ks@[i as int]);
                assert(ks@.skip(i as int).drop_first() =~= ks@.skip(i + 1));
            }
            let x = match self.read_field(ks[i]) {
                Ok(x) => x,
                Err(e) => {
                    proof {
                        assert(parse_fields(ks@.skip(i as int), before) is None);
                    }
                    return Err(e);
                },
            };
            proof {
                lemma_parse_field_len(ks@[i as int], before);
                assert(self.rest() =~= s0.skip(s0.len() - self.rest().len()));
                assert(fields_view(acc@.push(x)) =~= fields_view(acc@).push(x@));
                match parse_fields(ks@.skip(i + 1), self.rest()) {
                    Some((xs, m)) => {
                        assert(fields_view(acc@).push(x@) + xs =~= fields_view(acc@) + (seq![x@] + xs));
                    },
                    None => {},
                }
            }
            acc.push(x);
            i = i + 1;
        }
        proof {
            assert(ks@.skip(i as int) =~= Seq::<Kind>::empty());
            assert(fields_view(acc@) + Seq::<FieldV>::empty() =~= fields_view(acc@));
        }
        Ok(acc)
    }
}

/// A directory entry takes at least its fixed part.
pub proof fn lemma_dirent_parse_len(s: Seq<u8>)
    requires
        parse_dirent(s) is Some,
    ensures
        22 < parse_dirent(s).unwrap().1 <= s.len(),
{
    lemma_auto_spec_u16_to_from_le_bytes();
}

pub proof fn lemma_parse_strs_len(count: nat, s: Seq<u8>)
    ensures
        parse_strs(count, s) is Some ==> parse_strs(count, s).unwrap().1 <= s.len(),
    decreases count,
{
    if count > 0 {
        if let Some((x, n)) = parse_str(s) {
            lemma_parse_strs_len((count - 1) as nat, s.skip(n as int));
        }
    }
}

pub proof fn lemma_parse_qids_len(count: nat, s: Seq<u8>)
    ensures
        parse_qids(count, s) is Some ==> parse_qids(count, s).unwrap().1 <= s.len(),
    decreases count,
{
    if count > 0 {
        if let Some((x, n)) = parse_qid(s) {
            lemma_parse_qids_len((count - 1) as nat, s.skip(n as int));
        }
    }
}

/// A field never takes more bytes than there are.
pub proof fn lemma_parse_field_len(k: Kind, s: Seq<u8>)
    ensures
        parse_field(k, s) is Some ==> parse_field(k, s).unwrap().1 <= s.len(),
{
    match k {
        Kind::Strs => {
            if s.len() >= 2 {
                lemma_parse_strs_len(parse_u16(s).unwrap().0 as nat, s.skip(2));
            }
        },
        Kind::Qids => {
            if s.len() >= 2 {
                lemma_parse_qids_len(parse_u16(s).unwrap().0 as nat, s.skip(2));
            }
        },
        _ => {},
    }
}

// ---------------------------------------------------------------------------
// Writing
// ---------------------------------------------------------------------------

fn put_u8(out: &mut Vec<u8>, v: u8)
    ensures
        final(out)@ == old(out)@ + seq![v],
{
    out.push(v);
    proof {
        assert(out@ =~= old(out)@ + seq![v]);
    }
}

fn put_u16(out: &mut Vec<u8>, v: u16)
    ensures
        final(out)@ == old(out)@ + le16(v),
{
    let mut b = u16_to_le_bytes(v);
    out.append(&mut b);
}

fn put_u32(out: &mut Vec<u8>, v: u32)
    ensures
        final(out)@ == old(out)@ + le32(v),
{
    let mut b = u32_to_le_bytes(v);
    out.append(&mut b);
}

fn put_u64(out: &mut Vec<u8>, v: u64)
    ensures
        final(out)@ == old(out)@ + le64(v),
{
    let mut b = u64_to_le_bytes(v);
    out.append(&mut b);
}

fn put_bytes(out: &mut Vec<u8>, b: &[u8])
    ensures
        final(out)@ == old(out)@ + b@,
{
    let mut v = slice_to_vec(b);
    out.append(&mut v);
}

/// Whether the text fits a 9P string.
pub fn str_fits_exec(s: &String) -> (r: bool)
    ensures
        r == str_fits(s@),
{
    s.as_str().as_bytes().len() <= 0xffff
}

fn put_str(out: &mut Vec<u8>, s: &String)
    requires
        str_fits(s@),
    ensures
        final(out)@ == old(out)@ + str_wire(s@),
{
    let b = s.as_str().as_bytes();
    put_u16(out, b.len() as u16);
    put_bytes(out, b);
    proof {
        assert(out@ =~= old(out)@ + str_wire(s@));
    }
}

fn put_qid(out: &mut Vec<u8>, q: &QId)
    ensures
        final(out)@ == old(out)@ + qid_wire(*q),
{
    put_u8(out, q.typ);
    put_u32(out, q.version);
    put_u64(out, q.path);
    proof {
        assert(out@ =~= old(out)@ + qid_wire(*q));
    }
}

fn put_strs(out: &mut Vec<u8>, v: &Vec<String>) -> (r: Result<(), ProtocolError>)
    ensures
        r is Ok <==> field_fits(FieldV::Strs(strings_view(v@)), Kind::Strs),
        r is Ok ==> final(out)@ == old(out)@ + field_wire(FieldV::Strs(strings_view(v@))),
{
    let ghost sv = strings_view(v@);
    if v.len() > 0xffff {
        return Err(ProtocolError);
    }
    put_u16(out, v.len() as u16);
    let mut i: usize = 0;
    proof {
        assert(strs_pieces(sv.take(0)) =~= Seq::<Seq<u8>>::empty());
        assert(out@ =~= old(out)@ + le16(v@.len() as u16) + strs_wire(sv.take(0)));
    }
    while i < v.len()
        invariant
            0 <= i <= v@.len() <= 0xffff,
            sv == strings_view(v@),
            forall|j: int| 0 <= j < i ==> str_fits(#[trigger] sv[j]),
            out@ == old(out)@ + le16(v@.len() as u16) + strs_wire(sv.take(i as int)),
        decreases v@.len() - i,
    {
        if !str_fits_exec(&v[i]) {
            proof {
                assert(!str_fits(sv[i as int]));
            }
            return Err(ProtocolError);
        }
        proof {
            assert(strs_pieces(sv.take(i + 1)) =~= strs_pieces(sv.take(i as int)).push(str_wire(sv[i as int])));
            strs_pieces(sv.take(i as int)).lemma_flatten_push(str_wire(sv[i as int]));
        }
        put_str(out, &v[i]);
        proof {
            assert(out@ =~= old(out)@ + le16(v@.len() as u16) + strs_wire(sv.take(i + 1)));
        }
        i = i + 1;
    }
    proof {
        assert(sv.take(i as int) =~= sv);
        assert(sv.len() == v@.len());
    }
    Ok(())
}

fn put_qids(out: &mut Vec<u8>, v: &Vec<QId>) -> (r: Result<(), ProtocolError>)
    ensures
        r is Ok <==> field_fits(FieldV::Qids(v@), Kind::Qids),
        r is Ok ==> final(out)@ == old(out)@ + field_wire(FieldV::Qids(v@)),
{
    if v.len() > 0xffff {
        return Err(ProtocolError);
    }
    put_u16(out, v.len() as u16);
    let mut i: usize = 0;
    proof {
        assert(qids_pieces(v@.take(0)) =~= Seq::<Seq<u8>>::empty());
        assert(out@ =~= old(out)@ + le16(v@.len() as u16) + qids_wire(v@.take(0)));
    }
    while i < v.len()
        invariant
            0 <= i <= v@.len() <= 0xffff,
            out@ == old(out)@ + le16(v@.len() as u16) + qids_wire(v@.take(i as int)),
        decreases v@.len() - i,
    {
        proof {
            assert(qids_pieces(v@.take(i + 1)) =~= qids_pieces(v@.take(i as int)).push(qid_wire(v@[i as int])));
            qids_pieces(v@.take(i as int)).lemma_flatten_push(qid_wire(v@[i as int]));
        }
        put_qid(out, &v[i]);
        proof {
            assert(out@ =~= old(out)@ + le16(v@.len() as u16) + qids_wire(v@.take(i + 1)));
        }
        i = i + 1;
    }
    proof {
        assert(v@.take(i as int) =~= v@);
    }
    Ok(())
}

/// The wire size of a prefix of a list of entries grows with the prefix.
proof fn lemma_dirents_wire_prefix(v: Seq<DirEntV>, i: int)
    requires
        0 <= i <= v.len(),
    ensures
        dirents_wire(v.take(i)).len() <= dirents_wire(v).len(),
{
    assert(dirents_pieces(v) =~= dirents_pieces(v.take(i)) + dirents_pieces(v.skip(i)));
    vstd::seq_lib::lemma_flatten_concat(dirents_pieces(v.take(i)), dirents_pieces(v.skip(i)));
}

fn put_dirent(out: &mut Vec<u8>, e: &DirEntry)
    requires
        str_fits(e.name@),
    ensures
        final(out)@ == old(out)@ + dirent_wire(dirent_view(*e)),
{
    put_qid(out, &e.qid);
    put_u64(out, e.offset);
    put_u8(out, e.typ);
    put_str(out, &e.name);
    proof {
        assert(out@ =~= old(out)@ + dirent_wire(dirent_view(*e)));
    }
}

fn put_dirents(out: &mut Vec<u8>, v: &Vec<DirEntry>) -> (r: Result<(), ProtocolError>)
    ensures
        r is Ok <==> field_fits(FieldV::Dirents(dirents_view(v@)), Kind::Dirents),
        r is Ok ==> final(out)@ == old(out)@ + field_wire(FieldV::Dirents(dirents_view(v@))),
{
    let ghost dv = dirents_view(v@);
    let mut total: u64 = 0;
    let mut i: usize = 0;
    proof {
        assert(dirents_pieces(dv.take(0)) =~= Seq::<Seq<u8>>::empty());
    }
    while i < v.len()
        invariant
            0 <= i <= v@.len(),
            dv == dirents_view(v@),
            forall|j: int| 0 <= j < i ==> str_fits(#[trigger] dv[j].name),
            total == dirents_wire(dv.take(i as int)).len(),
            total <= u32::MAX,
        decreases v@.len() - i,
    {
        if !str_fits_exec(&v[i].name) {
            proof {
                assert(!str_fits(dv[i as int].name));
            }
            return Err(ProtocolError);
        }
        let n: usize = v[i].name.as_str().as_bytes().len();
        proof {
            assert(dirents_pieces(dv.take(i + 1)) =~= dirents_pieces(dv.take(i as int)).push(dirent_wire(dv[i as int])));
            dirents_pieces(dv.take(i as int)).lemma_flatten_push(dirent_wire(dv[i as int]));
            lemma_dirent_wire_len(dv[i as int]);
        }
        proof {
            assert(dv[i as int] == dirent_view(v@[i as int]));
            assert(dirents_wire(dv.take(i + 1)).len() == total + 24 + n);
        }
        total = total + 24 + n as u64;
        if total > 0xffff_ffff {
            proof {
                lemma_dirents_wire_prefix(dv, i + 1);
            }
            return Err(ProtocolError);
        }
        i = i + 1;
    }
    proof {
        assert(dv.take(i as int) =~= dv);
    }
    put_u32(out, total as u32);
    let ghost base = out@;
    let mut k: usize = 0;
    proof {
        assert(out@ =~= base + dirents_wire(dv.take(0)));
    }
    while k < v.len()
        invariant
            0 <= k <= v@.len(),
            dv == dirents_view(v@),
            forall|j: int| 0 <= j < v@.len() ==> str_fits(#[trigger] dv[j].name),
            out@ == base + dirents_wire(dv.take(k as int)),
        decreases v@.len() - k,
    {
        proof {
            assert(dirents_pieces(dv.take(k + 1)) =~= dirents_pieces(dv.take(k as int)).push(dirent_wire(dv[k as int])));
            dirents_pieces(dv.take(k as int)).lemma_flatten_push(dirent_wire(dv[k as int]));
            assert(str_fits(dv[k as int].name));
        }
        put_dirent(out, &v[k]);
        proof {
            assert(out@ =~= base + dirents_wire(dv.take(k + 1)));
        }
        k = k + 1;
    }
    proof {
        assert(dv.take(k as int) =~= dv);
        assert(out@ =~= old(out)@ + field_wire(FieldV::Dirents(dv)));
    }
    Ok(())
}

/// Appends one field of kind `k`, or fails when the value does not fit
/// that kind on the wire.
pub fn put_field(out: &mut Vec<u8>, f: &Field, k: Kind) -> (r: Result<(), ProtocolError>)
    ensures
        r is Ok <==> field_fits(f@, k),
        r is Ok ==> final(out)@ == old(out)@ + field_wire(f@),
{
    match (f, k) {
        (Field::U8(v), Kind::U8) => {
            put_u8(out, *v);
            Ok(())
        },
        (Field::U16(v), Kind::U16) => {
            put_u16(out, *v);
            Ok(())
        },
        (Field::U32(v), Kind::U32) => {
            put_u32(out, *v);
            Ok(())
        },
        (Field::U64(v), Kind::U64) => {
            put_u64(out, *v);
            Ok(())
        },
        (Field::U8(v), Kind::Flags8(m)) => {
            if *v & m != *v {
                return Err(ProtocolError);
            }
            put_u8(out, *v);
            Ok(())
        },
        (Field::U32(v), Kind::Flags32(m)) => {
            if *v & m != *v {
                return Err(ProtocolError);
            }
            put_u32(out, *v);
            Ok(())
        },
        (Field::U64(v), Kind::Flags64(m)) => {
            if *v & m != *v {
                return Err(ProtocolError);
            }
            put_u64(out, *v);
            Ok(())
        },
        (Field::Str(s), Kind::Str) => {
            if !str_fits_exec(s) {
                return Err(ProtocolError);
            }
            put_str(out, s);
            Ok(())
        },
        (Field::Data(d), Kind::Data) => {
            if d.len() as u64 > 0xffff_ffff {
                return Err(ProtocolError);
            }
            put_u32(out, d.len() as u32);
            put_bytes(out, d.as_slice());
            proof {
                assert(out@ =~= old(out)@ + field_wire(f@));
            }
            Ok(())
        },
        (Field::Qid(q), Kind::Qid) => {
            put_qid(out, q);
            Ok(())
        },
        (Field::Strs(v), Kind::Strs) => put_strs(out, v),
        (Field::Qids(v), Kind::Qids) => put_qids(out, v),
        (Field::Dirents(v), Kind::Dirents) => put_dirents(out, v),
        (Field::Zero64, Kind::Zero64) => {
            put_u64(out, 0);
            Ok(())
        },
        _ => Err(ProtocolError),
    }
}

/// Appends the fields of a schema in order, or fails when one of them does
/// not fit its kind.
pub fn put_fields(out: &mut Vec<u8>, fs: &Vec<Field>, ks: &Vec<Kind>) -> (r: Result<(), ProtocolError>)
    ensures
        r is Ok <==> fields_fit(fields_view(fs@), ks@),
        r is Ok ==> final(out)@ == old(out)@ + fields_wire(fields_view(fs@)),
{
    let ghost fv = fields_view(fs@);
    if fs.len() != ks.len() {
        return Err(ProtocolError);
    }
    let mut i: usize = 0;
    proof {
        assert(fields_pieces(fv.take(0)) =~= Seq::<Seq<u8>>::empty());
        assert(out@ =~= old(out)@ + fields_wire(fv.take(0)));
    }
    while i < fs.len()
        invariant
            0 <= i <= fs@.len(),
            fs@.len() == ks@.len(),
            fv == fields_view(fs@),
            forall|j: int| 0 <= j < i ==> field_fits(#[trigger] fv[j], ks@[j]),
            out@ == old(out)@ + fields_wire(fv.take(i as int)),
        decreases fs@.len() - i,
    {
        proof {
            assert(fields_pieces(fv.take(i + 1)) =~= fields_pieces(fv.take(i as int)).push(field_wire(fv[i as int])));
            fields_pieces(fv.take(i as int)).lemma_flatten_push(field_wire(fv[i as int]));
        }
        let r = put_field(out, &fs[i], ks[i]);
        if r.is_err() {
            return Err(ProtocolError);
        }
        proof {
            assert(out@ =~= old(out)@ + fields_wire(fv.take(i + 1)));
        }
        i = i + 1;
    }
    proof {
        assert(fv.take(i as int) =~= fv);
    }
    Ok(())
}


// ---------------------------------------------------------------------------
// Messages as lists of fields
// ---------------------------------------------------------------------------

/// A field holds a value of the shape that its kind reads.
pub open spec fn field_shaped(f: FieldV, k: Kind) -> bool {
    match (f, k) {
        (FieldV::U8(_), Kind::U8) => true,
        (FieldV::U16(_), Kind::U16) => true,
        (FieldV::U32(_), Kind::U32) => true,
        (FieldV::U64(_), Kind::U64) => true,
        (FieldV::U8(_), Kind::Flags8(_)) => true,
        (FieldV::U32(_), Kind::Flags32(_)) => true,
        (FieldV::U64(_), Kind::Flags64(_)) => true,
        (FieldV::Str(_), Kind::Str) => true,
        (FieldV::Data(_), Kind::Data) => true,
        (FieldV::Qid(_), Kind::Qid) => true,
        (FieldV::Strs(_), Kind::Strs) => true,
        (FieldV::Qids(_), Kind::Qids) => true,
        (FieldV::Dirents(_), Kind::Dirents) => true,
        (FieldV::Zero64, Kind::Zero64) => true,
        _ => false,
    }
}

pub open spec fn fields_shaped(fs: Seq<FieldV>, ks: Seq<Kind>) -> bool {
    &&& fs.len() == ks.len()
    &&& forall|i: int| 0 <= i < fs.len() ==> field_shaped(#[trigger] fs[i], ks[i])
}

pub proof fn lemma_parse_fields_shaped(ks: Seq<Kind>, s: Seq<u8>)
    ensures
        parse_fields(ks, s) is Some ==> fields_shaped(parse_fields(ks, s).unwrap().0, ks),
    decreases ks.len(),
{
    if ks.len() > 0 {
        if let Some((f, n)) = parse_field(ks[0], s) {
            lemma_parse_fields_shaped(ks.drop_first(), s.skip(n as int));
            if let Some((fs, m)) = parse_fields(ks.drop_first(), s.skip(n as int)) {
                let all = seq![f] + fs;
                assert forall|i: int| 0 <= i < all.len() implies field_shaped(#[trigger] all[i], ks[i]) by {
                    if i > 0 {
                        assert(all[i] == fs[i - 1]);
                        assert(ks[i] == ks.drop_first()[i - 1]);
                    }
                }
            }
        }
    }
}

fn field_u8(fs: &Vec<Field>, i: usize) -> (r: u8)
    requires
        i < fs@.len(),
        fs@[i as int]@ is U8,
    ensures
        fs@[i as int]@ == FieldV::U8(r),
{
    match &fs[i] {
        Field::U8(v) => *v,
        _ => 0,
    }
}

fn field_u16(fs: &Vec<Field>, i: usize) -> (r: u16)
    requires
        i < fs@.len(),
        fs@[i as int]@ is U16,
    ensures
        fs@[i as int]@ == FieldV::U16(r),
{
    match &fs[i] {
        Field::U16(v) => *v,
        _ => 0,
    }
}

fn field_u32(fs: &Vec<Field>, i: usize) -> (r: u32)
    requires
        i < fs@.len(),
        fs@[i as int]@ is U32,
    ensures
        fs@[i as int]@ == FieldV::U32(r),
{
    match &fs[i] {
        Field::U32(v) => *v,
        _ => 0,
    }
}

fn field_u64(fs: &Vec<Field>, i: usize) -> (r: u64)
    requires
        i < fs@.len(),
        fs@[i as int]@ is U64,
    ensures
        fs@[i as int]@ == FieldV::U64(r),
{
    match &fs[i] {
        Field::U64(v) => *v,
        _ => 0,
    }
}

fn field_qid(fs: &Vec<Field>, i: usize) -> (r: QId)
    requires
        i < fs@.len(),
        fs@[i as int]@ is Qid,
    ensures
        fs@[i as int]@ == FieldV::Qid(r),
{
    match &fs[i] {
        Field::Qid(v) => *v,
        _ => QId { typ: 0, version: 0, path: 0 },
    }
}

fn field_str(fs: &Vec<Field>, i: usize) -> (r: String)
    requires
        i < fs@.len(),
        fs@[i as int]@ is Str,
    ensures
        fs@[i as int]@ == FieldV::Str(r@),
{
    match &fs[i] {
        Field::Str(v) => v.clone(),
        _ => String::new(),
    }
}

fn field_data(fs: &Vec<Field>, i: usize) -> (r: Vec<u8>)
    requires
        i < fs@.len(),
        fs@[i as int]@ is Data,
    ensures
        fs@[i as int]@ == FieldV::Data(r@),
{
    match &fs[i] {
        Field::Data(v) => slice_to_vec(v.as_slice()),
        _ => Vec::new(),
    }
}

fn field_strs(fs: &Vec<Field>, i: usize) -> (r: Vec<String>)
    requires
        i < fs@.len(),
        fs@[i as int]@ is Strs,
    ensures
        fs@[i as int]@ == FieldV::Strs(strings_view(r@)),
{
    match &fs[i] {
        Field::Strs(v) => clone_strings(v),
        _ => Vec::new(),
    }
}

fn field_qids(fs: &Vec<Field>, i: usize) -> (r: Vec<QId>)
    requires
        i < fs@.len(),
        fs@[i as int]@ is Qids,
    ensures
        fs@[i as int]@ == FieldV::Qids(r@),
{
    match &fs[i] {
        Field::Qids(v) => slice_to_vec(v.as_slice()),
        _ => Vec::new(),
    }
}

fn field_dirents(fs: &Vec<Field>, i: usize) -> (r: Vec<DirEntry>)
    requires
        i < fs@.len(),
        fs@[i as int]@ is Dirents,
    ensures
        fs@[i as int]@ == FieldV::Dirents(dirents_view(r@)),
{
    match &fs[i] {
        Field::Dirents(v) => clone_dirents(v),
        _ => Vec::new(),
    }
}

/// A copy of a list of strings.
pub fn clone_strings(v: &Vec<String>) -> (r: Vec<String>)
    ensures
        strings_view(r@) == strings_view(v@),
{
    let mut r: Vec<String> = Vec::new();
    let mut i: usize = 0;
    while i < v.len()
        invariant
            0 <= i <= v@.len(),
            strings_view(r@) =~= strings_view(v@.take(i as int)),
        decreases v@.len() - i,
    {
        r.push(v[i].clone());
        proof {
            assert(strings_view(v@.take(i + 1)) =~= strings_view(v@.take(i as int)).push(v@[i as int]@));
        }
        i = i + 1;
    }
    proof {
        assert(v@.take(i as int) =~= v@);
    }
    r
}

/// A copy of a list of directory entries.
pub fn clone_dirents(v: &Vec<DirEntry>) -> (r: Vec<DirEntry>)
    ensures
        dirents_view(r@) == dirents_view(v@),
{
    let mut r: Vec<DirEntry> = Vec::new();
    let mut i: usize = 0;
    while i < v.len()
        invariant
            0 <= i <= v@.len(),
            dirents_view(r@) =~= dirents_view(v@.take(i as int)),
        decreases v@.len() - i,
    {
        let e = &v[i];
        r.push(DirEntry { qid: e.qid, offset: e.offset, typ: e.typ, name: e.name.clone() });
        proof {
            assert(dirents_view(v@.take(i + 1)) =~= dirents_view(v@.take(i as int)).push(dirent_view(v@[i as int])));
        }
        i = i + 1;
    }
    proof {
        assert(v@.take(i as int) =~= v@);
    }
    r
}

/// The kinds of the fields of each message type, or `None` for a type byte
/// that names no 9P2000.L message.
pub open spec fn spec_schema(t: u8) -> Option<Seq<Kind>> {
    match t {
        7 => Some(seq![Kind::U32]),
        8 => Some(seq![Kind::U32]),
        9 => Some(seq![Kind::U32, Kind::U32, Kind::U64, Kind::U64, Kind::U64, Kind::U64, Kind::U64, Kind::U64, Kind::U32]),
        12 => Some(seq![Kind::U32, Kind::U32]),
        13 => Some(seq![Kind::Qid, Kind::U32]),
        14 => Some(seq![Kind::U32, Kind::Str, Kind::U32, Kind::U32, Kind::U32]),
        15 => Some(seq![Kind::Qid, Kind::U32]),
        16 => Some(seq![Kind::U32, Kind::Str, Kind::Str, Kind::U32]),
        17 => Some(seq![Kind::Qid]),
        18 => Some(seq![Kind::U32, Kind::Str, Kind::U32, Kind::U32, Kind::U32, Kind::U32]),
        19 => Some(seq![Kind::Qid]),
        20 => Some(seq![Kind::U32, Kind::U32, Kind::Str]),
        21 => Some(Seq::empty()),
        22 => Some(seq![Kind::U32]),
        23 => Some(seq![Kind::Str]),
        24 => Some(seq![Kind::U32, Kind::Flags64(GETATTR_ALL)]),
        25 => Some(seq![Kind::Flags64(GETATTR_ALL), Kind::Qid, Kind::U32, Kind::U32, Kind::U32, Kind::U64, Kind::U64, Kind::U64, Kind::U64, Kind::U64, Kind::U64, Kind::U64, Kind::U64, Kind::U64, Kind::U64, Kind::U64, Kind::Zero64, Kind::Zero64, Kind::Zero64, Kind::Zero64]),
        26 => Some(seq![Kind::U32, Kind::Flags32(SETATTR_ALL), Kind::U32, Kind::U32, Kind::U32, Kind::U64, Kind::U64, Kind::U64, Kind::U64, Kind::U64]),
        27 => Some(Seq::empty()),
        30 => Some(seq![Kind::U32, Kind::U32, Kind::Str]),
        31 => Some(seq![Kind::U64]),
        32 => Some(seq![Kind::U32, Kind::Str, Kind::U64, Kind::U32]),
        33 => Some(Seq::empty()),
        40 => Some(seq![Kind::U32, Kind::U64, Kind::U32]),
        41 => Some(seq![Kind::Dirents]),
        50 => Some(seq![Kind::U32]),
        51 => Some(Seq::empty()),
        52 => Some(seq![Kind::U32, Kind::Flags8(LOCK_TYPE_ALL), Kind::Flags32(LOCK_FLAG_ALL), Kind::U64, Kind::U64, Kind::U32, Kind::Str]),
        53 => Some(seq![Kind::Flags8(LOCK_STATUS_ALL)]),
        54 => Some(seq![Kind::U32, Kind::Flags8(LOCK_TYPE_ALL), Kind::U64, Kind::U64, Kind::U32, Kind::Str]),
        55 => Some(seq![Kind::Flags8(LOCK_TYPE_ALL), Kind::U64, Kind::U64, Kind::U32, Kind::Str]),
        70 => Some(seq![Kind::U32, Kind::U32, Kind::Str]),
        71 => Some(Seq::empty()),
        72 => Some(seq![Kind::U32, Kind::Str, Kind::U32, Kind::U32]),
        73 => Some(seq![Kind::Qid]),
        74 => Some(seq![Kind::U32, Kind::Str, Kind::U32, Kind::Str]),
        75 => Some(Seq::empty()),
        76 => Some(seq![Kind::U32, Kind::Str, Kind::U32]),
        77 => Some(Seq::empty()),
        100 => Some(seq![Kind::U32, Kind::Str]),
        101 => Some(seq![Kind::U32, Kind::Str]),
        102 => Some(seq![Kind::U32, Kind::Str, Kind::Str, Kind::U32]),
        103 => Some(seq![Kind::Qid]),
        104 => Some(seq![Kind::U32, Kind::U32, Kind::Str, Kind::Str, Kind::U32]),
        105 => Some(seq![Kind::Qid]),
        108 => Some(seq![Kind::U16]),
        109 => Some(Seq::empty()),
        110 => Some(seq![Kind::U32, Kind::U32, Kind::Strs]),
        111 => Some(seq![Kind::Qids]),
        116 => Some(seq![Kind::U32, Kind::U64, Kind::U32]),
        117 => Some(seq![Kind::Data]),
        118 => Some(seq![Kind::U32, Kind::U64, Kind::Data]),
        119 => Some(seq![Kind::U32]),
        120 => Some(seq![Kind::U32]),
        121 => Some(Seq::empty()),
        122 => Some(seq![Kind::U32]),
        123 => Some(Seq::empty()),
        _ => None,
    }
}

/// The kinds of the fields of each message type.
pub fn schema(t: u8) -> (r: Option<Vec<Kind>>)
    ensures
        match (r, spec_schema(t)) {
            (Some(v), Some(w)) => v@ == w,
            (None, None) => true,
            _ => false,
        },
{
    match t {
        7 => Some(vec![Kind::U32]),
        8 => Some(vec![Kind::U32]),
        9 => Some(vec![Kind::U32, Kind::U32, Kind::U64, Kind::U64, Kind::U64, Kind::U64, Kind::U64, Kind::U64, Kind::U32]),
        12 => Some(vec![Kind::U32, Kind::U32]),
        13 => Some(vec![Kind::Qid, Kind::U32]),
        14 => Some(vec![Kind::U32, Kind::Str, Kind::U32, Kind::U32, Kind::U32]),
        15 => Some(vec![Kind::Qid, Kind::U32]),
        16 => Some(vec![Kind::U32, Kind::Str, Kind::Str, Kind::U32]),
        17 => Some(vec![Kind::Qid]),
        18 => Some(vec![Kind::U32, Kind::Str, Kind::U32, Kind::U32, Kind::U32, Kind::U32]),
        19 => Some(vec![Kind::Qid]),
        20 => Some(vec![Kind::U32, Kind::U32, Kind::Str]),
        21 => Some(Vec::new()),
        22 => Some(vec![Kind::U32]),
        23 => Some(vec![Kind::Str]),
        24 => Some(vec![Kind::U32, Kind::Flags64(GETATTR_ALL)]),
        25 => Some(vec![Kind::Flags64(GETATTR_ALL), Kind::Qid, Kind::U32, Kind::U32, Kind::U32, Kind::U64, Kind::U64, Kind::U64, Kind::U64, Kind::U64, Kind::U64, Kind::U64, Kind::U64, Kind::U64, Kind::U64, Kind::U64, Kind::Zero64, Kind::Zero64, Kind::Zero64, Kind::Zero64]),
        26 => Some(vec![Kind::U32, Kind::Flags32(SETATTR_ALL), Kind::U32, Kind::U32, Kind::U32, Kind::U64, Kind::U64, Kind::U64, Kind::U64, Kind::U64]),
        27 => Some(Vec::new()),
        30 => Some(vec![Kind::U32, Kind::U32, Kind::Str]),
        31 => Some(vec![Kind::U64]),
        32 => Some(vec![Kind::U32, Kind::Str, Kind::U64, Kind::U32]),
        33 => Some(Vec::new()),
        40 => Some(vec![Kind::U32, Kind::U64, Kind::U32]),
        41 => Some(vec![Kind::Dirents]),
        50 => Some(vec![Kind::U32]),
        51 => Some(Vec::new()),
        52 => Some(vec![Kind::U32, Kind::Flags8(LOCK_TYPE_ALL), Kind::Flags32(LOCK_FLAG_ALL), Kind::U64, Kind::U64, Kind::U32, Kind::Str]),
        53 => Some(vec![Kind::Flags8(LOCK_STATUS_ALL)]),
        54 => Some(vec![Kind::U32, Kind::Flags8(LOCK_TYPE_ALL), Kind::U64, Kind::U64, Kind::U32, Kind::Str]),
        55 => Some(vec![Kind::Flags8(LOCK_TYPE_ALL), Kind::U64, Kind::U64, Kind::U32, Kind::Str]),
        70 => Some(vec![Kind::U32, Kind::U32, Kind::Str]),
        71 => Some(Vec::new()),
        72 => Some(vec![Kind::U32, Kind::Str, Kind::U32, Kind::U32]),
        73 => Some(vec![Kind::Qid]),
        74 => Some(vec![Kind::U32, Kind::Str, Kind::U32, Kind::Str]),
        75 => Some(Vec::new()),
        76 => Some(vec![Kind::U32, Kind::Str, Kind::U32]),
        77 => Some(Vec::new()),
        100 => Some(vec![Kind::U32, Kind::Str]),
        101 => Some(vec![Kind::U32, Kind::Str]),
        102 => Some(vec![Kind::U32, Kind::Str, Kind::Str, Kind::U32]),
        103 => Some(vec![Kind::Qid]),
        104 => Some(vec![Kind::U32, Kind::U32, Kind::Str, Kind::Str, Kind::U32]),
        105 => Some(vec![Kind::Qid]),
        108 => Some(vec![Kind::U16]),
        109 => Some(Vec::new()),
        110 => Some(vec![Kind::U32, Kind::U32, Kind::Strs]),
        111 => Some(vec![Kind::Qids]),
        116 => Some(vec![Kind::U32, Kind::U64, Kind::U32]),
        117 => Some(vec![Kind::Data]),
        118 => Some(vec![Kind::U32, Kind::U64, Kind::Data]),
        119 => Some(vec![Kind::U32]),
        120 => Some(vec![Kind::U32]),
        121 => Some(Vec::new()),
        122 => Some(vec![Kind::U32]),
        123 => Some(Vec::new()),
        _ => None,
    }
}

impl FCall {
    /// The fields of the message body, in wire order.
    pub fn to_fields(&self) -> (r: Vec<Field>)
        ensures
            fields_view(r@) =~= self.spec_fields(),
    {
        match self {
            FCall::RlError { ecode } => vec![Field::U32(*ecode)],
            FCall::TStatFs { fid } => vec![Field::U32(*fid)],
            FCall::RStatFs { statfs } => vec![Field::U32(statfs.typ), Field::U32(statfs.bsize), Field::U64(statfs.blocks), Field::U64(statfs.bfree), Field::U64(statfs.bavail), Field::U64(statfs.files), Field::U64(statfs.ffree), Field::U64(statfs.fsid), Field::U32(statfs.namelen)],
            FCall::TlOpen { fid, flags } => vec![Field::U32(*fid), Field::U32(*flags)],
            FCall::RlOpen { qid, iounit } => vec![Field::Qid(*qid), Field::U32(*iounit)],
            FCall::TlCreate { fid, name, flags, mode, gid } => vec![Field::U32(*fid), Field::Str(name.clone()), Field::U32(*flags), Field::U32(*mode), Field::U32(*gid)],
            FCall::RlCreate { qid, iounit } => vec![Field::Qid(*qid), Field::U32(*iounit)],
            FCall::TSymlink { fid, name, symtgt, gid } => vec![Field::U32(*fid), Field::Str(name.clone()), Field::Str(symtgt.clone()), Field::U32(*gid)],
            FCall::RSymlink { qid } => vec![Field::Qid(*qid)],
            FCall::TMkNod { dfid, name, mode, major, minor, gid } => vec![Field::U32(*dfid), Field::Str(name.clone()), Field::U32(*mode), Field::U32(*major), Field::U32(*minor), Field::U32(*gid)],
            FCall::RMkNod { qid } => vec![Field::Qid(*qid)],
            FCall::TRename { fid, dfid, name } => vec![Field::U32(*fid), Field::U32(*dfid), Field::Str(name.clone())],
            FCall::RRename => Vec::new(),
            FCall::TReadLink { fid } => vec![Field::U32(*fid)],
            FCall::RReadLink { target } => vec![Field::Str(target.clone())],
            FCall::TGetAttr { fid, req_mask } => vec![Field::U32(*fid), Field::U64(*req_mask)],
            FCall::RGetAttr { valid, qid, stat } => vec![Field::U64(*valid), Field::Qid(*qid), Field::U32(stat.mode), Field::U32(stat.uid), Field::U32(stat.gid), Field::U64(stat.nlink), Field::U64(stat.rdev), Field::U64(stat.size), Field::U64(stat.blksize), Field::U64(stat.blocks), Field::U64(stat.atime.sec), Field::U64(stat.atime.nsec), Field::U64(stat.mtime.sec), Field::U64(stat.mtime.nsec), Field::U64(stat.ctime.sec), Field::U64(stat.ctime.nsec), Field::Zero64, Field::Zero64, Field::Zero64, Field::Zero64],
            FCall::TSetAttr { fid, valid, stat } => vec![Field::U32(*fid), Field::U32(*valid), Field::U32(stat.mode), Field::U32(stat.uid), Field::U32(stat.gid), Field::U64(stat.size), Field::U64(stat.atime.sec), Field::U64(stat.atime.nsec), Field::U64(stat.mtime.sec), Field::U64(stat.mtime.nsec)],
            FCall::RSetAttr => Vec::new(),
            FCall::TxAttrWalk { fid, newfid, name } => vec![Field::U32(*fid), Field::U32(*newfid), Field::Str(name.clone())],
            FCall::RxAttrWalk { size } => vec![Field::U64(*size)],
            FCall::TxAttrCreate { fid, name, attr_size, flags } => vec![Field::U32(*fid), Field::Str(name.clone()), Field::U64(*attr_size), Field::U32(*flags)],
            FCall::RxAttrCreate => Vec::new(),
            FCall::TReadDir { fid, offset, count } => vec![Field::U32(*fid), Field::U64(*offset), Field::U32(*count)],
            FCall::RReadDir { data } => vec![Field::Dirents(clone_dirents(&data.data))],
            FCall::TFSync { fid } => vec![Field::U32(*fid)],
            FCall::RFSync => Vec::new(),
            FCall::TLock { fid, flock } => vec![Field::U32(*fid), Field::U8(flock.typ), Field::U32(flock.flags), Field::U64(flock.start), Field::U64(flock.length), Field::U32(flock.proc_id), Field::Str(flock.client_id.clone())],
            FCall::RLock { status } => vec![Field::U8(*status)],
            FCall::TGetLock { fid, flock } => vec![Field::U32(*fid), Field::U8(flock.typ), Field::U64(flock.start), Field::U64(flock.length), Field::U32(flock.proc_id), Field::Str(flock.client_id.clone())],
            FCall::RGetLock { flock } => vec![Field::U8(flock.typ), Field::U64(flock.start), Field::U64(flock.length), Field::U32(flock.proc_id), Field::Str(flock.client_id.clone())],
            FCall::TLink { dfid, fid, name } => vec![Field::U32(*dfid), Field::U32(*fid), Field::Str(name.clone())],
            FCall::RLink => Vec::new(),
            FCall::TMkDir { dfid, name, mode, gid } => vec![Field::U32(*dfid), Field::Str(name.clone()), Field::U32(*mode), Field::U32(*gid)],
            FCall::RMkDir { qid } => vec![Field::Qid(*qid)],
            FCall::TRenameAt { olddirfid, oldname, newdirfid, newname } => vec![Field::U32(*olddirfid), Field::Str(oldname.clone()), Field::U32(*newdirfid), Field::Str(newname.clone())],
            FCall::RRenameAt => Vec::new(),
            FCall::TUnlinkAt { dirfd, name, flags } => vec![Field::U32(*dirfd), Field::Str(name.clone()), Field::U32(*flags)],
            FCall::RUnlinkAt => Vec::new(),
            FCall::TVersion { msize, version } => vec![Field::U32(*msize), Field::Str(version.clone())],
            FCall::RVersion { msize, version } => vec![Field::U32(*msize), Field::Str(version.clone())],
            FCall::TAuth { afid, uname, aname, n_uname } => vec![Field::U32(*afid), Field::Str(uname.clone()), Field::Str(aname.clone()), Field::U32(*n_uname)],
            FCall::RAuth { aqid } => vec![Field::Qid(*aqid)],
            FCall::TAttach { fid, afid, uname, aname, n_uname } => vec![Field::U32(*fid), Field::U32(*afid), Field::Str(uname.clone()), Field::Str(aname.clone()), Field::U32(*n_uname)],
            FCall::RAttach { qid } => vec![Field::Qid(*qid)],
            FCall::TFlush { oldtag } => vec![Field::U16(*oldtag)],
            FCall::RFlush => Vec::new(),
            FCall::TWalk { fid, newfid, wnames } => vec![Field::U32(*fid), Field::U32(*newfid), Field::Strs(clone_strings(wnames))],
            FCall::RWalk { wqids } => vec![Field::Qids(slice_to_vec(wqids.as_slice()))],
            FCall::TRead { fid, offset, count } => vec![Field::U32(*fid), Field::U64(*offset), Field::U32(*count)],
            FCall::RRead { data } => vec![Field::Data(slice_to_vec(data.0.as_slice()))],
            FCall::TWrite { fid, offset, data } => vec![Field::U32(*fid), Field::U64(*offset), Field::Data(slice_to_vec(data.0.as_slice()))],
            FCall::RWrite { count } => vec![Field::U32(*count)],
            FCall::TClunk { fid } => vec![Field::U32(*fid)],
            FCall::RClunk => Vec::new(),
            FCall::TRemove { fid } => vec![Field::U32(*fid)],
            FCall::RRemove => Vec::new(),
        }
    }

    /// The message of type `t` whose body holds the given fields.
    pub fn from_fields(t: u8, fs: &Vec<Field>) -> (r: FCall)
        requires
            spec_schema(t) is Some,
            fields_shaped(fields_view(fs@), spec_schema(t).unwrap()),
        ensures
            r.spec_type() == t,
            r.spec_fields() =~= fields_view(fs@),
    {
        proof {
            let ks = spec_schema(t).unwrap();
            assert forall|i: int| 0 <= i < fs@.len() implies field_shaped(#[trigger] fs@[i]@, ks[i]) by {
                assert(fields_view(fs@)[i] == fs@[i]@);
            }
        }
        match t {
            7 => FCall::RlError { ecode: field_u32(fs, 0) },
            8 => FCall::TStatFs { fid: field_u32(fs, 0) },
            9 => FCall::RStatFs { statfs: StatFs { typ: field_u32(fs, 0), bsize: field_u32(fs, 1), blocks: field_u64(fs, 2), bfree: field_u64(fs, 3), bavail: field_u64(fs, 4), files: field_u64(fs, 5), ffree: field_u64(fs, 6), fsid: field_u64(fs, 7), namelen: field_u32(fs, 8) } },
            12 => FCall::TlOpen { fid: field_u32(fs, 0), flags: field_u32(fs, 1) },
            13 => FCall::RlOpen { qid: field_qid(fs, 0), iounit: field_u32(fs, 1) },
            14 => FCall::TlCreate { fid: field_u32(fs, 0), name: field_str(fs, 1), flags: field_u32(fs, 2), mode: field_u32(fs, 3), gid: field_u32(fs, 4) },
            15 => FCall::RlCreate { qid: field_qid(fs, 0), iounit: field_u32(fs, 1) },
            16 => FCall::TSymlink { fid: field_u32(fs, 0), name: field_str(fs, 1), symtgt: field_str(fs, 2), gid: field_u32(fs, 3) },
            17 => FCall::RSymlink { qid: field_qid(fs, 0) },
            18 => FCall::TMkNod { dfid: field_u32(fs, 0), name: field_str(fs, 1), mode: field_u32(fs, 2), major: field_u32(fs, 3), minor: field_u32(fs, 4), gid: field_u32(fs, 5) },
            19 => FCall::RMkNod { qid: field_qid(fs, 0) },
            20 => FCall::TRename { fid: field_u32(fs, 0), dfid: field_u32(fs, 1), name: field_str(fs, 2) },
            21 => FCall::RRename,
            22 => FCall::TReadLink { fid: field_u32(fs, 0) },
            23 => FCall::RReadLink { target: field_str(fs, 0) },
            24 => FCall::TGetAttr { fid: field_u32(fs, 0), req_mask: field_u64(fs, 1) },
            25 => FCall::RGetAttr { valid: field_u64(fs, 0), qid: field_qid(fs, 1), stat: Stat { mode: field_u32(fs, 2), uid: field_u32(fs, 3), gid: field_u32(fs, 4), nlink: field_u64(fs, 5), rdev: field_u64(fs, 6), size: field_u64(fs, 7), blksize: field_u64(fs, 8), blocks: field_u64(fs, 9), atime: Time { sec: field_u64(fs, 10), nsec: field_u64(fs, 11) }, mtime: Time { sec: field_u64(fs, 12), nsec: field_u64(fs, 13) }, ctime: Time { sec: field_u64(fs, 14), nsec: field_u64(fs, 15) } } },
            26 => FCall::TSetAttr { fid: field_u32(fs, 0), valid: field_u32(fs, 1), stat: SetAttr { mode: field_u32(fs, 2), uid: field_u32(fs, 3), gid: field_u32(fs, 4), size: field_u64(fs, 5), atime: Time { sec: field_u64(fs, 6), nsec: field_u64(fs, 7) }, mtime: Time { sec: field_u64(fs, 8), nsec: field_u64(fs, 9) } } },
            27 => FCall::RSetAttr,
            30 => FCall::TxAttrWalk { fid: field_u32(fs, 0), newfid: field_u32(fs, 1), name: field_str(fs, 2) },
            31 => FCall::RxAttrWalk { size: field_u64(fs, 0) },
            32 => FCall::TxAttrCreate { fid: field_u32(fs, 0), name: field_str(fs, 1), attr_size: field_u64(fs, 2), flags: field_u32(fs, 3) },
            33 => FCall::RxAttrCreate,
            40 => FCall::TReadDir { fid: field_u32(fs, 0), offset: field_u64(fs, 1), count: field_u32(fs, 2) },
            41 => FCall::RReadDir { data: DirEntryData::with(field_dirents(fs, 0)) },
            50 => FCall::TFSync { fid: field_u32(fs, 0) },
            51 => FCall::RFSync,
            52 => FCall::TLock { fid: field_u32(fs, 0), flock: Flock { typ: field_u8(fs, 1), flags: field_u32(fs, 2), start: field_u64(fs, 3), length: field_u64(fs, 4), proc_id: field_u32(fs, 5), client_id: field_str(fs, 6) } },
            53 => FCall::RLock { status: field_u8(fs, 0) },
            54 => FCall::TGetLock { fid: field_u32(fs, 0), flock: Getlock { typ: field_u8(fs, 1), start: field_u64(fs, 2), length: field_u64(fs, 3), proc_id: field_u32(fs, 4), client_id: field_str(fs, 5) } },
            55 => FCall::RGetLock { flock: Getlock { typ: field_u8(fs, 0), start: field_u64(fs, 1), length: field_u64(fs, 2), proc_id: field_u32(fs, 3), client_id: field_str(fs, 4) } },
            70 => FCall::TLink { dfid: field_u32(fs, 0), fid: field_u32(fs, 1), name: field_str(fs, 2) },
            71 => FCall::RLink,
            72 => FCall::TMkDir { dfid: field_u32(fs, 0), name: field_str(fs, 1), mode: field_u32(fs, 2), gid: field_u32(fs, 3) },
            73 => FCall::RMkDir { qid: field_qid(fs, 0) },
            74 => FCall::TRenameAt { olddirfid: field_u32(fs, 0), oldname: field_str(fs, 1), newdirfid: field_u32(fs, 2), newname: field_str(fs, 3) },
            75 => FCall::RRenameAt,
            76 => FCall::TUnlinkAt { dirfd: field_u32(fs, 0), name: field_str(fs, 1), flags: field_u32(fs, 2) },
            77 => FCall::RUnlinkAt,
            100 => FCall::TVersion { msize: field_u32(fs, 0), version: field_str(fs, 1) },
            101 => FCall::RVersion { msize: field_u32(fs, 0), version: field_str(fs, 1) },
            102 => FCall::TAuth { afid: field_u32(fs, 0), uname: field_str(fs, 1), aname: field_str(fs, 2), n_uname: field_u32(fs, 3) },
            103 => FCall::RAuth { aqid: field_qid(fs, 0) },
            104 => FCall::TAttach { fid: field_u32(fs, 0), afid: field_u32(fs, 1), uname: field_str(fs, 2), aname: field_str(fs, 3), n_uname: field_u32(fs, 4) },
            105 => FCall::RAttach { qid: field_qid(fs, 0) },
            108 => FCall::TFlush { oldtag: field_u16(fs, 0) },
            109 => FCall::RFlush,
            110 => FCall::TWalk { fid: field_u32(fs, 0), newfid: field_u32(fs, 1), wnames: field_strs(fs, 2) },
            111 => FCall::RWalk { wqids: field_qids(fs, 0) },
            116 => FCall::TRead { fid: field_u32(fs, 0), offset: field_u64(fs, 1), count: field_u32(fs, 2) },
            117 => FCall::RRead { data: Data(field_data(fs, 0)) },
            118 => FCall::TWrite { fid: field_u32(fs, 0), offset: field_u64(fs, 1), data: Data(field_data(fs, 2)) },
            119 => FCall::RWrite { count: field_u32(fs, 0) },
            120 => FCall::TClunk { fid: field_u32(fs, 0) },
            121 => FCall::RClunk,
            122 => FCall::TRemove { fid: field_u32(fs, 0) },
            123 => FCall::RRemove,
            _ => FCall::RFlush,
        }
    }
}



// ---------------------------------------------------------------------------
// Messages and frames
// ---------------------------------------------------------------------------

/// Every message has a schema.
pub proof fn lemma_schema_of_msg(body: FCall)
    ensures
        spec_schema(body.spec_type()) is Some,
{
}

/// A message fits the wire: each field fits the kind its schema gives it.
pub open spec fn msg_fits(body: FCall) -> bool {
    fields_fit(body.spec_fields(), spec_schema(body.spec_type()).unwrap())
}

/// What a buffer holding exactly one message (without frame size) decodes
/// to: its type byte, tag and fields.
pub open spec fn spec_decode_msg(b: Seq<u8>) -> Option<(u8, u16, Seq<FieldV>)> {
    if b.len() < 3 {
        None
    } else {
        match spec_schema(b[0]) {
            None => None,
            Some(ks) => match parse_fields(ks, b.skip(3)) {
                Some((fs, n)) => if n == b.len() - 3 {
                    Some((b[0], spec_u16_from_le_bytes(b.subrange(1, 3)), fs))
                } else {
                    None
                },
                None => None,
            },
        }
    }
}

/// What a buffer holding exactly one frame decodes to.
pub open spec fn spec_decode_frame(b: Seq<u8>) -> Option<(u8, u16, Seq<FieldV>)> {
    if b.len() >= 4 && spec_u32_from_le_bytes(b.take(4)) as int == b.len() {
        spec_decode_msg(b.skip(4))
    } else {
        None
    }
}

pub proof fn lemma_parse_fields_len(ks: Seq<Kind>, s: Seq<u8>)
    ensures
        parse_fields(ks, s) is Some ==> parse_fields(ks, s).unwrap().1 <= s.len(),
    decreases ks.len(),
{
    if ks.len() > 0 {
        lemma_parse_field_len(ks[0], s);
        if let Some((f, n)) = parse_field(ks[0], s) {
            lemma_parse_fields_len(ks.drop_first(), s.skip(n as int));
        }
    }
}

/// The wire form of a message: type byte, tag, then its fields; or an
/// error when a field does not fit its length prefix.
pub fn encode_msg(msg: &Msg) -> (r: Result<Vec<u8>, ProtocolError>)
    ensures
        r is Ok <==> msg_fits(msg.body),
        match r {
            Ok(b) => b@ == msg_wire(msg.body.spec_type(), msg.tag, msg.body.spec_fields()),
            Err(_) => true,
        },
{
    let t = msg.body.msg_type();
    proof {
        lemma_schema_of_msg(msg.body);
    }
    let ks = match schema(t) {
        Some(ks) => ks,
        None => return Err(ProtocolError),
    };
    let fs = msg.body.to_fields();
    let mut out: Vec<u8> = Vec::new();
    put_u8(&mut out, t);
    put_u16(&mut out, msg.tag);
    match put_fields(&mut out, &fs, &ks) {
        Ok(()) => {},
        Err(e) => return Err(e),
    }
    proof {
        assert(out@ =~= msg_wire(msg.body.spec_type(), msg.tag, msg.body.spec_fields()));
    }
    Ok(out)
}

/// Decodes a buffer that holds exactly one message (without frame size).
pub fn decode_msg(buf: &[u8]) -> (r: Result<Msg, ProtocolError>)
    ensures
        match (r, spec_decode_msg(buf@)) {
            (Ok(m), Some((t, tag, fs))) => m.body.spec_type() == t && m.tag == tag
                && m.body.spec_fields() == fs,
            (Err(_), None) => true,
            _ => false,
        },
{
    let mut d = Decoder::new(slice_to_vec(buf));
    let t = d.read_u8()?;
    let tag = d.read_u16()?;
    proof {
        assert(buf@.skip(1).take(2) =~= buf@.subrange(1, 3));
        assert(d.rest() =~= buf@.skip(3));
    }
    let ks = match schema(t) {
        Some(ks) => ks,
        None => return Err(ProtocolError),
    };
    let fs = d.read_fields(&ks)?;
    proof {
        lemma_parse_fields_len(ks@, buf@.skip(3));
        lemma_parse_fields_shaped(ks@, buf@.skip(3));
    }
    if d.remaining() != 0 {
        return Err(ProtocolError);
    }
    let body = FCall::from_fields(t, &fs);
    Ok(Msg { tag, body })
}

/// Appends the wire form of a message (without frame size) and returns the
/// number of bytes written.
pub fn write_msg(w: &mut Vec<u8>, msg: &Msg) -> (r: Result<usize, ProtocolError>)
    ensures
        r is Ok <==> msg_fits(msg.body),
        match r {
            Ok(n) => final(w)@ == old(w)@ + msg_wire(msg.body.spec_type(), msg.tag, msg.body.spec_fields())
                && n == msg_wire(msg.body.spec_type(), msg.tag, msg.body.spec_fields()).len(),
            Err(_) => final(w)@ == old(w)@,
        },
{
    let mut b = encode_msg(msg)?;
    let n = b.len();
    w.append(&mut b);
    Ok(n)
}

/// Decodes a buffer that holds exactly one message (without frame size).
pub fn read_msg(buf: &[u8]) -> (r: Result<Msg, ProtocolError>)
    ensures
        match (r, spec_decode_msg(buf@)) {
            (Ok(m), Some((t, tag, fs))) => m.body.spec_type() == t && m.tag == tag
                && m.body.spec_fields() == fs,
            (Err(_), None) => true,
            _ => false,
        },
{
    decode_msg(buf)
}

/// A whole frame: the total size (including its own four bytes), then the
/// message. Fails when a field does not fit, or the frame would be larger
/// than a four-byte size can say.
pub fn encode_frame(msg: &Msg) -> (r: Result<Vec<u8>, ProtocolError>)
    ensures
        r is Ok <==> msg_fits(msg.body) && msg_wire(msg.body.spec_type(), msg.tag, msg.body.spec_fields()).len() + 4 <= u32::MAX,
        match r {
            Ok(b) => b@ == frame_wire(msg_wire(msg.body.spec_type(), msg.tag, msg.body.spec_fields())),
            Err(_) => true,
        },
{
    let body = encode_msg(msg)?;
    if body.len() as u64 > 0xffff_fffb {
        return Err(ProtocolError);
    }
    let mut out: Vec<u8> = Vec::new();
    put_u32(&mut out, (body.len() + 4) as u32);
    put_bytes(&mut out, body.as_slice());
    Ok(out)
}

/// Decodes a buffer that holds exactly one frame.
pub fn decode_frame(buf: &[u8]) -> (r: Result<Msg, ProtocolError>)
    ensures
        match (r, spec_decode_frame(buf@)) {
            (Ok(m), Some((t, tag, fs))) => m.body.spec_type() == t && m.tag == tag
                && m.body.spec_fields() == fs,
            (Err(_), None) => true,
            _ => false,
        },
{
    if buf.len() < 4 {
        return Err(ProtocolError);
    }
    let size = u32_from_le_bytes(slice_subrange(buf, 0, 4));
    proof {
        assert(buf@.subrange(0, 4) =~= buf@.take(4));
    }
    if size as usize != buf.len() {
        return Err(ProtocolError);
    }
    decode_msg(slice_subrange(buf, 4, buf.len()))
}

/// A buffer that collects encoded messages and counts the bytes it wrote.
pub struct Encoder {
    writer: Vec<u8>,
    bytes: usize,
}

impl Encoder {
    /// Everything in the buffer.
    pub closed spec fn written(&self) -> Seq<u8> {
        self.writer@
    }

    /// The bytes that this encoder wrote.
    pub closed spec fn count(&self) -> nat {
        self.bytes as nat
    }

    pub closed spec fn wf(&self) -> bool {
        self.bytes <= self.writer@.len()
    }

    /// An encoder that appends to `writer`.
    pub fn new(writer: Vec<u8>) -> (r: Encoder)
        ensures
            r.wf(),
            r.written() == writer@,
            r.count() == 0,
    {
        Encoder { writer, bytes: 0 }
    }

    /// Total bytes written.
    pub fn bytes_written(&self) -> (r: usize)
        ensures
            r == self.count(),
    {
        self.bytes
    }

    /// Appends a message (without frame size) and returns its length.
    pub fn encode(&mut self, msg: &Msg) -> (r: Result<usize, ProtocolError>)
        requires
            old(self).wf(),
        ensures
            final(self).wf(),
            r is Ok <==> msg_fits(msg.body),
            match r {
                Ok(n) => final(self).written() == old(self).written() + msg_wire(msg.body.spec_type(), msg.tag, msg.body.spec_fields())
                    && n == msg_wire(msg.body.spec_type(), msg.tag, msg.body.spec_fields()).len()
                    && final(self).count() == old(self).count() + n,
                Err(_) => final(self).written() == old(self).written() && final(self).count() == old(self).count(),
            },
    {
        let mut b = encode_msg(msg)?;
        let n = b.len();
        self.writer.append(&mut b);
        let total = self.writer.len();
        self.bytes = self.bytes + n;
        Ok(n)
    }

    /// The buffer back.
    pub fn into_inner(self) -> (r: Vec<u8>)
        ensures
            r@ == self.written(),
    {
        self.writer
    }
}

// ---------------------------------------------------------------------------
// Laws of the wire format
// ---------------------------------------------------------------------------

/// Decoding the encoding of a message whose fields fit gives back its type
/// byte, its tag and each of its fields.
pub proof fn lemma_msg_round_trip(m: Msg)
    requires
        msg_fits(m.body),
    ensures
        spec_decode_msg(msg_wire(m.body.spec_type(), m.tag, m.body.spec_fields()))
            == Some((m.body.spec_type(), m.tag, m.body.spec_fields())),
{
    let t = m.body.spec_type();
    let fs = m.body.spec_fields();
    let w = msg_wire(t, m.tag, fs);
    lemma_schema_of_msg(m.body);
    lemma_le_lengths(m.tag, 0, 0);
    lemma_auto_spec_u16_to_from_le_bytes();
    assert(w.subrange(1, 3) =~= le16(m.tag));
    assert(w.skip(3) =~= fields_wire(fs) + Seq::<u8>::empty());
    lemma_parse_fields(fs, spec_schema(t).unwrap(), Seq::<u8>::empty());
}

/// The same holds of whole frames.
pub proof fn lemma_frame_round_trip(m: Msg)
    requires
        msg_fits(m.body),
        msg_wire(m.body.spec_type(), m.tag, m.body.spec_fields()).len() + 4 <= u32::MAX,
    ensures
        spec_decode_frame(frame_wire(msg_wire(m.body.spec_type(), m.tag, m.body.spec_fields())))
            == Some((m.body.spec_type(), m.tag, m.body.spec_fields())),
{
    let body = msg_wire(m.body.spec_type(), m.tag, m.body.spec_fields());
    let f = frame_wire(body);
    lemma_frame_layout(m);
    lemma_le_lengths(0, (body.len() + 4) as u32, 0);
    assert(f.skip(4) =~= body);
    lemma_msg_round_trip(m);
}

/// In an encoded frame the first four bytes, little-endian, are the length
/// of the whole frame; the fifth byte is the type; the sixth and seventh,
/// little-endian, are the tag.
pub proof fn lemma_frame_layout(m: Msg)
    requires
        msg_wire(m.body.spec_type(), m.tag, m.body.spec_fields()).len() + 4 <= u32::MAX,
    ensures
        ({
            let f = frame_wire(msg_wire(m.body.spec_type(), m.tag, m.body.spec_fields()));
            &&& spec_u32_from_le_bytes(f.take(4)) as int == f.len()
            &&& f[4] == m.body.spec_type()
            &&& spec_u16_from_le_bytes(f.subrange(5, 7)) == m.tag
        }),
{
    let body = msg_wire(m.body.spec_type(), m.tag, m.body.spec_fields());
    let f = frame_wire(body);
    lemma_le_lengths(m.tag, (body.len() + 4) as u32, 0);
    lemma_auto_spec_u16_to_from_le_bytes();
    lemma_auto_spec_u32_to_from_le_bytes();
    assert(f.take(4) =~= le32((body.len() + 4) as u32));
    assert(f.subrange(5, 7) =~= le16(m.tag));
}

/// A bit set decodes to the bits of its mask that were sent: unknown bits
/// are dropped.
pub proof fn lemma_flags_truncated(v8: u8, m8: u8, v32: u32, m32: u32, v64: u64, m64: u64, t: Seq<u8>)
    ensures
        parse_field(Kind::Flags8(m8), seq![v8] + t) == Some((FieldV::U8(v8 & m8), 1nat)),
        parse_field(Kind::Flags32(m32), le32(v32) + t) == Some((FieldV::U32(v32 & m32), 4nat)),
        parse_field(Kind::Flags64(m64), le64(v64) + t) == Some((FieldV::U64(v64 & m64), 8nat)),
{
    lemma_parse_le(0, v32, v64, t);
    assert((seq![v8] + t)[0] == v8);
}

/// The reserved eight-byte fields are read whatever they hold.
pub proof fn lemma_reserved_ignored(v: u64, t: Seq<u8>)
    ensures
        parse_field(Kind::Zero64, le64(v) + t) == Some((FieldV::Zero64, 8nat)),
{
    lemma_le_lengths(0, 0, v);
}

} // verus!
