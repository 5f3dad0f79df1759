//! 9P2000.L message types and protocol constants.
use vstd::prelude::*;
use vstd::slice::slice_to_vec;
use vstd::utf8::encode_utf8;

use crate::serialize::{dirents_view, strings_view, FieldV};

verus! {

/// 9P2000 version string
pub const P92000: &'static str = "9P2000";

/// 9P2000.L version string
pub const P92000L: &'static str = "9P2000.L";

/// The version string that comes with RVersion when the server does not
/// understand the client's version string
pub const VERSION_UNKNOWN: &'static str = "unknown";

/// Special tag which `TVersion`/`RVersion` must use as `tag`
pub const NOTAG: u16 = 0xffff;

/// Special value which `TAttach` with no authentication uses as `afid`
pub const NOFID: u32 = 0xffff_ffff;

/// Special uid which `TAuth`/`TAttach` use as `n_uname` when no uid is given
pub const NONUNAME: u32 = 0xffff_ffff;

/// Room for the `TWrite`/`RRead` header:
/// size[4] type[1] tag[2] fid[4] offset[8] count[4]
pub const IOHDRSZ: u32 = 24;

/// Room for the readdir header
pub const READDIRHDRSZ: u32 = 24;

/// v9fs default port
pub const V9FS_PORT: u16 = 564;

// Bits of `QId.typ`.
/// Type bit for directories
pub const QT_DIR: u8 = 0x80;
/// Type bit for append only files
pub const QT_APPEND: u8 = 0x40;
/// Type bit for exclusive use files
pub const QT_EXCL: u8 = 0x20;
/// Type bit for mounted channel
pub const QT_MOUNT: u8 = 0x10;
/// Type bit for authentication file
pub const QT_AUTH: u8 = 0x08;
/// Type bit for not-backed-up file
pub const QT_TMP: u8 = 0x04;
/// Type bit for symbolic links
pub const QT_SYMLINK: u8 = 0x02;
/// Type bit for hard links
pub const QT_LINK: u8 = 0x01;
/// Plain file
pub const QT_FILE: u8 = 0x00;

// File lock types, `Flock.typ` and `Getlock.typ`.
pub const LOCK_TYPE_RDLOCK: u8 = 0;
pub const LOCK_TYPE_WRLOCK: u8 = 1;
pub const LOCK_TYPE_UNLOCK: u8 = 2;
/// Every bit that a lock type may hold
pub const LOCK_TYPE_ALL: u8 = 3;

// File lock flags, `Flock.flags`.
/// Blocking request
pub const LOCK_FLAG_BLOCK: u32 = 1;
/// Reserved for future use
pub const LOCK_FLAG_RECLAIM: u32 = 2;
/// Every bit that the lock flags may hold
pub const LOCK_FLAG_ALL: u32 = 3;

// File lock status, `RLock.status`.
pub const LOCK_STATUS_SUCCESS: u8 = 0;
pub const LOCK_STATUS_BLOCKED: u8 = 1;
pub const LOCK_STATUS_ERROR: u8 = 2;
pub const LOCK_STATUS_GRACE: u8 = 3;
/// Every bit that a lock status may hold
pub const LOCK_STATUS_ALL: u8 = 3;

// Bits in `req_mask` of `TGetAttr` and `valid` of `RGetAttr`.
pub const GETATTR_MODE: u64 = 0x0000_0001;
pub const GETATTR_NLINK: u64 = 0x0000_0002;
pub const GETATTR_UID: u64 = 0x0000_0004;
pub const GETATTR_GID: u64 = 0x0000_0008;
pub const GETATTR_RDEV: u64 = 0x0000_0010;
pub const GETATTR_ATIME: u64 = 0x0000_0020;
pub const GETATTR_MTIME: u64 = 0x0000_0040;
pub const GETATTR_CTIME: u64 = 0x0000_0080;
pub const GETATTR_INO: u64 = 0x0000_0100;
pub const GETATTR_SIZE: u64 = 0x0000_0200;
pub const GETATTR_BLOCKS: u64 = 0x0000_0400;
pub const GETATTR_BTIME: u64 = 0x0000_0800;
pub const GETATTR_GEN: u64 = 0x0000_1000;
pub const GETATTR_DATA_VERSION: u64 = 0x0000_2000;
/// Mask for the fields up to BLOCKS
pub const GETATTR_BASIC: u64 = 0x0000_07ff;
/// Mask for every field above
pub const GETATTR_ALL: u64 = 0x0000_3fff;

// Bits in `valid` of `TSetAttr`.
pub const SETATTR_MODE: u32 = 0x0000_0001;
pub const SETATTR_UID: u32 = 0x0000_0002;
pub const SETATTR_GID: u32 = 0x0000_0004;
pub const SETATTR_SIZE: u32 = 0x0000_0008;
pub const SETATTR_ATIME: u32 = 0x0000_0010;
pub const SETATTR_MTIME: u32 = 0x0000_0020;
pub const SETATTR_CTIME: u32 = 0x0000_0040;
pub const SETATTR_ATIME_SET: u32 = 0x0000_0080;
pub const SETATTR_MTIME_SET: u32 = 0x0000_0100;
/// Every bit that the setattr mask may hold
pub const SETATTR_ALL: u32 = 0x0000_01ff;

/// Server side identification of a file: its type bits, a version and a
/// path number unique in the hierarchy.
#[derive(Copy, Clone, Debug, Default, PartialEq, Eq)]
pub struct QId {
    /// Bits `QT_*`: directory, append-only file, and so on
    pub typ: u8,
    /// Version number for a file, typically incremented when it changes
    pub version: u32,
    /// An integer which is unique among all files in the hierarchy
    pub path: u64,
}

/// Number of bytes of a qid on the wire.
pub const QID_SIZE: u32 = 13;

impl QId {
    /// Size of the qid on the wire.
    pub fn size(&self) -> (r: u32)
        ensures
            r == QID_SIZE,
    {
        QID_SIZE
    }
}

/// Filesystem information corresponding to `struct statfs` of Linux.
#[derive(Copy, Clone, Debug, PartialEq, Eq)]
pub struct StatFs {
    /// Type of file system
    pub typ: u32,
    /// Optimal transfer block size
    pub bsize: u32,
    /// Total data blocks in file system
    pub blocks: u64,
    /// Free blocks in fs
    pub bfree: u64,
    /// Free blocks avail to non-superuser
    pub bavail: u64,
    /// Total file nodes in file system
    pub files: u64,
    /// Free file nodes in fs
    pub ffree: u64,
    /// Filesystem ID
    pub fsid: u64,
    /// Maximum length of filenames
    pub namelen: u32,
}

/// A point in time: seconds and nanoseconds.
#[derive(Copy, Clone, Debug, PartialEq, Eq)]
pub struct Time {
    pub sec: u64,
    pub nsec: u64,
}

/// File attributes corresponding to `struct stat` of Linux.
#[derive(Copy, Clone, Debug, PartialEq, Eq)]
pub struct Stat {
    /// Protection
    pub mode: u32,
    /// User ID of owner
    pub uid: u32,
    /// Group ID of owner
    pub gid: u32,
    /// Number of hard links
    pub nlink: u64,
    /// Device ID (if special file)
    pub rdev: u64,
    /// Total size, in bytes
    pub size: u64,
    /// Blocksize for file system I/O
    pub blksize: u64,
    /// Number of 512B blocks allocated
    pub blocks: u64,
    /// Time of last access
    pub atime: Time,
    /// Time of last modification
    pub mtime: Time,
    /// Time of last status change
    pub ctime: Time,
}

/// Subset of `Stat` used by `TSetAttr`.
#[derive(Copy, Clone, Debug, PartialEq, Eq)]
pub struct SetAttr {
    pub mode: u32,
    pub uid: u32,
    pub gid: u32,
    pub size: u64,
    pub atime: Time,
    pub mtime: Time,
}

/// Number of bytes that a 9P string of this text takes on the wire, without
/// its two-byte length prefix: its UTF-8 encoding.
pub open spec fn str_bytes(s: Seq<char>) -> Seq<u8> {
    encode_utf8(s)
}

/// Directory entry used in `RReadDir`.
#[derive(Clone, Debug, Default, PartialEq, Eq)]
pub struct DirEntry {
    /// QId for this entry
    pub qid: QId,
    /// The cookie of this entry, to resume reading after it
    pub offset: u64,
    /// Corresponds to `d_type` of `struct dirent`
    pub typ: u8,
    /// Directory name
    pub name: String,
}

impl DirEntry {
    /// Number of bytes this entry takes on the wire.
    pub open spec fn spec_size(&self) -> nat {
        (QID_SIZE + 8 + 1 + 2 + str_bytes(self.name@).len()) as nat
    }

    /// Size of the entry on the wire.
    pub fn size(&self) -> (r: u32)
        requires
            str_bytes(self.name@).len() <= 0xffff,
        ensures
            r == self.spec_size(),
    {
        let n: usize = self.name.as_str().len();
        QID_SIZE + 8 + 1 + 2 + n as u32
    }
}

/// Total wire size of a sequence of directory entries.
pub open spec fn dirents_size(s: Seq<DirEntry>) -> nat
    decreases s.len(),
{
    if s.len() == 0 {
        0
    } else {
        dirents_size(s.drop_last()) + s.last().spec_size()
    }
}

/// Directory entry array
#[derive(Clone, Debug, PartialEq, Eq)]
pub struct DirEntryData {
    pub data: Vec<DirEntry>,
}

impl DirEntryData {
    /// An empty array.
    pub fn new() -> (r: DirEntryData)
        ensures
            r.data@ == Seq::<DirEntry>::empty(),
    {
        Self::with(Vec::new())
    }

    /// An array holding the given entries.
    pub fn with(v: Vec<DirEntry>) -> (r: DirEntryData)
        ensures
            r.data@ == v@,
    {
        DirEntryData { data: v }
    }

    /// The entries.
    pub fn data(&self) -> (r: &[DirEntry])
        ensures
            r@ == self.data@,
    {
        self.data.as_slice()
    }

    /// Total size of the entries on the wire, without the length prefix.
    pub fn size(&self) -> (r: u32)
        requires
            dirents_size(self.data@) <= u32::MAX,
            forall|i: int| 0 <= i < self.data@.len() ==> str_bytes(#[trigger] self.data@[i].name@).len() <= 0xffff,
        ensures
            r == dirents_size(self.data@),
    {
        let mut total: u32 = 0;
        let mut i: usize = 0;
        while i < self.data.len()
            invariant
                i <= self.data@.len(),
                total == dirents_size(self.data@.take(i as int)),
                dirents_size(self.data@) <= u32::MAX,
                forall|j: int| 0 <= j < self.data@.len() ==> str_bytes(#[trigger] self.data@[j].name@).len() <= 0xffff,
            decreases self.data@.len() - i,
        {
            proof {
                assert(self.data@.take(i + 1).drop_last() == self.data@.take(i as int));
                lemma_dirents_size_prefix(self.data@, i + 1);
            }
            total = total + self.data[i].size();
            i = i + 1;
        }
        proof {
            assert(self.data@.take(i as int) == self.data@);
        }
        total
    }

    /// Appends an entry.
    pub fn push(&mut self, entry: DirEntry)
        ensures
            final(self).data@ == old(self).data@.push(entry),
    {
        self.data.push(entry);
    }
}

/// The size of a prefix is at most the size of the whole.
pub proof fn lemma_dirents_size_prefix(s: Seq<DirEntry>, n: int)
    requires
        0 <= n <= s.len(),
    ensures
        dirents_size(s.take(n)) <= dirents_size(s),
    decreases s.len(),
{
    if n < s.len() {
        assert(s.drop_last().take(n) == s.take(n));
        lemma_dirents_size_prefix(s.drop_last(), n);
    } else {
        assert(s.take(n) == s);
    }
}

impl Default for DirEntryData {
    fn default() -> (r: Self)
        ensures
            r.data@ == Seq::<DirEntry>::empty(),
    {
        Self::new()
    }
}

/// Data type used in `RRead` and `TWrite`
#[derive(Clone, Debug, PartialEq, Eq)]
pub struct Data(pub Vec<u8>);

/// Similar to Linux `struct flock`
#[derive(Clone, Debug, PartialEq, Eq)]
pub struct Flock {
    /// `LOCK_TYPE_*`
    pub typ: u8,
    /// `LOCK_FLAG_*` bits
    pub flags: u32,
    pub start: u64,
    pub length: u64,
    pub proc_id: u32,
    pub client_id: String,
}

/// Getlock structure
#[derive(Clone, Debug, PartialEq, Eq)]
pub struct Getlock {
    /// `LOCK_TYPE_*`
    pub typ: u8,
    pub start: u64,
    pub length: u64,
    pub proc_id: u32,
    pub client_id: String,
}

/// The 9P2000.L messages, one variant per operation and direction.
#[derive(Clone, Debug, PartialEq, Eq)]
pub enum FCall {
    RlError {
        ecode: u32,
    },
    TStatFs {
        fid: u32,
    },
    RStatFs {
        statfs: StatFs,
    },
    TlOpen {
        fid: u32,
        flags: u32,
    },
    RlOpen {
        qid: QId,
        iounit: u32,
    },
    TlCreate {
        fid: u32,
        name: String,
        flags: u32,
        mode: u32,
        gid: u32,
    },
    RlCreate {
        qid: QId,
        iounit: u32,
    },
    TSymlink {
        fid: u32,
        name: String,
        symtgt: String,
        gid: u32,
    },
    RSymlink {
        qid: QId,
    },
    TMkNod {
        dfid: u32,
        name: String,
        mode: u32,
        major: u32,
        minor: u32,
        gid: u32,
    },
    RMkNod {
        qid: QId,
    },
    TRename {
        fid: u32,
        dfid: u32,
        name: String,
    },
    RRename,
    TReadLink {
        fid: u32,
    },
    RReadLink {
        target: String,
    },
    TGetAttr {
        fid: u32,
        req_mask: u64,
    },
    RGetAttr {
        valid: u64,
        qid: QId,
        stat: Stat,
    },
    TSetAttr {
        fid: u32,
        valid: u32,
        stat: SetAttr,
    },
    RSetAttr,
    TxAttrWalk {
        fid: u32,
        newfid: u32,
        name: String,
    },
    RxAttrWalk {
        size: u64,
    },
    TxAttrCreate {
        fid: u32,
        name: String,
        attr_size: u64,
        flags: u32,
    },
    RxAttrCreate,
    TReadDir {
        fid: u32,
        offset: u64,
        count: u32,
    },
    RReadDir {
        data: DirEntryData,
    },
    TFSync {
        fid: u32,
    },
    RFSync,
    TLock {
        fid: u32,
        flock: Flock,
    },
    RLock {
        status: u8,
    },
    TGetLock {
        fid: u32,
        flock: Getlock,
    },
    RGetLock {
        flock: Getlock,
    },
    TLink {
        dfid: u32,
        fid: u32,
        name: String,
    },
    RLink,
    TMkDir {
        dfid: u32,
        name: String,
        mode: u32,
        gid: u32,
    },
    RMkDir {
        qid: QId,
    },
    TRenameAt {
        olddirfid: u32,
        oldname: String,
        newdirfid: u32,
        newname: String,
    },
    RRenameAt,
    TUnlinkAt {
        dirfd: u32,
        name: String,
        flags: u32,
    },
    RUnlinkAt,
    TVersion {
        msize: u32,
        version: String,
    },
    RVersion {
        msize: u32,
        version: String,
    },
    TAuth {
        afid: u32,
        uname: String,
        aname: String,
        n_uname: u32,
    },
    RAuth {
        aqid: QId,
    },
    TAttach {
        fid: u32,
        afid: u32,
        uname: String,
        aname: String,
        n_uname: u32,
    },
    RAttach {
        qid: QId,
    },
    TFlush {
        oldtag: u16,
    },
    RFlush,
    TWalk {
        fid: u32,
        newfid: u32,
        wnames: Vec<String>,
    },
    RWalk {
        wqids: Vec<QId>,
    },
    TRead {
        fid: u32,
        offset: u64,
        count: u32,
    },
    RRead {
        data: Data,
    },
    TWrite {
        fid: u32,
        offset: u64,
        data: Data,
    },
    RWrite {
        count: u32,
    },
    TClunk {
        fid: u32,
    },
    RClunk,
    TRemove {
        fid: u32,
    },
    RRemove,
}

/// Envelope of a 9P message
#[derive(Clone, Debug, PartialEq, Eq)]
pub struct Msg {
    /// Chosen by the client to identify the message; the reply carries the
    /// same tag
    pub tag: u16,
    /// The message itself
    pub body: FCall,
}

impl FCall {
    /// The type byte of the message on the wire.
    pub open spec fn spec_type(&self) -> u8 {
        match *self {
            FCall::RlError { .. } => 7,
            FCall::TStatFs { .. } => 8,
            FCall::RStatFs { .. } => 9,
            FCall::TlOpen { .. } => 12,
            FCall::RlOpen { .. } => 13,
            FCall::TlCreate { .. } => 14,
            FCall::RlCreate { .. } => 15,
            FCall::TSymlink { .. } => 16,
            FCall::RSymlink { .. } => 17,
            FCall::TMkNod { .. } => 18,
            FCall::RMkNod { .. } => 19,
            FCall::TRename { .. } => 20,
            FCall::RRename => 21,
            FCall::TReadLink { .. } => 22,
            FCall::RReadLink { .. } => 23,
            FCall::TGetAttr { .. } => 24,
            FCall::RGetAttr { .. } => 25,
            FCall::TSetAttr { .. } => 26,
            FCall::RSetAttr => 27,
            FCall::TxAttrWalk { .. } => 30,
            FCall::RxAttrWalk { .. } => 31,
            FCall::TxAttrCreate { .. } => 32,
            FCall::RxAttrCreate => 33,
            FCall::TReadDir { .. } => 40,
            FCall::RReadDir { .. } => 41,
            FCall::TFSync { .. } => 50,
            FCall::RFSync => 51,
            FCall::TLock { .. } => 52,
            FCall::RLock { .. } => 53,
            FCall::TGetLock { .. } => 54,
            FCall::RGetLock { .. } => 55,
            FCall::TLink { .. } => 70,
            FCall::RLink => 71,
            FCall::TMkDir { .. } => 72,
            FCall::RMkDir { .. } => 73,
            FCall::TRenameAt { .. } => 74,
            FCall::RRenameAt => 75,
            FCall::TUnlinkAt { .. } => 76,
            FCall::RUnlinkAt => 77,
            FCall::TVersion { .. } => 100,
            FCall::RVersion { .. } => 101,
            FCall::TAuth { .. } => 102,
            FCall::RAuth { .. } => 103,
            FCall::TAttach { .. } => 104,
            FCall::RAttach { .. } => 105,
            FCall::TFlush { .. } => 108,
            FCall::RFlush => 109,
            FCall::TWalk { .. } => 110,
            FCall::RWalk { .. } => 111,
            FCall::TRead { .. } => 116,
            FCall::RRead { .. } => 117,
            FCall::TWrite { .. } => 118,
            FCall::RWrite { .. } => 119,
            FCall::TClunk { .. } => 120,
            FCall::RClunk => 121,
            FCall::TRemove { .. } => 122,
            FCall::RRemove => 123,
        }
    }

    /// The fields of the message body, in wire order.
    pub open spec fn spec_fields(&self) -> Seq<FieldV> {
        match *self {
            FCall::RlError { ecode } => seq![FieldV::U32(ecode)],
            FCall::TStatFs { fid } => seq![FieldV::U32(fid)],
            FCall::RStatFs { statfs } => seq![FieldV::U32(statfs.typ), FieldV::U32(statfs.bsize), FieldV::U64(statfs.blocks), FieldV::U64(statfs.bfree), FieldV::U64(statfs.bavail), FieldV::U64(statfs.files), FieldV::U64(statfs.ffree), FieldV::U64(statfs.fsid), FieldV::U32(statfs.namelen)],
            FCall::TlOpen { fid, flags } => seq![FieldV::U32(fid), FieldV::U32(flags)],
            FCall::RlOpen { qid, iounit } => seq![FieldV::Qid(qid), FieldV::U32(iounit)],
            FCall::TlCreate { fid, name, flags, mode, gid } => seq![FieldV::U32(fid), FieldV::Str(name@), FieldV::U32(flags), FieldV::U32(mode), FieldV::U32(gid)],
            FCall::RlCreate { qid, iounit } => seq![FieldV::Qid(qid), FieldV::U32(iounit)],
            FCall::TSymlink { fid, name, symtgt, gid } => seq![FieldV::U32(fid), FieldV::Str(name@), FieldV::Str(symtgt@), FieldV::U32(gid)],
            FCall::RSymlink { qid } => seq![FieldV::Qid(qid)],
            FCall::TMkNod { dfid, name, mode, major, minor, gid } => seq![FieldV::U32(dfid), FieldV::Str(name@), FieldV::U32(mode), FieldV::U32(major), FieldV::U32(minor), FieldV::U32(gid)],
            FCall::RMkNod { qid } => seq![FieldV::Qid(qid)],
            FCall::TRename { fid, dfid, name } => seq![FieldV::U32(fid), FieldV::U32(dfid), FieldV::Str(name@)],
            FCall::RRename => Seq::empty(),
            FCall::TReadLink { fid } => seq![FieldV::U32(fid)],
            FCall::RReadLink { target } => seq![FieldV::Str(target@)],
            FCall::TGetAttr { fid, req_mask } => seq![FieldV::U32(fid), FieldV::U64(req_mask)],
            FCall::RGetAttr { valid, qid, stat } => seq![FieldV::U64(valid), FieldV::Qid(qid), FieldV::U32(stat.mode), FieldV::U32(stat.uid), FieldV::U32(stat.gid), FieldV::U64(stat.nlink), FieldV::U64(stat.rdev), FieldV::U64(stat.size), FieldV::U64(stat.blksize), FieldV::U64(stat.blocks), FieldV::U64(stat.atime.sec), FieldV::U64(stat.atime.nsec), FieldV::U64(stat.mtime.sec), FieldV::U64(stat.mtime.nsec), FieldV::U64(stat.ctime.sec), FieldV::U64(stat.ctime.nsec), FieldV::Zero64, FieldV::Zero64, FieldV::Zero64, FieldV::Zero64],
            FCall::TSetAttr { fid, valid, stat } => seq![FieldV::U32(fid), FieldV::U32(valid), FieldV::U32(stat.mode), FieldV::U32(stat.uid), FieldV::U32(stat.gid), FieldV::U64(stat.size), FieldV::U64(stat.atime.sec), FieldV::U64(stat.atime.nsec), FieldV::U64(stat.mtime.sec), FieldV::U64(stat.mtime.nsec)],
            FCall::RSetAttr => Seq::empty(),
            FCall::TxAttrWalk { fid, newfid, name } => seq![FieldV::U32(fid), FieldV::U32(newfid), FieldV::Str(name@)],
            FCall::RxAttrWalk { size } => seq![FieldV::U64(size)],
            FCall::TxAttrCreate { fid, name, attr_size, flags } => seq![FieldV::U32(fid), FieldV::Str(name@), FieldV::U64(attr_size), FieldV::U32(flags)],
            FCall::RxAttrCreate => Seq::empty(),
            FCall::TReadDir { fid, offset, count } => seq![FieldV::U32(fid), FieldV::U64(offset), FieldV::U32(count)],
            FCall::RReadDir { data } => seq![FieldV::Dirents(dirents_view(data.data@))],
            FCall::TFSync { fid } => seq![FieldV::U32(fid)],
            FCall::RFSync => Seq::empty(),
            FCall::TLock { fid, flock } => seq![FieldV::U32(fid), FieldV::U8(flock.typ), FieldV::U32(flock.flags), FieldV::U64(flock.start), FieldV::U64(flock.length), FieldV::U32(flock.proc_id), FieldV::Str(flock.client_id@)],
            FCall::RLock { status } => seq![FieldV::U8(status)],
            FCall::TGetLock { fid, flock } => seq![FieldV::U32(fid), FieldV::U8(flock.typ), FieldV::U64(flock.start), FieldV::U64(flock.length), FieldV::U32(flock.proc_id), FieldV::Str(flock.client_id@)],
            FCall::RGetLock { flock } => seq![FieldV::U8(flock.typ), FieldV::U64(flock.start), FieldV::U64(flock.length), FieldV::U32(flock.proc_id), FieldV::Str(flock.client_id@)],
            FCall::TLink { dfid, fid, name } => seq![FieldV::U32(dfid), FieldV::U32(fid), FieldV::Str(name@)],
            FCall::RLink => Seq::empty(),
            FCall::TMkDir { dfid, name, mode, gid } => seq![FieldV::U32(dfid), FieldV::Str(name@), FieldV::U32(mode), FieldV::U32(gid)],
            FCall::RMkDir { qid } => seq![FieldV::Qid(qid)],
            FCall::TRenameAt { olddirfid, oldname, newdirfid, newname } => seq![FieldV::U32(olddirfid), FieldV::Str(oldname@), FieldV::U32(newdirfid), FieldV::Str(newname@)],
            FCall::RRenameAt => Seq::empty(),
            FCall::TUnlinkAt { dirfd, name, flags } => seq![FieldV::U32(dirfd), FieldV::Str(name@), FieldV::U32(flags)],
            FCall::RUnlinkAt => Seq::empty(),
            FCall::TVersion { msize, version } => seq![FieldV::U32(msize), FieldV::Str(version@)],
            FCall::RVersion { msize, version } => seq![FieldV::U32(msize), FieldV::Str(version@)],
            FCall::TAuth { afid, uname, aname, n_uname } => seq![FieldV::U32(afid), FieldV::Str(uname@), FieldV::Str(aname@), FieldV::U32(n_uname)],
            FCall::RAuth { aqid } => seq![FieldV::Qid(aqid)],
            FCall::TAttach { fid, afid, uname, aname, n_uname } => seq![FieldV::U32(fid), FieldV::U32(afid), FieldV::Str(uname@), FieldV::Str(aname@), FieldV::U32(n_uname)],
            FCall::RAttach { qid } => seq![FieldV::Qid(qid)],
            FCall::TFlush { oldtag } => seq![FieldV::U16(oldtag)],
            FCall::RFlush => Seq::empty(),
            FCall::TWalk { fid, newfid, wnames } => seq![FieldV::U32(fid), FieldV::U32(newfid), FieldV::Strs(strings_view(wnames@))],
            FCall::RWalk { wqids } => seq![FieldV::Qids(wqids@)],
            FCall::TRead { fid, offset, count } => seq![FieldV::U32(fid), FieldV::U64(offset), FieldV::U32(count)],
            FCall::RRead { data } => seq![FieldV::Data(data.0@)],
            FCall::TWrite { fid, offset, data } => seq![FieldV::U32(fid), FieldV::U64(offset), FieldV::Data(data.0@)],
            FCall::RWrite { count } => seq![FieldV::U32(count)],
            FCall::TClunk { fid } => seq![FieldV::U32(fid)],
            FCall::RClunk => Seq::empty(),
            FCall::TRemove { fid } => seq![FieldV::U32(fid)],
            FCall::RRemove => Seq::empty(),
        }
    }

    /// The type byte of the message on the wire.
    pub fn msg_type(&self) -> (r: u8)
        ensures
            r == self.spec_type(),
    {
        match self {
            FCall::RlError { .. } => 7,
            FCall::TStatFs { .. } => 8,
            FCall::RStatFs { .. } => 9,
            FCall::TlOpen { .. } => 12,
            FCall::RlOpen { .. } => 13,
            FCall::TlCreate { .. } => 14,
            FCall::RlCreate { .. } => 15,
            FCall::TSymlink { .. } => 16,
            FCall::RSymlink { .. } => 17,
            FCall::TMkNod { .. } => 18,
            FCall::RMkNod { .. } => 19,
            FCall::TRename { .. } => 20,
            FCall::RRename => 21,
            FCall::TReadLink { .. } => 22,
            FCall::RReadLink { .. } => 23,
            FCall::TGetAttr { .. } => 24,
            FCall::RGetAttr { .. } => 25,
            FCall::TSetAttr { .. } => 26,
            FCall::RSetAttr => 27,
            FCall::TxAttrWalk { .. } => 30,
            FCall::RxAttrWalk { .. } => 31,
            FCall::TxAttrCreate { .. } => 32,
            FCall::RxAttrCreate => 33,
            FCall::TReadDir { .. } => 40,
            FCall::RReadDir { .. } => 41,
            FCall::TFSync { .. } => 50,
            FCall::RFSync => 51,
            FCall::TLock { .. } => 52,
            FCall::RLock { .. } => 53,
            FCall::TGetLock { .. } => 54,
            FCall::RGetLock { .. } => 55,
            FCall::TLink { .. } => 70,
            FCall::RLink => 71,
            FCall::TMkDir { .. } => 72,
            FCall::RMkDir { .. } => 73,
            FCall::TRenameAt { .. } => 74,
            FCall::RRenameAt => 75,
            FCall::TUnlinkAt { .. } => 76,
            FCall::RUnlinkAt => 77,
            FCall::TVersion { .. } => 100,
            FCall::RVersion { .. } => 101,
            FCall::TAuth { .. } => 102,
            FCall::RAuth { .. } => 103,
            FCall::TAttach { .. } => 104,
            FCall::RAttach { .. } => 105,
            FCall::TFlush { .. } => 108,
            FCall::RFlush => 109,
            FCall::TWalk { .. } => 110,
            FCall::RWalk { .. } => 111,
            FCall::TRead { .. } => 116,
            FCall::RRead { .. } => 117,
            FCall::TWrite { .. } => 118,
            FCall::RWrite { .. } => 119,
            FCall::TClunk { .. } => 120,
            FCall::RClunk => 121,
            FCall::TRemove { .. } => 122,
            FCall::RRemove => 123,
        }
    }

    /// The fids that a request names and that must already be known: its
    /// input fids. The new fid it introduces is not among them, nor is the
    /// auth fid of an attach, which a backend may use if it is known.
    pub open spec fn spec_fids(&self) -> Seq<u32> {
        match *self {
            FCall::TStatFs { fid, .. } => seq![fid],
            FCall::TlOpen { fid, .. } => seq![fid],
            FCall::TlCreate { fid, .. } => seq![fid],
            FCall::TSymlink { fid, .. } => seq![fid],
            FCall::TMkNod { dfid, .. } => seq![dfid],
            FCall::TRename { fid, dfid, .. } => seq![fid, dfid],
            FCall::TReadLink { fid, .. } => seq![fid],
            FCall::TGetAttr { fid, .. } => seq![fid],
            FCall::TSetAttr { fid, .. } => seq![fid],
            FCall::TxAttrWalk { fid, .. } => seq![fid],
            FCall::TxAttrCreate { fid, .. } => seq![fid],
            FCall::TReadDir { fid, .. } => seq![fid],
            FCall::TFSync { fid, .. } => seq![fid],
            FCall::TLock { fid, .. } => seq![fid],
            FCall::TGetLock { fid, .. } => seq![fid],
            FCall::TLink { dfid, fid, .. } => seq![dfid, fid],
            FCall::TMkDir { dfid, .. } => seq![dfid],
            FCall::TRenameAt { olddirfid, newdirfid, .. } => seq![olddirfid, newdirfid],
            FCall::TUnlinkAt { dirfd, .. } => seq![dirfd],
            FCall::TWalk { fid, .. } => seq![fid],
            FCall::TRead { fid, .. } => seq![fid],
            FCall::TWrite { fid, .. } => seq![fid],
            FCall::TClunk { fid, .. } => seq![fid],
            FCall::TRemove { fid, .. } => seq![fid],
            _ => Seq::empty(),
        }
    }

    /// The fids that a request names and that must already be known.
    pub fn fids(&self) -> (r: Vec<u32>)
        ensures
            r@ == self.spec_fids(),
    {
        match self {
            FCall::TStatFs { fid, .. } => vec![*fid],
            FCall::TlOpen { fid, .. } => vec![*fid],
            FCall::TlCreate { fid, .. } => vec![*fid],
            FCall::TSymlink { fid, .. } => vec![*fid],
            FCall::TMkNod { dfid, .. } => vec![*dfid],
            FCall::TRename { fid, dfid, .. } => vec![*fid, *dfid],
            FCall::TReadLink { fid, .. } => vec![*fid],
            FCall::TGetAttr { fid, .. } => vec![*fid],
            FCall::TSetAttr { fid, .. } => vec![*fid],
            FCall::TxAttrWalk { fid, .. } => vec![*fid],
            FCall::TxAttrCreate { fid, .. } => vec![*fid],
            FCall::TReadDir { fid, .. } => vec![*fid],
            FCall::TFSync { fid, .. } => vec![*fid],
            FCall::TLock { fid, .. } => vec![*fid],
            FCall::TGetLock { fid, .. } => vec![*fid],
            FCall::TLink { dfid, fid, .. } => vec![*dfid, *fid],
            FCall::TMkDir { dfid, .. } => vec![*dfid],
            FCall::TRenameAt { olddirfid, newdirfid, .. } => vec![*olddirfid, *newdirfid],
            FCall::TUnlinkAt { dirfd, .. } => vec![*dirfd],
            FCall::TWalk { fid, .. } => vec![*fid],
            FCall::TRead { fid, .. } => vec![*fid],
            FCall::TWrite { fid, .. } => vec![*fid],
            FCall::TClunk { fid, .. } => vec![*fid],
            FCall::TRemove { fid, .. } => vec![*fid],
            _ => Vec::new(),
        }
    }

    /// The new fid that a request introduces, if any.
    pub open spec fn spec_newfid(&self) -> Option<u32> {
        match *self {
            FCall::TxAttrWalk { newfid, .. } => Some(newfid),
            FCall::TAuth { afid, .. } => Some(afid),
            FCall::TAttach { fid, .. } => Some(fid),
            FCall::TWalk { newfid, .. } => Some(newfid),
            _ => None,
        }
    }

    /// The new fid that a request introduces, if any.
    pub fn newfid(&self) -> (r: Option<u32>)
        ensures
            r == self.spec_newfid(),
    {
        match self {
            FCall::TxAttrWalk { newfid, .. } => Some(*newfid),
            FCall::TAuth { afid, .. } => Some(*afid),
            FCall::TAttach { fid, .. } => Some(*fid),
            FCall::TWalk { newfid, .. } => Some(*newfid),
            _ => None,
        }
    }

    /// The qids that a reply carries.
    pub open spec fn spec_qids(&self) -> Seq<QId> {
        match *self {
            FCall::RlOpen { qid, .. } => seq![qid],
            FCall::RlCreate { qid, .. } => seq![qid],
            FCall::RSymlink { qid, .. } => seq![qid],
            FCall::RMkNod { qid, .. } => seq![qid],
            FCall::RGetAttr { qid, .. } => seq![qid],
            FCall::RMkDir { qid, .. } => seq![qid],
            FCall::RAuth { aqid, .. } => seq![aqid],
            FCall::RAttach { qid, .. } => seq![qid],
            FCall::RWalk { ref wqids } => wqids@,
            _ => Seq::empty(),
        }
    }

    /// The qids that a reply carries.
    pub fn qids(&self) -> (r: Vec<QId>)
        ensures
            r@ == self.spec_qids(),
    {
        match self {
            FCall::RlOpen { qid, .. } => vec![*qid],
            FCall::RlCreate { qid, .. } => vec![*qid],
            FCall::RSymlink { qid, .. } => vec![*qid],
            FCall::RMkNod { qid, .. } => vec![*qid],
            FCall::RGetAttr { qid, .. } => vec![*qid],
            FCall::RMkDir { qid, .. } => vec![*qid],
            FCall::RAuth { aqid, .. } => vec![*aqid],
            FCall::RAttach { qid, .. } => vec![*qid],
            FCall::RWalk { wqids } => slice_to_vec(wqids.as_slice()),
            _ => Vec::new(),
        }
    }

    /// Whether the message is a reply: reply types are the odd ones.
    pub open spec fn spec_is_r(&self) -> bool {
        self.spec_type() % 2 == 1
    }
}


/// Message type, 9P operations. `TlError` is reserved and never used.
#[derive(Copy, Clone, Debug, PartialEq, Eq)]
pub enum MsgType {
    TlError,
    RlError,
    TStatFs,
    RStatFs,
    TlOpen,
    RlOpen,
    TlCreate,
    RlCreate,
    TSymlink,
    RSymlink,
    TMkNod,
    RMkNod,
    TRename,
    RRename,
    TReadLink,
    RReadLink,
    TGetAttr,
    RGetAttr,
    TSetAttr,
    RSetAttr,
    TxAttrWalk,
    RxAttrWalk,
    TxAttrCreate,
    RxAttrCreate,
    TReadDir,
    RReadDir,
    TFSync,
    RFSync,
    TLock,
    RLock,
    TGetLock,
    RGetLock,
    TLink,
    RLink,
    TMkDir,
    RMkDir,
    TRenameAt,
    RRenameAt,
    TUnlinkAt,
    RUnlinkAt,
    TVersion,
    RVersion,
    TAuth,
    RAuth,
    TAttach,
    RAttach,
    TFlush,
    RFlush,
    TWalk,
    RWalk,
    TRead,
    RRead,
    TWrite,
    RWrite,
    TClunk,
    RClunk,
    TRemove,
    RRemove,
}

impl MsgType {
    /// The type byte on the wire.
    pub open spec fn spec_code(&self) -> u8 {
        match *self {
            MsgType::TlError => 6,
            MsgType::RlError => 7,
            MsgType::TStatFs => 8,
            MsgType::RStatFs => 9,
            MsgType::TlOpen => 12,
            MsgType::RlOpen => 13,
            MsgType::TlCreate => 14,
            MsgType::RlCreate => 15,
            MsgType::TSymlink => 16,
            MsgType::RSymlink => 17,
            MsgType::TMkNod => 18,
            MsgType::RMkNod => 19,
            MsgType::TRename => 20,
            MsgType::RRename => 21,
            MsgType::TReadLink => 22,
            MsgType::RReadLink => 23,
            MsgType::TGetAttr => 24,
            MsgType::RGetAttr => 25,
            MsgType::TSetAttr => 26,
            MsgType::RSetAttr => 27,
            MsgType::TxAttrWalk => 30,
            MsgType::RxAttrWalk => 31,
            MsgType::TxAttrCreate => 32,
            MsgType::RxAttrCreate => 33,
            MsgType::TReadDir => 40,
            MsgType::RReadDir => 41,
            MsgType::TFSync => 50,
            MsgType::RFSync => 51,
            MsgType::TLock => 52,
            MsgType::RLock => 53,
            MsgType::TGetLock => 54,
            MsgType::RGetLock => 55,
            MsgType::TLink => 70,
            MsgType::RLink => 71,
            MsgType::TMkDir => 72,
            MsgType::RMkDir => 73,
            MsgType::TRenameAt => 74,
            MsgType::RRenameAt => 75,
            MsgType::TUnlinkAt => 76,
            MsgType::RUnlinkAt => 77,
            MsgType::TVersion => 100,
            MsgType::RVersion => 101,
            MsgType::TAuth => 102,
            MsgType::RAuth => 103,
            MsgType::TAttach => 104,
            MsgType::RAttach => 105,
            MsgType::TFlush => 108,
            MsgType::RFlush => 109,
            MsgType::TWalk => 110,
            MsgType::RWalk => 111,
            MsgType::TRead => 116,
            MsgType::RRead => 117,
            MsgType::TWrite => 118,
            MsgType::RWrite => 119,
            MsgType::TClunk => 120,
            MsgType::RClunk => 121,
            MsgType::TRemove => 122,
            MsgType::RRemove => 123,
        }
    }

    /// The type byte on the wire.
    pub fn code(&self) -> (r: u8)
        ensures
            r == self.spec_code(),
    {
        match self {
            MsgType::TlError => 6,
            MsgType::RlError => 7,
            MsgType::TStatFs => 8,
            MsgType::RStatFs => 9,
            MsgType::TlOpen => 12,
            MsgType::RlOpen => 13,
            MsgType::TlCreate => 14,
            MsgType::RlCreate => 15,
            MsgType::TSymlink => 16,
            MsgType::RSymlink => 17,
            MsgType::TMkNod => 18,
            MsgType::RMkNod => 19,
            MsgType::TRename => 20,
            MsgType::RRename => 21,
            MsgType::TReadLink => 22,
            MsgType::RReadLink => 23,
            MsgType::TGetAttr => 24,
            MsgType::RGetAttr => 25,
            MsgType::TSetAttr => 26,
            MsgType::RSetAttr => 27,
            MsgType::TxAttrWalk => 30,
            MsgType::RxAttrWalk => 31,
            MsgType::TxAttrCreate => 32,
            MsgType::RxAttrCreate => 33,
            MsgType::TReadDir => 40,
            MsgType::RReadDir => 41,
            MsgType::TFSync => 50,
            MsgType::RFSync => 51,
            MsgType::TLock => 52,
            MsgType::RLock => 53,
            MsgType::TGetLock => 54,
            MsgType::RGetLock => 55,
            MsgType::TLink => 70,
            MsgType::RLink => 71,
            MsgType::TMkDir => 72,
            MsgType::RMkDir => 73,
            MsgType::TRenameAt => 74,
            MsgType::RRenameAt => 75,
            MsgType::TUnlinkAt => 76,
            MsgType::RUnlinkAt => 77,
            MsgType::TVersion => 100,
            MsgType::RVersion => 101,
            MsgType::TAuth => 102,
            MsgType::RAuth => 103,
            MsgType::TAttach => 104,
            MsgType::RAttach => 105,
            MsgType::TFlush => 108,
            MsgType::RFlush => 109,
            MsgType::TWalk => 110,
            MsgType::RWalk => 111,
            MsgType::TRead => 116,
            MsgType::RRead => 117,
            MsgType::TWrite => 118,
            MsgType::RWrite => 119,
            MsgType::TClunk => 120,
            MsgType::RClunk => 121,
            MsgType::TRemove => 122,
            MsgType::RRemove => 123,
        }
    }

    /// The message type of a type byte, if it names one.
    pub fn from_u8(t: u8) -> (r: Option<MsgType>)
        ensures
            match r {
                Some(m) => m.spec_code() == t,
                None => forall|m: MsgType| m.spec_code() != t,
            },
    {
        match t {
            6 => Some(MsgType::TlError),
            7 => Some(MsgType::RlError),
            8 => Some(MsgType::TStatFs),
            9 => Some(MsgType::RStatFs),
            12 => Some(MsgType::TlOpen),
            13 => Some(MsgType::RlOpen),
            14 => Some(MsgType::TlCreate),
            15 => Some(MsgType::RlCreate),
            16 => Some(MsgType::TSymlink),
            17 => Some(MsgType::RSymlink),
            18 => Some(MsgType::TMkNod),
            19 => Some(MsgType::RMkNod),
            20 => Some(MsgType::TRename),
            21 => Some(MsgType::RRename),
            22 => Some(MsgType::TReadLink),
            23 => Some(MsgType::RReadLink),
            24 => Some(MsgType::TGetAttr),
            25 => Some(MsgType::RGetAttr),
            26 => Some(MsgType::TSetAttr),
            27 => Some(MsgType::RSetAttr),
            30 => Some(MsgType::TxAttrWalk),
            31 => Some(MsgType::RxAttrWalk),
            32 => Some(MsgType::TxAttrCreate),
            33 => Some(MsgType::RxAttrCreate),
            40 => Some(MsgType::TReadDir),
            41 => Some(MsgType::RReadDir),
            50 => Some(MsgType::TFSync),
            51 => Some(MsgType::RFSync),
            52 => Some(MsgType::TLock),
            53 => Some(MsgType::RLock),
            54 => Some(MsgType::TGetLock),
            55 => Some(MsgType::RGetLock),
            70 => Some(MsgType::TLink),
            71 => Some(MsgType::RLink),
            72 => Some(MsgType::TMkDir),
            73 => Some(MsgType::RMkDir),
            74 => Some(MsgType::TRenameAt),
            75 => Some(MsgType::RRenameAt),
            76 => Some(MsgType::TUnlinkAt),
            77 => Some(MsgType::RUnlinkAt),
            100 => Some(MsgType::TVersion),
            101 => Some(MsgType::RVersion),
            102 => Some(MsgType::TAuth),
            103 => Some(MsgType::RAuth),
            104 => Some(MsgType::TAttach),
            105 => Some(MsgType::RAttach),
            108 => Some(MsgType::TFlush),
            109 => Some(MsgType::RFlush),
            110 => Some(MsgType::TWalk),
            111 => Some(MsgType::RWalk),
            116 => Some(MsgType::TRead),
            117 => Some(MsgType::RRead),
            118 => Some(MsgType::TWrite),
            119 => Some(MsgType::RWrite),
            120 => Some(MsgType::TClunk),
            121 => Some(MsgType::RClunk),
            122 => Some(MsgType::TRemove),
            123 => Some(MsgType::RRemove),
            _ => None,
        }
    }

    /// The type of a message.
    pub fn of(fcall: &FCall) -> (r: MsgType)
        ensures
            r.spec_code() == fcall.spec_type(),
    {
        match fcall {
            FCall::RlError { .. } => MsgType::RlError,
            FCall::TStatFs { .. } => MsgType::TStatFs,
            FCall::RStatFs { .. } => MsgType::RStatFs,
            FCall::TlOpen { .. } => MsgType::TlOpen,
            FCall::RlOpen { .. } => MsgType::RlOpen,
            FCall::TlCreate { .. } => MsgType::TlCreate,
            FCall::RlCreate { .. } => MsgType::RlCreate,
            FCall::TSymlink { .. } => MsgType::TSymlink,
            FCall::RSymlink { .. } => MsgType::RSymlink,
            FCall::TMkNod { .. } => MsgType::TMkNod,
            FCall::RMkNod { .. } => MsgType::RMkNod,
            FCall::TRename { .. } => MsgType::TRename,
            FCall::RRename => MsgType::RRename,
            FCall::TReadLink { .. } => MsgType::TReadLink,
            FCall::RReadLink { .. } => MsgType::RReadLink,
            FCall::TGetAttr { .. } => MsgType::TGetAttr,
            FCall::RGetAttr { .. } => MsgType::RGetAttr,
            FCall::TSetAttr { .. } => MsgType::TSetAttr,
            FCall::RSetAttr => MsgType::RSetAttr,
            FCall::TxAttrWalk { .. } => MsgType::TxAttrWalk,
            FCall::RxAttrWalk { .. } => MsgType::RxAttrWalk,
            FCall::TxAttrCreate { .. } => MsgType::TxAttrCreate,
            FCall::RxAttrCreate => MsgType::RxAttrCreate,
            FCall::TReadDir { .. } => MsgType::TReadDir,
            FCall::RReadDir { .. } => MsgType::RReadDir,
            FCall::TFSync { .. } => MsgType::TFSync,
            FCall::RFSync => MsgType::RFSync,
            FCall::TLock { .. } => MsgType::TLock,
            FCall::RLock { .. } => MsgType::RLock,
            FCall::TGetLock { .. } => MsgType::TGetLock,
            FCall::RGetLock { .. } => MsgType::RGetLock,
            FCall::TLink { .. } => MsgType::TLink,
            FCall::RLink => MsgType::RLink,
            FCall::TMkDir { .. } => MsgType::TMkDir,
            FCall::RMkDir { .. } => MsgType::RMkDir,
            FCall::TRenameAt { .. } => MsgType::TRenameAt,
            FCall::RRenameAt => MsgType::RRenameAt,
            FCall::TUnlinkAt { .. } => MsgType::TUnlinkAt,
            FCall::RUnlinkAt => MsgType::RUnlinkAt,
            FCall::TVersion { .. } => MsgType::TVersion,
            FCall::RVersion { .. } => MsgType::RVersion,
            FCall::TAuth { .. } => MsgType::TAuth,
            FCall::RAuth { .. } => MsgType::RAuth,
            FCall::TAttach { .. } => MsgType::TAttach,
            FCall::RAttach { .. } => MsgType::RAttach,
            FCall::TFlush { .. } => MsgType::TFlush,
            FCall::RFlush => MsgType::RFlush,
            FCall::TWalk { .. } => MsgType::TWalk,
            FCall::RWalk { .. } => MsgType::RWalk,
            FCall::TRead { .. } => MsgType::TRead,
            FCall::RRead { .. } => MsgType::RRead,
            FCall::TWrite { .. } => MsgType::TWrite,
            FCall::RWrite { .. } => MsgType::RWrite,
            FCall::TClunk { .. } => MsgType::TClunk,
            FCall::RClunk => MsgType::RClunk,
            FCall::TRemove { .. } => MsgType::TRemove,
            FCall::RRemove => MsgType::RRemove,
        }
    }

    /// If the message type is an R-message: reply types are the odd ones.
    pub fn is_r(&self) -> (r: bool)
        ensures
            r == (self.spec_code() % 2 == 1),
    {
        self.code() % 2 == 1
    }

    /// If the message type is a T-message.
    pub fn is_t(&self) -> (r: bool)
        ensures
            r == (self.spec_code() % 2 == 0),
    {
        !self.is_r()
    }
}


} // verus!
