use rs9p::fcall::{
    Data, DirEntry, DirEntryData, FCall, Flock, Getlock, Msg, MsgType, QId, SetAttr, Stat, StatFs, Time,
    GETATTR_ALL, GETATTR_BASIC, LOCK_FLAG_BLOCK, LOCK_STATUS_GRACE, LOCK_TYPE_WRLOCK, NOTAG,
    P92000L, QT_DIR, SETATTR_ALL,
};
use rs9p::serialize::{
    decode_frame, decode_msg, encode_frame, encode_msg, put_field, read_msg, write_msg, Decoder,
    Encoder, Field, Kind, ProtocolError,
};

fn qid(n: u64) -> QId {
    QId { typ: QT_DIR, version: 3, path: n }
}

fn time(s: u64) -> Time {
    Time { sec: s, nsec: s + 1 }
}

fn every_message() -> Vec<FCall> {
    let stat = Stat {
        mode: 0o40755,
        uid: 1000,
        gid: 100,
        nlink: 2,
        rdev: 0,
        size: 4096,
        blksize: 512,
        blocks: 8,
        atime: time(1),
        mtime: time(2),
        ctime: time(3),
    };
    let flock = Flock {
        typ: LOCK_TYPE_WRLOCK,
        flags: LOCK_FLAG_BLOCK,
        start: 10,
        length: 20,
        proc_id: 42,
        client_id: "client".to_string(),
    };
    let getlock = Getlock { typ: LOCK_TYPE_WRLOCK, start: 1, length: 2, proc_id: 3, client_id: "c".to_string() };
    let dirents = DirEntryData::with(vec![
        DirEntry { qid: qid(1), offset: 0, typ: 4, name: ".".to_string() },
        DirEntry { qid: qid(2), offset: 1, typ: 4, name: "..".to_string() },
        DirEntry { qid: qid(3), offset: 2, typ: 8, name: "hostname".to_string() },
    ]);
    vec![
        FCall::RlError { ecode: 2 },
        FCall::TStatFs { fid: 1 },
        FCall::RStatFs {
            statfs: StatFs { typ: 1, bsize: 2, blocks: 3, bfree: 4, bavail: 5, files: 6, ffree: 7, fsid: 8, namelen: 255 },
        },
        FCall::TlOpen { fid: 1, flags: 2 },
        FCall::RlOpen { qid: qid(4), iounit: 0 },
        FCall::TlCreate { fid: 1, name: "new".to_string(), flags: 3, mode: 0o644, gid: 100 },
        FCall::RlCreate { qid: qid(5), iounit: 8192 },
        FCall::TSymlink { fid: 1, name: "ln".to_string(), symtgt: "target".to_string(), gid: 5 },
        FCall::RSymlink { qid: qid(6) },
        FCall::TMkNod { dfid: 1, name: "dev".to_string(), mode: 1, major: 2, minor: 3, gid: 4 },
        FCall::RMkNod { qid: qid(7) },
        FCall::TRename { fid: 1, dfid: 2, name: "renamed".to_string() },
        FCall::RRename,
        FCall::TReadLink { fid: 9 },
        FCall::RReadLink { target: "/etc/hostname".to_string() },
        FCall::TGetAttr { fid: 1, req_mask: GETATTR_BASIC },
        FCall::RGetAttr { valid: GETATTR_ALL, qid: qid(8), stat },
        FCall::TSetAttr {
            fid: 1,
            valid: SETATTR_ALL,
            stat: SetAttr { mode: 1, uid: 2, gid: 3, size: 4, atime: time(5), mtime: time(6) },
        },
        FCall::RSetAttr,
        FCall::TxAttrWalk { fid: 1, newfid: 2, name: "user.x".to_string() },
        FCall::RxAttrWalk { size: 77 },
        FCall::TxAttrCreate { fid: 1, name: "user.y".to_string(), attr_size: 5, flags: 1 },
        FCall::RxAttrCreate,
        FCall::TReadDir { fid: 1, offset: 0, count: 4096 },
        FCall::RReadDir { data: dirents },
        FCall::TFSync { fid: 1 },
        FCall::RFSync,
        FCall::TLock { fid: 1, flock },
        FCall::RLock { status: LOCK_STATUS_GRACE },
        FCall::TGetLock { fid: 1, flock: getlock.clone() },
        FCall::RGetLock { flock: getlock },
        FCall::TLink { dfid: 1, fid: 2, name: "hard".to_string() },
        FCall::RLink,
        FCall::TMkDir { dfid: 1, name: "dir".to_string(), mode: 0o755, gid: 7 },
        FCall::RMkDir { qid: qid(9) },
        FCall::TRenameAt { olddirfid: 1, oldname: "a".to_string(), newdirfid: 2, newname: "b".to_string() },
        FCall::RRenameAt,
        FCall::TUnlinkAt { dirfd: 1, name: "gone".to_string(), flags: 0 },
        FCall::RUnlinkAt,
        FCall::TVersion { msize: 8192, version: P92000L.to_string() },
        FCall::RVersion { msize: 8192, version: P92000L.to_string() },
        FCall::TAuth { afid: 5, uname: "u".to_string(), aname: "".to_string(), n_uname: 1000 },
        FCall::RAuth { aqid: qid(10) },
        FCall::TAttach { fid: 0, afid: 0xffff_ffff, uname: "u".to_string(), aname: "".to_string(), n_uname: 1000 },
        FCall::RAttach { qid: qid(11) },
        FCall::TFlush { oldtag: 7 },
        FCall::RFlush,
        FCall::TWalk { fid: 0, newfid: 1, wnames: vec!["etc".to_string(), "hostname".to_string()] },
        FCall::RWalk { wqids: vec![qid(12), qid(13)] },
        FCall::TRead { fid: 1, offset: 0, count: 4096 },
        FCall::RRead { data: Data(b"hello\n".to_vec()) },
        FCall::TWrite { fid: 1, offset: 9, data: Data(vec![0, 1, 2, 255]) },
        FCall::RWrite { count: 4 },
        FCall::TClunk { fid: 1 },
        FCall::RClunk,
        FCall::TRemove { fid: 1 },
        FCall::RRemove,
    ]
}

#[test]
fn encoder_test1() {
    let expected: Vec<u8> = (0..10).collect();
    let mut encoder = Vec::new();
    for i in 0..10 {
        put_field(&mut encoder, &Field::U8(i as u8), Kind::U8).unwrap();
    }
    assert_eq!(expected, encoder);
}

#[test]
fn decoder_test1() {
    let expected: Vec<u8> = (0..10).collect();
    let mut decoder = Decoder::new(expected.clone());
    let mut actual: Vec<u8> = Vec::new();
    loop {
        match decoder.read_u8() {
            Ok(i) => actual.push(i),
            Err(_) => break,
        }
    }
    assert_eq!(expected, actual);
}

#[test]
fn msg_encode_decode1() {
    let expected = Msg { tag: 0xdead, body: FCall::RVersion { msize: 40, version: P92000L.to_owned() } };
    let mut buf = Vec::new();
    let _ = write_msg(&mut buf, &expected);

    let actual = read_msg(&buf);

    assert_eq!(expected, actual.unwrap());
}

#[test]
fn every_variant_round_trips() {
    for (i, body) in every_message().into_iter().enumerate() {
        let msg = Msg { tag: i as u16, body };
        let bytes = encode_msg(&msg).unwrap();
        assert_eq!(bytes[0], msg.body.msg_type());
        assert_eq!(decode_msg(&bytes), Ok(msg.clone()));
        let frame = encode_frame(&msg).unwrap();
        assert_eq!(decode_frame(&frame), Ok(msg));
    }
}

#[test]
fn frame_layout() {
    for (i, body) in every_message().into_iter().enumerate() {
        let msg = Msg { tag: 0x1200 + i as u16, body };
        let frame = encode_frame(&msg).unwrap();
        let size = u32::from_le_bytes([frame[0], frame[1], frame[2], frame[3]]);
        assert_eq!(size as usize, frame.len());
        assert_eq!(frame[4], msg.body.msg_type());
        assert_eq!(u16::from_le_bytes([frame[5], frame[6]]), msg.tag);
    }
}

#[test]
fn version_exact_bytes() {
    let msg = Msg { tag: NOTAG, body: FCall::TVersion { msize: 8192, version: P92000L.to_string() } };
    let frame = encode_frame(&msg).unwrap();
    let mut expected: Vec<u8> = vec![21, 0, 0, 0, 100, 0xff, 0xff, 0x00, 0x20, 0, 0, 8, 0];
    expected.extend_from_slice(b"9P2000.L");
    assert_eq!(frame, expected);
}

#[test]
fn rgetattr_reserved_fields() {
    let body = every_message().into_iter().find(|m| m.msg_type() == 25).unwrap();
    let msg = Msg { tag: 1, body };
    let mut bytes = encode_msg(&msg).unwrap();
    // type, tag, valid, qid, stat, four reserved u64
    assert_eq!(bytes.len(), 1 + 2 + 8 + 13 + (3 * 4 + 5 * 8 + 6 * 8) + 32);
    let n = bytes.len();
    assert!(bytes[n - 32..].iter().all(|b| *b == 0));
    for b in bytes[n - 32..].iter_mut() {
        *b = 0x5a;
    }
    assert_eq!(decode_msg(&bytes), Ok(msg));
}

#[test]
fn bitflags_truncate_unknown_bits() {
    let mut bytes = vec![24u8, 1, 0, 9, 0, 0, 0];
    bytes.extend_from_slice(&u64::MAX.to_le_bytes());
    let msg = decode_msg(&bytes).unwrap();
    assert_eq!(msg.body, FCall::TGetAttr { fid: 9, req_mask: GETATTR_ALL });

    let mut lock = vec![53u8, 2, 0, 0xff];
    assert_eq!(decode_msg(&lock).unwrap().body, FCall::RLock { status: 3 });
    lock[3] = 0x06;
    assert_eq!(decode_msg(&lock).unwrap().body, FCall::RLock { status: 2 });
}

#[test]
fn encode_refuses_unknown_bits() {
    let msg = Msg { tag: 1, body: FCall::TGetAttr { fid: 9, req_mask: 0x8000 } };
    assert_eq!(encode_msg(&msg), Err(ProtocolError));
    let msg = Msg { tag: 1, body: FCall::TSetAttr { fid: 9, valid: 0x200, stat: SetAttr { mode: 0, uid: 0, gid: 0, size: 0, atime: time(0), mtime: time(0) } } };
    assert_eq!(encode_msg(&msg), Err(ProtocolError));
}

#[test]
fn encode_refuses_oversized_string() {
    let msg = Msg { tag: 1, body: FCall::RReadLink { target: "x".repeat(0x10000) } };
    assert_eq!(encode_msg(&msg), Err(ProtocolError));
    let msg = Msg { tag: 1, body: FCall::RReadLink { target: "x".repeat(0xffff) } };
    assert_eq!(decode_msg(&encode_msg(&msg).unwrap()), Ok(msg));
}

#[test]
fn decode_rejects_unknown_types() {
    for t in [0u8, 6, 10, 28, 106, 112, 113, 114, 115, 124, 125, 126, 127, 200] {
        assert_eq!(decode_msg(&[t, 0, 0, 0, 0, 0, 0]), Err(ProtocolError), "type {}", t);
    }
}

#[test]
fn decode_rejects_malformed() {
    // too short
    assert_eq!(decode_msg(&[]), Err(ProtocolError));
    assert_eq!(decode_msg(&[120, 1]), Err(ProtocolError));
    // truncated fid
    assert_eq!(decode_msg(&[120, 1, 0, 5, 0, 0]), Err(ProtocolError));
    // trailing byte
    assert_eq!(decode_msg(&[120, 1, 0, 5, 0, 0, 0, 9]), Err(ProtocolError));
    // fine
    assert_eq!(decode_msg(&[120, 1, 0, 5, 0, 0, 0]).unwrap().body, FCall::TClunk { fid: 5 });
    // string that is not UTF-8
    assert_eq!(decode_msg(&[23, 1, 0, 2, 0, 0xc3, 0x28]), Err(ProtocolError));
    assert_eq!(
        decode_msg(&[23, 1, 0, 2, 0, 0xc3, 0xa9]).unwrap().body,
        FCall::RReadLink { target: "\u{e9}".to_string() }
    );
    // string length past the end
    assert_eq!(decode_msg(&[23, 1, 0, 9, 0, b'a']), Err(ProtocolError));
    // frame size that disagrees with the buffer
    let mut frame = encode_frame(&Msg { tag: 1, body: FCall::RClunk }).unwrap();
    frame.push(0);
    assert_eq!(decode_frame(&frame), Err(ProtocolError));
    assert_eq!(decode_frame(&[7, 0, 0]), Err(ProtocolError));
}

#[test]
fn dirent_sizes() {
    let e = DirEntry { qid: qid(1), offset: 5, typ: 0, name: "abc".to_string() };
    assert_eq!(e.size(), 27);
    assert_eq!(qid(1).size(), 13);
    let mut d = DirEntryData::new();
    assert_eq!(d.size(), 0);
    d.push(e.clone());
    d.push(DirEntry { qid: qid(2), offset: 6, typ: 0, name: "\u{e9}".to_string() });
    assert_eq!(d.size(), 27 + 26);
    assert_eq!(d.data().len(), 2);
    let msg = Msg { tag: 3, body: FCall::RReadDir { data: d.clone() } };
    let bytes = encode_msg(&msg).unwrap();
    assert_eq!(u32::from_le_bytes([bytes[3], bytes[4], bytes[5], bytes[6]]), 53);
    assert_eq!(bytes.len(), 3 + 4 + 53);
    assert_eq!(decode_msg(&bytes), Ok(msg));
}

#[test]
fn dirents_must_fill_their_size() {
    // declared size 5 but an entry needs at least 24 bytes
    assert_eq!(decode_msg(&[41, 0, 0, 5, 0, 0, 0, 1, 2, 3, 4, 5]), Err(ProtocolError));
    assert_eq!(decode_msg(&[41, 0, 0, 0, 0, 0, 0]).unwrap().body, FCall::RReadDir { data: DirEntryData::new() });
}

#[test]
fn encoder_counts_bytes() {
    let mut enc = Encoder::new(vec![9, 9]);
    assert_eq!(enc.bytes_written(), 0);
    let n = enc.encode(&Msg { tag: 1, body: FCall::TClunk { fid: 5 } }).unwrap();
    assert_eq!(n, 7);
    let m = enc.encode(&Msg { tag: 2, body: FCall::RClunk }).unwrap();
    assert_eq!(m, 3);
    assert_eq!(enc.bytes_written(), 10);
    assert!(enc.encode(&Msg { tag: 2, body: FCall::RLock { status: 9 } }).is_err());
    assert_eq!(enc.bytes_written(), 10);
    assert_eq!(enc.into_inner(), vec![9, 9, 120, 1, 0, 5, 0, 0, 0, 121, 2, 0]);
}

#[test]
fn decoder_reads_in_order() {
    let mut d = Decoder::new(vec![1, 2, 0, 3, 0, 0, 0, 2, 0, b'h', b'i', 7]);
    assert_eq!(d.read_u8(), Ok(1));
    assert_eq!(d.read_u16(), Ok(2));
    assert_eq!(d.read_u32(), Ok(3));
    assert_eq!(d.read_str(), Ok("hi".to_string()));
    assert_eq!(d.remaining(), 1);
    assert_eq!(d.read_u16(), Err(ProtocolError));
    assert_eq!(d.into_inner().len(), 12);
}

#[test]
fn message_accessors() {
    assert_eq!(FCall::TRename { fid: 1, dfid: 2, name: "n".to_string() }.fids(), vec![1, 2]);
    assert_eq!(FCall::TLink { dfid: 3, fid: 4, name: "n".to_string() }.fids(), vec![3, 4]);
    assert_eq!(FCall::TRenameAt { olddirfid: 5, oldname: "a".to_string(), newdirfid: 6, newname: "b".to_string() }.fids(), vec![5, 6]);
    assert_eq!(FCall::TAttach { fid: 0, afid: 0xffff_ffff, uname: "u".to_string(), aname: "".to_string(), n_uname: 0 }.fids(), Vec::<u32>::new());
    assert_eq!(FCall::TAttach { fid: 0, afid: 8, uname: "u".to_string(), aname: "".to_string(), n_uname: 0 }.fids(), Vec::<u32>::new());
    assert_eq!(FCall::TVersion { msize: 1, version: "v".to_string() }.fids(), Vec::<u32>::new());
    assert_eq!(FCall::TWalk { fid: 0, newfid: 1, wnames: vec![] }.newfid(), Some(1));
    assert_eq!(FCall::TAuth { afid: 4, uname: "u".to_string(), aname: "".to_string(), n_uname: 0 }.newfid(), Some(4));
    assert_eq!(FCall::TxAttrWalk { fid: 0, newfid: 3, name: "x".to_string() }.newfid(), Some(3));
    assert_eq!(FCall::TClunk { fid: 1 }.newfid(), None);
    assert_eq!(FCall::RWalk { wqids: vec![qid(1), qid(2)] }.qids(), vec![qid(1), qid(2)]);
    assert_eq!(FCall::RAttach { qid: qid(3) }.qids(), vec![qid(3)]);
    assert_eq!(FCall::RClunk.qids(), Vec::<QId>::new());
    assert!(MsgType::of(&FCall::RlError { ecode: 1 }).is_r());
    assert!(MsgType::of(&FCall::TClunk { fid: 1 }).is_t());
    assert!(!MsgType::of(&FCall::TClunk { fid: 1 }).is_r());
    assert!(MsgType::TlError.is_t());
    assert_eq!(MsgType::from_u8(6), Some(MsgType::TlError));
    assert_eq!(MsgType::from_u8(112), None);
    assert_eq!(MsgType::from_u8(111), Some(MsgType::RWalk));
    assert_eq!(MsgType::RWalk.code(), 111);
    for body in every_message() {
        assert_eq!(MsgType::of(&body).code(), body.msg_type());
        assert_eq!(MsgType::from_u8(body.msg_type()), Some(MsgType::of(&body)));
    }
}
