use rs9p::fcall::{Data, FCall, Msg, QId, NOFID, NOTAG, P92000L, QT_DIR, QT_FILE, VERSION_UNKNOWN};
use rs9p::serialize::{decode_frame, encode_frame};
use rs9p::srv::{negotiate_version, same_text, FId, FidTable, EBADF, EOPNOTSUPP, EPROTO};
use rs9p::utils::parse_proto;

const SERVER_MSIZE: u32 = 65536;
const O_RDONLY: u32 = 0;

/// A small in-memory backend: a root directory holding /etc/hostname.
fn backend(body: &FCall) -> Result<FCall, u32> {
    match body {
        FCall::TVersion { msize, version } => Ok(negotiate_version(*msize, SERVER_MSIZE, version)),
        FCall::TAttach { .. } => Ok(FCall::RAttach { qid: QId { typ: QT_DIR, version: 0, path: 1 } }),
        FCall::TWalk { wnames, .. } => {
            let mut wqids = Vec::new();
            for (i, name) in wnames.iter().enumerate() {
                let known = (i == 0 && name == "etc") || (i == 1 && name == "hostname");
                if !known {
                    if i == 0 {
                        return Err(2);
                    }
                    break;
                }
                let typ = if i == 0 { QT_DIR } else { QT_FILE };
                wqids.push(QId { typ, version: 0, path: 2 + i as u64 });
            }
            Ok(FCall::RWalk { wqids })
        }
        FCall::TlOpen { .. } => Ok(FCall::RlOpen { qid: QId { typ: QT_FILE, version: 0, path: 3 }, iounit: 0 }),
        FCall::TRead { offset, count, .. } => {
            let content = b"testhost\n";
            let start = (*offset as usize).min(content.len());
            let end = (start + *count as usize).min(content.len());
            Ok(FCall::RRead { data: Data(content[start..end].to_vec()) })
        }
        FCall::TClunk { .. } => Ok(FCall::RClunk),
        _ => Err(EOPNOTSUPP),
    }
}

/// One request frame in, one reply frame out, through the library's rules.
fn serve(table: &mut FidTable<()>, frame: &[u8]) -> Vec<u8> {
    let msg = decode_frame(frame).expect("request decodes");
    let newfid = msg.body.newfid().map(|f| FId::new(f, ()));
    let result = match table.check_fids(&msg.body) {
        Err(e) => Err(e),
        Ok(()) => backend(&msg.body),
    };
    let reply = table.complete(&msg.body, newfid, result);
    encode_frame(&Msg { tag: msg.tag, body: reply }).expect("reply encodes")
}

fn call(table: &mut FidTable<()>, tag: u16, body: FCall) -> Msg {
    let frame = encode_frame(&Msg { tag, body }).unwrap();
    let reply = serve(table, &frame);
    decode_frame(&reply).unwrap()
}

fn attach(fid: u32) -> FCall {
    FCall::TAttach { fid, afid: NOFID, uname: "u".to_string(), aname: "".to_string(), n_uname: 1000 }
}

#[test]
fn end_to_end_session() {
    let mut table: FidTable<()> = FidTable::new();

    // version
    let r = call(&mut table, NOTAG, FCall::TVersion { msize: 8192, version: P92000L.to_string() });
    assert_eq!(r, Msg { tag: NOTAG, body: FCall::RVersion { msize: 8192, version: P92000L.to_string() } });

    // attach
    let r = call(&mut table, 1, attach(0));
    assert_eq!(r.tag, 1);
    match r.body {
        FCall::RAttach { qid } => assert_eq!(qid.typ, QT_DIR),
        other => panic!("unexpected {:?}", other),
    }
    assert!(table.contains(0));

    // walk
    let r = call(&mut table, 2, FCall::TWalk { fid: 0, newfid: 1, wnames: vec!["etc".to_string(), "hostname".to_string()] });
    match &r.body {
        FCall::RWalk { wqids } => assert_eq!(wqids.len(), 2),
        other => panic!("unexpected {:?}", other),
    }
    assert!(table.contains(1));

    // open
    let r = call(&mut table, 3, FCall::TlOpen { fid: 1, flags: O_RDONLY });
    match r.body {
        FCall::RlOpen { iounit, .. } => assert_eq!(iounit, 0),
        other => panic!("unexpected {:?}", other),
    }

    // read
    let r = call(&mut table, 4, FCall::TRead { fid: 1, offset: 0, count: 4096 });
    assert_eq!(r.body, FCall::RRead { data: Data(b"testhost\n".to_vec()) });

    // clunk, then read again
    let r = call(&mut table, 5, FCall::TClunk { fid: 1 });
    assert_eq!(r, Msg { tag: 5, body: FCall::RClunk });
    let r = call(&mut table, 6, FCall::TRead { fid: 1, offset: 0, count: 4096 });
    assert_eq!(r, Msg { tag: 6, body: FCall::RlError { ecode: EBADF } });
}

#[test]
fn version_negotiation() {
    let r = negotiate_version(8192, SERVER_MSIZE, "9P2000.L");
    assert_eq!(r, FCall::RVersion { msize: 8192, version: "9P2000.L".to_string() });
    let r = negotiate_version(8192, SERVER_MSIZE, "9P2000");
    assert_eq!(r, FCall::RVersion { msize: 8192, version: VERSION_UNKNOWN.to_string() });
    let r = negotiate_version(1 << 20, SERVER_MSIZE, "9P2000.L");
    assert_eq!(r, FCall::RVersion { msize: SERVER_MSIZE, version: "9P2000.L".to_string() });
    let r = negotiate_version(8192, SERVER_MSIZE, "9P2000.L ");
    assert_eq!(r, FCall::RVersion { msize: 8192, version: "unknown".to_string() });
}

#[test]
fn version_clears_fids() {
    let mut table: FidTable<()> = FidTable::new();
    call(&mut table, 1, attach(0));
    call(&mut table, 2, attach(7));
    assert!(table.contains(0) && table.contains(7));
    call(&mut table, NOTAG, FCall::TVersion { msize: 8192, version: P92000L.to_string() });
    assert!(!table.contains(0) && !table.contains(7));
    let r = call(&mut table, 3, FCall::TClunk { fid: 0 });
    assert_eq!(r.body, FCall::RlError { ecode: EBADF });
}

#[test]
fn fid_unknown_before_attach() {
    let mut table: FidTable<()> = FidTable::new();
    let r = call(&mut table, 1, FCall::TlOpen { fid: 0, flags: 0 });
    assert_eq!(r.body, FCall::RlError { ecode: EBADF });
    call(&mut table, 2, attach(0));
    let r = call(&mut table, 3, FCall::TlOpen { fid: 0, flags: 0 });
    assert!(matches!(r.body, FCall::RlOpen { .. }));
}

#[test]
fn empty_walk_aliases_source() {
    let mut table: FidTable<()> = FidTable::new();
    call(&mut table, 1, attach(0));
    let r = call(&mut table, 2, FCall::TWalk { fid: 0, newfid: 5, wnames: vec![] });
    assert_eq!(r.body, FCall::RWalk { wqids: vec![] });
    assert!(table.contains(0) && table.contains(5));
    let a = call(&mut table, 3, FCall::TlOpen { fid: 0, flags: 0 });
    let b = call(&mut table, 4, FCall::TlOpen { fid: 5, flags: 0 });
    assert_eq!(a.body, b.body);
    call(&mut table, 5, FCall::TClunk { fid: 5 });
    assert!(table.contains(0) && !table.contains(5));
}

#[test]
fn partial_walk_does_not_register() {
    let mut table: FidTable<()> = FidTable::new();
    call(&mut table, 1, attach(0));
    let r = call(&mut table, 2, FCall::TWalk { fid: 0, newfid: 1, wnames: vec!["etc".to_string(), "nope".to_string()] });
    match &r.body {
        FCall::RWalk { wqids } => assert_eq!(wqids.len(), 1),
        other => panic!("unexpected {:?}", other),
    }
    assert!(!table.contains(1));
    let r = call(&mut table, 3, FCall::TWalk { fid: 0, newfid: 1, wnames: vec!["nope".to_string()] });
    assert_eq!(r.body, FCall::RlError { ecode: 2 });
    assert!(!table.contains(1));
}

#[test]
fn backend_errors_leave_table() {
    let mut table: FidTable<()> = FidTable::new();
    call(&mut table, 1, attach(0));
    let r = call(&mut table, 2, FCall::TFSync { fid: 0 });
    assert_eq!(r.body, FCall::RlError { ecode: EOPNOTSUPP });
    assert!(table.contains(0));
    // a remove releases the fid even when the backend fails
    let r = call(&mut table, 3, FCall::TRemove { fid: 0 });
    assert_eq!(r.body, FCall::RlError { ecode: EOPNOTSUPP });
    assert!(!table.contains(0));
}

#[test]
fn attach_with_unknown_afid_accepted() {
    let mut table: FidTable<()> = FidTable::new();
    assert_eq!(table.check_fids(&FCall::TAttach { fid: 0, afid: 3, uname: "u".to_string(), aname: "".to_string(), n_uname: 0 }), Ok(()));
    let r = call(&mut table, 1, FCall::TAttach { fid: 0, afid: 3, uname: "u".to_string(), aname: "".to_string(), n_uname: 0 });
    assert!(matches!(r.body, FCall::RAttach { .. }));
    assert!(table.contains(0));
}

#[test]
fn request_as_answer_is_protocol_error() {
    let mut table: FidTable<()> = FidTable::new();
    let r = table.complete(&FCall::TFlush { oldtag: 1 }, None, Ok(FCall::TFlush { oldtag: 1 }));
    assert_eq!(r, FCall::RlError { ecode: EPROTO });
    let r = table.complete(&FCall::TFlush { oldtag: 1 }, None, Ok(FCall::RFlush));
    assert_eq!(r, FCall::RFlush);
    // a new fid is not registered when the answer is not a reply
    let r = table.complete(&attach(4), Some(FId::new(4, ())), Ok(attach(4)));
    assert_eq!(r, FCall::RlError { ecode: EPROTO });
    assert!(!table.contains(4));
}

#[test]
fn many_concurrent_tags_stay_distinct() {
    let mut table: FidTable<()> = FidTable::new();
    call(&mut table, 0, attach(0));
    let mut seen = std::collections::HashSet::new();
    for tag in 1..=1000u16 {
        let frame = encode_frame(&Msg { tag, body: FCall::TGetAttr { fid: 0, req_mask: 0x7ff } }).unwrap();
        let reply = serve(&mut table, &frame);
        let size = u32::from_le_bytes([reply[0], reply[1], reply[2], reply[3]]) as usize;
        assert_eq!(size, reply.len());
        let m = decode_frame(&reply).unwrap();
        assert_eq!(m.tag, tag);
        assert!(seen.insert(m.tag));
    }
}

#[test]
fn fid_table_operations() {
    let mut t: FidTable<u8> = FidTable::new();
    assert_eq!(t.lookup(3).err(), Some(EBADF));
    t.insert(FId::new(3, 7));
    assert_eq!(t.lookup(3).unwrap().aux, 7);
    assert_eq!(t.lookup(3).unwrap().fid(), 3);
    t.insert(FId::new(3, 9));
    assert_eq!(t.lookup(3).unwrap().aux, 9);
    t.remove(3);
    t.remove(3);
    assert!(!t.contains(3));
    t.insert(FId::new(1, 1));
    t.clear();
    assert!(!t.contains(1));
    assert_eq!(t.check_fids(&FCall::TLink { dfid: 1, fid: 2, name: "x".to_string() }), Err(EBADF));
}

#[test]
fn text_comparison() {
    assert!(same_text("9P2000.L", "9P2000.L"));
    assert!(!same_text("9P2000.L", "9P2000"));
    assert!(!same_text("ab", "ac"));
    assert!(same_text("", ""));
}

#[test]
fn address_parsing() {
    assert_eq!(parse_proto("tcp!0.0.0.0!564"), Some(("tcp", "0.0.0.0", "564")));
    assert_eq!(parse_proto("unix!/tmp/sock!0"), Some(("unix", "/tmp/sock", "0")));
    assert_eq!(parse_proto("tcp!host!564!extra"), Some(("tcp", "host", "564")));
    assert_eq!(parse_proto("tcp!host!"), Some(("tcp", "host", "")));
    assert_eq!(parse_proto("tcp!host"), None);
    assert_eq!(parse_proto("tcp"), None);
    assert_eq!(parse_proto(""), None);
    assert_eq!(parse_proto("\u{e9}!h\u{e9}!p"), Some(("\u{e9}", "h\u{e9}", "p")));
}
