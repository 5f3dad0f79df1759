//! Server side of the protocol: the per-connection fid table and the rules
//! that turn a request and a backend's answer into a reply and a new table.
//!
//! The connection loop and the backend calls themselves (which suspend on
//! I/O) run outside this module: it decides, the caller acts.
use std::collections::HashMap;

use vstd::prelude::*;
use vstd::string::StringSliceAdditionalSpecFns;
use vstd::utf8::encode_utf8;

use crate::fcall::{FCall, MsgType, P92000L, VERSION_UNKNOWN};

verus! {

broadcast use vstd::std_specs::hash::group_hash_axioms;

/// Bad file descriptor: a request names a fid that is not in the table.
pub const EBADF: u32 = 9;

/// Protocol error.
pub const EPROTO: u32 = 71;

/// Operation not supported by the backend.
pub const EOPNOTSUPP: u32 = 95;

/// A client's fid together with the backend's state for it.
#[derive(Clone, Debug, PartialEq, Eq)]
pub struct FId<T> {
    /// Raw client side fid.
    fid: u32,
    /// The backend's state for this fid.
    pub aux: T,
}

impl<T> FId<T> {
    /// The raw fid.
    pub closed spec fn id(&self) -> u32 {
        self.fid
    }

    /// The backend's state.
    pub closed spec fn data(&self) -> T {
        self.aux
    }

    /// A fid record for `fid` holding `aux`.
    pub fn new(fid: u32, aux: T) -> (r: FId<T>)
        ensures
            r.id() == fid,
            r.data() == aux,
    {
        FId { fid, aux }
    }

    /// Get the raw fid.
    pub fn fid(&self) -> (r: u32)
        ensures
            r == self.id(),
    {
        self.fid
    }
}

/// The fids of one connection, each under its own number.
pub struct FidTable<T> {
    fids: HashMap<u32, FId<T>>,
}

impl<T> View for FidTable<T> {
    type V = Map<u32, FId<T>>;

    closed spec fn view(&self) -> Map<u32, FId<T>> {
        self.fids@
    }
}

/// Each record is filed under its own fid.
pub open spec fn table_wf<T>(m: Map<u32, FId<T>>) -> bool {
    forall|k: u32| m.contains_key(k) ==> (#[trigger] m[k]).id() == k
}

/// Whether every fid that the request names is in the table.
pub open spec fn fids_known<T>(m: Map<u32, FId<T>>, body: FCall) -> bool {
    forall|i: int| 0 <= i < body.spec_fids().len() ==> m.contains_key(#[trigger] body.spec_fids()[i])
}

/// The outcome of resolving the fids of a request: `EBADF` when one of them
/// is unknown.
pub open spec fn spec_check<T>(m: Map<u32, FId<T>>, body: FCall) -> Result<(), u32> {
    if fids_known(m, body) {
        Ok(())
    } else {
        Err(EBADF)
    }
}

/// Whether the record handed over for the new fid is the one the request
/// introduces.
pub open spec fn newfid_matches<T>(body: FCall, newfid: Option<FId<T>>) -> bool {
    match (body.spec_newfid(), newfid) {
        (Some(n), Some(f)) => f.id() == n,
        (None, None) => true,
        _ => false,
    }
}

/// Whether a successful answer registers the request's new fid: a walk
/// registers it only when it has no names or went through all of them.
pub open spec fn registers(body: FCall, reply: FCall) -> bool {
    match body {
        FCall::TWalk { wnames, .. } => wnames@.len() == 0 || match reply {
            FCall::RWalk { wqids } => wqids@.len() == wnames@.len(),
            _ => false,
        },
        _ => true,
    }
}

/// The outcome that counts for a backend's answer: an answer that is not a
/// reply message is a protocol error.
pub open spec fn outcome(result: Result<FCall, u32>) -> Result<FCall, u32> {
    match result {
        Ok(reply) => if reply.spec_is_r() {
            Ok(reply)
        } else {
            Err(EPROTO)
        },
        Err(e) => Err(e),
    }
}

/// The table after a request has been answered with `result`.
///
/// A clunked or removed fid goes whether or not the backend succeeded. On
/// success a version request empties the table, and the new fid, if any,
/// is registered when `registers` says so. An error changes nothing else.
pub open spec fn next_table<T>(
    m: Map<u32, FId<T>>,
    body: FCall,
    newfid: Option<FId<T>>,
    result: Result<FCall, u32>,
) -> Map<u32, FId<T>> {
    let released = match body {
        FCall::TClunk { fid } => m.remove(fid),
        FCall::TRemove { fid } => m.remove(fid),
        _ => m,
    };
    match outcome(result) {
        Err(_) => released,
        Ok(reply) => {
            let reset = if body is TVersion {
                Map::empty()
            } else {
                released
            };
            match newfid {
                Some(f) => if registers(body, reply) {
                    reset.insert(f.id(), f)
                } else {
                    reset
                },
                None => reset,
            }
        },
    }
}

/// The one reply sent for `result`: the backend's answer when it is a reply
/// message, else `RlError` with the errno (`EPROTO` for an answer that is
/// a request message).
pub open spec fn spec_reply(result: Result<FCall, u32>) -> FCall {
    match outcome(result) {
        Ok(reply) => reply,
        Err(e) => FCall::RlError { ecode: e },
    }
}

fn registers_exec(body: &FCall, reply: &FCall) -> (r: bool)
    ensures
        r == registers(*body, *reply),
{
    match body {
        FCall::TWalk { wnames, .. } => {
            if wnames.len() == 0 {
                true
            } else {
                match reply {
                    FCall::RWalk { wqids } => wqids.len() == wnames.len(),
                    _ => false,
                }
            }
        },
        _ => true,
    }
}

impl<T> FidTable<T> {
    pub closed spec fn wf(&self) -> bool {
        table_wf(self@)
    }

    /// An empty table.
    pub fn new() -> (r: FidTable<T>)
        ensures
            r.wf(),
            r@ == Map::<u32, FId<T>>::empty(),
    {
        FidTable { fids: HashMap::new() }
    }

    /// Whether `fid` is in the table.
    pub fn contains(&self, fid: u32) -> (r: bool)
        ensures
            r == self@.contains_key(fid),
    {
        self.fids.contains_key(&fid)
    }

    /// The record of `fid`, or `EBADF` when it is not in the table.
    pub fn lookup(&self, fid: u32) -> (r: Result<&FId<T>, u32>)
        requires
            self.wf(),
        ensures
            match r {
                Ok(f) => self@.contains_key(fid) && *f == self@[fid] && f.id() == fid,
                Err(e) => !self@.contains_key(fid) && e == EBADF,
            },
    {
        match self.fids.get(&fid) {
            Some(f) => Ok(f),
            None => Err(EBADF),
        }
    }

    /// Files `f` under its fid, replacing any record there.
    pub fn insert(&mut self, f: FId<T>)
        requires
            old(self).wf(),
        ensures
            final(self).wf(),
            final(self)@ == old(self)@.insert(f.id(), f),
    {
        let id = f.fid;
        let _ = self.fids.insert(id, f);
    }

    /// Forgets `fid`; an absent fid is no error.
    pub fn remove(&mut self, fid: u32)
        requires
            old(self).wf(),
        ensures
            final(self).wf(),
            final(self)@ == old(self)@.remove(fid),
    {
        let _ = self.fids.remove(&fid);
    }

    /// Forgets every fid.
    pub fn clear(&mut self)
        ensures
            final(self).wf(),
            final(self)@ == Map::<u32, FId<T>>::empty(),
    {
        self.fids.clear();
    }

    /// Resolves the fids that a request names: `EBADF` when one is unknown.
    pub fn check_fids(&self, body: &FCall) -> (r: Result<(), u32>)
        ensures
            r == spec_check(self@, *body),
    {
        let fids = body.fids();
        let mut i: usize = 0;
        while i < fids.len()
            invariant
                0 <= i <= fids@.len(),
                fids@ == body.spec_fids(),
                forall|j: int| 0 <= j < i ==> self@.contains_key(#[trigger] fids@[j]),
            decreases fids@.len() - i,
        {
            if !self.fids.contains_key(&fids[i]) {
                return Err(EBADF);
            }
            i = i + 1;
        }
        Ok(())
    }

    /// Records the outcome of a request and gives the reply to send.
    ///
    /// `newfid` is the record prepared for the fid that the request
    /// introduces; `result` is the backend's answer or its errno.
    pub fn complete(&mut self, body: &FCall, newfid: Option<FId<T>>, result: Result<FCall, u32>) -> (r:
        FCall)
        requires
            old(self).wf(),
            newfid_matches(*body, newfid),
        ensures
            final(self).wf(),
            final(self)@ == next_table(old(self)@, *body, newfid, result),
            r == spec_reply(result),
    {
        match body {
            FCall::TClunk { fid } => self.remove(*fid),
            FCall::TRemove { fid } => self.remove(*fid),
            _ => {},
        }
        let answer = match result {
            Ok(reply) => if MsgType::of(&reply).is_r() {
                Ok(reply)
            } else {
                Err(EPROTO)
            },
            Err(e) => Err(e),
        };
        match answer {
            Err(e) => FCall::RlError { ecode: e },
            Ok(reply) => {
                if matches!(body, FCall::TVersion { .. }) {
                    self.clear();
                }
                if let Some(f) = newfid {
                    if registers_exec(body, &reply) {
                        self.insert(f);
                    }
                }
                reply
            },
        }
    }
}


/// Whether two texts are the same.
pub fn same_text(a: &str, b: &str) -> (r: bool)
    ensures
        r == (a@ == b@),
{
    let x = a.as_bytes();
    let y = b.as_bytes();
    proof {
        vstd::utf8::encode_utf8_decode_utf8(a@);
        vstd::utf8::encode_utf8_decode_utf8(b@);
        assert(x@ == encode_utf8(a@));
        assert(y@ == encode_utf8(b@));
    }
    if x.len() != y.len() {
        return false;
    }
    let mut i: usize = 0;
    while i < x.len()
        invariant
            0 <= i <= x@.len(),
            x@.len() == y@.len(),
            x@ == encode_utf8(a@),
            y@ == encode_utf8(b@),
            forall|j: int| 0 <= j < i ==> x@[j] == y@[j],
        decreases x@.len() - i,
    {
        if x[i] != y[i] {
            proof {
                assert(x@ != y@);
            }
            return false;
        }
        i = i + 1;
    }
    proof {
        assert(x@ =~= y@);
    }
    true
}

/// The version string that the server answers to `v`: the same string when
/// it is "9P2000.L", else "unknown".
pub open spec fn negotiated_version(v: Seq<char>) -> Seq<char> {
    if v == P92000L@ {
        v
    } else {
        VERSION_UNKNOWN@
    }
}

/// The answer to `TVersion`: the smaller of the client's and the server's
/// message size, and the client's version string if it is exactly
/// "9P2000.L", else "unknown".
pub fn negotiate_version(msize: u32, server_msize: u32, ver: &str) -> (r: FCall)
    ensures
        match r {
            FCall::RVersion { msize: m, version } => m == (if msize < server_msize {
                msize
            } else {
                server_msize
            }) && version@ == negotiated_version(ver@),
            _ => false,
        },
{
    let m = if msize < server_msize {
        msize
    } else {
        server_msize
    };
    let version = if same_text(ver, P92000L) {
        ver.to_owned()
    } else {
        VERSION_UNKNOWN.to_owned()
    };
    FCall::RVersion { msize: m, version }
}

// ---------------------------------------------------------------------------
// Laws of the fid lifecycle
// ---------------------------------------------------------------------------

/// A request that names a fid missing from the table is refused with
/// `EBADF`.
pub proof fn lemma_unknown_fid_refused<T>(m: Map<u32, FId<T>>, body: FCall, i: int)
    requires
        0 <= i < body.spec_fids().len(),
        !m.contains_key(body.spec_fids()[i]),
    ensures
        spec_check(m, body) == Err::<(), u32>(EBADF),
{
}

/// An attach names no input fid: whatever its auth fid, it is never refused
/// for an unknown fid.
pub proof fn lemma_attach_never_refused<T>(m: Map<u32, FId<T>>, body: FCall)
    requires
        body is TAttach,
    ensures
        spec_check(m, body) == Ok::<(), u32>(()),
{
}

/// A backend answer that is not a reply message is answered with
/// `RlError { EPROTO }` and changes the table as an error does.
pub proof fn lemma_request_answer_is_protocol_error<T>(
    m: Map<u32, FId<T>>,
    body: FCall,
    newfid: Option<FId<T>>,
    answer: FCall,
)
    requires
        !answer.spec_is_r(),
    ensures
        spec_reply(Ok(answer)) == (FCall::RlError { ecode: EPROTO }),
        next_table(m, body, newfid, Ok(answer)) == next_table(m, body, newfid, Err(EPROTO)),
{
}

/// After a successful attach of fid `f`, `f` is in the table and every
/// request that names only `f` resolves; before it, a request naming a fid
/// missing from the table is refused.
pub proof fn lemma_attach_registers<T>(
    m: Map<u32, FId<T>>,
    body: FCall,
    newfid: FId<T>,
    reply: FCall,
    later: FCall,
)
    requires
        body is TAttach,
        reply.spec_is_r(),
        newfid_matches(body, Some(newfid)),
        forall|i: int| 0 <= i < later.spec_fids().len() ==> #[trigger] later.spec_fids()[i] == newfid.id(),
    ensures
        next_table(m, body, Some(newfid), Ok(reply)).contains_key(newfid.id()),
        next_table(m, body, Some(newfid), Ok(reply))[newfid.id()] == newfid,
        spec_check(next_table(m, body, Some(newfid), Ok(reply)), later) == Ok::<(), u32>(()),
{
}

/// After a clunk of `f`, whatever the backend answered, `f` is gone and
/// every request naming it is refused with `EBADF`.
pub proof fn lemma_clunk_releases<T>(
    m: Map<u32, FId<T>>,
    fid: u32,
    result: Result<FCall, u32>,
    later: FCall,
    i: int,
)
    requires
        0 <= i < later.spec_fids().len(),
        later.spec_fids()[i] == fid,
    ensures
        !next_table(m, FCall::TClunk { fid }, None, result).contains_key(fid),
        spec_check(next_table(m, FCall::TClunk { fid }, None, result), later) == Err::<(), u32>(EBADF),
{
}

/// A remove releases the fid as a clunk does, whatever the backend answered.
pub proof fn lemma_remove_releases<T>(m: Map<u32, FId<T>>, fid: u32, result: Result<FCall, u32>)
    ensures
        !next_table(m, FCall::TRemove { fid }, None, result).contains_key(fid),
{
}

/// A successful walk without names registers the new fid and leaves the
/// source fid as it was: both resolve afterwards.
pub proof fn lemma_empty_walk_aliases<T>(
    m: Map<u32, FId<T>>,
    body: FCall,
    newfid: FId<T>,
    reply: FCall,
)
    requires
        body is TWalk,
        body->TWalk_wnames@.len() == 0,
        reply.spec_is_r(),
        newfid_matches(body, Some(newfid)),
        m.contains_key(body->TWalk_fid),
    ensures
        next_table(m, body, Some(newfid), Ok(reply)).contains_key(body->TWalk_newfid),
        next_table(m, body, Some(newfid), Ok(reply)).contains_key(body->TWalk_fid),
        body->TWalk_fid != body->TWalk_newfid ==> next_table(m, body, Some(newfid), Ok(reply))[body->TWalk_fid]
            == m[body->TWalk_fid],
{
}

/// A walk through some but not all of its names leaves the table as it was.
pub proof fn lemma_partial_walk_not_registered<T>(
    m: Map<u32, FId<T>>,
    body: FCall,
    newfid: FId<T>,
    wqids: Vec<crate::fcall::QId>,
)
    requires
        body is TWalk,
        wqids@.len() < body->TWalk_wnames@.len(),
    ensures
        next_table(m, body, Some(newfid), Ok(FCall::RWalk { wqids })) == m,
{
}

/// An error answer leaves the table as it was, except that a clunk or a
/// remove still releases its fid.
pub proof fn lemma_error_keeps_table<T>(m: Map<u32, FId<T>>, body: FCall, newfid: Option<FId<T>>, e: u32)
    requires
        !(body is TClunk),
        !(body is TRemove),
    ensures
        next_table(m, body, newfid, Err(e)) == m,
{
}

/// After a successful version request no earlier fid is known.
pub proof fn lemma_version_resets<T>(m: Map<u32, FId<T>>, body: FCall, reply: FCall, fid: u32)
    requires
        body is TVersion,
        reply.spec_is_r(),
    ensures
        !next_table(m, body, None, Ok(reply)).contains_key(fid),
{
}

/// Recording an outcome keeps every record filed under its own fid.
pub proof fn lemma_next_table_wf<T>(
    m: Map<u32, FId<T>>,
    body: FCall,
    newfid: Option<FId<T>>,
    result: Result<FCall, u32>,
)
    requires
        table_wf(m),
    ensures
        table_wf(next_table(m, body, newfid, result)),
{
}

} // verus!
