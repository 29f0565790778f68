//! The LSA conversation as a state machine.
//!
//! Every operation of the Kerberos package client is the same dialogue with
//! LSA: connect untrusted, look up the `Kerberos` package, call it with a
//! request, and, for the operations that return data, read what the reply
//! points to. A [`Session`] makes every decision of that dialogue; the
//! caller performs each [`Action`] it asks for against LSA and reports the
//! outcome back as an [`Event`], until the session finishes with the
//! operation's result.
//!
//! Releasing what LSA hands out (the handle from the connect, and each
//! reply buffer) is the caller's duty and is not part of the dialogue: the
//! handle lives until the session finishes, a reply buffer at least until
//! the data it points to has been read.

use vstd::prelude::*;
use crate::error::{Error, Result};
use crate::layout::{PointerWidth, SUBMIT_REQUEST_HEADER_SIZE};
use crate::request::{
    max_spn_bytes, purge_request_bytes, purge_ticket_cache_request, query_request_bytes,
    query_ticket_cache_request, retrieve_request_bytes, retrieve_ticket_request, spn_units,
    submit_request_bytes, submit_ticket_request, Relocation, Request,
};
use crate::response::{
    parse_query_response, parse_retrieve_response, query_reply, retrieve_reply, unicode_text,
    RawTicketCacheEntry, UnicodeStringRef,
};
use crate::status::{call_error, check_call};
use crate::request::{
    lemma_message_prefix_fields, lemma_retrieve_request_fields, lemma_submit_request_locates_cred,
    lemma_utf16_bytes_units, message_prefix, unicode_string_bytes, utf16_bytes,
};
use crate::text::{utf16_encode, utf16_lossy};
use crate::response::le_value_at;
use crate::wire::{le_bytes, lemma_field_at, lemma_le_bytes_len, lemma_pow256_values, zeros};
use crate::types::{AuthPackageId, KrbCred, Luid, TicketCacheInfo};
use crate::wire::field;

verus! {

/// What a session is asked to do.
pub enum Operation {
    /// Retrieve the TGT of a logon session (the caller's own when `None`).
    RetrieveTgt { luid: Option<Luid> },
    /// Enumerate the ticket cache of a logon session.
    QueryTicketCache { luid: Option<Luid> },
    /// Inject a KRB-CRED into the ticket cache of a logon session.
    SubmitTicket { cred: KrbCred, luid: Option<Luid> },
    /// Purge the tickets of one server, or all of them, from a ticket cache.
    PurgeTicketCache { luid: Option<Luid>, target_spn: Option<String> },
}

/// What a successful session yields.
pub enum Reply {
    Tgt(KrbCred),
    TicketCache(Vec<TicketCacheInfo>),
    Submitted,
    Purged,
}

/// `units` UTF-16 code units at `address` in a reply's memory.
#[derive(Clone, Copy, Debug, PartialEq, Eq, Structural)]
pub struct Utf16Region {
    pub address: usize,
    pub units: usize,
}

/// What the session asks its caller to do next.
pub enum Action {
    /// Call `LsaConnectUntrusted`.
    Connect,
    /// Call `LsaLookupAuthenticationPackage` on `handle` for the ANSI
    /// package name `name`.
    LookupPackage { handle: usize, name: Vec<u8> },
    /// Bind `request` to its own address, then call
    /// `LsaCallAuthenticationPackage` with it.
    CallPackage { handle: usize, package: AuthPackageId, request: Request },
    /// Copy `len` bytes at `address` of the last reply.
    ReadTicket { address: usize, len: usize },
    /// Copy each region of the last reply's memory; an empty region is
    /// not read.
    ReadNames { regions: Vec<Utf16Region> },
    /// The dialogue is over, with this result.
    Finish(Result<Reply>),
}

/// The outcome of the last action, reported back to the session.
pub enum Event {
    /// `LsaConnectUntrusted` returned `status` and, on success, `handle`.
    Connected { status: i32, handle: usize },
    /// `LsaLookupAuthenticationPackage` returned `status` and, on success,
    /// `package`.
    PackageFound { status: i32, package: u32 },
    /// `LsaCallAuthenticationPackage` returned `status`, set
    /// `protocol_status`, and handed back the reply bytes `response`.
    PackageCalled { status: i32, protocol_status: i32, response: Vec<u8> },
    /// The bytes of a [`Action::ReadTicket`].
    TicketRead { bytes: Vec<u8> },
    /// The units of each region of a [`Action::ReadNames`], in order.
    NamesRead { names: Vec<Vec<u16>> },
}

/// Where a session stands.
pub enum Stage {
    Connecting,
    LookingUp { handle: usize },
    Calling { handle: usize },
    ReadingTicket { size: u32 },
    ReadingNames { entries: Vec<RawTicketCacheEntry> },
    Finished,
}

/// One dialogue with LSA for one operation.
pub struct Session {
    pub op: Operation,
    pub stage: Stage,
    pub width: PointerWidth,
}

/// `"Kerberos"`, the ANSI name of the Kerberos authentication package.
pub open spec fn kerberos_package_name() -> Seq<u8> {
    seq![75u8, 101u8, 114u8, 98u8, 101u8, 114u8, 111u8, 115u8]
}

/// The request an operation sends, with its self-reference, or the error
/// that stops the operation before anything is sent.
pub open spec fn planned_request(op: Operation, w: PointerWidth) -> core::result::Result<
    (Seq<u8>, Option<Relocation>),
    Error,
> {
    match op {
        Operation::RetrieveTgt { luid } => Ok((retrieve_request_bytes(luid, w), None)),
        Operation::QueryTicketCache { luid } => Ok((query_request_bytes(luid), None)),
        Operation::SubmitTicket { cred, luid } => {
            if SUBMIT_REQUEST_HEADER_SIZE + cred.encoded@.len() > u32::MAX {
                Err(Error::Overflow)
            } else {
                Ok((submit_request_bytes(cred.encoded@, luid), None))
            }
        },
        Operation::PurgeTicketCache { luid, target_spn } => {
            let units = spn_units(
                match target_spn {
                    Some(s) => Some(s@),
                    None => None,
                },
            );
            if 2 * units.len() > usize::MAX {
                Err(Error::Overflow)
            } else if 2 * units.len() > max_spn_bytes() {
                Err(Error::StringTooLong)
            } else {
                Ok(
                    (
                        purge_request_bytes(units, luid, w),
                        if units.len() == 0 {
                            None
                        } else {
                            Some(
                                Relocation {
                                    field: (w.purge_server_name_offset()
                                        + w.unicode_string_buffer_offset()) as usize,
                                    target: w.purge_request_header_size(),
                                },
                            )
                        },
                    ),
                )
            }
        },
    }
}

/// The region of a reply string's text.
pub open spec fn region_of(s: UnicodeStringRef) -> Utf16Region {
    Utf16Region { address: s.buffer, units: s.unit_count() }
}

/// The regions that hold the names of `entries`: server then realm, entry
/// after entry.
pub open spec fn name_regions(entries: Seq<RawTicketCacheEntry>) -> Seq<Utf16Region> {
    Seq::new(
        2 * entries.len(),
        |k: int|
            region_of(
                if k % 2 == 0 {
                    entries[k / 2].server_name
                } else {
                    entries[k / 2].realm_name
                },
            ),
    )
}

/// `info` is `raw` with its names decoded from `server` and `realm`.
pub open spec fn info_matches(
    info: TicketCacheInfo,
    raw: RawTicketCacheEntry,
    server: Seq<u16>,
    realm: Seq<u16>,
) -> bool {
    &&& info.server_name@ == unicode_text(raw.server_name, server)
    &&& info.realm_name@ == unicode_text(raw.realm_name, realm)
    &&& info.start_time_ft == raw.start_time
    &&& info.end_time_ft == raw.end_time
    &&& info.renew_time_ft == raw.renew_time
    &&& info.encryption_type == raw.encryption_type
    &&& info.ticket_flags == raw.ticket_flags
}

/// `infos` are `entries` with the names read from `names`.
pub open spec fn ticket_cache_matches(
    infos: Seq<TicketCacheInfo>,
    entries: Seq<RawTicketCacheEntry>,
    names: Seq<Vec<u16>>,
) -> bool {
    &&& infos.len() == entries.len()
    &&& forall|i: int|
        0 <= i < entries.len() ==> info_matches(
            #[trigger] infos[i],
            entries[i],
            names[2 * i]@,
            names[2 * i + 1]@,
        )
}

/// How far a stage is from the end: every step strictly lowers it.
pub open spec fn rank(stage: Stage) -> nat {
    match stage {
        Stage::Connecting => 4,
        Stage::LookingUp { .. } => 3,
        Stage::Calling { .. } => 2,
        Stage::ReadingTicket { .. } => 1,
        Stage::ReadingNames { .. } => 1,
        Stage::Finished => 0,
    }
}

/// A session ends with `a` carrying the error `e`.
pub open spec fn fails_with(a: Action, e: Error) -> bool {
    a == Action::Finish(Err(e))
}

/// The step after `LsaConnectUntrusted` returned `status` and `handle`.
pub open spec fn after_connect(status: i32, handle: usize, n: Session, a: Action) -> bool {
    if status != 0 {
        fails_with(a, Error::Lsa { api: "LsaConnectUntrusted", status: status as u32 })
    } else {
        &&& n.stage == Stage::LookingUp { handle }
        &&& a matches Action::LookupPackage { handle: h, name }
        &&& h == handle
        &&& name@ == kerberos_package_name()
    }
}

/// `n` and `a` begin the package call of `op` on `handle` and `package`:
/// the request goes out, or the session ends with the error that stops it
/// from being built.
pub open spec fn plans_call(
    op: Operation,
    w: PointerWidth,
    handle: usize,
    package: u32,
    n: Session,
    a: Action,
) -> bool {
    match planned_request(op, w) {
        Err(e) => fails_with(a, e),
        Ok((bytes, relocation)) => {
            &&& n.stage == Stage::Calling { handle }
            &&& a matches Action::CallPackage { handle: h, package: p, request }
            &&& h == handle
            &&& p == AuthPackageId(package)
            &&& request.bytes@ == bytes
            &&& request.relocation == relocation
            &&& request.width == w
            &&& request.wf()
        },
    }
}

/// The step after `LsaLookupAuthenticationPackage` returned `status` and
/// `package`.
pub open spec fn after_lookup(s: Session, status: i32, package: u32, n: Session, a: Action) -> bool {
    match s.stage {
        Stage::LookingUp { handle } => {
            if status != 0 {
                fails_with(
                    a,
                    Error::Lsa { api: "LsaLookupAuthenticationPackage", status: status as u32 },
                )
            } else {
                plans_call(s.op, s.width, handle, package, n, a)
            }
        },
        _ => false,
    }
}

/// The step after `LsaCallAuthenticationPackage` returned `status`, set
/// `protocol_status` and handed back `resp`.
pub open spec fn after_call(
    s: Session,
    status: i32,
    protocol_status: i32,
    resp: Seq<u8>,
    n: Session,
    a: Action,
) -> bool {
    match call_error(status, protocol_status) {
        Some(e) => fails_with(a, e),
        None => match s.op {
            Operation::RetrieveTgt { .. } => match retrieve_reply(resp, s.width) {
                Err(e) => fails_with(a, e),
                Ok(t) => {
                    &&& n.stage == Stage::ReadingTicket { size: t.size }
                    &&& a == Action::ReadTicket { address: t.address, len: t.size as usize }
                },
            },
            Operation::QueryTicketCache { .. } => match query_reply(resp, s.width) {
                Err(e) => fails_with(a, e),
                Ok(entries) => {
                    &&& n.stage matches Stage::ReadingNames { entries: es }
                    &&& es@ == entries
                    &&& a matches Action::ReadNames { regions }
                    &&& regions@ == name_regions(entries)
                },
            },
            Operation::SubmitTicket { .. } => a == Action::Finish(Ok(Reply::Submitted)),
            Operation::PurgeTicketCache { .. } => a == Action::Finish(Ok(Reply::Purged)),
        },
    }
}

/// `n` and `a` are what `s` does on `e`.
pub open spec fn transition(s: Session, e: Event, n: Session, a: Action) -> bool {
    &&& n.op == s.op
    &&& n.width == s.width
    &&& rank(n.stage) < rank(s.stage)
    &&& (n.stage is Finished <==> a is Finish)
    &&& match e {
        Event::Connected { status, handle } => after_connect(status, handle, n, a),
        Event::PackageFound { status, package } => after_lookup(s, status, package, n, a),
        Event::PackageCalled { status, protocol_status, response } => after_call(
            s,
            status,
            protocol_status,
            response@,
            n,
            a,
        ),
        Event::TicketRead { bytes } => a matches Action::Finish(Ok(Reply::Tgt(c)))
            && c.encoded@ == bytes@,
        Event::NamesRead { names } => match s.stage {
            Stage::ReadingNames { entries } => a matches Action::Finish(
                Ok(Reply::TicketCache(infos)),
            ) && ticket_cache_matches(infos@, entries@, names@),
            _ => false,
        },
    }
}

impl Session {
    /// Whether `e` is an outcome of the action the session last asked for.
    pub open spec fn accepts(&self, e: Event) -> bool {
        match self.stage {
            Stage::Connecting => e is Connected,
            Stage::LookingUp { .. } => e is PackageFound,
            Stage::Calling { .. } => e is PackageCalled,
            Stage::ReadingTicket { size } => e matches Event::TicketRead { bytes }
                && bytes@.len() == size,
            Stage::ReadingNames { entries } => e matches Event::NamesRead { names } && {
                &&& names@.len() == name_regions(entries@).len()
                &&& forall|k: int|
                    0 <= k < names@.len() ==> (#[trigger] names@[k])@.len() == name_regions(
                        entries@,
                    )[k].units
            },
            Stage::Finished => false,
        }
    }

    /// Opens the dialogue for `op` in a process of pointer width `width`.
    pub fn start(op: Operation, width: PointerWidth) -> (r: (Session, Action))
        ensures
            r.0.op == op,
            r.0.width == width,
            r.0.stage == Stage::Connecting,
            r.1 == Action::Connect,
    {
        (Session { op, stage: Stage::Connecting, width }, Action::Connect)
    }

    /// Opens the dialogue for `op` on an LSA handle that is already
    /// connected and a package id that was already looked up: the session
    /// begins at the package call.
    pub fn start_on(op: Operation, handle: usize, package: AuthPackageId, width: PointerWidth) -> (r:
        (Session, Action))
        ensures
            r.0.op == op,
            r.0.width == width,
            r.0.stage is Finished <==> r.1 is Finish,
            plans_call(op, width, handle, package.0, r.0, r.1),
    {
        begin_call(op, width, handle, package.0)
    }

    /// Whether the dialogue is over.
    pub fn is_finished(&self) -> (r: bool)
        ensures
            r == (self.stage is Finished),
    {
        match self.stage {
            Stage::Finished => true,
            _ => false,
        }
    }

    /// Whether `e` is an outcome of the action the session last asked for.
    pub fn expects(&self, e: &Event) -> (r: bool)
        ensures
            r == self.accepts(*e),
    {
        match (&self.stage, e) {
            (Stage::Connecting, Event::Connected { .. }) => true,
            (Stage::LookingUp { .. }, Event::PackageFound { .. }) => true,
            (Stage::Calling { .. }, Event::PackageCalled { .. }) => true,
            (Stage::ReadingTicket { size }, Event::TicketRead { bytes }) => bytes.len()
                == *size as usize,
            (Stage::ReadingNames { entries }, Event::NamesRead { names }) => names_fit(
                entries,
                names,
            ),
            _ => false,
        }
    }

    /// Advances the dialogue with the outcome `e` of the last action.
    pub fn step(self, e: Event) -> (r: (Session, Action))
        requires
            self.accepts(e),
        ensures
            transition(self, e, r.0, r.1),
    {
        let Session { op, stage, width } = self;
        match e {
            Event::Connected { status, handle } => {
                if status != 0 {
                    let a = Action::Finish(Err(Error::Lsa { api: "LsaConnectUntrusted", status: status as u32 }));
                    (Session { op, stage: Stage::Finished, width }, a)
                } else {
                    let a = Action::LookupPackage { handle, name: kerberos_name() };
                    (Session { op, stage: Stage::LookingUp { handle }, width }, a)
                }
            },
            Event::PackageFound { status, package } => {
                let handle = match stage {
                    Stage::LookingUp { handle } => handle,
                    _ => 0,
                };
                if status != 0 {
                    let a = Action::Finish(
                        Err(Error::Lsa { api: "LsaLookupAuthenticationPackage", status: status as u32 }),
                    );
                    return (Session { op, stage: Stage::Finished, width }, a);
                }
                begin_call(op, width, handle, package)
            },
            Event::PackageCalled { status, protocol_status, response } => {
                if let Err(err) = check_call(status, protocol_status) {
                    return (Session { op, stage: Stage::Finished, width }, Action::Finish(Err(err)));
                }
                match &op {
                    Operation::RetrieveTgt { .. } => match parse_retrieve_response(response.as_slice(), width) {
                        Err(err) => (Session { op, stage: Stage::Finished, width }, Action::Finish(Err(err))),
                        Ok(t) => {
                            let a = Action::ReadTicket { address: t.address, len: t.size as usize };
                            (Session { op, stage: Stage::ReadingTicket { size: t.size }, width }, a)
                        },
                    },
                    Operation::QueryTicketCache { .. } => match parse_query_response(response.as_slice(), width) {
                        Err(err) => (Session { op, stage: Stage::Finished, width }, Action::Finish(Err(err))),
                        Ok(entries) => {
                            let regions = regions_of(&entries);
                            (Session { op, stage: Stage::ReadingNames { entries }, width }, Action::ReadNames { regions })
                        },
                    },
                    Operation::SubmitTicket { .. } => (Session { op, stage: Stage::Finished, width }, Action::Finish(Ok(Reply::Submitted))),
                    Operation::PurgeTicketCache { .. } => (Session { op, stage: Stage::Finished, width }, Action::Finish(Ok(Reply::Purged))),
                }
            },
            Event::TicketRead { bytes } => {
                let a = Action::Finish(Ok(Reply::Tgt(KrbCred::new(bytes))));
                (Session { op, stage: Stage::Finished, width }, a)
            },
            Event::NamesRead { names } => {
                let entries = match stage {
                    Stage::ReadingNames { entries } => entries,
                    _ => Vec::new(),
                };
                let infos = decode_names(&entries, &names);
                (Session { op, stage: Stage::Finished, width }, Action::Finish(Ok(Reply::TicketCache(infos))))
            },
        }
    }
}

/// The session that sends the package call of `op`, or ends with the
/// error that stops its request from being built.
fn begin_call(op: Operation, width: PointerWidth, handle: usize, package: u32) -> (r: (
    Session,
    Action,
))
    ensures
        r.0.op == op,
        r.0.width == width,
        r.0.stage is Finished <==> r.1 is Finish,
        rank(r.0.stage) <= 2,
        plans_call(op, width, handle, package, r.0, r.1),
{
    match build_request(&op, width) {
        Err(err) => (Session { op, stage: Stage::Finished, width }, Action::Finish(Err(err))),
        Ok(request) => {
            let a = Action::CallPackage { handle, package: AuthPackageId(package), request };
            (Session { op, stage: Stage::Calling { handle }, width }, a)
        },
    }
}

/// Purging for an empty server name plans the very request that purging
/// for no server name does: both purge every ticket of the cache.
pub proof fn lemma_empty_spn_purges_everything(luid: Option<Luid>, spn: String, w: PointerWidth)
    requires
        spn@.len() == 0,
    ensures
        planned_request(Operation::PurgeTicketCache { luid, target_spn: Some(spn) }, w)
            == planned_request(Operation::PurgeTicketCache { luid, target_spn: None }, w),
{
    assert(spn_units(Some(spn@)) =~= spn_units(None));
}

/// The logon session an operation acts on.
pub open spec fn operation_luid(op: Operation) -> Option<Luid> {
    match op {
        Operation::RetrieveTgt { luid } => luid,
        Operation::QueryTicketCache { luid } => luid,
        Operation::SubmitTicket { luid, .. } => luid,
        Operation::PurgeTicketCache { luid, .. } => luid,
    }
}

proof fn lemma_prefix_carried(b: Seq<u8>, message_type: u32, luid: Option<Luid>)
    requires
        b.len() >= 12,
        b.subrange(0, 12) == message_prefix(message_type, luid),
    ensures
        field(b, 0, 4) == field(message_prefix(message_type, luid), 0, 4),
        field(b, 4, 4) == field(message_prefix(message_type, luid), 4, 4),
        field(b, 8, 4) == field(message_prefix(message_type, luid), 8, 4),
{
    let p = message_prefix(message_type, luid);
    assert(b.subrange(0, 4) =~= p.subrange(0, 4));
    assert(b.subrange(4, 8) =~= p.subrange(4, 8));
    assert(b.subrange(8, 12) =~= p.subrange(8, 12));
}

/// The request every operation sends begins with its Kerberos message type
/// (`KerbRetrieveTicketMessage` 4, `KerbQueryTicketCacheMessage` 1,
/// `KerbSubmitTicketMessage` 19, `KerbPurgeTicketCacheMessage` 6) and then
/// names the operation's logon session: the given LUID's low and high
/// halves, or zero for the caller's own session.
pub proof fn lemma_requests_name_the_logon_session(op: Operation, w: PointerWidth)
    ensures
        planned_request(op, w) matches Ok((b, _)) ==> {
            &&& b.len() >= 12
            &&& field(b, 0, 4) == match op {
                Operation::RetrieveTgt { .. } => 4nat,
                Operation::QueryTicketCache { .. } => 1nat,
                Operation::SubmitTicket { .. } => 19nat,
                Operation::PurgeTicketCache { .. } => 6nat,
            }
            &&& match operation_luid(op) {
                Some(l) => field(b, 4, 4) == l.low_part && field(b, 8, 4) == l.high_part as u32,
                None => field(b, 4, 4) == 0 && field(b, 8, 4) == 0,
            }
        },
{
    if let Ok((b, _)) = planned_request(op, w) {
        let luid = operation_luid(op);
        let mt: u32 = match op {
            Operation::RetrieveTgt { .. } => 4,
            Operation::QueryTicketCache { .. } => 1,
            Operation::SubmitTicket { .. } => 19,
            Operation::PurgeTicketCache { .. } => 6,
        };
        lemma_message_prefix_fields(mt, luid);
        let p = message_prefix(mt, luid);
        assert(b.subrange(0, 12) =~= p);
        lemma_prefix_carried(b, mt, luid);
    }
}

/// What [`lemma_requests_carry_their_payload`] states of `op`.
pub open spec fn request_payload_law(op: Operation, w: PointerWidth) -> bool {

            let p = w.pointer_size() as int;
            match op {
                Operation::RetrieveTgt { .. } => planned_request(op, w) matches Ok((b, r)) && {
                    &&& b.len() == 6 * p + 16
                    &&& r is None
                    &&& forall|k: int| 12 <= k < 3 * p + 12 ==> #[trigger] b[k] == 0
                    &&& field(b, 3 * p + 12, 4) == 8
                    &&& field(b, 3 * p + 16, 4) == 0
                },
                Operation::QueryTicketCache { .. } => planned_request(op, w) matches Ok((b, r))
                    && b.len() == 12 && r is None,
                Operation::SubmitTicket { cred, .. } => {
                    if 36 + cred.encoded@.len() > u32::MAX {
                        planned_request(op, w) == Err::<(Seq<u8>, Option<Relocation>), Error>(
                            Error::Overflow,
                        )
                    } else {
                        planned_request(op, w) matches Ok((b, r)) && {
                            &&& r is None
                            &&& b.len() == 36 + cred.encoded@.len()
                            &&& forall|k: int| 12 <= k < 28 ==> #[trigger] b[k] == 0
                            &&& field(b, 28, 4) == cred.encoded@.len()
                            &&& field(b, 32, 4) == 36
                            &&& b.subrange(36, b.len() as int) == cred.encoded@
                        }
                    }
                },
                Operation::PurgeTicketCache { target_spn, .. } => {
                    let units = match target_spn {
                        Some(t) => utf16_encode(t@),
                        None => Seq::empty(),
                    };
                    let n = 2 * units.len();
                    if n > usize::MAX {
                        planned_request(op, w) is Err
                    } else if n > 65534 {
                        planned_request(op, w) == Err::<(Seq<u8>, Option<Relocation>), Error>(
                            Error::StringTooLong,
                        )
                    } else {
                        planned_request(op, w) matches Ok((b, r)) && {
                            &&& b.len() == 5 * p + 8 + n
                            &&& r == if n == 0 {
                                None
                            } else {
                                Some(
                                    Relocation {
                                        field: (2 * p + 8) as usize,
                                        target: (5 * p + 8) as usize,
                                    },
                                )
                            }
                            &&& n == 0 ==> forall|k: int|
                                p + 8 <= k < 3 * p + 8 ==> #[trigger] b[k] == 0
                            &&& n > 0 ==> field(b, p + 8, 2) == n && field(b, p + 10, 2) == n
                            &&& forall|k: int| 3 * p + 8 <= k < 5 * p + 8 ==> #[trigger] b[k] == 0
                            &&& forall|k: int|
                                0 <= k < units.len() ==> field(b, 5 * p + 8 + 2 * k, 2)
                                    == #[trigger] units[k]
                        }
                    }
                },
            }
        
}

/// Every request carries its payload at the SDK offsets, `p` being the
/// pointer size, and only the two documented limits stop one from being
/// built:
/// - retrieve: `6p + 16` bytes, an empty target name, no ticket flags,
///   cache options `KERB_RETRIEVE_TICKET_AS_KERB_CRED` (8) at `3p + 12`, any
///   encryption type;
/// - query: the 12 bytes of type and logon id;
/// - submit: a 36-byte header with `KerbCredSize` at 28 and
///   `KerbCredOffset` (36) at 32, then the credential; refused with
///   [`Error::Overflow`] past `u32::MAX` bytes;
/// - purge: a `5p + 8`-byte header whose server name counts the UTF-16
///   bytes of the target (at `p + 8` and `p + 10`) and points at them right
///   after the header, where they follow unit by unit; an empty realm;
///   refused with [`Error::StringTooLong`] past 65534 bytes of text.
pub proof fn lemma_requests_carry_their_payload(op: Operation, w: PointerWidth)
    ensures
        request_payload_law(op, w),
{
    match op {
        Operation::RetrieveTgt { .. } => lemma_retrieve_payload(op, w),
        Operation::QueryTicketCache { luid } => lemma_message_prefix_fields(1, luid),
        Operation::SubmitTicket { .. } => lemma_submit_payload(op, w),
        Operation::PurgeTicketCache { .. } => lemma_purge_payload(op, w),
    }
}

proof fn lemma_retrieve_payload(op: Operation, w: PointerWidth)
    requires
        op is RetrieveTgt,
    ensures
        request_payload_law(op, w),
{
    let p = w.pointer_size() as int;
    lemma_pow256_values();
    match op {
        Operation::RetrieveTgt { luid } => {
            lemma_retrieve_request_fields(luid, w);
            let b = retrieve_request_bytes(luid, w);
            let prefix = message_prefix(4, luid);
            let z = zeros(w.padding() as nat) + zeros(w.unicode_string_size() as nat) + le_bytes(
                0,
                4,
            );
            let rest = le_bytes(8, 4) + le_bytes(0, 4) + zeros(w.padding() as nat) + zeros(
                2 * w.pointer_size() as nat,
            );
            crate::request::lemma_prefix_len_pub(4, luid);
            lemma_le_bytes_len(0, 4);
            assert(b =~= prefix + z + rest);
            assert forall|k: int| 12 <= k < 3 * p + 12 implies #[trigger] b[k] == 0 by {
                assert(b[k] == z[k - 12]);
                let j = k - 12 - w.padding() - w.unicode_string_size();
                if j >= 0 {
                    crate::wire::lemma_le_bytes_digits(0, 4, j as nat);
                    crate::wire::lemma_pow256_pos(j as nat);
                }
            }
        },
        _ => {},
    }
}

proof fn lemma_submit_payload(op: Operation, w: PointerWidth)
    requires
        op is SubmitTicket,
    ensures
        request_payload_law(op, w),
{
    let p = w.pointer_size() as int;
    lemma_pow256_values();
    match op {
        Operation::SubmitTicket { cred, luid } => {
            if 36 + cred.encoded@.len() <= u32::MAX {
                lemma_submit_request_locates_cred(cred.encoded@, luid);
                let b = submit_request_bytes(cred.encoded@, luid);
                assert forall|k: int| 12 <= k < 28 implies #[trigger] b[k] == 0 by {
                    assert(b.subrange(12, 28)[k - 12] == b[k]);
                }
            }
        },
        _ => {},
    }
}

proof fn lemma_purge_payload(op: Operation, w: PointerWidth)
    requires
        op is PurgeTicketCache,
    ensures
        request_payload_law(op, w),
{
    let p = w.pointer_size() as int;
    lemma_pow256_values();
    match op {
        Operation::PurgeTicketCache { luid, target_spn } => {
            let units = spn_units(
                match target_spn {
                    Some(t) => Some(t@),
                    None => None,
                },
            );
            let n = 2 * units.len();
            if n <= 65534 {
                let b = purge_request_bytes(units, luid, w);
                let prefix = message_prefix(6, luid);
                let pad = zeros(w.padding() as nat);
                let server = if n == 0 {
                    zeros(w.unicode_string_size() as nat)
                } else {
                    unicode_string_bytes(n, 0, w)
                };
                let realm = zeros(w.unicode_string_size() as nat);
                let text = utf16_bytes(units);
                crate::request::lemma_prefix_len_pub(6, luid);
                lemma_le_bytes_len(n, 2);
                lemma_le_bytes_len(0, p as nat);
                lemma_utf16_bytes_units(units);
                assert(b == prefix + pad + server + realm + text);
                assert(server.len() == 2 * p);
                let head = prefix + pad + server + realm;
                assert(head.len() == 5 * p + 8);
                assert forall|k: int| 3 * p + 8 <= k < 5 * p + 8 implies #[trigger] b[k] == 0 by {
                    assert(b[k] == realm[k - 3 * p - 8]);
                }
                if n == 0 {
                    assert forall|k: int| p + 8 <= k < 3 * p + 8 implies #[trigger] b[k] == 0 by {
                        assert(b[k] == server[k - p - 8]);
                    }
                } else {
                    let l1 = le_bytes(n, 2);
                    let rest = le_bytes(n, 2) + pad + le_bytes(0, p as nat) + realm + text;
                    assert(b =~= prefix + pad + l1 + rest);
                    lemma_field_at(prefix + pad, n, 2, rest);
                    let rest2 = pad + le_bytes(0, p as nat) + realm + text;
                    assert(b =~= prefix + pad + l1 + l1 + rest2);
                    lemma_field_at(prefix + pad + l1, n, 2, rest2);
                }
                assert forall|k: int| 0 <= k < units.len() implies field(b, 5 * p + 8 + 2 * k, 2)
                    == #[trigger] units[k] by {
                    assert(b.subrange(5 * p + 8 + 2 * k, 5 * p + 8 + 2 * k + 2) =~= text.subrange(
                        2 * k,
                        2 * k + 2,
                    ));
                }
            }
        },
        _ => {},
    }
}

/// The other steps of the dialogue do what the original does with each
/// outcome, `p` being the pointer size:
/// - a failed `LsaConnectUntrusted` or `LsaLookupAuthenticationPackage`
///   ends the session with [`Error::Lsa`] naming that API and the status's
///   bits; a successful connect looks up the package named `Kerberos` on
///   the handle it got; a successful lookup calls that package on that
///   handle;
/// - a retrieve whose reply is long enough and names a non-empty ticket at
///   a non-null address reads exactly that ticket (size at `10p + 56`,
///   address at `11p + 56`), and the TGT is exactly the bytes read;
/// - a successful submit or purge ends with its success whatever the reply;
/// - a query reads, for every entry, the server then the realm name, each
///   `Length / 2` units at its buffer (none for a null buffer or a zero
///   length), and every ticket it yields carries its entry's times, type
///   and flags and the lossy UTF-16 decoding of the names read.
pub proof fn lemma_dialogue_steps(s: Session, e: Event, n: Session, a: Action)
    requires
        transition(s, e, n, a),
    ensures
        ({
            let p = s.width.pointer_size() as int;
            match e {
                Event::Connected { status, handle } => {
                    &&& status != 0 ==> a == Action::Finish(
                        Err(Error::Lsa { api: "LsaConnectUntrusted", status: status as u32 }),
                    )
                    &&& status == 0 ==> (a matches Action::LookupPackage { handle: h, name } && h
                        == handle && name@ == seq![75u8, 101u8, 114u8, 98u8, 101u8, 114u8, 111u8, 115u8])
                },
                Event::PackageFound { status, package } => {
                    &&& status != 0 ==> a == Action::Finish(
                        Err(
                            Error::Lsa { api: "LsaLookupAuthenticationPackage", status: status as u32 },
                        ),
                    )
                    &&& status == 0 && a is CallPackage ==> (s.stage matches Stage::LookingUp {
                        handle,
                    } && a->CallPackage_handle == handle && a->CallPackage_package == AuthPackageId(
                        package,
                    ))
                },
                Event::PackageCalled { status, protocol_status, response } => {
                    let r = response@;
                    let size = le_value_at(r, 10 * p + 56, 4);
                    let address = le_value_at(r, 11 * p + 56, p);
                    &&& (status == 0 && protocol_status == 0 && s.op is RetrieveTgt && r.len() >= 12
                        * p + 56 && size != 0 && address != 0) ==> a == Action::ReadTicket {
                        address: address as usize,
                        len: size as usize,
                    }
                    &&& (status == 0 && protocol_status == 0 && s.op is SubmitTicket) ==> a
                        == Action::Finish(Ok(Reply::Submitted))
                    &&& (status == 0 && protocol_status == 0 && s.op is PurgeTicketCache) ==> a
                        == Action::Finish(Ok(Reply::Purged))
                    &&& (a is ReadNames && n.stage is ReadingNames) ==> {
                        let regions = a->ReadNames_regions;
                        let entries = n.stage->ReadingNames_entries;
                        regions@.len() == 2 * entries@.len() && forall|i: int|
                        0 <= i < entries@.len() ==> {
                            let sn = (#[trigger] entries@[i]).server_name;
                            let rn = entries@[i].realm_name;
                            &&& regions@[2 * i].address == sn.buffer
                            &&& regions@[2 * i].units == if sn.buffer == 0 || sn.length == 0 {
                                0
                            } else {
                                sn.length / 2
                            }
                            &&& regions@[2 * i + 1].address == rn.buffer
                            &&& regions@[2 * i + 1].units == if rn.buffer == 0 || rn.length == 0 {
                                0
                            } else {
                                rn.length / 2
                            }
                        }
                    }
                },
                Event::TicketRead { bytes } => a matches Action::Finish(Ok(Reply::Tgt(c)))
                    && c.encoded@ == bytes@,
                Event::NamesRead { names } => s.stage matches Stage::ReadingNames { entries }
                    && a matches Action::Finish(Ok(Reply::TicketCache(infos))) && {
                    &&& infos@.len() == entries@.len()
                    &&& forall|i: int|
                        0 <= i < entries@.len() ==> {
                            let info = #[trigger] infos@[i];
                            let raw = entries@[i];
                            &&& info.server_name@ == if raw.server_name.buffer == 0
                                || raw.server_name.length == 0 {
                                Seq::<char>::empty()
                            } else {
                                utf16_lossy(names@[2 * i]@)
                            }
                            &&& info.realm_name@ == if raw.realm_name.buffer == 0
                                || raw.realm_name.length == 0 {
                                Seq::<char>::empty()
                            } else {
                                utf16_lossy(names@[2 * i + 1]@)
                            }
                            &&& info.start_time_ft == raw.start_time
                            &&& info.end_time_ft == raw.end_time
                            &&& info.renew_time_ft == raw.renew_time
                            &&& info.encryption_type == raw.encryption_type
                            &&& info.ticket_flags == raw.ticket_flags
                        }
                },
            }
        }),
{
    match e {
        Event::PackageCalled { status, protocol_status, response } => {
            if a is ReadNames {
                let entries = n.stage->ReadingNames_entries;
                let regions = a->ReadNames_regions;
                assert forall|i: int| 0 <= i < entries@.len() implies regions@[2 * i]
                    == region_of(entries@[i].server_name) && regions@[2 * i + 1] == region_of(
                    entries@[i].realm_name,
                ) by {
                    assert((2 * i) / 2 == i);
                    assert((2 * i + 1) / 2 == i);
                    assert((2 * i) % 2 == 0);
                    assert((2 * i + 1) % 2 == 1);
                }
            }
            if status == 0 && protocol_status == 0 && s.op is RetrieveTgt {
                crate::response::lemma_retrieve_reply_layout(response@, s.width);
            }
        },
        _ => {},
    }
}

/// A package call decides the outcome before anything else does: a failed
/// `LsaCallAuthenticationPackage` ends the session with [`Error::Lsa`]
/// naming it, a non-zero protocol status ends it with [`Error::Protocol`]
/// carrying that status, for every operation; only a call that succeeded
/// at both levels can end the session successfully.
pub proof fn lemma_package_call_failures_end_the_session(s: Session, e: Event, n: Session, a: Action)
    requires
        transition(s, e, n, a),
        e is PackageCalled,
    ensures
        ({
            let status = e->PackageCalled_status;
            let protocol_status = e->PackageCalled_protocol_status;
            &&& status != 0 ==> a == Action::Finish(
                Err(Error::Lsa { api: "LsaCallAuthenticationPackage", status: status as u32 }),
            )
            &&& status == 0 && protocol_status != 0 ==> a == Action::Finish(
                Err(Error::Protocol(protocol_status as u32)),
            )
            &&& a matches Action::Finish(Ok(_)) ==> status == 0 && protocol_status == 0
        }),
{
}

/// `"Kerberos"`.
pub fn kerberos_name() -> (r: Vec<u8>)
    ensures
        r@ == kerberos_package_name(),
{
    let r = vec![75u8, 101u8, 114u8, 98u8, 101u8, 114u8, 111u8, 115u8];
    assert(r@ =~= kerberos_package_name());
    r
}

fn build_request(op: &Operation, w: PointerWidth) -> (r: Result<Request>)
    ensures
        match (r, planned_request(*op, w)) {
            (Ok(req), Ok((bytes, relocation))) => {
                &&& req.bytes@ == bytes
                &&& req.relocation == relocation
                &&& req.width == w
                &&& req.wf()
            },
            (Err(e), Err(e2)) => e == e2,
            _ => false,
        },
{
    match op {
        Operation::RetrieveTgt { luid } => Ok(retrieve_ticket_request(*luid, w)),
        Operation::QueryTicketCache { luid } => Ok(query_ticket_cache_request(*luid, w)),
        Operation::SubmitTicket { cred, luid } => submit_ticket_request(cred, *luid, w),
        Operation::PurgeTicketCache { luid, target_spn } => {
            let spn: Option<&str> = match target_spn {
                Some(s) => Some(s.as_str()),
                None => None,
            };
            purge_ticket_cache_request(*luid, spn, w)
        },
    }
}

fn region(s: &UnicodeStringRef) -> (r: Utf16Region)
    ensures
        r == region_of(*s),
{
    Utf16Region { address: s.buffer, units: s.unit_count() }
}

fn regions_of(entries: &Vec<RawTicketCacheEntry>) -> (r: Vec<Utf16Region>)
    ensures
        r@ == name_regions(entries@),
{
    let mut out: Vec<Utf16Region> = Vec::new();
    let mut i: usize = 0;
    while i < entries.len()
        invariant
            i <= entries@.len(),
            out@.len() == 2 * i,
            forall|k: int| 0 <= k < 2 * i ==> out@[k] == name_regions(entries@)[k],
        decreases entries@.len() - i,
    {
        out.push(region(&entries[i].server_name));
        out.push(region(&entries[i].realm_name));
        assert forall|k: int| 0 <= k < 2 * (i + 1) implies out@[k] == name_regions(entries@)[k] by {
            if k >= 2 * i {
                assert(k / 2 == i);
            }
        }
        i = i + 1;
    }
    assert(out@ =~= name_regions(entries@));
    out
}

fn names_fit(entries: &Vec<RawTicketCacheEntry>, names: &Vec<Vec<u16>>) -> (r: bool)
    ensures
        r == ({
            &&& names@.len() == name_regions(entries@).len()
            &&& forall|k: int|
                0 <= k < names@.len() ==> (#[trigger] names@[k])@.len() == name_regions(
                    entries@,
                )[k].units
        }),
{
    let regions = regions_of(entries);
    if names.len() != regions.len() {
        return false;
    }
    let mut k: usize = 0;
    while k < names.len()
        invariant
            k <= names@.len(),
            names@.len() == regions@.len(),
            regions@ == name_regions(entries@),
            forall|j: int| 0 <= j < k ==> (#[trigger] names@[j])@.len() == regions@[j].units,
        decreases names@.len() - k,
    {
        if names[k].len() != regions[k].units {
            return false;
        }
        k = k + 1;
    }
    true
}

fn decode_names(entries: &Vec<RawTicketCacheEntry>, names: &Vec<Vec<u16>>) -> (r: Vec<TicketCacheInfo>)
    requires
        names@.len() == name_regions(entries@).len(),
        forall|k: int|
            0 <= k < names@.len() ==> (#[trigger] names@[k])@.len() == name_regions(entries@)[k].units,
    ensures
        ticket_cache_matches(r@, entries@, names@),
{
    let mut out: Vec<TicketCacheInfo> = Vec::new();
    let mut i: usize = 0;
    while i < entries.len()
        invariant
            i <= entries@.len(),
            names@.len() == 2 * entries@.len(),
            names@.len() == names.len(),
            forall|k: int|
                0 <= k < names@.len() ==> (#[trigger] names@[k])@.len() == name_regions(
                    entries@,
                )[k].units,
            out@.len() == i,
            forall|j: int|
                0 <= j < i ==> info_matches(
                    #[trigger] out@[j],
                    entries@[j],
                    names@[2 * j]@,
                    names@[2 * j + 1]@,
                ),
        decreases entries@.len() - i,
    {
        assert(names@[2 * i as int]@.len() == name_regions(entries@)[2 * i as int].units);
        assert(names@[2 * i + 1]@.len() == name_regions(entries@)[2 * i + 1].units);
        assert((2 * i as int) / 2 == i);
        assert((2 * i + 1) / 2 == i);
        let info = TicketCacheInfo::from_raw(
            &entries[i],
            names[2 * i].as_slice(),
            names[2 * i + 1].as_slice(),
        );
        out.push(info);
        i = i + 1;
    }
    out
}

} // verus!
