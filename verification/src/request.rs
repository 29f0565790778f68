//! The four Kerberos package requests, encoded byte for byte.

use vstd::prelude::*;
use crate::error::{Error, Result};
use crate::layout::{
    PointerWidth, KERB_ETYPE_DEFAULT, KERB_PURGE_TICKET_CACHE, KERB_QUERY_TICKET_CACHE,
    KERB_RETRIEVE_TICKET, KERB_RETRIEVE_TICKET_AS_KERB_CRED, KERB_SUBMIT_TICKET, QUERY_REQUEST_SIZE,
    SUBMIT_REQUEST_HEADER_SIZE,
};
use crate::text::{encode_utf16, utf16_encode};
use crate::types::{KrbCred, Luid};
use crate::wire::{
    field, le_bytes, lemma_field_at, lemma_le_bytes_len, lemma_pow256_values, pow256, push_le,
    push_zeros, write_le, zeros,
};

verus! {

/// A pointer field of a request that must hold the address of a byte of
/// the request itself.
#[derive(Clone, Copy, Debug, PartialEq, Eq, Structural)]
pub struct Relocation {
    /// Offset of the pointer field.
    pub field: usize,
    /// Offset of the byte whose address the field holds.
    pub target: usize,
}

/// A request buffer for `LsaCallAuthenticationPackage`.
///
/// When `relocation` is present, the buffer must be bound to its own
/// address with [`Request::bind`] before it is submitted.
pub struct Request {
    pub bytes: Vec<u8>,
    pub relocation: Option<Relocation>,
    pub width: PointerWidth,
}

impl Request {
    /// The relocation lies inside the buffer and the buffer's length fits
    /// the `u32` that `LsaCallAuthenticationPackage` takes.
    pub open spec fn wf(&self) -> bool {
        &&& self.bytes@.len() <= u32::MAX
        &&& match self.relocation {
            Some(r) => r.field + self.width.pointer_size() <= r.target <= self.bytes@.len(),
            None => true,
        }
    }

    /// The bytes once the buffer lies at address `base`.
    pub open spec fn bound_bytes(&self, base: nat) -> Seq<u8> {
        match self.relocation {
            None => self.bytes@,
            Some(r) => self.bytes@.subrange(0, r.field as int) + le_bytes(
                (base + r.target) as nat,
                self.width.pointer_size() as nat,
            ) + self.bytes@.subrange(
                r.field + self.width.pointer_size(),
                self.bytes@.len() as int,
            ),
        }
    }

    /// Writes the buffer's own address, `base`, into its self-referencing
    /// pointer field, if it has one.
    pub fn bind(&mut self, base: usize)
        requires
            old(self).wf(),
            base + old(self).bytes@.len() <= usize::MAX,
        ensures
            final(self).bytes@ == old(self).bound_bytes(base as nat),
            final(self).relocation == old(self).relocation,
            final(self).width == old(self).width,
            final(self).wf(),
    {
        if let Some(r) = self.relocation {
            let p = self.width.pointer_size();
            write_le(&mut self.bytes, r.field, (base + r.target) as u64, p);
            proof {
                lemma_le_bytes_len((base + r.target) as nat, p as nat);
            }
        }
    }
}

/// The logon id a request names: the given LUID, or zero for the caller's
/// own logon session.
pub open spec fn logon_id(luid: Option<Luid>) -> Luid {
    match luid {
        Some(l) => l,
        None => Luid { low_part: 0, high_part: 0 },
    }
}

/// The eight bytes of a `LUID` field.
pub open spec fn luid_bytes(l: Luid) -> Seq<u8> {
    le_bytes(l.low_part as nat, 4) + le_bytes((l.high_part as u32) as nat, 4)
}

/// A `UNICODE_STRING` of `len` bytes whose buffer is at `address`.
pub open spec fn unicode_string_bytes(len: nat, address: nat, w: PointerWidth) -> Seq<u8> {
    le_bytes(len, 2) + le_bytes(len, 2) + zeros(w.padding() as nat) + le_bytes(
        address,
        w.pointer_size() as nat,
    )
}

/// The bytes of a request's message type and logon id.
pub open spec fn message_prefix(message_type: u32, luid: Option<Luid>) -> Seq<u8> {
    le_bytes(message_type as nat, 4) + luid_bytes(logon_id(luid))
}

/// `KERB_RETRIEVE_TKT_REQUEST`: no target name (so the TGT), no ticket
/// flags, the cached ticket as a KRB-CRED, any encryption type, no
/// credentials handle.
pub open spec fn retrieve_request_bytes(luid: Option<Luid>, w: PointerWidth) -> Seq<u8> {
    message_prefix(KERB_RETRIEVE_TICKET, luid) + zeros(w.padding() as nat) + zeros(
        w.unicode_string_size() as nat,
    ) + le_bytes(0, 4) + le_bytes(KERB_RETRIEVE_TICKET_AS_KERB_CRED as nat, 4) + le_bytes(
        (KERB_ETYPE_DEFAULT as u32) as nat,
        4,
    ) + zeros(w.padding() as nat) + zeros(2 * w.pointer_size() as nat)
}

/// `KERB_QUERY_TKT_CACHE_REQUEST`.
pub open spec fn query_request_bytes(luid: Option<Luid>) -> Seq<u8> {
    message_prefix(KERB_QUERY_TICKET_CACHE, luid)
}

/// `KERB_SUBMIT_TKT_REQUEST` followed by the KRB-CRED: no flags, no key,
/// and the credential's size and offset.
pub open spec fn submit_request_bytes(cred: Seq<u8>, luid: Option<Luid>) -> Seq<u8> {
    message_prefix(KERB_SUBMIT_TICKET, luid) + zeros(16) + le_bytes(cred.len(), 4) + le_bytes(
        SUBMIT_REQUEST_HEADER_SIZE as nat,
        4,
    ) + cred
}

/// The little-endian bytes of a UTF-16 text.
pub open spec fn utf16_bytes(units: Seq<u16>) -> Seq<u8>
    decreases units.len(),
{
    if units.len() == 0 {
        Seq::empty()
    } else {
        le_bytes(units[0] as nat, 2) + utf16_bytes(units.drop_first())
    }
}

/// The text bytes of a UTF-16 string hold unit `k` little-endian at `2k`.
pub proof fn lemma_utf16_bytes_units(units: Seq<u16>)
    ensures
        utf16_bytes(units).len() == 2 * units.len(),
        forall|k: int| 0 <= k < units.len() ==> field(utf16_bytes(units), 2 * k, 2) == #[trigger] units[k],
    decreases units.len(),
{
    lemma_utf16_bytes_len(units);
    if units.len() > 0 {
        let rest = units.drop_first();
        lemma_utf16_bytes_units(rest);
        lemma_pow256_values();
        let head = le_bytes(units[0] as nat, 2);
        lemma_le_bytes_len(units[0] as nat, 2);
        assert forall|k: int| 0 <= k < units.len() implies field(utf16_bytes(units), 2 * k, 2)
            == #[trigger] units[k] by {
            if k == 0 {
                lemma_field_at(Seq::<u8>::empty(), units[0] as nat, 2, utf16_bytes(rest));
                assert(utf16_bytes(units) =~= Seq::<u8>::empty() + head + utf16_bytes(rest));
            } else {
                assert(units[k] == rest[k - 1]);
                assert(utf16_bytes(units).subrange(2 * k, 2 * k + 2) =~= utf16_bytes(rest).subrange(
                    2 * (k - 1),
                    2 * (k - 1) + 2,
                ));
            }
        }
    }
}

/// The UTF-16 code units of the target server name; none purges everything.
pub open spec fn spn_units(target_spn: Option<Seq<char>>) -> Seq<u16> {
    match target_spn {
        Some(s) => utf16_encode(s),
        None => Seq::empty(),
    }
}

/// `KERB_PURGE_TKT_CACHE_REQUEST` followed by the server name's UTF-16 text:
/// the server name points at the text (its address is filled in by
/// [`Request::bind`]), or is empty when there is no text; the realm name is
/// always empty.
pub open spec fn purge_request_bytes(units: Seq<u16>, luid: Option<Luid>, w: PointerWidth) -> Seq<
    u8,
> {
    let n = 2 * units.len();
    message_prefix(KERB_PURGE_TICKET_CACHE, luid) + zeros(w.padding() as nat) + (if n == 0 {
        zeros(w.unicode_string_size() as nat)
    } else {
        unicode_string_bytes(n, 0, w)
    }) + zeros(w.unicode_string_size() as nat) + utf16_bytes(units)
}

/// The largest server-name text, in bytes, a purge request carries: the
/// largest even byte count a `UNICODE_STRING` can hold, 65534.
pub open spec fn max_spn_bytes() -> nat {
    65534
}

/// Every request begins with its message type and the two halves of the
/// logon id it names, each a 32-bit little-endian field.
pub proof fn lemma_message_prefix_fields(message_type: u32, luid: Option<Luid>)
    ensures
        ({
            let b = message_prefix(message_type, luid);
            let l = logon_id(luid);
            &&& b.len() == 12
            &&& field(b, 0, 4) == message_type
            &&& field(b, 4, 4) == l.low_part
            &&& field(b, 8, 4) == l.high_part as u32
        }),
{
    let l = logon_id(luid);
    let t = le_bytes(message_type as nat, 4);
    let lo = le_bytes(l.low_part as nat, 4);
    let hi = le_bytes((l.high_part as u32) as nat, 4);
    lemma_pow256_values();
    lemma_prefix_len(message_type, luid);
    let e = Seq::<u8>::empty();
    assert(message_prefix(message_type, luid) =~= e + t + (lo + hi));
    lemma_field_at(e, message_type as nat, 4, lo + hi);
    assert(message_prefix(message_type, luid) =~= t + lo + hi);
    lemma_field_at(t, l.low_part as nat, 4, hi);
    lemma_le_bytes_len(message_type as nat, 4);
    lemma_le_bytes_len(l.low_part as nat, 4);
    lemma_field_at(t + lo, (l.high_part as u32) as nat, 4, e);
    assert(t + lo + hi =~= t + lo + hi + e);
}

/// A retrieve request names the TGT: its message type is
/// `KerbRetrieveTicketMessage`, its target name is empty, and it asks for
/// the cached ticket as a KRB-CRED with any encryption type.
pub proof fn lemma_retrieve_request_fields(luid: Option<Luid>, w: PointerWidth)
    ensures
        ({
            let b = retrieve_request_bytes(luid, w);
            let target = 12 + w.padding();
            let options = target + w.unicode_string_size();
            &&& b.len() == w.retrieve_request_size()
            &&& b.subrange(0, 12) == message_prefix(KERB_RETRIEVE_TICKET, luid)
            &&& b.subrange(target as int, options as int) == zeros(
                w.unicode_string_size() as nat,
            )
            &&& field(b, options as int, 4) == 0
            &&& field(b, options + 4, 4) == KERB_RETRIEVE_TICKET_AS_KERB_CRED
            &&& field(b, options + 8, 4) == KERB_ETYPE_DEFAULT as u32
        }),
{
    let prefix = message_prefix(KERB_RETRIEVE_TICKET, luid);
    let pad = zeros(w.padding() as nat);
    let us = zeros(w.unicode_string_size() as nat);
    let f = le_bytes(0, 4);
    let o = le_bytes(KERB_RETRIEVE_TICKET_AS_KERB_CRED as nat, 4);
    let et = le_bytes((KERB_ETYPE_DEFAULT as u32) as nat, 4);
    let tail = zeros(w.padding() as nat) + zeros(2 * w.pointer_size() as nat);
    lemma_pow256_values();
    lemma_prefix_len(KERB_RETRIEVE_TICKET, luid);
    lemma_le_bytes_len(0, 4);
    lemma_le_bytes_len(KERB_RETRIEVE_TICKET_AS_KERB_CRED as nat, 4);
    lemma_le_bytes_len((KERB_ETYPE_DEFAULT as u32) as nat, 4);
    let b = retrieve_request_bytes(luid, w);
    assert(b =~= prefix + pad + us + f + (o + et + tail));
    assert(b.subrange(0, 12) =~= prefix);
    assert(b.subrange(12 + w.padding(), 12 + w.padding() + w.unicode_string_size()) =~= us);
    lemma_field_at(prefix + pad + us, 0, 4, o + et + tail);
    assert(b =~= prefix + pad + us + f + o + (et + tail));
    lemma_field_at(prefix + pad + us + f, KERB_RETRIEVE_TICKET_AS_KERB_CRED as nat, 4, et + tail);
    assert(b =~= prefix + pad + us + f + o + et + tail);
    lemma_field_at(prefix + pad + us + f + o, (KERB_ETYPE_DEFAULT as u32) as nat, 4, tail);
}

/// A submit request locates its KRB-CRED: the header's `KerbCredOffset`
/// and `KerbCredSize` fields delimit exactly the credential's bytes, which
/// end the request.
pub proof fn lemma_submit_request_locates_cred(cred: Seq<u8>, luid: Option<Luid>)
    requires
        SUBMIT_REQUEST_HEADER_SIZE + cred.len() <= u32::MAX,
    ensures
        ({
            let b = submit_request_bytes(cred, luid);
            let offset = field(b, 32, 4);
            let size = field(b, 28, 4);
            &&& b.subrange(0, 12) == message_prefix(KERB_SUBMIT_TICKET, luid)
            &&& b.subrange(12, 28) == zeros(16)
            &&& offset == SUBMIT_REQUEST_HEADER_SIZE
            &&& size == cred.len()
            &&& b.len() == offset + size
            &&& b.subrange(offset as int, (offset + size) as int) == cred
        }),
{
    let prefix = message_prefix(KERB_SUBMIT_TICKET, luid);
    let z = zeros(16);
    let sz = le_bytes(cred.len(), 4);
    let off = le_bytes(SUBMIT_REQUEST_HEADER_SIZE as nat, 4);
    lemma_pow256_values();
    lemma_prefix_len(KERB_SUBMIT_TICKET, luid);
    lemma_le_bytes_len(cred.len(), 4);
    lemma_le_bytes_len(SUBMIT_REQUEST_HEADER_SIZE as nat, 4);
    let b = submit_request_bytes(cred, luid);
    assert(b =~= prefix + z + sz + (off + cred));
    assert(b.subrange(0, 12) =~= prefix);
    assert(b.subrange(12, 28) =~= z);
    lemma_field_at(prefix + z, cred.len(), 4, off + cred);
    assert(b =~= prefix + z + sz + off + cred);
    lemma_field_at(prefix + z + sz, SUBMIT_REQUEST_HEADER_SIZE as nat, 4, cred);
    assert(b.subrange(36, 36 + cred.len() as int) =~= cred);
}

/// A purge request for a server name, once bound to the address `base`,
/// carries the name in place: `ServerName` counts its UTF-16 bytes and
/// points at them right after the fixed part, where they are; `RealmName`
/// is empty.
pub proof fn lemma_purge_request_locates_spn(
    req: Request,
    units: Seq<u16>,
    luid: Option<Luid>,
    base: nat,
)
    requires
        0 < 2 * units.len() <= max_spn_bytes(),
        req.bytes@ == purge_request_bytes(units, luid, req.width),
        req.relocation == Some(
            Relocation {
                field: (req.width.purge_server_name_offset()
                    + req.width.unicode_string_buffer_offset()) as usize,
                target: req.width.purge_request_header_size(),
            },
        ),
        base + req.width.purge_request_header_size() < pow256(req.width.pointer_size() as nat),
    ensures
        ({
            let w = req.width;
            let b = req.bound_bytes(base);
            let so = w.purge_server_name_offset();
            let n = 2 * units.len();
            let text = w.purge_request_header_size();
            &&& b.subrange(0, 12) == message_prefix(KERB_PURGE_TICKET_CACHE, luid)
            &&& field(b, so as int, 2) == n
            &&& field(b, so + 2, 2) == n
            &&& field(b, so + w.pointer_size(), w.pointer_size() as int) == base + text
            &&& b.subrange(so + w.unicode_string_size(), text as int) == zeros(
                w.unicode_string_size() as nat,
            )
            &&& b.len() == text + n
            &&& b.subrange(text as int, text + n) == utf16_bytes(units)
        }),
{
    let w = req.width;
    let p = w.pointer_size() as nat;
    let n = 2 * units.len();
    let prefix = message_prefix(KERB_PURGE_TICKET_CACHE, luid);
    let pad = zeros(w.padding() as nat);
    let len1 = le_bytes(n, 2);
    let len2 = le_bytes(n, 2);
    let pad2 = zeros(w.padding() as nat);
    let ptr = le_bytes((base + w.purge_request_header_size()) as nat, p);
    let realm = zeros(w.unicode_string_size() as nat);
    let text = utf16_bytes(units);
    lemma_pow256_values();
    lemma_prefix_len(KERB_PURGE_TICKET_CACHE, luid);
    lemma_le_bytes_len(n, 2);
    lemma_le_bytes_len(0, p);
    lemma_le_bytes_len((base + w.purge_request_header_size()) as nat, p);
    lemma_utf16_bytes_len(units);
    let b0 = req.bytes@;
    assert(b0 =~= prefix + pad + (len1 + len2 + pad2 + le_bytes(0, p)) + realm + text);
    let fld = (w.purge_server_name_offset() + w.unicode_string_buffer_offset()) as int;
    let b = req.bound_bytes(base);
    assert(b =~= b0.subrange(0, fld) + ptr + b0.subrange(fld + p, b0.len() as int));
    assert(b =~= prefix + pad + len1 + (len2 + pad2 + ptr + realm + text));
    assert(b.subrange(0, 12) =~= prefix);
    lemma_field_at(prefix + pad, n, 2, len2 + pad2 + ptr + realm + text);
    assert(b =~= prefix + pad + len1 + len2 + (pad2 + ptr + realm + text));
    lemma_field_at(prefix + pad + len1, n, 2, pad2 + ptr + realm + text);
    assert(b =~= prefix + pad + len1 + len2 + pad2 + ptr + (realm + text));
    lemma_field_at(
        prefix + pad + len1 + len2 + pad2,
        (base + w.purge_request_header_size()) as nat,
        p,
        realm + text,
    );
    let so = w.purge_server_name_offset() as int;
    assert(b.subrange(so + w.unicode_string_size(), w.purge_request_header_size() as int)
        =~= realm);
    assert(b.subrange(
        w.purge_request_header_size() as int,
        w.purge_request_header_size() + n,
    ) =~= text);
}

/// The logon id of a request: the given LUID, or zero.
pub fn to_win_luid(luid: Option<Luid>) -> (r: Luid)
    ensures
        r == logon_id(luid),
{
    match luid {
        None => Luid::zero(),
        Some(l) => Luid::new(l.low_part, l.high_part),
    }
}

fn push_message_prefix(out: &mut Vec<u8>, message_type: u32, luid: Option<Luid>)
    ensures
        final(out)@ == old(out)@ + message_prefix(message_type, luid),
{
    let l = to_win_luid(luid);
    push_le(out, message_type as u64, 4);
    push_le(out, l.low_part as u64, 4);
    push_le(out, (l.high_part as u32) as u64, 4);
    assert(out@ =~= old(out)@ + message_prefix(message_type, luid));
}

/// The message type and logon id take 12 bytes.
pub proof fn lemma_prefix_len_pub(message_type: u32, luid: Option<Luid>)
    ensures
        message_prefix(message_type, luid).len() == 12,
{
    lemma_prefix_len(message_type, luid);
}

proof fn lemma_prefix_len(message_type: u32, luid: Option<Luid>)
    ensures
        message_prefix(message_type, luid).len() == 12,
{
    let l = logon_id(luid);
    lemma_le_bytes_len(message_type as nat, 4);
    lemma_le_bytes_len(l.low_part as nat, 4);
    lemma_le_bytes_len((l.high_part as u32) as nat, 4);
}

/// Builds the `KerbRetrieveTicketMessage` request for the TGT of `luid`'s
/// logon session (the caller's own when `None`).
pub fn retrieve_ticket_request(luid: Option<Luid>, w: PointerWidth) -> (r: Request)
    ensures
        r.bytes@ == retrieve_request_bytes(luid, w),
        r.bytes@.len() == w.retrieve_request_size(),
        r.relocation is None,
        r.width == w,
        r.wf(),
{
    let mut out: Vec<u8> = Vec::new();
    push_message_prefix(&mut out, KERB_RETRIEVE_TICKET, luid);
    push_zeros(&mut out, w.padding());
    push_zeros(&mut out, w.unicode_string_size());
    push_le(&mut out, 0, 4);
    push_le(&mut out, KERB_RETRIEVE_TICKET_AS_KERB_CRED as u64, 4);
    push_le(&mut out, (KERB_ETYPE_DEFAULT as u32) as u64, 4);
    push_zeros(&mut out, w.padding());
    push_zeros(&mut out, 2 * w.pointer_size());
    proof {
        lemma_prefix_len(KERB_RETRIEVE_TICKET, luid);
        lemma_le_bytes_len(0, 4);
        lemma_le_bytes_len(KERB_RETRIEVE_TICKET_AS_KERB_CRED as nat, 4);
        lemma_le_bytes_len((KERB_ETYPE_DEFAULT as u32) as nat, 4);
    }
    assert(out@ =~= retrieve_request_bytes(luid, w));
    Request { bytes: out, relocation: None, width: w }
}

/// Builds the `KerbQueryTicketCacheMessage` request for `luid`'s logon
/// session (the caller's own when `None`).
pub fn query_ticket_cache_request(luid: Option<Luid>, w: PointerWidth) -> (r: Request)
    ensures
        r.bytes@ == query_request_bytes(luid),
        r.bytes@.len() == QUERY_REQUEST_SIZE,
        r.relocation is None,
        r.width == w,
        r.wf(),
{
    let mut out: Vec<u8> = Vec::new();
    push_message_prefix(&mut out, KERB_QUERY_TICKET_CACHE, luid);
    proof {
        lemma_prefix_len(KERB_QUERY_TICKET_CACHE, luid);
    }
    assert(out@ =~= query_request_bytes(luid));
    Request { bytes: out, relocation: None, width: w }
}

/// Builds the `KerbSubmitTicketMessage` request that injects `cred` (which
/// must already be an ASN.1-DER KRB-CRED) into `luid`'s ticket cache.
///
/// Fails with [`Error::Overflow`] exactly when the request would be longer
/// than `u32::MAX` bytes.
pub fn submit_ticket_request(cred: &KrbCred, luid: Option<Luid>, w: PointerWidth) -> (r: Result<
    Request,
>)
    ensures
        SUBMIT_REQUEST_HEADER_SIZE + cred.encoded@.len() > u32::MAX <==> r is Err,
        r matches Err(e) ==> e == Error::Overflow,
        r matches Ok(req) ==> {
            &&& req.bytes@ == submit_request_bytes(cred.encoded@, luid)
            &&& req.relocation is None
            &&& req.width == w
            &&& req.wf()
        },
{
    let len = cred.encoded.len();
    let total = match SUBMIT_REQUEST_HEADER_SIZE.checked_add(len) {
        Some(t) => t,
        None => return Err(Error::Overflow),
    };
    if total > u32::MAX as usize {
        return Err(Error::Overflow);
    }
    let mut out: Vec<u8> = Vec::new();
    push_message_prefix(&mut out, KERB_SUBMIT_TICKET, luid);
    push_zeros(&mut out, 16);
    push_le(&mut out, len as u64, 4);
    push_le(&mut out, SUBMIT_REQUEST_HEADER_SIZE as u64, 4);
    let ghost header = out@;
    let mut i: usize = 0;
    while i < len
        invariant
            i <= len,
            len == cred.encoded@.len(),
            out@ =~= header + cred.encoded@.subrange(0, i as int),
        decreases len - i,
    {
        out.push(cred.encoded[i]);
        assert(cred.encoded@.subrange(0, i + 1) =~= cred.encoded@.subrange(0, i as int).push(
            cred.encoded@[i as int],
        ));
        i = i + 1;
    }
    proof {
        lemma_prefix_len(KERB_SUBMIT_TICKET, luid);
        lemma_le_bytes_len(len as nat, 4);
        lemma_le_bytes_len(SUBMIT_REQUEST_HEADER_SIZE as nat, 4);
    }
    assert(cred.encoded@.subrange(0, len as int) =~= cred.encoded@);
    assert(out@ =~= submit_request_bytes(cred.encoded@, luid));
    Ok(Request { bytes: out, relocation: None, width: w })
}

proof fn lemma_utf16_bytes_len(units: Seq<u16>)
    ensures
        utf16_bytes(units).len() == 2 * units.len(),
    decreases units.len(),
{
    if units.len() > 0 {
        lemma_le_bytes_len(units[0] as nat, 2);
        lemma_utf16_bytes_len(units.drop_first());
    }
}

proof fn lemma_utf16_bytes_push(units: Seq<u16>, u: u16)
    ensures
        utf16_bytes(units.push(u)) == utf16_bytes(units) + le_bytes(u as nat, 2),
    decreases units.len(),
{
    if units.len() == 0 {
        assert(units.push(u).drop_first() =~= Seq::<u16>::empty());
        assert(utf16_bytes(Seq::<u16>::empty()) =~= Seq::<u8>::empty());
        assert(utf16_bytes(units.push(u)) =~= le_bytes(u as nat, 2));
    } else {
        assert(units.push(u).drop_first() =~= units.drop_first().push(u));
        lemma_utf16_bytes_push(units.drop_first(), u);
        assert(utf16_bytes(units.push(u)) =~= utf16_bytes(units) + le_bytes(u as nat, 2));
    }
}

/// Builds the `KerbPurgeTicketCacheMessage` request that purges the tickets
/// of `target_spn` (across realms) from `luid`'s ticket cache, or every
/// ticket when `target_spn` is `None`.
///
/// Fails with [`Error::StringTooLong`] exactly when the server name's UTF-16
/// text is longer than 65534 bytes (and with [`Error::Overflow`] if its byte
/// count does not even fit in a `usize`).
pub fn purge_ticket_cache_request(
    luid: Option<Luid>,
    target_spn: Option<&str>,
    w: PointerWidth,
) -> (r: Result<Request>)
    ensures
        ({
            let units = spn_units(
                match target_spn {
                    Some(s) => Some(s@),
                    None => None,
                },
            );
            &&& 2 * units.len() > usize::MAX ==> r == Err::<Request, Error>(Error::Overflow)
            &&& 2 * units.len() <= usize::MAX ==> (2 * units.len() > max_spn_bytes() <==> r is Err)
            &&& 2 * units.len() <= usize::MAX ==> (r matches Err(e) ==> e == Error::StringTooLong)
            &&& r matches Ok(req) ==> {
                &&& req.bytes@ == purge_request_bytes(units, luid, w)
                &&& req.width == w
                &&& req.wf()
                &&& req.relocation == (if units.len() == 0 {
                    None
                } else {
                    Some(
                        Relocation {
                            field: (w.purge_server_name_offset()
                                + w.unicode_string_buffer_offset()) as usize,
                            target: w.purge_request_header_size(),
                        },
                    )
                })
            }
        }),
{
    let spn_utf16: Vec<u16> = match target_spn {
        None => Vec::new(),
        Some(s) => encode_utf16(s),
    };
    let ghost units = spn_utf16@;
    let count = spn_utf16.len();
    let spn_bytes = match count.checked_mul(2) {
        Some(b) => b,
        None => return Err(Error::Overflow),
    };
    if spn_bytes > 65534 {
        return Err(Error::StringTooLong);
    }
    let mut out: Vec<u8> = Vec::new();
    push_message_prefix(&mut out, KERB_PURGE_TICKET_CACHE, luid);
    push_zeros(&mut out, w.padding());
    if spn_bytes == 0 {
        push_zeros(&mut out, w.unicode_string_size());
    } else {
        push_le(&mut out, spn_bytes as u64, 2);
        push_le(&mut out, spn_bytes as u64, 2);
        push_zeros(&mut out, w.padding());
        push_le(&mut out, 0, w.pointer_size());
    }
    push_zeros(&mut out, w.unicode_string_size());
    let ghost header = out@;
    let mut i: usize = 0;
    while i < count
        invariant
            i <= count,
            count == units.len(),
            spn_utf16@ == units,
            out@ =~= header + utf16_bytes(units.subrange(0, i as int)),
        decreases count - i,
    {
        proof {
            lemma_utf16_bytes_push(units.subrange(0, i as int), units[i as int]);
            assert(units.subrange(0, i + 1) =~= units.subrange(0, i as int).push(units[i as int]));
        }
        push_le(&mut out, spn_utf16[i] as u64, 2);
        i = i + 1;
    }
    proof {
        lemma_prefix_len(KERB_PURGE_TICKET_CACHE, luid);
        lemma_le_bytes_len(spn_bytes as nat, 2);
        lemma_le_bytes_len(0, w.pointer_size() as nat);
        lemma_utf16_bytes_len(units);
        assert(units.subrange(0, count as int) =~= units);
    }
    assert(out@ =~= purge_request_bytes(units, luid, w));
    let relocation = if count == 0 {
        None
    } else {
        Some(
            Relocation {
                field: w.purge_server_name_offset() + w.unicode_string_buffer_offset(),
                target: w.purge_request_header_size(),
            },
        )
    };
    Ok(Request { bytes: out, relocation, width: w })
}

} // verus!
