//! Validation and decoding of the Kerberos package replies.

use vstd::prelude::*;
use crate::error::{Error, Result};
use crate::layout::{PointerWidth, QUERY_RESPONSE_HEADER_SIZE};
use crate::text::{string_from_utf16_lossy, utf16_lossy};
use crate::types::TicketCacheInfo;
use crate::wire::{
    field, le_bytes, lemma_le_roundtrip, lemma_le_value_bound, lemma_pow256_values, pow256, read_le,
};

verus! {

/// Where the encoded ticket of a `KerbRetrieveTicketMessage` reply lies:
/// `size` bytes at `address` in the reply's memory.
#[derive(Clone, Copy, Debug, PartialEq, Eq, Structural)]
pub struct EncodedTicketRef {
    pub address: usize,
    pub size: u32,
}

/// A `UNICODE_STRING` of a reply: `length` bytes of UTF-16 at `buffer`.
#[derive(Clone, Copy, Debug, PartialEq, Eq, Structural)]
pub struct UnicodeStringRef {
    pub length: u16,
    pub maximum_length: u16,
    pub buffer: usize,
}

/// One `KERB_TICKET_CACHE_INFO` of a query reply, names still in the
/// reply's memory.
#[derive(Clone, Copy, Debug, PartialEq, Eq, Structural)]
pub struct RawTicketCacheEntry {
    pub server_name: UnicodeStringRef,
    pub realm_name: UnicodeStringRef,
    pub start_time: i64,
    pub end_time: i64,
    pub renew_time: i64,
    pub encryption_type: i32,
    pub ticket_flags: u32,
}

impl UnicodeStringRef {
    /// How many UTF-16 units of the string's buffer are text: none for a
    /// null buffer or a zero length, else half the byte length.
    #[verifier::allow_in_spec]
    pub fn unit_count(&self) -> usize
        returns
            (if self.buffer == 0 || self.length == 0 {
                0usize
            } else {
                (self.length / 2) as usize
            }),
    {
        if self.buffer == 0 || self.length == 0 {
            0
        } else {
            (self.length / 2) as usize
        }
    }
}

/// The text of a string whose `unit_count` buffer units are `units`.
pub open spec fn unicode_text(s: UnicodeStringRef, units: Seq<u16>) -> Seq<char> {
    if s.buffer == 0 || s.length == 0 {
        Seq::empty()
    } else {
        utf16_lossy(units)
    }
}

/// Decodes the string whose buffer units are `units`: empty for a null
/// buffer or zero length, else the lossy UTF-16 decoding of the units.
pub fn unicode_string_to_string(s: &UnicodeStringRef, units: &[u16]) -> (r: String)
    requires
        units@.len() == s.unit_count(),
    ensures
        r@ == unicode_text(*s, units@),
{
    if s.buffer == 0 || s.length == 0 {
        return String::new();
    }
    string_from_utf16_lossy(units)
}

/// The `UNICODE_STRING` of `s` at `off`.
pub open spec fn decode_unicode_string(s: Seq<u8>, off: int, w: PointerWidth) -> UnicodeStringRef {
    UnicodeStringRef {
        length: field(s, off, 2) as u16,
        maximum_length: field(s, off + 2, 2) as u16,
        buffer: field(s, off + w.pointer_size(), w.pointer_size() as int) as usize,
    }
}

/// The `KERB_TICKET_CACHE_INFO` of `s` at `off`.
pub open spec fn decode_cache_entry(s: Seq<u8>, off: int, w: PointerWidth) -> RawTicketCacheEntry {
    let t = off + w.cache_entry_times_offset();
    RawTicketCacheEntry {
        server_name: decode_unicode_string(s, off, w),
        realm_name: decode_unicode_string(s, off + w.unicode_string_size(), w),
        start_time: field(s, t, 8) as i64,
        end_time: field(s, t + 8, 8) as i64,
        renew_time: field(s, t + 16, 8) as i64,
        encryption_type: field(s, t + 24, 4) as i32,
        ticket_flags: field(s, t + 28, 4) as u32,
    }
}

/// Number of bytes a query reply of `count` entries occupies.
pub open spec fn query_response_len(count: nat, w: PointerWidth) -> nat {
    QUERY_RESPONSE_HEADER_SIZE as nat + count * w.cache_entry_size() as nat
}

/// What a `KerbRetrieveTicketMessage` reply `resp` says: where its encoded
/// ticket lies, or why it is unusable.
pub open spec fn retrieve_reply(resp: Seq<u8>, w: PointerWidth) -> core::result::Result<
    EncodedTicketRef,
    Error,
> {
    if resp.len() < w.retrieve_response_size() {
        Err(Error::Malformed("retrieve response short"))
    } else {
        let size = field(resp, w.encoded_ticket_size_offset() as int, 4);
        let address = field(resp, w.encoded_ticket_offset() as int, w.pointer_size() as int);
        if size == 0 || address == 0 {
            Err(Error::Malformed("retrieve response has no ticket"))
        } else {
            Ok(EncodedTicketRef { address: address as usize, size: size as u32 })
        }
    }
}

/// What a `KerbQueryTicketCacheMessage` reply `resp` says: its entries, or
/// why it is unusable.
pub open spec fn query_reply(resp: Seq<u8>, w: PointerWidth) -> core::result::Result<
    Seq<RawTicketCacheEntry>,
    Error,
> {
    if resp.len() < QUERY_RESPONSE_HEADER_SIZE {
        Err(Error::Malformed("query response header short"))
    } else {
        let count = field(resp, 4, 4);
        let needed = query_response_len(count, w);
        if needed > usize::MAX {
            Err(Error::Overflow)
        } else if resp.len() < needed {
            Err(Error::Malformed("query response trailing entries short"))
        } else {
            Ok(
                Seq::new(
                    count,
                    |i: int|
                        decode_cache_entry(
                            resp,
                            QUERY_RESPONSE_HEADER_SIZE + i * w.cache_entry_size(),
                            w,
                        ),
                ),
            )
        }
    }
}

/// A usable retrieve reply always points at a non-empty ticket at a
/// non-null address.
pub proof fn lemma_retrieve_reply_ticket_present(resp: Seq<u8>, w: PointerWidth)
    ensures
        retrieve_reply(resp, w) matches Ok(t) ==> t.size > 0 && resp.len()
            >= w.retrieve_response_size(),
{
    if resp.len() >= w.retrieve_response_size() {
        let off = w.encoded_ticket_size_offset() as int;
        lemma_le_value_bound(resp.subrange(off, off + 4));
        lemma_pow256_values();
    }
}

/// A usable query reply holds every entry its header counts, each inside
/// the reply, in order.
pub proof fn lemma_query_reply_entries_inside(resp: Seq<u8>, w: PointerWidth)
    ensures
        query_reply(resp, w) matches Ok(entries) ==> {
            &&& entries.len() == field(resp, 4, 4)
            &&& query_response_len(entries.len(), w) <= resp.len()
            &&& forall|i: int|
                0 <= i < entries.len() ==> #[trigger] entries[i] == decode_cache_entry(
                    resp,
                    QUERY_RESPONSE_HEADER_SIZE + i * w.cache_entry_size(),
                    w,
                ) && QUERY_RESPONSE_HEADER_SIZE + (i + 1) * w.cache_entry_size() <= resp.len()
        },
{
    if query_reply(resp, w) is Ok {
        let n = field(resp, 4, 4);
        let stride = w.cache_entry_size() as int;
        let entries = query_reply(resp, w)->Ok_0;
        assert forall|i: int| 0 <= i < n implies #[trigger] entries[i] == decode_cache_entry(
            resp,
            QUERY_RESPONSE_HEADER_SIZE + i * stride,
            w,
        ) && QUERY_RESPONSE_HEADER_SIZE + (i + 1) * stride <= resp.len() by {
            assert((i + 1) * stride <= n * stride) by (nonlinear_arith)
                requires
                    0 <= i < n,
                    stride >= 0,
            ;
        }
    }
}

/// A `UNICODE_STRING` of a reply decodes to the counts and the address
/// whose little-endian bytes it holds: `Length` at 0, `MaximumLength` at 2,
/// `Buffer` at the pointer size.
pub proof fn lemma_unicode_string_fields(
    s: Seq<u8>,
    off: int,
    w: PointerWidth,
    length: u16,
    maximum_length: u16,
    buffer: usize,
)
    requires
        0 <= off,
        off + 2 * w.pointer_size() <= s.len(),
        (buffer as nat) < pow256(w.pointer_size() as nat),
        s.subrange(off, off + 2) == le_bytes(length as nat, 2),
        s.subrange(off + 2, off + 4) == le_bytes(maximum_length as nat, 2),
        s.subrange(off + w.pointer_size(), off + 2 * w.pointer_size()) == le_bytes(
            buffer as nat,
            w.pointer_size() as nat,
        ),
    ensures
        decode_unicode_string(s, off, w) == (UnicodeStringRef { length, maximum_length, buffer }),
{
    lemma_pow256_values();
    lemma_le_roundtrip(length as nat, 2);
    lemma_le_roundtrip(maximum_length as nat, 2);
    lemma_le_roundtrip(buffer as nat, w.pointer_size() as nat);
}

/// Every field of a `KERB_TICKET_CACHE_INFO` decodes to the value whose
/// little-endian bytes it holds: with `p` the pointer size, `ServerName` at
/// 0, `RealmName` at `2p`, and the signed 64-bit `StartTime`, `EndTime`,
/// `RenewTime` at `4p`, `4p + 8`, `4p + 16`, the signed `EncryptionType`
/// at `4p + 24` and `TicketFlags` at `4p + 28`, all in full.
pub proof fn lemma_cache_entry_fields(
    s: Seq<u8>,
    off: int,
    w: PointerWidth,
    server_name: UnicodeStringRef,
    realm_name: UnicodeStringRef,
    start: i64,
    end: i64,
    renew: i64,
    etype: i32,
    flags: u32,
)
    requires
        0 <= off,
        off + 4 * w.pointer_size() + 32 <= s.len(),
        decode_unicode_string(s, off, w) == server_name,
        decode_unicode_string(s, off + 2 * w.pointer_size(), w) == realm_name,
        s.subrange(off + 4 * w.pointer_size(), off + 4 * w.pointer_size() + 8) == le_bytes(
            (start as u64) as nat,
            8,
        ),
        s.subrange(off + 4 * w.pointer_size() + 8, off + 4 * w.pointer_size() + 16) == le_bytes(
            (end as u64) as nat,
            8,
        ),
        s.subrange(off + 4 * w.pointer_size() + 16, off + 4 * w.pointer_size() + 24) == le_bytes(
            (renew as u64) as nat,
            8,
        ),
        s.subrange(off + 4 * w.pointer_size() + 24, off + 4 * w.pointer_size() + 28) == le_bytes(
            (etype as u32) as nat,
            4,
        ),
        s.subrange(off + 4 * w.pointer_size() + 28, off + 4 * w.pointer_size() + 32) == le_bytes(
            flags as nat,
            4,
        ),
    ensures
        ({
            let e = decode_cache_entry(s, off, w);
            &&& e.server_name == server_name
            &&& e.realm_name == realm_name
            &&& e.start_time == start
            &&& e.end_time == end
            &&& e.renew_time == renew
            &&& e.encryption_type == etype
            &&& e.ticket_flags == flags
        }),
{
    lemma_pow256_values();
    lemma_le_roundtrip((start as u64) as nat, 8);
    lemma_le_roundtrip((end as u64) as nat, 8);
    lemma_le_roundtrip((renew as u64) as nat, 8);
    lemma_le_roundtrip((etype as u32) as nat, 4);
    lemma_le_roundtrip(flags as nat, 4);
    assert((start as u64) as i64 == start) by (bit_vector);
    assert((end as u64) as i64 == end) by (bit_vector);
    assert((renew as u64) as i64 == renew) by (bit_vector);
    assert((etype as u32) as i32 == etype) by (bit_vector);
}

/// A usable query reply has as many entries as its header's 32-bit
/// `CountOfTickets` at offset 4, and entry `i` is the
/// `KERB_TICKET_CACHE_INFO` at `8 + i * (4p + 32)`, `p` the pointer size.
pub proof fn lemma_query_reply_layout(resp: Seq<u8>, w: PointerWidth)
    ensures
        query_reply(resp, w) matches Ok(entries) ==> {
            &&& entries.len() == le_value_at(resp, 4, 4)
            &&& forall|i: int|
                0 <= i < entries.len() ==> #[trigger] entries[i] == decode_cache_entry(
                    resp,
                    8 + i * (4 * w.pointer_size() + 32),
                    w,
                )
        },
{
}

/// The little-endian number of the `n` bytes of `s` at `off`.
pub open spec fn le_value_at(s: Seq<u8>, off: int, n: int) -> nat {
    crate::wire::le_value(s.subrange(off, off + n))
}

/// A usable retrieve reply names the ticket whose 32-bit size is at
/// `10p + 56` and whose address is at `11p + 56`, `p` the pointer size, in
/// a reply of at least `12p + 56` bytes.
pub proof fn lemma_retrieve_reply_layout(resp: Seq<u8>, w: PointerWidth)
    ensures
        retrieve_reply(resp, w) matches Ok(t) ==> {
            &&& resp.len() >= 12 * w.pointer_size() + 56
            &&& t.size as nat == le_value_at(resp, 10 * w.pointer_size() + 56, 4)
            &&& t.address == le_value_at(
                resp,
                11 * w.pointer_size() + 56,
                w.pointer_size() as int,
            ) as usize
        },
{
    if resp.len() >= w.retrieve_response_size() {
        let off = w.encoded_ticket_size_offset() as int;
        let aoff = w.encoded_ticket_offset() as int;
        lemma_le_value_bound(resp.subrange(off, off + 4));
        lemma_le_value_bound(resp.subrange(aoff, aoff + w.pointer_size()));
        lemma_pow256_values();
    }
}

fn read_unicode_string(s: &[u8], off: usize, w: PointerWidth) -> (r: UnicodeStringRef)
    requires
        off + w.unicode_string_size() <= s.len(),
    ensures
        r == decode_unicode_string(s@, off as int, w),
{
    let p = w.pointer_size();
    UnicodeStringRef {
        length: read_le(s, off, 2) as u16,
        maximum_length: read_le(s, off + 2, 2) as u16,
        buffer: read_le(s, off + p, p) as usize,
    }
}

fn read_cache_entry(s: &[u8], off: usize, w: PointerWidth) -> (r: RawTicketCacheEntry)
    requires
        off + w.cache_entry_size() <= s.len(),
    ensures
        r == decode_cache_entry(s@, off as int, w),
{
    let t = off + w.cache_entry_times_offset();
    RawTicketCacheEntry {
        server_name: read_unicode_string(s, off, w),
        realm_name: read_unicode_string(s, off + w.unicode_string_size(), w),
        start_time: read_le(s, t, 8) as i64,
        end_time: read_le(s, t + 8, 8) as i64,
        renew_time: read_le(s, t + 16, 8) as i64,
        encryption_type: read_le(s, t + 24, 4) as i32,
        ticket_flags: read_le(s, t + 28, 4) as u32,
    }
}

/// Validates a `KerbRetrieveTicketMessage` reply and locates its encoded
/// ticket.
///
/// Fails with [`Error::Malformed`] when the reply is shorter than a
/// `KERB_RETRIEVE_TKT_RESPONSE`, or when its ticket has size zero or a null
/// address.
pub fn parse_retrieve_response(resp: &[u8], w: PointerWidth) -> (r: Result<EncodedTicketRef>)
    ensures
        r == retrieve_reply(resp@, w),
{
    if resp.len() < w.retrieve_response_size() {
        return Err(Error::Malformed("retrieve response short"));
    }
    let size = read_le(resp, w.encoded_ticket_size_offset(), 4);
    let address = read_le(resp, w.encoded_ticket_offset(), w.pointer_size());
    if size == 0 || address == 0 {
        return Err(Error::Malformed("retrieve response has no ticket"));
    }
    Ok(EncodedTicketRef { address: address as usize, size: size as u32 })
}

/// Validates a `KerbQueryTicketCacheMessage` reply and decodes its entries.
///
/// Fails with [`Error::Malformed`] when the reply is shorter than its header
/// or than the entries its header counts, and with [`Error::Overflow`] when
/// that length does not fit in a `usize`.
pub fn parse_query_response(resp: &[u8], w: PointerWidth) -> (r: Result<Vec<RawTicketCacheEntry>>)
    ensures
        match r {
            Ok(entries) => query_reply(resp@, w) == Ok::<Seq<RawTicketCacheEntry>, Error>(
                entries@,
            ),
            Err(e) => query_reply(resp@, w) == Err::<Seq<RawTicketCacheEntry>, Error>(e),
        },
{
    if resp.len() < QUERY_RESPONSE_HEADER_SIZE {
        return Err(Error::Malformed("query response header short"));
    }
    let n = read_le(resp, 4, 4) as usize;
    let stride = w.cache_entry_size();
    let body = match n.checked_mul(stride) {
        Some(b) => b,
        None => {
            assert(query_response_len(n as nat, w) > usize::MAX) by (nonlinear_arith)
                requires
                    n * stride > usize::MAX,
                    query_response_len(n as nat, w) == 8 + n * stride,
            ;
            return Err(Error::Overflow);
        },
    };
    let needed = match QUERY_RESPONSE_HEADER_SIZE.checked_add(body) {
        Some(t) => t,
        None => return Err(Error::Overflow),
    };
    if resp.len() < needed {
        return Err(Error::Malformed("query response trailing entries short"));
    }
    let mut out: Vec<RawTicketCacheEntry> = Vec::new();
    let mut i: usize = 0;
    while i < n
        invariant
            i <= n,
            stride == w.cache_entry_size(),
            needed == QUERY_RESPONSE_HEADER_SIZE + n * stride,
            needed <= resp.len(),
            out@.len() == i,
            forall|k: int|
                0 <= k < i ==> #[trigger] out@[k] == decode_cache_entry(
                    resp@,
                    QUERY_RESPONSE_HEADER_SIZE + k * stride,
                    w,
                ),
        decreases n - i,
    {
        assert(QUERY_RESPONSE_HEADER_SIZE + i * stride + stride <= needed) by (nonlinear_arith)
            requires
                i < n,
                needed == QUERY_RESPONSE_HEADER_SIZE + n * stride,
        ;
        let off = QUERY_RESPONSE_HEADER_SIZE + i * stride;
        out.push(read_cache_entry(resp, off, w));
        i = i + 1;
    }
    assert(out@ =~= Seq::new(
        n as nat,
        |k: int| decode_cache_entry(resp@, QUERY_RESPONSE_HEADER_SIZE + k * stride, w),
    ));
    Ok(out)
}

impl TicketCacheInfo {
    /// The cache entry of `raw`, given the buffer units of its server and
    /// realm names.
    pub fn from_raw(raw: &RawTicketCacheEntry, server_units: &[u16], realm_units: &[u16]) -> (r:
        Self)
        requires
            server_units@.len() == raw.server_name.unit_count(),
            realm_units@.len() == raw.realm_name.unit_count(),
        ensures
            r.server_name@ == unicode_text(raw.server_name, server_units@),
            r.realm_name@ == unicode_text(raw.realm_name, realm_units@),
            r.start_time_ft == raw.start_time,
            r.end_time_ft == raw.end_time,
            r.renew_time_ft == raw.renew_time,
            r.encryption_type == raw.encryption_type,
            r.ticket_flags == raw.ticket_flags,
    {
        TicketCacheInfo {
            server_name: unicode_string_to_string(&raw.server_name, server_units),
            realm_name: unicode_string_to_string(&raw.realm_name, realm_units),
            start_time_ft: raw.start_time,
            end_time_ft: raw.end_time,
            renew_time_ft: raw.renew_time,
            encryption_type: raw.encryption_type,
            ticket_flags: raw.ticket_flags,
        }
    }
}

} // verus!
