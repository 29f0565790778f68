//! Byte layout of the Kerberos package messages, as `ntsecapi.h` lays them
//! out for a process whose pointers are 4 or 8 bytes wide.
//!
//! Every offset follows from C layout rules: `UNICODE_STRING` is two `u16`
//! counts and a pointer aligned to the pointer size; `LUID` is two 32-bit
//! halves; 64-bit times are 8-aligned.

use vstd::prelude::*;

verus! {

/// `KerbQueryTicketCacheMessage`.
pub const KERB_QUERY_TICKET_CACHE: u32 = 1;

/// `KerbRetrieveTicketMessage`.
pub const KERB_RETRIEVE_TICKET: u32 = 4;

/// `KerbPurgeTicketCacheMessage`.
pub const KERB_PURGE_TICKET_CACHE: u32 = 6;

/// `KerbSubmitTicketMessage`.
pub const KERB_SUBMIT_TICKET: u32 = 19;

/// Retrieve cache option: return the cached ticket as a KRB-CRED, do not go
/// to the KDC.
pub const KERB_RETRIEVE_TICKET_AS_KERB_CRED: u32 = 0x8;

/// Encryption type "any": the package picks.
pub const KERB_ETYPE_DEFAULT: i32 = 0;

/// Size of the `KERB_QUERY_TKT_CACHE_REQUEST` message: type and logon id.
pub const QUERY_REQUEST_SIZE: usize = 12;

/// Size of the `KERB_QUERY_TKT_CACHE_RESPONSE` header: type and ticket count.
pub const QUERY_RESPONSE_HEADER_SIZE: usize = 8;

/// Size of the fixed part of `KERB_SUBMIT_TKT_REQUEST`; the KRB-CRED follows it.
pub const SUBMIT_REQUEST_HEADER_SIZE: usize = 36;

/// Width of the pointers in the process that talks to LSA.
#[derive(Clone, Copy, Debug, PartialEq, Eq, Structural)]
pub enum PointerWidth {
    Bits32,
    Bits64,
}

impl PointerWidth {
    /// The pointer width of the running process.
    pub fn native() -> (r: Self)
        ensures
            r.pointer_size() * 8 == usize::BITS,
    {
        if usize::BITS == 64 {
            PointerWidth::Bits64
        } else {
            PointerWidth::Bits32
        }
    }

    /// Size of a pointer in bytes.
    #[verifier::allow_in_spec]
    pub fn pointer_size(self) -> usize
        returns
            (match self {
                PointerWidth::Bits32 => 4usize,
                PointerWidth::Bits64 => 8usize,
            }),
    {
        match self {
            PointerWidth::Bits32 => 4,
            PointerWidth::Bits64 => 8,
        }
    }

    /// Padding that aligns a pointer-aligned field after a 12-byte
    /// (or otherwise 4-aligned, pointer-misaligned) prefix.
    #[verifier::allow_in_spec]
    pub fn padding(self) -> usize
        returns
            (self.pointer_size() - 4) as usize,
    {
        self.pointer_size() - 4
    }

    /// Size of a `UNICODE_STRING`.
    #[verifier::allow_in_spec]
    pub fn unicode_string_size(self) -> usize
        returns
            (2 * self.pointer_size()) as usize,
    {
        2 * self.pointer_size()
    }

    /// Offset of `Buffer` inside a `UNICODE_STRING`.
    #[verifier::allow_in_spec]
    pub fn unicode_string_buffer_offset(self) -> usize
        returns
            self.pointer_size(),
    {
        self.pointer_size()
    }

    /// Size of `KERB_RETRIEVE_TKT_REQUEST`.
    #[verifier::allow_in_spec]
    pub fn retrieve_request_size(self) -> usize
        returns
            (6 * self.pointer_size() + 16) as usize,
    {
        6 * self.pointer_size() + 16
    }

    /// Size of `KERB_RETRIEVE_TKT_RESPONSE` (one `KERB_EXTERNAL_TICKET`).
    #[verifier::allow_in_spec]
    pub fn retrieve_response_size(self) -> usize
        returns
            (12 * self.pointer_size() + 56) as usize,
    {
        12 * self.pointer_size() + 56
    }

    /// Offset of `EncodedTicketSize` in `KERB_RETRIEVE_TKT_RESPONSE`.
    #[verifier::allow_in_spec]
    pub fn encoded_ticket_size_offset(self) -> usize
        returns
            (10 * self.pointer_size() + 56) as usize,
    {
        10 * self.pointer_size() + 56
    }

    /// Offset of `EncodedTicket` in `KERB_RETRIEVE_TKT_RESPONSE`.
    #[verifier::allow_in_spec]
    pub fn encoded_ticket_offset(self) -> usize
        returns
            (11 * self.pointer_size() + 56) as usize,
    {
        11 * self.pointer_size() + 56
    }

    /// Size of one `KERB_TICKET_CACHE_INFO` entry of a query reply.
    #[verifier::allow_in_spec]
    pub fn cache_entry_size(self) -> usize
        returns
            (4 * self.pointer_size() + 32) as usize,
    {
        4 * self.pointer_size() + 32
    }

    /// Offset of `StartTime` in a `KERB_TICKET_CACHE_INFO` entry; `EndTime`,
    /// `RenewTime`, `EncryptionType` and `TicketFlags` follow at 8, 16, 24 and 28.
    #[verifier::allow_in_spec]
    pub fn cache_entry_times_offset(self) -> usize
        returns
            (4 * self.pointer_size()) as usize,
    {
        4 * self.pointer_size()
    }

    /// Size of the fixed part of `KERB_PURGE_TKT_CACHE_REQUEST`; the
    /// server name's UTF-16 text follows it.
    #[verifier::allow_in_spec]
    pub fn purge_request_header_size(self) -> usize
        returns
            (5 * self.pointer_size() + 8) as usize,
    {
        5 * self.pointer_size() + 8
    }

    /// Offset of `ServerName` in `KERB_PURGE_TKT_CACHE_REQUEST`.
    #[verifier::allow_in_spec]
    pub fn purge_server_name_offset(self) -> usize
        returns
            (self.pointer_size() + 8) as usize,
    {
        self.pointer_size() + 8
    }
}

} // verus!
