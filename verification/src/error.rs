//! Error type.

use vstd::prelude::*;
use vstd::string::*;
use crate::text::{
    hex_fixed, hex_text_value, is_lower_hex_digit, lemma_hex_fixed_reads_back, pow16, push_hex_fixed,
};

verus! {

/// Everything that can go wrong talking to the Kerberos package.
#[derive(Debug)]
pub enum Error {
    /// An LSA API returned a non-success NTSTATUS at the transport layer.
    Lsa { api: &'static str, status: u32 },
    /// The transport call succeeded but the Kerberos package reported a
    /// protocol-level failure in its `ProtocolStatus` out-parameter.
    Protocol(u32),
    /// A reply buffer from the package was too short or malformed.
    Malformed(&'static str),
    /// A string cannot be encoded into UTF-16 within the length limit of a
    /// `UNICODE_STRING` (65534 bytes).
    StringTooLong,
    /// Numeric overflow while computing a buffer size.
    Overflow,
    /// Called where LSA is not available: outside Windows every entry point
    /// reports this.
    Unsupported,
}

pub type Result<T> = core::result::Result<T, Error>;

/// The message that describes `e`.
pub open spec fn error_message(e: Error) -> Seq<char> {
    match e {
        Error::Lsa { api, status } => "LSA API "@ + api@ + " failed: NTSTATUS 0x"@ + hex_fixed(
            status as nat,
            8,
        ),
        Error::Protocol(status) => "Kerberos package returned protocol error: NTSTATUS 0x"@
            + hex_fixed(status as nat, 8),
        Error::Malformed(what) => "response buffer malformed: "@ + what@,
        Error::StringTooLong => "string too long for UNICODE_STRING"@,
        Error::Overflow => "buffer arithmetic overflow"@,
        Error::Unsupported => "windows-lsa is only functional on Windows"@,
    }
}

/// The message of an LSA or protocol failure ends in the status as eight
/// lowercase hexadecimal digits that read back as it, and names the failed
/// API; the message of a malformed reply ends in the reason.
pub proof fn lemma_error_message_names_the_failure(e: Error)
    ensures
        ({
            let m = error_message(e);
            match e {
                Error::Lsa { api, status } => {
                    &&& m.len() == 8 + api@.len() + 28
                    &&& m.subrange(8, 8 + api@.len() as int) == api@
                    &&& forall|i: int| m.len() - 8 <= i < m.len() ==> is_lower_hex_digit(#[trigger] m[i])
                    &&& hex_text_value(m.subrange(m.len() - 8, m.len() as int)) == status
                },
                Error::Protocol(status) => {
                    &&& forall|i: int| m.len() - 8 <= i < m.len() ==> is_lower_hex_digit(#[trigger] m[i])
                    &&& hex_text_value(m.subrange(m.len() - 8, m.len() as int)) == status
                },
                Error::Malformed(what) => m.len() >= what@.len() && m.subrange(
                    m.len() - what@.len(),
                    m.len() as int,
                ) == what@,
                _ => true,
            }
        }),
{
    assert(pow16(8) == 0x1_0000_0000) by {
        reveal_with_fuel(pow16, 9);
    }
    match e {
        Error::Lsa { api, status } => {
            reveal_strlit("LSA API ");
            reveal_strlit(" failed: NTSTATUS 0x");
            lemma_hex_fixed_reads_back(status as nat, 8);
            let h = hex_fixed(status as nat, 8);
            let m = error_message(e);
            let pre = "LSA API "@ + api@ + " failed: NTSTATUS 0x"@;
            assert(m == pre + h);
            assert(m.subrange(8, 8 + api@.len() as int) =~= api@);
            assert(m.subrange(m.len() - 8, m.len() as int) =~= h);
            assert forall|i: int| m.len() - 8 <= i < m.len() implies is_lower_hex_digit(#[trigger] m[i]) by {
                assert(m[i] == h[i - pre.len()]);
            }
        },
        Error::Protocol(status) => {
            lemma_hex_fixed_reads_back(status as nat, 8);
            let h = hex_fixed(status as nat, 8);
            let m = error_message(e);
            let pre = "Kerberos package returned protocol error: NTSTATUS 0x"@;
            assert(m == pre + h);
            assert(m.subrange(m.len() - 8, m.len() as int) =~= h);
            assert forall|i: int| m.len() - 8 <= i < m.len() implies is_lower_hex_digit(#[trigger] m[i]) by {
                assert(m[i] == h[i - pre.len()]);
            }
        },
        Error::Malformed(what) => {
            let m = error_message(e);
            assert(m.subrange(m.len() - what@.len(), m.len() as int) =~= what@);
        },
        _ => {},
    }
}

impl Error {
    /// The human-readable message for this error.
    pub fn to_string(&self) -> (r: String)
        ensures
            r@ == error_message(*self),
    {
        match self {
            Error::Lsa { api, status } => {
                let mut s = "LSA API ".to_owned();
                s.append(api);
                s.append(" failed: NTSTATUS 0x");
                push_hex_fixed(&mut s, *status as u64, 8);
                s
            },
            Error::Protocol(status) => {
                let mut s = "Kerberos package returned protocol error: NTSTATUS 0x".to_owned();
                push_hex_fixed(&mut s, *status as u64, 8);
                s
            },
            Error::Malformed(what) => {
                let mut s = "response buffer malformed: ".to_owned();
                s.append(what);
                s
            },
            Error::StringTooLong => "string too long for UNICODE_STRING".to_owned(),
            Error::Overflow => "buffer arithmetic overflow".to_owned(),
            Error::Unsupported => "windows-lsa is only functional on Windows".to_owned(),
        }
    }
}

} // verus!
