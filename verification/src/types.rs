//! Identifier and credential types shared by requests and replies.

use vstd::prelude::*;
use vstd::string::*;
use crate::text::{
    decimal, hex_fixed, hex_text_value, is_lower_hex_digit, lemma_hex_fixed_reads_back, pow16,
    push_decimal, push_hex_fixed,
};

verus! {

/// Windows Locally Unique Identifier: the 64-bit value that names a logon
/// session, split as in `LUID` / `LARGE_INTEGER` into an unsigned low half
/// and a signed high half.
#[derive(Clone, Copy, Debug, PartialEq, Eq, Hash, Structural)]
pub struct Luid {
    pub low_part: u32,
    pub high_part: i32,
}

/// The 64-bit value of a LUID: the high half's bits above the low half.
pub open spec fn luid_value(low_part: u32, high_part: i32) -> nat {
    (high_part as u32) as nat * 0x1_0000_0000 + low_part as nat
}

/// The 64-bit value of a LUID holds its low half in the low 32 bits and
/// its high half's bits in the high 32 bits, and no two LUIDs share a value.
pub proof fn lemma_luid_value_halves(a: Luid, b: Luid)
    ensures
        luid_value(a.low_part, a.high_part) < 0x1_0000_0000_0000_0000,
        luid_value(a.low_part, a.high_part) % 0x1_0000_0000 == a.low_part,
        luid_value(a.low_part, a.high_part) / 0x1_0000_0000 == a.high_part as u32,
        luid_value(a.low_part, a.high_part) == luid_value(b.low_part, b.high_part) ==> a == b,
{
    let ha = a.high_part;
    let hb = b.high_part;
    assert((ha as u32) == (hb as u32) ==> ha == hb) by (bit_vector);
}

impl Luid {
    /// The all-zero LUID, which LSA reads as "the caller's own logon session".
    pub fn zero() -> (r: Self)
        ensures
            r.low_part == 0,
            r.high_part == 0,
    {
        Self { low_part: 0, high_part: 0 }
    }

    /// The LUID with the given halves.
    pub fn new(low_part: u32, high_part: i32) -> (r: Self)
        ensures
            r.low_part == low_part,
            r.high_part == high_part,
    {
        Self { low_part, high_part }
    }

    /// The LUID as one 64-bit value, as `LARGE_INTEGER` reads it.
    pub fn as_u64(self) -> (r: u64)
        ensures
            r as nat == luid_value(self.low_part, self.high_part),
    {
        let hi: u64 = (self.high_part as u32) as u64;
        let lo: u64 = self.low_part as u64;
        assert((hi << 32u64) | lo == hi * 0x1_0000_0000 + lo) by (bit_vector)
            requires
                hi < 0x1_0000_0000,
                lo < 0x1_0000_0000,
        ;
        (hi << 32u64) | lo
    }

    /// The text form of the LUID: `0x` and its 64-bit value as sixteen
    /// lowercase hexadecimal digits.
    pub fn to_string(&self) -> (r: String)
        ensures
            r@ == "0x"@ + hex_fixed(luid_value(self.low_part, self.high_part), 16),
    {
        let mut s = "0x".to_owned();
        push_hex_fixed(&mut s, self.as_u64(), 16);
        s
    }
}

/// The text of a LUID is `0x` followed by sixteen lowercase hexadecimal
/// digits that read back as the LUID's 64-bit value.
pub proof fn lemma_luid_text_reads_back(l: Luid)
    ensures
        ({
            let t = "0x"@ + hex_fixed(luid_value(l.low_part, l.high_part), 16);
            &&& t.len() == 18
            &&& t[0] == '0'
            &&& t[1] == 'x'
            &&& forall|i: int| 2 <= i < 18 ==> is_lower_hex_digit(#[trigger] t[i])
            &&& hex_text_value(t.subrange(2, 18)) == luid_value(l.low_part, l.high_part)
        }),
{
    reveal_strlit("0x");
    let v = luid_value(l.low_part, l.high_part);
    lemma_hex_fixed_reads_back(v, 16);
    let h = hex_fixed(v, 16);
    let t = "0x"@ + h;
    assert(t.subrange(2, 18) =~= h);
    assert forall|i: int| 2 <= i < 18 implies is_lower_hex_digit(#[trigger] t[i]) by {
        assert(t[i] == h[i - 2]);
    }
    lemma_luid_value_halves(l, l);
    assert(pow16(16) == 0x1_0000_0000_0000_0000) by {
        reveal_with_fuel(pow16, 17);
    }
}

impl Default for Luid {
    /// The zero LUID.
    fn default() -> (r: Self)
        ensures
            r.low_part == 0,
            r.high_part == 0,
    {
        Luid { low_part: 0, high_part: 0 }
    }
}

/// Identifier that `LsaLookupAuthenticationPackage` returns for a package.
#[derive(Clone, Copy, Debug, PartialEq, Eq, Hash, Structural)]
pub struct AuthPackageId(pub u32);

/// A Kerberos credential blob as `KerbSubmitTicketMessage` accepts it and as
/// `KerbRetrieveTicketMessage` returns it in raw ticket form. The bytes are
/// opaque to this crate.
#[derive(Clone, Default)]
pub struct KrbCred {
    pub encoded: Vec<u8>,
}

/// The redacted debug rendering of a credential of `len` bytes: it names
/// the length and nothing of the payload.
pub open spec fn krb_cred_debug(len: nat) -> Seq<char> {
    "KrbCred { len: "@ + decimal(len) + ", .. }"@
}

impl KrbCred {
    /// The credential whose bytes are `encoded`.
    pub fn new(encoded: Vec<u8>) -> (r: Self)
        ensures
            r.encoded@ == encoded@,
    {
        Self { encoded }
    }

    /// The credential's bytes.
    pub fn as_bytes(&self) -> (r: &[u8])
        ensures
            r@ == self.encoded@,
    {
        self.encoded.as_slice()
    }

    /// Whether the credential has no bytes.
    pub fn is_empty(&self) -> (r: bool)
        ensures
            r == (self.encoded@.len() == 0),
    {
        self.encoded.len() == 0
    }

    /// The number of bytes of the credential.
    pub fn len(&self) -> (r: usize)
        ensures
            r == self.encoded@.len(),
    {
        self.encoded.len()
    }

    /// The debug rendering, which shows the payload's length and never its
    /// bytes.
    pub fn to_debug_string(&self) -> (r: String)
        ensures
            r@ == krb_cred_debug(self.encoded@.len()),
    {
        let mut s = "KrbCred { len: ".to_owned();
        push_decimal(&mut s, self.encoded.len() as u64);
        s.append(", .. }");
        s
    }

    /// Wipes the payload: every byte is overwritten with zero and the
    /// credential is left empty.
    pub fn zeroize(&mut self)
        ensures
            final(self).encoded@ == Seq::<u8>::empty(),
    {
        zeroize_bytes(&mut self.encoded);
    }
}

impl Drop for KrbCred {
    /// A credential wipes its payload when it goes out of scope.
    fn drop(&mut self)
        opens_invariants none
        no_unwind
    {
        zeroize_bytes(&mut self.encoded);
    }
}

/// Calls `<Vec<u8> as zeroize::Zeroize>::zeroize`, which overwrites the
/// elements and the spare capacity with zeros and then clears the vector.
#[verifier::external_body]
fn zeroize_bytes(v: &mut Vec<u8>)
    ensures
        final(v)@ == Seq::<u8>::empty(),
    opens_invariants none
    no_unwind
{
    zeroize::Zeroize::zeroize(v)
}

/// One entry of the Kerberos ticket cache.
#[derive(Clone, Debug, Default)]
pub struct TicketCacheInfo {
    pub server_name: String,
    pub realm_name: String,
    pub start_time_ft: i64,
    pub end_time_ft: i64,
    pub renew_time_ft: i64,
    pub encryption_type: i32,
    pub ticket_flags: u32,
}

} // verus!
