//! Text helpers: fixed-width hexadecimal and decimal rendering, and UTF-16
//! conversion in both directions.

use vstd::prelude::*;
use vstd::string::*;
use vstd::utf8::{char_is_scalar, char_u32_cast};
use vstd::arithmetic::div_mod::lemma_mod_breakdown;

verus! {

/// The lowercase hexadecimal digit for `d < 16`.
pub open spec fn hex_char(d: nat) -> char {
    if d < 10 {
        (48 + d) as char
    } else {
        (87 + d) as char
    }
}

/// The decimal digit for `d < 10`.
pub open spec fn digit_char(d: nat) -> char {
    (48 + d) as char
}

/// The `n` low-order hexadecimal digits of `v`, most significant first,
/// padded with zeros: what `{:0nx}` prints for a value below `16^n`.
pub open spec fn hex_fixed(v: nat, n: nat) -> Seq<char>
    decreases n,
{
    if n == 0 {
        Seq::empty()
    } else {
        hex_fixed(v / 16, (n - 1) as nat).push(hex_char(v % 16))
    }
}

/// The decimal digits of `v` without leading zeros: what `{}` prints.
pub open spec fn decimal(v: nat) -> Seq<char>
    decreases v,
{
    if v < 10 {
        seq![digit_char(v)]
    } else {
        decimal(v / 10).push(digit_char(v % 10))
    }
}

/// Whether `c` is one of the digits `0`-`9`, `a`-`f`.
pub open spec fn is_lower_hex_digit(c: char) -> bool {
    (48 <= c as u32 && c as u32 <= 57) || (97 <= c as u32 && c as u32 <= 102)
}

/// The number a lowercase hexadecimal digit stands for.
pub open spec fn hex_digit_value(c: char) -> int {
    if 48 <= c as u32 && c as u32 <= 57 {
        c as u32 - 48
    } else {
        c as u32 - 87
    }
}

/// `16` raised to the power `n`.
pub open spec fn pow16(n: nat) -> nat
    decreases n,
{
    if n == 0 {
        1
    } else {
        16 * pow16((n - 1) as nat)
    }
}

/// The number a text of hexadecimal digits, most significant first, reads as.
pub open spec fn hex_text_value(t: Seq<char>) -> int
    decreases t.len(),
{
    if t.len() == 0 {
        0
    } else {
        hex_text_value(t.drop_last()) * 16 + hex_digit_value(t.last())
    }
}

/// The fixed-width hexadecimal text of `v` is made of `n` lowercase
/// hexadecimal digits, and those digits read back as `v` modulo `16^n`.
pub proof fn lemma_hex_fixed_reads_back(v: nat, n: nat)
    ensures
        hex_fixed(v, n).len() == n,
        forall|i: int| 0 <= i < n ==> is_lower_hex_digit(#[trigger] hex_fixed(v, n)[i]),
        hex_text_value(hex_fixed(v, n)) == v % pow16(n),
    decreases n,
{
    if n > 0 {
        let m = (n - 1) as nat;
        lemma_hex_fixed_reads_back(v / 16, m);
        let d = v % 16;
        let prev = hex_fixed(v / 16, m);
        let t = hex_fixed(v, n);
        assert(t == prev.push(hex_char(d)));
        assert(t.drop_last() =~= prev);
        if d < 10 {
            assert(((48 + d) as char) as u32 == 48 + d);
        } else {
            assert(((87 + d) as char) as u32 == 87 + d);
        }
        assert(is_lower_hex_digit(hex_char(d)));
        assert(hex_digit_value(hex_char(d)) == d);
        assert forall|i: int| 0 <= i < n implies is_lower_hex_digit(#[trigger] t[i]) by {
            if i < m {
                assert(t[i] == prev[i]);
            }
        }
        lemma_pow16_pos(m);
        lemma_mod_breakdown(v as int, 16, pow16(m) as int);
        assert(pow16(n) == 16 * pow16(m));
    }
}

/// The number a text of decimal digits, most significant first, reads as.
pub open spec fn decimal_text_value(t: Seq<char>) -> int
    decreases t.len(),
{
    if t.len() == 0 {
        0
    } else {
        decimal_text_value(t.drop_last()) * 10 + (t.last() as u32 - 48)
    }
}

/// The decimal text of `v` is made of the digits `0`-`9`, has no leading
/// zero (but for `v == 0` itself), and reads back as `v`.
pub proof fn lemma_decimal_reads_back(v: nat)
    ensures
        decimal(v).len() >= 1,
        forall|i: int|
            0 <= i < decimal(v).len() ==> 48 <= #[trigger] decimal(v)[i] as u32 <= 57,
        decimal(v)[0] == '0' ==> v == 0,
        decimal_text_value(decimal(v)) == v,
    decreases v,
{
    let t = decimal(v);
    assert(((48 + v % 10) as char) as u32 == 48 + v % 10);
    if v >= 10 {
        lemma_decimal_reads_back(v / 10);
        let prev = decimal(v / 10);
        assert(t.drop_last() =~= prev);
        assert forall|i: int| 0 <= i < t.len() implies 48 <= #[trigger] t[i] as u32 <= 57 by {
            if i < prev.len() {
                assert(t[i] == prev[i]);
            }
        }
        assert(t[0] == prev[0]);
        assert(t.last() == digit_char(v % 10));
        assert(decimal_text_value(t) == decimal_text_value(prev) * 10 + (t.last() as u32 - 48));
        assert((v / 10) * 10 + v % 10 == v);
    } else {
        assert(((48 + v) as char) as u32 == 48 + v);
        assert(t.drop_last() =~= Seq::<char>::empty());
        assert(t.last() == digit_char(v));
        assert(decimal_text_value(t) == decimal_text_value(t.drop_last()) * 10 + (t.last() as u32
            - 48));
    }
}

pub proof fn lemma_pow16_pos(n: nat)
    ensures
        pow16(n) > 0,
    decreases n,
{
    if n > 0 {
        lemma_pow16_pos((n - 1) as nat);
    }
}

/// Whether `u` is a leading (high) surrogate.
pub open spec fn is_high_surrogate(u: u16) -> bool {
    0xD800 <= u < 0xDC00
}

/// Whether `u` is a trailing (low) surrogate.
pub open spec fn is_low_surrogate(u: u16) -> bool {
    0xDC00 <= u < 0xE000
}

/// The characters that lossy UTF-16 decoding yields for `u`: a surrogate
/// pair becomes one supplementary character, an unpaired surrogate becomes
/// U+FFFD, and any other unit is the character of the same value.
pub open spec fn utf16_lossy(u: Seq<u16>) -> Seq<char>
    decreases u.len(),
{
    if u.len() == 0 {
        Seq::empty()
    } else if u.len() >= 2 && is_high_surrogate(u[0]) && is_low_surrogate(u[1]) {
        seq![
            (((u[0] - 0xD800) * 0x400 + (u[1] - 0xDC00) + 0x10000) as u32) as char,
        ] + utf16_lossy(u.subrange(2, u.len() as int))
    } else if is_high_surrogate(u[0]) || is_low_surrogate(u[0]) {
        seq!['\u{FFFD}'] + utf16_lossy(u.drop_first())
    } else {
        seq![(u[0] as u32) as char] + utf16_lossy(u.drop_first())
    }
}

/// The UTF-16 code units of one character.
pub open spec fn char_utf16(c: char) -> Seq<u16> {
    let v = c as u32;
    if v < 0x10000 {
        seq![v as u16]
    } else {
        seq![(0xD800 + (v - 0x10000) / 0x400) as u16, (0xDC00 + (v - 0x10000) % 0x400) as u16]
    }
}

/// The UTF-16 encoding of a character sequence.
pub open spec fn utf16_encode(s: Seq<char>) -> Seq<u16>
    decreases s.len(),
{
    if s.len() == 0 {
        Seq::empty()
    } else {
        char_utf16(s[0]) + utf16_encode(s.drop_first())
    }
}

/// Decoding the UTF-16 encoding of a text gives the text back: the server
/// name a purge request carries reads back, on the package's side, as the
/// name that was asked for.
pub proof fn lemma_utf16_roundtrip(s: Seq<char>)
    ensures
        utf16_lossy(utf16_encode(s)) == s,
    decreases s.len(),
{
    if s.len() > 0 {
        let c = s[0];
        let v = c as u32;
        let rest = utf16_encode(s.drop_first());
        lemma_utf16_roundtrip(s.drop_first());
        let u = char_utf16(c) + rest;
        assert(utf16_encode(s) == u);
        char_is_scalar(c);
        char_u32_cast(c, v);
        if v < 0x10000 {
            assert(u.drop_first() =~= rest);
            assert(!is_high_surrogate(u[0]) && !is_low_surrogate(u[0]));
            assert((u[0] as u32) == v);
        } else {
            assert(u.subrange(2, u.len() as int) =~= rest);
            assert(is_high_surrogate(u[0]));
            assert(is_low_surrogate(u[1]));
            assert(((u[0] - 0xD800) * 0x400 + (u[1] - 0xDC00) + 0x10000) as u32 == v);
        }
        assert(utf16_lossy(u) =~= s);
    }
}

/// Calls `String::push`, which appends one character.
#[verifier::external_body]
pub(crate) fn push_char(s: &mut String, c: char)
    ensures
        final(s)@ == old(s)@.push(c),
{
    s.push(c)
}

/// Calls `String::from_utf16_lossy`, which decodes UTF-16 and replaces each
/// unpaired surrogate with U+FFFD.
#[verifier::external_body]
pub(crate) fn string_from_utf16_lossy(units: &[u16]) -> (r: String)
    ensures
        r@ == utf16_lossy(units@),
{
    String::from_utf16_lossy(units)
}

/// Calls `str::encode_utf16`, which yields the UTF-16 code units of a string.
#[verifier::external_body]
pub(crate) fn encode_utf16(s: &str) -> (r: Vec<u16>)
    ensures
        r@ == utf16_encode(s@),
{
    s.encode_utf16().collect()
}

/// Appends the `n` low-order hexadecimal digits of `v`, zero padded.
pub(crate) fn push_hex_fixed(s: &mut String, v: u64, n: usize)
    ensures
        final(s)@ == old(s)@ + hex_fixed(v as nat, n as nat),
    decreases n,
{
    if n > 0 {
        push_hex_fixed(s, v / 16, n - 1);
        let d: u64 = v % 16;
        let c: char = if d < 10 {
            ((48 + d) as u8) as char
        } else {
            ((87 + d) as u8) as char
        };
        push_char(s, c);
        proof {
            assert(hex_fixed(v as nat, n as nat) == hex_fixed((v / 16) as nat, (n - 1) as nat).push(
                hex_char((v % 16) as nat),
            ));
        }
        assert(s@ =~= old(s)@ + hex_fixed(v as nat, n as nat));
    } else {
        assert(s@ =~= old(s)@ + hex_fixed(v as nat, n as nat));
    }
}

/// Appends the decimal digits of `v`.
pub(crate) fn push_decimal(s: &mut String, v: u64)
    ensures
        final(s)@ == old(s)@ + decimal(v as nat),
    decreases v,
{
    if v >= 10 {
        push_decimal(s, v / 10);
    }
    let d: u64 = v % 10;
    push_char(s, ((48 + d) as u8) as char);
    assert(s@ =~= old(s)@ + decimal(v as nat));
}

} // verus!
