//! Byte strings as the native engine lays them out, and the text they hold.
//!
//! The engine hands out C strings: the bytes of a name up to, and not
//! including, the first NUL. A snapshot of such memory is a byte slice; where
//! it holds no NUL at all, the slice's end stands for the terminator.

use vstd::prelude::*;
use vstd::slice::*;
use vstd::string::*;
use vstd::utf8::*;

use crate::sentinel::{
    lemma_live_len_unique, lemma_live_of_terminated, lemma_live_shape, live, live_len, none_stops,
};

verus! {

/// Recognises the byte that ends a C string.
pub open spec fn nul() -> spec_fn(u8) -> bool {
    |b: u8| b == 0u8
}

/// No byte of `bytes` is NUL.
pub open spec fn nul_free(bytes: Seq<u8>) -> bool {
    none_stops(bytes, nul())
}

/// How many bytes precede the first NUL of `bytes`; all of them where there is
/// no NUL.
pub open spec fn c_str_len(bytes: Seq<u8>) -> nat {
    live_len(bytes, nul())
}

/// The C string that starts at the first byte of `bytes`.
pub open spec fn c_str(bytes: Seq<u8>) -> Seq<u8> {
    live(bytes, nul())
}

/// Reading back what was laid out: a NUL-free string, its terminator, then
/// anything at all, reads as that string.
pub proof fn lemma_c_str_of_terminated(s: Seq<u8>, rest: Seq<u8>)
    requires
        nul_free(s),
    ensures
        c_str(s + seq![0u8] + rest) == s,
{
    lemma_live_of_terminated(s, 0u8, rest, nul());
}

/// Length of the C string at the start of `bytes`.
pub fn strlen(bytes: &[u8]) -> (n: usize)
    ensures
        n == c_str_len(bytes@),
        n <= bytes@.len(),
{
    let mut n: usize = 0;
    while n < bytes.len() && bytes[n] != 0
        invariant
            n <= bytes@.len(),
            nul_free(bytes@.take(n as int)),
        decreases bytes@.len() - n,
    {
        let ghost longer = bytes@.take(n + 1);
        assert forall|i: int| 0 <= i < longer.len() implies !nul()(#[trigger] longer[i]) by {
            if i < n {
                assert(longer[i] == bytes@.take(n as int)[i]);
            }
        }
        n = n + 1;
    }
    proof {
        lemma_live_len_unique(bytes@, nul(), n as int);
    }
    n
}

/// Whether `bytes` holds a NUL anywhere.
pub fn has_nul(bytes: &[u8]) -> (found: bool)
    ensures
        found == !nul_free(bytes@),
{
    let n = strlen(bytes);
    proof {
        lemma_live_shape(bytes@, nul());
        if n == bytes@.len() {
            assert(c_str(bytes@) =~= bytes@);
        }
    }
    n < bytes.len()
}

/// `std::str::from_utf8`, with the text copied into a `String`: `None` where
/// the bytes are not UTF-8, else the text that they encode. Validity and the
/// decoding are vstd's `valid_utf8` and `decode_utf8`.
#[verifier::external_body]
fn from_utf8(bytes: &[u8]) -> (text: Option<String>)
    ensures
        text is Some <==> valid_utf8(bytes@),
        text matches Some(s) ==> s@ == decode_utf8(bytes@),
{
    match std::str::from_utf8(bytes) {
        Ok(s) => Some(s.to_owned()),
        Err(_) => None,
    }
}

/// The C string at the start of `bytes` is text.
pub open spec fn is_text(bytes: Seq<u8>) -> bool {
    valid_utf8(c_str(bytes))
}

/// The text of the C string at the start of `bytes`.
pub open spec fn text_of(bytes: Seq<u8>) -> Seq<char> {
    decode_utf8(c_str(bytes))
}

/// Decodes the C string at the start of `bytes`; `None` where it is not UTF-8.
pub fn read_text(bytes: &[u8]) -> (text: Option<String>)
    ensures
        text is Some <==> is_text(bytes@),
        text matches Some(s) ==> s@ == text_of(bytes@),
{
    let n = strlen(bytes);
    from_utf8(slice_subrange(bytes, 0, n))
}

/// Whether the C string at the start of `bytes` is text.
pub fn holds_text(bytes: &[u8]) -> (ok: bool)
    ensures
        ok == is_text(bytes@),
{
    read_text(bytes).is_some()
}

/// Decodes a C string that is known to be text.
pub fn to_text(bytes: &[u8]) -> (text: String)
    requires
        is_text(bytes@),
    ensures
        text@ == text_of(bytes@),
{
    match read_text(bytes) {
        Some(s) => s,
        None => unreached(),
    }
}

/// The character of one decimal digit.
pub open spec fn digit_char(d: int) -> char {
    (48 + d) as char
}

/// A natural number in decimal, without leading zeros.
pub open spec fn decimal_nat(n: nat) -> Seq<char>
    decreases n,
{
    if n < 10 {
        seq![digit_char(n as int)]
    } else {
        decimal_nat(n / 10).push(digit_char((n % 10) as int))
    }
}

/// An integer in decimal, with `-` before a negative one.
pub open spec fn decimal(n: int) -> Seq<char> {
    if n < 0 {
        seq!['-'] + decimal_nat((-n) as nat)
    } else {
        decimal_nat(n as nat)
    }
}

fn digit_str(d: u32) -> (s: &'static str)
    requires
        d < 10,
    ensures
        s@ == seq![digit_char(d as int)],
{
    proof {
        reveal_strlit("0");
        reveal_strlit("1");
        reveal_strlit("2");
        reveal_strlit("3");
        reveal_strlit("4");
        reveal_strlit("5");
        reveal_strlit("6");
        reveal_strlit("7");
        reveal_strlit("8");
        reveal_strlit("9");
    }
    match d {
        0 => "0",
        1 => "1",
        2 => "2",
        3 => "3",
        4 => "4",
        5 => "5",
        6 => "6",
        7 => "7",
        8 => "8",
        _ => "9",
    }
}

fn push_decimal_nat(out: &mut String, n: u32)
    ensures
        final(out)@ == old(out)@ + decimal_nat(n as nat),
    decreases n,
{
    if n >= 10 {
        push_decimal_nat(out, n / 10);
    }
    out.append(digit_str(n % 10));
}

/// Appends `n` in decimal to `out`.
pub fn push_decimal(out: &mut String, n: i32)
    ensures
        final(out)@ == old(out)@ + decimal(n as int),
{
    let wide: i64 = n as i64;
    if wide < 0 {
        proof {
            reveal_strlit("-");
        }
        out.append("-");
        push_decimal_nat(out, (0 - wide) as u32);
    } else {
        push_decimal_nat(out, wide as u32);
    }
}

} // verus!
