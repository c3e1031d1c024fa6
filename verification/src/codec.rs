//! Hex codec: decoding of `0x`-prefixed hexadecimal text into bytes and
//! unsigned integers, and minimal hex encoding of block heights.
//!
//! Text is handled as ASCII byte sequences. An odd number of hex digits is
//! tolerated by `decode_bytes`: one zero nibble is implicitly prepended, so
//! decoding fails only on a non-hexadecimal character.

use vstd::prelude::*;

verus! {

/// Why a piece of hex or decimal text could not be decoded.
#[derive(Debug, Clone, Copy, PartialEq, Eq, Structural)]
pub enum FormatError {
    /// A character outside `0-9`, `a-f`, `A-F` appeared among the digits.
    NonHexDigit,
    /// No digits were present after stripping the prefix.
    Empty,
    /// The value does not fit the target integer width.
    Overflow,
}

/// ASCII code of `0`.
pub const ASCII_ZERO: u8 = 48;

/// ASCII code of `x`.
pub const ASCII_LOWER_X: u8 = 120;

/// Whether the byte is the ASCII code of a hexadecimal digit.
pub open spec fn is_hex_digit(b: u8) -> bool {
    (48 <= b && b <= 57) || (97 <= b && b <= 102) || (65 <= b && b <= 70)
}

/// Numeric value of an ASCII hexadecimal digit.
pub open spec fn hex_val(b: u8) -> u8
    recommends
        is_hex_digit(b),
{
    if 48 <= b && b <= 57 {
        (b - 48) as u8
    } else if 97 <= b && b <= 102 {
        (b - 87) as u8
    } else {
        (b - 55) as u8
    }
}

/// Whether every byte of the sequence is an ASCII hexadecimal digit.
pub open spec fn all_hex(s: Seq<u8>) -> bool {
    forall|i: int| 0 <= i < s.len() ==> is_hex_digit(#[trigger] s[i])
}

/// The digits of the text once a single optional `0x` prefix is removed.
pub open spec fn strip_hex_prefix(s: Seq<u8>) -> Seq<u8> {
    if s.len() >= 2 && s[0] == ASCII_ZERO && s[1] == ASCII_LOWER_X {
        s.subrange(2, s.len() as int)
    } else {
        s
    }
}

/// The digits with one zero nibble prepended when their count is odd.
pub open spec fn pad_even(d: Seq<u8>) -> Seq<u8> {
    if d.len() % 2 == 1 {
        seq![ASCII_ZERO].add(d)
    } else {
        d
    }
}

/// The bytes denoted by an even-length sequence of hexadecimal digits,
/// two digits per byte, most significant nibble first.
pub open spec fn hex_pairs(d: Seq<u8>) -> Seq<u8>
    recommends
        d.len() % 2 == 0,
    decreases d.len(),
{
    if d.len() < 2 {
        Seq::empty()
    } else {
        seq![(hex_val(d[0]) * 16 + hex_val(d[1])) as u8].add(hex_pairs(d.skip(2)))
    }
}

/// The byte sequence a hex text denotes: prefix stripped, padded to an even
/// number of digits, then paired.
pub open spec fn spec_decode_bytes(text: Seq<u8>) -> Seq<u8> {
    hex_pairs(pad_even(strip_hex_prefix(text)))
}

/// The numeric value of a sequence of hexadecimal digits, big-endian.
pub open spec fn hex_num(d: Seq<u8>) -> nat
    recommends
        all_hex(d),
    decreases d.len(),
{
    if d.len() == 0 {
        0
    } else {
        (hex_num(d.drop_last()) * 16 + hex_val(d.last())) as nat
    }
}

/// ASCII code of the lowercase hexadecimal digit for a nibble value.
pub open spec fn hex_digit_ascii(v: u8) -> u8
    recommends
        v < 16,
{
    if v < 10 {
        (48 + v) as u8
    } else {
        (87 + v) as u8
    }
}

/// Minimal big-endian lowercase hex representation of a number: no leading
/// zero digits, except that zero itself is the single digit `0`.
pub open spec fn hex_repr(n: nat) -> Seq<u8>
    decreases n,
{
    if n < 16 {
        seq![hex_digit_ascii(n as u8)]
    } else {
        hex_repr(n / 16).push(hex_digit_ascii((n % 16) as u8))
    }
}

/// Exec check of `is_hex_digit`.
fn hex_digit_ok(b: u8) -> (r: bool)
    ensures
        r == is_hex_digit(b),
{
    (48 <= b && b <= 57) || (97 <= b && b <= 102) || (65 <= b && b <= 70)
}

/// Exec evaluation of `hex_val`.
fn hex_val_exec(b: u8) -> (r: u8)
    requires
        is_hex_digit(b),
    ensures
        r == hex_val(b),
{
    if 48 <= b && b <= 57 {
        b - 48
    } else if 97 <= b && b <= 102 {
        b - 87
    } else {
        b - 55
    }
}

/// The slice of the text after one optional `0x` prefix.
fn strip_prefix_exec(text: &[u8]) -> (r: &[u8])
    ensures
        r@ == strip_hex_prefix(text@),
{
    if text.len() >= 2 && *vstd::slice::slice_index_get(text, 0) == ASCII_ZERO
        && *vstd::slice::slice_index_get(text, 1) == ASCII_LOWER_X {
        vstd::slice::slice_subrange(text, 2, text.len())
    } else {
        text
    }
}

/// Index of the first non-hexadecimal digit, if any.
fn find_non_hex(d: &[u8]) -> (r: Option<usize>)
    ensures
        match r {
            Some(i) => i < d@.len() && !is_hex_digit(d@[i as int]),
            None => all_hex(d@),
        },
{
    let mut i: usize = 0;
    while i < d.len()
        invariant
            i <= d@.len(),
            forall|j: int| 0 <= j < i ==> is_hex_digit(#[trigger] d@[j]),
        decreases d@.len() - i,
    {
        if !hex_digit_ok(*vstd::slice::slice_index_get(d, i)) {
            return Some(i);
        }
        i = i + 1;
    }
    None
}

/// Decodes `0x`-prefixed hexadecimal text into its byte sequence.
///
/// An odd digit count never fails: one zero nibble is implicitly prepended.
/// The only failure is a non-hexadecimal character among the digits.
pub fn decode_bytes(text: &[u8]) -> (r: Result<Vec<u8>, FormatError>)
    ensures
        match r {
            Ok(v) => all_hex(strip_hex_prefix(text@)) && v@ == spec_decode_bytes(text@),
            Err(e) => !all_hex(strip_hex_prefix(text@)) && e == FormatError::NonHexDigit,
        },
{
    let digits = strip_prefix_exec(text);
    if find_non_hex(digits).is_some() {
        return Err(FormatError::NonHexDigit);
    }
    let ghost padded = pad_even(digits@);
    let mut out: Vec<u8> = Vec::new();
    let mut i: usize = 0;
    if digits.len() % 2 == 1 {
        out.push(hex_val_exec(*vstd::slice::slice_index_get(digits, 0)));
        i = 1;
        proof {
            assert(padded =~= seq![ASCII_ZERO].add(digits@));
            assert(padded.skip(2) =~= digits@.skip(1));
            assert(hex_pairs(padded) =~= seq![hex_val(digits@[0])].add(
                hex_pairs(digits@.skip(1))));
            assert(out@ =~= seq![hex_val(digits@[0])]);
            assert(out@.add(hex_pairs(digits@.skip(1))) =~= hex_pairs(padded));
        }
    } else {
        proof {
            assert(padded =~= digits@);
            assert(digits@.skip(0) =~= digits@);
            assert(out@.add(hex_pairs(digits@.skip(0))) =~= hex_pairs(padded));
        }
    }
    while digits.len() - i >= 2
        invariant
            i <= digits@.len(),
            (digits@.len() - i) % 2 == 0,
            all_hex(digits@),
            out@.add(hex_pairs(digits@.skip(i as int))) =~= hex_pairs(padded),
        decreases digits@.len() - i,
    {
        let hi = hex_val_exec(*vstd::slice::slice_index_get(digits, i));
        let lo = hex_val_exec(*vstd::slice::slice_index_get(digits, i + 1));
        out.push(hi * 16 + lo);
        proof {
            assert(digits@.skip(i as int).skip(2) =~= digits@.skip(i + 2));
            assert(digits@.skip(i as int)[0] == digits@[i as int]);
            assert(digits@.skip(i as int)[1] == digits@[i + 1]);
        }
        i = i + 2;
    }
    proof {
        assert(digits@.skip(i as int).len() < 2);
        assert(out@ =~= hex_pairs(padded));
    }
    Ok(out)
}

/// Decodes `0x`-prefixed hexadecimal text as a big-endian `u64`.
///
/// Fails on empty digit content, a non-hexadecimal character, or a value
/// that does not fit 64 bits.
pub fn decode_uint(text: &[u8]) -> (r: Result<u64, FormatError>)
    ensures
        ({
            let d = strip_hex_prefix(text@);
            match r {
                Ok(n) => d.len() > 0 && all_hex(d) && hex_num(d) <= u64::MAX && n == hex_num(d),
                Err(FormatError::Empty) => d.len() == 0,
                Err(FormatError::NonHexDigit) => d.len() > 0 && !all_hex(d),
                Err(FormatError::Overflow) => d.len() > 0 && all_hex(d) && hex_num(d) > u64::MAX,
            }
        }),
{
    let digits = strip_prefix_exec(text);
    if digits.len() == 0 {
        return Err(FormatError::Empty);
    }
    if find_non_hex(digits).is_some() {
        return Err(FormatError::NonHexDigit);
    }
    let mut acc: u64 = 0;
    let mut i: usize = 0;
    while i < digits.len()
        invariant
            i <= digits@.len(),
            digits@ == strip_hex_prefix(text@),
            digits@.len() > 0,
            all_hex(digits@),
            acc == hex_num(digits@.take(i as int)),
        decreases digits@.len() - i,
    {
        let dv = hex_val_exec(*vstd::slice::slice_index_get(digits, i));
        let wide: u128 = (acc as u128) * 16 + dv as u128;
        proof {
            assert(digits@.take(i + 1).drop_last() =~= digits@.take(i as int));
            assert(digits@.take(i + 1).last() == digits@[i as int]);
            assert(hex_num(digits@.take(i + 1)) == wide);
        }
        if wide > u64::MAX as u128 {
            proof {
                lemma_hex_num_prefix_le(digits@, i + 1, digits@.len() as int);
                assert(digits@.take(digits@.len() as int) =~= digits@);
            }
            return Err(FormatError::Overflow);
        }
        acc = wide as u64;
        i = i + 1;
    }
    proof {
        assert(digits@.take(digits@.len() as int) =~= digits@);
    }
    Ok(acc)
}

/// The value of a longer prefix of hex digits is at least that of a shorter one.
proof fn lemma_hex_num_prefix_le(d: Seq<u8>, i: int, j: int)
    requires
        0 <= i <= j <= d.len(),
    ensures
        hex_num(d.take(i)) <= hex_num(d.take(j)),
    decreases j - i,
{
    if i < j {
        lemma_hex_num_prefix_le(d, i, j - 1);
        assert(d.take(j).drop_last() =~= d.take(j - 1));
        assert(hex_num(d.take(j)) == hex_num(d.take(j - 1)) * 16 + hex_val(d.take(j).last()));
    }
}

/// Exec evaluation of `hex_digit_ascii`.
fn hex_digit_ascii_exec(v: u8) -> (r: u8)
    requires
        v < 16,
    ensures
        r == hex_digit_ascii(v),
{
    if v < 10 {
        48 + v
    } else {
        87 + v
    }
}

/// Appends the minimal hex representation of `n` to `out`.
fn push_hex_repr(n: u64, out: &mut Vec<u8>)
    ensures
        final(out)@ == old(out)@ + hex_repr(n as nat),
    decreases n,
{
    if n < 16 {
        out.push(hex_digit_ascii_exec(n as u8));
    } else {
        push_hex_repr(n / 16, out);
        out.push(hex_digit_ascii_exec((n % 16) as u8));
        proof {
            assert(out@ =~= old(out)@ + hex_repr(n as nat));
        }
    }
}

/// Minimal lowercase hex digits of a block height (`0` encodes as `0`,
/// never as an empty digit string), without the `0x` prefix.
pub fn encode_height_digits(height: u64) -> (r: Vec<u8>)
    ensures
        r@ == hex_repr(height as nat),
{
    let mut out: Vec<u8> = Vec::new();
    push_hex_repr(height, &mut out);
    proof {
        assert(out@ =~= hex_repr(height as nat));
    }
    out
}

/// Decoding hex text with an odd digit count equals decoding the text with
/// one zero nibble explicitly inserted after the prefix; that `decode_bytes`
/// succeeds on every such text is its own contract, which fails only on a
/// non-hexadecimal character.
pub proof fn lemma_decode_odd_pads(text: Seq<u8>)
    requires
        strip_hex_prefix(text).len() % 2 == 1,
        all_hex(strip_hex_prefix(text)),
    ensures
        spec_decode_bytes(text) == spec_decode_bytes(seq![ASCII_ZERO].add(strip_hex_prefix(text))),
{
    let d = strip_hex_prefix(text);
    let padded = seq![ASCII_ZERO].add(d);
    // A zero digit followed by a hex digit is never the `0x` prefix, so the
    // padded text keeps all its digits.
    assert(is_hex_digit(padded[1]) && padded[1] != ASCII_LOWER_X);
    assert(strip_hex_prefix(padded) =~= padded);
    assert(pad_even(padded) =~= padded);
    assert(pad_even(d) =~= padded);
}

} // verus!
