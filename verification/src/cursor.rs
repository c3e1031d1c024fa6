//! Chain cursor codec: the durable "next block height" record, persisted as
//! decimal text. Loading never fails the caller: an absent or unparseable
//! record falls back to height 1.

use vstd::prelude::*;

verus! {

/// ASCII whitespace, as the cursor file may carry a trailing newline.
pub open spec fn is_ws(b: u8) -> bool {
    b == 32 || b == 9 || b == 10 || b == 13
}

/// Whether the byte is an ASCII decimal digit.
pub open spec fn is_dec_digit(b: u8) -> bool {
    48 <= b && b <= 57
}

/// The text with leading whitespace removed.
pub open spec fn trim_start(s: Seq<u8>) -> Seq<u8>
    decreases s.len(),
{
    if s.len() > 0 && is_ws(s.first()) {
        trim_start(s.drop_first())
    } else {
        s
    }
}

/// The text with trailing whitespace removed.
pub open spec fn trim_end(s: Seq<u8>) -> Seq<u8>
    decreases s.len(),
{
    if s.len() > 0 && is_ws(s.last()) {
        trim_end(s.drop_last())
    } else {
        s
    }
}

/// The text with surrounding whitespace removed.
pub open spec fn spec_trim(s: Seq<u8>) -> Seq<u8> {
    trim_end(trim_start(s))
}

/// Numeric value of an ASCII decimal digit.
pub open spec fn dec_val(b: u8) -> u8
    recommends
        is_dec_digit(b),
{
    (b - 48) as u8
}

/// The numeric value of a sequence of decimal digits, most significant first.
pub open spec fn dec_num(d: Seq<u8>) -> nat
    recommends
        forall|i: int| 0 <= i < d.len() ==> is_dec_digit(#[trigger] d[i]),
    decreases d.len(),
{
    if d.len() == 0 {
        0
    } else {
        (dec_num(d.drop_last()) * 10 + dec_val(d.last())) as nat
    }
}

/// Whether trimmed cursor text denotes a height that fits a `u64`.
pub open spec fn parseable_height(d: Seq<u8>) -> bool {
    d.len() > 0 && (forall|i: int| 0 <= i < d.len() ==> is_dec_digit(#[trigger] d[i])) && dec_num(
        d,
    ) <= u64::MAX
}

/// Minimal decimal representation of a height, for the durable record.
pub open spec fn dec_repr(n: nat) -> Seq<u8>
    decreases n,
{
    if n < 10 {
        seq![(48 + n) as u8]
    } else {
        dec_repr(n / 10).push((48 + n % 10) as u8)
    }
}

/// A value of a longer digit prefix is at least that of a shorter one.
proof fn lemma_dec_num_prefix_le(d: Seq<u8>, i: int, j: int)
    requires
        0 <= i <= j <= d.len(),
    ensures
        dec_num(d.take(i)) <= dec_num(d.take(j)),
    decreases j - i,
{
    if i < j {
        lemma_dec_num_prefix_le(d, i, j - 1);
        assert(d.take(j).drop_last() =~= d.take(j - 1));
    }
}

/// Trimming from the start is skipping the whitespace prefix.
proof fn lemma_trim_start_skip(s: Seq<u8>, j: int)
    requires
        0 <= j <= s.len(),
        forall|k: int| 0 <= k < j ==> is_ws(#[trigger] s[k]),
        j == s.len() || !is_ws(s[j]),
    ensures
        trim_start(s) == s.skip(j),
    decreases j,
{
    if j == 0 {
        assert(s.skip(0) =~= s);
    } else {
        assert(s.drop_first() =~= s.skip(1));
        assert(s.drop_first().skip(j - 1) =~= s.skip(j));
        lemma_trim_start_skip(s.drop_first(), j - 1);
    }
}

/// Trimming from the end is taking the prefix before the whitespace suffix.
proof fn lemma_trim_end_take(s: Seq<u8>, j: int)
    requires
        0 <= j <= s.len(),
        forall|k: int| j <= k < s.len() ==> is_ws(#[trigger] s[k]),
        j == 0 || !is_ws(s[j - 1]),
    ensures
        trim_end(s) == s.take(j),
    decreases s.len() - j,
{
    if j == s.len() {
        assert(s.take(j) =~= s);
    } else {
        assert(s.drop_last() =~= s.take(s.len() - 1));
        assert(s.take(s.len() - 1).take(j) =~= s.take(j));
        lemma_trim_end_take(s.take(s.len() - 1), j);
    }
}

/// Exec check of `is_ws`.
fn ws_byte(b: u8) -> (r: bool)
    ensures
        r == is_ws(b),
{
    b == 32 || b == 9 || b == 10 || b == 13
}

/// The trimmed view of the text, as a subslice.
fn trim_exec(text: &[u8]) -> (r: &[u8])
    ensures
        r@ == spec_trim(text@),
{
    let mut start: usize = 0;
    while start < text.len() && ws_byte(*vstd::slice::slice_index_get(text, start))
        invariant
            start <= text@.len(),
            forall|k: int| 0 <= k < start ==> is_ws(#[trigger] text@[k]),
        decreases text@.len() - start,
    {
        start = start + 1;
    }
    proof {
        lemma_trim_start_skip(text@, start as int);
    }
    let rest = vstd::slice::slice_subrange(text, start, text.len());
    let mut end: usize = rest.len();
    while end > 0 && ws_byte(*vstd::slice::slice_index_get(rest, end - 1))
        invariant
            end <= rest@.len(),
            forall|k: int| end <= k < rest@.len() ==> is_ws(#[trigger] rest@[k]),
        decreases end,
    {
        end = end - 1;
    }
    proof {
        lemma_trim_end_take(rest@, end as int);
        assert(rest@ == text@.skip(start as int));
        assert(trim_start(text@) == rest@);
    }
    vstd::slice::slice_subrange(rest, 0, end)
}

/// Decodes trimmed cursor text as a decimal height, if it is one.
fn parse_height(d: &[u8]) -> (r: Option<u64>)
    ensures
        match r {
            Some(n) => parseable_height(d@) && n == dec_num(d@),
            None => !parseable_height(d@),
        },
{
    if d.len() == 0 {
        return None;
    }
    let mut acc: u64 = 0;
    let mut i: usize = 0;
    while i < d.len()
        invariant
            i <= d@.len(),
            d@.len() > 0,
            forall|k: int| 0 <= k < i ==> is_dec_digit(#[trigger] d@[k]),
            acc == dec_num(d@.take(i as int)),
        decreases d@.len() - i,
    {
        let b = *vstd::slice::slice_index_get(d, i);
        if !(48 <= b && b <= 57) {
            return None;
        }
        let wide: u128 = (acc as u128) * 10 + (b - 48) as u128;
        proof {
            assert(d@.take(i + 1).drop_last() =~= d@.take(i as int));
            assert(d@.take(i + 1).last() == d@[i as int]);
            assert(dec_num(d@.take(i + 1)) == wide);
        }
        if wide > u64::MAX as u128 {
            proof {
                lemma_dec_num_prefix_le(d@, i + 1, d@.len() as int);
                assert(d@.take(d@.len() as int) =~= d@);
            }
            return None;
        }
        acc = wide as u64;
        i = i + 1;
    }
    proof {
        assert(d@.take(d@.len() as int) =~= d@);
    }
    Some(acc)
}

/// The height a loaded cursor record denotes: the trimmed text's decimal
/// value, or 1 when the record is absent or does not parse as a `u64` —
/// loading never fails the caller.
pub open spec fn spec_initial_height(saved: Option<Seq<u8>>) -> u64 {
    match saved {
        Some(text) => if parseable_height(spec_trim(text)) {
            dec_num(spec_trim(text)) as u64
        } else {
            1u64
        },
        None => 1u64,
    }
}

/// Interprets the durable cursor record read at startup (None when the
/// record does not exist). Absent or unparseable content yields height 1.
pub fn initial_height(saved: Option<&Vec<u8>>) -> (h: u64)
    ensures
        h == spec_initial_height(match saved {
            Some(v) => Some(v@),
            None => None,
        }),
{
    match saved {
        None => 1,
        Some(text) => {
            let trimmed = trim_exec(text.as_slice());
            match parse_height(trimmed) {
                Some(n) => n,
                None => 1,
            }
        },
    }
}

/// Appends the decimal representation of `n`.
fn push_dec_repr(n: u64, out: &mut Vec<u8>)
    ensures
        final(out)@ == old(out)@ + dec_repr(n as nat),
    decreases n,
{
    if n < 10 {
        out.push(48 + (n as u8));
    } else {
        push_dec_repr(n / 10, out);
        out.push(48 + ((n % 10) as u8));
        proof {
            assert(out@ =~= old(out)@ + dec_repr(n as nat));
        }
    }
}

/// The decimal text the durable cursor record is written with.
pub fn encode_cursor(height: u64) -> (r: Vec<u8>)
    ensures
        r@ == dec_repr(height as nat),
{
    let mut out: Vec<u8> = Vec::new();
    push_dec_repr(height, &mut out);
    proof {
        assert(out@ =~= dec_repr(height as nat));
    }
    out
}

/// Writing a cursor and reading it back yields the same height: the decimal
/// representation of any `u64` is parseable, untrimmed by whitespace, and
/// decodes to the value written.
pub proof fn lemma_cursor_round_trip(height: u64)
    ensures
        spec_initial_height(Some(dec_repr(height as nat))) == height,
{
    lemma_dec_repr_digits(height as nat);
    lemma_dec_num_repr(height as nat);
    let d = dec_repr(height as nat);
    assert(!is_ws(d.first()));
    assert(!is_ws(d.last()));
    assert(trim_start(d) == d);
    assert(trim_end(d) == d);
}

/// Every byte of a decimal representation is a digit, and there is at least
/// one.
proof fn lemma_dec_repr_digits(n: nat)
    ensures
        dec_repr(n).len() >= 1,
        forall|i: int| 0 <= i < dec_repr(n).len() ==> is_dec_digit(#[trigger] dec_repr(n)[i]),
    decreases n,
{
    if n >= 10 {
        lemma_dec_repr_digits(n / 10);
    }
}

/// The decimal representation decodes to the number it was made from.
proof fn lemma_dec_num_repr(n: nat)
    ensures
        dec_num(dec_repr(n)) == n,
    decreases n,
{
    reveal_with_fuel(dec_num, 2);
    if n < 10 {
        assert(dec_repr(n).drop_last() =~= Seq::<u8>::empty());
        assert(dec_num(Seq::<u8>::empty()) == 0);
    } else {
        lemma_dec_num_repr(n / 10);
        assert(dec_repr(n).drop_last() =~= dec_repr(n / 10));
    }
}

} // verus!
