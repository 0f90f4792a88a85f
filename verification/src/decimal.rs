use vstd::prelude::*;

verus! {

/// An ASCII decimal digit, `'0'..='9'`.
pub open spec fn is_digit_byte(b: u8) -> bool {
    48 <= b <= 57
}

/// Every byte of `s` is an ASCII decimal digit.
pub open spec fn all_digits(s: Seq<u8>) -> bool {
    forall|i: int| 0 <= i < s.len() ==> is_digit_byte(#[trigger] s[i])
}

/// The value of a string of decimal digits, most significant digit first.
pub open spec fn digits_value(s: Seq<u8>) -> int
    decreases s.len(),
{
    if s.len() == 0 {
        0
    } else {
        digits_value(s.drop_last()) * 10 + (s.last() - 48)
    }
}

/// The digits that follow an optional leading `'+'` or `'-'`.
pub open spec fn unsigned_part(s: Seq<u8>) -> Seq<u8> {
    if s.len() > 0 && (s[0] == 43u8 || s[0] == 45u8) {
        s.skip(1)
    } else {
        s
    }
}

/// What decimal text means as an `i32`, as std's `str::parse::<i32>` reads it:
/// an optional `'+'` or `'-'`, then at least one ASCII digit and nothing else,
/// with a value in `i32`'s range; `None` for anything else.
pub open spec fn spec_parse_i32(s: Seq<u8>) -> Option<i32> {
    let digits = unsigned_part(s);
    let negative = s.len() > 0 && s[0] == 45u8;
    let v = if negative {
        -digits_value(digits)
    } else {
        digits_value(digits)
    };
    if digits.len() == 0 || !all_digits(digits) {
        None
    } else if i32::MIN <= v <= i32::MAX {
        Some(v as i32)
    } else {
        None
    }
}

/// The value of a digit string is never below that of any of its prefixes.
pub proof fn lemma_digits_value_prefix(s: Seq<u8>, k: int)
    requires
        0 <= k <= s.len(),
        all_digits(s),
    ensures
        digits_value(s) >= digits_value(s.take(k)) >= 0,
    decreases s.len(),
{
    if k == s.len() {
        assert(s.take(k) =~= s);
        if s.len() > 0 {
            lemma_digits_value_prefix(s.drop_last(), k - 1);
        }
    } else {
        assert(s.drop_last().take(k) =~= s.take(k));
        lemma_digits_value_prefix(s.drop_last(), k);
    }
}

/// Reads decimal text as an `i32`, exactly as `str::parse::<i32>` does.
pub fn parse_i32(text: &[u8]) -> (r: Option<i32>)
    ensures
        r == spec_parse_i32(text@),
{
    let len = text.len();
    let mut start: usize = 0;
    let mut negative = false;
    if len > 0 && (text[0] == 43u8 || text[0] == 45u8) {
        negative = text[0] == 45u8;
        start = 1;
    }
    let ghost digits = unsigned_part(text@);
    assert(digits =~= text@.subrange(start as int, len as int));
    if start == len {
        return None;
    }
    let mut acc: i64 = 0;
    let mut i: usize = start;
    while i < len
        invariant
            start <= i <= len,
            len == text@.len(),
            start < len,
            digits == unsigned_part(text@),
            digits =~= text@.subrange(start as int, len as int),
            all_digits(text@.subrange(start as int, i as int)),
            acc == digits_value(text@.subrange(start as int, i as int)),
            0 <= acc <= 2147483648,
        decreases len - i,
    {
        let b = text[i];
        if b < 48 || b > 57 {
            assert(digits[i - start] == b);
            assert(!all_digits(digits));
            return None;
        }
        let ghost prev = text@.subrange(start as int, i as int);
        let ghost next = text@.subrange(start as int, i + 1);
        assert(next.drop_last() =~= prev);
        acc = acc * 10 + (b - 48) as i64;
        i = i + 1;
        assert(all_digits(next)) by {
            assert forall|j: int| 0 <= j < next.len() implies is_digit_byte(#[trigger] next[j]) by {
                if j < prev.len() {
                    assert(next[j] == prev[j]);
                }
            }
        }
        if acc > 2147483648 {
            proof {
                if all_digits(digits) {
                    lemma_digits_value_prefix(digits, (i - start) as int);
                    assert(digits.take((i - start) as int) =~= next);
                    assert(digits_value(digits) > 2147483648);
                }
            }
            return None;
        }
    }
    assert(text@.subrange(start as int, i as int) =~= digits);
    if negative {
        Some((0 - acc) as i32)
    } else if acc <= 2147483647 {
        Some(acc as i32)
    } else {
        None
    }
}

/// How octave text reads, relating calls: nothing, or a sign alone, is no
/// number; a digit string with a leading `+` reads as the digits alone; with
/// a leading `-` it reads as their negation; and appending a digit `d` to a
/// non-negative number `v` reads as `10 * v + d`, all while within `i32`.
pub proof fn lemma_parse_i32_laws(s: Seq<u8>, d: u8)
    requires
        forall|i: int| 0 <= i < s.len() ==> 48 <= #[trigger] s[i] <= 57,
        48 <= d <= 57,
    ensures
        spec_parse_i32(Seq::empty()) is None,
        spec_parse_i32(seq![43u8]) is None,
        spec_parse_i32(seq![45u8]) is None,
        spec_parse_i32(seq![43u8] + s) == spec_parse_i32(s),
        s.len() > 0 ==> (spec_parse_i32(s) matches Some(v) ==> (v > i32::MIN ==> spec_parse_i32(
            seq![45u8] + s,
        ) == Some((-v) as i32))),
        s.len() > 0 ==> (spec_parse_i32(s) matches Some(v) ==> (10 * v + (d - 48) <= i32::MAX
            ==> spec_parse_i32(s.push(d)) == Some((10 * v + (d - 48)) as i32))),
{
    assert(seq![43u8].skip(1) =~= Seq::<u8>::empty());
    assert(seq![45u8].skip(1) =~= Seq::<u8>::empty());
    assert((seq![43u8] + s).skip(1) =~= s);
    assert((seq![45u8] + s).skip(1) =~= s);
    assert(s.push(d).drop_last() =~= s);
    assert(all_digits(s));
    if s.len() > 0 {
        assert(s.push(d)[0] == s[0]);
        assert(all_digits(s.push(d))) by {
            assert forall|i: int| 0 <= i < s.push(d).len() implies is_digit_byte(
                #[trigger] s.push(d)[i],
            ) by {
                if i < s.len() {
                    assert(s.push(d)[i] == s[i]);
                }
            }
        }
        lemma_digits_value_prefix(s, 0);
    }
}

} // verus!
