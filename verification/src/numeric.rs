//! Decimal rendering and parsing of 64-bit integers.
//!
//! Document ids in the search index are the decimal form of the image id,
//! and search replies carry ids as JSON numbers, so both directions are
//! specified exactly: `spec_dec_i64` gives the canonical decimal text of an
//! integer, and `spec_parse_i64` gives the value of a decimal text, `None`
//! on malformed or out-of-range input.

use vstd::prelude::*;
use vstd::string::StrSliceExecFns;
use vstd::string::StringExecFns;

verus! {

/// The character for one decimal digit.
pub open spec fn spec_digit_char(d: int) -> char
    recommends
        0 <= d < 10,
{
    if d == 0 {
        '0'
    } else if d == 1 {
        '1'
    } else if d == 2 {
        '2'
    } else if d == 3 {
        '3'
    } else if d == 4 {
        '4'
    } else if d == 5 {
        '5'
    } else if d == 6 {
        '6'
    } else if d == 7 {
        '7'
    } else if d == 8 {
        '8'
    } else {
        '9'
    }
}

/// The numeric value of a decimal digit character, `-1` for any other char.
pub open spec fn spec_digit_val(c: char) -> int {
    if c == '0' {
        0
    } else if c == '1' {
        1
    } else if c == '2' {
        2
    } else if c == '3' {
        3
    } else if c == '4' {
        4
    } else if c == '5' {
        5
    } else if c == '6' {
        6
    } else if c == '7' {
        7
    } else if c == '8' {
        8
    } else if c == '9' {
        9
    } else {
        -1
    }
}

/// Decimal text of a non-negative integer, most significant digit first,
/// with no leading zeros (a single `'0'` for zero).
pub open spec fn spec_dec_nat(n: int) -> Seq<char>
    recommends
        n >= 0,
    decreases n,
{
    if n < 10 {
        seq![spec_digit_char(n)]
    } else {
        spec_dec_nat(n / 10).push(spec_digit_char(n % 10))
    }
}

/// Decimal text of a signed integer: a leading `'-'` for negative values.
pub open spec fn spec_dec_i64(n: int) -> Seq<char> {
    if n < 0 {
        seq!['-'] + spec_dec_nat(-n)
    } else {
        spec_dec_nat(n)
    }
}

/// Value of an all-digit text, most significant digit first; `None` if the
/// text is empty or holds a non-digit.
pub open spec fn spec_parse_digits(s: Seq<char>) -> Option<int>
    decreases s.len(),
{
    if s.len() == 0 {
        None
    } else if s.len() == 1 {
        if spec_digit_val(s[0]) >= 0 {
            Some(spec_digit_val(s[0]))
        } else {
            None
        }
    } else {
        match spec_parse_digits(s.drop_last()) {
            Some(v) => if spec_digit_val(s.last()) >= 0 {
                Some(v * 10 + spec_digit_val(s.last()))
            } else {
                None
            },
            None => None,
        }
    }
}

/// Value of a decimal text with an optional leading `'-'`; `None` if the
/// text is malformed or the value does not fit in an `i64`.
pub open spec fn spec_parse_i64(s: Seq<char>) -> Option<int> {
    if s.len() > 0 && s[0] == '-' {
        match spec_parse_digits(s.subrange(1, s.len() as int)) {
            Some(v) => if -v >= i64::MIN {
                Some(-v)
            } else {
                None
            },
            None => None,
        }
    } else {
        match spec_parse_digits(s) {
            Some(v) => if v <= i64::MAX {
                Some(v)
            } else {
                None
            },
            None => None,
        }
    }
}

/// The one-character string for a decimal digit.
fn digit_str(d: u64) -> (r: &'static str)
    requires
        d < 10,
    ensures
        r@ =~= seq![spec_digit_char(d as int)],
{
    proof {
        reveal_strlit("0");
        reveal_strlit("1");
        reveal_strlit("2");
        reveal_strlit("3");
        reveal_strlit("4");
        reveal_strlit("5");
        reveal_strlit("6");
        reveal_strlit("7");
        reveal_strlit("8");
        reveal_strlit("9");
    }
    match d {
        0 => "0",
        1 => "1",
        2 => "2",
        3 => "3",
        4 => "4",
        5 => "5",
        6 => "6",
        7 => "7",
        8 => "8",
        _ => "9",
    }
}

/// Appends the decimal text of `n` to `out`.
pub fn push_dec_u64(out: &mut String, n: u64)
    ensures
        final(out)@ == old(out)@ + spec_dec_nat(n as int),
    decreases n,
{
    if n < 10 {
        out.append(digit_str(n));
        assert(final(out)@ =~= old(out)@ + spec_dec_nat(n as int));
    } else {
        push_dec_u64(out, n / 10);
        out.append(digit_str(n % 10));
        assert(final(out)@ =~= old(out)@ + spec_dec_nat(n as int));
    }
}

/// Appends the decimal text of `n` to `out`, with a `'-'` when negative.
pub fn push_dec_i64(out: &mut String, n: i64)
    ensures
        final(out)@ == old(out)@ + spec_dec_i64(n as int),
{
    if n < 0 {
        let magnitude: u64 = if n == i64::MIN {
            9223372036854775808
        } else {
            (-n) as u64
        };
        assert(magnitude as int == -(n as int));
        proof {
            reveal_strlit("-");
        }
        out.append("-");
        push_dec_u64(out, magnitude);
        assert(final(out)@ =~= old(out)@ + spec_dec_i64(n as int));
    } else {
        push_dec_u64(out, n as u64);
    }
}

/// The decimal text of `n`, as the search index's document id for image `n`.
pub fn i64_to_string(n: i64) -> (r: String)
    ensures
        r@ == spec_dec_i64(n as int),
{
    let mut out = String::new();
    push_dec_i64(&mut out, n);
    proof {
        assert(out@ =~= spec_dec_i64(n as int));
    }
    out
}

/// Parses a decimal text into an `i64`; `None` exactly when the text is
/// malformed or out of range, per `spec_parse_i64`.
pub fn parse_i64(s: &str) -> (r: Option<i64>)
    ensures
        match r {
            Some(v) => spec_parse_i64(s@) == Some(v as int),
            None => spec_parse_i64(s@) is None,
        },
{
    let n = s.unicode_len();
    if n == 0 {
        return None;
    }
    let negative = s.get_char(0) == '-';
    let start: usize = if negative {
        1
    } else {
        0
    };
    if start == n {
        return None;
    }
    let limit: u64 = if negative {
        9223372036854775808
    } else {
        9223372036854775807
    };
    let mut acc: u64 = 0;
    let mut i: usize = start;
    while i < n
        invariant
            start <= i <= n,
            n == s@.len(),
            start == if negative { 1int } else { 0int },
            negative ==> s@[0] == '-',
            !negative ==> (s@.len() > 0 && s@[0] != '-'),
            limit == if negative { 9223372036854775808u64 } else { 9223372036854775807u64 },
            i > start ==> spec_parse_digits(s@.subrange(start as int, i as int)) == Some(acc as int),
            i == start ==> acc == 0,
            acc <= limit,
        decreases n - i,
    {
        let c = s.get_char(i);
        let d: u64 = match c {
            '0' => 0,
            '1' => 1,
            '2' => 2,
            '3' => 3,
            '4' => 4,
            '5' => 5,
            '6' => 6,
            '7' => 7,
            '8' => 8,
            '9' => 9,
            _ => {
                proof {
                    let digits = s@.subrange(start as int, n as int);
                    assert(digits[i - start] == s@[i as int]);
                    assert(spec_digit_val(s@[i as int]) < 0);
                    lemma_parse_digits_bad_char(digits, i - start);
                    lemma_parse_i64_of_digits(s@, negative);
                    if !negative {
                        assert(digits =~= s@);
                    }
                }
                return None;
            },
        };
        assert(spec_digit_val(s@[i as int]) == d as int);
        if acc > (limit - d) / 10 {
            proof {
                let prefix = s@.subrange(start as int, i as int);
                let ext = s@.subrange(start as int, i + 1);
                assert(ext.drop_last() =~= prefix);
                assert(ext.last() == s@[i as int]);
                assert(spec_parse_digits(ext) == Some(acc as int * 10 + d as int));
                assert(acc as int * 10 + d as int > limit as int) by (nonlinear_arith)
                    requires
                        acc > (limit - d) / 10,
                        d < 10,
                        limit >= 10,
                ;
                lemma_parse_i64_overflow(s@, negative, limit as int, i as int);
            }
            return None;
        }
        assert(acc * 10 + d <= limit) by (nonlinear_arith)
            requires
                acc <= (limit - d) / 10,
                d < 10,
                limit >= 10,
        ;
        proof {
            let prefix = s@.subrange(start as int, i as int);
            let ext = s@.subrange(start as int, i + 1 as int);
            assert(ext.drop_last() =~= prefix);
            assert(ext.last() == s@[i as int]);
        }
        acc = acc * 10 + d;
        i = i + 1;
    }
    proof {
        lemma_parse_i64_of_digits(s@, negative);
        if !negative {
            assert(s@.subrange(0, n as int) =~= s@);
        } else {
            assert(s@.subrange(1, n as int) =~= s@.subrange(1, s@.len() as int));
        }
    }
    if negative {
        if acc == 9223372036854775808 {
            Some(i64::MIN)
        } else {
            Some(-(acc as i64))
        }
    } else {
        Some(acc as i64)
    }
}

/// A digit text extended by a non-digit has no value.
proof fn lemma_parse_digits_bad_char(s: Seq<char>, k: int)
    requires
        0 <= k < s.len(),
        spec_digit_val(s[k]) < 0,
    ensures
        spec_parse_digits(s) is None,
    decreases s.len(),
{
    if s.len() > 1 && k < s.len() - 1 {
        lemma_parse_digits_bad_char(s.drop_last(), k);
    }
}

/// The value of a digit text is at least the value of any of its prefixes.
proof fn lemma_parse_digits_grows(s: Seq<char>, k: int)
    requires
        0 <= k < s.len(),
    ensures
        match spec_parse_digits(s) {
            Some(v) => match spec_parse_digits(s.subrange(0, k + 1)) {
                Some(p) => p <= v,
                None => false,
            },
            None => true,
        },
    decreases s.len(),
{
    if spec_parse_digits(s) is Some {
        if k + 1 == s.len() {
            assert(s.subrange(0, k + 1) =~= s);
        } else {
            assert(s.drop_last() =~= s.subrange(0, s.len() - 1));
            assert(s.subrange(0, s.len() - 1).subrange(0, k + 1) =~= s.subrange(0, k + 1));
            lemma_parse_digits_grows(s.drop_last(), k);
            lemma_parse_digits_nonneg(s.drop_last());
            let v = spec_parse_digits(s.drop_last()).unwrap();
            assert(v * 10 + spec_digit_val(s.last()) >= v) by (nonlinear_arith)
                requires
                    v >= 0,
                    spec_digit_val(s.last()) >= 0,
            ;
        }
    }
}

/// A parsed digit text has a non-negative value.
proof fn lemma_parse_digits_nonneg(s: Seq<char>)
    ensures
        match spec_parse_digits(s) {
            Some(v) => v >= 0,
            None => true,
        },
    decreases s.len(),
{
    if s.len() > 1 {
        lemma_parse_digits_nonneg(s.drop_last());
    }
}

/// Relates `spec_parse_i64` of the whole text to `spec_parse_digits` of the
/// digit part: the sign prefix only negates and range-checks the value.
proof fn lemma_parse_i64_of_digits(s: Seq<char>, negative: bool)
    requires
        s.len() > 0,
        negative ==> s[0] == '-',
        !negative ==> s[0] != '-',
    ensures
        negative ==> spec_parse_i64(s) == (match spec_parse_digits(
            s.subrange(1, s.len() as int),
        ) {
            Some(v) => if -v >= i64::MIN {
                Some(-v)
            } else {
                None::<int>
            },
            None => None::<int>,
        }),
        !negative ==> spec_parse_i64(s) == (match spec_parse_digits(s) {
            Some(v) => if v <= i64::MAX {
                Some(v)
            } else {
                None::<int>
            },
            None => None::<int>,
        }),
{
    if !negative {
        assert(spec_digit_val(s[0]) >= 0 || spec_parse_digits(s) is None) by {
            if spec_digit_val(s[0]) < 0 {
                lemma_parse_digits_bad_char(s, 0);
            }
        }
    }
}

/// When the accumulated prefix already exceeds what fits, the whole text is
/// out of range, so its parse is `None`.
proof fn lemma_parse_i64_overflow(s: Seq<char>, negative: bool, limit: int, i: int)
    requires
        s.len() > 0,
        negative ==> s[0] == '-',
        !negative ==> s[0] != '-',
        limit == if negative { 0x8000_0000_0000_0000int } else { 0x7fff_ffff_ffff_ffffint },
        (if negative { 1int } else { 0int }) <= i < s.len(),
        match spec_parse_digits(
            s.subrange(if negative { 1int } else { 0int }, i + 1),
        ) {
            Some(p) => p > limit,
            None => true,
        },
    ensures
        spec_parse_i64(s) is None,
{
    let start: int = if negative { 1int } else { 0int };
    let digits = s.subrange(start, s.len() as int);
    lemma_parse_i64_of_digits(s, negative);
    if !negative {
        assert(digits =~= s);
    }
    match spec_parse_digits(digits) {
        Some(v) => {
            assert(digits.subrange(0, i + 1 - start) =~= s.subrange(start, i + 1));
            lemma_parse_digits_grows(digits, i - start);
            assert(v > limit);
        },
        None => {},
    }
}

} // verus!
