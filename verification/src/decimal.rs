//! Decimal text: rendering a `u64` as digits and parsing a duration in
//! seconds, as the command line hands it over.

use vstd::prelude::*;
use vstd::string::StringExecFns;

verus! {

/// The character for one decimal digit value.
pub open spec fn spec_digit_char(d: int) -> char {
    if d == 0 {
        '0'
    } else if d == 1 {
        '1'
    } else if d == 2 {
        '2'
    } else if d == 3 {
        '3'
    } else if d == 4 {
        '4'
    } else if d == 5 {
        '5'
    } else if d == 6 {
        '6'
    } else if d == 7 {
        '7'
    } else if d == 8 {
        '8'
    } else {
        '9'
    }
}

/// The decimal digits of a nonnegative number, most significant first,
/// without leading zeros (a single `'0'` for zero).
pub open spec fn spec_digits(n: int) -> Seq<char>
    decreases n,
{
    if n < 10 {
        seq![spec_digit_char(n)]
    } else {
        spec_digits(n / 10).push(spec_digit_char(n % 10))
    }
}

fn digit_str(d: u64) -> (s: &'static str)
    requires
        d < 10,
    ensures
        s@ == seq![spec_digit_char(d as int)],
{
    let s: &'static str = if d == 0 {
        "0"
    } else if d == 1 {
        "1"
    } else if d == 2 {
        "2"
    } else if d == 3 {
        "3"
    } else if d == 4 {
        "4"
    } else if d == 5 {
        "5"
    } else if d == 6 {
        "6"
    } else if d == 7 {
        "7"
    } else if d == 8 {
        "8"
    } else {
        "9"
    };
    proof {
        reveal_strlit("0");
        reveal_strlit("1");
        reveal_strlit("2");
        reveal_strlit("3");
        reveal_strlit("4");
        reveal_strlit("5");
        reveal_strlit("6");
        reveal_strlit("7");
        reveal_strlit("8");
        reveal_strlit("9");
    }
    s
}

/// Renders `n` as its decimal digits.
pub fn u64_to_string(n: u64) -> (s: String)
    ensures
        s@ == spec_digits(n as int),
    decreases n,
{
    if n < 10 {
        String::from_str(digit_str(n))
    } else {
        let mut s = u64_to_string(n / 10);
        s.append(digit_str(n % 10));
        s
    }
}

/// Whether `c` is a decimal digit (code points of `'0'` through `'9'`).
pub open spec fn is_dec_digit(c: char) -> bool {
    48 <= c as int && c as int <= 57
}

/// The value of one decimal digit character.
pub open spec fn spec_digit_val(c: char) -> int {
    c as int - 48
}

/// The number denoted by a digit string, most significant digit first.
pub open spec fn spec_dec_val(s: Seq<char>) -> int
    decreases s.len(),
{
    if s.len() == 0 {
        0
    } else {
        spec_dec_val(s.drop_last()) * 10 + spec_digit_val(s.last())
    }
}

/// A nonempty string of decimal digits.
pub open spec fn is_dec_string(s: Seq<char>) -> bool {
    s.len() > 0 && forall|i: int| 0 <= i < s.len() ==> is_dec_digit(#[trigger] s[i])
}

/// The digits of a numeral: the whole string, or what follows an optional
/// leading `'+'` (code point 43).
pub open spec fn numeral_body(s: Seq<char>) -> Seq<char> {
    if s.len() > 0 && s[0] as int == 43 {
        s.drop_first()
    } else {
        s
    }
}

/// An unsigned numeral as `u64` parsing reads it: an optional leading `'+'`,
/// then at least one decimal digit.
pub open spec fn is_u64_numeral(s: Seq<char>) -> bool {
    is_dec_string(numeral_body(s))
}

/// Why a duration argument was rejected.
#[derive(Clone, Copy, Debug, PartialEq, Eq, Structural)]
pub enum ParseDurationError {
    /// The argument was empty.
    Empty,
    /// Some character was not a decimal digit.
    InvalidDigit,
    /// The denoted number does not fit in `u64`.
    Overflow,
}

proof fn lemma_dec_val_nonneg(s: Seq<char>)
    requires
        forall|i: int| 0 <= i < s.len() ==> is_dec_digit(#[trigger] s[i]),
    ensures
        spec_dec_val(s) >= 0,
    decreases s.len(),
{
    if s.len() > 0 {
        lemma_dec_val_nonneg(s.drop_last());
    }
}

proof fn lemma_dec_val_take_succ(s: Seq<char>, i: int)
    requires
        0 <= i < s.len(),
    ensures
        spec_dec_val(s.take(i + 1)) == spec_dec_val(s.take(i)) * 10 + spec_digit_val(s[i]),
{
    assert(s.take(i + 1).drop_last() =~= s.take(i));
    assert(s.take(i + 1).last() == s[i]);
}

proof fn lemma_dec_val_grows(s: Seq<char>, i: int)
    requires
        0 <= i <= s.len(),
        forall|j: int| 0 <= j < s.len() ==> is_dec_digit(#[trigger] s[j]),
        spec_dec_val(s.take(i)) > u64::MAX,
    ensures
        spec_dec_val(s) > u64::MAX,
    decreases s.len() - i,
{
    if i == s.len() {
        assert(s.take(i) =~= s);
    } else {
        lemma_dec_val_take_succ(s, i);
        assert(spec_dec_val(s.take(i + 1)) > u64::MAX);
        lemma_dec_val_grows(s, i + 1);
    }
}

/// Parses a benchmark duration, given in whole seconds, from its command-line
/// text, with the grammar of `u64` parsing: an optional leading `'+'`, then
/// at least one decimal digit, denoting a value that fits in `u64`.
pub fn parse_duration(arg: &str) -> (r: Result<u64, ParseDurationError>)
    ensures
        r is Ok <==> is_u64_numeral(arg@) && spec_dec_val(numeral_body(arg@)) <= u64::MAX,
        r matches Ok(n) ==> n == spec_dec_val(numeral_body(arg@)),
        r == Err::<u64, _>(ParseDurationError::Empty) <==> arg@.len() == 0,
        r == Err::<u64, _>(ParseDurationError::InvalidDigit) <==> (arg@.len() > 0
            && !is_u64_numeral(arg@)),
        r == Err::<u64, _>(ParseDurationError::Overflow) <==> (is_u64_numeral(arg@)
            && spec_dec_val(numeral_body(arg@)) > u64::MAX),
{
    let n = arg.unicode_len();
    if n == 0 {
        return Err(ParseDurationError::Empty);
    }
    let first = arg.get_char(0);
    let start: usize = if first as u32 == 43 {
        1
    } else {
        0
    };
    let ghost body = numeral_body(arg@);
    proof {
        assert(body =~= arg@.skip(start as int));
    }
    if n == start {
        assert(body.len() == 0);
        return Err(ParseDurationError::InvalidDigit);
    }
    let mut acc: u64 = 0;
    let mut i: usize = start;
    while i < n
        invariant
            start <= i <= n,
            start <= 1,
            n == arg@.len(),
            n > start,
            body == numeral_body(arg@),
            body == arg@.skip(start as int),
            forall|j: int| 0 <= j < i - start ==> is_dec_digit(#[trigger] body[j]),
            acc == spec_dec_val(body.take(i - start)),
        decreases n - i,
    {
        let c = arg.get_char(i);
        let code: u32 = c as u32;
        proof {
            assert(body[i - start] == arg@[i as int]);
        }
        if code < 48 || code > 57 {
            assert(!is_dec_string(body));
            return Err(ParseDurationError::InvalidDigit);
        }
        let d: u64 = (code - 48) as u64;
        assert(d == spec_digit_val(body[i - start]) && d <= 9);
        proof {
            lemma_dec_val_take_succ(body, i - start);
            lemma_dec_val_nonneg(body.take(i - start));
        }
        if acc > (u64::MAX - d) / 10 {
            proof {
                assert(acc * 10 + d > u64::MAX) by (nonlinear_arith)
                    requires
                        acc > (u64::MAX - d) / 10,
                        d <= 9,
                ;
            }
            if digits_from(arg, i + 1) {
                proof {
                    assert forall|j: int| 0 <= j < body.len() implies is_dec_digit(
                        #[trigger] body[j],
                    ) by {
                        if j > i - start {
                            assert(body[j] == arg@[j + start]);
                        }
                    }
                    lemma_dec_val_grows(body, i - start + 1);
                }
                return Err(ParseDurationError::Overflow);
            } else {
                proof {
                    if is_dec_string(body) {
                        assert forall|j: int| i + 1 <= j < arg@.len() implies is_dec_digit(
                            #[trigger] arg@[j],
                        ) by {
                            assert(arg@[j] == body[j - start]);
                        }
                        assert(false);
                    }
                }
                return Err(ParseDurationError::InvalidDigit);
            }
        }
        assert(acc * 10 + d <= u64::MAX) by (nonlinear_arith)
            requires
                acc <= (u64::MAX - d) / 10,
                d <= 9,
        ;
        acc = acc * 10 + d;
        i = i + 1;
    }
    assert(body.take(n - start) =~= body);
    Ok(acc)
}

/// Whether every character of `arg` from position `from` on is a decimal
/// digit.
fn digits_from(arg: &str, from: usize) -> (r: bool)
    requires
        from <= arg@.len(),
    ensures
        r <==> forall|j: int| from <= j < arg@.len() ==> is_dec_digit(#[trigger] arg@[j]),
{
    let n = arg.unicode_len();
    let mut i: usize = from;
    while i < n
        invariant
            from <= i <= n,
            n == arg@.len(),
            forall|j: int| from <= j < i ==> is_dec_digit(#[trigger] arg@[j]),
        decreases n - i,
    {
        let c = arg.get_char(i);
        let code: u32 = c as u32;
        if code < 48 || code > 57 {
            return false;
        }
        i = i + 1;
    }
    true
}

} // verus!
