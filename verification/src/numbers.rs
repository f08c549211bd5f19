//! Decimal rendering and parsing of the integers that appear in templates,
//! status lines, and the `Content-Length` header.
use vstd::prelude::*;
use vstd::string::StrSliceExecFns;
use vstd::string::StringExecFns;

verus! {

/// The decimal digit character for a value below ten.
pub open spec fn spec_digit_char(d: int) -> char {
    if d == 0 {
        '0'
    } else if d == 1 {
        '1'
    } else if d == 2 {
        '2'
    } else if d == 3 {
        '3'
    } else if d == 4 {
        '4'
    } else if d == 5 {
        '5'
    } else if d == 6 {
        '6'
    } else if d == 7 {
        '7'
    } else if d == 8 {
        '8'
    } else {
        '9'
    }
}

/// The decimal digit sequence of a natural number, most significant first,
/// with no leading zeros (the number zero is the single digit `0`).
pub open spec fn spec_nat_digits(n: nat) -> Seq<char>
    decreases n,
{
    if n < 10 {
        seq![spec_digit_char(n as int)]
    } else {
        spec_nat_digits(n / 10) + seq![spec_digit_char((n % 10) as int)]
    }
}

/// The decimal rendering of an integer: a minus sign for negative values,
/// then the digits of the magnitude.
pub open spec fn spec_int_string(n: int) -> Seq<char> {
    if n < 0 {
        seq!['-'] + spec_nat_digits((-n) as nat)
    } else {
        spec_nat_digits(n as nat)
    }
}

/// The one-character text of a decimal digit.
fn digit_str(d: u64) -> (r: &'static str)
    requires
        d < 10,
    ensures
        r@ == seq![spec_digit_char(d as int)],
{
    proof {
        reveal_strlit("0");
        reveal_strlit("1");
        reveal_strlit("2");
        reveal_strlit("3");
        reveal_strlit("4");
        reveal_strlit("5");
        reveal_strlit("6");
        reveal_strlit("7");
        reveal_strlit("8");
        reveal_strlit("9");
    }
    let r: &'static str = if d == 0 {
        "0"
    } else if d == 1 {
        "1"
    } else if d == 2 {
        "2"
    } else if d == 3 {
        "3"
    } else if d == 4 {
        "4"
    } else if d == 5 {
        "5"
    } else if d == 6 {
        "6"
    } else if d == 7 {
        "7"
    } else if d == 8 {
        "8"
    } else {
        "9"
    };
    proof {
        assert(r@ =~= seq![spec_digit_char(d as int)]);
    }
    r
}

/// Appends the decimal digits of `n` to `out`, most significant first.
fn push_digits(n: u64, out: &mut String)
    ensures
        final(out)@ == old(out)@ + spec_nat_digits(n as nat),
    decreases n,
{
    if n >= 10 {
        push_digits(n / 10, out);
    }
    out.append(digit_str(n % 10));
    proof {
        if n >= 10 {
            assert(final(out)@ =~= old(out)@ + spec_nat_digits(n as nat));
        } else {
            assert(final(out)@ =~= old(out)@ + spec_nat_digits(n as nat));
        }
    }
}

/// The decimal rendering of an unsigned number.
pub fn u64_to_string(n: u64) -> (r: String)
    ensures
        r@ == spec_nat_digits(n as nat),
{
    let mut out = String::new();
    push_digits(n, &mut out);
    proof {
        assert(out@ =~= spec_nat_digits(n as nat));
    }
    out
}

/// The decimal rendering of a signed number, with a leading minus sign when
/// negative.
pub fn i64_to_string(n: i64) -> (r: String)
    ensures
        r@ == spec_int_string(n as int),
{
    if n >= 0 {
        u64_to_string(n as u64)
    } else {
        proof {
            reveal_strlit("-");
        }
        let magnitude: u64 = (-(n as i128)) as u64;
        let mut out: String = "-".to_owned();
        push_digits(magnitude, &mut out);
        proof {
            assert(out@ =~= spec_int_string(n as int));
        }
        out
    }
}

/// Whether `c` is a decimal digit.
pub open spec fn spec_is_digit(c: char) -> bool {
    '0' <= c <= '9'
}

/// The value of a decimal digit character.
pub open spec fn spec_digit_val(c: char) -> int {
    c as int - '0' as int
}

/// The value of a sequence of decimal digit characters.
pub open spec fn spec_digits_val(s: Seq<char>) -> int
    decreases s.len(),
{
    if s.len() == 0 {
        0
    } else {
        spec_digits_val(s.drop_last()) * 10 + spec_digit_val(s.last())
    }
}

/// The digits of `s` after an optional leading plus sign.
pub open spec fn spec_strip_plus(s: Seq<char>) -> Seq<char> {
    if s.len() > 0 && s[0] == '+' {
        s.subrange(1, s.len() as int)
    } else {
        s
    }
}

/// The unsigned number that `s` denotes: at least one decimal digit after an
/// optional leading plus sign, whose value fits in the type. Anything else
/// denotes nothing.
pub open spec fn spec_parse_u64(s: Seq<char>) -> Option<u64> {
    let digits = spec_strip_plus(s);
    if digits.len() > 0 && (forall|i: int| 0 <= i < digits.len() ==> spec_is_digit(digits[i]))
        && spec_digits_val(digits) <= u64::MAX {
        Some(spec_digits_val(digits) as u64)
    } else {
        None
    }
}

/// The value of a digit sequence never shrinks as digits are appended.
proof fn lemma_digits_val_monotone(s: Seq<char>, k: int)
    requires
        0 <= k <= s.len(),
        forall|i: int| 0 <= i < s.len() ==> spec_is_digit(s[i]),
    ensures
        spec_digits_val(s) >= spec_digits_val(s.subrange(0, k)),
        spec_digits_val(s) >= 0,
    decreases s.len(),
{
    if s.len() == 0 {
        assert(s.subrange(0, k) =~= s);
    } else {
        lemma_digits_val_monotone(s.drop_last(), if k <= s.len() - 1 {
            k
        } else {
            (s.len() - 1) as int
        });
        if k <= s.len() - 1 {
            assert(s.drop_last().subrange(0, k) =~= s.subrange(0, k));
        } else {
            assert(s.subrange(0, k) =~= s);
        }
    }
}

/// Parses an unsigned decimal number: at least one digit after an optional
/// leading plus sign, rejecting anything else and values that overflow.
pub fn parse_u64(s: &str) -> (r: Option<u64>)
    ensures
        r == spec_parse_u64(s@),
{
    let len = s.unicode_len();
    let mut start: usize = 0;
    if len > 0 && s.get_char(0) == '+' {
        start = 1;
    }
    if start >= len {
        assert(spec_strip_plus(s@).len() == 0);
        return None;
    }
    let ghost digits = spec_strip_plus(s@);
    assert(digits =~= s@.subrange(start as int, len as int));
    let mut acc: u64 = 0;
    let mut i: usize = start;
    while i < len
        invariant
            start <= i <= len,
            len == s@.len(),
            start < len,
            start == if s@.len() > 0 && s@[0] == '+' {
                1int
            } else {
                0int
            },
            digits == s@.subrange(start as int, len as int),
            forall|j: int| start <= j < i ==> spec_is_digit(s@[j]),
            acc == spec_digits_val(s@.subrange(start as int, i as int)),
        decreases len - i,
    {
        let c = s.get_char(i);
        if !(c >= '0' && c <= '9') {
            assert(!spec_is_digit(digits[i - start]));
            return None;
        }
        let d: u64 = (c as u32 as u64) - ('0' as u32 as u64);
        assert(d == spec_digit_val(s@[i as int]));
        assert(d <= 9);
        if acc > (u64::MAX - d) / 10 {
            proof {
                let prefix = s@.subrange(start as int, i + 1);
                assert(prefix.drop_last() =~= s@.subrange(start as int, i as int));
                assert(spec_digits_val(prefix) == acc * 10 + d);
                assert(acc * 10 + d > u64::MAX) by (nonlinear_arith)
                    requires
                        acc > (u64::MAX - d) / 10,
                        d <= 9,
                ;
                if forall|j: int| 0 <= j < digits.len() ==> spec_is_digit(digits[j]) {
                    lemma_digits_val_monotone(digits, i + 1 - start);
                    assert(digits.subrange(0, i + 1 - start) =~= prefix);
                    assert(digits == spec_strip_plus(s@));
                    assert(!(spec_digits_val(spec_strip_plus(s@)) <= u64::MAX));
                }
                assert(spec_parse_u64(s@) is None);
            }
            return None;
        }
        proof {
            let prefix = s@.subrange(start as int, i + 1);
            assert(prefix.drop_last() =~= s@.subrange(start as int, i as int));
        }
        acc = acc * 10 + d;
        i = i + 1;
    }
    proof {
        assert(s@.subrange(start as int, i as int) =~= digits);
        lemma_digits_val_monotone(digits, digits.len() as int);
    }
    Some(acc)
}

} // verus!
