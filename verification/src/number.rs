//! Integers in decimal notation.

use vstd::prelude::*;
use vstd::string::*;

verus! {

/// The decimal digit for `d`, which is below ten.
pub open spec fn digit(d: nat) -> char {
    ('0' as int + d) as char
}

/// Whether `c` is one of the digits from `0` to `9`.
pub open spec fn is_digit(c: char) -> bool {
    '0' <= c <= '9'
}

/// Whether `s` holds digits alone.
pub open spec fn all_digits(s: Seq<char>) -> bool {
    forall|i: int| 0 <= i < s.len() ==> is_digit(#[trigger] s[i])
}

/// The number that a sequence of digits denotes.
pub open spec fn digits_value(s: Seq<char>) -> nat
    decreases s.len(),
{
    if s.len() == 0 {
        0
    } else {
        10 * digits_value(s.drop_last()) + (s.last() as int - '0' as int) as nat
    }
}

/// `n` in decimal notation, without leading zeros.
pub open spec fn decimal(n: nat) -> Seq<char>
    decreases n,
{
    if n < 10 {
        seq![digit(n)]
    } else {
        decimal(n / 10).push(digit(n % 10))
    }
}

/// `n`, which is below a hundred, in two decimal digits.
pub open spec fn two_digits(n: nat) -> Seq<char> {
    seq![digit(n / 10), digit(n % 10)]
}

/// `n` in decimal notation, with a minus sign where it is negative.
pub open spec fn signed_decimal(n: int) -> Seq<char> {
    if n < 0 {
        seq!['-'] + decimal((-n) as nat)
    } else {
        decimal(n as nat)
    }
}

/// The integer that `s` denotes: an optional sign followed by digits and nothing else.
pub open spec fn parsed_integer(s: Seq<char>) -> Option<int> {
    let signed = s.len() > 0 && (s[0] == '-' || s[0] == '+');
    let digits = if signed {
        s.drop_first()
    } else {
        s
    };
    if digits.len() > 0 && all_digits(digits) {
        Some(
            if signed && s[0] == '-' {
                -digits_value(digits)
            } else {
                digits_value(digits) as int
            },
        )
    } else {
        None
    }
}

/// The integer that `s` denotes, where it denotes one that `i64` can hold.
pub open spec fn parsed_i64(s: Seq<char>) -> Option<i64> {
    match parsed_integer(s) {
        Some(n) if i64::MIN <= n <= i64::MAX => Some(n as i64),
        _ => None,
    }
}

/// Trusted: `str::parse` into an `i64` accepts an optional sign followed by decimal digits and
/// nothing else, and fails on all other strings and where the integer does not fit.
#[verifier::external_body]
pub(crate) fn parse_i64(s: &str) -> (r: Option<i64>)
    ensures
        r == parsed_i64(s@),
{
    s.parse::<i64>().ok()
}

/// The digit for `d` as a string.
fn digit_str(d: u64) -> (r: &'static str)
    requires
        d < 10,
    ensures
        r@ == seq![digit(d as nat)],
{
    proof {
        reveal_strlit("0");
        reveal_strlit("1");
        reveal_strlit("2");
        reveal_strlit("3");
        reveal_strlit("4");
        reveal_strlit("5");
        reveal_strlit("6");
        reveal_strlit("7");
        reveal_strlit("8");
        reveal_strlit("9");
    }
    match d {
        0 => "0",
        1 => "1",
        2 => "2",
        3 => "3",
        4 => "4",
        5 => "5",
        6 => "6",
        7 => "7",
        8 => "8",
        _ => "9",
    }
}

/// `n` in decimal notation.
pub fn format_u64(n: u64) -> (r: String)
    ensures
        r@ == decimal(n as nat),
    decreases n,
{
    if n < 10 {
        digit_str(n).to_string()
    } else {
        let r = format_u64(n / 10).concat(digit_str(n % 10));
        assert(r@ =~= decimal(n as nat));
        r
    }
}

/// `n` in decimal notation, with a minus sign where it is negative.
pub fn format_i32(n: i32) -> (r: String)
    ensures
        r@ == signed_decimal(n as int),
{
    if n < 0 {
        proof {
            reveal_strlit("-");
        }
        let r = "-".to_string().concat(format_u64((-(n as i64)) as u64).as_str());
        assert(r@ =~= signed_decimal(n as int));
        r
    } else {
        format_u64(n as u64)
    }
}

/// Decimal notation holds digits alone, and reading it gives the number back.
pub proof fn decimal_reads_back(n: nat)
    ensures
        decimal(n).len() > 0,
        all_digits(decimal(n)),
        digits_value(decimal(n)) == n,
    decreases n,
{
    if n < 10 {
        reveal_with_fuel(digits_value, 2);
    } else {
        decimal_reads_back(n / 10);
        assert(decimal(n).drop_last() =~= decimal(n / 10));
    }
}

/// Two integers with the same signed decimal notation are the same.
pub proof fn signed_decimal_is_injective(a: int, b: int)
    ensures
        signed_decimal(a) == signed_decimal(b) ==> a == b,
{
    decimal_reads_back((if a < 0 { -a } else { a }) as nat);
    decimal_reads_back((if b < 0 { -b } else { b }) as nat);
    if signed_decimal(a) == signed_decimal(b) {
        if a < 0 {
            assert(signed_decimal(a)[0] == '-');
            assert(b < 0);
            assert(signed_decimal(a).drop_first() =~= decimal((-a) as nat));
            assert(signed_decimal(b).drop_first() =~= decimal((-b) as nat));
        } else if b < 0 {
            assert(signed_decimal(b)[0] == '-');
            assert(is_digit(signed_decimal(a)[0]));
        }
    }
}

/// Two digits read back as the number that they were written for.
pub proof fn two_digits_read_back(n: nat)
    requires
        n < 100,
    ensures
        two_digits(n).len() == 2,
        all_digits(two_digits(n)),
        digits_value(two_digits(n)) == n,
{
    reveal_with_fuel(digits_value, 3);
    assert(two_digits(n).drop_last() =~= seq![digit(n / 10)]);
    assert(seq![digit(n / 10)].drop_last() =~= Seq::<char>::empty());
}

/// Two numbers in two digits each read back as one number in four.
pub proof fn pairs_read_back(a: nat, b: nat)
    requires
        a < 100,
        b < 100,
    ensures
        digits_value(two_digits(a) + two_digits(b)) == 100 * a + b,
{
    reveal_with_fuel(digits_value, 3);
    let s = two_digits(a) + two_digits(b);
    two_digits_read_back(a);
    assert(s.drop_last().drop_last() =~= two_digits(a));
    assert(s.drop_last().last() == digit(b / 10));
    assert(s.last() == digit(b % 10));
}

/// Decimal notation has no zeros in front, but for zero itself.
pub proof fn decimal_has_no_leading_zero(n: nat)
    ensures
        decimal(n).len() > 1 ==> decimal(n).first() != '0',
        decimal(n).first() == '0' ==> n == 0,
    decreases n,
{
    if n >= 10 {
        decimal_has_no_leading_zero(n / 10);
        decimal_reads_back(n / 10);
        assert(decimal(n).first() == decimal(n / 10).first());
        if decimal(n / 10).len() == 1 {
            reveal_with_fuel(decimal, 2);
            reveal_with_fuel(digits_value, 2);
        }
    }
}

/// Signed decimal notation reads back as the number, and begins with a sign exactly where that is
/// negative.
pub proof fn signed_decimal_reads_back(n: int)
    ensures
        parsed_integer(signed_decimal(n)) == Some(n),
        signed_decimal(n).first() == '-' <==> n < 0,
        signed_decimal(n).first() != '+',
        n != 0 ==> signed_decimal(n).first() != '0' && !(n < 0 && signed_decimal(n)[1] == '0'),
{
    let size = (if n < 0 {
        -n
    } else {
        n
    }) as nat;
    decimal_reads_back(size);
    decimal_has_no_leading_zero(size);
    assert(is_digit(decimal(size)[0]));
    if n < 0 {
        assert(signed_decimal(n).drop_first() =~= decimal(size));
    }
}

} // verus!
