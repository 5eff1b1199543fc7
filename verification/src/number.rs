//! Decimal notation of integers, written and read.

use vstd::prelude::*;

verus! {

/// The character for the digit `d`.
pub open spec fn digit_char(d: nat) -> char {
    (('0' as nat + d) as u32) as char
}

/// The decimal digits of `n`, without leading zeros.
pub open spec fn natural_text(n: nat) -> Seq<char>
    decreases n,
{
    if n < 10 {
        seq![digit_char(n)]
    } else {
        natural_text(n / 10).push(digit_char(n % 10))
    }
}

/// `i` in decimal notation.
pub open spec fn integer_text(i: int) -> Seq<char> {
    if i < 0 {
        "-"@ + natural_text((-i) as nat)
    } else {
        natural_text(i as nat)
    }
}

/// `c` is a decimal digit.
pub open spec fn is_digit(c: char) -> bool {
    '0' <= c <= '9'
}

/// Every character of `s` is a decimal digit.
pub open spec fn all_digits(s: Seq<char>) -> bool {
    forall|i: int| 0 <= i < s.len() ==> is_digit(#[trigger] s[i])
}

/// The number that the digits `s` stand for.
pub open spec fn digits_value(s: Seq<char>) -> nat
    decreases s.len(),
{
    if s.len() == 0 {
        0
    } else {
        digits_value(s.drop_last()) * 10 + (s.last() as nat - '0' as nat) as nat
    }
}

/// The number that `s` stands for: digits, at least one, and nothing else.
pub open spec fn natural_of(s: Seq<char>) -> Option<nat> {
    if s.len() > 0 && all_digits(s) {
        Some(digits_value(s))
    } else {
        None
    }
}

/// The integer that `s` stands for: a number, with or without a sign before it.
pub open spec fn integer_of(s: Seq<char>) -> Option<int> {
    if s.len() > 0 && s[0] == '-' {
        match natural_of(s.skip(1)) {
            Some(n) => Some(-(n as int)),
            None => None,
        }
    } else {
        match unsigned_of(s) {
            Some(n) => Some(n as int),
            None => None,
        }
    }
}

/// The number that `s` stands for, with or without a plus sign before it.
pub open spec fn unsigned_of(s: Seq<char>) -> Option<nat> {
    if s.len() > 0 && s[0] == '+' {
        natural_of(s.skip(1))
    } else {
        natural_of(s)
    }
}

/// The text of one digit.
fn digit_text(d: u64) -> (s: &'static str)
    requires
        d < 10,
    ensures
        s@ == seq![digit_char(d as nat)],
{
    proof {
        reveal_strlit("0");
        reveal_strlit("1");
        reveal_strlit("2");
        reveal_strlit("3");
        reveal_strlit("4");
        reveal_strlit("5");
        reveal_strlit("6");
        reveal_strlit("7");
        reveal_strlit("8");
        reveal_strlit("9");
    }
    let s = match d {
        0 => "0",
        1 => "1",
        2 => "2",
        3 => "3",
        4 => "4",
        5 => "5",
        6 => "6",
        7 => "7",
        8 => "8",
        _ => "9",
    };
    assert(s@ =~= seq![digit_char(d as nat)]);
    s
}

/// `n` in decimal notation.
pub fn natural(n: u64) -> (s: String)
    ensures
        s@ == natural_text(n as nat),
    decreases n,
{
    if n < 10 {
        digit_text(n).to_owned()
    } else {
        let mut s = natural(n / 10);
        let ghost front = s@;
        s.append(digit_text(n % 10));
        assert(s@ =~= front.push(digit_char((n % 10) as nat)));
        s
    }
}

/// `i` in decimal notation.
pub fn integer(i: i64) -> (s: String)
    ensures
        s@ == integer_text(i as int),
{
    if i < 0 {
        let size: u64 = (-(i as i128)) as u64;
        let mut s = "-".to_owned();
        s.append(natural(size).as_str());
        s
    } else {
        natural(i as u64)
    }
}

/// More digits stand for no smaller number.
proof fn lemma_prefix_value(s: Seq<char>, k: int)
    requires
        0 <= k <= s.len(),
    ensures
        digits_value(s.take(k)) <= digits_value(s),
    decreases s.len(),
{
    if k == s.len() {
        assert(s.take(k) =~= s);
    } else {
        lemma_prefix_value(s.drop_last(), k);
        assert(s.drop_last().take(k) =~= s.take(k));
    }
}

/// The number that the digits `s` stand for, unless it is larger than `u64::MAX`.
fn parse_digits(s: &[char]) -> (n: Option<u64>)
    ensures
        match n {
            Some(n) => natural_of(s@) == Some(n as nat),
            None => natural_of(s@) is None || natural_of(s@)->0 > u64::MAX,
        },
{
    if s.len() == 0 {
        return None;
    }
    let mut n: u64 = 0;
    let mut i: usize = 0;
    while i < s.len()
        invariant
            i <= s.len(),
            n == digits_value(s@.take(i as int)),
            forall|j: int| 0 <= j < i ==> is_digit(#[trigger] s@[j]),
        decreases s.len() - i,
    {
        let c = s[i];
        if !('0' <= c && c <= '9') {
            return None;
        }
        let d: u64 = (c as u64) - 48;
        let ghost head = s@.take(i + 1);
        proof {
            assert(head.drop_last() =~= s@.take(i as int));
            assert(head.last() == c);
            assert(digits_value(head) == n * 10 + d);
            lemma_prefix_value(s@, i + 1);
        }
        match n.checked_mul(10) {
            Some(tens) => match tens.checked_add(d) {
                Some(sum) => {
                    n = sum;
                },
                None => {
                    return None;
                },
            },
            None => {
                return None;
            },
        }
        i += 1;
    }
    assert(s@.take(i as int) =~= s@);
    Some(n)
}

/// The number up to `u32::MAX` that `s` stands for.
pub fn parse_u32(s: &[char]) -> (n: Option<u32>)
    ensures
        n == match unsigned_of(s@) {
            Some(n) if n <= u32::MAX => Some(n as u32),
            _ => None,
        },
{
    let from: usize = if s.len() > 0 && s[0] == '+' {
        1
    } else {
        0
    };
    assert(s@.skip(0) =~= s@);
    let digits = vstd::slice::slice_subrange(s, from, s.len());
    assert(digits@ =~= s@.skip(from as int));
    match parse_digits(digits) {
        Some(n) if n <= u32::MAX as u64 => Some(n as u32),
        _ => None,
    }
}

/// The integer from `i64::MIN` to `i64::MAX` that `s` stands for.
pub fn parse_i64(s: &[char]) -> (i: Option<i64>)
    ensures
        i == match integer_of(s@) {
            Some(i) if i64::MIN <= i <= i64::MAX => Some(i as i64),
            _ => None,
        },
{
    let minus = s.len() > 0 && s[0] == '-';
    let from: usize = if s.len() > 0 && (s[0] == '+' || s[0] == '-') {
        1
    } else {
        0
    };
    assert(s@.skip(0) =~= s@);
    let digits = vstd::slice::slice_subrange(s, from, s.len());
    assert(digits@ =~= s@.skip(from as int));
    match parse_digits(digits) {
        Some(n) => {
            if minus {
                if n <= 9223372036854775808u64 {
                    Some((-(n as i128)) as i64)
                } else {
                    None
                }
            } else if n <= 9223372036854775807u64 {
                Some(n as i64)
            } else {
                None
            }
        },
        None => None,
    }
}

/// The digits of a number are digits and stand for it.
pub proof fn lemma_natural_text(n: nat)
    ensures
        natural_text(n).len() > 0,
        all_digits(natural_text(n)),
        digits_value(natural_text(n)) == n,
    decreases n,
{
    reveal_with_fuel(digits_value, 2);
    if n >= 10 {
        let front = natural_text(n / 10);
        lemma_natural_text(n / 10);
        assert(natural_text(n).drop_last() =~= front);
    } else {
        assert(natural_text(n).drop_last() =~= Seq::<char>::empty());
    }
}

/// What was written as an integer is read as the same integer.
pub proof fn law_integer_round_trip(i: int)
    ensures
        integer_of(integer_text(i)) == Some(i),
{
    reveal_strlit("-");
    if i < 0 {
        lemma_natural_text((-i) as nat);
        assert(integer_text(i).skip(1) =~= natural_text((-i) as nat));
    } else {
        lemma_natural_text(i as nat);
        assert(is_digit(natural_text(i as nat)[0]));
    }
}


/// The decimal notation of a number: digits that stand for it, without a leading
/// zero.
pub proof fn law_decimal_notation(n: nat)
    ensures
        natural_text(n).len() > 0,
        all_digits(natural_text(n)),
        digits_value(natural_text(n)) == n,
        n > 0 ==> natural_text(n)[0] != '0',
        n == 0 ==> natural_text(n) == seq!['0'],
    decreases n,
{
    lemma_natural_text(n);
    if n >= 10 {
        law_decimal_notation(n / 10);
        assert(natural_text(n)[0] == natural_text(n / 10)[0]);
    }
}

/// The value of digits: each further one multiplies by ten and adds its own.
pub proof fn law_value_of_digits(s: Seq<char>, c: char)
    requires
        is_digit(c),
    ensures
        digits_value(s.push(c)) == 10 * digits_value(s) + (c as int - '0' as int),
        digits_value(Seq::empty()) == 0,
{
    assert(s.push(c).drop_last() =~= s);
}

/// A number is read with or without a sign; anything else is none.
pub proof fn law_signs_are_read(digits: Seq<char>)
    ensures
        digits.len() > 0 && all_digits(digits) ==> {
            &&& unsigned_of(digits) == Some(digits_value(digits))
            &&& integer_of(digits) == Some(digits_value(digits) as int)
            &&& unsigned_of(seq!['+'] + digits) == Some(digits_value(digits))
            &&& integer_of(seq!['+'] + digits) == Some(digits_value(digits) as int)
            &&& integer_of(seq!['-'] + digits) == Some(-(digits_value(digits) as int))
            &&& unsigned_of(seq!['-'] + digits) is None
        },
        digits.len() == 0 ==> unsigned_of(digits) is None && integer_of(digits) is None,
        forall|i: int|
            1 <= i < digits.len() && !is_digit(#[trigger] digits[i]) ==> unsigned_of(digits) is None
                && integer_of(digits) is None,
{
    let plus = seq!['+'] + digits;
    let minus = seq!['-'] + digits;
    assert(plus.skip(1) =~= digits);
    assert(minus.skip(1) =~= digits);
    assert(!is_digit(minus[0]));
    if digits.len() > 0 && all_digits(digits) {
        assert(is_digit(digits[0]));
    }
    assert forall|i: int| 1 <= i < digits.len() && !is_digit(#[trigger] digits[i]) implies unsigned_of(
        digits,
    ) is None && integer_of(digits) is None by {
        assert(digits.skip(1)[i - 1] == digits[i]);
    }
}


/// The digits are ten, from that of zero on, each of which stands for its number.
pub proof fn law_digits_are_ten(c: char)
    ensures
        is_digit(c) <==> exists|d: nat| d < 10 && c == #[trigger] digit_char(d),
        is_digit(c) ==> digits_value(seq![c]) < 10 && digit_char(digits_value(seq![c])) == c,
{
    assert(seq![c].drop_last() =~= Seq::<char>::empty());
    reveal_with_fuel(digits_value, 2);
    if is_digit(c) {
        let d = (c as nat - '0' as nat) as nat;
        assert(d < 10 && c == digit_char(d));
    }
}

}
