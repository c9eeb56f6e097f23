//! Decimal text for unsigned 32-bit integers: formatting a value into its
//! digit string, and parsing a path segment the way `u32` is parsed from a
//! string (an optional leading `+`, then at least one ASCII digit, and the
//! value must fit).

use vstd::prelude::*;

verus! {

/// The character for a single decimal digit value.
pub open spec fn digit_char(d: nat) -> char
    recommends
        d < 10,
{
    if d == 0 {
        '0'
    } else if d == 1 {
        '1'
    } else if d == 2 {
        '2'
    } else if d == 3 {
        '3'
    } else if d == 4 {
        '4'
    } else if d == 5 {
        '5'
    } else if d == 6 {
        '6'
    } else if d == 7 {
        '7'
    } else if d == 8 {
        '8'
    } else {
        '9'
    }
}

/// The decimal digit string of `n`, most significant digit first,
/// without sign or leading zeros.
pub open spec fn decimal_digits(n: nat) -> Seq<char>
    decreases n,
{
    if n < 10 {
        seq![digit_char(n)]
    } else {
        decimal_digits(n / 10) + seq![digit_char(n % 10)]
    }
}

pub open spec fn is_ascii_digit_char(c: char) -> bool {
    '0' as int <= c as int && c as int <= '9' as int
}

pub open spec fn digit_value(c: char) -> nat
    recommends
        is_ascii_digit_char(c),
{
    (c as int - '0' as int) as nat
}

pub open spec fn all_ascii_digits(s: Seq<char>) -> bool {
    forall|i: int| 0 <= i < s.len() ==> is_ascii_digit_char(#[trigger] s[i])
}

/// The value of a digit string read in base ten.
pub open spec fn digits_value(s: Seq<char>) -> nat
    decreases s.len(),
{
    if s.len() == 0 {
        0
    } else {
        digits_value(s.drop_last()) * 10 + digit_value(s.last())
    }
}

/// The digit part of a numeral: everything after an optional leading `+`.
pub open spec fn unsigned_digits_of(s: Seq<char>) -> Seq<char> {
    if s.len() > 0 && s[0] == '+' {
        s.subrange(1, s.len() as int)
    } else {
        s
    }
}

/// What parsing `s` as a `u32` yields: the digit part must be non-empty,
/// all ASCII digits, and denote a value that fits.
pub open spec fn parse_u32_spec(s: Seq<char>) -> Option<u32> {
    let d = unsigned_digits_of(s);
    if d.len() > 0 && all_ascii_digits(d) && digits_value(d) <= u32::MAX {
        Some(digits_value(d) as u32)
    } else {
        None
    }
}

fn digit_str(d: u32) -> (s: &'static str)
    requires
        d < 10,
    ensures
        s@ == seq![digit_char(d as nat)],
{
    let s: &'static str = if d == 0 {
        "0"
    } else if d == 1 {
        "1"
    } else if d == 2 {
        "2"
    } else if d == 3 {
        "3"
    } else if d == 4 {
        "4"
    } else if d == 5 {
        "5"
    } else if d == 6 {
        "6"
    } else if d == 7 {
        "7"
    } else if d == 8 {
        "8"
    } else {
        "9"
    };
    proof {
        reveal_strlit("0");
        reveal_strlit("1");
        reveal_strlit("2");
        reveal_strlit("3");
        reveal_strlit("4");
        reveal_strlit("5");
        reveal_strlit("6");
        reveal_strlit("7");
        reveal_strlit("8");
        reveal_strlit("9");
        assert(s@ =~= seq![digit_char(d as nat)]);
    }
    s
}

/// Format `n` in decimal, as the standard formatter does.
pub fn u32_to_decimal(n: u32) -> (s: String)
    ensures
        s@ == decimal_digits(n as nat),
    decreases n,
{
    if n < 10 {
        String::from_str(digit_str(n))
    } else {
        let front = u32_to_decimal(n / 10);
        front.concat(digit_str(n % 10))
    }
}

/// The value of a digit string never drops when more digits follow.
proof fn lemma_digits_value_take_le(s: Seq<char>, i: int)
    requires
        0 <= i <= s.len(),
    ensures
        digits_value(s.take(i)) <= digits_value(s),
    decreases s.len() - i,
{
    if i == s.len() {
        assert(s.take(i) =~= s);
    } else {
        assert(s.take(i + 1).drop_last() =~= s.take(i));
        assert(s.take(i + 1).last() == s[i]);
        assert(digits_value(s.take(i + 1)) == digits_value(s.take(i)) * 10 + digit_value(s[i]));
        assert(digits_value(s.take(i)) <= digits_value(s.take(i)) * 10);
        lemma_digits_value_take_le(s, i + 1);
    }
}

/// Parse a decimal numeral as `u32`: an optional leading `+`, then at
/// least one ASCII digit, rejecting anything else and values past
/// `u32::MAX`.
pub fn parse_u32(s: &str) -> (r: Option<u32>)
    ensures
        r == parse_u32_spec(s@),
{
    let n = s.unicode_len();
    let start: usize = if n > 0 && s.get_char(0) == '+' {
        1
    } else {
        0
    };
    let ghost d = unsigned_digits_of(s@);
    proof {
        assert(d =~= s@.subrange(start as int, n as int));
    }
    if n == start {
        return None;
    }
    let mut acc: u32 = 0;
    let mut i: usize = start;
    while i < n
        invariant
            start <= i <= n,
            n == s@.len(),
            start == 1 ==> s@[0] == '+',
            start == 0 ==> !(s@.len() > 0 && s@[0] == '+'),
            d == unsigned_digits_of(s@),
            d =~= s@.subrange(start as int, n as int),
            all_ascii_digits(d.take(i - start)),
            acc == digits_value(d.take(i - start)),
        decreases n - i,
    {
        let c = s.get_char(i);
        let cv = c as u32;
        if cv < 48 || cv > 57 {
            proof {
                assert(d[i - start] == s@[i as int]);
                assert(!is_ascii_digit_char(d[i - start]));
                assert(!all_ascii_digits(d));
            }
            return None;
        }
        let dv: u32 = cv - 48;
        proof {
            assert(d[i - start] == s@[i as int]);
            assert(is_ascii_digit_char(s@[i as int]));
            assert(digit_value(s@[i as int]) == dv as nat);
            assert(d.take(i + 1 - start).drop_last() =~= d.take(i - start));
            assert(d.take(i + 1 - start).last() == d[i - start]);
            assert(digits_value(d.take(i + 1 - start)) == acc * 10 + dv);
        }
        let stepped = match acc.checked_mul(10) {
            Some(m) => m.checked_add(dv),
            None => None,
        };
        match stepped {
            Some(next) => {
                acc = next;
            },
            None => {
                proof {
                    assert(digits_value(d.take(i + 1 - start)) > u32::MAX);
                    lemma_digits_value_take_le(d, i + 1 - start);
                    assert(digits_value(d) > u32::MAX);
                }
                return None;
            },
        }
        i += 1;
    }
    proof {
        assert(d.take(n - start) =~= d);
    }
    Some(acc)
}

/// Every character of a decimal digit string is an ASCII digit, and the
/// string is non-empty.
pub proof fn lemma_decimal_digits_are_digits(n: nat)
    ensures
        decimal_digits(n).len() > 0,
        all_ascii_digits(decimal_digits(n)),
    decreases n,
{
    if n < 10 {
        assert(is_ascii_digit_char(digit_char(n)));
    } else {
        lemma_decimal_digits_are_digits(n / 10);
        assert(is_ascii_digit_char(digit_char(n % 10)));
        assert forall|i: int| 0 <= i < decimal_digits(n).len() implies is_ascii_digit_char(
            #[trigger] decimal_digits(n)[i],
        ) by {
            if i < decimal_digits(n / 10).len() {
                assert(decimal_digits(n)[i] == decimal_digits(n / 10)[i]);
            } else {
                assert(decimal_digits(n)[i] == digit_char(n % 10));
            }
        }
    }
}

/// The decimal digit string of `n` denotes `n`.
pub proof fn lemma_decimal_digits_value(n: nat)
    ensures
        digits_value(decimal_digits(n)) == n,
    decreases n,
{
    if n < 10 {
        let s = seq![digit_char(n)];
        assert(s.drop_last() =~= Seq::<char>::empty());
        assert(digits_value(Seq::<char>::empty()) == 0);
        assert(s.last() == digit_char(n));
        assert(digits_value(s) == digits_value(s.drop_last()) * 10 + digit_value(s.last()));
        assert(digit_value(digit_char(n)) == n);
    } else {
        lemma_decimal_digits_value(n / 10);
        let s = decimal_digits(n);
        assert(s.drop_last() =~= decimal_digits(n / 10));
        assert(s.last() == digit_char(n % 10));
        assert(digit_value(digit_char(n % 10)) == n % 10);
        assert(digits_value(s) == (n / 10) * 10 + n % 10);
        assert((n / 10) * 10 + n % 10 == n) by (nonlinear_arith);
    }
}

/// Formatting and parsing round-trip: the digit string of any `u32`
/// parses back to the same value.
pub proof fn lemma_decimal_round_trip(n: u32)
    ensures
        parse_u32_spec(decimal_digits(n as nat)) == Some(n),
{
    let s = decimal_digits(n as nat);
    lemma_decimal_digits_are_digits(n as nat);
    lemma_decimal_digits_value(n as nat);
    assert(is_ascii_digit_char(s[0]));
    assert(s[0] != '+');
    assert(unsigned_digits_of(s) == s);
}

/// A numeral with a character that is neither an ASCII digit nor a
/// leading `+` never parses.
pub proof fn lemma_parse_rejects_non_digit(s: Seq<char>, i: int)
    requires
        0 <= i < s.len(),
        !is_ascii_digit_char(s[i]),
        !(i == 0 && s[i] == '+'),
    ensures
        parse_u32_spec(s) is None,
{
    let d = unsigned_digits_of(s);
    if s.len() > 0 && s[0] == '+' {
        assert(i >= 1);
        assert(d[i - 1] == s[i]);
        assert(!all_ascii_digits(d));
    } else {
        assert(d[i] == s[i]);
        assert(!all_ascii_digits(d));
    }
}

} // verus!
