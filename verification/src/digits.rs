//! Decimal rendering and reading of the unsigned numbers the protocol
//! carries.

use vstd::prelude::*;
use vstd::string::StringExecFns;

verus! {

/// The character for one decimal digit.
pub open spec fn dec_digit_char(d: nat) -> char
    recommends
        d < 10,
{
    if d == 0 {
        '0'
    } else if d == 1 {
        '1'
    } else if d == 2 {
        '2'
    } else if d == 3 {
        '3'
    } else if d == 4 {
        '4'
    } else if d == 5 {
        '5'
    } else if d == 6 {
        '6'
    } else if d == 7 {
        '7'
    } else if d == 8 {
        '8'
    } else {
        '9'
    }
}

/// The usual decimal spelling of `n`, without sign or leading zeros.
pub open spec fn dec_chars(n: nat) -> Seq<char>
    decreases n,
{
    if n < 10 {
        seq![dec_digit_char(n)]
    } else {
        dec_chars(n / 10).push(dec_digit_char(n % 10))
    }
}

/// Whether `c` is a decimal digit.
pub open spec fn is_dec_digit(c: char) -> bool {
    '0' as int <= c as int && c as int <= '9' as int
}

/// The value of one decimal digit character.
pub open spec fn dec_digit_val(c: char) -> nat
    recommends
        is_dec_digit(c),
{
    (c as int - '0' as int) as nat
}

/// Whether every character of `s` is a decimal digit.
pub open spec fn all_dec_digits(s: Seq<char>) -> bool {
    forall|i: int| 0 <= i < s.len() ==> is_dec_digit(#[trigger] s[i])
}

/// The number spelled by the digit characters of `s`.
pub open spec fn dec_val(s: Seq<char>) -> nat
    decreases s.len(),
{
    if s.len() == 0 {
        0
    } else {
        dec_val(s.drop_last()) * 10 + dec_digit_val(s.last())
    }
}

/// The digit characters of a number as `str::parse::<u32>` sees them:
/// everything after an optional leading plus sign.
pub open spec fn digits_part(s: Seq<char>) -> Seq<char> {
    if s.len() > 0 && s[0] == '+' {
        s.skip(1)
    } else {
        s
    }
}

/// How `str::parse::<u32>` reads a string: an optional leading plus
/// sign, then at least one digit, rejecting values over `u32::MAX`.
pub open spec fn parse_u32_spec(s: Seq<char>) -> Option<u32> {
    let digits = digits_part(s);
    if digits.len() == 0 || !all_dec_digits(digits) || dec_val(digits) > u32::MAX {
        None
    } else {
        Some(dec_val(digits) as u32)
    }
}

/// One digit as a string slice.
fn digit_str(d: u32) -> (r: &'static str)
    requires
        d < 10,
    ensures
        r@ == seq![dec_digit_char(d as nat)],
{
    if d == 0 {
        let r = "0";
        proof {
            reveal_strlit("0");
            assert(r@ =~= seq![dec_digit_char(0)]);
        }
        r
    } else if d == 1 {
        let r = "1";
        proof {
            reveal_strlit("1");
            assert(r@ =~= seq![dec_digit_char(1)]);
        }
        r
    } else if d == 2 {
        let r = "2";
        proof {
            reveal_strlit("2");
            assert(r@ =~= seq![dec_digit_char(2)]);
        }
        r
    } else if d == 3 {
        let r = "3";
        proof {
            reveal_strlit("3");
            assert(r@ =~= seq![dec_digit_char(3)]);
        }
        r
    } else if d == 4 {
        let r = "4";
        proof {
            reveal_strlit("4");
            assert(r@ =~= seq![dec_digit_char(4)]);
        }
        r
    } else if d == 5 {
        let r = "5";
        proof {
            reveal_strlit("5");
            assert(r@ =~= seq![dec_digit_char(5)]);
        }
        r
    } else if d == 6 {
        let r = "6";
        proof {
            reveal_strlit("6");
            assert(r@ =~= seq![dec_digit_char(6)]);
        }
        r
    } else if d == 7 {
        let r = "7";
        proof {
            reveal_strlit("7");
            assert(r@ =~= seq![dec_digit_char(7)]);
        }
        r
    } else if d == 8 {
        let r = "8";
        proof {
            reveal_strlit("8");
            assert(r@ =~= seq![dec_digit_char(8)]);
        }
        r
    } else {
        let r = "9";
        proof {
            reveal_strlit("9");
            assert(r@ =~= seq![dec_digit_char(9)]);
        }
        r
    }
}

/// Renders `n` in decimal.
pub fn u32_to_string(n: u32) -> (s: String)
    ensures
        s@ == dec_chars(n as nat),
    decreases n,
{
    if n < 10 {
        String::from_str(digit_str(n))
    } else {
        let mut s = u32_to_string(n / 10);
        s.append(digit_str(n % 10));
        proof {
            assert(s@ =~= dec_chars(n as nat));
        }
        s
    }
}

/// The value of a digit prefix never exceeds the value of the whole.
proof fn lemma_dec_val_take_le(s: Seq<char>, i: int)
    requires
        0 <= i <= s.len(),
    ensures
        dec_val(s.take(i)) <= dec_val(s),
    decreases s.len(),
{
    if i < s.len() {
        assert(s.drop_last().take(i) =~= s.take(i));
        lemma_dec_val_take_le(s.drop_last(), i);
        assert(dec_val(s) == dec_val(s.drop_last()) * 10 + dec_digit_val(s.last()));
        assert(dec_val(s.drop_last()) <= dec_val(s.drop_last()) * 10) by (nonlinear_arith);
    } else {
        assert(s.take(i) =~= s);
    }
}

/// Reads the characters of `s` between `from` and `to` the way
/// `str::parse::<u32>` would.
pub fn parse_u32_range(s: &str, from: usize, to: usize) -> (r: Option<u32>)
    requires
        from <= to <= s@.len(),
    ensures
        r == parse_u32_spec(s@.subrange(from as int, to as int)),
{
    let ghost whole = s@.subrange(from as int, to as int);
    let mut start = from;
    if from < to && s.get_char(from) == '+' {
        start = from + 1;
    }
    let ghost digits = s@.subrange(start as int, to as int);
    proof {
        if from < to && whole[0] == '+' {
            assert(digits =~= whole.skip(1));
        } else {
            assert(digits =~= whole);
        }
        assert(digits == digits_part(whole));
    }
    if start == to {
        return None;
    }
    let mut acc: u32 = 0;
    let mut i = start;
    while i < to
        invariant
            from <= start <= i <= to <= s@.len(),
            whole == s@.subrange(from as int, to as int),
            digits == s@.subrange(start as int, to as int),
            digits == digits_part(whole),
            digits.len() > 0,
            all_dec_digits(digits.take(i - start)),
            acc as nat == dec_val(digits.take(i - start)),
        decreases to - i,
    {
        let c = s.get_char(i);
        let cu = c as u32;
        if cu < 48 || cu > 57 {
            proof {
                assert(digits[i - start] == c);
                assert(!is_dec_digit(c));
                assert(!all_dec_digits(digits));
            }
            return None;
        }
        let d: u32 = cu - 48;
        let wide: u64 = (acc as u64) * 10 + (d as u64);
        proof {
            let k = i - start;
            assert(digits.take(k + 1).drop_last() =~= digits.take(k));
            assert(digits.take(k + 1).last() == digits[k] == c);
            assert(dec_digit_val(c) == d as nat);
            assert(dec_val(digits.take(k + 1)) == dec_val(digits.take(k)) * 10 + dec_digit_val(
                digits.take(k + 1).last(),
            ));
            assert(wide as nat == acc as nat * 10 + d as nat);
        }
        if wide > u32::MAX as u64 {
            proof {
                lemma_dec_val_take_le(digits, i - start + 1);
                assert(digits.take(digits.len() as int) =~= digits);
                assert(dec_val(digits) > u32::MAX);
            }
            return None;
        }
        acc = wide as u32;
        i += 1;
    }
    proof {
        assert(digits.take(digits.len() as int) =~= digits);
    }
    Some(acc)
}

/// Rendering and reading decimal digits are inverse to each other.
pub proof fn lemma_dec_chars_val(n: nat)
    ensures
        dec_chars(n).len() >= 1,
        all_dec_digits(dec_chars(n)),
        dec_val(dec_chars(n)) == n,
    decreases n,
{
    if n < 10 {
        let s = dec_chars(n);
        assert(s == seq![dec_digit_char(n)]);
        assert(s.drop_last() =~= Seq::<char>::empty());
        assert(dec_val(s) == dec_val(s.drop_last()) * 10 + dec_digit_val(s.last()));
        assert(s.last() == dec_digit_char(n));
        assert(dec_digit_val(dec_digit_char(n)) == n);
        assert(is_dec_digit(dec_digit_char(n)));
    } else {
        lemma_dec_chars_val(n / 10);
        let prev = dec_chars(n / 10);
        let s = dec_chars(n);
        assert(s == prev.push(dec_digit_char(n % 10)));
        assert(s.drop_last() =~= prev);
        assert(s.last() == dec_digit_char(n % 10));
        assert(dec_digit_val(dec_digit_char(n % 10)) == n % 10);
        assert(dec_val(s) == dec_val(prev) * 10 + (n % 10));
        assert(dec_val(prev) == n / 10);
        assert((n / 10) * 10 + n % 10 == n) by (nonlinear_arith);
        assert forall|i: int| 0 <= i < s.len() implies is_dec_digit(#[trigger] s[i]) by {
            if i < s.len() - 1 {
                assert(s[i] == prev[i]);
            } else {
                assert(s[i] == dec_digit_char(n % 10));
                assert(is_dec_digit(dec_digit_char(n % 10)));
            }
        }
    }
}

} // verus!
