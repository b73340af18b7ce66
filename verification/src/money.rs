//! Money rendering: amounts shown as decimal digits with a comma
//! between each group of three, the form the notification mails use.

use vstd::prelude::*;
use vstd::arithmetic::div_mod::lemma_div_denominator;

verus! {

/// The character of one decimal digit.
pub open spec fn spec_digit_char(d: int) -> char {
    ((d + 48) as u8) as char
}

/// The decimal digits of a number, most significant first; zero is the
/// single digit `0`.
pub open spec fn spec_decimal_digits(n: int) -> Seq<char>
    decreases n,
{
    if n < 10 {
        seq![spec_digit_char(n)]
    } else {
        spec_decimal_digits(n / 10).push(spec_digit_char(n % 10))
    }
}

/// Digit text with a comma between each group of three digits, counted
/// from the right.
pub open spec fn spec_grouped(digits: Seq<char>) -> Seq<char>
    decreases digits.len(),
{
    if digits.len() <= 3 {
        digits
    } else {
        spec_grouped(digits.take(digits.len() - 3)) + seq![','] + digits.skip(
            digits.len() - 3,
        )
    }
}

/// An amount as the mails render it.
pub open spec fn spec_money_text(n: u64) -> Seq<char> {
    spec_grouped(spec_decimal_digits(n as int))
}

/// One digit as text.
fn digit_str(d: u64) -> (r: &'static str)
    requires
        d < 10,
    ensures
        r@ == seq![spec_digit_char(d as int)],
{
    let r: &'static str = if d == 0 {
        "0"
    } else if d == 1 {
        "1"
    } else if d == 2 {
        "2"
    } else if d == 3 {
        "3"
    } else if d == 4 {
        "4"
    } else if d == 5 {
        "5"
    } else if d == 6 {
        "6"
    } else if d == 7 {
        "7"
    } else if d == 8 {
        "8"
    } else {
        "9"
    };
    proof {
        reveal_strlit("0");
        reveal_strlit("1");
        reveal_strlit("2");
        reveal_strlit("3");
        reveal_strlit("4");
        reveal_strlit("5");
        reveal_strlit("6");
        reveal_strlit("7");
        reveal_strlit("8");
        reveal_strlit("9");
        assert(r@ =~= seq![spec_digit_char(d as int)]);
    }
    r
}

/// The plain decimal text of a number.
fn decimal_string(n: u64) -> (r: String)
    ensures
        r@ == spec_decimal_digits(n as int),
    decreases n,
{
    if n < 10 {
        String::from_str(digit_str(n))
    } else {
        let mut s = decimal_string(n / 10);
        s.append(digit_str(n % 10));
        proof {
            assert(s@ =~= spec_decimal_digits(n as int));
        }
        s
    }
}

/// At most three digits print a number under a thousand.
proof fn lemma_digits_len_small(n: int)
    requires
        0 <= n < 1000,
    ensures
        spec_decimal_digits(n).len() <= 3,
{
    if n < 10 {
    } else if n < 100 {
        assert(n / 10 < 10);
        assert(spec_decimal_digits(n / 10).len() == 1);
    } else {
        assert(10 <= n / 10 < 100);
        assert(n / 100 < 10);
        assert(spec_decimal_digits(n / 100).len() == 1);
        assert(spec_decimal_digits(n / 10) == spec_decimal_digits(n / 10 / 10).push(
            spec_digit_char(n / 10 % 10),
        ));
        lemma_div_denominator(n, 10, 10);
    }
}

/// A number of a thousand or more splits into its higher digits and a
/// padded last group of three.
proof fn lemma_digits_split(n: int)
    requires
        n >= 1000,
    ensures
        spec_decimal_digits(n) == spec_decimal_digits(n / 1000) + seq![
            spec_digit_char(n / 100 % 10),
            spec_digit_char(n / 10 % 10),
            spec_digit_char(n % 10),
        ],
{
    lemma_div_denominator(n, 10, 10);
    lemma_div_denominator(n, 100, 10);
    assert(n / 10 / 10 == n / 100);
    assert(n / 100 / 10 == n / 1000);
    assert(n / 10 >= 100);
    assert(n / 100 >= 10);
    assert(spec_decimal_digits(n) == spec_decimal_digits(n / 10).push(spec_digit_char(n % 10)));
    assert(spec_decimal_digits(n / 10) == spec_decimal_digits(n / 100).push(
        spec_digit_char(n / 10 % 10),
    ));
    assert(spec_decimal_digits(n / 100) == spec_decimal_digits(n / 1000).push(
        spec_digit_char(n / 100 % 10),
    ));
    assert(spec_decimal_digits(n) =~= spec_decimal_digits(n / 1000) + seq![
        spec_digit_char(n / 100 % 10),
        spec_digit_char(n / 10 % 10),
        spec_digit_char(n % 10),
    ]);
}

/// A number always prints at least one digit.
proof fn lemma_digits_nonempty(n: int)
    ensures
        spec_decimal_digits(n).len() >= 1,
    decreases n,
{
    if n >= 10 {
        lemma_digits_nonempty(n / 10);
    }
}

/// Renders an amount with a comma between each group of three digits,
/// as the notification mails show money.
pub fn format_money(amount: u64) -> (r: String)
    ensures
        r@ == spec_money_text(amount),
    decreases amount,
{
    if amount < 1000 {
        let s = decimal_string(amount);
        proof {
            lemma_digits_len_small(amount as int);
        }
        s
    } else {
        let mut s = format_money(amount / 1000);
        s.append(",");
        s.append(digit_str(amount / 100 % 10));
        s.append(digit_str(amount / 10 % 10));
        s.append(digit_str(amount % 10));
        proof {
            let n = amount as int;
            lemma_digits_split(n);
            lemma_digits_nonempty(n / 1000);
            let digits = spec_decimal_digits(n);
            let high = spec_decimal_digits(n / 1000);
            assert(digits.take(digits.len() - 3) =~= high);
            assert(digits.skip(digits.len() - 3) =~= seq![
                spec_digit_char(n / 100 % 10),
                spec_digit_char(n / 10 % 10),
                spec_digit_char(n % 10),
            ]);
            reveal_strlit(",");
            assert(","@ =~= seq![',']);
            assert(s@ =~= spec_money_text(amount));
        }
        s
    }
}

} // verus!
