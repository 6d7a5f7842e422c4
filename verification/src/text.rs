//! Verified decimal rendering: the building blocks of the audit line format.

use vstd::prelude::*;
use vstd::string::StringExecFns;

verus! {

/// The character for one decimal digit.
pub open spec fn digit_char(d: nat) -> char {
    if d == 0 {
        '0'
    } else if d == 1 {
        '1'
    } else if d == 2 {
        '2'
    } else if d == 3 {
        '3'
    } else if d == 4 {
        '4'
    } else if d == 5 {
        '5'
    } else if d == 6 {
        '6'
    } else if d == 7 {
        '7'
    } else if d == 8 {
        '8'
    } else {
        '9'
    }
}

/// The decimal digits of `n`, most significant first, with no leading zero
/// except for `n == 0` itself.
pub open spec fn dec_digits(n: nat) -> Seq<char>
    decreases n,
{
    if n < 10 {
        seq![digit_char(n)]
    } else {
        dec_digits(n / 10).push(digit_char(n % 10))
    }
}

/// `k` zero characters.
pub open spec fn zero_run(k: nat) -> Seq<char> {
    Seq::new(k, |i: int| '0')
}

/// The decimal digits of `n`, left-padded with zeros to at least `width`
/// characters.
pub open spec fn zero_padded(n: nat, width: nat) -> Seq<char> {
    if dec_digits(n).len() >= width {
        dec_digits(n)
    } else {
        zero_run((width - dec_digits(n).len()) as nat) + dec_digits(n)
    }
}

/// A calendar year, zero-padded to four digits, with a leading minus sign on
/// years before year zero.
pub open spec fn year_chars(y: int) -> Seq<char> {
    if y < 0 {
        seq!['-'] + zero_padded((-y) as nat, 4)
    } else {
        zero_padded(y as nat, 4)
    }
}

/// How many digits a number has.
pub proof fn lemma_dec_digits_len(n: nat)
    ensures
        dec_digits(n).len() >= 1,
        n < 10 ==> dec_digits(n).len() == 1,
        10 <= n < 100 ==> dec_digits(n).len() == 2,
        100 <= n < 1000 ==> dec_digits(n).len() == 3,
        1000 <= n ==> dec_digits(n).len() >= 4,
    decreases n,
{
    if n >= 10 {
        lemma_dec_digits_len(n / 10);
    }
}

/// The one-character string for a decimal digit.
fn digit_str(d: u64) -> (r: &'static str)
    requires
        d < 10,
    ensures
        r@ == seq![digit_char(d as nat)],
{
    proof {
        reveal_strlit("0");
        reveal_strlit("1");
        reveal_strlit("2");
        reveal_strlit("3");
        reveal_strlit("4");
        reveal_strlit("5");
        reveal_strlit("6");
        reveal_strlit("7");
        reveal_strlit("8");
        reveal_strlit("9");
    }
    match d {
        0 => "0",
        1 => "1",
        2 => "2",
        3 => "3",
        4 => "4",
        5 => "5",
        6 => "6",
        7 => "7",
        8 => "8",
        _ => "9",
    }
}

/// Appends the decimal digits of `n`.
pub fn push_decimal(s: &mut String, n: u64)
    ensures
        final(s)@ == old(s)@ + dec_digits(n as nat),
    decreases n,
{
    if n >= 10 {
        push_decimal(s, n / 10);
    }
    let d = digit_str(n % 10);
    s.append(d);
    proof {
        assert(s@ =~= old(s)@ + dec_digits(n as nat));
    }
}

/// Appends the decimal digits of `n`, zero-padded to at least two.
pub fn push_decimal_pad2(s: &mut String, n: u64)
    ensures
        final(s)@ == old(s)@ + zero_padded(n as nat, 2),
{
    proof {
        lemma_dec_digits_len(n as nat);
        reveal_strlit("0");
    }
    if n < 10 {
        s.append("0");
        proof {
            assert("0"@ =~= zero_run(1));
        }
    }
    push_decimal(s, n);
    proof {
        assert(s@ =~= old(s)@ + zero_padded(n as nat, 2));
    }
}

/// Appends the decimal digits of `n`, zero-padded to at least four.
pub fn push_decimal_pad4(s: &mut String, n: u64)
    ensures
        final(s)@ == old(s)@ + zero_padded(n as nat, 4),
{
    proof {
        lemma_dec_digits_len(n as nat);
        reveal_strlit("0");
        reveal_strlit("00");
        reveal_strlit("000");
    }
    if n < 10 {
        s.append("000");
        proof {
            assert("000"@ =~= zero_run(3));
        }
    } else if n < 100 {
        s.append("00");
        proof {
            assert("00"@ =~= zero_run(2));
        }
    } else if n < 1000 {
        s.append("0");
        proof {
            assert("0"@ =~= zero_run(1));
        }
    }
    push_decimal(s, n);
    proof {
        assert(s@ =~= old(s)@ + zero_padded(n as nat, 4));
    }
}

/// Appends a calendar year as `year_chars` lays it out.
pub fn push_year(s: &mut String, y: i64)
    requires
        -2147483648 <= y <= 2147483647,
    ensures
        final(s)@ == old(s)@ + year_chars(y as int),
{
    if y < 0 {
        s.append("-");
        let m = (-y) as u64;
        push_decimal_pad4(s, m);
        proof {
            reveal_strlit("-");
            assert("-"@ =~= seq!['-']);
            assert(m as nat == (-(y as int)) as nat);
            assert(s@ =~= old(s)@ + year_chars(y as int));
        }
    } else {
        push_decimal_pad4(s, y as u64);
        proof {
            assert(s@ =~= old(s)@ + year_chars(y as int));
        }
    }
}

} // verus!
