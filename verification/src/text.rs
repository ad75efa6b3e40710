//! Small verified building blocks for producing ASCII text: hexadecimal and
//! decimal digits appended to a `String`.

use vstd::prelude::*;

verus! {

/// The lowercase hexadecimal digit that stands for `n` (`0 <= n < 16`).
pub open spec fn hex_digit_char(n: int) -> char
    recommends
        0 <= n < 16,
{
    if n < 10 {
        (n + 48) as char
    } else {
        (n + 87) as char
    }
}

/// The decimal digits of `n`, most significant first, without leading zeros.
pub open spec fn decimal_chars(n: nat) -> Seq<char>
    decreases n,
{
    if n < 10 {
        seq![hex_digit_char(n as int)]
    } else {
        decimal_chars(n / 10) + seq![hex_digit_char((n % 10) as int)]
    }
}

/// The one-character string holding the lowercase hexadecimal digit for `n`.
fn hex_digit_str(n: u8) -> (digit: &'static str)
    requires
        n < 16,
    ensures
        digit@ == seq![hex_digit_char(n as int)],
{
    match n {
        0 => {
            proof { reveal_strlit("0"); }
            "0"
        },
        1 => {
            proof { reveal_strlit("1"); }
            "1"
        },
        2 => {
            proof { reveal_strlit("2"); }
            "2"
        },
        3 => {
            proof { reveal_strlit("3"); }
            "3"
        },
        4 => {
            proof { reveal_strlit("4"); }
            "4"
        },
        5 => {
            proof { reveal_strlit("5"); }
            "5"
        },
        6 => {
            proof { reveal_strlit("6"); }
            "6"
        },
        7 => {
            proof { reveal_strlit("7"); }
            "7"
        },
        8 => {
            proof { reveal_strlit("8"); }
            "8"
        },
        9 => {
            proof { reveal_strlit("9"); }
            "9"
        },
        10 => {
            proof { reveal_strlit("a"); }
            "a"
        },
        11 => {
            proof { reveal_strlit("b"); }
            "b"
        },
        12 => {
            proof { reveal_strlit("c"); }
            "c"
        },
        13 => {
            proof { reveal_strlit("d"); }
            "d"
        },
        14 => {
            proof { reveal_strlit("e"); }
            "e"
        },
        _ => {
            proof { reveal_strlit("f"); }
            "f"
        },
    }
}

/// Appends the lowercase hexadecimal digit for `n` to `text`.
pub(crate) fn push_hex_digit(text: &mut String, n: u8)
    requires
        n < 16,
    ensures
        final(text)@ == old(text)@.push(hex_digit_char(n as int)),
{
    let digit = hex_digit_str(n);
    text.append(digit);
}

/// Appends the decimal representation of `n` to `text`.
pub(crate) fn push_decimal(text: &mut String, n: usize)
    ensures
        final(text)@ == old(text)@ + decimal_chars(n as nat),
    decreases n,
{
    if n >= 10 {
        push_decimal(text, n / 10);
    }
    let last = (n % 10) as u8;
    push_hex_digit(text, last);
    proof {
        assert(old(text)@ + decimal_chars(n as nat) =~= if n < 10 {
            old(text)@.push(hex_digit_char(n as int))
        } else {
            (old(text)@ + decimal_chars((n / 10) as nat)).push(hex_digit_char((n % 10) as int))
        });
    }
}

} // verus!
