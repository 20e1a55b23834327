//! Character-level specifications and verified helpers for the textual
//! forms this library accepts: decimal numerals for the integer settings
//! and the case-insensitive boolean literals.

use vstd::prelude::*;

verus! {

/// The ten ASCII decimal digit characters.
pub open spec fn is_dec_digit(c: char) -> bool {
    48 <= c as u32 <= 57
}

/// Numeric value of one ASCII digit character.
pub open spec fn digit_val(c: char) -> nat {
    (c as u32 - 48) as nat
}

pub open spec fn all_dec_digits(s: Seq<char>) -> bool {
    forall|i: int| 0 <= i < s.len() ==> is_dec_digit(#[trigger] s[i])
}

/// The number denoted by a sequence of decimal digits, most significant
/// first.
pub open spec fn dec_val(s: Seq<char>) -> nat
    decreases s.len(),
{
    if s.len() == 0 {
        0
    } else {
        dec_val(s.drop_last()) * 10 + digit_val(s.last())
    }
}

/// The value of a decimal numeral with an optional leading plus sign,
/// when that value fits in a `u16`; `None` on any other text.
pub open spec fn u16_value(s: Seq<char>) -> Option<u16> {
    let digits = if s.len() > 0 && s[0] == '+' {
        s.subrange(1, s.len() as int)
    } else {
        s
    };
    if digits.len() > 0 && all_dec_digits(digits) && dec_val(digits) <= 65535 {
        Some(dec_val(digits) as u16)
    } else {
        None
    }
}

/// `c` is `lower` or its ASCII upper-case form.
pub open spec fn matches_ci(c: char, lower: char) -> bool {
    c == lower || c as u32 + 32 == lower as u32
}

pub open spec fn is_true_literal(s: Seq<char>) -> bool {
    &&& s.len() == 4
    &&& matches_ci(s[0], 't')
    &&& matches_ci(s[1], 'r')
    &&& matches_ci(s[2], 'u')
    &&& matches_ci(s[3], 'e')
}

pub open spec fn is_false_literal(s: Seq<char>) -> bool {
    &&& s.len() == 5
    &&& matches_ci(s[0], 'f')
    &&& matches_ci(s[1], 'a')
    &&& matches_ci(s[2], 'l')
    &&& matches_ci(s[3], 's')
    &&& matches_ci(s[4], 'e')
}

/// The boolean denoted by the case-insensitive literals `true` and
/// `false`; `None` on any other text.
pub open spec fn bool_value(s: Seq<char>) -> Option<bool> {
    if is_true_literal(s) {
        Some(true)
    } else if is_false_literal(s) {
        Some(false)
    } else {
        None
    }
}

/// The digit character for a value below ten.
pub open spec fn digit_char(d: nat) -> char {
    ((48 + d) as u8) as char
}

/// The decimal numeral for `n`, most significant digit first, without
/// sign or leading zeros.
pub open spec fn dec_repr(n: nat) -> Seq<char>
    decreases n,
{
    if n < 10 {
        seq![digit_char(n)]
    } else {
        dec_repr(n / 10).push(digit_char(n % 10))
    }
}

/// The one-character numeral for a value below ten.
fn digit_str(d: u16) -> (r: &'static str)
    requires
        d < 10,
    ensures
        r@ =~= seq![digit_char(d as nat)],
{
    proof {
        reveal_strlit("0");
        reveal_strlit("1");
        reveal_strlit("2");
        reveal_strlit("3");
        reveal_strlit("4");
        reveal_strlit("5");
        reveal_strlit("6");
        reveal_strlit("7");
        reveal_strlit("8");
        reveal_strlit("9");
    }
    if d == 0 {
        "0"
    } else if d == 1 {
        "1"
    } else if d == 2 {
        "2"
    } else if d == 3 {
        "3"
    } else if d == 4 {
        "4"
    } else if d == 5 {
        "5"
    } else if d == 6 {
        "6"
    } else if d == 7 {
        "7"
    } else if d == 8 {
        "8"
    } else {
        "9"
    }
}

/// Renders a 16-bit integer as its decimal numeral.
pub fn u16_to_dec(n: u16) -> (r: String)
    ensures
        r@ == dec_repr(n as nat),
    decreases n,
{
    if n < 10 {
        let r = digit_str(n).to_owned();
        proof {
            assert(r@ =~= dec_repr(n as nat));
        }
        r
    } else {
        let mut s = u16_to_dec(n / 10);
        s.append(digit_str(n % 10));
        proof {
            assert(s@ =~= dec_repr(n as nat));
        }
        s
    }
}

/// Character-for-character string equality.
pub fn str_eq(a: &str, b: &str) -> (r: bool)
    ensures
        r == (a@ == b@),
{
    let alen = a.unicode_len();
    let blen = b.unicode_len();
    if alen != blen {
        return false;
    }
    let mut i: usize = 0;
    while i < alen
        invariant
            alen == a@.len(),
            blen == b@.len(),
            alen == blen,
            0 <= i <= alen,
            forall|j: int| 0 <= j < i ==> a@[j] == b@[j],
        decreases alen - i,
    {
        if a.get_char(i) != b.get_char(i) {
            return false;
        }
        i += 1;
    }
    proof {
        assert(a@ =~= b@);
    }
    true
}

} // verus!
