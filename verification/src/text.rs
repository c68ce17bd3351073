//! Small text utilities: slice comparison and decimal rendering.

use vstd::prelude::*;
use crate::modulemanagerconfig::is_dec;
use crate::modulemanagerconfig::dec_value;
use vstd::string::StringExecFns;

verus! {

/// Relies on `str::eq`: string slices compare equal exactly when their
/// character sequences are equal.
#[verifier::external_body]
pub fn str_eq(a: &str, b: &str) -> (r: bool)
    ensures
        r == (a@ == b@),
{
    a == b
}

/// Relies on `String::push`: appends exactly one character.
#[verifier::external_body]
pub(crate) fn push_char(s: &mut String, c: char)
    ensures
        final(s)@ == old(s)@.push(c),
{
    s.push(c);
}

/// The character of one decimal digit.
pub open spec fn digit_char(d: int) -> char {
    ((48 + d) as u8) as char
}

/// The decimal digits of a number, most significant first.
pub open spec fn dec_digits(n: int) -> Seq<char>
    decreases n,
{
    if n < 10 {
        seq![digit_char(n)]
    } else {
        dec_digits(n / 10).push(digit_char(n % 10))
    }
}

/// Renders a positive number in decimal, most significant digit first.
fn positive_to_string(n: u64) -> (r: String)
    requires
        n > 0,
    ensures
        r@.len() > 0,
        is_dec(r@),
        dec_value(r@) == n,
        r@[0] != '0',
        r@ == dec_digits(n as int),
    decreases n,
{
    let d = (n % 10) as u32;
    let c = ((48 + d) as u8) as char;
    proof {
        assert(c as u32 == 48 + d);
    }
    let rest = n / 10;
    if rest == 0 {
        let mut s = String::new();
        push_char(&mut s, c);
        proof {
            assert(s@.last() == c);
            assert(s@.drop_last() =~= Seq::<char>::empty());
            assert(dec_value(Seq::<char>::empty()) == 0);
            assert(dec_value(s@) == 0 * 10 + (c as u32 - 48));
            assert(n % 10 > 0);
            assert(s@ =~= seq![c]);
            assert(c == digit_char(n as int));
        }
        s
    } else {
        let mut s = positive_to_string(rest);
        let ghost prev = s@;
        push_char(&mut s, c);
        proof {
            assert(s@.last() == c);
            assert(s@.drop_last() =~= prev);
            assert(dec_value(s@) == dec_value(prev) * 10 + (c as u32 - 48));
            assert(c == digit_char(n as int % 10));
            assert(s@ =~= dec_digits(n as int));
        }
        s
    }
}

/// Renders a number in decimal: digits only, no leading zero.
pub fn u64_to_string(n: u64) -> (r: String)
    ensures
        is_dec(r@),
        dec_value(r@) == n,
        r@.len() > 1 ==> r@[0] != '0',
        r@ == dec_digits(n as int),
{
    if n == 0 {
        let mut s = String::new();
        push_char(&mut s, '0');
        proof {
            assert(s@.last() == '0');
            assert(s@.drop_last() =~= Seq::<char>::empty());
            assert(dec_value(Seq::<char>::empty()) == 0);
            assert(dec_value(s@) == 0 * 10 + ('0' as u32 - 48));
            assert(s@ =~= seq!['0']);
            assert(digit_char(0) == '0');
        }
        s
    } else {
        positive_to_string(n)
    }
}


/// The decimal rendering of a signed number: a minus sign, then the digits
/// of its magnitude.
pub open spec fn int_digits(n: int) -> Seq<char> {
    if n < 0 {
        seq!['-'] + dec_digits(-n)
    } else {
        dec_digits(n)
    }
}

/// Renders a signed number in decimal.
pub fn i64_to_string(n: i64) -> (r: String)
    ensures
        r@ == int_digits(n as int),
{
    if n >= 0 {
        let r = u64_to_string(n as u64);
        r
    } else {
        let magnitude: u64 = (-(n + 1)) as u64 + 1;
        proof {
            assert(magnitude == -(n as int));
        }
        let digits = u64_to_string(magnitude);
        let mut r = String::new();
        push_char(&mut r, '-');
        let ghost prefix = r@;
        r.append(digits.as_str());
        proof {
            assert(prefix =~= seq!['-']);
        }
        r
    }
}

} // verus!
