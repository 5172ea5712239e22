//! Small verified text helpers: string equality by characters and
//! decimal rendering and reading of 32-bit integers.

use vstd::prelude::*;
use vstd::string::StrSliceExecFns;
use vstd::string::StringExecFns;

verus! {

/// Character-for-character equality of two string slices.
pub fn str_eq(a: &str, b: &str) -> (r: bool)
    ensures
        r == (a@ == b@),
{
    let alen = a.unicode_len();
    let blen = b.unicode_len();
    if alen != blen {
        return false;
    }
    let mut i: usize = 0;
    while i < alen
        invariant
            alen == a@.len(),
            blen == b@.len(),
            alen == blen,
            i <= alen,
            forall|j: int| 0 <= j < i ==> a@[j] == b@[j],
        decreases alen - i,
    {
        if a.get_char(i) != b.get_char(i) {
            return false;
        }
        i = i + 1;
    }
    proof {
        assert(a@ =~= b@);
    }
    true
}

/// Whether `c` is an ASCII decimal digit.
pub open spec fn is_digit_char(c: char) -> bool {
    '0' <= c && c <= '9'
}

/// The numeric value of a digit character.
pub open spec fn digit_val(c: char) -> int {
    c as int - '0' as int
}

/// The number denoted by a sequence of digit characters, most significant
/// first. The empty sequence denotes zero.
pub open spec fn digits_val(s: Seq<char>) -> int
    decreases s.len(),
{
    if s.len() == 0 {
        0
    } else {
        digits_val(s.drop_last()) * 10 + digit_val(s.last())
    }
}

/// Whether every character of `s` is a decimal digit.
pub open spec fn all_digits(s: Seq<char>) -> bool {
    forall|i: int| 0 <= i < s.len() ==> is_digit_char(#[trigger] s[i])
}

/// Whether `s` is the lexeme of an integer literal that fits in `i32`:
/// nonempty, all digits, and in range.
pub open spec fn fits_i32(s: Seq<char>) -> bool {
    s.len() > 0 && all_digits(s) && digits_val(s) <= i32::MAX
}

proof fn lemma_digits_val_nonneg(s: Seq<char>)
    requires
        all_digits(s),
    ensures
        digits_val(s) >= 0,
    decreases s.len(),
{
    if s.len() > 0 {
        assert(all_digits(s.drop_last()));
        lemma_digits_val_nonneg(s.drop_last());
    }
}

/// Reads a string of decimal digits as an `i32`. Returns `None` when the
/// string is empty, holds a non-digit, or denotes a number above `i32::MAX`.
pub fn parse_i32_digits(s: &str) -> (r: Option<i32>)
    ensures
        fits_i32(s@) ==> r == Some((digits_val(s@) as i32)),
        !fits_i32(s@) ==> r is None,
{
    let len = s.unicode_len();
    if len == 0 {
        return None;
    }
    let mut acc: i32 = 0;
    let mut i: usize = 0;
    while i < len
        invariant
            len == s@.len(),
            0 < len,
            i <= len,
            all_digits(s@.subrange(0, i as int)),
            acc == digits_val(s@.subrange(0, i as int)),
            acc >= 0,
        decreases len - i,
    {
        let c = s.get_char(i);
        if !('0' <= c && c <= '9') {
            assert(!all_digits(s@));
            return None;
        }
        let d: i32 = (c as u32 as i32) - 48;
        assert(d == digit_val(s@[i as int]));
        if acc > (i32::MAX - d) / 10 {
            proof {
                let pre = s@.subrange(0, i as int + 1);
                assert(pre.drop_last() =~= s@.subrange(0, i as int));
                assert(acc * 10 + d > i32::MAX);
                assert(digits_val(pre) > i32::MAX);
                if all_digits(s@) {
                    lemma_digits_prefix_monotone(s@, i as int + 1);
                }
                assert(!fits_i32(s@));
            }
            return None;
        }
        acc = acc * 10 + d;
        proof {
            let pre = s@.subrange(0, i as int + 1);
            assert(pre.drop_last() =~= s@.subrange(0, i as int));
            assert(pre.last() == s@[i as int]);
        }
        i = i + 1;
    }
    proof {
        assert(s@.subrange(0, len as int) =~= s@);
    }
    Some(acc)
}

/// A digit-string prefix never denotes more than the whole string does.
proof fn lemma_digits_prefix_monotone(s: Seq<char>, i: int)
    requires
        0 <= i <= s.len(),
        all_digits(s),
    ensures
        digits_val(s.subrange(0, i)) <= digits_val(s),
    decreases s.len() - i,
{
    if i < s.len() {
        let t = s.subrange(0, i + 1);
        assert(t.drop_last() =~= s.subrange(0, i));
        assert(all_digits(s.subrange(0, i)));
        lemma_digits_val_nonneg(s.subrange(0, i));
        assert(digit_val(t.last()) >= 0);
        assert(digits_val(s.subrange(0, i)) <= digits_val(t));
        lemma_digits_prefix_monotone(s, i + 1);
        assert(s.subrange(0, s.len() as int) =~= s);
    } else {
        assert(s.subrange(0, i) =~= s);
    }
}

/// The digit character for a value below ten.
pub open spec fn digit_char(n: int) -> char {
    if n == 0 { '0' }
    else if n == 1 { '1' }
    else if n == 2 { '2' }
    else if n == 3 { '3' }
    else if n == 4 { '4' }
    else if n == 5 { '5' }
    else if n == 6 { '6' }
    else if n == 7 { '7' }
    else if n == 8 { '8' }
    else if n == 9 { '9' }
    else { '0' }
}

/// Decimal rendering of a nonnegative number, most significant digit first.
pub open spec fn dec_digits(n: int) -> Seq<char>
    decreases n,
{
    if n < 10 {
        seq![digit_char(n)]
    } else {
        dec_digits(n / 10) + seq![digit_char(n % 10)]
    }
}

/// Decimal rendering of a signed 32-bit value, with a leading minus sign
/// for negative values.
pub open spec fn render_i32(v: i32) -> Seq<char> {
    if v < 0 {
        seq!['-'] + dec_digits(-(v as int))
    } else {
        dec_digits(v as int)
    }
}

/// Decimal rendering reads back as the number it came from: the digits of
/// a nonnegative number are all digits and denote that number. This is the
/// text-level half of re-parsing a rendered integer literal.
pub proof fn lemma_dec_digits_value(n: int)
    requires
        n >= 0,
    ensures
        all_digits(dec_digits(n)),
        digits_val(dec_digits(n)) == n,
        dec_digits(n).len() >= 1,
    decreases n,
{
    if n < 10 {
        let s = dec_digits(n);
        assert(s =~= seq![digit_char(n)]);
        assert(s.drop_last() =~= Seq::<char>::empty());
        assert(digits_val(Seq::<char>::empty()) == 0);
        assert(digits_val(s) == digit_val(digit_char(n)));
    } else {
        lemma_dec_digits_value(n / 10);
        let a = dec_digits(n / 10);
        let s = dec_digits(n);
        assert(s =~= a + seq![digit_char(n % 10)]);
        assert(s.drop_last() =~= a);
        assert(s.last() == digit_char(n % 10));
        assert(digit_val(digit_char(n % 10)) == n % 10);
        assert(digits_val(s) == digits_val(a) * 10 + n % 10);
        assert(forall|i: int| 0 <= i < a.len() ==> is_digit_char(#[trigger] s[i]));
        assert(is_digit_char(s[s.len() - 1]));
    }
}

fn digit_str(n: u32) -> (r: &'static str)
    requires
        n < 10,
    ensures
        r@ =~= seq![digit_char(n as int)],
{
    proof {
        reveal_strlit("0");
        reveal_strlit("1");
        reveal_strlit("2");
        reveal_strlit("3");
        reveal_strlit("4");
        reveal_strlit("5");
        reveal_strlit("6");
        reveal_strlit("7");
        reveal_strlit("8");
        reveal_strlit("9");
    }
    match n {
        0 => "0",
        1 => "1",
        2 => "2",
        3 => "3",
        4 => "4",
        5 => "5",
        6 => "6",
        7 => "7",
        8 => "8",
        _ => "9",
    }
}

fn u32_to_string(n: u32) -> (r: String)
    ensures
        r@ == dec_digits(n as int),
    decreases n,
{
    if n < 10 {
        digit_str(n).to_owned()
    } else {
        let s = u32_to_string(n / 10);
        s.concat(digit_str(n % 10))
    }
}

/// Renders a signed 32-bit value in decimal.
pub fn i32_to_string(v: i32) -> (r: String)
    ensures
        r@ == render_i32(v),
{
    if v < 0 {
        let mag: u32 = if v == i32::MIN {
            2147483648u32
        } else {
            (-v) as u32
        };
        assert(mag as int == -(v as int));
        let s = String::from_str("-");
        proof {
            reveal_strlit("-");
        }
        let r = s.concat(u32_to_string(mag).as_str());
        proof {
            assert(r@ =~= seq!['-'] + dec_digits(-(v as int)));
        }
        r
    } else {
        u32_to_string(v as u32)
    }
}

} // verus!
