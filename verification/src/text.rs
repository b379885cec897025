//! Characters and decimal numbers.

use vstd::prelude::*;
use vstd::slice::slice_subrange;
use vstd::string::*;

verus! {

/// Whether `c` is one of the ten decimal digits.
pub open spec fn is_digit(c: char) -> bool {
    '0' <= c && c <= '9'
}

/// The number that the digit `c` stands for.
pub open spec fn digit_value(c: char) -> int {
    c as u32 as int - '0' as u32 as int
}

/// The digit that writes `d`, for `d` below ten.
pub open spec fn digit_char(d: nat) -> char {
    if d == 0 {
        '0'
    } else if d == 1 {
        '1'
    } else if d == 2 {
        '2'
    } else if d == 3 {
        '3'
    } else if d == 4 {
        '4'
    } else if d == 5 {
        '5'
    } else if d == 6 {
        '6'
    } else if d == 7 {
        '7'
    } else if d == 8 {
        '8'
    } else {
        '9'
    }
}

/// Whether `s` is made of decimal digits only.
pub open spec fn all_digits(s: Seq<char>) -> bool {
    forall|i: int| 0 <= i < s.len() ==> is_digit(#[trigger] s[i])
}

/// The number that a run of decimal digits writes, most significant first.
pub open spec fn decimal_value(s: Seq<char>) -> nat
    decreases s.len(),
{
    if s.len() == 0 {
        0
    } else {
        (decimal_value(s.drop_last()) * 10 + digit_value(s.last())) as nat
    }
}

/// The shortest run of decimal digits that writes `n`.
pub open spec fn decimal_text(n: nat) -> Seq<char>
    decreases n,
{
    if n < 10 {
        seq![digit_char(n)]
    } else {
        decimal_text(n / 10).push(digit_char(n % 10))
    }
}

/// What a run of characters reads as when taken for an unsigned 16-bit
/// decimal number: at least one character, digits only, and a value that
/// fits. Leading zeros are accepted; a sign is not.
pub open spec fn digits_to_u16(s: Seq<char>) -> Option<u16> {
    if s.len() > 0 && all_digits(s) && decimal_value(s) <= u16::MAX {
        Some(decimal_value(s) as u16)
    } else {
        None
    }
}

/// A prefix of a run of digits writes no more than the whole run.
pub proof fn lemma_decimal_prefix_le(s: Seq<char>, k: int)
    requires
        all_digits(s),
        0 <= k <= s.len(),
    ensures
        decimal_value(s.take(k)) <= decimal_value(s),
    decreases s.len(),
{
    if k == s.len() {
        assert(s.take(k) =~= s);
    } else {
        let front = s.drop_last();
        assert(is_digit(s.last()));
        assert forall|i: int| 0 <= i < front.len() implies is_digit(#[trigger] front[i]) by {
            assert(front[i] == s[i]);
        }
        lemma_decimal_prefix_le(front, k);
        assert(front.take(k) =~= s.take(k));
    }
}

/// Writing a number in decimal and reading the digits back gives the number.
pub proof fn lemma_decimal_round_trip(n: nat)
    ensures
        decimal_text(n).len() > 0,
        all_digits(decimal_text(n)),
        decimal_value(decimal_text(n)) == n,
    decreases n,
{
    if n < 10 {
        let s = decimal_text(n);
        assert(s.drop_last() =~= Seq::<char>::empty());
        assert(decimal_value(s.drop_last()) == 0);
    } else {
        lemma_decimal_round_trip(n / 10);
        let front = decimal_text(n / 10);
        let s = decimal_text(n);
        assert(s.drop_last() =~= front);
        assert(s.last() == digit_char(n % 10));
        assert forall|i: int| 0 <= i < s.len() implies is_digit(#[trigger] s[i]) by {
            if i < front.len() {
                assert(s[i] == front[i]);
            }
        }
    }
}

/// The characters of `s`, in order.
pub fn chars_of(s: &str) -> (out: Vec<char>)
    ensures
        out@ == s@,
{
    let mut out: Vec<char> = Vec::new();
    for c in it: s.chars()
        invariant
            out@ == it.seq().take(it.index() as int),
            it.seq() == s@,
    {
        out.push(c);
    }
    out
}

/// Reads a run of characters as an unsigned 16-bit decimal number.
pub fn read_u16(chars: &[char]) -> (r: Option<u16>)
    ensures
        r == digits_to_u16(chars@),
{
    let n = chars.len();
    if n == 0 {
        return None;
    }
    let mut acc: u32 = 0;
    let mut i: usize = 0;
    while i < n
        invariant
            i <= n,
            n == chars@.len(),
            all_digits(chars@.take(i as int)),
            acc == decimal_value(chars@.take(i as int)),
            acc <= u16::MAX,
        decreases n - i,
    {
        let c = chars[i];
        if c < '0' || c > '9' {
            assert(!is_digit(chars@[i as int]));
            return None;
        }
        let d: u32 = c as u32 - '0' as u32;
        let next: u32 = acc * 10 + d;
        proof {
            let upto = chars@.take(i + 1);
            assert(upto.drop_last() =~= chars@.take(i as int));
            assert(upto.last() == c);
            assert(next == decimal_value(upto));
            assert forall|j: int| 0 <= j < upto.len() implies is_digit(#[trigger] upto[j]) by {
                if j < i {
                    assert(upto[j] == chars@.take(i as int)[j]);
                }
            }
        }
        if next > 65535 {
            proof {
                if all_digits(chars@) {
                    lemma_decimal_prefix_le(chars@, i + 1);
                }
            }
            return None;
        }
        acc = next;
        i += 1;
    }
    assert(chars@.take(n as int) =~= chars@);
    Some(acc as u16)
}

/// The one-character text of a decimal digit.
fn digit_text(d: u16) -> (r: &'static str)
    requires
        d < 10,
    ensures
        r@ == seq![digit_char(d as nat)],
{
    proof {
        reveal_strlit("0");
        reveal_strlit("1");
        reveal_strlit("2");
        reveal_strlit("3");
        reveal_strlit("4");
        reveal_strlit("5");
        reveal_strlit("6");
        reveal_strlit("7");
        reveal_strlit("8");
        reveal_strlit("9");
    }
    let r = if d == 0 {
        "0"
    } else if d == 1 {
        "1"
    } else if d == 2 {
        "2"
    } else if d == 3 {
        "3"
    } else if d == 4 {
        "4"
    } else if d == 5 {
        "5"
    } else if d == 6 {
        "6"
    } else if d == 7 {
        "7"
    } else if d == 8 {
        "8"
    } else {
        "9"
    };
    assert(r@ =~= seq![digit_char(d as nat)]);
    r
}

/// Appends the decimal text of `n` to `out`.
pub fn push_decimal(out: &mut String, n: u16)
    ensures
        final(out)@ == old(out)@ + decimal_text(n as nat),
    decreases n,
{
    if n >= 10 {
        push_decimal(out, n / 10);
    }
    out.append(digit_text(n % 10));
    assert(out@ =~= old(out)@ + decimal_text(n as nat));
}

/// `s` without its leading plus sign, if it has one.
pub open spec fn without_plus(s: Seq<char>) -> Seq<char> {
    if s.len() > 0 && s[0] == '+' {
        s.skip(1)
    } else {
        s
    }
}

/// What a text reads as when taken for an unsigned 16-bit decimal number:
/// an optional plus sign, then digits as in [`digits_to_u16`].
pub open spec fn text_to_u16(s: Seq<char>) -> Option<u16> {
    digits_to_u16(without_plus(s))
}

/// Reads a text as an unsigned 16-bit decimal number. `+8080` and `008080`
/// both read as 8080; the empty text, a lone sign, `-1`, `80a` and `65536`
/// read as nothing.
pub fn parse_u16(chars: &[char]) -> (r: Option<u16>)
    ensures
        r == text_to_u16(chars@),
{
    let n = chars.len();
    if n > 0 && chars[0] == '+' {
        let digits = slice_subrange(chars, 1, n);
        assert(digits@ =~= chars@.skip(1));
        read_u16(digits)
    } else {
        read_u16(chars)
    }
}

/// The decimal text of a 16-bit number reads back as that number.
pub proof fn lemma_u16_text_round_trip(n: u16)
    ensures
        text_to_u16(decimal_text(n as nat)) == Some(n),
{
    lemma_decimal_round_trip(n as nat);
    assert(is_digit(decimal_text(n as nat)[0]));
}

} // verus!
