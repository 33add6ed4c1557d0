//! Numbers as text, text as numbers, and padding to a column width.

use vstd::prelude::*;

verus! {

/// `String::push` appends the character it is given at the end of the string.
pub assume_specification[ String::push ](s: &mut String, c: char)
    ensures
        final(s)@ == old(s)@.push(c),
;

/// The character that stands for a decimal digit.
pub open spec fn digit_char(d: nat) -> char {
    (48 + d) as char
}

/// Whether a character is one of `0` to `9`.
pub open spec fn is_digit(c: char) -> bool {
    '0' <= c <= '9'
}

/// The number that a decimal digit stands for.
pub open spec fn digit_value(c: char) -> nat {
    (c as int - 48) as nat
}

/// The decimal representation of a number, without leading zeros.
pub open spec fn decimal_text(n: nat) -> Seq<char>
    decreases n,
{
    if n < 10 {
        seq![digit_char(n)]
    } else {
        decimal_text(n / 10).push(digit_char(n % 10))
    }
}

/// The number that a sequence of decimal digits stands for, the most significant digit first.
pub open spec fn decimal_value(s: Seq<char>) -> nat
    decreases s.len(),
{
    if s.len() == 0 {
        0
    } else {
        10 * decimal_value(s.drop_last()) + digit_value(s.last())
    }
}

/// Whether every character is a decimal digit.
pub open spec fn all_digits(s: Seq<char>) -> bool {
    forall|i: int| 0 <= i < s.len() ==> is_digit(#[trigger] s[i])
}

/// A character repeated.
pub open spec fn repeated(c: char, count: int) -> Seq<char> {
    Seq::new(if count > 0 { count as nat } else { 0 }, |i: int| c)
}

/// Text moved to the right edge of a column of the given width.
pub open spec fn right_aligned(s: Seq<char>, fill: char, width: nat) -> Seq<char> {
    repeated(fill, width - s.len()) + s
}

/// Text moved to the left edge of a column of the given width.
pub open spec fn left_aligned(s: Seq<char>, fill: char, width: nat) -> Seq<char> {
    s + repeated(fill, width - s.len())
}

/// What an unsigned byte written in decimal stands for: an optional plus sign, then at least one
/// digit and nothing else, and a value that fits.
pub open spec fn byte_of_text(s: Seq<char>) -> Option<u8> {
    let body = if s.len() > 0 && s[0] == '+' {
        s.skip(1)
    } else {
        s
    };
    if body.len() > 0 && all_digits(body) && decimal_value(body) <= 255 {
        Some(decimal_value(body) as u8)
    } else {
        None
    }
}

/// Writing a number down and reading it back gives the number.
pub proof fn decimal_round_trip(n: nat)
    ensures
        decimal_text(n).len() > 0,
        all_digits(decimal_text(n)),
        decimal_value(decimal_text(n)) == n,
    decreases n,
{
    if n < 10 {
        assert(decimal_text(n).drop_last() =~= Seq::empty());
        assert(decimal_value(Seq::<char>::empty()) == 0);
        assert(decimal_text(n).last() == digit_char(n));
    } else {
        decimal_round_trip(n / 10);
        let s = decimal_text(n);
        assert(s.drop_last() =~= decimal_text(n / 10));
        assert forall|i: int| 0 <= i < s.len() implies is_digit(#[trigger] s[i]) by {
            if i < s.len() - 1 {
                assert(s[i] == decimal_text(n / 10)[i]);
            }
        }
    }
}

/// A byte written in decimal is read back as that byte.
pub proof fn byte_round_trip(n: u8)
    ensures
        byte_of_text(decimal_text(n as nat)) == Some(n),
{
    decimal_round_trip(n as nat);
    let s = decimal_text(n as nat);
    assert(is_digit(s[0]));
}

/// Digits in front only make the value larger.
proof fn value_of_prefix(s: Seq<char>, k: int)
    requires
        0 <= k <= s.len(),
    ensures
        decimal_value(s.take(k)) <= decimal_value(s),
    decreases s.len() - k,
{
    if k < s.len() {
        value_of_prefix(s, k + 1);
        assert(s.take(k + 1).drop_last() =~= s.take(k));
    } else {
        assert(s.take(k) =~= s);
    }
}

/// Whether two pieces of text are the same.
pub fn same(a: &str, b: &str) -> (r: bool)
    ensures
        r == (a@ == b@),
{
    a.to_owned() == b.to_owned()
}

/// The decimal representation of a number.
pub fn decimal(n: u64) -> (r: String)
    ensures
        r@ == decimal_text(n as nat),
    decreases n,
{
    let last: char = ((n % 10) as u8 + 48) as char;
    let mut r = if n < 10 {
        String::new()
    } else {
        decimal(n / 10)
    };
    r.push(last);
    proof {
        if n < 10 {
            assert(r@ =~= decimal_text(n as nat));
        }
    }
    r
}

/// Text padded on the left.
pub fn pad_left(s: &str, fill: char, width: usize) -> (r: String)
    ensures
        r@ == right_aligned(s@, fill, width as nat),
{
    let len = s.unicode_len();
    let mut r = String::new();
    let mut i: usize = len;
    while i < width
        invariant
            len == s@.len(),
            r@ == repeated(fill, i - len),
            len <= i,
            i <= width || i == len,
        decreases width - i,
    {
        r.push(fill);
        assert(r@ =~= repeated(fill, i + 1 - len));
        i = i + 1;
    }
    assert(repeated(fill, i - len) =~= repeated(fill, width - len));
    r.append(s);
    r
}

/// Text padded on the right.
pub fn pad_right(s: &str, fill: char, width: usize) -> (r: String)
    ensures
        r@ == left_aligned(s@, fill, width as nat),
{
    let len = s.unicode_len();
    let mut r = s.to_owned();
    let mut i: usize = len;
    while i < width
        invariant
            len == s@.len(),
            r@ == s@ + repeated(fill, i - len),
            len <= i,
            i <= width || i == len,
        decreases width - i,
    {
        r.push(fill);
        assert(r@ =~= s@ + repeated(fill, i + 1 - len));
        i = i + 1;
    }
    assert(repeated(fill, i - len) =~= repeated(fill, width - len));
    r
}

/// Reads an unsigned byte written in decimal.
pub fn parse_byte(s: &str) -> (r: Option<u8>)
    ensures
        r == byte_of_text(s@),
{
    let len = s.unicode_len();
    let start: usize = if len > 0 && s.get_char(0) == '+' {
        1
    } else {
        0
    };
    let ghost body = s@.skip(start as int);
    assert(start == 0 ==> body =~= s@);
    if start == len {
        return None;
    }
    let mut value: u8 = 0;
    let mut i: usize = start;
    while i < len
        invariant
            len == s@.len(),
            start <= i <= len,
            body == s@.skip(start as int),
            start == (if s@.len() > 0 && s@[0] == '+' { 1int } else { 0int }),
            start == 0 ==> body == s@,
            all_digits(body.take(i - start)),
            value == decimal_value(body.take(i - start)),
        decreases len - i,
    {
        let c = s.get_char(i);
        assert(body[i - start] == c);
        assert(body.len() == len - start);
        if c < '0' || '9' < c {
            return None;
        }
        let d: u16 = c as u16 - 48;
        let next: u16 = value as u16 * 10 + d;
        proof {
            let prefix = body.take(i + 1 - start);
            assert(prefix.drop_last() =~= body.take(i - start));
            assert forall|j: int| 0 <= j < prefix.len() implies is_digit(#[trigger] prefix[j]) by {
                if j < i - start {
                    assert(prefix[j] == body.take(i - start)[j]);
                }
            }
            value_of_prefix(body, i + 1 - start);
        }
        if next > 255 {
            return None;
        }
        value = next as u8;
        i = i + 1;
    }
    assert(body.take(i - start) =~= body);
    Some(value)
}

/// The digits of a number do not begin with a zero, unless the number is zero, which is one digit.
pub proof fn numbers_have_no_leading_zero(n: nat)
    ensures
        decimal_text(n).len() > 0,
        n > 0 ==> decimal_text(n)[0] != '0',
        n == 0 ==> decimal_text(n) == seq!['0'],
    decreases n,
{
    if n >= 10 {
        numbers_have_no_leading_zero(n / 10);
    }
}

/// A digit is one of the ten characters, and a digit behind a number makes it ten times as large and
/// adds the digit.
pub proof fn digits_count_in_tens(s: Seq<char>, c: char)
    ensures
        is_digit(c) <==> c == '0' || c == '1' || c == '2' || c == '3' || c == '4' || c == '5' || c
            == '6' || c == '7' || c == '8' || c == '9',
        decimal_value(Seq::<char>::empty()) == 0,
        is_digit(c) ==> decimal_value(s.push(c)) == 10 * decimal_value(s) + (c as int - '0' as int),
        all_digits(s.push(c)) <==> all_digits(s) && is_digit(c),
{
    let t = s.push(c);
    assert(t.drop_last() =~= s);
    if all_digits(t) {
        assert(is_digit(t[s.len() as int]));
        assert forall|i: int| 0 <= i < s.len() implies is_digit(#[trigger] s[i]) by {
            assert(t[i] == s[i]);
        }
    }
    if all_digits(s) && is_digit(c) {
        assert forall|i: int| 0 <= i < t.len() implies is_digit(#[trigger] t[i]) by {
            if i < s.len() {
                assert(t[i] == s[i]);
            }
        }
    }
}

/// A byte is read from digits that stand for a number up to 255, with or without a plus sign in
/// front, and from nothing else.
pub proof fn bytes_are_digits(s: Seq<char>)
    ensures
        s.len() > 0 && all_digits(s) && decimal_value(s) <= 255 ==> byte_of_text(s) is Some
            && byte_of_text(s)->0 == decimal_value(s) && byte_of_text(seq!['+'] + s)
            == byte_of_text(s),
        s.len() > 0 && all_digits(s) && decimal_value(s) > 255 ==> byte_of_text(s) is None
            && byte_of_text(seq!['+'] + s) is None,
        s.len() == 0 ==> byte_of_text(s) is None && byte_of_text(seq!['+'] + s) is None,
        !all_digits(s) && s[0] != '+' ==> byte_of_text(s) is None,
        !all_digits(s) ==> byte_of_text(seq!['+'] + s) is None,
{
    let plus = seq!['+'] + s;
    assert(plus.skip(1) =~= s);
    if s.len() > 0 && all_digits(s) {
        assert(is_digit(s[0]));
    }
}

/// Text that is moved to an edge fills the width, or keeps its length if that is larger. It stands at
/// its edge unchanged, and all the rest is filled.
pub proof fn aligned_text_fills_the_width(s: Seq<char>, fill: char, width: nat)
    ensures
        ({
            let r = right_aligned(s, fill, width);
            let l = left_aligned(s, fill, width);
            let len: nat = if s.len() < width {
                width
            } else {
                s.len()
            };
            &&& r.len() == len && l.len() == len
            &&& r.skip(len - s.len()) == s && l.take(s.len() as int) == s
            &&& forall|i: int| 0 <= i < len - s.len() ==> #[trigger] r[i] == fill
            &&& forall|i: int| s.len() <= i < len ==> #[trigger] l[i] == fill
        }),
{
    let r = right_aligned(s, fill, width);
    let l = left_aligned(s, fill, width);
    assert(r.skip(r.len() - s.len()) =~= s);
    assert(l.take(s.len() as int) =~= s);
}

} // verus!
