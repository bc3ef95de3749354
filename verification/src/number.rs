//! Whole numbers in decimal notation: reading the argument of `exit`, and
//! writing an exit code back out.

use vstd::prelude::*;

verus! {

/// One of the ten decimal digits.
pub open spec fn is_digit(c: char) -> bool {
    '0' <= c && c <= '9'
}

/// The number that a digit stands for.
pub open spec fn digit_value(c: char) -> int {
    c as int - '0' as int
}

/// The digit that stands for `d`, for `d` from 0 to 9.
pub open spec fn digit_char(d: int) -> char {
    ('0' as int + d) as char
}

/// `s` holds decimal digits and nothing else.
pub open spec fn all_digits(s: Seq<char>) -> bool {
    forall|i: int| 0 <= i < s.len() ==> is_digit(#[trigger] s[i])
}

/// The number that a run of digits denotes; leading zeros count for nothing.
pub open spec fn digits_value(s: Seq<char>) -> int
    decreases s.len(),
{
    if s.len() == 0 {
        0
    } else {
        10 * digits_value(s.drop_last()) + digit_value(s.last())
    }
}

/// The digits that follow the sign of `s`, or all of `s` where it has none.
pub open spec fn unsigned_part(s: Seq<char>) -> Seq<char> {
    if s.len() > 0 && (s[0] == '-' || s[0] == '+') {
        s.drop_first()
    } else {
        s
    }
}

/// The integer that `s` denotes: an optional `+` or `-`, then one decimal
/// digit or more, and nothing else. Anything else denotes no integer.
pub open spec fn integer_of(s: Seq<char>) -> Option<int> {
    let body = unsigned_part(s);
    if body.len() == 0 || !all_digits(body) {
        None
    } else if s[0] == '-' {
        Some(-digits_value(body))
    } else {
        Some(digits_value(body))
    }
}

/// The exit code that `s` denotes: its integer, where that fits in 32 bits.
pub open spec fn exit_code_of(s: Seq<char>) -> Option<i32> {
    match integer_of(s) {
        Some(v) => if i32::MIN <= v <= i32::MAX { Some(v as i32) } else { None },
        None => None,
    }
}

/// The digits of `n`, without leading zeros.
pub open spec fn digits_of(n: nat) -> Seq<char>
    decreases n,
{
    if n < 10 {
        seq![digit_char(n as int)]
    } else {
        digits_of(n / 10).push(digit_char((n % 10) as int))
    }
}

/// `n` in decimal notation, with a `-` in front where it is negative.
pub open spec fn decimal(n: int) -> Seq<char> {
    if n < 0 {
        seq!['-'] + digits_of((-n) as nat)
    } else {
        digits_of(n as nat)
    }
}

/// A run of digits denotes no negative number.
proof fn lemma_digits_not_negative(s: Seq<char>)
    requires
        all_digits(s),
    ensures
        digits_value(s) >= 0,
    decreases s.len(),
{
    if s.len() > 0 {
        lemma_digits_not_negative(s.drop_last());
    }
}

/// A run of digits denotes at least what any of its beginnings denotes.
proof fn lemma_digits_grow(s: Seq<char>, k: int)
    requires
        all_digits(s),
        0 <= k <= s.len(),
    ensures
        digits_value(s.take(k)) <= digits_value(s),
    decreases s.len() - k,
{
    if k == s.len() {
        assert(s.take(k) == s);
    } else {
        lemma_digits_grow(s, k + 1);
        lemma_digits_not_negative(s.take(k));
        assert(s.take(k + 1).drop_last() == s.take(k));
    }
}

/// Reads an exit code. The answer is `None` for text that is no decimal
/// integer and for an integer that does not fit in 32 bits.
pub fn parse_exit_code(text: &str) -> (r: Option<i32>)
    ensures
        r == exit_code_of(text@),
{
    let mut negative = false;
    let mut signed = false;
    let mut first = true;
    let mut any = false;
    let mut value: i64 = 0;
    let ghost whole = text@;
    let ghost body = unsigned_part(whole);
    for c in it: text.chars()
        invariant
            it.seq() == whole,
            whole == text@,
            body == unsigned_part(whole),
            first == (it.index() == 0),
            signed == (it.index() > 0 && (whole[0] == '-' || whole[0] == '+')),
            negative == (it.index() > 0 && whole[0] == '-'),
            it.index() > 0 ==> body.len() == whole.len() - if signed { 1int } else { 0 },
            any == (it.index() - if signed { 1int } else { 0 } > 0),
            all_digits(body.take(it.index() - if signed { 1int } else { 0 })),
            value == digits_value(body.take(it.index() - if signed { 1int } else { 0 })),
            0 <= value <= 2147483648,
    {
        let ghost i: int = it.index();
        if first && (c == '-' || c == '+') {
            signed = true;
            negative = c == '-';
        } else if c >= '0' && c <= '9' {
            let ghost k: int = i - if signed { 1int } else { 0 };
            assert(body.take(k + 1).drop_last() == body.take(k));
            let digit: i64 = (c as u32 - '0' as u32) as i64;
            value = value * 10 + digit;
            any = true;
            if value > 2147483648 {
                proof {
                    if all_digits(body) {
                        lemma_digits_grow(body, k + 1);
                    }
                }
                return None;
            }
        } else {
            let ghost k: int = i - if signed { 1int } else { 0 };
            assert(body[k] == c);
            return None;
        }
        first = false;
    }
    assert(whole.len() > 0 ==> body.take(body.len() as int) == body);
    if !any {
        None
    } else if negative {
        Some((-value) as i32)
    } else if value <= 2147483647 {
        Some(value as i32)
    } else {
        None
    }
}

/// The digits of `n` and what they denote belong together.
proof fn lemma_digits_of(n: nat)
    ensures
        digits_of(n).len() > 0,
        all_digits(digits_of(n)),
        digits_value(digits_of(n)) == n,
        is_digit(digits_of(n)[0]),
    decreases n,
{
    if n < 10 {
        let s = digits_of(n);
        assert(digits_value(s.drop_last()) == 0);
    } else {
        lemma_digits_of(n / 10);
        let head = digits_of(n / 10);
        let s = digits_of(n);
        assert(s.drop_last() == head);
    }
}

/// Appends the digits of `n` to `out`.
fn push_digits(out: &mut String, n: u32)
    ensures
        final(out)@ == old(out)@ + digits_of(n as nat),
    decreases n,
{
    if n >= 10 {
        push_digits(out, n / 10);
    }
    let digit: char = ((n % 10) as u8 + 48u8) as char;
    out.push(digit);
    assert(n >= 10 ==> old(out)@ + digits_of(n as nat) == (old(out)@ + digits_of(
        (n / 10) as nat,
    )).push(digit));
}

/// Writes `n` in decimal notation.
pub fn render(n: i32) -> (r: String)
    ensures
        r@ == decimal(n as int),
{
    let mut out = String::new();
    if n < 0 {
        out.push('-');
        let magnitude: u32 = (-(n as i64)) as u32;
        push_digits(&mut out, magnitude);
    } else {
        push_digits(&mut out, n as u32);
    }
    out
}

/// What `render` writes, `parse_exit_code` reads back: the decimal notation
/// of an integer denotes that integer.
pub proof fn law_decimal_reads_back(n: int)
    ensures
        integer_of(decimal(n)) == Some(n),
{
    if n < 0 {
        let digits = digits_of((-n) as nat);
        lemma_digits_of((-n) as nat);
        assert(decimal(n).drop_first() == digits);
    } else {
        lemma_digits_of(n as nat);
    }
}

} // verus!
