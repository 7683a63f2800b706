use vstd::prelude::*;
use vstd::string::*;

verus! {

/// The character that writes the digit `d`.
pub open spec fn digit_char(d: int) -> char
    recommends
        0 <= d < 10,
{
    if d == 0 {
        '0'
    } else if d == 1 {
        '1'
    } else if d == 2 {
        '2'
    } else if d == 3 {
        '3'
    } else if d == 4 {
        '4'
    } else if d == 5 {
        '5'
    } else if d == 6 {
        '6'
    } else if d == 7 {
        '7'
    } else if d == 8 {
        '8'
    } else {
        '9'
    }
}

/// The digits of `n` in base ten, most significant first, without leading
/// zeros; zero is written `0`.
pub open spec fn decimal_digits(n: nat) -> Seq<char>
    decreases n,
{
    if n < 10 {
        seq![digit_char(n as int)]
    } else {
        decimal_digits(n / 10).push(digit_char((n % 10) as int))
    }
}

/// `n` in base ten, with a minus sign in front where it is negative.
pub open spec fn decimal(n: int) -> Seq<char> {
    if n < 0 {
        seq!['-'] + decimal_digits((-n) as nat)
    } else {
        decimal_digits(n as nat)
    }
}

/// `n` in base ten, filled with zeros after the sign until it is at least
/// three characters wide, the sign included.
pub open spec fn decimal_padded3(n: int) -> Seq<char> {
    if n < 0 {
        if -n < 10 {
            seq!['-', '0'] + decimal_digits((-n) as nat)
        } else {
            seq!['-'] + decimal_digits((-n) as nat)
        }
    } else if n < 10 {
        seq!['0', '0'] + decimal_digits(n as nat)
    } else if n < 100 {
        seq!['0'] + decimal_digits(n as nat)
    } else {
        decimal_digits(n as nat)
    }
}

fn digit_str(d: u64) -> (s: &'static str)
    requires
        d < 10,
    ensures
        s@ == seq![digit_char(d as int)],
{
    proof {
        reveal_strlit("0");
        reveal_strlit("1");
        reveal_strlit("2");
        reveal_strlit("3");
        reveal_strlit("4");
        reveal_strlit("5");
        reveal_strlit("6");
        reveal_strlit("7");
        reveal_strlit("8");
        reveal_strlit("9");
    }
    let s: &'static str = if d == 0 {
        "0"
    } else if d == 1 {
        "1"
    } else if d == 2 {
        "2"
    } else if d == 3 {
        "3"
    } else if d == 4 {
        "4"
    } else if d == 5 {
        "5"
    } else if d == 6 {
        "6"
    } else if d == 7 {
        "7"
    } else if d == 8 {
        "8"
    } else {
        "9"
    };
    assert(s@ =~= seq![digit_char(d as int)]);
    s
}

/// Appends the digits of `n` to `out`.
pub fn push_digits(out: &mut String, n: u64)
    ensures
        final(out)@ == old(out)@ + decimal_digits(n as nat),
    decreases n,
{
    if n >= 10 {
        push_digits(out, n / 10);
    }
    out.append(digit_str(n % 10));
    assert(out@ =~= old(out)@ + decimal_digits(n as nat));
}

/// Appends `n` in base ten to `out`.
pub fn push_decimal(out: &mut String, n: i64)
    ensures
        final(out)@ == old(out)@ + decimal(n as int),
{
    if n < 0 {
        proof {
            reveal_strlit("-");
        }
        out.append("-");
        let magnitude: u64 = (-(n as i128)) as u64;
        push_digits(out, magnitude);
        assert(out@ =~= old(out)@ + decimal(n as int));
    } else {
        push_digits(out, n as u64);
    }
}

/// Appends `n` to `out` as `decimal_padded3` writes it.
pub fn push_decimal_padded3(out: &mut String, n: i64)
    ensures
        final(out)@ == old(out)@ + decimal_padded3(n as int),
{
    proof {
        reveal_strlit("-");
        reveal_strlit("0");
        reveal_strlit("00");
    }
    if n < 0 {
        out.append("-");
        let magnitude: u64 = (-(n as i128)) as u64;
        if magnitude < 10 {
            out.append("0");
        }
        push_digits(out, magnitude);
    } else {
        if n < 10 {
            out.append("00");
        } else if n < 100 {
            out.append("0");
        }
        push_digits(out, n as u64);
    }
    assert(out@ =~= old(out)@ + decimal_padded3(n as int));
}

/// `n` in base ten.
pub fn decimal_string(n: i64) -> (s: String)
    ensures
        s@ == decimal(n as int),
{
    let mut s = String::new();
    push_decimal(&mut s, n);
    assert(s@ =~= decimal(n as int));
    s
}

/// Whether two texts are the same, character by character.
pub fn same_text(a: &str, b: &str) -> (same: bool)
    ensures
        same == (a@ == b@),
{
    let left = String::from_str(a);
    let right = String::from_str(b);
    left == right
}

/// The digit that `c` writes, if it writes one.
pub open spec fn digit_value(c: char) -> Option<nat> {
    if c == '0' {
        Some(0)
    } else if c == '1' {
        Some(1)
    } else if c == '2' {
        Some(2)
    } else if c == '3' {
        Some(3)
    } else if c == '4' {
        Some(4)
    } else if c == '5' {
        Some(5)
    } else if c == '6' {
        Some(6)
    } else if c == '7' {
        Some(7)
    } else if c == '8' {
        Some(8)
    } else if c == '9' {
        Some(9)
    } else {
        None
    }
}

/// The number that `text` writes in base ten, if `text` is one digit or more
/// and nothing else.
pub open spec fn digits_value(text: Seq<char>) -> Option<nat>
    decreases text.len(),
{
    if text.len() == 0 {
        None
    } else if text.len() == 1 {
        digit_value(text[0])
    } else {
        match (digits_value(text.drop_last()), digit_value(text.last())) {
            (Some(before), Some(digit)) => Some(before * 10 + digit),
            _ => None,
        }
    }
}

/// The number that `text` writes: digits, with a plus or a minus sign in
/// front of them or none.
pub open spec fn written_int(text: Seq<char>) -> Option<int> {
    if text.len() > 0 && text[0] == '-' {
        match digits_value(text.skip(1)) {
            Some(value) => Some(-(value as int)),
            None => None,
        }
    } else if text.len() > 0 && text[0] == '+' {
        match digits_value(text.skip(1)) {
            Some(value) => Some(value as int),
            None => None,
        }
    } else {
        match digits_value(text) {
            Some(value) => Some(value as int),
            None => None,
        }
    }
}

/// The number with the magnitude `magnitude`, negative if `negative`.
pub open spec fn signed_value(negative: bool, magnitude: Option<nat>) -> Option<int> {
    match magnitude {
        Some(value) => Some(
            if negative {
                -(value as int)
            } else {
                value as int
            },
        ),
        None => None,
    }
}

/// The number that `text` writes, if it is one that 32 bits hold.
pub open spec fn written_i32(text: Seq<char>) -> Option<i32> {
    match written_int(text) {
        Some(value) => if i32::MIN <= value <= i32::MAX {
            Some(value as i32)
        } else {
            None
        },
        None => None,
    }
}

/// Digits that write a number start with digits that write a number, and a
/// smaller one or the same.
pub proof fn lemma_digits_prefix(text: Seq<char>, n: int)
    requires
        0 < n <= text.len(),
        digits_value(text) is Some,
    ensures
        digits_value(text.take(n)) is Some,
        digits_value(text.take(n))->Some_0 <= digits_value(text)->Some_0,
    decreases text.len(),
{
    if n == text.len() {
        assert(text.take(n) =~= text);
    } else {
        assert(text.drop_last().take(n) =~= text.take(n));
        lemma_digits_prefix(text.drop_last(), n);
    }
}

fn digit_of(c: char) -> (digit: Option<u8>)
    ensures
        match digit {
            Some(d) => digit_value(c) == Some(d as nat),
            None => digit_value(c) is None,
        },
{
    if c == '0' {
        Some(0)
    } else if c == '1' {
        Some(1)
    } else if c == '2' {
        Some(2)
    } else if c == '3' {
        Some(3)
    } else if c == '4' {
        Some(4)
    } else if c == '5' {
        Some(5)
    } else if c == '6' {
        Some(6)
    } else if c == '7' {
        Some(7)
    } else if c == '8' {
        Some(8)
    } else if c == '9' {
        Some(9)
    } else {
        None
    }
}

/// The number that `text` writes: digits, with a plus or a minus sign in
/// front of them or none, and nothing else, not even blanks.
pub fn parse_i32(text: &str) -> (parsed: Option<i32>)
    ensures
        parsed == written_i32(text@),
{
    let len = text.unicode_len();
    if len == 0 {
        return None;
    }
    let first = text.get_char(0);
    let negative = first == '-';
    let start: usize = if first == '-' || first == '+' {
        1
    } else {
        0
    };
    let ghost digits = text@.skip(start as int);
    assert(start == 0 ==> digits =~= text@);
    if start == len {
        return None;
    }
    assert(written_int(text@) == signed_value(negative, digits_value(digits)));
    let mut value: i64 = 0;
    let mut i: usize = start;
    while i < len
        invariant
            start <= i <= len,
            start < len,
            written_int(text@) == signed_value(negative, digits_value(digits)),
            len == text@.len(),
            digits == text@.skip(start as int),
            0 <= value <= 0x8000_0000,
            i > start ==> digits_value(digits.take(i - start)) == Some(value as nat),
            i == start ==> value == 0,
        decreases len - i,
    {
        let ghost upto = digits.take(i - start + 1);
        proof {
            assert(upto.last() == text@[i as int]);
            assert(upto.drop_last() =~= digits.take(i - start));
        }
        let digit = match digit_of(text.get_char(i)) {
            Some(digit) => digit,
            None => {
                proof {
                    if digits_value(digits) is Some {
                        lemma_digits_prefix(digits, i - start + 1);
                        lemma_digits_last(upto);
                    }
                }
                return None;
            },
        };
        value = value * 10 + digit as i64;
        assert(digits_value(upto) == Some(value as nat));
        if value > 0x8000_0000 {
            proof {
                if digits_value(digits) is Some {
                    lemma_digits_prefix(digits, i - start + 1);
                }
            }
            return None;
        }
        i += 1;
    }
    assert(digits.take(len - start) =~= digits);
    if negative {
        Some((-value) as i32)
    } else if value > 0x7fff_ffff {
        None
    } else {
        Some(value as i32)
    }
}

/// Digits that write a number end in a digit.
pub proof fn lemma_digits_last(text: Seq<char>)
    requires
        digits_value(text) is Some,
    ensures
        text.len() > 0,
        digit_value(text.last()) is Some,
{
}

} // verus!
