//! Text for numbers and cells.

use vstd::prelude::*;
use vstd::string::*;
use crate::board::Point;

verus! {

/// The character for the digit `d`.
pub open spec fn digit_char(d: int) -> char {
    if d == 0 {
        '0'
    } else if d == 1 {
        '1'
    } else if d == 2 {
        '2'
    } else if d == 3 {
        '3'
    } else if d == 4 {
        '4'
    } else if d == 5 {
        '5'
    } else if d == 6 {
        '6'
    } else if d == 7 {
        '7'
    } else if d == 8 {
        '8'
    } else {
        '9'
    }
}

/// The decimal digits of `n`, most significant first.
pub open spec fn digits(n: nat) -> Seq<char>
    decreases n,
{
    if n < 10 {
        seq![digit_char(n as int)]
    } else {
        digits(n / 10).push(digit_char((n % 10) as int))
    }
}

/// `n` in decimal notation, with a minus sign if it is negative.
pub open spec fn decimal(n: int) -> Seq<char> {
    if n < 0 {
        seq!['-'] + digits((-n) as nat)
    } else {
        digits(n as nat)
    }
}

/// `count` spaces.
pub open spec fn spaces(count: nat) -> Seq<char> {
    Seq::new(count, |i: int| ' ')
}

/// `n` in decimal notation, with spaces before it up to a width of `width`
/// characters.
pub open spec fn padded(n: int, width: nat) -> Seq<char> {
    let text = decimal(n);
    if text.len() >= width {
        text
    } else {
        spaces((width - text.len()) as nat) + text
    }
}

/// The cell `p` as text.
pub open spec fn point_text(p: Point) -> Seq<char> {
    "Point { x: "@ + decimal(p.x as int) + ", y: "@ + decimal(p.y as int) + " }"@
}

/// The digit `d` as text.
fn digit_str(d: u64) -> (s: &'static str)
    requires
        d < 10,
    ensures
        s@ == seq![digit_char(d as int)],
{
    proof {
        reveal_strlit("0");
        reveal_strlit("1");
        reveal_strlit("2");
        reveal_strlit("3");
        reveal_strlit("4");
        reveal_strlit("5");
        reveal_strlit("6");
        reveal_strlit("7");
        reveal_strlit("8");
        reveal_strlit("9");
    }
    let s = if d == 0 {
        "0"
    } else if d == 1 {
        "1"
    } else if d == 2 {
        "2"
    } else if d == 3 {
        "3"
    } else if d == 4 {
        "4"
    } else if d == 5 {
        "5"
    } else if d == 6 {
        "6"
    } else if d == 7 {
        "7"
    } else if d == 8 {
        "8"
    } else {
        "9"
    };
    assert(s@ =~= seq![digit_char(d as int)]);
    s
}

/// Writes the digits of `n`.
fn digits_of(n: u64) -> (text: String)
    ensures
        text@ == digits(n as nat),
    decreases n,
{
    if n < 10 {
        String::from_str(digit_str(n))
    } else {
        let mut text = digits_of(n / 10);
        text.append(digit_str(n % 10));
        assert(text@ =~= digits(n as nat));
        text
    }
}

/// Writes `n` in decimal notation.
pub fn decimal_of(n: i32) -> (text: String)
    ensures
        text@ == decimal(n as int),
{
    if n < 0 {
        let magnitude: u64 = (-(n as i64)) as u64;
        let tail = digits_of(magnitude);
        proof {
            reveal_strlit("-");
        }
        let mut text = String::from_str("-");
        text.append(tail.as_str());
        assert(text@ =~= decimal(n as int));
        text
    } else {
        digits_of(n as u64)
    }
}

/// Writes `n` in decimal notation, filled up with spaces on the left to
/// `width` characters.
pub fn padded_of(n: i32, width: usize) -> (text: String)
    ensures
        text@ == padded(n as int, width as nat),
{
    let number = decimal_of(n);
    let len = number.as_str().unicode_len();
    if len >= width {
        return number;
    }
    let mut text = String::new();
    let mut i: usize = len;
    proof {
        reveal_strlit(" ");
        assert(text@ =~= spaces(0));
    }
    while i < width
        invariant
            len <= i <= width,
            text@ == spaces((i - len) as nat),
            " "@ == seq![' '],
        decreases width - i,
    {
        text.append(" ");
        i = i + 1;
        assert(text@ =~= spaces((i - len) as nat));
    }
    text.append(number.as_str());
    text
}

/// Writes the cell `p` as text.
pub fn point_to_string(p: Point) -> (text: String)
    ensures
        text@ == point_text(p),
{
    let mut text = String::from_str("Point { x: ");
    text.append(decimal_of(p.x).as_str());
    text.append(", y: ");
    text.append(decimal_of(p.y).as_str());
    text.append(" }");
    text
}

} // verus!
