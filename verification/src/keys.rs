//! The text form of a cell: `"<x>,<y>"`, two signed decimal integers with a
//! comma between them and no spaces.

use crate::cell::Cell;
use vstd::prelude::*;
use vstd::string::{StrSliceExecFns, StringExecFns};

verus! {

/// The character of a decimal digit.
pub open spec fn digit_char(d: int) -> char {
    (d + 48) as char
}

/// Whether a character is a decimal digit.
pub open spec fn is_digit(c: char) -> bool {
    48 <= c as int <= 57
}

/// The decimal digits of `n`, most significant first, without leading zeros.
pub open spec fn digits(n: nat) -> Seq<char>
    decreases n,
{
    if n < 10 {
        seq![digit_char(n as int)]
    } else {
        digits(n / 10).push(digit_char((n % 10) as int))
    }
}

/// The text of an integer: a minus sign where it is negative, then its
/// digits.
pub open spec fn int_text(v: int) -> Seq<char> {
    if v < 0 {
        seq!['-'] + digits((-v) as nat)
    } else {
        digits(v as nat)
    }
}

/// The text of a cell.
pub open spec fn cell_text(cell: Cell) -> Seq<char> {
    int_text(cell.0 as int) + seq![','] + int_text(cell.1 as int)
}

/// The number that a sequence of digits stands for; leading zeros count for
/// nothing.
pub open spec fn digits_value(s: Seq<char>) -> int
    decreases s.len(),
{
    if s.len() == 0 {
        0
    } else {
        digits_value(s.drop_last()) * 10 + (s.last() as int - 48)
    }
}

/// Whether every character of `s` is a decimal digit.
pub open spec fn all_digits(s: Seq<char>) -> bool {
    forall|i: int| 0 <= i < s.len() ==> is_digit(#[trigger] s[i])
}

/// The integer that `s` is the text of: an optional `+` or `-`, then one or
/// more digits, with a value that fits 32 bits. Anything else is no integer.
pub open spec fn text_int(s: Seq<char>) -> Option<i32> {
    if s.len() == 0 {
        None
    } else {
        let negative = s[0] == '-';
        let body = if negative || s[0] == '+' {
            s.subrange(1, s.len() as int)
        } else {
            s
        };
        let value = if negative {
            -digits_value(body)
        } else {
            digits_value(body)
        };
        if body.len() > 0 && all_digits(body) && i32::MIN <= value <= i32::MAX {
            Some(value as i32)
        } else {
            None
        }
    }
}

/// The position of the first comma in `s`, or the length of `s` where it
/// holds none.
pub open spec fn first_comma(s: Seq<char>) -> int
    decreases s.len(),
{
    if s.len() == 0 || s[0] == ',' {
        0
    } else {
        1 + first_comma(s.drop_first())
    }
}

/// The cell that `s` is the text of: exactly two integers with one comma
/// between them. Anything else is no cell.
pub open spec fn text_cell(s: Seq<char>) -> Option<Cell> {
    let at = first_comma(s);
    if at >= s.len() {
        None
    } else {
        match (text_int(s.subrange(0, at)), text_int(s.subrange(at + 1, s.len() as int))) {
            (Some(x), Some(y)) => Some((x, y)),
            _ => None,
        }
    }
}

proof fn lemma_first_comma(s: Seq<char>, at: int)
    requires
        0 <= at <= s.len(),
        forall|j: int| 0 <= j < at ==> s[j] != ',',
        at < s.len() ==> s[at] == ',',
    ensures
        first_comma(s) == at,
    decreases at,
{
    if at > 0 {
        let rest = s.drop_first();
        assert forall|j: int| 0 <= j < at - 1 implies rest[j] != ',' by {
            assert(rest[j] == s[j + 1]);
        }
        lemma_first_comma(rest, at - 1);
    }
}

proof fn lemma_digits(n: nat)
    ensures
        digits(n).len() >= 1,
        all_digits(digits(n)),
        digits_value(digits(n)) == n,
    decreases n,
{
    if n < 10 {
        let s = digits(n);
        assert(s.drop_last().len() == 0);
        assert(digits_value(s) == digits_value(s.drop_last()) * 10 + (s.last() as int - 48));
    } else {
        lemma_digits(n / 10);
        let s = digits(n);
        assert(s.drop_last() =~= digits(n / 10));
        assert(s.last() == digit_char((n % 10) as int));
        assert forall|i: int| 0 <= i < s.len() implies is_digit(#[trigger] s[i]) by {
            if i < s.len() - 1 {
                assert(s[i] == digits(n / 10)[i]);
            }
        }
    }
}

proof fn lemma_int_text(v: int)
    requires
        i32::MIN <= v <= i32::MAX,
    ensures
        text_int(int_text(v)) == Some(v as i32),
        forall|j: int| 0 <= j < int_text(v).len() ==> int_text(v)[j] != ',',
{
    let s = int_text(v);
    if v < 0 {
        lemma_digits((-v) as nat);
        assert(s.subrange(1, s.len() as int) =~= digits((-v) as nat));
        assert forall|j: int| 0 <= j < s.len() implies s[j] != ',' by {
            if j > 0 {
                assert(s[j] == digits((-v) as nat)[j - 1]);
                assert(is_digit(digits((-v) as nat)[j - 1]));
            }
        }
    } else {
        lemma_digits(v as nat);
        assert(is_digit(s[0]));
        assert forall|j: int| 0 <= j < s.len() implies s[j] != ',' by {
            assert(is_digit(s[j]));
        }
    }
}

/// Every cell is read back from its own text.
pub proof fn lemma_cell_text_round_trip(cell: Cell)
    ensures
        text_cell(cell_text(cell)) == Some(cell),
{
    let left = int_text(cell.0 as int);
    let right = int_text(cell.1 as int);
    let s = cell_text(cell);
    lemma_int_text(cell.0 as int);
    lemma_int_text(cell.1 as int);
    assert forall|j: int| 0 <= j < left.len() implies s[j] != ',' by {
        assert(s[j] == left[j]);
    }
    assert(s[left.len() as int] == ',');
    lemma_first_comma(s, left.len() as int);
    assert(s.subrange(0, left.len() as int) =~= left);
    assert(s.subrange(left.len() as int + 1, s.len() as int) =~= right);
}

fn digit_text(d: u64) -> (r: &'static str)
    requires
        d < 10,
    ensures
        r@ == seq![digit_char(d as int)],
{
    proof {
        reveal_strlit("0");
        reveal_strlit("1");
        reveal_strlit("2");
        reveal_strlit("3");
        reveal_strlit("4");
        reveal_strlit("5");
        reveal_strlit("6");
        reveal_strlit("7");
        reveal_strlit("8");
        reveal_strlit("9");
    }
    let r = if d == 0 {
        "0"
    } else if d == 1 {
        "1"
    } else if d == 2 {
        "2"
    } else if d == 3 {
        "3"
    } else if d == 4 {
        "4"
    } else if d == 5 {
        "5"
    } else if d == 6 {
        "6"
    } else if d == 7 {
        "7"
    } else if d == 8 {
        "8"
    } else {
        "9"
    };
    assert(r@ =~= seq![digit_char(d as int)]);
    r
}

fn push_digits(text: &mut String, n: u64)
    ensures
        final(text)@ == old(text)@ + digits(n as nat),
    decreases n,
{
    if n >= 10 {
        push_digits(text, n / 10);
    }
    text.append(digit_text(n % 10));
    assert(text@ =~= old(text)@ + digits(n as nat));
}

fn push_int(text: &mut String, v: i32)
    ensures
        final(text)@ == old(text)@ + int_text(v as int),
{
    if v < 0 {
        proof {
            reveal_strlit("-");
        }
        text.append("-");
        push_digits(text, (-(v as i64)) as u64);
        assert(text@ =~= old(text)@ + int_text(v as int));
    } else {
        push_digits(text, v as u64);
    }
}

/// Writes a cell as text.
pub fn key_text(cell: Cell) -> (text: String)
    ensures
        text@ == cell_text(cell),
{
    let mut text = String::new();
    push_int(&mut text, cell.0);
    proof {
        reveal_strlit(",");
    }
    text.append(",");
    push_int(&mut text, cell.1);
    assert(text@ =~= cell_text(cell));
    text
}

fn parse_int(text: &str, from: usize, to: usize) -> (r: Option<i32>)
    requires
        from <= to <= text@.len(),
    ensures
        r == text_int(text@.subrange(from as int, to as int)),
{
    let ghost s = text@.subrange(from as int, to as int);
    if from == to {
        return None;
    }
    let first = text.get_char(from);
    let negative = first == '-';
    let start: usize = if negative || first == '+' {
        from + 1
    } else {
        from
    };
    let ghost body = text@.subrange(start as int, to as int);
    proof {
        assert(s[0] == first);
        if negative || first == '+' {
            assert(s.subrange(1, s.len() as int) =~= body);
        } else {
            assert(s =~= body);
        }
    }
    if start == to {
        return None;
    }
    let limit: u64 = 0x8000_0000;
    let mut value: u64 = 0;
    let mut too_large = false;
    let mut i: usize = start;
    while i < to
        invariant
            start <= i <= to <= text@.len(),
            body == text@.subrange(start as int, to as int),
            s == text@.subrange(from as int, to as int),
            s.len() > 0,
            negative == (s[0] == '-'),
            body == (if negative || s[0] == '+' {
                s.subrange(1, s.len() as int)
            } else {
                s
            }),
            all_digits(body.take(i - start)),
            !too_large ==> value == digits_value(body.take(i - start)) && value <= limit,
            too_large ==> digits_value(body.take(i - start)) > limit,
            limit == 0x8000_0000,
        decreases to - i,
    {
        let c = text.get_char(i);
        let ghost seen = body.take(i - start);
        let ghost next = body.take(i - start + 1);
        proof {
            assert(body[i - start] == c);
            assert(next.drop_last() =~= seen);
            assert(next.last() == c);
        }
        if !(c >= '0' && c <= '9') {
            proof {
                assert(!is_digit(body[i - start]));
            }
            return None;
        }
        let d: u64 = (c as u32 - 48) as u64;
        proof {
            assert forall|j: int| 0 <= j < next.len() implies is_digit(#[trigger] next[j]) by {
                if j < seen.len() {
                    assert(next[j] == seen[j]);
                }
            }
            assert(digits_value(next) == digits_value(seen) * 10 + d);
        }
        if !too_large {
            value = value * 10 + d;
            if value > limit {
                too_large = true;
            }
        }
        i += 1;
    }
    proof {
        assert(body.take(to - start) =~= body);
    }
    if too_large {
        return None;
    }
    if negative {
        Some((-(value as i64)) as i32)
    } else if value < limit {
        Some(value as i32)
    } else {
        None
    }
}

/// Reads a cell from its text; `None` where the text is not that of a cell.
pub fn parse_key(key: &str) -> (r: Option<Cell>)
    ensures
        r == text_cell(key@),
{
    let n = key.unicode_len();
    let mut at: usize = 0;
    while at < n && key.get_char(at) != ','
        invariant
            at <= n == key@.len(),
            forall|j: int| 0 <= j < at ==> key@[j] != ',',
        decreases n - at,
    {
        at += 1;
    }
    proof {
        lemma_first_comma(key@, at as int);
    }
    if at == n {
        return None;
    }
    let x = match parse_int(key, 0, at) {
        Some(x) => x,
        None => {
            return None;
        },
    };
    match parse_int(key, at + 1, n) {
        Some(y) => Some((x, y)),
        None => None,
    }
}

} // verus!
