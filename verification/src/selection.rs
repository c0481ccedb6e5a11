//! Reading a selection: the line in which a user names one of the backends
//! on offer by its number, counted from one.

use crate::error::{EngineError, ErrorView};
use vstd::prelude::*;

verus! {

/// The value of a decimal digit.
pub open spec fn digit(c: char) -> Option<nat> {
    if c == '0' {
        Some(0)
    } else if c == '1' {
        Some(1)
    } else if c == '2' {
        Some(2)
    } else if c == '3' {
        Some(3)
    } else if c == '4' {
        Some(4)
    } else if c == '5' {
        Some(5)
    } else if c == '6' {
        Some(6)
    } else if c == '7' {
        Some(7)
    } else if c == '8' {
        Some(8)
    } else if c == '9' {
        Some(9)
    } else {
        None
    }
}

/// The number that a text of decimal digits, and of at least one, stands
/// for.
pub open spec fn decimal(digits: Seq<char>) -> Option<nat>
    decreases digits.len(),
{
    if digits.len() == 0 {
        None
    } else if digits.len() == 1 {
        digit(digits[0])
    } else {
        match (decimal(digits.drop_last()), digit(digits.last())) {
            (Some(high), Some(low)) => Some(high * 10 + low),
            _ => None,
        }
    }
}

/// The number that a text stands for: decimal digits, which a plus sign
/// may precede.
pub open spec fn number(text: Seq<char>) -> Option<nat> {
    if text.len() > 0 && text[0] == '+' {
        decimal(text.drop_first())
    } else {
        decimal(text)
    }
}

/// The position, counted from zero, of the backend that a number names
/// among `count` backends, counted from one.
pub open spec fn pick(named: Option<nat>, count: nat) -> Result<nat, ErrorView> {
    match named {
        Some(n) => if 1 <= n <= count {
            Ok((n - 1) as nat)
        } else {
            Err(ErrorView::AmbiguousOrInvalidSelection)
        },
        None => Err(ErrorView::AmbiguousOrInvalidSelection),
    }
}

/// The position, counted from zero, that a line selects among `count`
/// backends. The last character of the line, its terminator, does not
/// count; what stands before it is the number of the backend, counted from
/// one.
pub open spec fn choice_spec(line: Seq<char>, count: nat) -> Result<nat, ErrorView> {
    let typed = if line.len() > 0 {
        line.drop_last()
    } else {
        line
    };
    pick(number(typed), count)
}

/// A text of digits stands for a number that is at least the number that
/// any beginning of it stands for; and if a beginning stands for no number,
/// neither does the text.
pub proof fn lemma_decimal_grows(digits: Seq<char>, k: int)
    requires
        1 <= k <= digits.len(),
    ensures
        decimal(digits) matches Some(n) ==> (decimal(digits.take(k)) matches Some(m) && m <= n),
    decreases digits.len(),
{
    if k == digits.len() {
        assert(digits.take(k) =~= digits);
    } else {
        lemma_decimal_grows(digits.drop_last(), k);
        assert(digits.drop_last().take(k) =~= digits.take(k));
    }
}

fn digit_of(c: char) -> (r: Option<u8>)
    ensures
        match r {
            Some(d) => digit(c) == Some(d as nat) && d <= 9,
            None => digit(c) is None,
        },
{
    match c {
        '0' => Some(0),
        '1' => Some(1),
        '2' => Some(2),
        '3' => Some(3),
        '4' => Some(4),
        '5' => Some(5),
        '6' => Some(6),
        '7' => Some(7),
        '8' => Some(8),
        '9' => Some(9),
        _ => None,
    }
}

/// The position, counted from zero, that a line selects among `count`
/// backends. A line that names no number, and a number that names none of
/// the backends, are refused.
pub fn parse_choice(line: &str, count: usize) -> (r: Result<usize, EngineError>)
    ensures
        match r {
            Ok(index) => choice_spec(line@, count as nat) == Ok::<nat, ErrorView>(index as nat),
            Err(e) => choice_spec(line@, count as nat) == Err::<nat, ErrorView>(e@),
        },
{
    let length = line.unicode_len();
    let end = if length > 0 {
        length - 1
    } else {
        0
    };
    let ghost typed = if line@.len() > 0 {
        line@.drop_last()
    } else {
        line@
    };
    let start: usize = if end > 0 && line.get_char(0) == '+' {
        1
    } else {
        0
    };
    let ghost digits = if start == 1 {
        typed.drop_first()
    } else {
        typed
    };
    if start >= end {
        return Err(EngineError::AmbiguousOrInvalidSelection);
    }
    let mut value: usize = 0;
    let mut at: usize = start;
    while at < end
        invariant
            start <= at <= end <= line@.len(),
            digits == line@.subrange(start as int, end as int),
            choice_spec(line@, count as nat) == pick(decimal(digits), count as nat),
            value <= count,
            at > start ==> decimal(digits.take(at - start)) == Some(value as nat),
            at == start ==> value == 0,
        decreases end - at,
    {
        let c = line.get_char(at);
        let ghost seen = digits.take(at - start + 1);
        assert(seen.drop_last() =~= digits.take(at - start));
        proof {
            lemma_decimal_grows(digits, at - start + 1);
        }
        match digit_of(c) {
            None => {
                return Err(EngineError::AmbiguousOrInvalidSelection);
            },
            Some(d) => {
                let next: u128 = (value as u128) * 10 + (d as u128);
                if next > count as u128 {
                    return Err(EngineError::AmbiguousOrInvalidSelection);
                }
                value = next as usize;
            },
        }
        at = at + 1;
    }
    assert(digits.take(end - start) =~= digits);
    if value >= 1 {
        Ok(value - 1)
    } else {
        Err(EngineError::AmbiguousOrInvalidSelection)
    }
}

} // verus!
