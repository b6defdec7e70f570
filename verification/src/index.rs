use vstd::prelude::*;
use vstd::string::StrSliceExecFns;

use crate::error::{ExtractError, ExtractErrorView};

verus! {

/// Whether `c` is an ASCII decimal digit.
pub open spec fn is_digit(c: char) -> bool {
    '0' <= c && c <= '9'
}

/// The value of a decimal digit.
pub open spec fn digit_value(c: char) -> int {
    c as int - '0' as int
}

/// Whether every character of `s` is a decimal digit.
pub open spec fn all_digits(s: Seq<char>) -> bool {
    forall|i: int| 0 <= i < s.len() ==> is_digit(#[trigger] s[i])
}

/// The number that the decimal digits `digits` write, most significant first.
pub open spec fn decimal_value(digits: Seq<char>) -> int
    decreases digits.len(),
{
    if digits.len() == 0 {
        0
    } else {
        decimal_value(digits.drop_last()) * 10 + digit_value(digits.last())
    }
}

/// The digits of an unsigned number's text: after a leading `+`, if one
/// stands before more text.
pub open spec fn unsigned_digits(text: Seq<char>) -> Seq<char> {
    if text.len() > 1 && text[0] == '+' {
        text.skip(1)
    } else {
        text
    }
}

/// The `usize` that `text` writes in decimal, as `usize::from_str` reads it:
/// an optional `+`, then at least one digit, and a value that fits.
pub open spec fn parsed_usize(text: Seq<char>) -> Option<int> {
    let d = unsigned_digits(text);
    if d.len() > 0 && all_digits(d) && decimal_value(d) <= usize::MAX {
        Some(decimal_value(d))
    } else {
        None
    }
}

/// The value of digits never falls when more digits follow.
proof fn lemma_decimal_value_grows(s: Seq<char>, k: int)
    requires
        all_digits(s),
        0 <= k <= s.len(),
    ensures
        0 <= decimal_value(s.take(k)) <= decimal_value(s),
    decreases s.len(),
{
    if s.len() > 0 {
        let t = s.drop_last();
        assert(all_digits(t)) by {
            assert forall|i: int| 0 <= i < t.len() implies is_digit(#[trigger] t[i]) by {
                assert(t[i] == s[i]);
            }
        }
        assert(is_digit(s[s.len() - 1]));
        if k < s.len() {
            lemma_decimal_value_grows(t, k);
            assert(t.take(k) =~= s.take(k));
        } else {
            lemma_decimal_value_grows(t, t.len() as int);
            assert(s.take(k) =~= s);
        }
        assert(t.take(t.len() as int) =~= t);
    } else {
        assert(s.take(k) =~= s);
    }
}

/// Reads the text of an index literal as a 0-based block index; an error
/// where it does not write a `usize` in decimal.
pub fn code_block_index(literal: &str) -> (r: Result<usize, ExtractError>)
    ensures
        match r {
            Ok(k) => parsed_usize(literal@) == Some(k as int),
            Err(e) => parsed_usize(literal@) is None && e@ == ExtractErrorView::InvalidIndex(
                literal@,
            ),
        },
{
    let len = literal.unicode_len();
    let start: usize = if len > 1 && literal.get_char(0) == '+' {
        1
    } else {
        0
    };
    let ghost d = literal@.skip(start as int);
    assert(d == unsigned_digits(literal@));
    if len == 0 {
        return Err(ExtractError::InvalidIndex { literal: literal.to_owned() });
    }
    let mut value: usize = 0;
    let mut i: usize = start;
    while i < len
        invariant
            len == literal@.len(),
            start <= i <= len,
            start <= 1,
            d == literal@.skip(start as int),
            d == unsigned_digits(literal@),
            d.len() == len - start,
            all_digits(d.take(i - start)),
            value == decimal_value(d.take(i - start)),
        decreases len - i,
    {
        let c = literal.get_char(i);
        let ghost j = i - start;
        assert(d[j] == c);
        assert(d.take(j + 1).drop_last() =~= d.take(j));
        if !('0' <= c && c <= '9') {
            assert(!all_digits(d));
            return Err(ExtractError::InvalidIndex { literal: literal.to_owned() });
        }
        let digit = (c as u32 - '0' as u32) as usize;
        assert(all_digits(d.take(j + 1))) by {
            assert forall|m: int| 0 <= m < j + 1 implies is_digit(#[trigger] d.take(j + 1)[m]) by {
                if m < j {
                    assert(d.take(j + 1)[m] == d.take(j)[m]);
                }
            }
        }
        let next = match value.checked_mul(10) {
            Some(v) => v.checked_add(digit),
            None => None,
        };
        match next {
            Some(v) => {
                value = v;
            },
            None => {
                proof {
                    if all_digits(d) {
                        lemma_decimal_value_grows(d, j + 1);
                    }
                }
                return Err(ExtractError::InvalidIndex { literal: literal.to_owned() });
            },
        }
        i = i + 1;
    }
    assert(d.take(len - start) =~= d);
    if len - start == 0 {
        return Err(ExtractError::InvalidIndex { literal: literal.to_owned() });
    }
    Ok(value)
}

} // verus!
