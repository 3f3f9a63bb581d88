use vstd::prelude::*;

verus! {

/// Whether a character is a decimal digit.
pub open spec fn is_digit(c: char) -> bool {
    '0' <= c <= '9'
}

/// The number that the digit `c` stands for.
pub open spec fn digit_value(c: char) -> nat {
    (c as u32 - '0' as u32) as nat
}

/// Whether every character is a decimal digit.
pub open spec fn all_digits(s: Seq<char>) -> bool {
    forall|i: int| 0 <= i < s.len() ==> is_digit(#[trigger] s[i])
}

/// The number that a sequence of digits writes in base ten.
pub open spec fn decimal_value(s: Seq<char>) -> nat
    decreases s.len(),
{
    if s.len() == 0 {
        0
    } else {
        decimal_value(s.drop_last()) * 10 + digit_value(s.last())
    }
}

/// The value of an integer literal: one digit or more, no sign, and no more
/// than the largest 64-bit signed integer.
pub open spec fn int_literal(s: Seq<char>) -> Option<i64> {
    if s.len() > 0 && all_digits(s) && decimal_value(s) <= i64::MAX {
        Some(decimal_value(s) as i64)
    } else {
        None
    }
}

/// The first index at or after `i` that holds no digit.
pub open spec fn digits_end(s: Seq<char>, i: int) -> int
    decreases s.len() - i,
{
    if 0 <= i < s.len() && is_digit(s[i]) {
        digits_end(s, i + 1)
    } else {
        i
    }
}

/// Whether `s` is a decimal literal: digits around one point, at least one
/// digit in all, then optionally `e` or `E` and one digit or more.
pub open spec fn float_literal(s: Seq<char>) -> bool {
    let point = digits_end(s, 0);
    let end = digits_end(s, point + 1);
    &&& point < s.len()
    &&& s[point] == '.'
    &&& (point > 0 || end > point + 1)
    &&& (end == s.len() || {
        &&& (s[end] == 'e' || s[end] == 'E')
        &&& end + 1 < s.len()
        &&& digits_end(s, end + 1) == s.len()
    })
}

/// `s` without its underscores.
pub open spec fn without_underscores(s: Seq<char>) -> Seq<char>
    decreases s.len(),
{
    if s.len() == 0 {
        s
    } else if s.last() == '_' {
        without_underscores(s.drop_last())
    } else {
        without_underscores(s.drop_last()).push(s.last())
    }
}

/// The digits that begin at `i` end at or after `i` and within `s`.
pub proof fn lemma_digits_end_bounds(s: Seq<char>, i: int)
    requires
        0 <= i <= s.len(),
    ensures
        i <= digits_end(s, i) <= s.len(),
    decreases s.len() - i,
{
    if i < s.len() && is_digit(s[i]) {
        lemma_digits_end_bounds(s, i + 1);
    }
}

/// A longer sequence of digits writes a number that is no smaller.
pub proof fn lemma_decimal_value_grows(s: Seq<char>, k: int)
    requires
        0 <= k <= s.len(),
    ensures
        decimal_value(s.take(k)) <= decimal_value(s),
    decreases s.len() - k,
{
    if k == s.len() {
        assert(s.take(k) == s);
    } else {
        lemma_decimal_value_grows(s, k + 1);
        assert(s.take(k + 1).drop_last() == s.take(k));
    }
}

/// The number that the digit `c` stands for, if `c` is a digit.
pub fn digit_of(c: char) -> (r: Option<u8>)
    ensures
        r is Some <==> is_digit(c),
        r is Some ==> r->0 == digit_value(c) && r->0 <= 9,
{
    if c >= '0' && c <= '9' {
        Some((c as u32 - '0' as u32) as u8)
    } else {
        None
    }
}

/// Reads an integer literal.
pub fn parse_int(text: &Vec<char>) -> (r: Option<i64>)
    ensures
        r == int_literal(text@),
{
    if text.len() == 0 {
        return None;
    }
    let mut acc: i64 = 0;
    let mut i: usize = 0;
    while i < text.len()
        invariant
            0 <= i <= text.len(),
            all_digits(text@.take(i as int)),
            acc == decimal_value(text@.take(i as int)),
        decreases text.len() - i,
    {
        let ghost before = text@.take(i as int);
        let ghost after = text@.take(i + 1);
        proof {
            assert(after.drop_last() == before);
            assert(after.last() == text@[i as int]);
        }
        match digit_of(text[i]) {
            None => {
                assert(!all_digits(text@));
                return None;
            },
            Some(d) => {
                if acc > (i64::MAX - d as i64) / 10 {
                    proof {
                        lemma_decimal_value_grows(text@, i + 1);
                    }
                    return None;
                }
                acc = acc * 10 + d as i64;
                assert forall|k: int| 0 <= k < after.len() implies is_digit(#[trigger] after[k]) by {
                    if k < i {
                        assert(after[k] == before[k]);
                    }
                }
            },
        }
        i += 1;
    }
    assert(text@.take(i as int) == text@);
    Some(acc)
}

/// Tells whether `text` is a decimal literal.
pub fn is_float_literal(text: &Vec<char>) -> (r: bool)
    ensures
        r == float_literal(text@),
{
    let point = skip_digits(text, 0);
    if point >= text.len() || text[point] != '.' {
        return false;
    }
    let end = skip_digits(text, point + 1);
    if point == 0 && end == point + 1 {
        return false;
    }
    if end == text.len() {
        return true;
    }
    if text[end] != 'e' && text[end] != 'E' {
        return false;
    }
    if end + 1 >= text.len() {
        return false;
    }
    skip_digits(text, end + 1) == text.len()
}

/// The first index at or after `from` that holds no digit.
pub fn skip_digits(text: &Vec<char>, from: usize) -> (r: usize)
    requires
        from <= text.len(),
    ensures
        r == digits_end(text@, from as int),
        from <= r <= text.len(),
{
    let mut i: usize = from;
    while i < text.len() && digit_of(text[i]).is_some()
        invariant
            from <= i <= text.len(),
            digits_end(text@, from as int) == digits_end(text@, i as int),
        decreases text.len() - i,
    {
        i += 1;
    }
    i
}

} // verus!
