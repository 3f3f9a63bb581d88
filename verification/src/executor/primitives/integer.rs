use vstd::prelude::*;
use crate::parser::ast::Expr;
use crate::text::string_of;

verus! {

/// A 64-bit signed integer value.
#[derive(Debug, Clone, Copy, PartialEq, Eq, Structural)]
pub struct IntPrimitive {
    pub value: i64,
}

/// The character that writes the digit `d`.
pub open spec fn digit_char(d: nat) -> char {
    (('0' as u32) + d as u32) as char
}

/// How a natural number is written in base ten: no leading zero but for zero itself.
pub open spec fn decimal_digits(n: nat) -> Seq<char>
    decreases n,
{
    if n < 10 {
        seq![digit_char(n)]
    } else {
        decimal_digits(n / 10).push(digit_char(n % 10))
    }
}

/// How an integer is written in base ten, with `-` in front where it is negative.
pub open spec fn decimal_text(i: int) -> Seq<char> {
    if i < 0 {
        seq!['-'] + decimal_digits((-i) as nat)
    } else {
        decimal_digits(i as nat)
    }
}

/// The digits of `n` are those of `n / 10` and then its last digit.
proof fn lemma_decimal_digits_step(n: nat)
    requires
        n >= 10,
    ensures
        decimal_digits(n) == decimal_digits(n / 10).push(digit_char(n % 10)),
{
}

impl IntPrimitive {
    pub fn new(value: i64) -> (r: Self)
        ensures
            r.value == value,
    {
        Self { value }
    }

    pub fn from_value_to_expr(value: i64) -> (r: Expr)
        ensures
            r == Expr::Int(IntPrimitive { value }),
    {
        Expr::Int(Self { value })
    }

    /// The value written in base ten.
    pub fn display(&self) -> (r: String)
        ensures
            r@ == decimal_text(self.value as int),
    {
        let negative = self.value < 0;
        let mut rest: u64 = if negative {
            ((-(self.value + 1)) as u64) + 1
        } else {
            self.value as u64
        };
        let ghost magnitude = rest as nat;
        // The digits come out last one first.
        let mut reversed: Vec<char> = Vec::new();
        loop
            invariant_except_break
                decimal_digits(magnitude) == decimal_digits(rest as nat) + reversed@.reverse(),
            ensures
                decimal_digits(magnitude) == reversed@.reverse(),
            decreases rest,
        {
            let d = (rest % 10) as u8;
            let c = Self::digit(d);
            let ghost before = reversed@;
            if rest < 10 {
                reversed.push(c);
                proof {
                    assert(reversed@.reverse() == seq![c] + before.reverse());
                    assert(decimal_digits(rest as nat) == seq![c]);
                }
                break ;
            }
            proof {
                lemma_decimal_digits_step(rest as nat);
                assert(decimal_digits(rest as nat) + before.reverse() == decimal_digits(
                    (rest / 10) as nat,
                ) + (seq![c] + before.reverse()));
                assert(before.push(c).reverse() == seq![c] + before.reverse());
            }
            reversed.push(c);
            rest = rest / 10;
        }
        let mut text: Vec<char> = Vec::new();
        if negative {
            text.push('-');
        }
        let ghost sign = text@;
        let mut i: usize = reversed.len();
        while i > 0
            invariant
                0 <= i <= reversed.len(),
                text@ == sign + reversed@.reverse().take(reversed@.len() - i),
            decreases i,
        {
            i -= 1;
            let ghost before = text@;
            text.push(reversed[i]);
            proof {
                let r = reversed@.reverse();
                let k = reversed@.len() - i - 1;
                assert(r[k] == reversed@[i as int]);
                assert(r.take(k + 1) == r.take(k).push(r[k]));
                assert(sign + r.take(k).push(r[k]) == (sign + r.take(k)).push(r[k]));
            }
        }
        proof {
            let r = reversed@.reverse();
            assert(r.take(reversed@.len() as int) == r);
            assert(text@.subrange(0, text@.len() as int) == text@);
            if negative {
                assert(magnitude == -(self.value as int));
            }
        }
        string_of(&text, 0, text.len())
    }

    /// The character that writes the digit `d`.
    pub fn digit(d: u8) -> (r: char)
        requires
            d <= 9,
        ensures
            r == digit_char(d as nat),
    {
        if d == 0 {
            '0'
        } else if d == 1 {
            '1'
        } else if d == 2 {
            '2'
        } else if d == 3 {
            '3'
        } else if d == 4 {
            '4'
        } else if d == 5 {
            '5'
        } else if d == 6 {
            '6'
        } else if d == 7 {
            '7'
        } else if d == 8 {
            '8'
        } else {
            '9'
        }
    }
}

} // verus!
