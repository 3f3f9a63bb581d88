use vstd::prelude::*;
use crate::parser::ast::Expr;
use crate::text::string_of;

verus! {

/// A truth value.
#[derive(Debug, Clone, Copy, PartialEq, Eq, Structural)]
pub struct BoolPrimitive {
    pub value: bool,
}

/// How a truth value is written.
pub open spec fn bool_text(b: bool) -> Seq<char> {
    if b {
        seq!['t', 'r', 'u', 'e']
    } else {
        seq!['f', 'a', 'l', 's', 'e']
    }
}

impl BoolPrimitive {
    pub fn new(value: bool) -> (r: Self)
        ensures
            r.value == value,
    {
        Self { value }
    }

    pub fn from_value_to_expr(value: bool) -> (r: Expr)
        ensures
            r == Expr::Bool(BoolPrimitive { value }),
    {
        Expr::Bool(Self { value })
    }

    /// `true` or `false`, written out.
    pub fn display(&self) -> (r: String)
        ensures
            r@ == bool_text(self.value),
    {
        let text: Vec<char> = if self.value {
            vec!['t', 'r', 'u', 'e']
        } else {
            vec!['f', 'a', 'l', 's', 'e']
        };
        assert(text@.subrange(0, text@.len() as int) == text@);
        string_of(&text, 0, text.len())
    }
}

} // verus!
