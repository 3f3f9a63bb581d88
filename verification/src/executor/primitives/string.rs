use vstd::prelude::*;
use crate::parser::ast::Expr;

verus! {

/// A text value.
#[derive(Debug, Clone, PartialEq, Eq)]
pub struct StringPrimitive {
    pub value: String,
}

impl StringPrimitive {
    pub fn new(value: String) -> (r: Self)
        ensures
            r.value == value,
    {
        Self { value }
    }

    pub fn from_value_to_expr(value: String) -> (r: Expr)
        ensures
            r == Expr::String(StringPrimitive { value }),
    {
        Expr::String(Self { value })
    }

    /// The text itself.
    pub fn display(&self) -> (r: String)
        ensures
            r@ == self.value@,
    {
        self.value.clone()
    }
}

} // verus!
