use vstd::prelude::*;
use crate::parser::ast::Expr;

verus! {

/// A double-precision number as this library holds it. Verified code never
/// computes with such a number: it carries either the digits that the source
/// text wrote, or the bit pattern that the host handed back for a value.
#[derive(Debug, Clone, PartialEq, Eq)]
pub enum Decimal {
    /// A literal as written, underscores dropped: not converted yet.
    Written(String),
    /// The IEEE 754 binary64 bit pattern of a value.
    Bits(u64),
}

/// The mathematical value of a `Decimal`.
pub enum DecimalView {
    Written(Seq<char>),
    Bits(u64),
}

impl View for Decimal {
    type V = DecimalView;

    open spec fn view(&self) -> DecimalView {
        match self {
            Decimal::Written(s) => DecimalView::Written(s@),
            Decimal::Bits(b) => DecimalView::Bits(*b),
        }
    }
}

/// Whether the number with this bit pattern is zero, positive or negative:
/// all bits but the sign bit are clear.
pub open spec fn bits_are_zero(bits: u64) -> bool {
    bits == 0 || bits == 0x8000_0000_0000_0000u64
}

/// A floating-point value.
#[derive(Debug, Clone, PartialEq, Eq)]
pub struct FloatPrimitive {
    pub value: Decimal,
}

impl FloatPrimitive {
    /// The value with the given bit pattern.
    pub fn new(bits: u64) -> (r: Self)
        ensures
            r.value == Decimal::Bits(bits),
    {
        Self { value: Decimal::Bits(bits) }
    }

    /// The expression that holds the value with the given bit pattern.
    pub fn from_value_to_expr(bits: u64) -> (r: Expr)
        ensures
            r == Expr::Float(FloatPrimitive { value: Decimal::Bits(bits) }),
    {
        Expr::Float(Self { value: Decimal::Bits(bits) })
    }

    /// The expression that holds a literal as the source text wrote it.
    pub fn from_literal_to_expr(text: String) -> (r: Expr)
        ensures
            r == Expr::Float(FloatPrimitive { value: Decimal::Written(text) }),
    {
        Expr::Float(Self { value: Decimal::Written(text) })
    }

    /// Tells whether the value is a number other than zero. A literal that
    /// is not converted yet is not.
    pub fn is_nonzero(&self) -> (r: bool)
        ensures
            r == match self.value@ {
                DecimalView::Bits(b) => !bits_are_zero(b),
                DecimalView::Written(_) => false,
            },
    {
        match &self.value {
            Decimal::Bits(b) => *b != 0 && *b != 0x8000_0000_0000_0000u64,
            Decimal::Written(_) => false,
        }
    }
}

} // verus!
