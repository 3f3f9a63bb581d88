pub mod bool;
pub mod float;
pub mod integer;
pub mod string;

pub use self::bool::BoolPrimitive;
pub use self::float::{Decimal, DecimalView, FloatPrimitive};
pub use self::integer::IntPrimitive;
pub use self::string::StringPrimitive;
