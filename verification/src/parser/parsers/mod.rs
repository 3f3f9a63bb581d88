pub mod body;
pub mod cascade;
pub mod loops;
pub mod math;
pub mod sentence;
pub mod variable;
pub mod word;

pub use body::parse_body;
pub use cascade::parse_if;
pub use loops::parse_while;
pub use math::{infix_to_postfix, is_arithmetic, parse_math};
pub use sentence::{command_of, parse_sentence};
pub use variable::parse_variable_assignment;
pub use word::parse_word;
