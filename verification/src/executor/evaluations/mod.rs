pub mod command;
pub mod expression;
pub mod if_statement;
pub mod mathop;
pub mod variables;
pub mod while_statement;
pub mod word;

pub use command::evaluate_command;
pub use expression::{
    evaluate_body,
    evaluate_expression,
    evaluate_statement,
    evaluate_till_primitive,
    execute_expression,
};
pub use if_statement::evaluate_if;
pub use mathop::evaluate_math;
pub use variables::{evaluate_variable_assignment, evaluate_variable_declaration};
pub use while_statement::evaluate_while;
pub use word::evaluate_word;
