pub mod evaluations;
pub mod executor;
pub mod host;
pub mod facts;
pub mod invariants;
pub mod primitives;
pub mod replay;
pub mod scope;
pub mod semantics;
pub mod utils;

pub use executor::{Executor, ExecutorError};
pub use host::{Answer, Halt, Number, Request, Session};
pub use scope::{Scope, Variable};
pub use utils::{expr_is_truthy, parse_operator_token};
