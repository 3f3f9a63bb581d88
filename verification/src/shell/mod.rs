pub mod shell;

pub use shell::{Failure, KeyAction, Shell, Submitted};
