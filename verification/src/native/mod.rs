pub mod console;
pub mod environment;

pub use console::{
    ConsoleError,
    ConsoleReadError,
    CreateError,
    InputError,
    RawCreateError,
    ReadError,
    ReadEvent,
    INPUT_RECORD,
    KEY_EVENT_RECORD,
};
pub use environment::{get_environment, Assignment, Candidate, Environment, Resolution};
