use vstd::prelude::*;
use crate::executor::executor::ExecutorError;
use crate::executor::host::{Answer, Halt, Request, Session};
use crate::executor::semantics::{float_from, ran, shown, text_result};
use crate::text::{copy_texts, texts_view};

verus! {

/// Has the host resolve the command `name` and run it with `args`; the
/// result is what the command put out.
pub fn evaluate_command(session: &mut Session, name: &String, args: &Vec<String>) -> (r: Result<
    String,
    Halt,
>)
    ensures
        final(session).host() == old(session).host(),
        (text_result(r), final(session).cursor as nat) == ran(
            old(session).host(),
            old(session).cursor as nat,
            name@,
            texts_view(args@),
        ),
{
    match session.ask(Request::Run { name: name.clone(), args: copy_texts(args) }) {
        Ok(Answer::Text(s)) => Ok(s),
        Ok(Answer::Failure) => Err(Halt::Error(ExecutorError::Command)),
        Ok(Answer::Number(_)) => Err(Halt::Error(ExecutorError::Host)),
        Err(halt) => Err(halt),
    }
}

/// Has the host answer a request for a float.
pub fn request_float(session: &mut Session, request: Request) -> (r: Result<u64, Halt>)
    ensures
        final(session).host() == old(session).host(),
        (match r {
            Ok(bits) => Ok(bits),
            Err(halt) => Err(halt@),
        }, final(session).cursor as nat) == float_from(
            old(session).host(),
            old(session).cursor as nat,
            request@,
        ),
{
    match session.ask(request) {
        Ok(Answer::Number(bits)) => Ok(bits),
        Ok(_) => Err(Halt::Error(ExecutorError::Host)),
        Err(halt) => Err(halt),
    }
}

/// Has the host write the float with the given bits.
pub fn request_display(session: &mut Session, bits: u64) -> (r: Result<String, Halt>)
    ensures
        final(session).host() == old(session).host(),
        (text_result(r), final(session).cursor as nat) == shown(
            old(session).host(),
            old(session).cursor as nat,
            bits,
        ),
{
    match session.ask(Request::Display { bits }) {
        Ok(Answer::Text(s)) => Ok(s),
        Ok(_) => Err(Halt::Error(ExecutorError::Host)),
        Err(halt) => Err(halt),
    }
}

} // verus!
