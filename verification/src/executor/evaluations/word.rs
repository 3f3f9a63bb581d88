use vstd::prelude::*;
use crate::executor::evaluations::command::evaluate_command;
use crate::executor::host::{Halt, Session};
use crate::executor::primitives::StringPrimitive;
use crate::executor::scope::Scope;
use crate::executor::semantics::{value_result, word_value, State};
use crate::parser::ast::Expr;
use crate::text::texts_view;

verus! {

/// Evaluates a word: the value of the variable of that name, or, where
/// there is none, the output of the command of that name as a text.
pub fn evaluate_word(scope: &Scope, session: &mut Session, word: &String) -> (r: Result<Expr, Halt>)
    ensures
        final(session).host() == old(session).host(),
        (value_result(r), State { chain: scope@, cursor: final(session).cursor as nat })
            == word_value(
            old(session).host(),
            State { chain: scope@, cursor: old(session).cursor as nat },
            word@,
        ),
{
    match scope.lookup(word.clone()) {
        Some(var) => Ok(var.value),
        None => {
            let args: Vec<String> = Vec::new();
            proof {
                assert(texts_view(args@) == Seq::<Seq<char>>::empty());
            }
            match evaluate_command(session, word, &args) {
                Ok(s) => Ok(StringPrimitive::from_value_to_expr(s)),
                Err(halt) => Err(halt),
            }
        },
    }
}

} // verus!
