use vstd::prelude::*;
use crate::executor::evaluations::expression::execute_expression;
use crate::executor::host::{Halt, Session};
use crate::executor::scope::Scope;
use crate::executor::semantics::{outcome, state_of, text_result, State};
use crate::parser::ast::{nodes_view, Program};

verus! {

/// Why an evaluation fails.
#[derive(Debug, PartialEq, Eq, Clone, Copy, Structural)]
pub enum ExecutorError {
    /// A name is read or assigned that no scope in the chain has declared.
    NotFound,
    /// A name is declared that the current scope has declared already.
    Duplicate,
    /// An operand of arithmetic is neither an integer nor a float.
    NotNumeric,
    /// Arithmetic does not leave exactly one value, or an operator lacks an operand.
    Malformed,
    /// An operator that arithmetic does not know: `=` or `%`.
    Operator,
    /// The result of integer arithmetic does not fit in 64 bits.
    Overflow,
    /// The host could not resolve or run a command.
    Command,
    /// The host answered a request with an answer of another kind.
    Host,
    /// A loop went through as many iterations as the session allows.
    LoopLimit,
    /// An expression that has no value was to be evaluated or displayed.
    NotAValue,
}

/// Executes programs.
pub struct Executor;

impl Executor {
    /// Executes a program in a fresh scope, reading the host's answers
    /// from the start of the session. The result is what the program's
    /// last statement shows.
    ///
    /// Where the result is `Halt::Pending`, the host is to answer the
    /// request; with that answer at the end of `session.answers` the
    /// program is executed again.
    pub fn execute(program: &Program, session: &mut Session) -> (r: Result<String, Halt>)
        ensures
            final(session).host() == old(session).host(),
            text_result(r) == outcome(old(session).host(), program@).0,
            final(session).cursor == outcome(old(session).host(), program@).1.cursor,
    {
        session.cursor = 0;
        let mut scope = Scope::new();
        let mut res = String::new();
        let ghost h = session.host();
        let ghost st0 = state_of(scope, *session);
        let ghost nodes = nodes_view(program.ast@);
        let mut k: usize = 0;
        while k < program.ast.len()
            invariant
                0 <= k <= program.ast.len(),
                nodes == nodes_view(program.ast@),
                h == old(session).host(),
                session.host() == h,
                st0 == (State { chain: seq![Seq::empty()], cursor: 0 }),
                crate::executor::semantics::program(h, st0, nodes, 0, Seq::empty())
                    == crate::executor::semantics::program(
                    h,
                    state_of(scope, *session),
                    nodes,
                    k as int,
                    res@,
                ),
            decreases program.ast.len() - k,
        {
            proof {
                assert(nodes[k as int] == program.ast@[k as int]@);
            }
            match execute_expression(&mut scope, session, &program.ast[k]) {
                Ok(text) => {
                    res = text;
                },
                Err(halt) => {
                    return Err(halt);
                },
            }
            k += 1;
        }
        Ok(res)
    }
}

} // verus!
