use vstd::prelude::*;
use crate::executor::executor::ExecutorError;
use crate::parser::ast::Operator;
use crate::text::texts_view;

verus! {

/// A number as arithmetic takes it: an integer, or a float given by its
/// IEEE 754 binary64 bit pattern.
#[derive(Debug, PartialEq, Eq, Clone, Copy, Structural)]
pub enum Number {
    Int(i64),
    Float(u64),
}

/// What the evaluator cannot do itself and asks its host for. The host
/// answers each request once; see `Answer` for the answer that each expects.
#[derive(Debug, PartialEq, Eq, Clone)]
pub enum Request {
    /// Resolve the command `name` and run it with `args`.
    Run { name: String, args: Vec<String> },
    /// The float that the decimal literal `text` writes.
    Literal { text: String },
    /// The float that `op` gives on the two operands, an integer operand
    /// converted to a float first.
    Arithmetic { op: Operator, left: Number, right: Number },
    /// How the float with these bits is written.
    Display { bits: u64 },
}

/// The mathematical value of a request.
pub enum RequestView {
    Run { name: Seq<char>, args: Seq<Seq<char>> },
    Literal { text: Seq<char> },
    Arithmetic { op: Operator, left: Number, right: Number },
    Display { bits: u64 },
}

impl View for Request {
    type V = RequestView;

    open spec fn view(&self) -> RequestView {
        match self {
            Request::Run { name, args } => RequestView::Run { name: name@, args: texts_view(args@) },
            Request::Literal { text } => RequestView::Literal { text: text@ },
            Request::Arithmetic { op, left, right } => RequestView::Arithmetic {
                op: *op,
                left: *left,
                right: *right,
            },
            Request::Display { bits } => RequestView::Display { bits: *bits },
        }
    }
}

/// What the host hands back: a text for `Run` and `Display`, the bits of a
/// float for `Literal` and `Arithmetic`, or a failure.
#[derive(Debug, PartialEq, Eq, Clone)]
pub enum Answer {
    Text(String),
    Number(u64),
    Failure,
}

/// The mathematical value of an answer.
pub enum AnswerView {
    Text(Seq<char>),
    Number(u64),
    Failure,
}

impl View for Answer {
    type V = AnswerView;

    open spec fn view(&self) -> AnswerView {
        match self {
            Answer::Text(s) => AnswerView::Text(s@),
            Answer::Number(n) => AnswerView::Number(*n),
            Answer::Failure => AnswerView::Failure,
        }
    }
}

/// Why an evaluation stops without a value: it failed, or it needs an
/// answer that the session does not hold yet.
#[derive(Debug, PartialEq, Eq, Clone)]
pub enum Halt {
    Error(ExecutorError),
    Pending(Request),
}

/// The mathematical value of a halt.
pub enum HaltView {
    Error(ExecutorError),
    Pending(RequestView),
}

impl View for Halt {
    type V = HaltView;

    open spec fn view(&self) -> HaltView {
        match self {
            Halt::Error(e) => HaltView::Error(*e),
            Halt::Pending(r) => HaltView::Pending(r@),
        }
    }
}

/// The values of a list of answers.
pub open spec fn answers_view(answers: Seq<Answer>) -> Seq<AnswerView> {
    answers.map_values(|a: Answer| a@)
}

/// What the host has answered so far, how many of the answers the running
/// evaluation has used, and how many iterations a loop may take.
///
/// An evaluation is a function of the program and of this record. Where it
/// needs an answer that is not there it stops with the request; the caller
/// has the host answer it, puts the answer at the end of `answers` and
/// evaluates again from the start, with `cursor` at 0.
#[derive(Debug, PartialEq, Eq, Clone)]
pub struct Session {
    pub answers: Vec<Answer>,
    pub cursor: usize,
    pub limit: u64,
}

/// What stays the same while a session is used: the answers and the limit.
pub struct Host {
    pub answers: Seq<AnswerView>,
    pub limit: nat,
}

impl Session {
    /// A session without answers.
    pub fn new(limit: u64) -> (r: Session)
        ensures
            r.host() == (Host { answers: Seq::empty(), limit: limit as nat }),
            r.cursor == 0,
    {
        let r = Session { answers: Vec::new(), cursor: 0, limit };
        assert(answers_view(r.answers@) == Seq::<AnswerView>::empty());
        r
    }

    /// The answers and the limit of this session.
    pub open spec fn host(&self) -> Host {
        Host { answers: answers_view(self.answers@), limit: self.limit as nat }
    }

    /// Puts the next answer of the record into the hand of the evaluator,
    /// or stops with the request where the record has no more.
    pub fn ask(&mut self, request: Request) -> (r: Result<Answer, Halt>)
        ensures
            final(self).host() == old(self).host(),
            (match r {
                Ok(a) => Ok(a@),
                Err(h) => Err(h@),
            }, final(self).cursor as nat) == asked(
                old(self).host(),
                old(self).cursor as nat,
                request@,
            ),
    {
        if self.cursor < self.answers.len() {
            let a = match &self.answers[self.cursor] {
                Answer::Text(s) => Answer::Text(s.clone()),
                Answer::Number(n) => Answer::Number(*n),
                Answer::Failure => Answer::Failure,
            };
            self.cursor = self.cursor + 1;
            Ok(a)
        } else {
            Err(Halt::Pending(request))
        }
    }
}

/// The answer to the request that is made when `cursor` answers are used,
/// and the number of answers used after it.
pub open spec fn asked(h: Host, cursor: nat, request: RequestView) -> (
    Result<AnswerView, HaltView>,
    nat,
) {
    if cursor < h.answers.len() {
        (Ok(h.answers[cursor as int]), cursor + 1)
    } else {
        (Err(HaltView::Pending(request)), cursor)
    }
}

} // verus!
