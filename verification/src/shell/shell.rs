use vstd::prelude::*;
use crate::executor::executor::Executor;
use crate::executor::host::{Halt, HaltView, Host, Session};
use crate::executor::semantics::outcome;
use crate::lexer::lexer::{tokenize, Lexer, LexerError};
use crate::native::console::ReadEvent;
use crate::parser::grammar::statements;
use crate::parser::parser::{ParseError, Parser};
use crate::native::environment::{assignments, assignments_view, get_environment, Environment};
use crate::text::{
    chars_of,
    glyphs_of,
    glyphs_of_chars,
    string_from,
    text_between,
    texts_view,
    trim_back,
    trim_back_of,
    trim_front,
    trim_front_of,
    values,
    Glyph,
};

verus! {

/// What the shell shows in its prompt.
#[derive(Debug, Clone, PartialEq, Eq)]
pub struct Shell {
    pub directory: String,
    pub user: String,
    pub system: String,
}

/// Why an input gives no result: it is no sequence of tokens, its tokens
/// are no program, or the program stops.
#[derive(Debug, PartialEq, Eq, Clone)]
pub enum Failure {
    Lexing(LexerError),
    Parsing(ParseError),
    Execution(Halt),
}

/// The mathematical value of a failure.
pub enum FailureView {
    Lexing(LexerError),
    Parsing(ParseError),
    Execution(HaltView),
}

impl View for Failure {
    type V = FailureView;

    open spec fn view(&self) -> FailureView {
        match self {
            Failure::Lexing(e) => FailureView::Lexing(*e),
            Failure::Parsing(e) => FailureView::Parsing(*e),
            Failure::Execution(h) => FailureView::Execution(h@),
        }
    }
}

/// What an input shows: its text is tokenized, the tokens are parsed, and
/// the program is executed in a fresh scope with the answers of `h`.
pub open spec fn interpreted(h: Host, input: Seq<char>) -> Result<Seq<char>, FailureView> {
    match tokenize(input) {
        Err(e) => Err(FailureView::Lexing(e)),
        Ok(tokens) => match statements(tokens) {
            Err(e) => Err(FailureView::Parsing(e)),
            Ok(nodes) => match outcome(h, nodes).0 {
                Ok(text) => Ok(text),
                Err(halt) => Err(FailureView::Execution(halt)),
            },
        },
    }
}

/// What a key does to the line that is being typed.
#[derive(Debug, PartialEq, Eq, Clone, Copy, Structural)]
pub enum KeyAction {
    /// Nothing.
    Ignore,
    /// A line break went into the line.
    LineBreak,
    /// The line is complete.
    Submit,
    /// The text of the clipboard is wanted: see `Shell::paste`.
    Paste,
    /// The shell ends.
    Exit,
    /// The line is given up.
    Cancel,
    /// Escape was pressed.
    Escape,
    /// The last character left the line.
    Erase,
    /// A character went into the line.
    Insert(char),
}

/// What a complete line asks for.
#[derive(Debug, PartialEq, Eq, Clone)]
pub enum Submitted {
    /// The line is `exit`.
    Exit,
    /// The line holds white space only.
    Empty,
    /// The line is to be executed.
    Run(String),
}

/// The mathematical value of what a line asks for.
pub enum SubmittedView {
    Exit,
    Empty,
    Run(Seq<char>),
}

impl View for Submitted {
    type V = SubmittedView;

    open spec fn view(&self) -> SubmittedView {
        match self {
            Submitted::Exit => SubmittedView::Exit,
            Submitted::Empty => SubmittedView::Empty,
            Submitted::Run(s) => SubmittedView::Run(s@),
        }
    }
}

/// The virtual key codes that the line editor knows.
pub const KEY_ENTER: u16 = 0x0D;

pub const KEY_PASTE: u16 = 0x16;

pub const KEY_D: u16 = 0x44;

pub const KEY_CANCEL: u16 = 0x03;

pub const KEY_ESCAPE: u16 = 0x1b;

pub const KEY_BACKSPACE: u16 = 0x08;

/// The line after a key, and what the key did. Enter completes the line,
/// with shift it breaks it; control and V asks for the clipboard; control
/// and D ends the shell; the cancel key gives the line up; backspace takes
/// the last character away; any other key puts its character at the end.
pub open spec fn key_step(line: Seq<char>, event: ReadEvent) -> (Seq<char>, KeyAction) {
    if event.virtual_key == 0 {
        (line, KeyAction::Ignore)
    } else if event.virtual_key == KEY_ENTER {
        if event.shift_pressed {
            (line + seq!['\r', '\n'], KeyAction::LineBreak)
        } else {
            (line, KeyAction::Submit)
        }
    } else if event.virtual_key == KEY_PASTE && event.ctrl_pressed {
        (line, KeyAction::Paste)
    } else if event.virtual_key == KEY_D && event.ctrl_pressed {
        (line, KeyAction::Exit)
    } else if event.virtual_key == KEY_CANCEL {
        (line, KeyAction::Cancel)
    } else if event.virtual_key == KEY_ESCAPE {
        (line, KeyAction::Escape)
    } else if event.virtual_key == KEY_BACKSPACE {
        if line.len() > 0 {
            (line.drop_last(), KeyAction::Erase)
        } else {
            (line, KeyAction::Ignore)
        }
    } else {
        match event.character {
            Some(c) => (line.push(c), KeyAction::Insert(c)),
            None => (line, KeyAction::Ignore),
        }
    }
}

/// What a complete line, given by the glyphs of its characters, asks
/// for once the white space around it is cut off.
pub open spec fn submitted_line(line: Seq<Glyph>) -> SubmittedView {
    let start = trim_front(line, 0, line.len() as int);
    let end = trim_back(line, start, line.len() as int);
    let text = values(line.subrange(start, end));
    if text == seq!['e', 'x', 'i', 't'] {
        SubmittedView::Exit
    } else if text.len() == 0 {
        SubmittedView::Empty
    } else {
        SubmittedView::Run(text)
    }
}

/// What a complete line asks for, each character classified by std's
/// Unicode tables.
pub open spec fn submitted(line: Seq<char>) -> SubmittedView {
    submitted_line(glyphs_of(line))
}

impl Shell {
    /// The shell of this user on this system in this directory.
    pub fn new(directory: String, user: String, system: String) -> (r: Self)
        ensures
            r == (Shell { directory, user, system }),
    {
        Self { directory, user, system }
    }

    /// The environment that the shell runs commands in: the variables of
    /// the process, and `echo` as the shell's own command.
    pub fn get_env(lines: Vec<String>, directory: String) -> (r: Environment)
        ensures
            assignments_view(r.inner@) == assignments(texts_view(lines@)),
            r.directory == directory,
            texts_view(r.cmds@) == seq![seq!['e', 'c', 'h', 'o']],
    {
        let mut env = get_environment(lines, directory);
        let echo = string_from(&vec!['e', 'c', 'h', 'o']);
        env.cmds = vec![echo];
        proof {
            assert(texts_view(env.cmds@) == seq![seq!['e', 'c', 'h', 'o']]);
        }
        env
    }

    /// Tokenizes, parses and executes an input with the answers of the
    /// session. No part of a program is executed unless all of the input
    /// is a program.
    pub fn exec(input: &str, session: &mut Session) -> (r: Result<String, Failure>)
        ensures
            final(session).host() == old(session).host(),
            match r {
                Ok(text) => interpreted(old(session).host(), input@) == Ok::<_, FailureView>(text@),
                Err(e) => interpreted(old(session).host(), input@) == Err::<Seq<char>, _>(e@),
            },
    {
        let tokens = match Lexer::parse(input) {
            Ok(t) => t,
            Err(e) => {
                return Err(Failure::Lexing(e));
            },
        };
        let program = match Parser::parse(tokens) {
            Ok(p) => p,
            Err(e) => {
                return Err(Failure::Parsing(e));
            },
        };
        match Executor::execute(&program, session) {
            Ok(text) => Ok(text),
            Err(halt) => Err(Failure::Execution(halt)),
        }
    }

    /// Takes a key into the line that is being typed.
    pub fn key(line: &mut Vec<char>, event: &ReadEvent) -> (r: KeyAction)
        ensures
            (final(line)@, r) == key_step(old(line)@, *event),
    {
        if event.virtual_key == 0 {
            KeyAction::Ignore
        } else if event.virtual_key == KEY_ENTER {
            if event.shift_pressed {
                line.push('\r');
                line.push('\n');
                proof {
                    assert(line@ == old(line)@ + seq!['\r', '\n']);
                }
                KeyAction::LineBreak
            } else {
                KeyAction::Submit
            }
        } else if event.virtual_key == KEY_PASTE && event.ctrl_pressed {
            KeyAction::Paste
        } else if event.virtual_key == KEY_D && event.ctrl_pressed {
            KeyAction::Exit
        } else if event.virtual_key == KEY_CANCEL {
            KeyAction::Cancel
        } else if event.virtual_key == KEY_ESCAPE {
            KeyAction::Escape
        } else if event.virtual_key == KEY_BACKSPACE {
            if line.len() > 0 {
                line.pop();
                KeyAction::Erase
            } else {
                KeyAction::Ignore
            }
        } else {
            match event.character {
                Some(c) => {
                    line.push(c);
                    KeyAction::Insert(c)
                },
                None => KeyAction::Ignore,
            }
        }
    }

    /// Puts the text of the clipboard at the end of the line.
    pub fn paste(line: &mut Vec<char>, text: &str)
        ensures
            final(line)@ == old(line)@ + text@,
    {
        let mut chars = chars_of(text);
        line.append(&mut chars);
    }

    /// Tells what a complete line asks for.
    pub fn submit(line: &Vec<char>) -> (r: Submitted)
        ensures
            r@ == submitted(line@),
    {
        let classified = glyphs_of_chars(line);
        Self::submit_line(&classified)
    }

    /// Tells what a complete line, given by the glyphs of its characters,
    /// asks for.
    pub fn submit_line(line: &Vec<Glyph>) -> (r: Submitted)
        ensures
            r@ == submitted_line(line@),
    {
        let start = trim_front_of(line, 0, line.len());
        let end = trim_back_of(line, start, line.len());
        let ghost text = values(line@.subrange(start as int, end as int));
        proof {
            assert(text.len() == end - start);
            assert forall|k: int| 0 <= k < text.len() implies text[k] == line@[start + k].value by {}
        }
        if end - start == 4 && line[start].value == 'e' && line[start + 1].value == 'x'
            && line[start + 2].value == 'i' && line[start + 3].value == 't' {
            proof {
                assert(text == seq!['e', 'x', 'i', 't']);
            }
            Submitted::Exit
        } else if end == start {
            Submitted::Empty
        } else {
            proof {
                if text == seq!['e', 'x', 'i', 't'] {
                    assert(text[0] == 'e' && text[1] == 'x' && text[2] == 'i' && text[3] == 't');
                }
            }
            Submitted::Run(text_between(line, start, end))
        }
    }
}

} // verus!
