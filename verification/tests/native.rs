use shellcore::native::console::{
    build_keyboard_state_from_flags_only, console_error, decode, raw_mode, read_error,
};
use shellcore::executor::{Answer, ExecutorError, Halt, Request, Session};
use shellcore::lexer::LexerError;
use shellcore::native::{
    get_environment, Candidate, ConsoleError, ConsoleReadError, CreateError, Environment, RawCreateError,
    ReadError, ReadEvent, Resolution, INPUT_RECORD, KEY_EVENT_RECORD,
};
use shellcore::parser::ParseError;
use shellcore::shell::{Failure, KeyAction, Shell, Submitted};

fn lines(items: &[&str]) -> Vec<String> {
    items.iter().map(|s| String::from(*s)).collect()
}

fn place(directory: &str, file: &str) -> Candidate {
    Candidate { directory: String::from(directory), file: String::from(file) }
}

#[test]
fn environment_lines_are_split() {
    let env = get_environment(lines(&["Path=C:\\a;C:\\b", "EMPTY=", "noequal", "A=1", "A=2;3", "=C:=x"]), String::from("D:\\w"));
    assert_eq!(env.var(String::from("Path")), Some(&lines(&["C:\\a", "C:\\b"])));
    assert_eq!(env.var(String::from("EMPTY")), Some(&lines(&[""])));
    assert_eq!(env.var(String::from("A")), Some(&lines(&["2", "3"])));
    assert_eq!(env.var(String::from("")), Some(&lines(&["C:=x"])));
    assert_eq!(env.var(String::from("noequal")), None);
    assert_eq!(env.directory, "D:\\w");
    assert_eq!(env.inner.len(), 5);
}

#[test]
fn executables_are_looked_for_here_and_then_on_the_path() {
    let env = Environment::from(lines(&["Path=C:\\a;C:\\b", "PATHEXT=.EXE;.BAT"]), String::from("D:\\w"));
    let name = String::from("tool");
    assert_eq!(
        env.candidates(&name),
        vec![
            place("D:\\w", "tool..EXE"),
            place("D:\\w", "tool..BAT"),
            place("C:\\a", "tool.EXE"),
            place("C:\\a", "tool.BAT"),
            place("C:\\b", "tool.EXE"),
            place("C:\\b", "tool.BAT"),
        ]
    );
    assert_eq!(
        env.find_executable(name.clone(), &vec![false, false, false, true, true, false]),
        Some(place("C:\\a", "tool.BAT"))
    );
    assert_eq!(env.find_executable(name.clone(), &vec![false; 6]), None);
    assert_eq!(env.find_executable(name.clone(), &vec![]), None);
    assert_eq!(env.find_executable(name, &vec![false, false, false, false, false, false, true]), None);
}

#[test]
fn default_extensions_without_a_path() {
    let env = Environment::from(lines(&[]), String::from("/w"));
    assert_eq!(
        env.candidates(&String::from("t")),
        vec![place("/w", "t.exe"), place("/w", "t.bat"), place("/w", "t.cmd")]
    );
    assert_eq!(env.find_executable(String::from("t"), &vec![true]), Some(place("/w", "t.exe")));
}

#[test]
fn the_shell_provides_echo() {
    let env = Shell::get_env(lines(&["A=1"]), String::from("/w"));
    assert_eq!(env.cmds, lines(&["echo"]));
    assert_eq!(env.var(String::from("A")), Some(&lines(&["1"])));
}

fn key(virtual_key: u16, character: Option<char>, shift: bool, ctrl: bool) -> ReadEvent {
    ReadEvent {
        virtual_key,
        character,
        ralt_pressed: false,
        lalt_pressed: false,
        shift_pressed: shift,
        ctrl_pressed: ctrl,
    }
}

#[test]
fn keys_edit_the_line() {
    let mut line: Vec<char> = Vec::new();
    assert_eq!(Shell::key(&mut line, &key(0x41, Some('a'), false, false)), KeyAction::Insert('a'));
    assert_eq!(Shell::key(&mut line, &key(0x44, Some('D'), true, false)), KeyAction::Insert('D'));
    assert_eq!(Shell::key(&mut line, &key(0, Some('x'), false, false)), KeyAction::Ignore);
    assert_eq!(Shell::key(&mut line, &key(0x10, None, true, false)), KeyAction::Ignore);
    assert_eq!(line, vec!['a', 'D']);
    assert_eq!(Shell::key(&mut line, &key(0x08, None, false, false)), KeyAction::Erase);
    assert_eq!(line, vec!['a']);
    assert_eq!(Shell::key(&mut line, &key(0x0D, Some('\r'), true, false)), KeyAction::LineBreak);
    assert_eq!(line, vec!['a', '\r', '\n']);
    assert_eq!(Shell::key(&mut line, &key(0x0D, Some('\r'), false, false)), KeyAction::Submit);
    assert_eq!(Shell::key(&mut line, &key(0x16, None, false, true)), KeyAction::Paste);
    assert_eq!(Shell::key(&mut line, &key(0x44, None, false, true)), KeyAction::Exit);
    assert_eq!(Shell::key(&mut line, &key(0x03, None, false, true)), KeyAction::Cancel);
    assert_eq!(Shell::key(&mut line, &key(0x1b, None, false, false)), KeyAction::Escape);
    Shell::paste(&mut line, "bc");
    assert_eq!(line, vec!['a', '\r', '\n', 'b', 'c']);
    let mut empty: Vec<char> = Vec::new();
    assert_eq!(Shell::key(&mut empty, &key(0x08, None, false, false)), KeyAction::Ignore);
}

#[test]
fn complete_lines() {
    let chars = |s: &str| s.chars().collect::<Vec<char>>();
    assert_eq!(Shell::submit(&chars("  exit ")), Submitted::Exit);
    assert_eq!(Shell::submit(&chars("   ")), Submitted::Empty);
    assert_eq!(Shell::submit(&chars("")), Submitted::Empty);
    assert_eq!(Shell::submit(&chars(" ls  -la \n")), Submitted::Run(String::from("ls  -la")));
    assert_eq!(Shell::submit(&chars("exit now")), Submitted::Run(String::from("exit now")));
    assert_eq!(Shell::submit(&chars("exi")), Submitted::Run(String::from("exi")));
}

#[test]
fn key_records_are_decoded() {
    let event = KEY_EVENT_RECORD {
        bKeyDown: 1,
        wRepeatCount: 1,
        wVirtualKeyCode: 0x41,
        wVirtualScanCode: 30,
        uChar: 97,
        dwControlKeyState: 0x10 | 0x2,
    };
    assert_eq!(
        decode(&INPUT_RECORD { event_type: 1, event }, Some('A')),
        Ok(ReadEvent {
            virtual_key: 0x41,
            character: Some('A'),
            ralt_pressed: false,
            lalt_pressed: true,
            shift_pressed: true,
            ctrl_pressed: false,
        })
    );
    assert_eq!(decode(&INPUT_RECORD { event_type: 2, event }, None), Err(ReadError::InvalidEventType));
    let up = KEY_EVENT_RECORD { bKeyDown: 0, ..event };
    assert_eq!(decode(&INPUT_RECORD { event_type: 1, event: up }, None), Err(ReadError::InvalidEventType));
}

#[test]
fn console_modes_and_errors() {
    assert_eq!(raw_mode(0x1f7), 0x1f0);
    assert_eq!(console_error(RawCreateError::InputErr), ConsoleError::RawInputMode);
    assert_eq!(console_error(RawCreateError::CreateErr(CreateError::NoSTDINHandle)), ConsoleError::NoSTDINHandle);
    assert_eq!(read_error(ReadError::FailedConsoleRead), ConsoleReadError::FailedRead);
    assert_eq!(read_error(ReadError::InvalidEventType), ConsoleReadError::InvalidEventType);
}

#[test]
fn own_commands_come_before_executables() {
    let env = Shell::get_env(lines(&[]), String::from("/w"));
    assert_eq!(env.builtin(&String::from("echo")), Some(0));
    assert_eq!(env.builtin(&String::from("ls")), None);
    assert_eq!(env.resolve(&String::from("echo"), &vec![true]), Resolution::Builtin(0));
    assert_eq!(
        env.resolve(&String::from("ls"), &vec![false, true]),
        Resolution::Executable(place("/w", "ls.bat"))
    );
    assert_eq!(env.resolve(&String::from("ls"), &vec![false, false, false]), Resolution::Unknown);
    assert_eq!(env.resolve(&String::from("ls"), &vec![]), Resolution::Unknown);
}

#[test]
fn an_input_is_tokenized_parsed_and_executed() {
    let mut session = Session::new(10);
    assert_eq!(Shell::exec("let x = 2; x * 21", &mut session), Ok(String::from("42")));
    assert_eq!(Shell::exec("\"open", &mut session), Err(Failure::Lexing(LexerError::UnterminatedString)));
    assert_eq!(Shell::exec("1 + 1; if true {", &mut session), Err(Failure::Parsing(ParseError::TokenNotFound)));
    assert_eq!(
        Shell::exec("x = 1;", &mut session),
        Err(Failure::Execution(Halt::Error(ExecutorError::NotFound)))
    );
    assert_eq!(
        Shell::exec("ls", &mut session),
        Err(Failure::Execution(Halt::Pending(Request::Run { name: String::from("ls"), args: vec![] })))
    );
    session.answers.push(Answer::Text(String::from("a.txt")));
    assert_eq!(Shell::exec("ls", &mut session), Ok(String::from("a.txt")));
}

#[test]
fn keyboard_state_of_the_modifiers() {
    let state = build_keyboard_state_from_flags_only(0x10 | 0x1, true);
    assert_eq!(state.len(), 256);
    assert_eq!(state[0x10], 0x80);
    assert_eq!(state[0x11], 0);
    assert_eq!(state[0x12], 0x80);
    assert_eq!(state[0x14], 1);
    assert_eq!(state.iter().filter(|b| **b != 0).count(), 3);
    let none = build_keyboard_state_from_flags_only(0, false);
    assert!(none.iter().all(|b| *b == 0));
    assert_eq!(build_keyboard_state_from_flags_only(0x8, false)[0x11], 0x80);
}
