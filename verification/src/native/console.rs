use vstd::prelude::*;

verus! {

/// Why raw input from the console cannot be had.
#[derive(Debug, PartialEq, Eq, Clone, Copy, Structural)]
pub enum ConsoleError {
    RawInputMode,
    NoSTDINHandle,
}

/// Why no key was read.
#[derive(Debug, PartialEq, Eq, Clone, Copy, Structural)]
pub enum ConsoleReadError {
    FailedRead,
    InvalidEventType,
}

/// A key that was pressed: its virtual key code, the character that it
/// writes, if it writes one, and the modifier keys that were held.
#[derive(Debug, PartialEq, Eq, Clone, Copy, Structural)]
pub struct ReadEvent {
    pub virtual_key: u16,
    pub character: Option<char>,
    pub ralt_pressed: bool,
    pub lalt_pressed: bool,
    pub shift_pressed: bool,
    pub ctrl_pressed: bool,
}

/// Why the console's input mode cannot be set.
#[derive(Debug, PartialEq, Eq, Clone, Copy, Structural)]
pub enum InputError {
    NoSTDINHandle,
    SetConsoleMode,
}

/// Why no handle of the console's input can be had.
#[derive(Debug, PartialEq, Eq, Clone, Copy, Structural)]
pub enum CreateError {
    NoSTDINHandle,
}

/// Why no raw console can be made.
#[derive(Debug, PartialEq, Eq, Clone, Copy, Structural)]
pub enum RawCreateError {
    InputErr,
    CreateErr(CreateError),
}

/// Why the raw console gave no key.
#[derive(Debug, PartialEq, Eq, Clone, Copy, Structural)]
pub enum ReadError {
    FailedConsoleRead,
    InvalidEventType,
}

/// A key event as the console reports it.
#[allow(non_snake_case, non_camel_case_types)]
#[derive(Debug, PartialEq, Eq, Clone, Copy, Structural)]
pub struct KEY_EVENT_RECORD {
    pub bKeyDown: i32,
    pub wRepeatCount: u16,
    pub wVirtualKeyCode: u16,
    pub wVirtualScanCode: u16,
    pub uChar: u16,
    pub dwControlKeyState: u32,
}

/// An input event as the console reports it.
#[allow(non_snake_case, non_camel_case_types)]
#[derive(Debug, PartialEq, Eq, Clone, Copy, Structural)]
pub struct INPUT_RECORD {
    pub event_type: u16,
    pub event: KEY_EVENT_RECORD,
}

/// The event type of a key event.
pub const KEY_EVENT: u16 = 0x1;

/// The bits of the control key state.
pub const RIGHT_ALT_PRESSED: u32 = 0x1;

pub const LEFT_ALT_PRESSED: u32 = 0x2;

pub const CTRL_PRESSED: u32 = 0x8;

pub const SHIFT_PRESSED: u32 = 0x10;

/// The bits of the console mode.
pub const ENABLE_PROCESSED_INPUT: u32 = 0x1;

pub const ENABLE_LINE_INPUT: u32 = 0x2;

pub const ENABLE_ECHO_INPUT: u32 = 0x4;

/// What the record of a pressed key says: the key, the modifiers held,
/// and `character` as what the key writes. A record of anything but a key
/// going down is no key.
pub open spec fn decoded(record: INPUT_RECORD, character: Option<char>) -> Result<
    ReadEvent,
    ReadError,
> {
    if record.event_type == KEY_EVENT && record.event.bKeyDown != 0 {
        let mods = record.event.dwControlKeyState;
        Ok(
            ReadEvent {
                virtual_key: record.event.wVirtualKeyCode,
                character,
                ralt_pressed: mods & RIGHT_ALT_PRESSED != 0,
                lalt_pressed: mods & LEFT_ALT_PRESSED != 0,
                shift_pressed: mods & SHIFT_PRESSED != 0,
                ctrl_pressed: mods & CTRL_PRESSED != 0,
            },
        )
    } else {
        Err(ReadError::InvalidEventType)
    }
}

/// Reads a record that the console delivered. `character` is what the
/// system says the key writes.
pub fn decode(record: &INPUT_RECORD, character: Option<char>) -> (r: Result<ReadEvent, ReadError>)
    ensures
        r == decoded(*record, character),
{
    if record.event_type == KEY_EVENT && record.event.bKeyDown != 0 {
        let mods = record.event.dwControlKeyState;
        Ok(
            ReadEvent {
                virtual_key: record.event.wVirtualKeyCode,
                character,
                ralt_pressed: mods & RIGHT_ALT_PRESSED != 0,
                lalt_pressed: mods & LEFT_ALT_PRESSED != 0,
                shift_pressed: mods & SHIFT_PRESSED != 0,
                ctrl_pressed: mods & CTRL_PRESSED != 0,
            },
        )
    } else {
        Err(ReadError::InvalidEventType)
    }
}

/// The virtual key codes of the modifier keys.
pub const VK_SHIFT: usize = 0x10;

pub const VK_CONTROL: usize = 0x11;

pub const VK_MENU: usize = 0x12;

pub const VK_CAPITAL: usize = 0x14;

/// The state of the key with the given code in the keyboard state that
/// the modifiers of a key event stand for: a modifier that is held has
/// its high bit set, caps lock that is on has its low bit set, and every
/// other key is up.
pub open spec fn key_state(mods: u32, capslock_on: bool, key: int) -> u8 {
    if key == VK_SHIFT {
        if mods & SHIFT_PRESSED != 0 {
            0x80
        } else {
            0
        }
    } else if key == VK_CONTROL {
        if mods & CTRL_PRESSED != 0 {
            0x80
        } else {
            0
        }
    } else if key == VK_MENU {
        if mods & (LEFT_ALT_PRESSED | RIGHT_ALT_PRESSED) != 0 {
            0x80
        } else {
            0
        }
    } else if key == VK_CAPITAL {
        if capslock_on {
            1
        } else {
            0
        }
    } else {
        0
    }
}

/// Builds the keyboard state of 256 keys from the modifiers of a key event.
pub fn build_keyboard_state_from_flags_only(mods: u32, capslock_on: bool) -> (r: Vec<u8>)
    ensures
        r@.len() == 256,
        forall|key: int| 0 <= key < 256 ==> r@[key] == key_state(mods, capslock_on, key),
{
    let mut state: Vec<u8> = Vec::new();
    let mut key: usize = 0;
    while key < 256
        invariant
            0 <= key <= 256,
            state@.len() == key,
            forall|k: int| 0 <= k < key ==> state@[k] == key_state(mods, capslock_on, k),
        decreases 256 - key,
    {
        let held: u8 = if key == VK_SHIFT {
            if mods & SHIFT_PRESSED != 0 {
                0x80
            } else {
                0
            }
        } else if key == VK_CONTROL {
            if mods & CTRL_PRESSED != 0 {
                0x80
            } else {
                0
            }
        } else if key == VK_MENU {
            if mods & (LEFT_ALT_PRESSED | RIGHT_ALT_PRESSED) != 0 {
                0x80
            } else {
                0
            }
        } else if key == VK_CAPITAL {
            if capslock_on {
                1
            } else {
                0
            }
        } else {
            0
        };
        state.push(held);
        key += 1;
    }
    state
}

/// The console mode for raw input: `mode` without line input, echo and
/// processed input.
pub fn raw_mode(mode: u32) -> (r: u32)
    ensures
        r == mode & !(ENABLE_LINE_INPUT | ENABLE_ECHO_INPUT | ENABLE_PROCESSED_INPUT),
{
    mode & !(ENABLE_LINE_INPUT | ENABLE_ECHO_INPUT | ENABLE_PROCESSED_INPUT)
}

/// Why the console cannot be had, given why the raw console cannot.
pub fn console_error(e: RawCreateError) -> (r: ConsoleError)
    ensures
        r == match e {
            RawCreateError::InputErr => ConsoleError::RawInputMode,
            RawCreateError::CreateErr(_) => ConsoleError::NoSTDINHandle,
        },
{
    match e {
        RawCreateError::InputErr => ConsoleError::RawInputMode,
        RawCreateError::CreateErr(_) => ConsoleError::NoSTDINHandle,
    }
}

/// Why the console gave no key, given why the raw console gave none.
pub fn read_error(e: ReadError) -> (r: ConsoleReadError)
    ensures
        r == match e {
            ReadError::FailedConsoleRead => ConsoleReadError::FailedRead,
            ReadError::InvalidEventType => ConsoleReadError::InvalidEventType,
        },
{
    match e {
        ReadError::FailedConsoleRead => ConsoleReadError::FailedRead,
        ReadError::InvalidEventType => ConsoleReadError::InvalidEventType,
    }
}

} // verus!
