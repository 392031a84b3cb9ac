//! Classification of the messages that a low-level keyboard hook receives.
use vstd::prelude::*;

verus! {

/// `WM_KEYDOWN`: a key was pressed.
pub const WM_KEYDOWN: u32 = 0x0100;

/// `WM_KEYUP`: a key was released.
pub const WM_KEYUP: u32 = 0x0101;

/// `WM_SYSKEYDOWN`: a key was pressed while ALT was held.
pub const WM_SYSKEYDOWN: u32 = 0x0104;

/// `WM_SYSKEYUP`: a key was released while ALT was held.
pub const WM_SYSKEYUP: u32 = 0x0105;

/// What a keyboard message reports of its key.
#[derive(Clone, Copy, Debug, PartialEq, Eq, Structural)]
pub enum KeyTransition {
    Down,
    Up,
}

/// The key transition that a hook call with `code` and message `msg`
/// reports: none when `code` is negative (the hook must pass the call on
/// untouched) or when the message is not a key message.
pub open spec fn spec_key_transition(code: i32, msg: u32) -> Option<KeyTransition> {
    if code < 0 {
        None
    } else if msg == WM_KEYDOWN || msg == WM_SYSKEYDOWN {
        Some(KeyTransition::Down)
    } else if msg == WM_KEYUP || msg == WM_SYSKEYUP {
        Some(KeyTransition::Up)
    } else {
        None
    }
}

/// Classifies a hook call: `w_param` carries the message identifier in its
/// low 32 bits.
pub fn key_transition(code: i32, w_param: usize) -> (r: Option<KeyTransition>)
    ensures
        r == spec_key_transition(code, w_param as u32),
{
    if code >= 0 {
        let msg = w_param as u32;
        if msg == WM_KEYDOWN || msg == WM_SYSKEYDOWN {
            Some(KeyTransition::Down)
        } else if msg == WM_KEYUP || msg == WM_SYSKEYUP {
            Some(KeyTransition::Up)
        } else {
            None
        }
    } else {
        None
    }
}

/// The virtual-key code of a key event, as the hook reports it: the low 16
/// bits of the event's code.
pub fn virtual_key(vk_code: u32) -> (k: u16)
    ensures
        k == vk_code as u16,
{
    vk_code as u16
}


/// For any non-negative code, the four key messages are classified by the
/// message alone: key-down and system key-down report `Down`, key-up and
/// system key-up report `Up`, and the code makes no difference; a negative
/// code reports nothing.
pub proof fn key_messages_are_classified_by_message(code: i32, msg: u32)
    ensures
        code >= 0 ==> spec_key_transition(code, WM_KEYDOWN) == Some(KeyTransition::Down),
        code >= 0 ==> spec_key_transition(code, WM_SYSKEYDOWN) == Some(KeyTransition::Down),
        code >= 0 ==> spec_key_transition(code, WM_KEYUP) == Some(KeyTransition::Up),
        code >= 0 ==> spec_key_transition(code, WM_SYSKEYUP) == Some(KeyTransition::Up),
        code >= 0 ==> spec_key_transition(code, msg) == spec_key_transition(0, msg),
        code < 0 ==> spec_key_transition(code, msg) is None,
        spec_key_transition(code, msg) is Some ==> msg == WM_KEYDOWN || msg == WM_SYSKEYDOWN
            || msg == WM_KEYUP || msg == WM_SYSKEYUP,
{
}

} // verus!
