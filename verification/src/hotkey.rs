//! The global hotkeys: which key each action is bound to and which action a
//! fired hotkey stands for.

use vstd::prelude::*;

verus! {

/// Virtual-key code of the Z key.
pub const VK_Z: u32 = 0x5A;
/// Virtual-key code of the X key.
pub const VK_X: u32 = 0x58;

/// Hotkey id of the still capture.
pub const HOTKEY_STILL_CAPTURE: i32 = 1;
/// Hotkey id of the recording toggle.
pub const HOTKEY_RECORD_TOGGLE: i32 = 2;

/// What a global hotkey asks for.
#[derive(Debug, Clone, Copy, PartialEq, Eq, Structural)]
pub enum HotkeyAction {
    StillCapture,
    RecordToggle,
}

impl HotkeyAction {
    /// The id that the action's hotkey is registered under.
    pub open spec fn spec_id(self) -> i32 {
        match self {
            HotkeyAction::StillCapture => HOTKEY_STILL_CAPTURE,
            HotkeyAction::RecordToggle => HOTKEY_RECORD_TOGGLE,
        }
    }

    /// The id that the action's hotkey is registered under.
    pub fn id(self) -> (r: i32)
        ensures
            r == self.spec_id(),
    {
        match self {
            HotkeyAction::StillCapture => HOTKEY_STILL_CAPTURE,
            HotkeyAction::RecordToggle => HOTKEY_RECORD_TOGGLE,
        }
    }

    /// The key pressed with Ctrl+Shift for the action: Z for a still
    /// capture, X to start or stop recording.
    pub fn virtual_key(self) -> (r: u32)
        ensures
            r == (match self {
                HotkeyAction::StillCapture => VK_Z,
                HotkeyAction::RecordToggle => VK_X,
            }),
    {
        match self {
            HotkeyAction::StillCapture => VK_Z,
            HotkeyAction::RecordToggle => VK_X,
        }
    }
}

/// The action that a `WM_HOTKEY` message with this id stands for, if any.
pub open spec fn spec_action_for_hotkey(id: i32) -> Option<HotkeyAction> {
    if id == HOTKEY_STILL_CAPTURE {
        Some(HotkeyAction::StillCapture)
    } else if id == HOTKEY_RECORD_TOGGLE {
        Some(HotkeyAction::RecordToggle)
    } else {
        None
    }
}

/// The action that a fired hotkey stands for.
pub fn action_for_hotkey(id: i32) -> (r: Option<HotkeyAction>)
    ensures
        r == spec_action_for_hotkey(id),
{
    match id {
        HOTKEY_STILL_CAPTURE => Some(HotkeyAction::StillCapture),
        HOTKEY_RECORD_TOGGLE => Some(HotkeyAction::RecordToggle),
        _ => None,
    }
}

/// A fired hotkey is reported as the action it was registered for.
pub proof fn lemma_hotkey_round_trip(a: HotkeyAction)
    ensures
        spec_action_for_hotkey(a.spec_id()) == Some(a),
{
}

} // verus!
