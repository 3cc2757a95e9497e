//! Decisions taken by the tray menu and at launch.
use vstd::prelude::*;

use crate::text::str_eq;

verus! {

/// What a tray menu item does.
#[derive(PartialEq, Eq, Structural, Clone, Copy, Debug)]
pub enum MenuAction {
    /// Show and focus the settings window.
    ShowSettings,
    /// Start recording.
    StartRecording,
    /// Stop recording, transcribe and inject.
    StopAndTranscribe,
    /// Exit the application.
    Quit,
    /// Unknown item: do nothing.
    Ignore,
}

/// "settings" and "history" show the settings window; "toggle_record" stops
/// a running recording and starts one otherwise; "quit" exits.
pub open spec fn menu_action_spec(id: Seq<char>, recording: bool) -> MenuAction {
    if id == "settings"@ || id == "history"@ {
        MenuAction::ShowSettings
    } else if id == "toggle_record"@ {
        if recording {
            MenuAction::StopAndTranscribe
        } else {
            MenuAction::StartRecording
        }
    } else if id == "quit"@ {
        MenuAction::Quit
    } else {
        MenuAction::Ignore
    }
}

/// Decides what the menu item `id` does.
pub fn menu_action(id: &str, recording: bool) -> (a: MenuAction)
    ensures
        a == menu_action_spec(id@, recording),
{
    if str_eq(id, "settings") || str_eq(id, "history") {
        MenuAction::ShowSettings
    } else if str_eq(id, "toggle_record") {
        if recording {
            MenuAction::StopAndTranscribe
        } else {
            MenuAction::StartRecording
        }
    } else if str_eq(id, "quit") {
        MenuAction::Quit
    } else {
        MenuAction::Ignore
    }
}

/// The settings window is shown at launch unless the program was started
/// with `--minimized` (as autostart does).
pub fn show_window_on_launch(args: &Vec<String>) -> (show: bool)
    ensures
        show == !(exists|i: int| 0 <= i < args@.len() && (#[trigger] args@[i])@ == "--minimized"@),
{
    let mut i: usize = 0;
    while i < args.len()
        invariant
            i <= args.len(),
            forall|k: int| 0 <= k < i ==> (#[trigger] args@[k])@ != "--minimized"@,
        decreases args.len() - i,
    {
        if str_eq(args[i].as_str(), "--minimized") {
            return false;
        }
        i += 1;
    }
    true
}

} // verus!
