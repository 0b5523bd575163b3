//! What a key press does to the interactive view.

use vstd::prelude::*;

use crate::app_state::AppState;

verus! {

/// A key as the view tells keys apart.
#[derive(Debug, Clone, Copy, PartialEq, Eq, Structural)]
pub enum KeyInput {
    Char(char),
    Esc,
    Up,
    Down,
    Enter,
    Tab,
    BackTab,
    Other,
}

/// What the view does for a key.
#[derive(Debug, Clone, Copy, PartialEq, Eq, Structural)]
pub enum Command {
    Quit,
    SelectNext,
    SelectPrev,
    ToggleDetail,
    NextTab,
    PrevTab,
    ToggleBits,
    Refresh,
    Ignore,
}

/// What the loop that runs the view does after a key.
#[derive(Debug, Clone, Copy, PartialEq, Eq, Structural)]
pub enum KeyAction {
    /// Leave the view.
    Quit,
    /// Collect metrics again at once.
    Refresh,
    /// Go on as before.
    Continue,
}

/// The command of a key: q or Esc (or Ctrl-C) quits; j or Down and k or
/// Up move the selection; Enter opens or closes the detail panel; Tab and
/// BackTab switch its tabs while it is open; b switches bits/bytes; r
/// refreshes; anything else is ignored.
pub open spec fn key_command(key: KeyInput, control: bool, detail_expanded: bool) -> Command {
    match key {
        KeyInput::Char(c) => {
            if c == 'q' || (c == 'c' && control) {
                Command::Quit
            } else if c == 'j' {
                Command::SelectNext
            } else if c == 'k' {
                Command::SelectPrev
            } else if c == 'b' {
                Command::ToggleBits
            } else if c == 'r' {
                Command::Refresh
            } else {
                Command::Ignore
            }
        },
        KeyInput::Esc => Command::Quit,
        KeyInput::Down => Command::SelectNext,
        KeyInput::Up => Command::SelectPrev,
        KeyInput::Enter => Command::ToggleDetail,
        KeyInput::Tab => if detail_expanded {
            Command::NextTab
        } else {
            Command::Ignore
        },
        KeyInput::BackTab => if detail_expanded {
            Command::PrevTab
        } else {
            Command::Ignore
        },
        KeyInput::Other => Command::Ignore,
    }
}

/// What the loop does after a command.
pub open spec fn command_action(command: Command) -> KeyAction {
    match command {
        Command::Quit => KeyAction::Quit,
        Command::Refresh => KeyAction::Refresh,
        _ => KeyAction::Continue,
    }
}

/// How a command changes the state.
pub open spec fn command_effect(command: Command, before: AppState, after: AppState) -> bool {
    match command {
        Command::SelectNext => before.moved_down(after),
        Command::SelectPrev => before.moved_up(after),
        Command::ToggleDetail => before.detail_toggled(after),
        Command::NextTab => before.tab_advanced(after),
        Command::PrevTab => before.tab_retreated(after),
        Command::ToggleBits => before.bits_toggled(after),
        _ => after == before,
    }
}

/// The command of a key, as `key_command`.
pub fn command_for_key(key: KeyInput, control: bool, detail_expanded: bool) -> (command: Command)
    ensures
        command == key_command(key, control, detail_expanded),
{
    match key {
        KeyInput::Char(c) => {
            if c == 'q' || (c == 'c' && control) {
                Command::Quit
            } else if c == 'j' {
                Command::SelectNext
            } else if c == 'k' {
                Command::SelectPrev
            } else if c == 'b' {
                Command::ToggleBits
            } else if c == 'r' {
                Command::Refresh
            } else {
                Command::Ignore
            }
        },
        KeyInput::Esc => Command::Quit,
        KeyInput::Down => Command::SelectNext,
        KeyInput::Up => Command::SelectPrev,
        KeyInput::Enter => Command::ToggleDetail,
        KeyInput::Tab => if detail_expanded {
            Command::NextTab
        } else {
            Command::Ignore
        },
        KeyInput::BackTab => if detail_expanded {
            Command::PrevTab
        } else {
            Command::Ignore
        },
        KeyInput::Other => Command::Ignore,
    }
}

impl AppState {
    /// Apply a key press (with or without Control held) to the view and
    /// say what the loop does next.
    pub fn handle_key(&mut self, key: KeyInput, control: bool) -> (action: KeyAction)
        requires
            key_command(key, control, old(self).detail_expanded) == Command::SelectNext ==> old(
                self,
            ).selected_row < usize::MAX,
            key_command(key, control, old(self).detail_expanded) == Command::NextTab ==> old(
                self,
            ).detail_tab < usize::MAX,
        ensures
            action == command_action(key_command(key, control, old(self).detail_expanded)),
            command_effect(
                key_command(key, control, old(self).detail_expanded),
                *old(self),
                *final(self),
            ),
    {
        let command = command_for_key(key, control, self.detail_expanded);
        match command {
            Command::Quit => KeyAction::Quit,
            Command::SelectNext => {
                self.select_next();
                KeyAction::Continue
            },
            Command::SelectPrev => {
                self.select_prev();
                KeyAction::Continue
            },
            Command::ToggleDetail => {
                self.toggle_detail();
                KeyAction::Continue
            },
            Command::NextTab => {
                self.next_tab();
                KeyAction::Continue
            },
            Command::PrevTab => {
                self.prev_tab();
                KeyAction::Continue
            },
            Command::ToggleBits => {
                self.toggle_bits();
                KeyAction::Continue
            },
            Command::Refresh => KeyAction::Refresh,
            Command::Ignore => KeyAction::Continue,
        }
    }
}

/// Enter opens the detail panel when it is closed and closes it when it is
/// open: with or without Control, the state after Enter is the state
/// before with only `detail_expanded` flipped, and the loop goes on.
pub proof fn lemma_enter_toggles_detail(control: bool, a: AppState, b: AppState)
    requires
        command_effect(key_command(KeyInput::Enter, control, a.detail_expanded), a, b),
    ensures
        b == (AppState { detail_expanded: !a.detail_expanded, ..a }),
        b.detail_expanded != a.detail_expanded,
        command_action(key_command(KeyInput::Enter, control, a.detail_expanded))
            == KeyAction::Continue,
{
}

/// Only Tab and BackTab depend on whether the detail panel is open: every
/// other key does the same with the panel open or closed.
pub proof fn lemma_only_tabs_depend_on_detail(key: KeyInput, control: bool)
    requires
        key != KeyInput::Tab,
        key != KeyInput::BackTab,
    ensures
        key_command(key, control, true) == key_command(key, control, false),
{
}

/// Tab and BackTab leave the state as it is while the detail panel is
/// closed.
pub proof fn lemma_tabs_ignored_when_closed(key: KeyInput, control: bool, a: AppState, b: AppState)
    requires
        key == KeyInput::Tab || key == KeyInput::BackTab,
        !a.detail_expanded,
        command_effect(key_command(key, control, a.detail_expanded), a, b),
    ensures
        b == a,
        command_action(key_command(key, control, a.detail_expanded)) == KeyAction::Continue,
{
}

/// Quitting keys leave the state as it is and end the loop.
pub proof fn lemma_quit_keys(key: KeyInput, control: bool, a: AppState, b: AppState)
    requires
        key == KeyInput::Esc || key == KeyInput::Char('q') || (key == KeyInput::Char('c')
            && control),
        command_effect(key_command(key, control, a.detail_expanded), a, b),
    ensures
        b == a,
        command_action(key_command(key, control, a.detail_expanded)) == KeyAction::Quit,
{
}

} // verus!
