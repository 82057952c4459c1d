use vstd::prelude::*;

use crate::geometry::SplitDirection;
use crate::keys::{digit_tab, tab_digit_index, KeyBinding, KeyCode, Modifiers};

verus! {

/// The keyboard modes of a window: the action mode that the action key
/// enters (the next key is a command), a pending move of the focused session
/// to the tab of the next digit, and the resize mode that lasts while the
/// action key is held (arrow keys resize the focused pane).
#[derive(Clone, Copy, Debug, PartialEq, Eq, Structural)]
pub struct ModeState {
    pub action_mode: bool,
    pub pending_move_to_tab: bool,
    pub resize_mode_held: bool,
    pub resize_mode_used: bool,
}

/// What a key event asks of the window once the modes have been updated.
#[derive(Clone, Copy, Debug, PartialEq, Eq, Structural)]
pub enum KeyOutcome {
    /// Nothing more: a release, or a key that only changed the modes.
    Done,
    /// Only the modes changed, in a way that shows on screen.
    Redraw,
    /// Move the split above the focused pane along the direction by the cells.
    ResizePane(SplitDirection, i16),
    /// Move the focused session to the tab slot.
    MoveToTab(usize),
    /// A command key finished a pending move without naming a tab.
    MoveCancelled,
    /// Switch to the tab slot.
    SwitchTab(usize),
    /// Switch to the next tab slot.
    NextTab,
    /// Switch to the previous tab slot.
    PreviousTab,
    /// Focus the next pane of the current tab.
    FocusNextPane,
    /// Split the focused pane along the direction.
    Split(SplitDirection),
    /// Toggle the window decorations.
    ToggleDecorations,
    /// Toggle the status bar.
    ToggleStatusBar,
    /// Show the command palette.
    ShowPalette,
    /// Show the list of sessions.
    ShowSessions,
    /// Show the list of detached sessions.
    ShowDetached,
    /// Open the command prompt.
    OpenCommandPrompt,
    /// Open the Lua prompt.
    OpenLuaPrompt,
    /// Load the configuration again.
    ReloadConfig,
    /// Detach the focused session.
    DetachActive,
    /// Run the user's binding with this index.
    RunBinding(usize),
    /// Hand the key to the overlay, or else to the focused session.
    Forward,
}

impl ModeState {
    /// No mode active.
    pub open spec fn idle() -> ModeState {
        ModeState {
            action_mode: false,
            pending_move_to_tab: false,
            resize_mode_held: false,
            resize_mode_used: false,
        }
    }

    /// No mode active.
    pub fn new() -> (r: ModeState)
        ensures
            r == ModeState::idle(),
    {
        ModeState {
            action_mode: false,
            pending_move_to_tab: false,
            resize_mode_held: false,
            resize_mode_used: false,
        }
    }

    /// The modes once the action key is let go: the resize mode ends, and the
    /// action mode too if the resize mode was used.
    pub open spec fn released(self) -> ModeState {
        ModeState {
            resize_mode_held: false,
            resize_mode_used: false,
            action_mode: if self.resize_mode_used {
                false
            } else {
                self.action_mode
            },
            ..self
        }
    }

    /// The modes once the action key is pressed: action mode, and resize mode
    /// while it is held.
    pub open spec fn entered(self) -> ModeState {
        ModeState { resize_mode_held: true, resize_mode_used: false, action_mode: true, ..self }
    }
}

/// The pane resize that an arrow key asks for in resize mode.
pub open spec fn resize_of(code: KeyCode) -> Option<(SplitDirection, i16)> {
    match code {
        KeyCode::ArrowLeft => Some((SplitDirection::Vertical, -1i16)),
        KeyCode::ArrowRight => Some((SplitDirection::Vertical, 1i16)),
        KeyCode::ArrowUp => Some((SplitDirection::Horizontal, -1i16)),
        KeyCode::ArrowDown => Some((SplitDirection::Horizontal, 1i16)),
        _ => None,
    }
}

/// The command that a key names in action mode (`M`, which starts a move,
/// aside).
pub open spec fn command_of(code: KeyCode) -> Option<KeyOutcome> {
    match digit_tab(code) {
        Some(t) => Some(KeyOutcome::SwitchTab(t)),
        None => match code {
            KeyCode::KeyK => Some(KeyOutcome::NextTab),
            KeyCode::KeyJ => Some(KeyOutcome::PreviousTab),
            KeyCode::KeyW => Some(KeyOutcome::FocusNextPane),
            KeyCode::KeyV => Some(KeyOutcome::Split(SplitDirection::Vertical)),
            KeyCode::KeyH => Some(KeyOutcome::Split(SplitDirection::Horizontal)),
            KeyCode::KeyT => Some(KeyOutcome::ToggleDecorations),
            KeyCode::KeyS => Some(KeyOutcome::ToggleStatusBar),
            KeyCode::KeyP => Some(KeyOutcome::ShowPalette),
            KeyCode::Semicolon => Some(KeyOutcome::OpenCommandPrompt),
            KeyCode::KeyL => Some(KeyOutcome::OpenLuaPrompt),
            KeyCode::KeyD => Some(KeyOutcome::DetachActive),
            KeyCode::KeyR => Some(KeyOutcome::ReloadConfig),
            KeyCode::KeyA => Some(KeyOutcome::ShowDetached),
            _ => None,
        },
    }
}

/// A key pressed in action mode: the modes after it, and what it asks for;
/// `None` for the outcome when the key names no command, which ends action
/// mode and lets the key through.
pub open spec fn action_step(state: ModeState, code: KeyCode) -> (ModeState, Option<KeyOutcome>) {
    if state.pending_move_to_tab {
        (
            ModeState { pending_move_to_tab: false, action_mode: false, ..state },
            Some(
                match digit_tab(code) {
                    Some(t) => KeyOutcome::MoveToTab(t),
                    None => KeyOutcome::MoveCancelled,
                },
            ),
        )
    } else if code == KeyCode::KeyM {
        (ModeState { pending_move_to_tab: true, action_mode: true, ..state }, Some(KeyOutcome::Redraw))
    } else {
        (ModeState { action_mode: false, ..state }, command_of(code))
    }
}

/// The first of `bindings` equal to `pressed`.
pub open spec fn binding_index(bindings: Seq<KeyBinding>, pressed: KeyBinding, from: int) -> Option<
    usize,
>
    decreases bindings.len() - from,
{
    if from < 0 || from >= bindings.len() {
        None
    } else if bindings[from] == pressed {
        Some(from as usize)
    } else {
        binding_index(bindings, pressed, from + 1)
    }
}

/// What a key event of `code` (pressed or released, with `mods` held) does,
/// given the action key `action` and the user's `bindings`: the modes after
/// it and what it asks for. Without user bindings the action key is Ctrl+B
/// and Ctrl+Shift+F and Ctrl+Shift+S show the palette and the session list.
pub open spec fn key_step(
    state: ModeState,
    code: KeyCode,
    pressed: bool,
    mods: Modifiers,
    action: KeyBinding,
    bindings: Seq<KeyBinding>,
) -> (ModeState, KeyOutcome) {
    if code == KeyCode::KeyB && !pressed {
        (state.released(), KeyOutcome::Done)
    } else if !pressed {
        (state, KeyOutcome::Done)
    } else if state.resize_mode_held && resize_of(code) is Some {
        let (d, delta) = resize_of(code)->0;
        (ModeState { resize_mode_used: true, ..state }, KeyOutcome::ResizePane(d, delta))
    } else if bindings.len() == 0 {
        if mods.control && code == KeyCode::KeyB {
            (state.entered(), KeyOutcome::Done)
        } else {
            let (s1, o) = if state.action_mode {
                action_step(state, code)
            } else {
                (state, None)
            };
            match o {
                Some(o) => (s1, o),
                None => if mods.control && mods.shift && code == KeyCode::KeyF {
                    (s1, KeyOutcome::ShowPalette)
                } else if mods.control && mods.shift && code == KeyCode::KeyS {
                    (s1, KeyOutcome::ShowSessions)
                } else {
                    (s1, KeyOutcome::Forward)
                },
            }
        }
    } else {
        let (s1, o) = if state.action_mode {
            action_step(state, code)
        } else {
            (state, None)
        };
        let key = KeyBinding { mods, key: code };
        match o {
            Some(o) => (s1, o),
            None => if action == key {
                (s1.entered(), KeyOutcome::Done)
            } else {
                match binding_index(bindings, key, 0) {
                    Some(i) => (s1, KeyOutcome::RunBinding(i)),
                    None => (s1, KeyOutcome::Forward),
                }
            },
        }
    }
}

/// The command that a key names in action mode (see `command_of`).
fn command_for(code: KeyCode) -> (r: Option<KeyOutcome>)
    ensures
        r == command_of(code),
{
    if let Some(t) = tab_digit_index(code) {
        return Some(KeyOutcome::SwitchTab(t));
    }
    match code {
        KeyCode::KeyK => Some(KeyOutcome::NextTab),
        KeyCode::KeyJ => Some(KeyOutcome::PreviousTab),
        KeyCode::KeyW => Some(KeyOutcome::FocusNextPane),
        KeyCode::KeyV => Some(KeyOutcome::Split(SplitDirection::Vertical)),
        KeyCode::KeyH => Some(KeyOutcome::Split(SplitDirection::Horizontal)),
        KeyCode::KeyT => Some(KeyOutcome::ToggleDecorations),
        KeyCode::KeyS => Some(KeyOutcome::ToggleStatusBar),
        KeyCode::KeyP => Some(KeyOutcome::ShowPalette),
        KeyCode::Semicolon => Some(KeyOutcome::OpenCommandPrompt),
        KeyCode::KeyL => Some(KeyOutcome::OpenLuaPrompt),
        KeyCode::KeyD => Some(KeyOutcome::DetachActive),
        KeyCode::KeyR => Some(KeyOutcome::ReloadConfig),
        KeyCode::KeyA => Some(KeyOutcome::ShowDetached),
        _ => None,
    }
}

/// A key pressed in action mode (see `action_step`).
pub fn action_mode_key(state: &mut ModeState, code: KeyCode) -> (r: Option<KeyOutcome>)
    ensures
        (*final(state), r) == action_step(*old(state), code),
{
    if state.pending_move_to_tab {
        state.pending_move_to_tab = false;
        state.action_mode = false;
        return match tab_digit_index(code) {
            Some(t) => Some(KeyOutcome::MoveToTab(t)),
            None => Some(KeyOutcome::MoveCancelled),
        };
    }
    if code == KeyCode::KeyM {
        state.pending_move_to_tab = true;
        state.action_mode = true;
        return Some(KeyOutcome::Redraw);
    }
    state.action_mode = false;
    command_for(code)
}

/// The index of the first of `bindings` equal to `pressed`.
fn find_binding(bindings: &Vec<KeyBinding>, pressed: KeyBinding) -> (r: Option<usize>)
    ensures
        r == binding_index(bindings@, pressed, 0),
{
    let mut i: usize = 0;
    while i < bindings.len()
        invariant
            i <= bindings@.len(),
            binding_index(bindings@, pressed, 0) == binding_index(bindings@, pressed, i as int),
        decreases bindings.len() - i,
    {
        if bindings[i] == pressed {
            return Some(i);
        }
        i = i + 1;
    }
    None
}

/// Updates the modes for a key event and says what it asks for (see
/// `key_step`).
pub fn key_event(
    state: &mut ModeState,
    code: KeyCode,
    pressed: bool,
    mods: Modifiers,
    action: KeyBinding,
    bindings: &Vec<KeyBinding>,
) -> (r: KeyOutcome)
    ensures
        (*final(state), r) == key_step(*old(state), code, pressed, mods, action, bindings@),
{
    if code == KeyCode::KeyB && !pressed {
        state.resize_mode_held = false;
        if state.resize_mode_used {
            state.action_mode = false;
        }
        state.resize_mode_used = false;
        return KeyOutcome::Done;
    }
    if !pressed {
        return KeyOutcome::Done;
    }
    if state.resize_mode_held {
        let resize = match code {
            KeyCode::ArrowLeft => Some((SplitDirection::Vertical, -1i16)),
            KeyCode::ArrowRight => Some((SplitDirection::Vertical, 1i16)),
            KeyCode::ArrowUp => Some((SplitDirection::Horizontal, -1i16)),
            KeyCode::ArrowDown => Some((SplitDirection::Horizontal, 1i16)),
            _ => None,
        };
        if let Some((direction, delta)) = resize {
            state.resize_mode_used = true;
            return KeyOutcome::ResizePane(direction, delta);
        }
    }
    if bindings.len() == 0 {
        if mods.control && code == KeyCode::KeyB {
            state.resize_mode_held = true;
            state.resize_mode_used = false;
            state.action_mode = true;
            return KeyOutcome::Done;
        }
        if state.action_mode {
            if let Some(o) = action_mode_key(state, code) {
                return o;
            }
        }
        if mods.control && mods.shift && code == KeyCode::KeyF {
            return KeyOutcome::ShowPalette;
        }
        if mods.control && mods.shift && code == KeyCode::KeyS {
            return KeyOutcome::ShowSessions;
        }
        KeyOutcome::Forward
    } else {
        if state.action_mode {
            if let Some(o) = action_mode_key(state, code) {
                return o;
            }
        }
        let key = KeyBinding { mods, key: code };
        if action == key {
            state.resize_mode_held = true;
            state.resize_mode_used = false;
            state.action_mode = true;
            return KeyOutcome::Done;
        }
        match find_binding(bindings, key) {
            Some(i) => KeyOutcome::RunBinding(i),
            None => KeyOutcome::Forward,
        }
    }
}

/// Updates the modes when the held modifiers change: once Ctrl is up the
/// resize mode ends, and the action mode too if the resize mode was used.
pub fn modifiers_changed(state: &mut ModeState, control: bool)
    ensures
        *final(state) == if control {
            *old(state)
        } else {
            old(state).released()
        },
{
    if !control {
        state.resize_mode_held = false;
        if state.resize_mode_used {
            state.action_mode = false;
        }
        state.resize_mode_used = false;
    }
}

/// Holding Ctrl+B and letting B go again leaves action mode on, so that the
/// next key is a command; if an arrow key resized a pane while B was held,
/// letting go ends action mode instead. Either way resize mode ends.
pub proof fn law_action_key_hold_release(
    state: ModeState,
    mods: Modifiers,
    action: KeyBinding,
    arrow: KeyCode,
)
    requires
        mods.control,
        resize_of(arrow) is Some,
    ensures
        ({
            let none = Seq::<KeyBinding>::empty();
            let held = key_step(state, KeyCode::KeyB, true, mods, action, none).0;
            let let_go = key_step(held, KeyCode::KeyB, false, mods, action, none).0;
            let used = key_step(held, arrow, true, mods, action, none).0;
            let used_let_go = key_step(used, KeyCode::KeyB, false, mods, action, none).0;
            &&& let_go.action_mode && !let_go.resize_mode_held
            &&& !used_let_go.action_mode && !used_let_go.resize_mode_held
        }),
{
}

/// Once a move to another tab is pending, the next key pressed that is not
/// a resize ends both the pending move and action mode, whatever it is.
pub proof fn law_pending_move_ends(
    state: ModeState,
    code: KeyCode,
    mods: Modifiers,
    action: KeyBinding,
    bindings: Seq<KeyBinding>,
)
    requires
        state.action_mode,
        state.pending_move_to_tab,
        !(state.resize_mode_held && resize_of(code) is Some),
        bindings.len() == 0 ==> !(mods.control && code == KeyCode::KeyB),
    ensures
        ({
            let (after, outcome) = key_step(state, code, true, mods, action, bindings);
            &&& !after.action_mode && !after.pending_move_to_tab
            &&& outcome == match digit_tab(code) {
                Some(t) => KeyOutcome::MoveToTab(t),
                None => KeyOutcome::MoveCancelled,
            }
        }),
{
}

/// A key let go, other than B, changes no mode and asks for nothing.
pub proof fn law_release_is_inert(
    state: ModeState,
    code: KeyCode,
    mods: Modifiers,
    action: KeyBinding,
    bindings: Seq<KeyBinding>,
)
    requires
        code != KeyCode::KeyB,
    ensures
        key_step(state, code, false, mods, action, bindings) == (state, KeyOutcome::Done),
{
}

/// While the action key is held, the arrow keys move the split above the
/// focused pane by one cell: Right and Down give the first (left or upper)
/// pane one more cell, Left and Up take one away, so opposite arrows undo
/// each other. Whatever else is held or bound, the resize is all they do.
pub proof fn law_arrows_resize(
    state: ModeState,
    mods: Modifiers,
    action: KeyBinding,
    bindings: Seq<KeyBinding>,
)
    requires
        state.resize_mode_held,
    ensures
        key_step(state, KeyCode::ArrowRight, true, mods, action, bindings) == (
        ModeState { resize_mode_used: true, ..state },
        KeyOutcome::ResizePane(SplitDirection::Vertical, 1i16),
        ),
        key_step(state, KeyCode::ArrowLeft, true, mods, action, bindings) == (
        ModeState { resize_mode_used: true, ..state },
        KeyOutcome::ResizePane(SplitDirection::Vertical, -1i16),
        ),
        key_step(state, KeyCode::ArrowDown, true, mods, action, bindings) == (
        ModeState { resize_mode_used: true, ..state },
        KeyOutcome::ResizePane(SplitDirection::Horizontal, 1i16),
        ),
        key_step(state, KeyCode::ArrowUp, true, mods, action, bindings) == (
        ModeState { resize_mode_used: true, ..state },
        KeyOutcome::ResizePane(SplitDirection::Horizontal, -1i16),
        ),
{
}

/// After the action key, each command key does its one command and ends
/// action mode: `1` to `9` switch to tabs 1 to 9, `K` and `J` go to the next
/// and previous tab, `H` and `V` split the focused pane horizontally and
/// vertically, `W` focuses the next pane, `S` toggles the status bar, `P`
/// shows the palette, `R` reloads the configuration, `T` toggles the window
/// decorations, `;` and `L` open the command and Lua prompts, `D` detaches
/// the focused session and `A` lists the detached ones.
pub proof fn law_action_mode_commands(state: ModeState, mods: Modifiers, action: KeyBinding)
    requires
        state.action_mode,
        !state.pending_move_to_tab,
        !state.resize_mode_held,
    ensures
        key_step(state, KeyCode::KeyK, true, mods, action, Seq::empty()) == (ModeState { action_mode: false, ..state }, KeyOutcome::NextTab),
        key_step(state, KeyCode::KeyJ, true, mods, action, Seq::empty()) == (ModeState { action_mode: false, ..state }, KeyOutcome::PreviousTab),
        key_step(state, KeyCode::KeyW, true, mods, action, Seq::empty()) == (ModeState { action_mode: false, ..state }, KeyOutcome::FocusNextPane),
        key_step(state, KeyCode::KeyH, true, mods, action, Seq::empty()) == (ModeState { action_mode: false, ..state }, KeyOutcome::Split(SplitDirection::Horizontal)),
        key_step(state, KeyCode::KeyV, true, mods, action, Seq::empty()) == (ModeState { action_mode: false, ..state }, KeyOutcome::Split(SplitDirection::Vertical)),
        key_step(state, KeyCode::KeyS, true, mods, action, Seq::empty()) == (ModeState { action_mode: false, ..state }, KeyOutcome::ToggleStatusBar),
        key_step(state, KeyCode::KeyP, true, mods, action, Seq::empty()) == (ModeState { action_mode: false, ..state }, KeyOutcome::ShowPalette),
        key_step(state, KeyCode::KeyR, true, mods, action, Seq::empty()) == (ModeState { action_mode: false, ..state }, KeyOutcome::ReloadConfig),
        key_step(state, KeyCode::KeyT, true, mods, action, Seq::empty()) == (ModeState { action_mode: false, ..state }, KeyOutcome::ToggleDecorations),
        key_step(state, KeyCode::Semicolon, true, mods, action, Seq::empty()) == (ModeState { action_mode: false, ..state }, KeyOutcome::OpenCommandPrompt),
        key_step(state, KeyCode::KeyL, true, mods, action, Seq::empty()) == (ModeState { action_mode: false, ..state }, KeyOutcome::OpenLuaPrompt),
        key_step(state, KeyCode::KeyD, true, mods, action, Seq::empty()) == (ModeState { action_mode: false, ..state }, KeyOutcome::DetachActive),
        key_step(state, KeyCode::KeyA, true, mods, action, Seq::empty()) == (ModeState { action_mode: false, ..state }, KeyOutcome::ShowDetached),
        key_step(state, KeyCode::Digit1, true, mods, action, Seq::empty()) == (ModeState { action_mode: false, ..state }, KeyOutcome::SwitchTab(0usize)),
        key_step(state, KeyCode::Digit2, true, mods, action, Seq::empty()) == (ModeState { action_mode: false, ..state }, KeyOutcome::SwitchTab(1usize)),
        key_step(state, KeyCode::Digit3, true, mods, action, Seq::empty()) == (ModeState { action_mode: false, ..state }, KeyOutcome::SwitchTab(2usize)),
        key_step(state, KeyCode::Digit4, true, mods, action, Seq::empty()) == (ModeState { action_mode: false, ..state }, KeyOutcome::SwitchTab(3usize)),
        key_step(state, KeyCode::Digit5, true, mods, action, Seq::empty()) == (ModeState { action_mode: false, ..state }, KeyOutcome::SwitchTab(4usize)),
        key_step(state, KeyCode::Digit6, true, mods, action, Seq::empty()) == (ModeState { action_mode: false, ..state }, KeyOutcome::SwitchTab(5usize)),
        key_step(state, KeyCode::Digit7, true, mods, action, Seq::empty()) == (ModeState { action_mode: false, ..state }, KeyOutcome::SwitchTab(6usize)),
        key_step(state, KeyCode::Digit8, true, mods, action, Seq::empty()) == (ModeState { action_mode: false, ..state }, KeyOutcome::SwitchTab(7usize)),
        key_step(state, KeyCode::Digit9, true, mods, action, Seq::empty()) == (ModeState { action_mode: false, ..state }, KeyOutcome::SwitchTab(8usize)),
{
}

} // verus!
