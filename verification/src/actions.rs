//! What the application does in answer to keys, menu items and commands
//! of the palette.

use crate::menu::MenuAction;
use crate::text::str_eq;
use vstd::prelude::*;

verus! {

/// The modifier keys that are held down.
#[derive(Debug, Clone, Copy, PartialEq, Eq, Structural)]
pub struct Modifiers {
    pub alt: bool,
    pub ctrl: bool,
    pub shift: bool,
    /// The command key on a Mac, the control key elsewhere.
    pub command: bool,
}

/// The keys that have a shortcut.
#[derive(Debug, Clone, Copy, PartialEq, Eq, Structural)]
pub enum ShortcutKey {
    T,
    W,
    D,
    B,
    C,
    E,
    P,
    V,
    OpenBracket,
    Comma,
    Tab,
    Enter,
    /// A digit key, by its digit.
    Num(u8),
}

/// What the application can be asked to do.
#[derive(Debug, Clone, Copy, PartialEq, Eq, Structural)]
pub enum AppAction {
    NewTab,
    NewWindow,
    /// Close the focused pane, or the tab where it is the tab's only pane.
    ClosePaneOrTab,
    SplitHorizontal,
    SplitVertical,
    ToggleSidebar,
    CollapseAllDirectories,
    ExpandAllDirectories,
    ShowPreferences,
    ShowAbout,
    /// Make the tab with the given index the active one, if there is one.
    SwitchToTab(usize),
    NextTab,
    PrevTab,
    FocusNextPane,
    FocusPrevPane,
    SmartPaste,
    InsertNewline,
    TogglePalette,
}

/// The action of a key pressed with the given modifiers, if the two make
/// a shortcut.
pub open spec fn shortcut_of(key: ShortcutKey, m: Modifiers) -> Option<AppAction> {
    match key {
        ShortcutKey::T => if m.command {
            Some(AppAction::NewTab)
        } else {
            None
        },
        ShortcutKey::W => if m.command {
            Some(AppAction::ClosePaneOrTab)
        } else {
            None
        },
        ShortcutKey::D => if m.command && !m.shift {
            Some(AppAction::SplitHorizontal)
        } else if m.command && m.shift {
            Some(AppAction::SplitVertical)
        } else {
            None
        },
        ShortcutKey::B => if m.command {
            Some(AppAction::ToggleSidebar)
        } else {
            None
        },
        ShortcutKey::OpenBracket | ShortcutKey::C => if (m.command || m.ctrl) && m.shift {
            Some(AppAction::CollapseAllDirectories)
        } else {
            None
        },
        ShortcutKey::E => if (m.command || m.ctrl) && m.shift {
            Some(AppAction::ExpandAllDirectories)
        } else {
            None
        },
        ShortcutKey::Comma => if m.command {
            Some(AppAction::ShowPreferences)
        } else {
            None
        },
        ShortcutKey::Num(n) => if m.command && 1 <= n <= 9 {
            Some(AppAction::SwitchToTab((n - 1) as usize))
        } else {
            None
        },
        ShortcutKey::Tab => if m.ctrl && !m.shift {
            Some(AppAction::FocusNextPane)
        } else if m.ctrl && m.shift {
            Some(AppAction::FocusPrevPane)
        } else {
            None
        },
        ShortcutKey::V => if m.command && !m.shift {
            Some(AppAction::SmartPaste)
        } else {
            None
        },
        ShortcutKey::Enter => if m.shift && !m.command && !m.ctrl {
            Some(AppAction::InsertNewline)
        } else {
            None
        },
        ShortcutKey::P => if (m.command && !m.alt && !m.shift) || (m.ctrl && !m.alt && !m.shift) {
            Some(AppAction::TogglePalette)
        } else {
            None
        },
    }
}

/// The action of a key pressed with the given modifiers.
pub fn shortcut_action(key: ShortcutKey, modifiers: Modifiers) -> (action: Option<AppAction>)
    ensures
        action == shortcut_of(key, modifiers),
{
    let m = modifiers;
    match key {
        ShortcutKey::T => if m.command {
            Some(AppAction::NewTab)
        } else {
            None
        },
        ShortcutKey::W => if m.command {
            Some(AppAction::ClosePaneOrTab)
        } else {
            None
        },
        ShortcutKey::D => if m.command && !m.shift {
            Some(AppAction::SplitHorizontal)
        } else if m.command && m.shift {
            Some(AppAction::SplitVertical)
        } else {
            None
        },
        ShortcutKey::B => if m.command {
            Some(AppAction::ToggleSidebar)
        } else {
            None
        },
        ShortcutKey::OpenBracket | ShortcutKey::C => if (m.command || m.ctrl) && m.shift {
            Some(AppAction::CollapseAllDirectories)
        } else {
            None
        },
        ShortcutKey::E => if (m.command || m.ctrl) && m.shift {
            Some(AppAction::ExpandAllDirectories)
        } else {
            None
        },
        ShortcutKey::Comma => if m.command {
            Some(AppAction::ShowPreferences)
        } else {
            None
        },
        ShortcutKey::Num(n) => if m.command && 1 <= n && n <= 9 {
            Some(AppAction::SwitchToTab((n - 1) as usize))
        } else {
            None
        },
        ShortcutKey::Tab => if m.ctrl && !m.shift {
            Some(AppAction::FocusNextPane)
        } else if m.ctrl && m.shift {
            Some(AppAction::FocusPrevPane)
        } else {
            None
        },
        ShortcutKey::V => if m.command && !m.shift {
            Some(AppAction::SmartPaste)
        } else {
            None
        },
        ShortcutKey::Enter => if m.shift && !m.command && !m.ctrl {
            Some(AppAction::InsertNewline)
        } else {
            None
        },
        ShortcutKey::P => if (m.command && !m.alt && !m.shift) || (m.ctrl && !m.alt && !m.shift) {
            Some(AppAction::TogglePalette)
        } else {
            None
        },
    }
}

/// The action that an item of the menu bar stands for; none for the
/// items that the system handles itself.
pub fn menu_action(action: MenuAction) -> (res: Option<AppAction>)
    ensures
        res == match action {
            MenuAction::NewTab => Some(AppAction::NewTab),
            MenuAction::NewWindow => Some(AppAction::NewWindow),
            MenuAction::CloseTab => Some(AppAction::ClosePaneOrTab),
            MenuAction::CloseWindow => None,
            MenuAction::SplitHorizontal => Some(AppAction::SplitHorizontal),
            MenuAction::SplitVertical => Some(AppAction::SplitVertical),
            MenuAction::ToggleSidebar => Some(AppAction::ToggleSidebar),
            MenuAction::Preferences => Some(AppAction::ShowPreferences),
            MenuAction::About => Some(AppAction::ShowAbout),
            MenuAction::Quit => None,
        },
{
    match action {
        MenuAction::NewTab => Some(AppAction::NewTab),
        MenuAction::NewWindow => Some(AppAction::NewWindow),
        MenuAction::CloseTab => Some(AppAction::ClosePaneOrTab),
        MenuAction::CloseWindow => None,
        MenuAction::SplitHorizontal => Some(AppAction::SplitHorizontal),
        MenuAction::SplitVertical => Some(AppAction::SplitVertical),
        MenuAction::ToggleSidebar => Some(AppAction::ToggleSidebar),
        MenuAction::Preferences => Some(AppAction::ShowPreferences),
        MenuAction::About => Some(AppAction::ShowAbout),
        MenuAction::Quit => None,
    }
}

/// The action that a command of the palette stands for, by its id.
pub open spec fn command_action_of(id: Seq<char>) -> Option<AppAction> {
    if id == "new_tab"@ {
        Some(AppAction::NewTab)
    } else if id == "close_tab"@ {
        Some(AppAction::ClosePaneOrTab)
    } else if id == "split_horizontal"@ {
        Some(AppAction::SplitHorizontal)
    } else if id == "split_vertical"@ {
        Some(AppAction::SplitVertical)
    } else if id == "close_pane"@ {
        Some(AppAction::ClosePaneOrTab)
    } else if id == "toggle_sidebar"@ {
        Some(AppAction::ToggleSidebar)
    } else if id == "settings"@ {
        Some(AppAction::ShowPreferences)
    } else if id == "next_tab"@ {
        Some(AppAction::NextTab)
    } else if id == "prev_tab"@ {
        Some(AppAction::PrevTab)
    } else {
        None
    }
}

/// The action that a command of the palette stands for.
pub fn command_action(id: &str) -> (action: Option<AppAction>)
    ensures
        action == command_action_of(id@),
{
    if str_eq(id, "new_tab") {
        Some(AppAction::NewTab)
    } else if str_eq(id, "close_tab") {
        Some(AppAction::ClosePaneOrTab)
    } else if str_eq(id, "split_horizontal") {
        Some(AppAction::SplitHorizontal)
    } else if str_eq(id, "split_vertical") {
        Some(AppAction::SplitVertical)
    } else if str_eq(id, "close_pane") {
        Some(AppAction::ClosePaneOrTab)
    } else if str_eq(id, "toggle_sidebar") {
        Some(AppAction::ToggleSidebar)
    } else if str_eq(id, "settings") {
        Some(AppAction::ShowPreferences)
    } else if str_eq(id, "next_tab") {
        Some(AppAction::NextTab)
    } else if str_eq(id, "prev_tab") {
        Some(AppAction::PrevTab)
    } else {
        None
    }
}

/// What closing the focused pane comes to.
#[derive(Debug, Clone, Copy, PartialEq, Eq, Structural)]
pub enum CloseTarget {
    /// The pane is closed; its workspace has others.
    Pane,
    /// The tab is closed; its one pane was the last, and there are other
    /// tabs.
    Tab,
    /// Nothing is closed: the last pane of the last tab stays.
    Nothing,
}

/// What closing the focused pane comes to, in a workspace of `pane_count`
/// panes among `tab_count` tabs.
pub fn close_target(pane_count: usize, tab_count: usize) -> (target: CloseTarget)
    ensures
        target == if pane_count > 1 {
            CloseTarget::Pane
        } else if tab_count > 1 {
            CloseTarget::Tab
        } else {
            CloseTarget::Nothing
        },
{
    if pane_count > 1 {
        CloseTarget::Pane
    } else if tab_count > 1 {
        CloseTarget::Tab
    } else {
        CloseTarget::Nothing
    }
}

/// The active tab after an action that switches tabs, among `count` tabs
/// of which `active` is the active one; as it was for any other action,
/// and where the action names no tab.
pub open spec fn active_after(action: AppAction, active: usize, count: usize) -> usize {
    match action {
        AppAction::SwitchToTab(index) => if index < count {
            index
        } else {
            active
        },
        AppAction::NextTab => if active + 1 < count {
            (active + 1) as usize
        } else {
            active
        },
        AppAction::PrevTab => if active > 0 {
            (active - 1) as usize
        } else {
            active
        },
        _ => active,
    }
}

/// The active tab after an action.
pub fn switch_tab(action: AppAction, active: usize, count: usize) -> (res: usize)
    requires
        active < count,
    ensures
        res == active_after(action, active, count),
        res < count,
{
    match action {
        AppAction::SwitchToTab(index) => if index < count {
            index
        } else {
            active
        },
        AppAction::NextTab => if active < count - 1 {
            active + 1
        } else {
            active
        },
        AppAction::PrevTab => if active > 0 {
            active - 1
        } else {
            active
        },
        _ => active,
    }
}

/// An event of the input method editor.
#[derive(Debug, Clone, Copy, PartialEq, Eq, Structural)]
pub enum ImeSignal {
    Enabled,
    /// Text is being composed; whether the composed text is empty.
    Preedit { empty: bool },
    /// Composed text was committed.
    Commit,
    Disabled,
}

/// Whether text is being composed after an event of the input method
/// editor.
pub fn ime_composing_after(composing: bool, signal: ImeSignal) -> (now: bool)
    ensures
        now == match signal {
            ImeSignal::Enabled => composing,
            ImeSignal::Preedit { empty } => !empty,
            ImeSignal::Commit => false,
            ImeSignal::Disabled => false,
        },
{
    match signal {
        ImeSignal::Enabled => composing,
        ImeSignal::Preedit { empty } => !empty,
        ImeSignal::Commit => false,
        ImeSignal::Disabled => false,
    }
}

} // verus!
