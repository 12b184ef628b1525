//! The actions of the native menu bar.

use crate::text::str_eq;
use vstd::prelude::*;

verus! {

/// Menu action events.
#[derive(Debug, Clone, Copy, PartialEq, Eq, Structural)]
pub enum MenuAction {
    NewTab,
    NewWindow,
    CloseTab,
    CloseWindow,
    SplitHorizontal,
    SplitVertical,
    ToggleSidebar,
    Preferences,
    About,
    Quit,
}

impl MenuAction {
    /// The action that the menu item with the given id stands for.
    pub open spec fn of_menu_id(id: Seq<char>) -> Option<MenuAction> {
        if id == "new_tab"@ {
            Some(MenuAction::NewTab)
        } else if id == "new_window"@ {
            Some(MenuAction::NewWindow)
        } else if id == "close_tab"@ {
            Some(MenuAction::CloseTab)
        } else if id == "toggle_sidebar"@ {
            Some(MenuAction::ToggleSidebar)
        } else if id == "split_horizontal"@ {
            Some(MenuAction::SplitHorizontal)
        } else if id == "split_vertical"@ {
            Some(MenuAction::SplitVertical)
        } else if id == "preferences"@ {
            Some(MenuAction::Preferences)
        } else if id == "about"@ {
            Some(MenuAction::About)
        } else {
            None
        }
    }

    /// The action that the menu item with the given id stands for; `None`
    /// for the items that the system handles itself.
    pub fn from_menu_id(id: &str) -> (action: Option<MenuAction>)
        ensures
            action == MenuAction::of_menu_id(id@),
    {
        if str_eq(id, "new_tab") {
            Some(MenuAction::NewTab)
        } else if str_eq(id, "new_window") {
            Some(MenuAction::NewWindow)
        } else if str_eq(id, "close_tab") {
            Some(MenuAction::CloseTab)
        } else if str_eq(id, "toggle_sidebar") {
            Some(MenuAction::ToggleSidebar)
        } else if str_eq(id, "split_horizontal") {
            Some(MenuAction::SplitHorizontal)
        } else if str_eq(id, "split_vertical") {
            Some(MenuAction::SplitVertical)
        } else if str_eq(id, "preferences") {
            Some(MenuAction::Preferences)
        } else if str_eq(id, "about") {
            Some(MenuAction::About)
        } else {
            None
        }
    }
}

} // verus!
