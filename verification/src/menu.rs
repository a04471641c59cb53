//! The entries of the main menu and the views they lead to.

use vstd::prelude::*;

verus! {

/// An entry of the main menu.
#[derive(Debug, Clone, Copy, PartialEq, Eq, Structural)]
pub enum MenuItem {
    Todo,
    Bill,
    Cyber,
}

/// The view that has the keyboard.
#[derive(Debug, Clone, Copy, PartialEq, Eq, Structural)]
pub enum AppState {
    MainMenu,
    TodoView,
    CyberView,
    BillView,
}

/// The number of entries in the main menu.
pub const MENU_LEN: usize = 3;

impl MenuItem {
    /// The menu, in the order in which it is shown.
    pub fn all() -> (items: [MenuItem; 3])
        ensures
            items@ == seq![MenuItem::Todo, MenuItem::Bill, MenuItem::Cyber],
    {
        let items = [MenuItem::Todo, MenuItem::Bill, MenuItem::Cyber];
        items
    }

    /// The title of the entry, as a sequence of characters.
    pub open spec fn title_text(self) -> Seq<char> {
        match self {
            MenuItem::Todo => "TODO"@,
            MenuItem::Bill => "BILL"@,
            MenuItem::Cyber => "CYBER RESOURCE"@,
        }
    }

    /// The title under which the entry is listed.
    pub fn title(&self) -> (title: &'static str)
        ensures
            title@ == self.title_text(),
    {
        match self {
            MenuItem::Todo => "TODO",
            MenuItem::Bill => "BILL",
            MenuItem::Cyber => "CYBER RESOURCE",
        }
    }

    /// The view that opens when the entry is chosen.
    pub open spec fn target(self) -> AppState {
        match self {
            MenuItem::Todo => AppState::TodoView,
            MenuItem::Bill => AppState::BillView,
            MenuItem::Cyber => AppState::CyberView,
        }
    }

    /// The view that opens when the entry is chosen.
    pub fn view_state(&self) -> (state: AppState)
        ensures
            state == self.target(),
    {
        match self {
            MenuItem::Todo => AppState::TodoView,
            MenuItem::Bill => AppState::BillView,
            MenuItem::Cyber => AppState::CyberView,
        }
    }
}

} // verus!
