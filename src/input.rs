//! Key bindings: which action each key stands for in each part of the editor.
use crate::frontend::KeyPress;
use crate::inputline::BaseInputLineActions;
use crate::view::HexEditActions;
use vstd::prelude::*;

verus! {

/// What a key does in a text overlay.
#[derive(Clone, Copy, Debug, PartialEq, Eq, Structural)]
pub enum OverlayActions {
    Cancel,
}

/// What a key does in the settings screen.
#[derive(Clone, Copy, Debug, PartialEq, Eq, Structural)]
pub enum ConfigScreenActions {
    Up,
    Down,
    Select,
    Cancel,
}

/// What a key does in a menu.
#[derive(Clone, Copy, Debug, PartialEq, Eq, Structural)]
pub enum MenuActions {
    Key(char),
    Back,
    ToggleHelp,
    Cancel,
}

/// The editor's action for a key in the main view.
pub open spec fn editor_action(key: KeyPress) -> Option<HexEditActions> {
    match key {
        KeyPress::Left => Some(HexEditActions::MoveLeft),
        KeyPress::Right => Some(HexEditActions::MoveRight),
        KeyPress::Up => Some(HexEditActions::MoveUp),
        KeyPress::Down => Some(HexEditActions::MoveDown),
        KeyPress::PageUp => Some(HexEditActions::MovePageUp),
        KeyPress::PageDown => Some(HexEditActions::MovePageDown),
        KeyPress::Home => Some(HexEditActions::MoveToFirstColumn),
        KeyPress::End => Some(HexEditActions::MoveToLastColumn),
        KeyPress::Backspace => Some(HexEditActions::DeleteWithMove),
        KeyPress::Delete => Some(HexEditActions::Delete),
        KeyPress::Tab => Some(HexEditActions::SwitchView),
        KeyPress::Insert => Some(HexEditActions::ToggleInsert),
        KeyPress::Shortcut(c) => if c == ' ' {
            Some(HexEditActions::ToggleSelecion)
        } else if c == 'x' {
            Some(HexEditActions::CutSelection)
        } else if c == 'c' {
            Some(HexEditActions::CopySelection)
        } else if c == 'v' {
            Some(HexEditActions::PasteSelection)
        } else if c == '/' {
            Some(HexEditActions::HelpView)
        } else if c == 'l' {
            Some(HexEditActions::LogView)
        } else if c == 'z' {
            Some(HexEditActions::Undo)
        } else if c == 'g' {
            Some(HexEditActions::AskGoto)
        } else if c == 'f' {
            Some(HexEditActions::AskFind)
        } else if c == 'o' {
            Some(HexEditActions::AskOpen)
        } else if c == 's' {
            Some(HexEditActions::AskSave)
        } else if c == '\\' {
            Some(HexEditActions::StartMenu)
        } else {
            None
        },
        KeyPress::Key(c) => Some(HexEditActions::Edit(c)),
        _ => None,
    }
}

/// The action for a key in a prompt.
pub open spec fn inputline_action(key: KeyPress) -> Option<BaseInputLineActions> {
    match key {
        KeyPress::Key(c) => Some(BaseInputLineActions::Edit(c)),
        KeyPress::Shortcut(c) => Some(BaseInputLineActions::Ctrl(c)),
        KeyPress::Left => Some(BaseInputLineActions::MoveLeft),
        KeyPress::Right => Some(BaseInputLineActions::MoveRight),
        KeyPress::Delete => Some(BaseInputLineActions::Delete),
        KeyPress::Backspace => Some(BaseInputLineActions::DeleteWithMove),
        KeyPress::Enter => Some(BaseInputLineActions::Enter),
        KeyPress::Esc => Some(BaseInputLineActions::Cancel),
        _ => None,
    }
}

/// The key bindings.
#[derive(Clone, Copy, Debug, PartialEq, Eq, Structural)]
pub struct Input;

impl Input {
    /// The default bindings.
    pub fn new() -> (r: Input) {
        Input
    }

    /// The action for a key in the main view.
    pub fn editor_input(&self, key: KeyPress) -> (r: Option<HexEditActions>)
        ensures
            r == editor_action(key),
    {
        match key {
            KeyPress::Left => Some(HexEditActions::MoveLeft),
            KeyPress::Right => Some(HexEditActions::MoveRight),
            KeyPress::Up => Some(HexEditActions::MoveUp),
            KeyPress::Down => Some(HexEditActions::MoveDown),
            KeyPress::PageUp => Some(HexEditActions::MovePageUp),
            KeyPress::PageDown => Some(HexEditActions::MovePageDown),
            KeyPress::Home => Some(HexEditActions::MoveToFirstColumn),
            KeyPress::End => Some(HexEditActions::MoveToLastColumn),
            KeyPress::Backspace => Some(HexEditActions::DeleteWithMove),
            KeyPress::Delete => Some(HexEditActions::Delete),
            KeyPress::Tab => Some(HexEditActions::SwitchView),
            KeyPress::Insert => Some(HexEditActions::ToggleInsert),
            KeyPress::Shortcut(c) => {
                if c == ' ' {
                    Some(HexEditActions::ToggleSelecion)
                } else if c == 'x' {
                    Some(HexEditActions::CutSelection)
                } else if c == 'c' {
                    Some(HexEditActions::CopySelection)
                } else if c == 'v' {
                    Some(HexEditActions::PasteSelection)
                } else if c == '/' {
                    Some(HexEditActions::HelpView)
                } else if c == 'l' {
                    Some(HexEditActions::LogView)
                } else if c == 'z' {
                    Some(HexEditActions::Undo)
                } else if c == 'g' {
                    Some(HexEditActions::AskGoto)
                } else if c == 'f' {
                    Some(HexEditActions::AskFind)
                } else if c == 'o' {
                    Some(HexEditActions::AskOpen)
                } else if c == 's' {
                    Some(HexEditActions::AskSave)
                } else if c == '\\' {
                    Some(HexEditActions::StartMenu)
                } else {
                    None
                }
            },
            KeyPress::Key(c) => Some(HexEditActions::Edit(c)),
            _ => None,
        }
    }

    /// The action for a key in a prompt.
    pub fn inputline_input(&self, key: KeyPress) -> (r: Option<BaseInputLineActions>)
        ensures
            r == inputline_action(key),
    {
        match key {
            KeyPress::Key(c) => Some(BaseInputLineActions::Edit(c)),
            KeyPress::Shortcut(c) => Some(BaseInputLineActions::Ctrl(c)),
            KeyPress::Left => Some(BaseInputLineActions::MoveLeft),
            KeyPress::Right => Some(BaseInputLineActions::MoveRight),
            KeyPress::Delete => Some(BaseInputLineActions::Delete),
            KeyPress::Backspace => Some(BaseInputLineActions::DeleteWithMove),
            KeyPress::Enter => Some(BaseInputLineActions::Enter),
            KeyPress::Esc => Some(BaseInputLineActions::Cancel),
            _ => None,
        }
    }

    /// The action for a key in a text overlay: only Esc does anything.
    pub fn overlay_input(&self, key: KeyPress) -> (r: Option<OverlayActions>)
        ensures
            r == if key == KeyPress::Esc {
                Some(OverlayActions::Cancel)
            } else {
                None
            },
    {
        match key {
            KeyPress::Esc => Some(OverlayActions::Cancel),
            _ => None,
        }
    }

    /// The action for a key in the settings screen.
    pub fn config_input(&self, key: KeyPress) -> (r: Option<ConfigScreenActions>)
        ensures
            r == match key {
                KeyPress::Down => Some(ConfigScreenActions::Down),
                KeyPress::Up => Some(ConfigScreenActions::Up),
                KeyPress::Enter => Some(ConfigScreenActions::Select),
                KeyPress::Esc => Some(ConfigScreenActions::Cancel),
                _ => None,
            },
    {
        match key {
            KeyPress::Down => Some(ConfigScreenActions::Down),
            KeyPress::Up => Some(ConfigScreenActions::Up),
            KeyPress::Enter => Some(ConfigScreenActions::Select),
            KeyPress::Esc => Some(ConfigScreenActions::Cancel),
            _ => None,
        }
    }

    /// The action for a key in a menu.
    pub fn menu_input(&self, key: KeyPress) -> (r: Option<MenuActions>)
        ensures
            r == match key {
                KeyPress::Backspace => Some(MenuActions::Back),
                KeyPress::Esc => Some(MenuActions::Cancel),
                KeyPress::Key(c) => if c == '?' {
                    Some(MenuActions::ToggleHelp)
                } else {
                    Some(MenuActions::Key(c))
                },
                _ => None,
            },
    {
        match key {
            KeyPress::Backspace => Some(MenuActions::Back),
            KeyPress::Esc => Some(MenuActions::Cancel),
            KeyPress::Key(c) => {
                if c == '?' {
                    Some(MenuActions::ToggleHelp)
                } else {
                    Some(MenuActions::Key(c))
                }
            },
            _ => None,
        }
    }
}

} // verus!
