//! What the editor needs from a terminal: keys in, styled text out.
use vstd::prelude::*;

verus! {

/// How a piece of text is shown.
#[derive(Clone, Copy, Debug, PartialEq, Eq, Structural)]
pub enum Style {
    Default,
    Selection,
    Hint,
    StatusBar,
    InputLine,
    InputLineError,
    MenuShortcut,
    MenuEntry,
    MenuTitle,
}

/// A key, as the editor sees it.
#[derive(Clone, Copy, Debug, PartialEq, Eq, Structural)]
pub enum KeyPress {
    Key(char),
    Shortcut(char),
    Left,
    Right,
    Up,
    Down,
    PageUp,
    PageDown,
    Home,
    End,
    Backspace,
    Delete,
    Tab,
    Insert,
    Enter,
    Esc,
}

/// Something that happened at the terminal.
#[derive(Clone, Copy, Debug, PartialEq, Eq, Structural)]
pub enum Event {
    KeyPressEvent(KeyPress),
    Resize(usize, usize),
}

/// A terminal that the editor draws on and reads keys from.
pub trait Frontend {
    fn clear(&self);

    fn present(&self);

    fn print_style(&self, x: usize, y: usize, style: Style, s: &str);

    fn print_char_style(&self, x: usize, y: usize, style: Style, c: char);

    fn print_slice_style(&self, x: usize, y: usize, style: Style, chars: &[char]);

    fn set_cursor(&mut self, x: isize, y: isize);

    fn height(&self) -> usize;

    fn width(&self) -> usize;

    fn poll_event(&mut self) -> Event;
}

} // verus!
