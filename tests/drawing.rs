use std::cell::RefCell;

use rex::frontend::{Event, Frontend, KeyPress, Style};
use rex::split_vec::SplitVec;
use rex::view::HexEdit;

struct Screen {
    cells: RefCell<Vec<Vec<char>>>,
    cursor: (isize, isize),
}

impl Screen {
    fn new() -> Screen {
        Screen { cells: RefCell::new(vec![vec![' '; 100]; 100]), cursor: (0, 0) }
    }

    fn row(&self, y: usize) -> String {
        self.cells.borrow()[y].iter().collect::<String>().trim_end().to_string()
    }
}

impl Frontend for Screen {
    fn clear(&self) {}

    fn present(&self) {}

    fn print_style(&self, x: usize, y: usize, _style: Style, s: &str) {
        for (i, c) in s.chars().enumerate() {
            self.print_char_style(x + i, y, Style::Default, c);
        }
    }

    fn print_char_style(&self, x: usize, y: usize, _style: Style, c: char) {
        if x < 100 && y < 100 {
            self.cells.borrow_mut()[y][x] = c;
        }
    }

    fn print_slice_style(&self, x: usize, y: usize, style: Style, chars: &[char]) {
        for (i, c) in chars.iter().enumerate() {
            self.print_char_style(x + i, y, style, *c);
        }
    }

    fn set_cursor(&mut self, x: isize, y: isize) {
        self.cursor = (x, y);
    }

    fn height(&self) -> usize {
        100
    }

    fn width(&self) -> usize {
        100
    }

    fn poll_event(&mut self) -> Event {
        Event::KeyPressEvent(KeyPress::Esc)
    }
}

#[test]
fn draws_line_numbers_hex_and_ascii() {
    let mut edit = HexEdit::new();
    edit.open_vec(vec![0x41, 0x42, 0x00, 0xff]);
    edit.resize(100, 100);
    let mut screen = Screen::new();
    edit.draw(&mut screen);
    // 23 bytes fit on a line: the characters start after 5 + 3 * 23 cells.
    assert_eq!(screen.row(0), format!("{:<74}AB..", "0000 41 42 00 ff"));
    assert_eq!(screen.cursor, (5, 0));
    edit.input(KeyPress::Right);
    edit.draw(&mut screen);
    assert_eq!(screen.cursor, (6, 0));
    assert!(screen.row(99).ends_with("OVR"));
}

#[test]
fn help_and_log_overlays_close_with_esc() {
    let mut edit = HexEdit::new();
    edit.open_vec(vec![1, 2, 3]);
    edit.resize(100, 100);
    let mut screen = Screen::new();
    edit.input(KeyPress::Shortcut('/'));
    edit.draw(&mut screen);
    assert_eq!(screen.row(0), "Keys of the hex view:");
    edit.input(KeyPress::Right);
    assert_eq!(edit.get_position(), 0);
    edit.input(KeyPress::Esc);
    edit.input(KeyPress::Right);
    edit.input(KeyPress::Right);
    assert_eq!(edit.get_position(), 1);
    edit.input(KeyPress::Shortcut('l'));
    let mut screen = Screen::new();
    edit.draw(&mut screen);
    assert_eq!(screen.row(0), "Press Esc to return");
    edit.input(KeyPress::Esc);
}

#[test]
fn goto_prompt_is_drawn_above_the_status_bar() {
    let mut edit = HexEdit::new();
    edit.open_vec(vec![0; 10]);
    edit.resize(100, 100);
    edit.input(KeyPress::Shortcut('g'));
    edit.input(KeyPress::Key('7'));
    let mut screen = Screen::new();
    edit.draw(&mut screen);
    assert_eq!(screen.row(98), "Goto (Dec):7");
    assert_eq!(screen.cursor, (12, 98));
}

#[test]
fn mutable_walk_writes_in_place() {
    let mut sv = SplitVec::from_vecs(vec![vec![0; 3], vec![1; 3]]);
    let mut walk = sv.mut_iter_range(2..5).unwrap();
    assert_eq!(walk.replace_next(&mut sv, 7), Some(0));
    assert_eq!(walk.replace_next(&mut sv, 8), Some(1));
    assert_eq!(walk.replace_next(&mut sv, 9), Some(1));
    assert_eq!(walk.replace_next(&mut sv, 6), None);
    assert_eq!(sv.copy_out(0..6).unwrap(), vec![0, 0, 7, 8, 9, 1]);
    assert_eq!(sv.get_lengths(), vec![3, 3]);
}

#[test]
fn status_messages_carry_numbers() {
    let mut edit = HexEdit::new();
    let mut data = vec![0u8; 200];
    data[120] = 0x78;
    edit.open_vec(data);
    edit.resize(100, 100);
    edit.input(KeyPress::Shortcut('f'));
    edit.input(KeyPress::Key('x'));
    edit.input(KeyPress::Enter);
    assert_eq!(edit.get_status_log().last().map(|s| s.as_str()), Some("Found at 120"));
    edit.input(KeyPress::Shortcut('g'));
    edit.input(KeyPress::Key('-'));
    edit.input(KeyPress::Key('5'));
    edit.input(KeyPress::Enter);
    assert_eq!(edit.get_status_log().last().map(|s| s.as_str()), Some("Going to -5"));
    assert_eq!(edit.get_position(), 0);
    edit.input(KeyPress::Key('1'));
    let mut screen = Screen::new();
    edit.draw(&mut screen);
    assert!(screen.row(99).ends_with(" Pos: 0 Undo: 1 OVR"));
    edit.input(KeyPress::Shortcut(' '));
    edit.input(KeyPress::Right);
    edit.input(KeyPress::Right);
    edit.input(KeyPress::Right);
    edit.input(KeyPress::Shortcut('c'));
    assert_eq!(edit.get_status_log().last().map(|s| s.as_str()), Some("Copied 3"));
}
