//! A full-screen text overlay: the help text or the message log.
use crate::frontend::{Frontend, KeyPress, Style};
use crate::input::{Input, OverlayActions};
use crate::rect::Rect;
use crate::util::string_with_repeat;
use vstd::prelude::*;

verus! {

/// Relies on `str::lines`: the text cut at its line breaks, each line owned.
#[verifier::external_body]
fn split_lines(text: &str) -> Vec<String> {
    text.lines().map(|line| line.to_string()).collect()
}

/// Lines of text shown over the editor until Esc is pressed.
pub struct OverlayText {
    lines: Vec<String>,
    reverse: bool,
}

impl OverlayText {
    /// An overlay showing `text`, line by line; with `rev`, the last line first.
    pub fn with_text(text: String, rev: bool) -> (r: OverlayText)
        ensures
            r.reversed() == rev,
    {
        OverlayText { lines: split_lines(text.as_str()), reverse: rev }
    }

    /// An overlay showing one log message per line; with `rev`, the newest first.
    pub fn with_logs(text: Vec<String>, rev: bool) -> (r: OverlayText)
        ensures
            r.line_count() == text@.len(),
            r.reversed() == rev,
    {
        OverlayText { lines: text, reverse: rev }
    }

    /// How many lines the overlay holds.
    pub closed spec fn line_count(&self) -> nat {
        self.lines@.len()
    }

    /// Whether the last line is shown first.
    pub closed spec fn reversed(&self) -> bool {
        self.reverse
    }

    /// Whether `key` closes the overlay: only Esc does.
    pub fn input(&self, input: &Input, key: KeyPress) -> (r: bool)
        ensures
            r == (key == KeyPress::Esc),
    {
        match input.overlay_input(key) {
            Some(OverlayActions::Cancel) => true,
            None => false,
        }
    }

    /// Draw as many lines as fit in `area`, clearing the rows below them.
    pub fn draw<F: Frontend>(&self, rb: &mut F, area: Rect, has_focus: bool)
        requires
            0 <= area.top,
            0 <= area.left,
            0 <= area.height <= 4294967296,
            0 <= area.width <= 4294967296,
    {
        let n = self.lines.len();
        let height = area.height as usize;
        let top = area.top as usize;
        let blank = string_with_repeat(' ', area.width as usize);
        let mut i: usize = 0;
        while i < height
            invariant
                i <= height,
                n == self.lines@.len(),
            decreases height - i,
        {
            if top <= usize::MAX - i {
                rb.print_style(area.left as usize, top + i, Style::Default, blank.as_str());
                if i < n {
                    let k = if self.reverse {
                        n - 1 - i
                    } else {
                        i
                    };
                    rb.print_style(area.left as usize, top + i, Style::Default, self.lines[k].as_str());
                }
            }
            i = i + 1;
        }
        if has_focus {
            rb.set_cursor(0, 0);
        }
    }
}

} // verus!
