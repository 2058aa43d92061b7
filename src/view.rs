//! The editor: a cursor, a selection, a clipboard and an undo stack over a block store,
//! driven one key at a time.
use crate::config::Config;
use crate::frontend::{Frontend, KeyPress, Style};
use crate::input::{editor_action, Input};
use crate::overlay::OverlayText;
use crate::inputline::{
    BaseInputLineActions, FindInputLine, GotoInputLineBehavior, InputLine, LineOutcome,
    PathInputLine, PathInputType,
};
use crate::util::{ascii_string, concat, decimal, decimal_text, is_between, string_with_repeat, u8_to_hex};
use crate::rect::{Rect, RelativePos, RelativeRect, RelativeSize};
use crate::split_vec::{
    first_occurrence, lemma_first_occurrence_bounds, lemma_splice_round_trip, splice_removed, spliced, SplitVec,
};
use vstd::prelude::*;
use vstd::string::StringExecFns;

verus! {

/// A replacement of a range of the buffer by new bytes. An insertion has an empty range,
/// a deletion no bytes, an overwrite as many bytes as the range is long. Undo entries
/// are operations of the same shape.
#[derive(Clone, Debug)]
pub struct EditOperation {
    /// Where the replaced range starts.
    pub start: usize,
    /// Where the replaced range ends.
    pub end: usize,
    /// The bytes that take the range's place.
    pub data: Vec<u8>,
    /// What kind of edit this is, for the log.
    pub description: &'static str,
}

/// An operation as plain values: start, end and replacement bytes.
pub type OpModel = (int, int, Seq<u8>);

impl View for EditOperation {
    type V = OpModel;

    open spec fn view(&self) -> OpModel {
        (self.start as int, self.end as int, self.data@)
    }
}

/// The content after applying `op` to `s`: a splice, which only takes the part of the
/// range that exists.
pub open spec fn apply_op(s: Seq<u8>, op: OpModel) -> Seq<u8> {
    spliced(s, op.0, op.1, op.2)
}

/// The operation that reverts `op` applied to `s`: at the same start, over the bytes it
/// put in, putting back the bytes it removed.
pub open spec fn inverse_op(s: Seq<u8>, op: OpModel) -> OpModel {
    (op.0, op.0 + op.2.len(), splice_removed(s, op.0, op.1))
}

/// An operation can be applied to `s`: its range is in order and starts inside `s`.
pub open spec fn op_applies(s: Seq<u8>, op: OpModel) -> bool {
    0 <= op.0 <= op.1 && op.0 <= s.len()
}

/// Applying an operation and then its inverse gives back the content exactly, and the
/// inverse starts where the operation started.
pub proof fn lemma_undo_restores(s: Seq<u8>, op: OpModel)
    requires
        op_applies(s, op),
    ensures
        apply_op(apply_op(s, op), inverse_op(s, op)) == s,
        inverse_op(s, op).0 == op.0,
        op_applies(apply_op(s, op), inverse_op(s, op)),
{
    lemma_splice_round_trip(s, op.0, op.1, op.2);
}

impl EditOperation {
    /// Delete the bytes of `range`.
    pub fn delete(range: std::ops::Range<usize>) -> (r: EditOperation)
        ensures
            r@ == (range.start as int, range.end as int, Seq::<u8>::empty()),
    {
        EditOperation { start: range.start, end: range.end, data: Vec::new(), description: "Delete" }
    }

    /// Insert `data` at `offset`.
    pub fn insert(offset: usize, data: Vec<u8>) -> (r: EditOperation)
        ensures
            r@ == (offset as int, offset as int, data@),
    {
        EditOperation { start: offset, end: offset, data, description: "Insert" }
    }

    /// Write `data` over the bytes from `offset` on.
    pub fn write(offset: usize, data: Vec<u8>) -> (r: EditOperation)
        requires
            offset + data@.len() <= usize::MAX,
        ensures
            r@ == (offset as int, offset + data@.len(), data@),
    {
        let end = offset + data.len();
        EditOperation { start: offset, end, data, description: "Overwrite" }
    }
}

/// What the editor asks its owner to do with a file.
#[derive(Debug)]
pub enum PathRequest {
    /// Read this file and hand its contents to `open`.
    Open(String),
    /// Write the buffer to this file and report it to `save`.
    Save(String),
}

/// The prompt that has the focus, if any.
pub enum ChildWidget {
    Goto(InputLine, GotoInputLineBehavior),
    Find(InputLine, FindInputLine),
    Path(InputLine, PathInputLine),
    Overlay(OverlayText),
}

/// The help text that the help overlay shows.
pub const HELP_TEXT: &'static str = "Keys of the hex view:
  arrows, PgUp, PgDn, Home, End   move the cursor
  Tab                             switch between hex digits and characters
  Ins                             switch between inserting and overwriting
  Del, Backspace                  delete the byte at or before the cursor
  C-space                         start or drop a selection
  C-c, C-x, C-v                   copy, cut, paste
  C-z                             undo
  C-g                             go to a position (C-d, C-h, C-o: radix)
  C-f                             find (C-a, C-u, C-h: ascii, unicode, hex)
  C-o, C-s                        open, save
  C-l                             show the message log
  Esc                             close a prompt or this text";

/// What a key asks of the editor in its main view.
#[derive(Clone, Copy, Debug, PartialEq, Eq, Structural)]
pub enum HexEditActions {
    Edit(char),
    SwitchView,
    MoveLeft,
    MoveRight,
    MoveUp,
    MoveDown,
    MovePageUp,
    MovePageDown,
    MoveToFirstColumn,
    MoveToLastColumn,
    Delete,
    DeleteWithMove,
    CopySelection,
    CutSelection,
    PasteSelection,
    Undo,
    ToggleInsert,
    ToggleSelecion,
    HelpView,
    LogView,
    AskGoto,
    AskFind,
    AskOpen,
    AskSave,
    AskConfig,
    AskMarkAdd,
    AskMarkGoto,
    StartMenu,
}

/// Bound on a rectangle's sides, as `resize` takes them from an `i32`.
pub open spec fn side_limit() -> int {
    4294967296
}

/// Bound on the scroll offsets and on a cursor move.
pub open spec fn scroll_limit() -> int {
    1267650600228229401496703205376
}

/// A hex editor over one buffer.
pub struct HexEdit {
    buffer: SplitVec,
    config: Config,
    rect: Rect,
    /// The cursor position in nibbles: twice the byte offset, plus one on a low nibble.
    cursor_nibble_pos: Nibble,
    status_log: Vec<String>,
    show_last_status: bool,
    data_offset: i128,
    row_offset: i128,
    nibble_active: bool,
    selection_start: Option<isize>,
    insert_mode: bool,
    input: Input,
    undo_stack: Vec<EditOperation>,
    child_widget: Option<ChildWidget>,
    cur_path: Option<String>,
    clipboard: Option<Vec<u8>>,
}

/// An offset into the buffer in nibbles: twice the byte offset, plus one on the low
/// nibble of a byte.
#[derive(Clone, Copy, Debug, PartialEq, Eq, Structural)]
pub struct Nibble(pub isize);

impl Nibble {
    /// The position of the high nibble of byte `byte_pos`.
    pub fn from_bytes(byte_pos: isize) -> (r: Nibble)
        requires
            isize::MIN <= 2 * byte_pos <= isize::MAX,
        ensures
            r.0 == 2 * byte_pos,
    {
        Nibble(byte_pos * 2)
    }

    /// The byte that the nibble belongs to.
    pub fn to_bytes(&self) -> (r: isize)
        requires
            self.0 >= 0,
        ensures
            r == self.0 / 2,
    {
        self.0 / 2
    }

    /// Which nibble of its byte this is: 0 for the high one, 1 for the low one.
    pub fn nibble_bit(&self) -> (r: u8)
        requires
            self.0 >= 0,
        ensures
            r == self.0 % 2,
    {
        (self.0 % 2) as u8
    }
}

/// How line numbers are shown: not at all, as four hex digits, or as two groups of four.
#[derive(Clone, Copy, Debug, PartialEq, Eq, Structural)]
pub enum LineNumberMode {
    Hidden,
    Short,
    Long,
}

/// The uppercase hex digit of a value below sixteen.
fn upper_hex_digit(d: usize) -> (r: char)
    requires
        d < 16,
{
    if d < 10 {
        ((48 + d) as u8) as char
    } else {
        ((55 + d) as u8) as char
    }
}

/// Byte `b` with nibble `bit` (0 for the high one, 1 for the low one) replaced by `c`.
pub open spec fn nibble_set(b: u8, bit: int, c: u8) -> u8 {
    if bit == 0 {
        ((b & 0x0f) + c * 16) as u8
    } else {
        ((b & 0xf0) + c) as u8
    }
}

/// The actions that leave the buffer and the undo stack as they are.
pub open spec fn keeps_content(a: HexEditActions) -> bool {
    match a {
        HexEditActions::MoveLeft | HexEditActions::MoveRight | HexEditActions::MoveUp
        | HexEditActions::MoveDown | HexEditActions::MovePageUp | HexEditActions::MovePageDown
        | HexEditActions::MoveToFirstColumn | HexEditActions::MoveToLastColumn
        | HexEditActions::SwitchView | HexEditActions::ToggleInsert
        | HexEditActions::ToggleSelecion | HexEditActions::AskGoto | HexEditActions::AskFind
        | HexEditActions::AskOpen | HexEditActions::AskSave | HexEditActions::HelpView
        | HexEditActions::LogView | HexEditActions::AskConfig | HexEditActions::AskMarkAdd
        | HexEditActions::AskMarkGoto | HexEditActions::StartMenu => true,
        _ => false,
    }
}

/// Where a search for `needle` from `from` lands: the first occurrence at or after
/// `from`, or else the first one from the start.
#[verifier::opaque]
pub open spec fn search_target(s: Seq<u8>, needle: Seq<u8>, from: int) -> Option<int> {
    match first_occurrence(s, needle, from) {
        Some(p) => Some(p),
        None => first_occurrence(s, needle, 0),
    }
}

/// A content of this length has every nibble position in an `isize`.
pub open spec fn len_fits(len: int) -> bool {
    2 * len <= isize::MAX
}

impl HexEdit {
    /// The bytes being edited.
    pub closed spec fn content(&self) -> Seq<u8> {
        self.buffer@
    }

    /// The cursor position in nibbles.
    pub closed spec fn cursor(&self) -> int {
        self.cursor_nibble_pos.0 as int
    }

    /// The undo stack, oldest entry first.
    pub closed spec fn undo_ops(&self) -> Seq<OpModel> {
        self.undo_stack@.map_values(|o: EditOperation| o@)
    }

    /// Whether typing inserts rather than overwrites.
    pub closed spec fn inserting(&self) -> bool {
        self.insert_mode
    }

    /// The selection, the editing modes, the prompt and the clipboard are those of `o`.
    pub closed spec fn same_modes(&self, o: HexEdit) -> bool {
        &&& self.selection_start == o.selection_start
        &&& self.insert_mode == o.insert_mode
        &&& self.nibble_active == o.nibble_active
        &&& self.child_widget == o.child_widget
        &&& self.clipboard == o.clipboard
    }

    /// Whether typing goes to the hex digits rather than to the characters.
    pub closed spec fn hex_view_active(&self) -> bool {
        self.nibble_active
    }

    /// The file the buffer was last opened from or saved to.
    pub closed spec fn file_path(&self) -> Option<Seq<char>> {
        match self.cur_path {
            Some(p) => Some(p@),
            None => None,
        }
    }

    /// The newest message of the status log.
    pub closed spec fn last_status(&self) -> Option<Seq<char>> {
        if self.status_log@.len() > 0 {
            Some(self.status_log@.last()@)
        } else {
            None
        }
    }

    /// The display settings.
    pub closed spec fn settings(&self) -> Config {
        self.config
    }

    /// Whether a prompt has the focus.
    pub closed spec fn prompting(&self) -> bool {
        self.child_widget.is_some()
    }

    /// The selection's anchor, in bytes.
    pub closed spec fn selection(&self) -> Option<isize> {
        self.selection_start
    }

    /// The state is consistent: the buffer is well formed and small enough for nibble
    /// positions, the cursor lies in it, and the layout values are bounded.
    pub closed spec fn wf(&self) -> bool {
        &&& self.buffer.wf()
        &&& len_fits(self.buffer@.len() as int)
        &&& 0 <= self.cursor_nibble_pos.0 <= 2 * self.buffer@.len()
        &&& match self.selection_start {
            Some(s) => 0 <= s && len_fits(s as int),
            None => true,
        }
        &&& -side_limit() <= self.rect.width <= side_limit()
        &&& -side_limit() <= self.rect.height <= side_limit()
        &&& -scroll_limit() <= self.data_offset <= scroll_limit()
        &&& -scroll_limit() <= self.row_offset <= scroll_limit()
        &&& match self.child_widget {
            Some(ChildWidget::Goto(l, _)) => l.wf(),
            Some(ChildWidget::Find(l, _)) => l.wf(),
            Some(ChildWidget::Path(l, _)) => l.wf(),
            Some(ChildWidget::Overlay(_)) => true,
            None => true,
        }
    }

    /// A consistent editor has a buffer small enough for nibble positions and a cursor
    /// inside it.
    pub proof fn lemma_wf_bounds(&self)
        requires
            self.wf(),
        ensures
            len_fits(self.content().len() as int),
            0 <= self.cursor() <= 2 * self.content().len(),
    {
    }

    /// An editor over an empty buffer, with the default settings.
    pub fn new() -> (r: HexEdit)
        ensures
            r.wf(),
            r.content() == Seq::<u8>::empty(),
            r.cursor() == 0,
            r.undo_ops() == Seq::<OpModel>::empty(),
            !r.inserting(),
            r.selection().is_none(),
            r.hex_view_active(),
            !r.prompting(),
            r.file_path().is_none(),
    {
        let mut status_log: Vec<String> = Vec::new();
        status_log.push("Press C-/ for help".to_string());
        let r = HexEdit {
            buffer: SplitVec::new(),
            config: Config::default(),
            rect: Rect { top: 0, left: 0, height: 0, width: 0 },
            cursor_nibble_pos: Nibble(0),
            status_log,
            show_last_status: true,
            data_offset: 0,
            row_offset: 0,
            nibble_active: true,
            selection_start: None,
            insert_mode: false,
            input: Input::new(),
            undo_stack: Vec::new(),
            child_widget: None,
            cur_path: None,
            clipboard: None,
        };
        proof {
            assert(r.undo_ops() =~= Seq::<OpModel>::empty());
        }
        r
    }

    /// Show a message in the status line and keep it in the log.
    fn status(&mut self, st: &str)
        ensures
            final(self).buffer == old(self).buffer,
            final(self).cursor_nibble_pos == old(self).cursor_nibble_pos,
            final(self).undo_stack == old(self).undo_stack,
            final(self).selection_start == old(self).selection_start,
            final(self).insert_mode == old(self).insert_mode,
            final(self).rect == old(self).rect,
            final(self).data_offset == old(self).data_offset,
            final(self).row_offset == old(self).row_offset,
            final(self).child_widget == old(self).child_widget,
            final(self).config == old(self).config,
            final(self).nibble_active == old(self).nibble_active,
            final(self).clipboard == old(self).clipboard,
            final(self).cur_path == old(self).cur_path,
            final(self).last_status() == Some(st@),
    {
        self.show_last_status = true;
        self.status_log.push(<String as StringExecFns>::from_str(st));
    }

    /// Show a message that ends in a number.
    fn status_with(&mut self, prefix: &str, n: i128)
        ensures
            final(self).buffer == old(self).buffer,
            final(self).cursor_nibble_pos == old(self).cursor_nibble_pos,
            final(self).undo_stack == old(self).undo_stack,
            final(self).selection_start == old(self).selection_start,
            final(self).insert_mode == old(self).insert_mode,
            final(self).rect == old(self).rect,
            final(self).data_offset == old(self).data_offset,
            final(self).row_offset == old(self).row_offset,
            final(self).child_widget == old(self).child_widget,
            final(self).config == old(self).config,
            final(self).nibble_active == old(self).nibble_active,
            final(self).clipboard == old(self).clipboard,
            final(self).cur_path == old(self).cur_path,
            final(self).last_status() == Some(prefix@ + decimal_text(n as int)),
    {
        let number = decimal(n);
        let message = concat(prefix, number.as_str());
        self.status(message.as_str());
    }

    /// Hide the status line's message.
    fn clear_status(&mut self)
        ensures
            final(self).buffer == old(self).buffer,
            final(self).cursor_nibble_pos == old(self).cursor_nibble_pos,
            final(self).undo_stack == old(self).undo_stack,
            final(self).selection_start == old(self).selection_start,
            final(self).insert_mode == old(self).insert_mode,
            final(self).rect == old(self).rect,
            final(self).data_offset == old(self).data_offset,
            final(self).row_offset == old(self).row_offset,
            final(self).child_widget == old(self).child_widget,
            final(self).config == old(self).config,
            final(self).nibble_active == old(self).nibble_active,
            final(self).clipboard == old(self).clipboard,
            final(self).cur_path == old(self).cur_path,
            final(self).status_log == old(self).status_log,
    {
        self.show_last_status = false;
    }

    /// Apply `operation` to the buffer as a splice: the part of its range that exists is
    /// replaced by its bytes. With `add_to_undo`, the inverse operation is pushed on the
    /// undo stack. An operation that does not apply, or that would make the buffer too
    /// large, changes nothing. Returns the affected range.
    pub fn edit_buffer(&mut self, operation: EditOperation, add_to_undo: bool) -> (r: Option<(usize, usize)>)
        requires
            old(self).wf(),
        ensures
            final(self).wf(),
            final(self).cursor() == if old(self).cursor() <= 2 * final(self).content().len() {
                old(self).cursor()
            } else {
                2 * final(self).content().len() as int
            },
            final(self).same_modes(*old(self)),
            ({
                let op = operation@;
                let s = old(self).content();
                if op_applies(s, op) && len_fits(apply_op(s, op).len() as int) {
                    &&& final(self).content() == apply_op(s, op)
                    &&& r == Some((op.0 as usize, (op.0 + op.2.len()) as usize))
                    &&& final(self).undo_ops() == if add_to_undo {
                        old(self).undo_ops().push(inverse_op(s, op))
                    } else {
                        old(self).undo_ops()
                    }
                } else {
                    &&& final(self).content() == s
                    &&& r == None::<(usize, usize)>
                    &&& final(self).undo_ops() == old(self).undo_ops()
                }
            }),
    {
        let begin = operation.start;
        let end = operation.end;
        let len = self.buffer.len();
        let n = operation.data.len();
        if end < begin || begin > len {
            return None;
        }
        let keep = if end < len {
            len - end
        } else {
            0
        };
        let half = (isize::MAX as usize) / 2;
        if n > half || begin > half - n || keep > half - begin - n {
            return None;
        }
        proof {
            let s = self.buffer@;
            assert(apply_op(s, operation@).len() == begin + n + keep);
        }
        let orig_data = match self.buffer.splice(begin..end, operation.data.as_slice()) {
            Ok(d) => d,
            Err(_) => {
                return None;
            },
        };
        if self.cursor_nibble_pos.0 > 2 * (self.buffer.len() as isize) {
            self.cursor_nibble_pos = Nibble::from_bytes(self.buffer.len() as isize);
        }
        if add_to_undo {
            let undo_operation = EditOperation {
                start: begin,
                end: begin + n,
                data: orig_data,
                description: operation.description,
            };
            self.undo_stack.push(undo_operation);
            proof {
                assert(self.undo_ops() =~= old(self).undo_ops().push(inverse_op(old(self).content(), operation@)));
            }
        }
        Some((begin, begin + n))
    }

    /// Take back the most recent operation on the undo stack, without recording an undo
    /// entry for that, and move the cursor to where it started. Returns that offset, or
    /// `None` when there is nothing to undo.
    pub fn undo(&mut self) -> (r: Option<usize>)
        requires
            old(self).wf(),
        ensures
            final(self).wf(),
            final(self).same_modes(*old(self)),
            old(self).undo_ops().len() == 0 ==> r == None::<usize> && final(self).content()
                == old(self).content() && final(self).undo_ops() == old(self).undo_ops()
                && final(self).cursor() == old(self).cursor(),
            old(self).undo_ops().len() > 0 ==> ({
                let op = old(self).undo_ops().last();
                let s = old(self).content();
                &&& final(self).undo_ops() == old(self).undo_ops().drop_last()
                &&& r == Some(op.0 as usize)
                &&& op_applies(s, op) && len_fits(apply_op(s, op).len() as int) ==> {
                    &&& final(self).content() == apply_op(s, op)
                    &&& final(self).cursor() == 2 * op.0
                }
                &&& !(op_applies(s, op) && len_fits(apply_op(s, op).len() as int))
                    ==> final(self).content() == s
            }),
    {
        match self.undo_stack.pop() {
            Some(operation) => {
                let begin = operation.start;
                proof {
                    assert(self.undo_ops() =~= old(self).undo_ops().drop_last());
                }
                let _ = self.edit_buffer(operation, false);
                self.set_cursor(2 * (begin as i128));
                Some(begin)
            },
            None => None,
        }
    }

    /// Move the cursor to nibble `pos`, held inside the buffer.
    fn set_cursor(&mut self, pos: i128)
        requires
            old(self).wf(),
        ensures
            final(self).wf(),
            final(self).buffer == old(self).buffer,
            final(self).undo_stack == old(self).undo_stack,
            final(self).selection_start == old(self).selection_start,
            final(self).insert_mode == old(self).insert_mode,
            final(self).child_widget == old(self).child_widget,
            final(self).clipboard == old(self).clipboard,
            final(self).nibble_active == old(self).nibble_active,
            final(self).cursor() == if pos < 0 {
                0
            } else if pos > 2 * old(self).content().len() {
                2 * old(self).content().len() as int
            } else {
                pos as int
            },
            final(self).status_log == old(self).status_log,
    {
        let top = 2 * (self.buffer.len() as i128);
        let p = if pos < 0 {
            0
        } else if pos > top {
            top
        } else {
            pos
        };
        self.cursor_nibble_pos = Nibble(p as isize);
    }
}

impl HexEdit {
    /// Cells taken by the line numbers, with the space after them.
    fn get_linenumber_mode(&self) -> (r: LineNumberMode)
        requires
            self.wf(),
    {
        if !self.config.show_linenum {
            LineNumberMode::Hidden
        } else if self.buffer.len() <= 0xFFFF {
            LineNumberMode::Short
        } else {
            LineNumberMode::Long
        }
    }

    /// Cells taken by the line numbers, with the space after them.
    fn get_linenumber_width(&self) -> (r: i128)
        requires
            self.wf(),
        ensures
            1 <= r <= 10,
    {
        match self.get_linenumber_mode() {
            LineNumberMode::Hidden => 1,
            LineNumberMode::Short => 5,
            LineNumberMode::Long => 10,
        }
    }

    /// Bytes that fit on a line of the hex view: whole groups only.
    fn get_bytes_per_row(&self) -> (r: i128)
        requires
            self.wf(),
        ensures
            0 <= r <= 1099511627776,
    {
        let byte_width = self.rect.width as i128 - self.get_linenumber_width();
        let cells_per_byte: i128 = if self.config.show_ascii {
            3
        } else {
            2
        };
        let group = self.config.group_bytes as i128;
        let cells_per_group = group * cells_per_byte + 1;
        if byte_width <= 0 {
            return 0;
        }
        let num_of_groups = byte_width / cells_per_group;
        proof {
            assert(num_of_groups <= byte_width) by (nonlinear_arith)
                requires
                    byte_width > 0,
                    cells_per_group >= 1,
                    num_of_groups == byte_width / cells_per_group,
            ;
            assert(num_of_groups * group <= 1099511627776) by (nonlinear_arith)
                requires
                    0 <= num_of_groups <= 4294967296,
                    0 <= group <= 255,
            ;
        }
        num_of_groups * group
    }

    /// Bytes shown per line: the configured width, or as many as fit.
    fn get_line_width(&self) -> (r: i128)
        requires
            self.wf(),
        ensures
            0 <= r <= 1099511627776,
    {
        match self.config.line_width {
            Some(w) => w as i128,
            None => self.get_bytes_per_row(),
        }
    }

    /// Bytes shown on one screen.
    fn get_bytes_per_screen(&self) -> (r: i128)
        requires
            self.wf(),
        ensures
            -4722366482869645213696 <= r <= 4722366482869645213696,
    {
        let lw = self.get_line_width();
        let h = self.rect.height as i128;
        proof {
            assert(-4722366482869645213696 <= lw * h <= 4722366482869645213696)
                by (nonlinear_arith)
                requires
                    0 <= lw <= 1099511627776,
                    -4294967296 <= h <= 4294967296,
            ;
        }
        lw * h
    }

    /// Whether the cursor is just past the last byte.
    fn cursor_at_end(&self) -> (r: bool)
        requires
            self.wf(),
        ensures
            r == (self.cursor() == 2 * self.content().len()),
    {
        self.cursor_nibble_pos.0 as i128 == 2 * (self.buffer.len() as i128)
    }

    /// Hold the cursor inside the buffer and scroll the view so that it shows the cursor.
    fn update_cursor(&mut self)
        requires
            old(self).wf(),
        ensures
            final(self).wf(),
            final(self).buffer == old(self).buffer,
            final(self).undo_stack == old(self).undo_stack,
            final(self).selection_start == old(self).selection_start,
            final(self).insert_mode == old(self).insert_mode,
            final(self).child_widget == old(self).child_widget,
            final(self).clipboard == old(self).clipboard,
            final(self).nibble_active == old(self).nibble_active,
            final(self).cursor() == old(self).cursor(),
            final(self).status_log == old(self).status_log,
    {
        let cursor_byte_pos = self.cursor_nibble_pos.to_bytes() as i128;
        let lw = self.get_line_width();
        if lw < 1 {
            return ;
        }
        let cursor_row_offset = cursor_byte_pos % lw;
        let bps = self.get_bytes_per_screen();
        if cursor_byte_pos < self.data_offset {
            self.data_offset = cursor_byte_pos - cursor_row_offset;
        }
        if cursor_byte_pos > self.data_offset + bps - 1 {
            self.data_offset = cursor_byte_pos - cursor_row_offset - bps + lw;
        }
        if cursor_row_offset < self.row_offset {
            self.row_offset = cursor_row_offset;
        }
        let bpr = self.get_bytes_per_row();
        if cursor_row_offset >= self.row_offset + bpr {
            self.row_offset = cursor_row_offset - bpr + 1;
        }
    }

    /// Move the cursor by `delta` nibbles, held inside the buffer.
    fn move_cursor(&mut self, delta: i128)
        requires
            old(self).wf(),
            -scroll_limit() <= delta <= scroll_limit(),
        ensures
            final(self).wf(),
            final(self).buffer == old(self).buffer,
            final(self).undo_stack == old(self).undo_stack,
            final(self).selection_start == old(self).selection_start,
            final(self).insert_mode == old(self).insert_mode,
            final(self).child_widget == old(self).child_widget,
            final(self).clipboard == old(self).clipboard,
            final(self).nibble_active == old(self).nibble_active,
            ({
                let t = old(self).cursor() + delta;
                final(self).cursor() == if t < 0 {
                    0
                } else if t > 2 * old(self).content().len() {
                    2 * old(self).content().len() as int
                } else {
                    t
                }
            }),
    {
        let target = self.cursor_nibble_pos.0 as i128 + delta;
        self.set_cursor(target);
        self.update_cursor();
    }

    /// Move the cursor to nibble `pos` and scroll to it.
    fn jump_cursor(&mut self, pos: i128)
        requires
            old(self).wf(),
        ensures
            final(self).wf(),
            final(self).buffer == old(self).buffer,
            final(self).undo_stack == old(self).undo_stack,
            final(self).selection_start == old(self).selection_start,
            final(self).insert_mode == old(self).insert_mode,
            final(self).child_widget == old(self).child_widget,
            final(self).clipboard == old(self).clipboard,
            final(self).nibble_active == old(self).nibble_active,
            final(self).cursor() == if pos < 0 {
                0
            } else if pos > 2 * old(self).content().len() {
                2 * old(self).content().len() as int
            } else {
                pos as int
            },
            final(self).status_log == old(self).status_log,
    {
        self.set_cursor(pos);
        self.update_cursor();
    }

    /// Delete the selection, or the byte at the cursor, or with `with_bksp` the byte
    /// before the cursor; the cursor goes to where the deletion started.
    fn delete_at_cursor(&mut self, with_bksp: bool)
        requires
            old(self).wf(),
        ensures
            final(self).wf(),
            final(self).nibble_active == old(self).nibble_active,
    {
        let cur = self.cursor_nibble_pos.to_bytes();
        let mut cursor_byte = cur;
        let selection_pos = match self.selection_start {
            Some(s) => s,
            None => {
                if with_bksp {
                    if cur < 1 {
                        return ;
                    }
                    cursor_byte = self.cursor_nibble_pos.to_bytes() - 1;
                }
                cursor_byte
            },
        };
        let del_start = if selection_pos < cursor_byte {
            selection_pos
        } else {
            cursor_byte
        };
        let larger = if selection_pos < cursor_byte {
            cursor_byte
        } else {
            selection_pos
        };
        let mut del_stop = larger + 1;
        if del_stop > self.buffer.len() as isize {
            del_stop = del_stop - 1;
            if del_stop == del_start {
                return ;
            }
        }
        if self.buffer.len() == 0 {
            self.status("Nothing to delete");
            return ;
        }
        self.selection_start = None;
        let _ = self.edit_buffer(EditOperation::delete(del_start as usize..del_stop as usize), true);
        self.jump_cursor(2 * (del_start as i128));
    }

    /// Write the nibble `c` over the nibble at the cursor.
    fn set_nibble_at_cursor(&mut self, c: u8)
        requires
            old(self).wf(),
            c < 16,
            old(self).cursor() < 2 * old(self).content().len(),
        ensures
            final(self).wf(),
            ({
                let i = old(self).cursor() / 2;
                let s = old(self).content();
                let nb = nibble_set(s[i], old(self).cursor() % 2, c);
                &&& final(self).content() == s.update(i, nb)
                &&& final(self).undo_ops() == old(self).undo_ops().push(
                    inverse_op(s, (i, i + 1, seq![nb])),
                )
            }),
            final(self).cursor() == old(self).cursor(),
            final(self).same_modes(*old(self)),
    {
        let offset = self.cursor_nibble_pos.to_bytes() as usize;
        let old_byte = match self.buffer.get(offset) {
            Ok(b) => b,
            Err(_) => {
                return ;
            },
        };
        let byte: u8 = if self.cursor_nibble_pos.nibble_bit() == 0 {
            assert((old_byte & 0x0f) <= 15) by (bit_vector);
            (old_byte & 0x0f) + c * 16
        } else {
            assert((old_byte & 0xf0) <= 240) by (bit_vector);
            (old_byte & 0xf0) + c
        };
        let mut data: Vec<u8> = Vec::new();
        data.push(byte);
        proof {
            let s = self.buffer@;
            let i = offset as int;
            assert(byte == nibble_set(s[i], self.cursor() % 2, c));
            assert(apply_op(s, (i, i + 1, data@)) =~= s.update(i, byte));
            assert(data@ =~= seq![byte]);
        }
        let _ = self.edit_buffer(EditOperation::write(offset, data), true);
    }

    /// Insert a byte whose high nibble is `c`, unless the cursor is on a low nibble,
    /// where the nibble is written over.
    fn insert_nibble_at_cursor(&mut self, c: u8)
        requires
            old(self).wf(),
            c < 16,
        ensures
            final(self).wf(),
            final(self).nibble_active == old(self).nibble_active,
    {
        if self.cursor_nibble_pos.nibble_bit() == 1 {
            self.set_nibble_at_cursor(c);
            return ;
        }
        let offset = self.cursor_nibble_pos.to_bytes() as usize;
        let mut data: Vec<u8> = Vec::new();
        data.push(c * 16);
        let _ = self.edit_buffer(EditOperation::insert(offset, data), true);
    }

    /// Type the nibble `c`: the selection goes first; then it is inserted in insert mode
    /// or at the end, and written over the cursor's nibble otherwise.
    fn write_nibble_at_cursor(&mut self, c: u8)
        requires
            old(self).wf(),
            c < 16,
        ensures
            final(self).wf(),
            old(self).selection_start.is_none() && !old(self).insert_mode && old(self).cursor()
                < 2 * old(self).content().len() ==> {
                let i = old(self).cursor() / 2;
                let s = old(self).content();
                let nb = nibble_set(s[i], old(self).cursor() % 2, c);
                &&& final(self).content() == s.update(i, nb)
                &&& final(self).undo_ops() == old(self).undo_ops().push(
                    inverse_op(s, (i, i + 1, seq![nb])),
                )
                &&& final(self).cursor() == old(self).cursor()
                &&& final(self).same_modes(*old(self))
            },
            final(self).nibble_active == old(self).nibble_active,
    {
        if self.selection_start.is_some() {
            self.delete_at_cursor(false);
        }
        if self.insert_mode || self.cursor_at_end() {
            self.insert_nibble_at_cursor(c);
        } else {
            self.set_nibble_at_cursor(c);
        }
    }

    /// Type the byte `c`: the selection goes first; then it is inserted in insert mode or
    /// at the end, and written over the cursor's byte otherwise.
    fn write_byte_at_cursor(&mut self, c: u8)
        requires
            old(self).wf(),
        ensures
            final(self).wf(),
    {
        if self.selection_start.is_some() {
            self.delete_at_cursor(false);
        }
        let offset = self.cursor_nibble_pos.to_bytes() as usize;
        let mut data: Vec<u8> = Vec::new();
        data.push(c);
        if self.insert_mode || self.cursor_at_end() {
            let _ = self.edit_buffer(EditOperation::insert(offset, data), true);
        } else {
            let _ = self.edit_buffer(EditOperation::write(offset, data), true);
        }
    }

    /// Start or drop a selection anchored at the cursor.
    fn toggle_selection(&mut self)
        requires
            old(self).wf(),
        ensures
            final(self).wf(),
            final(self).buffer == old(self).buffer,
            final(self).undo_stack == old(self).undo_stack,
    {
        match self.selection_start {
            Some(_) => self.selection_start = None,
            None => self.selection_start = Some(self.cursor_nibble_pos.to_bytes()),
        }
    }

    /// Move the cursor to byte `pos`.
    fn goto(&mut self, pos: isize)
        requires
            old(self).wf(),
        ensures
            final(self).wf(),
            final(self).content() == old(self).content(),
    {
        self.status_with("Going to ", pos as i128);
        self.jump_cursor(2 * (pos as i128));
    }

    /// Move the cursor to the next occurrence of `needle` at or after it, or else to the
    /// first one from the start.
    /// The next occurrence of `needle` at or after the cursor, or else the first one from
    /// the start.
    fn find_next(&self, needle: &[u8]) -> (r: Option<usize>)
        requires
            self.wf(),
        ensures
            match r {
                Some(p) => search_target(self.content(), needle@, self.cursor() / 2) == Some(
                    p as int,
                ) && p < self.content().len(),
                None => search_target(self.content(), needle@, self.cursor() / 2) == None::<int>,
            },
    {
        reveal(search_target);
        let from = self.cursor_nibble_pos.to_bytes() as usize;
        proof {
            lemma_first_occurrence_bounds(self.buffer@, needle@, from as int);
            lemma_first_occurrence_bounds(self.buffer@, needle@, 0);
        }
        match self.buffer.find_slice_from(from, needle) {
            Some(p) => Some(p),
            None => self.buffer.find_slice_from(0, needle),
        }
    }

    /// Move the cursor to the next occurrence of `needle` at or after it, or else to the
    /// first one from the start; without any, the cursor stays.
    fn find_buf(&mut self, needle: &[u8])
        requires
            old(self).wf(),
        ensures
            final(self).wf(),
            final(self).content() == old(self).content(),
            final(self).undo_ops() == old(self).undo_ops(),
            match search_target(old(self).content(), needle@, old(self).cursor() / 2) {
                Some(p) => final(self).cursor() == 2 * p && final(self).last_status() == Some(
                    "Found at "@ + decimal_text(p),
                ),
                None => final(self).cursor() == old(self).cursor() && final(self).last_status()
                    == Some("Nothing found!"@),
            },
    {
        let found = self.find_next(needle);
        match found {
            Some(pos) => {
                self.status_with("Found at ", pos as i128);
                self.jump_cursor(2 * (pos as i128));
            },
            None => {
                self.status("Nothing found!");
            },
        }
    }

    /// Copy the selection, both ends included, to the clipboard. Returns how many bytes
    /// were copied; `None` without a selection.
    fn read_cursor_to_clipboard(&mut self) -> (r: Option<usize>)
        requires
            old(self).wf(),
        ensures
            final(self).wf(),
            final(self).content() == old(self).content(),
            final(self).selection_start == old(self).selection_start,
            final(self).cursor() == old(self).cursor(),
            final(self).undo_stack == old(self).undo_stack,
    {
        let cur = self.cursor_nibble_pos.to_bytes();
        let (start, stop) = match self.selection_start {
            None => {
                return None;
            },
            Some(s) => if s < cur {
                (s, cur)
            } else {
                (cur, s)
            },
        };
        let data = match self.buffer.copy_out(start as usize..(stop as usize) + 1) {
            Ok(d) => d,
            Err(_) => {
                return None;
            },
        };
        let n = data.len();
        self.clipboard = Some(data);
        Some(n)
    }

    /// Copy the selection to the clipboard and drop the selection.
    fn edit_copy(&mut self)
        requires
            old(self).wf(),
        ensures
            final(self).wf(),
    {
        if let Some(n) = self.read_cursor_to_clipboard() {
            self.status_with("Copied ", n as i128);
            self.selection_start = None;
        }
    }

    /// Copy the selection to the clipboard and delete it.
    fn edit_cut(&mut self)
        requires
            old(self).wf(),
        ensures
            final(self).wf(),
    {
        if let Some(n) = self.read_cursor_to_clipboard() {
            self.delete_at_cursor(false);
            self.status_with("Cut ", n as i128);
        }
    }

    /// Put the clipboard at the cursor: inserted in insert mode, written over what is
    /// there otherwise (a paste that runs past the end extends the buffer). The cursor
    /// moves past it.
    fn edit_paste(&mut self)
        requires
            old(self).wf(),
        ensures
            final(self).wf(),
    {
        let data = match &self.clipboard {
            Some(d) => copy_bytes(d.as_slice()),
            None => {
                return ;
            },
        };
        let n = data.len();
        let offset = self.cursor_nibble_pos.to_bytes() as usize;
        let applied = if self.insert_mode {
            self.edit_buffer(EditOperation::insert(offset, data), true)
        } else {
            if n > usize::MAX - offset {
                return ;
            }
            self.edit_buffer(EditOperation::write(offset, data), true)
        };
        if applied.is_some() {
            self.move_cursor(2 * (n as i128));
        }
    }
}

/// A copy of `src`.
fn copy_bytes(src: &[u8]) -> (r: Vec<u8>)
    ensures
        r@ == src@,
{
    let mut v: Vec<u8> = Vec::new();
    let mut k: usize = 0;
    while k < src.len()
        invariant
            k <= src@.len(),
            v@ == src@.take(k as int),
        decreases src@.len() - k,
    {
        v.push(src[k]);
        k = k + 1;
        proof {
            assert(v@ =~= src@.take(k as int));
        }
    }
    proof {
        assert(src@.take(src@.len() as int) =~= src@);
    }
    v
}

/// The value of a hex digit of either case; 16 for anything else.
pub open spec fn ch_hex_value(ch: char) -> int {
    if '0' <= ch <= '9' {
        ch as int - 48
    } else if 'a' <= ch <= 'f' {
        ch as int - 87
    } else if 'A' <= ch <= 'F' {
        ch as int - 55
    } else {
        16
    }
}

/// The nibble value of a hex digit of either case.
fn hex_digit_value(ch: char) -> (r: Option<u8>)
    ensures
        match r {
            Some(v) => v < 16 && v == ch_hex_value(ch),
            None => ch_hex_value(ch) == 16,
        },
{
    if '0' <= ch && ch <= '9' {
        Some(((ch as u32) - 48) as u8)
    } else if 'a' <= ch && ch <= 'f' {
        Some(((ch as u32) - 87) as u8)
    } else if 'A' <= ch && ch <= 'F' {
        Some(((ch as u32) - 55) as u8)
    } else {
        None
    }
}

/// An ASCII letter or digit.
fn is_ascii_alphanumeric(ch: char) -> (r: bool)
    ensures
        r ==> (ch as u32) < 128,
{
    ('0' <= ch && ch <= '9') || ('a' <= ch && ch <= 'z') || ('A' <= ch && ch <= 'Z')
}

impl HexEdit {
    /// Carry out an action of the main view.
    fn do_action(&mut self, action: HexEditActions)
        requires
            old(self).wf(),
        ensures
            final(self).wf(),
            keeps_content(action) ==> final(self).content() == old(self).content()
                && final(self).undo_ops() == old(self).undo_ops(),
            action == HexEditActions::ToggleInsert ==> final(self).inserting() == !old(self).inserting(),
            ({
                let s = old(self).content();
                let i = old(self).cursor() / 2;
                match action {
                    HexEditActions::Edit(ch) => old(self).nibble_active && old(self).selection_start.is_none() && !old(self).insert_mode && old(self).cursor() < 2
                        * s.len() && ch_hex_value(ch) < 16 ==> {
                        let nb = nibble_set(s[i], old(self).cursor() % 2, ch_hex_value(ch) as u8);
                        &&& final(self).content() == s.update(i, nb)
                        &&& final(self).undo_ops() == old(self).undo_ops().push(
                            inverse_op(s, (i, i + 1, seq![nb])),
                        )
                        &&& final(self).cursor() == old(self).cursor() + 1
                        &&& final(self).same_modes(*old(self))
                    },
                    _ => true,
                }
            }),
    {
        self.clear_status();
        match action {
            HexEditActions::MoveLeft => {
                if self.nibble_active {
                    self.move_cursor(-1);
                } else {
                    self.move_cursor(-2);
                }
            },
            HexEditActions::MoveRight => {
                if self.nibble_active {
                    self.move_cursor(1);
                } else {
                    self.move_cursor(2);
                }
            },
            HexEditActions::MoveUp => {
                let t = self.get_line_width();
                self.move_cursor(0 - 2 * t);
            },
            HexEditActions::MoveDown => {
                let t = self.get_line_width();
                self.move_cursor(2 * t);
            },
            HexEditActions::MovePageUp => {
                let t = self.get_bytes_per_screen();
                self.move_cursor(0 - 2 * t);
            },
            HexEditActions::MovePageDown => {
                let t = self.get_bytes_per_screen();
                self.move_cursor(2 * t);
            },
            HexEditActions::MoveToFirstColumn => {
                let lw = self.get_line_width();
                if lw >= 1 {
                    let pos_in_line = self.cursor_nibble_pos.to_bytes() as i128 % lw;
                    self.move_cursor(0 - 2 * pos_in_line);
                }
            },
            HexEditActions::MoveToLastColumn => {
                let lw = self.get_line_width();
                if lw >= 1 {
                    let pos_in_line = self.cursor_nibble_pos.to_bytes() as i128 % lw;
                    self.move_cursor(2 * (lw - 1 - pos_in_line));
                }
            },
            HexEditActions::Delete => self.delete_at_cursor(false),
            HexEditActions::DeleteWithMove => self.delete_at_cursor(true),
            HexEditActions::CutSelection => self.edit_cut(),
            HexEditActions::CopySelection => self.edit_copy(),
            HexEditActions::PasteSelection => self.edit_paste(),
            HexEditActions::Edit(ch) => {
                if self.nibble_active {
                    if let Some(val) = hex_digit_value(ch) {
                        self.write_nibble_at_cursor(val);
                        self.move_cursor(1);
                    }
                } else if is_ascii_alphanumeric(ch) {
                    self.write_byte_at_cursor(ch as u8);
                    self.move_cursor(2);
                }
            },
            HexEditActions::SwitchView => {
                self.nibble_active = !self.nibble_active;
            },
            HexEditActions::ToggleInsert => self.toggle_insert_mode(),
            HexEditActions::ToggleSelecion => self.toggle_selection(),
            HexEditActions::Undo => {
                let _ = self.undo();
                self.update_cursor();
            },
            HexEditActions::AskGoto => {
                self.child_widget = Some(
                    ChildWidget::Goto(InputLine::new(), GotoInputLineBehavior::new()),
                );
            },
            HexEditActions::AskFind => {
                self.child_widget = Some(
                    ChildWidget::Find(InputLine::new(), FindInputLine::new()),
                );
            },
            HexEditActions::AskOpen => {
                self.child_widget = Some(
                    ChildWidget::Path(InputLine::new(), PathInputLine::new(PathInputType::Open)),
                );
            },
            HexEditActions::AskSave => {
                self.child_widget = Some(
                    ChildWidget::Path(InputLine::new(), PathInputLine::new(PathInputType::Save)),
                );
            },
            HexEditActions::HelpView => {
                self.child_widget = Some(
                    ChildWidget::Overlay(OverlayText::with_text(HELP_TEXT.to_string(), false)),
                );
                self.status("Press Esc to return");
            },
            HexEditActions::LogView => {
                let logs = self.status_log.clone();
                self.child_widget = Some(ChildWidget::Overlay(OverlayText::with_logs(logs, true)));
            },
            _ => self.status("Operation not implemented yet"),
        }
    }

    /// Hand a key to the prompt that has the focus. Returns the file request that a
    /// confirmed path prompt makes.
    fn child_input(&mut self, child: ChildWidget, key: KeyPress) -> (r: Option<PathRequest>)
        requires
            old(self).wf(),
            old(self).child_widget.is_none(),
            match child {
                ChildWidget::Goto(l, _) => l.wf(),
                ChildWidget::Find(l, _) => l.wf(),
                ChildWidget::Path(l, _) => l.wf(),
                ChildWidget::Overlay(_) => true,
            },
        ensures
            final(self).wf(),
    {
        if let ChildWidget::Overlay(overlay) = child {
            if overlay.input(&self.input, key) {
                self.clear_status();
            } else {
                self.child_widget = Some(ChildWidget::Overlay(overlay));
            }
            return None;
        }
        let action = match self.input.inputline_input(key) {
            Some(a) => a,
            None => {
                self.child_widget = Some(child);
                return None;
            },
        };
        match child {
            ChildWidget::Goto(mut line, mut behavior) => {
                match line.edit(action) {
                    LineOutcome::Enter => {
                        if behavior.is_valid {
                            match behavior.get_pos(line.data()) {
                                Some(pos) => self.goto(pos),
                                None => self.status("Bad position!"),
                            }
                        } else {
                            self.child_widget = Some(ChildWidget::Goto(line, behavior));
                        }
                    },
                    LineOutcome::Cancel => self.clear_status(),
                    LineOutcome::Shortcut(c) => {
                        behavior.do_shortcut(c);
                        behavior.do_update(line.data());
                        self.child_widget = Some(ChildWidget::Goto(line, behavior));
                    },
                    LineOutcome::Edited => {
                        behavior.do_update(line.data());
                        self.child_widget = Some(ChildWidget::Goto(line, behavior));
                    },
                }
                None
            },
            ChildWidget::Find(mut line, mut behavior) => {
                match line.edit(action) {
                    LineOutcome::Enter => {
                        match behavior.do_find(line.data()) {
                            Some(needle) => self.find_buf(needle.as_slice()),
                            None => self.status("Bad hex value"),
                        }
                    },
                    LineOutcome::Cancel => self.clear_status(),
                    LineOutcome::Shortcut(c) => {
                        behavior.do_shortcut(c);
                        behavior.do_update(line.data());
                        self.child_widget = Some(ChildWidget::Find(line, behavior));
                    },
                    LineOutcome::Edited => {
                        behavior.do_update(line.data());
                        self.child_widget = Some(ChildWidget::Find(line, behavior));
                    },
                }
                None
            },
            ChildWidget::Overlay(overlay) => {
                self.child_widget = Some(ChildWidget::Overlay(overlay));
                None
            },
            ChildWidget::Path(mut line, behavior) => {
                match line.edit(action) {
                    LineOutcome::Enter => {
                        let path = ascii_string(copy_bytes(line.data()));
                        match behavior.kind {
                            PathInputType::Open => Some(PathRequest::Open(path)),
                            PathInputType::Save => Some(PathRequest::Save(path)),
                        }
                    },
                    LineOutcome::Cancel => {
                        self.clear_status();
                        None
                    },
                    _ => {
                        self.child_widget = Some(ChildWidget::Path(line, behavior));
                        None
                    },
                }
            },
        }
    }

    /// Handle one key: the prompt that has the focus gets it, else the main view does.
    /// Returns the file to open or to save to when a path prompt is confirmed; the owner
    /// does the reading or writing and then calls `open` or `save`.
    pub fn input(&mut self, key: KeyPress) -> (r: Option<PathRequest>)
        requires
            old(self).wf(),
        ensures
            final(self).wf(),
            len_fits(final(self).content().len() as int),
            !old(self).prompting() && key != KeyPress::Shortcut('z') ==> match editor_action(key) {
                Some(a) => keeps_content(a) ==> final(self).content() == old(self).content()
                    && final(self).undo_ops() == old(self).undo_ops(),
                None => final(self).content() == old(self).content(),
            },
            !old(self).prompting() && key == KeyPress::Insert ==> final(self).inserting() == !old(self).inserting(),
            ({
                let s = old(self).content();
                let i = old(self).cursor() / 2;
                match key {
                    KeyPress::Key(ch) => !old(self).prompting() && old(self).hex_view_active() && old(self).selection().is_none() && !old(self).inserting() && old(self).cursor() < 2 * s.len() && ch_hex_value(ch) < 16
                        ==> {
                        let nb = nibble_set(s[i], old(self).cursor() % 2, ch_hex_value(ch) as u8);
                        &&& final(self).content() == s.update(i, nb)
                        &&& final(self).undo_ops() == old(self).undo_ops().push(
                            inverse_op(s, (i, i + 1, seq![nb])),
                        )
                        &&& final(self).cursor() == old(self).cursor() + 1
                        &&& final(self).same_modes(*old(self))
                        &&& !final(self).prompting()
                        &&& final(self).hex_view_active()
                        &&& final(self).selection().is_none()
                        &&& !final(self).inserting()
                    },
                    _ => true,
                }
            }),
            !old(self).prompting() && key == KeyPress::Shortcut('z')
                ==> ({
                let s = old(self).content();
                &&& !final(self).prompting()
                &&& final(self).hex_view_active() == old(self).hex_view_active()
                &&& final(self).selection() == old(self).selection()
                &&& final(self).inserting() == old(self).inserting()
                &&& old(self).undo_ops().len() == 0 ==> final(self).content() == s
                &&& old(self).undo_ops().len() > 0 ==> {
                    let op = old(self).undo_ops().last();
                    &&& final(self).undo_ops() == old(self).undo_ops().drop_last()
                    &&& op_applies(s, op) && len_fits(apply_op(s, op).len() as int) ==> {
                        &&& final(self).content() == apply_op(s, op)
                        &&& final(self).cursor() == 2 * op.0
                    }
                }
            }),
    {
        let mut child: Option<ChildWidget> = None;
        std::mem::swap(&mut child, &mut self.child_widget);
        match child {
            Some(c) => self.child_input(c, key),
            None => {
                if key == KeyPress::Shortcut('z') {
                    self.clear_status();
                    let _ = self.undo();
                    self.update_cursor();
                    return None;
                }
                self.view_input(key);
                None
            },
        }
    }
}

impl HexEdit {
    /// Back to the start of a fresh buffer: cursor at the start, no selection, no prompt,
    /// overwrite mode, nothing to undo.
    fn reset(&mut self)
        requires
            old(self).buffer.wf(),
            len_fits(old(self).buffer@.len() as int),
            -side_limit() <= old(self).rect.width <= side_limit(),
            -side_limit() <= old(self).rect.height <= side_limit(),
        ensures
            final(self).wf(),
            final(self).buffer == old(self).buffer,
            final(self).cursor() == 0,
            final(self).undo_ops() == Seq::<OpModel>::empty(),
            !final(self).prompting(),
            final(self).selection().is_none(),
            !final(self).inserting(),
            final(self).hex_view_active(),
            final(self).cur_path == old(self).cur_path,
    {
        self.cursor_nibble_pos = Nibble(0);
        self.data_offset = 0;
        self.row_offset = 0;
        self.nibble_active = true;
        self.selection_start = None;
        self.insert_mode = false;
        self.child_widget = None;
        self.undo_stack = Vec::new();
        proof {
            assert(self.undo_ops() =~= Seq::<OpModel>::empty());
        }
    }

    /// Edit `vec` from now on. A buffer too large for nibble positions is refused with a
    /// message, and nothing else changes.
    pub fn open_vec(&mut self, vec: Vec<u8>)
        requires
            old(self).wf(),
        ensures
            final(self).wf(),
            len_fits(vec@.len() as int) ==> {
                &&& final(self).content() == vec@
                &&& final(self).cursor() == 0
                &&& final(self).undo_ops() == Seq::<OpModel>::empty()
                &&& !final(self).prompting()
                &&& final(self).selection().is_none()
                &&& !final(self).inserting()
                &&& final(self).hex_view_active()
            },
            !len_fits(vec@.len() as int) ==> final(self).content() == old(self).content(),
            len_fits(final(self).content().len() as int),
    {
        if vec.len() > (isize::MAX as usize) / 2 {
            self.status("ERROR: file too large");
            return ;
        }
        self.buffer = SplitVec::from_vec(vec);
        self.reset();
    }

    /// Edit `contents`, read from the file `path`, from now on.
    pub fn open(&mut self, path: String, contents: Vec<u8>)
        requires
            old(self).wf(),
        ensures
            final(self).wf(),
            len_fits(contents@.len() as int) ==> {
                &&& final(self).content() == contents@
                &&& final(self).cursor() == 0
                &&& final(self).undo_ops() == Seq::<OpModel>::empty()
                &&& final(self).file_path() == Some(path@)
                &&& !final(self).prompting()
                &&& final(self).selection().is_none()
                &&& !final(self).inserting()
                &&& final(self).hex_view_active()
            },
            !len_fits(contents@.len() as int) ==> final(self).content() == old(self).content()
                && final(self).file_path() == old(self).file_path(),
    {
        if contents.len() > (isize::MAX as usize) / 2 {
            self.status("ERROR: file too large");
            return ;
        }
        self.buffer = SplitVec::from_vec(contents);
        self.cur_path = Some(path);
        self.reset();
    }

    /// Record that the buffer was written to the file `path`.
    pub fn save(&mut self, path: String)
        requires
            old(self).wf(),
        ensures
            final(self).wf(),
            final(self).content() == old(self).content(),
            final(self).cursor() == old(self).cursor(),
            final(self).undo_ops() == old(self).undo_ops(),
            final(self).file_path() == Some(path@),
    {
        self.cur_path = Some(path);
    }

    /// Report that writing the buffer failed.
    pub fn save_failed(&mut self, message: &str)
        requires
            old(self).wf(),
        ensures
            final(self).wf(),
            final(self).content() == old(self).content(),
            final(self).cursor() == old(self).cursor(),
            final(self).undo_ops() == old(self).undo_ops(),
            final(self).file_path() == old(self).file_path(),
            final(self).last_status() == Some(message@),
    {
        self.status(message);
    }

    /// Take the new size of the screen; one line goes to the status bar.
    pub fn resize(&mut self, width: i32, height: i32)
        requires
            old(self).wf(),
        ensures
            final(self).wf(),
            final(self).content() == old(self).content(),
            final(self).cursor() == old(self).cursor(),
    {
        self.rect.height = if height > i32::MIN {
            (height - 1) as isize
        } else {
            height as isize
        };
        self.rect.width = width as isize;
        self.update_cursor();
    }

    /// The cursor's byte offset.
    pub fn get_position(&self) -> (r: isize)
        requires
            self.wf(),
        ensures
            r == self.cursor() / 2,
            0 <= r <= self.content().len(),
            len_fits(self.content().len() as int),
            0 <= self.cursor() <= 2 * self.content().len(),
    {
        self.cursor_nibble_pos.to_bytes()
    }

    /// The file the buffer was last opened from or saved to.
    pub fn get_file_path(&self) -> (r: Option<&str>)
        ensures
            match r {
                Some(p) => self.file_path() == Some(p@),
                None => self.file_path().is_none(),
            },
    {
        match &self.cur_path {
            Some(p) => Some(p.as_str()),
            None => None,
        }
    }

    /// The display settings.
    pub fn get_config(&self) -> (r: &Config)
        ensures
            *r == self.settings(),
    {
        &self.config
    }

    /// The block store being edited, to write it out block by block.
    pub fn get_buffer(&self) -> (r: &SplitVec)
        requires
            self.wf(),
        ensures
            r@ == self.content(),
            r.wf(),
    {
        &self.buffer
    }

    /// The messages shown so far, oldest first.
    pub fn get_status_log(&self) -> (r: &Vec<String>) {
        &self.status_log
    }
}

impl HexEdit {
    /// Switch between inserting and overwriting.
    fn toggle_insert_mode(&mut self)
        requires
            old(self).wf(),
        ensures
            final(self).wf(),
            final(self).inserting() == !old(self).inserting(),
            final(self).content() == old(self).content(),
            final(self).undo_ops() == old(self).undo_ops(),
    {
        self.insert_mode = !self.insert_mode;
    }

    /// Carry out the action that the main view binds to `key`, if any.
    fn view_input(&mut self, key: KeyPress)
        requires
            old(self).wf(),
        ensures
            final(self).wf(),
            match editor_action(key) {
                Some(a) => keeps_content(a) ==> final(self).content() == old(self).content()
                    && final(self).undo_ops() == old(self).undo_ops(),
                None => final(self).content() == old(self).content(),
            },
            key == KeyPress::Insert ==> final(self).inserting() == !old(self).inserting(),
            ({
                let s = old(self).content();
                let i = old(self).cursor() / 2;
                match key {
                    KeyPress::Key(ch) => old(self).nibble_active && old(self).selection_start.is_none() && !old(self).insert_mode && old(self).cursor() < 2
                        * s.len() && ch_hex_value(ch) < 16 ==> {
                        let nb = nibble_set(s[i], old(self).cursor() % 2, ch_hex_value(ch) as u8);
                        &&& final(self).content() == s.update(i, nb)
                        &&& final(self).undo_ops() == old(self).undo_ops().push(
                            inverse_op(s, (i, i + 1, seq![nb])),
                        )
                        &&& final(self).cursor() == old(self).cursor() + 1
                        &&& final(self).same_modes(*old(self))
                    },
                    _ => true,
                }
            }),
    {
        if let Some(action) = self.input.editor_input(key) {
            self.do_action(action);
        }
    }

    /// The first screen column of the hex digits of the byte at `row_offset` in a line.
    fn nibble_view_column(&self, row_offset: i128) -> (r: i128)
        requires
            self.wf(),
            0 <= row_offset <= 1099511627776,
        ensures
            0 <= r <= 3298534883338,
    {
        let group = if self.config.group_bytes == 0 {
            1
        } else {
            self.config.group_bytes as i128
        };
        proof {
            assert(row_offset / group <= row_offset) by (nonlinear_arith)
                requires
                    0 <= row_offset,
                    group >= 1,
            ;
        }
        self.get_linenumber_width() + row_offset * 2 + row_offset / group
    }

    /// Print the offset of a line at the start of screen row `row`.
    fn draw_line_number<F: Frontend>(&self, rb: &mut F, row: usize, line_number: usize)
        requires
            self.wf(),
    {
        let digits: usize = match self.get_linenumber_mode() {
            LineNumberMode::Hidden => 0,
            LineNumberMode::Short => 4,
            LineNumberMode::Long => 8,
        };
        let mut k: usize = 0;
        let mut x: usize = 0;
        while k < digits
            invariant
                k <= digits <= 8,
                x <= 2 * k,
            decreases digits - k,
        {
            let shift = 4 * (digits - 1 - k);
            let d = (line_number >> shift) & 15;
            assert(((line_number >> shift) & 15) < 16) by (bit_vector);
            if digits == 8 && k == 4 {
                rb.print_char_style(x, row, Style::Default, ':');
                x = x + 1;
            }
            rb.print_char_style(x, row, Style::Default, upper_hex_digit(d));
            x = x + 1;
            k = k + 1;
        }
    }

    /// Draw one screen row: the bytes from `start` on, shifted by the horizontal scroll,
    /// as hex digits and, if shown, as characters.
    fn draw_line<F: Frontend>(&self, rb: &mut F, row: usize, start: i128)
        requires
            self.wf(),
            0 <= start <= self.content().len(),
    {
        let bpr = self.get_bytes_per_row();
        let len = self.buffer.len() as i128;
        let cur_byte = self.cursor_nibble_pos.to_bytes();
        let cur = cur_byte as i128;
        let byte_view_start = self.nibble_view_column(bpr);
        let row_offset = if self.row_offset < 0 {
            0
        } else {
            self.row_offset
        };
        let mut col: i128 = 0;
        while col < bpr
            invariant
                self.wf(),
                0 <= col <= bpr <= 1099511627776,
                len == self.content().len(),
                0 <= start <= len,
                0 <= row_offset <= scroll_limit(),
                0 <= byte_view_start <= 3298534883338,
            decreases bpr - col,
        {
            let pos = start + row_offset + col;
            if pos > len {
                break ;
            }
            let in_selection = match self.selection_start {
                Some(sel) => pos <= isize::MAX as i128 && is_between(pos as isize, sel, cur_byte),
                None => false,
            };
            let at_current_byte = pos == cur;
            let (hi, lo) = if pos < len {
                match self.buffer.get(pos as usize) {
                    Ok(b) => u8_to_hex(b),
                    Err(_) => (' ', ' '),
                }
            } else {
                (' ', ' ')
            };
            let x = self.nibble_view_column(col);
            let fits = x + 1 <= isize::MAX as i128 && byte_view_start + col <= isize::MAX as i128
                && x + 1 <= usize::MAX as i128 && byte_view_start + col <= usize::MAX as i128;
            if fits {
                let nibble_style = if (!self.nibble_active && at_current_byte) || in_selection {
                    Style::Selection
                } else {
                    Style::Default
                };
                rb.print_char_style(x as usize, row, nibble_style, hi);
                rb.print_char_style(x as usize + 1, row, nibble_style, lo);
                if self.nibble_active && self.child_widget.is_none() && at_current_byte {
                    rb.set_cursor(
                        (x + self.cursor_nibble_pos.nibble_bit() as i128) as isize,
                        row as isize,
                    );
                }
                if self.config.show_ascii {
                    let ch = if pos < len {
                        match self.buffer.get(pos as usize) {
                            Ok(b) => if (48 <= b && b <= 57) || (65 <= b && b <= 90) || (97 <= b && b
                                <= 122) {
                                b as char
                            } else {
                                '.'
                            },
                            Err(_) => ' ',
                        }
                    } else {
                        ' '
                    };
                    let byte_style = if (self.nibble_active && at_current_byte) || in_selection {
                        Style::Selection
                    } else {
                        Style::Default
                    };
                    let bx = (byte_view_start + col) as usize;
                    rb.print_char_style(bx, row, byte_style, ch);
                    if !self.nibble_active && self.child_widget.is_none() && at_current_byte {
                        rb.set_cursor(bx as isize, row as isize);
                    }
                }
            }
            col = col + 1;
        }
    }

    /// Draw the rows of the hex view, from the scroll position down.
    pub fn draw_view<F: Frontend>(&self, rb: &mut F)
        requires
            self.wf(),
    {
        let lw = self.get_line_width();
        let h = self.rect.height as i128;
        if lw < 1 || h < 1 {
            return ;
        }
        let len = self.buffer.len() as i128;
        let mut row: i128 = 0;
        while row < h
            invariant
                self.wf(),
                1 <= lw <= 1099511627776,
                h <= side_limit(),
                0 <= row <= h,
                len == self.content().len(),
            decreases h - row,
        {
            proof {
                assert(row * lw <= 4722366482869645213696) by (nonlinear_arith)
                    requires
                        0 <= row <= 4294967296,
                        lw <= 1099511627776,
                ;
            }
            let start = self.data_offset + row * lw;
            if start > len {
                break ;
            }
            if start >= 0 {
                self.draw_line_number(rb, row as usize, start as usize);
                self.draw_line(rb, row as usize, start);
            }
            row = row + 1;
        }
    }

    /// Draw the prompt that has the focus on the last row of the view.
    fn draw_child<F: Frontend>(&self, rb: &mut F)
        requires
            self.wf(),
    {
        if self.rect.height < 1 || self.rect.width < 0 || self.rect.top != 0 || self.rect.left
            != 0 {
            return ;
        }
        let inputline_layout = RelativeRect {
            top: RelativePos::FromEnd(1),
            left: RelativePos::FromStart(0),
            width: RelativeSize::Relative(0),
            height: RelativeSize::Absolute(1),
        };
        let overlay_layout = RelativeRect {
            top: RelativePos::FromStart(0),
            left: RelativePos::FromStart(0),
            width: RelativeSize::Relative(0),
            height: RelativeSize::Relative(0),
        };
        let line_area = inputline_layout.get_absolute_to(self.rect);
        let overlay_area = overlay_layout.get_absolute_to(self.rect);
        match &self.child_widget {
            Some(ChildWidget::Goto(line, behavior)) => line.draw(
                rb,
                line_area,
                behavior.get_prefix(),
                true,
            ),
            Some(ChildWidget::Find(line, behavior)) => line.draw(
                rb,
                line_area,
                behavior.get_prefix(),
                true,
            ),
            Some(ChildWidget::Path(line, behavior)) => line.draw(
                rb,
                line_area,
                behavior.get_prefix(),
                true,
            ),
            Some(ChildWidget::Overlay(overlay)) => overlay.draw(rb, overlay_area, true),
            None => {},
        }
    }

    /// Draw the status bar: the last message and the editing mode.
    fn draw_statusbar<F: Frontend>(&self, rb: &mut F)
        requires
            self.wf(),
    {
        let height = rb.height();
        let width = rb.width();
        if height < 1 {
            return ;
        }
        let y = height - 1;
        rb.print_style(0, y, Style::StatusBar, string_with_repeat(' ', width).as_str());
        if self.show_last_status {
            let n = self.status_log.len();
            if n > 0 {
                rb.print_style(0, y, Style::StatusBar, self.status_log[n - 1].as_str());
            }
        }
        let mode = if self.selection_start.is_some() {
            "SEL"
        } else if self.insert_mode {
            "INS"
        } else {
            "OVR"
        };
        let pos = self.cursor_nibble_pos.to_bytes();
        let right = match self.selection_start {
            Some(start) => {
                let size = if pos >= start {
                    pos as i128 - start as i128
                } else {
                    start as i128 - pos as i128
                };
                let t = concat(" Start: ", decimal(start as i128).as_str());
                let t = concat(t.as_str(), " Size: ");
                let t = concat(t.as_str(), decimal(size).as_str());
                let t = concat(t.as_str(), " Pos: ");
                let t = concat(t.as_str(), decimal(pos as i128).as_str());
                let t = concat(t.as_str(), " ");
                concat(t.as_str(), mode)
            },
            None => {
                let t = concat(" Pos: ", decimal(pos as i128).as_str());
                let t = concat(t.as_str(), " Undo: ");
                let t = concat(t.as_str(), decimal(self.undo_stack.len() as i128).as_str());
                let t = concat(t.as_str(), " ");
                concat(t.as_str(), mode)
            },
        };
        let n = right.as_str().len();
        if width >= n {
            rb.print_style(width - n, y, Style::StatusBar, right.as_str());
        } else {
            rb.print_style(0, y, Style::StatusBar, right.as_str());
        }
    }

    /// Draw the whole editor: the hex view, the prompt if any, and the status bar.
    pub fn draw<F: Frontend>(&mut self, rb: &mut F)
        requires
            old(self).wf(),
        ensures
            final(self).wf(),
            final(self).content() == old(self).content(),
            final(self).cursor() == old(self).cursor(),
    {
        self.draw_view(rb);
        self.draw_child(rb);
        self.draw_statusbar(rb);
    }
}

} // verus!
