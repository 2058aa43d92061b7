//! The one-line prompts of the editor: goto, find and file paths.
use rustc_serialize::hex::FromHex;
use crate::frontend::{Frontend, Style};
use crate::rect::Rect;
use crate::util::{ascii_string, string_with_repeat};
use vstd::prelude::*;

verus! {

/// What a key does in a prompt.
#[derive(Clone, Copy, Debug, PartialEq, Eq, Structural)]
pub enum BaseInputLineActions {
    Edit(char),
    Ctrl(char),
    MoveLeft,
    MoveRight,
    Delete,
    DeleteWithMove,
    Enter,
    Cancel,
}

/// What a prompt asks of its owner after a key.
#[derive(Clone, Copy, Debug, PartialEq, Eq, Structural)]
pub enum LineOutcome {
    /// The text or the cursor changed, or nothing did.
    Edited,
    /// The text was confirmed.
    Enter,
    /// The prompt was dismissed.
    Cancel,
    /// A shortcut for the prompt's own settings.
    Shortcut(char),
}

/// A line of ASCII text being typed, with a cursor.
pub struct InputLine {
    data: Vec<u8>,
    input_pos: usize,
}

/// Every byte is ASCII.
pub open spec fn all_ascii(s: Seq<u8>) -> bool {
    forall|k: int| 0 <= k < s.len() ==> #[trigger] s[k] < 128
}

impl InputLine {
    /// The cursor lies inside the text, and the text is ASCII.
    pub closed spec fn wf(&self) -> bool {
        self.input_pos <= self.data@.len() && all_ascii(self.data@)
    }

    /// The text typed so far.
    pub closed spec fn text(&self) -> Seq<u8> {
        self.data@
    }

    /// The cursor's position in the text.
    pub closed spec fn pos(&self) -> nat {
        self.input_pos as nat
    }

    /// An empty prompt.
    pub fn new() -> (r: InputLine)
        ensures
            r.wf(),
            r.text() == Seq::<u8>::empty(),
            r.pos() == 0,
    {
        InputLine { data: Vec::new(), input_pos: 0 }
    }

    /// A prompt holding `initial_val`, with the cursor at its end.
    pub fn new_with_value(initial_val: Vec<u8>) -> (r: InputLine)
        requires
            all_ascii(initial_val@),
        ensures
            r.wf(),
            r.text() == initial_val@,
            r.pos() == initial_val@.len(),
    {
        let n = initial_val.len();
        InputLine { data: initial_val, input_pos: n }
    }

    /// The text typed so far.
    pub fn data(&self) -> (r: &[u8])
        requires
            self.wf(),
        ensures
            all_ascii(r@),
            r@ == self.text(),
    {
        self.data.as_slice()
    }

    /// Draw the prompt on the first row of `area`: `prefix`, then the text; with the
    /// focus, the terminal cursor goes to the text cursor.
    pub fn draw<F: Frontend>(&self, rb: &mut F, area: Rect, prefix: &str, has_focus: bool)
        requires
            self.wf(),
            0 <= area.top,
            0 <= area.left,
            0 <= area.width <= 4294967296,
    {
        let top = area.top as usize;
        let left = area.left as usize;
        rb.print_style(left, top, Style::InputLine, string_with_repeat(' ', area.width as usize).as_str());
        let mut text: Vec<u8> = Vec::new();
        let mut k: usize = 0;
        while k < self.data.len()
            invariant
                self.wf(),
                k <= self.data@.len(),
                text@ == self.data@.take(k as int),
            decreases self.data@.len() - k,
        {
            text.push(self.data[k]);
            k = k + 1;
            proof {
                assert(text@ =~= self.data@.take(k as int));
            }
        }
        let n = prefix.len();
        rb.print_style(left, top, Style::InputLine, prefix);
        if n <= usize::MAX - left {
            let shown = ascii_string(text);
            rb.print_style(left + n, top, Style::InputLine, shown.as_str());
            if has_focus && n <= isize::MAX as usize && self.input_pos <= isize::MAX as usize - n {
                rb.set_cursor((n + self.input_pos) as isize, top as isize);
            }
        }
    }

    /// Apply an editing action to the text and report what the owner has to do.
    pub fn edit(&mut self, action: BaseInputLineActions) -> (r: LineOutcome)
        requires
            old(self).wf(),
        ensures
            final(self).wf(),
            r == match action {
                BaseInputLineActions::Enter => LineOutcome::Enter,
                BaseInputLineActions::Cancel => LineOutcome::Cancel,
                BaseInputLineActions::Ctrl(c) => LineOutcome::Shortcut(c),
                _ => LineOutcome::Edited,
            },
            match action {
                BaseInputLineActions::Edit(c) => if (c as u32) < 128 {
                    final(self).text() == old(self).text().insert(old(self).pos() as int, c as u8)
                        && final(self).pos() == old(self).pos() + 1
                } else {
                    final(self).text() == old(self).text() && final(self).pos() == old(self).pos()
                },
                BaseInputLineActions::MoveLeft => final(self).text() == old(self).text()
                    && final(self).pos() == if old(self).pos() > 0 {
                    old(self).pos() - 1
                } else {
                    0
                },
                BaseInputLineActions::MoveRight => final(self).text() == old(self).text()
                    && final(self).pos() == if old(self).pos() < old(self).text().len() {
                    old(self).pos() + 1
                } else {
                    old(self).pos()
                },
                BaseInputLineActions::Delete => final(self).pos() == old(self).pos() && if old(
                    self,
                ).pos() < old(self).text().len() {
                    final(self).text() == old(self).text().remove(old(self).pos() as int)
                } else {
                    final(self).text() == old(self).text()
                },
                BaseInputLineActions::DeleteWithMove => if old(self).pos() > 0 {
                    final(self).pos() == old(self).pos() - 1 && final(self).text() == old(
                        self,
                    ).text().remove(old(self).pos() - 1)
                } else {
                    final(self).text() == old(self).text() && final(self).pos() == old(self).pos()
                },
                _ => final(self).text() == old(self).text() && final(self).pos() == old(self).pos(),
            },
    {
        match action {
            BaseInputLineActions::Enter => LineOutcome::Enter,
            BaseInputLineActions::Cancel => LineOutcome::Cancel,
            BaseInputLineActions::Ctrl(c) => LineOutcome::Shortcut(c),
            BaseInputLineActions::MoveLeft => {
                if self.input_pos > 0 {
                    self.input_pos = self.input_pos - 1;
                }
                LineOutcome::Edited
            },
            BaseInputLineActions::MoveRight => {
                if self.input_pos < self.data.len() {
                    self.input_pos = self.input_pos + 1;
                }
                LineOutcome::Edited
            },
            BaseInputLineActions::Edit(ch) => {
                if (ch as u32) < 128 {
                    self.data.insert(self.input_pos, ch as u8);
                    let n = self.data.len();
                    assert(self.input_pos < n);
                    self.input_pos = self.input_pos + 1;
                    proof {
                        assert forall|k: int| 0 <= k < self.data@.len() implies #[trigger] self.data@[k]
                            < 128 by {
                            if k < old(self).pos() {
                                assert(self.data@[k] == old(self).text()[k]);
                            } else if k > old(self).pos() {
                                assert(self.data@[k] == old(self).text()[k - 1]);
                            }
                        }
                    }
                }
                LineOutcome::Edited
            },
            BaseInputLineActions::Delete => {
                if self.input_pos < self.data.len() {
                    self.data.remove(self.input_pos);
                    proof {
                        assert forall|k: int| 0 <= k < self.data@.len() implies #[trigger] self.data@[k]
                            < 128 by {
                            if k < old(self).pos() {
                                assert(self.data@[k] == old(self).text()[k]);
                            } else {
                                assert(self.data@[k] == old(self).text()[k + 1]);
                            }
                        }
                    }
                }
                LineOutcome::Edited
            },
            BaseInputLineActions::DeleteWithMove => {
                if self.input_pos > 0 {
                    self.input_pos = self.input_pos - 1;
                    self.data.remove(self.input_pos);
                    proof {
                        assert forall|k: int| 0 <= k < self.data@.len() implies #[trigger] self.data@[k]
                            < 128 by {
                            if k < self.input_pos {
                                assert(self.data@[k] == old(self).text()[k]);
                            } else {
                                assert(self.data@[k] == old(self).text()[k + 1]);
                            }
                        }
                    }
                }
                LineOutcome::Edited
            },
        }
    }
}

/// The value of an ASCII digit or letter as a digit of any radix up to 36; 36 for
/// anything else.
pub open spec fn digit_value(c: u8) -> int {
    if 48 <= c <= 57 {
        c - 48
    } else if 97 <= c <= 122 {
        c - 87
    } else if 65 <= c <= 90 {
        c - 55
    } else {
        36
    }
}

/// The value of a string of digits in `radix`, the most significant first.
pub open spec fn digits_value(s: Seq<u8>, radix: int) -> int
    decreases s.len(),
{
    if s.len() == 0 {
        0
    } else {
        digits_value(s.drop_last(), radix) * radix + digit_value(s.last())
    }
}

/// Every character is a digit of `radix`.
pub open spec fn all_digits(s: Seq<u8>, radix: int) -> bool {
    forall|k: int| 0 <= k < s.len() ==> #[trigger] digit_value(s[k]) < radix
}

/// An optional sign followed by at least one digit of `radix`, read as a number that
/// fits in an `isize`.
pub open spec fn parse_signed(s: Seq<u8>, radix: int) -> Option<int> {
    let neg = s.len() > 0 && s[0] == 45;
    let body = if s.len() > 0 && (s[0] == 45 || s[0] == 43) {
        s.drop_first()
    } else {
        s
    };
    let v = if neg {
        -digits_value(body, radix)
    } else {
        digits_value(body, radix)
    };
    if body.len() == 0 || !all_digits(body, radix) || v < isize::MIN || v > isize::MAX {
        None
    } else {
        Some(v)
    }
}

proof fn lemma_digits_grow(s: Seq<u8>, radix: int, k: int)
    requires
        2 <= radix,
        all_digits(s, radix),
        0 <= k <= s.len(),
    ensures
        0 <= digits_value(s.take(k), radix) <= digits_value(s, radix),
    decreases s.len(),
{
    if s.len() > 0 {
        let d = s.drop_last();
        assert(all_digits(d, radix)) by {
            assert forall|j: int| 0 <= j < d.len() implies #[trigger] digit_value(d[j]) < radix by {
                assert(d[j] == s[j]);
            }
        }
        assert(digit_value(s[s.len() - 1]) < radix);
        if k == s.len() {
            assert(s.take(k) =~= s);
            lemma_digits_grow(d, radix, 0);
        } else {
            assert(s.take(k) =~= d.take(k));
            lemma_digits_grow(d, radix, k);
        }
        let v = digits_value(d, radix);
        assert(v * radix >= v) by (nonlinear_arith)
            requires
                v >= 0,
                radix >= 2,
        ;
    } else {
        assert(s.take(k) =~= s);
    }
}

/// Read `data` as a number in `radix`: an optional `+` or `-`, then digits.
pub fn parse_radix(data: &[u8], radix: u32) -> (r: Option<isize>)
    requires
        2 <= radix <= 36,
    ensures
        match r {
            Some(v) => parse_signed(data@, radix as int) == Some(v as int),
            None => parse_signed(data@, radix as int) == None::<int>,
        },
{
    let n = data.len();
    let neg = n > 0 && data[0] == 45u8;
    let start: usize = if n > 0 && (data[0] == 45u8 || data[0] == 43u8) {
        1
    } else {
        0
    };
    let ghost body = data@.skip(start as int);
    proof {
        if start == 1 {
            assert(body =~= data@.drop_first());
        } else {
            assert(body =~= data@);
        }
    }
    if start == n {
        return None;
    }
    let limit: i128 = isize::MAX as i128 + 1;
    let mut acc: i128 = 0;
    let mut i: usize = start;
    while i < n
        invariant
            start <= i <= n,
            n == data@.len(),
            body == data@.skip(start as int),
            body == if data@.len() > 0 && (data@[0] == 45 || data@[0] == 43) {
                data@.drop_first()
            } else {
                data@
            },
            neg == (data@.len() > 0 && data@[0] == 45),
            2 <= radix <= 36,
            all_digits(body.take(i - start), radix as int),
            acc == digits_value(body.take(i - start), radix as int),
            0 <= acc <= limit,
            limit == isize::MAX + 1,
        decreases n - i,
    {
        let c = data[i];
        let d: u32 = if 48u8 <= c && c <= 57u8 {
            (c - 48u8) as u32
        } else if 97u8 <= c && c <= 122u8 {
            (c - 87u8) as u32
        } else if 65u8 <= c && c <= 90u8 {
            (c - 55u8) as u32
        } else {
            36
        };
        assert(d as int == digit_value(c));
        if d >= radix {
            proof {
                assert(body[i - start] == c);
                assert(!all_digits(body, radix as int));
            }
            return None;
        }
        proof {
            assert(acc * radix <= limit * 36) by (nonlinear_arith)
                requires
                    0 <= acc <= limit,
                    radix <= 36,
            ;
        }
        let next = acc * (radix as i128) + (d as i128);
        proof {
            let t = body.take(i - start + 1);
            assert(t.drop_last() =~= body.take(i - start));
            assert(t.last() == c);
            assert(all_digits(t, radix as int)) by {
                assert forall|j: int| 0 <= j < t.len() implies #[trigger] digit_value(t[j])
                    < radix by {
                    if j < t.len() - 1 {
                        assert(t[j] == body.take(i - start)[j]);
                    }
                }
            }
            assert(next == digits_value(t, radix as int));
        }
        if next > limit {
            proof {
                if all_digits(body, radix as int) {
                    lemma_digits_grow(body, radix as int, i - start + 1);
                }
            }
            return None;
        }
        acc = next;
        i = i + 1;
    }
    proof {
        assert(body.take(n - start) =~= body);
        assert(acc == digits_value(body, radix as int));
        assert(all_digits(body, radix as int));
        assert(neg == (data@.len() > 0 && data@[0] == 45));
    }
    if neg {
        Some((0 - acc) as isize)
    } else if acc > isize::MAX as i128 {
        None
    } else {
        Some(acc as isize)
    }
}

/// Space, tab, carriage return or line feed.
pub open spec fn is_hex_space(b: u8) -> bool {
    b == 32 || b == 9 || b == 10 || b == 13
}

/// The value of a hex digit of either case; 16 for anything else.
pub open spec fn hex_value(b: u8) -> int {
    if 48 <= b <= 57 {
        b - 48
    } else if 97 <= b <= 102 {
        b - 87
    } else if 65 <= b <= 70 {
        b - 55
    } else {
        16
    }
}

/// The hex digits of `s`, white space left out.
pub open spec fn hex_digits(s: Seq<u8>) -> Seq<u8> {
    s.filter(|b: u8| !is_hex_space(b))
}

/// The bytes that pairs of hex digits stand for, the high digit first.
pub open spec fn hex_pairs(d: Seq<u8>) -> Seq<u8> {
    Seq::new(d.len() / 2, |k: int| (hex_value(d[2 * k]) * 16 + hex_value(d[2 * k + 1])) as u8)
}

/// The bytes that a hex string stands for: white space is skipped, anything else but a
/// hex digit is refused, and so is an odd number of digits.
pub open spec fn hex_decoded(s: Seq<u8>) -> Option<Seq<u8>> {
    let d = hex_digits(s);
    if (forall|k: int| 0 <= k < d.len() ==> #[trigger] hex_value(d[k]) < 16) && d.len() % 2 == 0 {
        Some(hex_pairs(d))
    } else {
        None
    }
}

/// Relies on `FromHex::from_hex` for `str` (rustc-serialize): it skips white space, reads
/// each pair of hex digits as one byte, and fails on any other character or on an odd
/// number of digits.
#[verifier::external_body]
fn decode_hex(data: &[u8]) -> (r: Option<Vec<u8>>)
    requires
        all_ascii(data@),
    ensures
        match r {
            Some(v) => hex_decoded(data@) == Some(v@),
            None => hex_decoded(data@) == None::<Seq<u8>>,
        },
{
    match std::str::from_utf8(data) {
        Ok(s) => s.from_hex().ok(),
        Err(_) => None,
    }
}

/// The radix that a goto prompt reads positions in.
#[derive(Clone, Copy, Debug, PartialEq, Eq, Structural)]
pub enum RadixType {
    DecRadix,
    HexRadix,
    OctRadix,
}

/// The numeric radix of `r`.
pub open spec fn radix_of(r: RadixType) -> int {
    match r {
        RadixType::DecRadix => 10,
        RadixType::HexRadix => 16,
        RadixType::OctRadix => 8,
    }
}

/// The prompt that asks for a position to go to.
#[derive(Clone, Copy, Debug, PartialEq, Eq, Structural)]
pub struct GotoInputLineBehavior {
    pub radix: RadixType,
    pub is_valid: bool,
}

impl GotoInputLineBehavior {
    /// A prompt reading decimal positions.
    pub fn new() -> (r: GotoInputLineBehavior)
        ensures
            r.radix == RadixType::DecRadix,
            r.is_valid,
    {
        GotoInputLineBehavior { radix: RadixType::DecRadix, is_valid: true }
    }

    /// The position that `data` names in the current radix.
    pub fn get_pos(&self, data: &[u8]) -> (r: Option<isize>)
        ensures
            match r {
                Some(v) => parse_signed(data@, radix_of(self.radix)) == Some(v as int),
                None => parse_signed(data@, radix_of(self.radix)) == None::<int>,
            },
    {
        let radix: u32 = match self.radix {
            RadixType::DecRadix => 10,
            RadixType::HexRadix => 16,
            RadixType::OctRadix => 8,
        };
        parse_radix(data, radix)
    }

    /// The text shown before the typed text.
    pub fn get_prefix(&self) -> &'static str {
        match self.radix {
            RadixType::DecRadix => "Goto (Dec):",
            RadixType::HexRadix => "Goto (Hex):",
            RadixType::OctRadix => "Goto (Oct):",
        }
    }

    /// Whether the typed text names a position.
    pub fn get_status(&self) -> Result<&'static str, &'static str> {
        if self.is_valid {
            Ok("")
        } else {
            Err("Invalid position")
        }
    }

    /// Read positions in `r` from now on.
    pub fn set_radix(&mut self, r: RadixType)
        ensures
            final(self).radix == r,
            final(self).is_valid == old(self).is_valid,
    {
        self.radix = r;
    }

    /// Check the text after it changed.
    pub fn do_update(&mut self, data: &[u8])
        ensures
            final(self).radix == old(self).radix,
            final(self).is_valid == parse_signed(data@, radix_of(old(self).radix)).is_some(),
    {
        self.is_valid = self.get_pos(data).is_some();
    }

    /// `d`, `h` and `o` switch to decimal, hex and octal; other keys do nothing.
    pub fn do_shortcut(&mut self, shortcut: char)
        ensures
            final(self).is_valid == old(self).is_valid,
            final(self).radix == if shortcut == 'd' {
                RadixType::DecRadix
            } else if shortcut == 'h' {
                RadixType::HexRadix
            } else if shortcut == 'o' {
                RadixType::OctRadix
            } else {
                old(self).radix
            },
    {
        if shortcut == 'd' {
            self.set_radix(RadixType::DecRadix);
        } else if shortcut == 'h' {
            self.set_radix(RadixType::HexRadix);
        } else if shortcut == 'o' {
            self.set_radix(RadixType::OctRadix);
        }
    }
}

/// How a find prompt reads its text.
#[derive(Clone, Copy, Debug, PartialEq, Eq, Structural)]
pub enum DataType {
    AsciiStr,
    UnicodeStr,
    HexStr,
}

/// The needle that a find prompt looks for, given its text: the bytes themselves, or
/// what they stand for in hex; `None` for bad hex.
pub open spec fn find_needle(data_type: DataType, data: Seq<u8>) -> Option<Seq<u8>> {
    match data_type {
        DataType::HexStr => hex_decoded(data),
        _ => Some(data),
    }
}

/// The prompt that asks for something to find.
#[derive(Clone, Copy, Debug, PartialEq, Eq, Structural)]
pub struct FindInputLine {
    pub data_type: DataType,
    pub is_valid: bool,
}

impl FindInputLine {
    /// A prompt reading its text as ASCII.
    pub fn new() -> (r: FindInputLine)
        ensures
            r.data_type == DataType::AsciiStr,
            r.is_valid,
    {
        FindInputLine { data_type: DataType::AsciiStr, is_valid: true }
    }

    /// The bytes that `data` stands for in hex.
    pub fn parse_hex(&self, data: &[u8]) -> (r: Option<Vec<u8>>)
        requires
            all_ascii(data@),
        ensures
            match r {
                Some(v) => hex_decoded(data@) == Some(v@),
                None => hex_decoded(data@) == None::<Seq<u8>>,
            },
    {
        decode_hex(data)
    }

    /// The needle to look for; `None` when the text is bad hex.
    pub fn do_find(&self, data: &[u8]) -> (r: Option<Vec<u8>>)
        requires
            all_ascii(data@),
        ensures
            match r {
                Some(v) => find_needle(self.data_type, data@) == Some(v@),
                None => find_needle(self.data_type, data@) == None::<Seq<u8>>,
            },
    {
        match self.data_type {
            DataType::HexStr => self.parse_hex(data),
            _ => {
                let mut v: Vec<u8> = Vec::new();
                let mut k: usize = 0;
                while k < data.len()
                    invariant
                        k <= data@.len(),
                        v@ == data@.take(k as int),
                    decreases data@.len() - k,
                {
                    v.push(data[k]);
                    k = k + 1;
                    proof {
                        assert(v@ =~= data@.take(k as int));
                    }
                }
                proof {
                    assert(data@.take(data@.len() as int) =~= data@);
                }
                Some(v)
            },
        }
    }

    /// The text shown before the typed text.
    pub fn get_prefix(&self) -> &'static str {
        match self.data_type {
            DataType::AsciiStr => "Find(Ascii): ",
            DataType::UnicodeStr => "Find(Uni): ",
            DataType::HexStr => "Find(Hex): ",
        }
    }

    /// Whether the typed text can be searched for.
    pub fn get_status(&self) -> Result<&'static str, &'static str> {
        if self.is_valid {
            Ok("")
        } else {
            Err("Invalid Hex Value")
        }
    }

    /// Read the text as `dt` from now on.
    pub fn set_search_data_type(&mut self, dt: DataType)
        ensures
            final(self).data_type == dt,
            final(self).is_valid == old(self).is_valid,
    {
        self.data_type = dt;
    }

    /// Check the text after it changed.
    pub fn do_update(&mut self, data: &[u8])
        requires
            all_ascii(data@),
        ensures
            final(self).data_type == old(self).data_type,
            final(self).is_valid == find_needle(old(self).data_type, data@).is_some(),
    {
        self.is_valid = match self.data_type {
            DataType::HexStr => self.parse_hex(data).is_some(),
            _ => true,
        };
    }

    /// `a`, `u` and `h` switch to ASCII, Unicode and hex; other keys do nothing.
    pub fn do_shortcut(&mut self, shortcut: char)
        ensures
            final(self).is_valid == old(self).is_valid,
            final(self).data_type == if shortcut == 'a' {
                DataType::AsciiStr
            } else if shortcut == 'u' {
                DataType::UnicodeStr
            } else if shortcut == 'h' {
                DataType::HexStr
            } else {
                old(self).data_type
            },
    {
        if shortcut == 'a' {
            self.set_search_data_type(DataType::AsciiStr);
        } else if shortcut == 'u' {
            self.set_search_data_type(DataType::UnicodeStr);
        } else if shortcut == 'h' {
            self.set_search_data_type(DataType::HexStr);
        }
    }
}

/// Whether a path prompt opens or saves.
#[derive(Clone, Copy, Debug, PartialEq, Eq, Structural)]
pub enum PathInputType {
    Open,
    Save,
}

/// The prompt that asks for a file to open or to save to.
#[derive(Clone, Copy, Debug, PartialEq, Eq, Structural)]
pub struct PathInputLine {
    pub kind: PathInputType,
}

impl PathInputLine {
    /// A prompt for the given purpose.
    pub fn new(kind: PathInputType) -> (r: PathInputLine)
        ensures
            r.kind == kind,
    {
        PathInputLine { kind }
    }

    /// The text shown before the typed text.
    pub fn get_prefix(&self) -> &'static str {
        match self.kind {
            PathInputType::Open => "Open: ",
            PathInputType::Save => "Save: ",
        }
    }
}

} // verus!
