use vstd::prelude::*;

use crate::doc::{doc_delete, doc_insert, Doc};
use crate::escape::digit_char;
use crate::row::{char_string, push_char, Row};

verus! {

use vstd::string::StrSliceExecFns;
use vstd::string::StringExecFns;

/// A document coordinate: `x` is a grapheme index within a row, `y` a row
/// index. Used both for the cursor and for the scroll offset.
#[derive(Clone, Copy, Debug, PartialEq, Eq, Structural)]
pub struct Position {
    pub x: usize,
    pub y: usize,
}

impl Default for Position {
    fn default() -> (p: Self)
        ensures
            p.x == 0,
            p.y == 0,
    {
        Position { x: 0, y: 0 }
    }
}

impl Position {
    /// The componentwise difference, used to place the cursor on screen
    /// relative to the scroll offset.
    pub fn sub(&self, offset: &Self) -> (r: Self)
        requires
            offset.x <= self.x,
            offset.y <= self.y,
        ensures
            r.x == self.x - offset.x,
            r.y == self.y - offset.y,
    {
        Self { x: self.x - offset.x, y: self.y - offset.y }
    }
}

/// The dimensions of the visible character grid.
#[derive(Clone, Copy, Debug, PartialEq, Eq, Structural)]
pub struct Size {
    pub width: u16,
    pub height: u16,
}

/// A line of feedback shown to the user; how long it stays on screen is the
/// caller's concern.
pub struct StatusMessage {
    pub text: String,
}

impl StatusMessage {
    pub fn from(msg: String) -> (r: Self)
        ensures
            r.text@ == msg@,
    {
        Self { text: msg }
    }
}

/// One input event: a navigation key, a printable character, delete,
/// backspace, or the quit signal.
#[derive(Clone, Copy, Debug, PartialEq, Eq)]
pub enum Key {
    Up,
    Down,
    Left,
    Right,
    PageUp,
    PageDown,
    Home,
    End,
    Char(char),
    Delete,
    Backspace,
    Quit,
}

/// The grapheme length of row `y` in a document, zero for a row at or past
/// the end (an absent row reads as an empty line).
pub open spec fn row_len_in(rows: Seq<Seq<Seq<char>>>, y: int) -> int {
    if 0 <= y < rows.len() {
        rows[y].len() as int
    } else {
        0
    }
}

/// One navigation step, before the horizontal clamp: the new `(x, y)` for a
/// key, given the rows, the viewport height `th`, and the old `(x, y)`.
/// `y` may land on any row or on the append line just past the last row.
pub open spec fn move_step_from(
    rows: Seq<Seq<Seq<char>>>,
    th: int,
    x: int,
    y: int,
    key: Key,
) -> (int, int) {
    let width = row_len_in(rows, y);
    let height = rows.len() as int;
    match key {
        Key::Up => (x, vstd::math::max(y - 1, 0)),
        Key::Down => (x, vstd::math::min(y + 1, height)),
        Key::Left => if x > 0 {
            (x - 1, y)
        } else {
            let ny = vstd::math::max(y - 1, 0);
            (row_len_in(rows, ny), ny)
        },
        Key::Right => if x < width {
            (x + 1, y)
        } else {
            (0, vstd::math::min(y + 1, height))
        },
        Key::PageUp => (x, vstd::math::max(y - th, 0)),
        Key::PageDown => (x, vstd::math::min(y + th, height)),
        Key::Home => (0, y),
        Key::End => (width, y),
        _ => (x, y),
    }
}

/// A navigation step followed by the clamp that keeps `x` within the landing
/// row.
pub open spec fn move_result_from(
    rows: Seq<Seq<Seq<char>>>,
    th: int,
    x: int,
    y: int,
    key: Key,
) -> (int, int) {
    let stepped = move_step_from(rows, th, x, y, key);
    (vstd::math::min(stepped.0, row_len_in(rows, stepped.1)), stepped.1)
}

/// Where the scroll offset lands on one axis: unchanged while the cursor is
/// inside `[off, off + extent)`, otherwise shifted minimally to bring the
/// cursor to the nearer edge.
pub open spec fn scroll_target(cursor: int, off: int, extent: int) -> int {
    if cursor < off {
        cursor
    } else if cursor >= vstd::math::min(off + extent, usize::MAX as int) {
        cursor - extent + 1
    } else {
        off
    }
}

/// The decimal digits of a non-negative integer, most significant first,
/// without leading zeros.
pub open spec fn dec_digits(n: int) -> Seq<char>
    decreases n,
{
    if n < 10 {
        seq![digit_char(if 0 <= n { (n % 10) as u8 } else { 0 })]
    } else {
        dec_digits(n / 10).push(digit_char((n % 10) as u8))
    }
}

/// A saturating increment, as a one-based line or column number shows it.
pub open spec fn sat1(v: int) -> int {
    vstd::math::min(v + 1, usize::MAX as int)
}

/// The first `n` characters of `s`, or all of `s` when it is shorter.
pub open spec fn take_at_most(s: Seq<char>, n: int) -> Seq<char> {
    s.subrange(0, vstd::math::min(n, s.len() as int))
}

/// `n` spaces.
pub open spec fn spaces(n: int) -> Seq<char> {
    Seq::new(if n >= 0 {
        n as nat
    } else {
        0
    }, |k: int| ' ')
}

/// The character for one decimal digit.
fn digit_of(d: u8) -> (c: char)
    requires
        d < 10,
    ensures
        c == digit_char(d),
{
    match d {
        0 => '0',
        1 => '1',
        2 => '2',
        3 => '3',
        4 => '4',
        5 => '5',
        6 => '6',
        7 => '7',
        8 => '8',
        _ => '9',
    }
}

/// The decimal representation of `n`.
pub fn format_usize(n: usize) -> (s: String)
    ensures
        s@ == dec_digits(n as int),
    decreases n,
{
    if n < 10 {
        char_string(digit_of(n as u8))
    } else {
        let mut s = format_usize(n / 10);
        push_char(&mut s, digit_of((n % 10) as u8));
        s
    }
}

/// The first `n` characters of `s`, or all of `s` when it is shorter.
pub fn truncate_chars(s: &str, n: usize) -> (r: String)
    ensures
        r@ == take_at_most(s@, n as int),
{
    let len = s.unicode_len();
    if n < len {
        let t = s.substring_char(0, n);
        t.to_owned()
    } else {
        let r = s.to_owned();
        proof {
            assert(s@.subrange(0, s@.len() as int) =~= s@);
        }
        r
    }
}

/// The banner text shown in an empty document.
pub open spec fn welcome_text() -> Seq<char> {
    "Kilo-rs editor -- version 0.1.0"@
}

/// The banner line for a viewport `w` columns wide: a `~`, spaces that
/// center the banner text, and the text, truncated to `w`.
pub open spec fn welcome_spec(w: int) -> Seq<char> {
    let msg = welcome_text();
    let padding = if w >= msg.len() {
        (w - msg.len()) / 2
    } else {
        0
    };
    let sp = if padding >= 1 {
        padding - 1
    } else {
        0
    };
    let full = seq!['~'] + Seq::new(sp as nat, |i: int| ' ') + msg;
    full.subrange(0, vstd::math::min(w, full.len() as int))
}

/// The cursor/viewport controller: the document, the logical edit point, the
/// scroll offset, the viewport dimensions, and the quit flag.
pub struct Editor {
    pub doc: Doc,
    pub cursor_position: Position,
    pub offset: Position,
    pub viewport: Size,
    pub exit: bool,
}

impl Editor {
    /// The grapheme length of row `y`, zero past the end.
    pub open spec fn spec_row_len(self, y: int) -> int {
        row_len_in(self.doc@, y)
    }

    /// The cursor may sit on any row or on the append line just past the
    /// last row, and within its row anywhere up to and including the end.
    pub open spec fn cursor_in_bounds(self) -> bool {
        &&& self.cursor_position.y <= self.doc@.len()
        &&& self.cursor_position.x <= self.spec_row_len(self.cursor_position.y as int)
    }

    /// Viewport containment: the cursor lies inside the visible rectangle.
    pub open spec fn cursor_visible(self) -> bool {
        &&& self.offset.y <= self.cursor_position.y < self.offset.y + self.viewport.height
        &&& self.offset.x <= self.cursor_position.x < self.offset.x + self.viewport.width
    }

    pub open spec fn wf(self) -> bool {
        &&& self.viewport.width >= 1
        &&& self.viewport.height >= 1
        &&& self.cursor_in_bounds()
        &&& self.cursor_visible()
    }

    /// Where a navigation key moves the cursor from its current position.
    pub open spec fn move_result(self, key: Key) -> (int, int) {
        move_result_from(
            self.doc@,
            self.viewport.height as int,
            self.cursor_position.x as int,
            self.cursor_position.y as int,
            key,
        )
    }

    /// The document contents after a key is handled: an edit key mutates the
    /// document (backspace first retreats the cursor, and a delete on the
    /// append line finds nothing to delete); every other key leaves it
    /// alone.
    pub open spec fn doc_after_key(self, key: Key) -> Seq<Seq<Seq<char>>> {
        let x = self.cursor_position.x as int;
        let y = self.cursor_position.y as int;
        match key {
            Key::Char(c) => doc_insert(self.doc@, x, y, c),
            Key::Delete => if y < self.doc@.len() {
                doc_delete(self.doc@, x, y)
            } else {
                self.doc@
            },
            Key::Backspace => {
                let moved = self.move_result(Key::Left);
                if moved.1 < self.doc@.len() {
                    doc_delete(self.doc@, moved.0, moved.1)
                } else {
                    self.doc@
                }
            },
            _ => self.doc@,
        }
    }

    /// Where the cursor stands after a key is handled: an inserted character
    /// advances it one step right (against the mutated document), backspace
    /// retreats it one step left, and a navigation key moves it by its rule.
    pub open spec fn cursor_after_key(self, key: Key) -> (int, int) {
        let x = self.cursor_position.x as int;
        let y = self.cursor_position.y as int;
        let th = self.viewport.height as int;
        match key {
            Key::Char(c) => move_result_from(doc_insert(self.doc@, x, y, c), th, x, y, Key::Right),
            Key::Delete => (x, y),
            Key::Backspace => self.move_result(Key::Left),
            Key::Quit => (x, y),
            _ => self.move_result(key),
        }
    }

    /// A fresh editing session over `doc`: cursor and offset at the origin.
    pub fn new(doc: Doc, viewport: Size) -> (e: Editor)
        requires
            viewport.width >= 1,
            viewport.height >= 1,
        ensures
            e.wf(),
            e.doc == doc,
            e.viewport == viewport,
            e.cursor_position == (Position { x: 0, y: 0 }),
            e.offset == (Position { x: 0, y: 0 }),
            !e.exit,
    {
        Editor {
            doc,
            cursor_position: Position { x: 0, y: 0 },
            offset: Position { x: 0, y: 0 },
            viewport,
            exit: false,
        }
    }

    /// The grapheme length of row `y`, zero for an absent row.
    pub fn get_row_len(&self, y: usize) -> (n: usize)
        ensures
            n == self.spec_row_len(y as int),
    {
        if let Some(row) = self.doc.row(y) {
            row.len()
        } else {
            0
        }
    }

    /// Applies one navigation key to the cursor and clamps `x` to the
    /// landing row. The cursor stays in bounds: `y` never exceeds the row
    /// count, and `x` never exceeds the landing row's length.
    pub fn move_cursor(&mut self, key: Key)
        requires
            old(self).cursor_in_bounds(),
        ensures
            final(self).cursor_position.x as int == old(self).move_result(key).0,
            final(self).cursor_position.y as int == old(self).move_result(key).1,
            final(self).cursor_in_bounds(),
            final(self).doc == old(self).doc,
            final(self).offset == old(self).offset,
            final(self).viewport == old(self).viewport,
            final(self).exit == old(self).exit,
    {
        let mut x = self.cursor_position.x;
        let mut y = self.cursor_position.y;
        let width = self.get_row_len(y);
        let height = self.doc.len();
        let terminal_height = self.viewport.height as usize;
        match key {
            Key::Up => {
                y = if y > 0 {
                    y - 1
                } else {
                    0
                };
            },
            Key::Down => {
                y = if y < height {
                    y + 1
                } else {
                    height
                };
            },
            Key::Left => {
                if x > 0 {
                    x = x - 1;
                } else {
                    y = if y > 0 {
                        y - 1
                    } else {
                        0
                    };
                    x = self.get_row_len(y);
                }
            },
            Key::Right => {
                if x < width {
                    x = x + 1;
                } else {
                    y = if y < height {
                        y + 1
                    } else {
                        height
                    };
                    x = 0;
                }
            },
            Key::PageUp => {
                y = if y > terminal_height {
                    y - terminal_height
                } else {
                    0
                };
            },
            Key::PageDown => {
                y = if height - y > terminal_height {
                    y + terminal_height
                } else {
                    height
                };
            },
            Key::Home => {
                x = 0;
            },
            Key::End => {
                x = width;
            },
            _ => {},
        }
        let width = self.get_row_len(y);
        if x > width {
            x = width;
        }
        self.cursor_position = Position { x, y };
    }

    /// Re-establishes viewport containment after a cursor move, shifting the
    /// offset minimally on each axis (no re-centering).
    pub fn scroll(&mut self)
        requires
            old(self).viewport.width >= 1,
            old(self).viewport.height >= 1,
        ensures
            final(self).offset.y as int == scroll_target(
                old(self).cursor_position.y as int,
                old(self).offset.y as int,
                old(self).viewport.height as int,
            ),
            final(self).offset.x as int == scroll_target(
                old(self).cursor_position.x as int,
                old(self).offset.x as int,
                old(self).viewport.width as int,
            ),
            final(self).cursor_visible(),
            final(self).doc == old(self).doc,
            final(self).cursor_position == old(self).cursor_position,
            final(self).viewport == old(self).viewport,
            final(self).exit == old(self).exit,
    {
        let x = self.cursor_position.x;
        let y = self.cursor_position.y;
        let width = self.viewport.width as usize;
        let height = self.viewport.height as usize;
        let mut offset_x = self.offset.x;
        let mut offset_y = self.offset.y;
        if y < offset_y {
            offset_y = y;
        } else if y >= offset_y.saturating_add(height) {
            offset_y = y.saturating_sub(height).saturating_add(1);
        }
        if x < offset_x {
            offset_x = x;
        } else if x >= offset_x.saturating_add(width) {
            offset_x = x.saturating_sub(width).saturating_add(1);
        }
        self.offset = Position { x: offset_x, y: offset_y };
    }

    /// Handles one key: quit sets the exit flag, a character is inserted and
    /// the cursor advanced, delete and backspace mutate the document, a
    /// navigation key moves the cursor; in every case the offset is then
    /// scrolled so the cursor stays visible. Well-formedness (cursor bounds
    /// and viewport containment) is preserved by every key.
    pub fn on_key_press(&mut self, key: Key)
        requires
            old(self).wf(),
        ensures
            final(self).wf(),
            final(self).doc@ == old(self).doc_after_key(key),
            final(self).doc.file_name == old(self).doc.file_name,
            final(self).viewport == old(self).viewport,
            final(self).exit == (old(self).exit || key is Quit),
            final(self).cursor_position.x as int == old(self).cursor_after_key(key).0,
            final(self).cursor_position.y as int == old(self).cursor_after_key(key).1,
            final(self).offset.y as int == scroll_target(
                old(self).cursor_after_key(key).1,
                old(self).offset.y as int,
                old(self).viewport.height as int,
            ),
            final(self).offset.x as int == scroll_target(
                old(self).cursor_after_key(key).0,
                old(self).offset.x as int,
                old(self).viewport.width as int,
            ),
    {
        match key {
            Key::Quit => {
                self.exit = true;
            },
            Key::Char(c) => {
                self.doc.insert(&self.cursor_position, c);
                self.move_cursor(Key::Right);
            },
            Key::Delete => {
                if self.cursor_position.y < self.doc.len() {
                    self.doc.delete(&self.cursor_position);
                }
            },
            Key::Backspace => {
                self.move_cursor(Key::Left);
                if self.cursor_position.y < self.doc.len() {
                    self.doc.delete(&self.cursor_position);
                }
            },
            Key::Up | Key::Down | Key::Left | Key::Right | Key::PageUp | Key::PageDown | Key::Home
                | Key::End => {
                self.move_cursor(key);
            },
        }
        self.scroll();
    }

    /// What the screen line `i` of the viewport shows: the matching document
    /// row's rendered slice, the welcome banner a third of the way down an
    /// empty document, or a `~` filler for a line past the document's end.
    pub open spec fn line_spec(self, i: int) -> Seq<char> {
        let y = self.offset.y + i;
        if y < self.doc@.len() {
            self.doc.rows@[y].render_spec(
                self.offset.x as int,
                self.offset.x as int + self.viewport.width as int,
            )
        } else if self.doc@.len() == 0 && i == self.viewport.height as int / 3 {
            welcome_spec(self.viewport.width as int)
        } else {
            seq!['~']
        }
    }

    /// Renders one document row for the current viewport: the column range
    /// `[offset.x, offset.x + width)`.
    pub fn draw_row(&self, row: &Row) -> (s: String)
        ensures
            s@ == row.render_spec(
                self.offset.x as int,
                self.offset.x as int + self.viewport.width as int,
            ),
    {
        let start = self.offset.x;
        let end = self.offset.x.saturating_add(self.viewport.width as usize);
        proof {
            vstd::std_specs::vec::axiom_spec_len(&row.clusters);
        }
        row.render(start, end)
    }

    /// The lines of the whole viewport, top to bottom.
    pub fn draw_rows(&self) -> (lines: Vec<String>)
        ensures
            lines@.len() == self.viewport.height as int,
            forall|i: int| 0 <= i < lines@.len() ==> lines@[i]@ == self.line_spec(i),
    {
        let h = self.viewport.height;
        let mut lines: Vec<String> = Vec::new();
        let mut i: u16 = 0;
        while i < h
            invariant
                i <= h,
                h == self.viewport.height,
                lines@.len() == i as int,
                forall|j: int| 0 <= j < i as int ==> lines@[j]@ == self.line_spec(j),
            decreases h - i,
        {
            let y = self.offset.y.saturating_add(i as usize);
            proof {
                vstd::std_specs::vec::axiom_spec_len(&self.doc.rows);
            }
            let line = match self.doc.row(y) {
                Some(row) => self.draw_row(row),
                None => {
                    if self.doc.is_empty() && h / 3 == i {
                        Self::welcome_line(self.viewport.width as usize)
                    } else {
                        char_string('~')
                    }
                },
            };
            proof {
                assert(line@ == self.line_spec(i as int));
            }
            lines.push(line);
            i += 1;
        }
        lines
    }

    /// The status line: the document's name (or `[Untitled]`) cut to twenty
    /// characters, the row count, and a `line:column` indicator at the right
    /// edge, padded or truncated to the viewport width.
    pub open spec fn status_spec(self) -> Seq<char> {
        let name = match self.doc.file_name {
            Some(n) => take_at_most(n@, 20),
            None => "[Untitled]"@,
        };
        let status = name + " - "@ + dec_digits(self.doc@.len() as int);
        let indicator = dec_digits(sat1(self.cursor_position.y as int)) + seq![':'] + dec_digits(
            sat1(self.cursor_position.x as int),
        );
        let width = self.viewport.width as int;
        let len = status.len() + indicator.len();
        if width > len {
            status + spaces(width - len) + indicator
        } else {
            take_at_most(status, width)
        }
    }

    /// Composes the status line's text for the current state.
    pub fn status_line(&self) -> (s: String)
        ensures
            s@ == self.status_spec(),
    {
        let mut status = match &self.doc.file_name {
            Some(name) => truncate_chars(name.as_str(), 20),
            None => String::from_str("[Untitled]"),
        };
        status.append(" - ");
        let count = format_usize(self.doc.len());
        status.append(count.as_str());
        let mut indicator = format_usize(self.cursor_position.y.saturating_add(1));
        push_char(&mut indicator, ':');
        let xs = format_usize(self.cursor_position.x.saturating_add(1));
        indicator.append(xs.as_str());
        proof {
            assert(indicator@ =~= dec_digits(sat1(self.cursor_position.y as int)) + seq![':']
                + dec_digits(sat1(self.cursor_position.x as int)));
        }
        let width = self.viewport.width as usize;
        let status_len = status.as_str().unicode_len();
        let ind_len = indicator.as_str().unicode_len();
        let len = status_len.saturating_add(ind_len);
        if width > len {
            let pad = width - len;
            let ghost base = status@;
            let mut k: usize = 0;
            proof {
                assert(status@ =~= base + spaces(0));
            }
            while k < pad
                invariant
                    k <= pad,
                    status@ == base + spaces(k as int),
                decreases pad - k,
            {
                push_char(&mut status, ' ');
                proof {
                    assert(status@ =~= base + spaces(k + 1 as int));
                }
                k += 1;
            }
            status.append(indicator.as_str());
            status
        } else {
            truncate_chars(status.as_str(), width)
        }
    }

    /// The welcome banner line for a viewport `width` columns wide.
    pub fn welcome_line(width: usize) -> (s: String)
        ensures
            s@ == welcome_spec(width as int),
    {
        let banner = "Kilo-rs editor -- version 0.1.0";
        proof {
            reveal_strlit("Kilo-rs editor -- version 0.1.0");
        }
        let blen = banner.unicode_len();
        let padding = if width >= blen {
            (width - blen) / 2
        } else {
            0
        };
        let sp = if padding >= 1 {
            padding - 1
        } else {
            0
        };
        let mut s = String::new();
        push_char(&mut s, '~');
        proof {
            assert(s@ =~= seq!['~'] + Seq::new(0, |k: int| ' '));
        }
        let mut j: usize = 0;
        while j < sp
            invariant
                j <= sp,
                s@ == seq!['~'] + Seq::new(j as nat, |k: int| ' '),
            decreases sp - j,
        {
            push_char(&mut s, ' ');
            proof {
                assert(s@ =~= seq!['~'] + Seq::new((j + 1) as nat, |k: int| ' '));
            }
            j += 1;
        }
        s.append(banner);
        let ghost full = seq!['~'] + Seq::new(sp as nat, |k: int| ' ') + welcome_text();
        proof {
            assert(s@ =~= full);
        }
        let total = s.as_str().unicode_len();
        if width < total {
            let t = s.as_str().substring_char(0, width);
            let r = t.to_owned();
            proof {
                assert(r@ =~= welcome_spec(width as int));
            }
            r
        } else {
            proof {
                assert(s@ =~= welcome_spec(width as int));
            }
            s
        }
    }
}

} // verus!
