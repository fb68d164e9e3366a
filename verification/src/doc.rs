use vstd::prelude::*;

use crate::editor::Position;
use crate::row::{delete_result, insert_result, Row};
use crate::segment::clusters_of;

verus! {

use vstd::string::StrSliceExecFns;

/// The index of the first newline in `s`, or `s.len()` if there is none.
pub open spec fn nl_index(s: Seq<char>) -> int
    decreases s.len(),
{
    if s.len() == 0 {
        0
    } else if s[0] == '\n' {
        0
    } else {
        1 + nl_index(s.drop_first())
    }
}

pub proof fn lemma_nl_index(s: Seq<char>)
    ensures
        0 <= nl_index(s) <= s.len(),
        forall|j: int| 0 <= j < nl_index(s) ==> s[j] != '\n',
        nl_index(s) < s.len() ==> s[nl_index(s)] == '\n',
    decreases s.len(),
{
    if s.len() == 0 {
    } else if s[0] == '\n' {
    } else {
        lemma_nl_index(s.drop_first());
        assert forall|j: int| 0 <= j < nl_index(s) implies s[j] != '\n' by {
            if j > 0 {
                assert(s.drop_first()[j - 1] == s[j]);
            }
        }
    }
}

/// The position of the first newline is the one index with no newline before
/// it that either holds a newline or is the end.
pub proof fn lemma_nl_index_is(s: Seq<char>, k: int)
    requires
        0 <= k <= s.len(),
        forall|j: int| 0 <= j < k ==> s[j] != '\n',
        k == s.len() || s[k] == '\n',
    ensures
        nl_index(s) == k,
    decreases s.len(),
{
    if k == 0 {
    } else {
        assert(s[0] != '\n');
        assert forall|j: int| 0 <= j < k - 1 implies s.drop_first()[j] != '\n' by {
            assert(s.drop_first()[j] == s[j + 1]);
        }
        if k < s.len() {
            assert(s.drop_first()[k - 1] == s[k]);
        }
        lemma_nl_index_is(s.drop_first(), k - 1);
    }
}

/// A line with one trailing carriage return removed, as happens to a line
/// that a newline terminated.
pub open spec fn chomp_cr(l: Seq<char>) -> Seq<char> {
    if l.len() > 0 && l.last() == '\r' {
        l.drop_last()
    } else {
        l
    }
}

/// The lines of a text: split at each newline, a carriage return directly
/// before a newline dropped, and a final newline terminating the last line
/// rather than opening an empty one.
pub open spec fn lines_of(s: Seq<char>) -> Seq<Seq<char>>
    decreases s.len(),
    via lines_of_decreases
{
    if s.len() == 0 {
        Seq::empty()
    } else {
        let k = nl_index(s);
        if k == s.len() {
            seq![s]
        } else {
            seq![chomp_cr(s.subrange(0, k))] + lines_of(s.subrange(k + 1, s.len() as int))
        }
    }
}

#[via_fn]
proof fn lines_of_decreases(s: Seq<char>) {
    lemma_nl_index(s);
}

/// An ordered sequence of rows, one per visual line, with a dirty flag and
/// an optional name for the persistence collaborator.
pub struct Doc {
    pub rows: Vec<Row>,
    pub file_name: Option<String>,
    pub modified: bool,
}

impl View for Doc {
    type V = Seq<Seq<Seq<char>>>;

    /// A document is modelled as the sequence of its rows' cluster
    /// sequences.
    open spec fn view(&self) -> Seq<Seq<Seq<char>>> {
        Seq::new(self.rows@.len(), |i: int| self.rows@[i]@)
    }
}

impl Default for Doc {
    fn default() -> (d: Self)
        ensures
            d@.len() == 0,
            d.file_name is None,
            !d.modified,
    {
        Doc { rows: Vec::new(), file_name: None, modified: false }
    }
}

/// What inserting a newline at `(x, y)` leaves behind: at the append row a
/// new empty row; otherwise row `y` split at `x` into two rows.
pub open spec fn doc_insert_newline(
    rows: Seq<Seq<Seq<char>>>,
    x: int,
    y: int,
) -> Seq<Seq<Seq<char>>> {
    if y == rows.len() {
        rows.push(Seq::empty())
    } else {
        rows.subrange(0, y) + seq![
            rows[y].subrange(0, x),
            rows[y].subrange(x, rows[y].len() as int),
        ] + rows.subrange(y + 1, rows.len() as int)
    }
}

/// What inserting `c` at `(x, y)` leaves behind: a newline splits rows; any
/// other character lands in row `y`, or opens a new last row holding just
/// `c` when `y` is the append row.
pub open spec fn doc_insert(
    rows: Seq<Seq<Seq<char>>>,
    x: int,
    y: int,
    c: char,
) -> Seq<Seq<Seq<char>>> {
    if c == '\n' {
        doc_insert_newline(rows, x, y)
    } else if y == rows.len() {
        rows.push(seq![seq![c]])
    } else {
        rows.update(y, insert_result(rows[y], x, c))
    }
}

/// What deleting at `(x, y)` leaves behind: at the end of a row that is not
/// the last, the next row is merged in; otherwise the cluster at `x` of row
/// `y` goes (and a position at the last row's end deletes nothing).
pub open spec fn doc_delete(rows: Seq<Seq<Seq<char>>>, x: int, y: int) -> Seq<Seq<Seq<char>>> {
    if x == rows[y].len() && y + 1 < rows.len() {
        rows.update(y, rows[y] + rows[y + 1]).remove(y + 1)
    } else {
        rows.update(y, delete_result(rows[y], x))
    }
}

impl Doc {
    /// Builds a document from a text: one row per line of the text, in
    /// order, not yet modified.
    pub fn open(contents: &str, file_name: Option<String>) -> (d: Doc)
        ensures
            d@ == lines_of(contents@).map_values(|l: Seq<char>| clusters_of(l)),
            d.file_name == file_name,
            !d.modified,
    {
        let n = contents.unicode_len();
        let mut rows: Vec<Row> = Vec::new();
        let ghost mut processed: Seq<Seq<char>> = Seq::empty();
        let mut line_start: usize = 0;
        let mut i: usize = 0;
        proof {
            assert(contents@.subrange(0, contents@.len() as int) =~= contents@);
            assert(Seq::<Seq<char>>::empty() + lines_of(contents@) =~= lines_of(contents@));
        }
        while i < n
            invariant
                n == contents@.len(),
                line_start <= i <= n,
                forall|j: int| line_start <= j < i ==> contents@[j] != '\n',
                lines_of(contents@) == processed + lines_of(
                    contents@.subrange(line_start as int, n as int),
                ),
                rows@.len() == processed.len(),
                forall|k: int| 0 <= k < rows@.len() ==> rows@[k]@ == clusters_of(processed[k]),
            decreases n - i,
        {
            if contents.get_char(i) == '\n' {
                let line_end = if i > line_start && contents.get_char(i - 1) == '\r' {
                    i - 1
                } else {
                    i
                };
                let line = contents.substring_char(line_start, i);
                let chomped = contents.substring_char(line_start, line_end);
                let ghost suffix = contents@.subrange(line_start as int, n as int);
                proof {
                    assert forall|j: int| 0 <= j < i - line_start implies suffix[j] != '\n' by {
                        assert(suffix[j] == contents@[line_start + j]);
                    }
                    assert(suffix[i - line_start] == contents@[i as int]);
                    lemma_nl_index_is(suffix, i - line_start);
                    assert(suffix.subrange(0, i - line_start) =~= line@);
                    assert(chomp_cr(line@) =~= chomped@);
                    assert(suffix.subrange(i - line_start + 1, suffix.len() as int)
                        =~= contents@.subrange(i + 1 as int, n as int));
                    assert(lines_of(suffix) == seq![chomp_cr(line@)] + lines_of(
                        contents@.subrange(i + 1 as int, n as int),
                    ));
                }
                let ghost prerows = rows@;
                let row = Row::from_str(chomped);
                rows.push(row);
                proof {
                    processed = processed.push(chomped@);
                    assert(lines_of(contents@) =~= processed + lines_of(
                        contents@.subrange(i + 1 as int, n as int),
                    ));
                }
                line_start = i + 1;
            }
            i += 1;
        }
        if line_start < n {
            let line = contents.substring_char(line_start, n);
            let ghost suffix = contents@.subrange(line_start as int, n as int);
            proof {
                assert forall|j: int| 0 <= j < suffix.len() implies suffix[j] != '\n' by {
                    assert(suffix[j] == contents@[line_start + j]);
                }
                lemma_nl_index_is(suffix, suffix.len() as int);
                assert(suffix =~= line@);
                assert(lines_of(suffix) == seq![line@]);
            }
            let ghost prerows = rows@;
            let row = Row::from_str(line);
            rows.push(row);
            proof {
                processed = processed.push(line@);
                assert(lines_of(contents@) =~= processed);
            }
        } else {
            proof {
                assert(contents@.subrange(line_start as int, n as int).len() == 0);
                assert(lines_of(contents@) =~= processed);
            }
        }
        proof {
            let target = lines_of(contents@).map_values(|l: Seq<char>| clusters_of(l));
            assert forall|k: int| 0 <= k < rows@.len() implies #[trigger] rows@[k]@ == target[k] by {
                assert(target[k] == clusters_of(processed[k]));
            }
            assert(Seq::new(rows@.len(), |k: int| rows@[k]@) =~= target);
        }
        Doc { rows, file_name, modified: false }
    }

    /// The row at index `y`, or nothing when `y` is out of range; callers
    /// treat an absent row as an empty line past the document's end.
    pub fn row(&self, idx: usize) -> (r: Option<&Row>)
        ensures
            idx < self@.len() ==> r is Some && r->0@ == self@[idx as int] && *r->0
                == self.rows@[idx as int],
            idx >= self@.len() ==> r is None,
    {
        if idx < self.rows.len() {
            Some(&self.rows[idx])
        } else {
            None
        }
    }

    pub fn is_empty(&self) -> (e: bool)
        ensures
            e <==> self@.len() == 0,
    {
        self.rows.is_empty()
    }

    /// The number of rows.
    pub fn len(&self) -> (n: usize)
        ensures
            n == self@.len(),
    {
        self.rows.len()
    }

    fn insert_newline(&mut self, at: &Position)
        requires
            at.y <= old(self)@.len(),
            at.y < old(self)@.len() ==> at.x <= old(self)@[at.y as int].len(),
        ensures
            final(self)@ == doc_insert_newline(old(self)@, at.x as int, at.y as int),
            final(self).modified == old(self).modified,
            final(self).file_name == old(self).file_name,
    {
        if at.y == self.rows.len() {
            self.rows.push(Row::default());
            proof {
                assert(self@ =~~= doc_insert_newline(old(self)@, at.x as int, at.y as int));
            }
            return ;
        }
        let mut row = self.rows.remove(at.y);
        let new_row = row.split_at(at.x);
        self.rows.insert(at.y, row);
        self.rows.insert(at.y + 1, new_row);
        proof {
            assert(self@ =~~= doc_insert_newline(old(self)@, at.x as int, at.y as int));
        }
    }

    /// Inserts `c` at the position: a newline splits the row there (or
    /// appends an empty row at the append position); any other character is
    /// spliced into the row (or opens a new last row). Marks the document
    /// modified.
    pub fn insert(&mut self, at: &Position, c: char)
        requires
            at.y <= old(self)@.len(),
            at.y < old(self)@.len() ==> at.x <= old(self)@[at.y as int].len(),
        ensures
            final(self)@ == doc_insert(old(self)@, at.x as int, at.y as int, c),
            final(self).modified,
            final(self).file_name == old(self).file_name,
    {
        self.modified = true;
        if c == '\n' {
            self.insert_newline(at);
            return ;
        }
        if at.y == self.rows.len() {
            let mut row = Row::default();
            row.insert(0, c);
            self.rows.push(row);
            proof {
                assert(row@ =~= seq![seq![c]]);
                assert(self@ =~~= doc_insert(old(self)@, at.x as int, at.y as int, c));
            }
        } else {
            let mut row = self.rows.remove(at.y);
            row.insert(at.x, c);
            self.rows.insert(at.y, row);
            proof {
                assert(self@ =~~= doc_insert(old(self)@, at.x as int, at.y as int, c));
            }
        }
    }

    /// Deletes at the position: at the end of a row that is not the last,
    /// the next row is merged into it; otherwise the cluster there goes, and
    /// the last row's end is left alone. Marks the document modified.
    pub fn delete(&mut self, at: &Position)
        requires
            at.y < old(self)@.len(),
        ensures
            final(self)@ == doc_delete(old(self)@, at.x as int, at.y as int),
            final(self).modified,
            final(self).file_name == old(self).file_name,
    {
        self.modified = true;
        let len = self.rows.len();
        let row_len = self.rows[at.y].len();
        if at.x == row_len && at.y + 1 < len {
            let next_row = self.rows.remove(at.y + 1);
            let mut row = self.rows.remove(at.y);
            row.append_row(&next_row);
            self.rows.insert(at.y, row);
            proof {
                assert(self@ =~~= doc_delete(old(self)@, at.x as int, at.y as int));
            }
        } else {
            let mut row = self.rows.remove(at.y);
            row.delete(at.x);
            self.rows.insert(at.y, row);
            proof {
                assert(self@ =~~= doc_delete(old(self)@, at.x as int, at.y as int));
            }
        }
    }

    /// The bytes that persisting the document writes: each row's text, UTF-8
    /// encoded, followed by a newline byte, in row order.
    pub fn save_content(&self) -> (b: Vec<u8>)
        ensures
            b@ == serialized(self@),
    {
        let mut out: Vec<u8> = Vec::new();
        let mut i: usize = 0;
        proof {
            assert(self@.subrange(0, 0) =~= Seq::<Seq<Seq<char>>>::empty());
            assert(out@ =~= serialized(self@.subrange(0, 0)));
        }
        while i < self.rows.len()
            invariant
                i <= self.rows.len(),
                out@ == serialized(self@.subrange(0, i as int)),
            decreases self.rows.len() - i,
        {
            let ghost sub = self@.subrange(0, i as int);
            let ghost f = |r: Seq<Seq<char>>| vstd::utf8::encode_utf8(r.flatten()) + seq![10u8];
            let mut rb = self.rows[i].as_bytes();
            out.append(&mut rb);
            out.push(10);
            proof {
                assert(self.rows@[i as int]@ == self@[i as int]);
                assert(out@ =~= sub.map_values(f).flatten() + f(self@[i as int]));
                sub.map_values(f).lemma_flatten_push(f(self@[i as int]));
                assert(self@.subrange(0, i + 1 as int) =~= sub.push(self@[i as int]));
                assert(self@.subrange(0, i + 1 as int).map_values(f) =~= sub.map_values(f).push(
                    f(self@[i as int]),
                ));
            }
            i += 1;
        }
        proof {
            assert(self@.subrange(0, self@.len() as int) =~= self@);
        }
        out
    }

    /// Records a successful persist: the document is no longer modified, and
    /// nothing else changes. A failed save must not call this, so that the
    /// document does not falsely count as saved.
    pub fn mark_saved(&mut self)
        ensures
            final(self)@ == old(self)@,
            final(self).rows == old(self).rows,
            final(self).file_name == old(self).file_name,
            !final(self).modified,
    {
        self.modified = false;
    }
}

/// The serialized form of a document: each row's text, UTF-8 encoded,
/// followed by a newline byte.
pub open spec fn serialized(rows: Seq<Seq<Seq<char>>>) -> Seq<u8> {
    rows.map_values(|r: Seq<Seq<char>>| vstd::utf8::encode_utf8(r.flatten()) + seq![10u8]).flatten()
}

} // verus!
