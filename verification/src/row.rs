use vstd::prelude::*;

use crate::escape::{fg_escape, fg_marker, reset_escape, reset_marker};
use crate::highlighting::Class;
use crate::segment::{clusters_of, split_clusters};

verus! {

use vstd::string::StrSliceExecFns;
use vstd::string::StringExecFns;

/// One line of document text, held as its sequence of grapheme clusters,
/// together with the per-character highlight tags of the last classification
/// pass (possibly stale: a mutation does not refresh them).
pub struct Row {
    pub clusters: Vec<String>,
    pub highlighting: Vec<Class>,
}

impl View for Row {
    type V = Seq<Seq<char>>;

    /// A row is modelled as the sequence of its grapheme clusters, each a
    /// sequence of characters.
    open spec fn view(&self) -> Seq<Seq<char>> {
        self.clusters.deep_view()
    }
}

/// Relies on std's `String::push`: it appends the given character to the end
/// of the string.
#[verifier::external_body]
pub(crate) fn push_char(s: &mut String, c: char)
    ensures
        final(s)@ == old(s)@.push(c),
{
    s.push(c);
}

/// A string holding the single character `c`.
pub(crate) fn char_string(c: char) -> (s: String)
    ensures
        s@ == seq![c],
{
    let mut s = String::new();
    push_char(&mut s, c);
    proof {
        assert(s@ =~= seq![c]);
    }
    s
}

/// What `Row::insert` leaves behind: the character becomes a cluster of its
/// own, spliced in at `at`, or appended when `at` is past the end.
pub open spec fn insert_result(r: Seq<Seq<char>>, at: int, c: char) -> Seq<Seq<char>> {
    if at < r.len() {
        r.insert(at, seq![c])
    } else {
        r.push(seq![c])
    }
}

/// What `Row::delete` leaves behind: the cluster at `at` is removed, and a
/// position at or past the end leaves the row unchanged.
pub open spec fn delete_result(r: Seq<Seq<char>>, at: int) -> Seq<Seq<char>> {
    if at < r.len() {
        r.remove(at)
    } else {
        r
    }
}

impl Default for Row {
    fn default() -> (r: Self)
        ensures
            r@ == Seq::<Seq<char>>::empty(),
            r.tags().len() == 0,
    {
        let r = Row { clusters: Vec::new(), highlighting: Vec::new() };
        proof {
            assert(r@ =~= Seq::<Seq<char>>::empty());
        }
        r
    }
}

impl Row {
    /// The line's text: the clusters concatenated.
    pub open spec fn text(self) -> Seq<char> {
        self@.flatten()
    }

    /// The highlight tags, one per cluster when fresh.
    pub open spec fn tags(self) -> Seq<Class> {
        self.highlighting@
    }

    /// Builds a row from a line of text by segmenting it into grapheme
    /// clusters; the new row carries no highlight tags yet.
    pub fn from_str(s: &str) -> (r: Row)
        ensures
            r@ == clusters_of(s@),
            r.text() == s@,
            r.tags().len() == 0,
    {
        let clusters = split_clusters(s);
        Row { clusters, highlighting: Vec::new() }
    }

    /// The number of grapheme clusters in the line.
    pub fn len(&self) -> (n: usize)
        ensures
            n == self@.len(),
    {
        self.clusters.len()
    }

    pub fn is_empty(&self) -> (e: bool)
        ensures
            e <==> self@.len() == 0,
    {
        self.clusters.is_empty()
    }

    /// Splices the character in as a cluster of its own at cluster offset
    /// `at`, appending when `at` is at or past the end. Newlines are a
    /// document-level operation, not a row operation.
    pub fn insert(&mut self, at: usize, c: char)
        requires
            c != '\n',
        ensures
            final(self)@ == insert_result(old(self)@, at as int, c),
            final(self).tags() == old(self).tags(),
    {
        let cluster = char_string(c);
        if at >= self.clusters.len() {
            self.clusters.push(cluster);
            proof {
                assert(self@ =~= insert_result(old(self)@, at as int, c));
            }
        } else {
            self.clusters.insert(at, cluster);
            proof {
                assert(self@ =~= insert_result(old(self)@, at as int, c));
            }
        }
    }

    /// Removes the cluster at `at`; a position at or past the end is left
    /// alone.
    pub fn delete(&mut self, at: usize)
        ensures
            final(self)@ == delete_result(old(self)@, at as int),
            final(self).tags() == old(self).tags(),
    {
        if at >= self.clusters.len() {
            return ;
        }
        self.clusters.remove(at);
        proof {
            assert(self@ =~= delete_result(old(self)@, at as int));
        }
    }

    /// Truncates the row to its first `at` clusters and returns the rest as a
    /// new row. The new row carries no highlight tags; the truncated row
    /// keeps its (now stale) tags.
    pub fn split_at(&mut self, at: usize) -> (r: Row)
        requires
            at <= old(self)@.len(),
        ensures
            final(self)@ == old(self)@.subrange(0, at as int),
            r@ == old(self)@.subrange(at as int, old(self)@.len() as int),
            final(self).tags() == old(self).tags(),
            r.tags().len() == 0,
    {
        let tail = self.clusters.split_off(at);
        proof {
            assert(self@ =~= old(self)@.subrange(0, at as int));
            assert(tail.deep_view() =~= old(self)@.subrange(at as int, old(self)@.len() as int));
        }
        Row { clusters: tail, highlighting: Vec::new() }
    }

    /// Concatenates the other row's clusters onto this row's end; this row's
    /// tags are kept (stale), the other row is unchanged.
    pub fn append_row(&mut self, row: &Row)
        ensures
            final(self)@ == old(self)@ + row@,
            final(self).tags() == old(self).tags(),
    {
        let ghost orig = self@;
        let ghost origtags = self.highlighting@;
        proof {
            assert(orig + row@.subrange(0, 0) =~= orig);
        }
        let mut i: usize = 0;
        while i < row.clusters.len()
            invariant
                i <= row.clusters.len(),
                self@ == orig + row@.subrange(0, i as int),
                self.highlighting@ == origtags,
            decreases row.clusters.len() - i,
        {
            let s = row.clusters[i].clone();
            let ghost sv = s@;
            let ghost pre = self.clusters@;
            let ghost predv = self@;
            proof {
                assert(sv == row@[i as int]);
            }
            self.clusters.push(s);
            proof {
                assert(self.clusters@ == pre.push(s));
                assert(self@[pre.len() as int] == sv);
                assert(forall|j: int| 0 <= j < pre.len() ==> self.clusters@[j] == pre[j]);
                assert(forall|j: int| 0 <= j < pre.len() ==> self@[j] == predv[j]);
                assert(self@ =~= predv.push(sv));
                assert(predv.push(sv) =~= orig + row@.subrange(0, i + 1 as int));
            }
            i += 1;
        }
        proof {
            assert(row@.subrange(0, row@.len() as int) =~= row@);
        }
    }
}

/// True of the characters `'0'` through `'9'`.
pub open spec fn is_digit(c: char) -> bool {
    48 <= c as u32 <= 57
}

/// The classification rule: a cluster that is a single ASCII digit is a
/// `Number`; every other cluster is `Plain`.
pub open spec fn classify_cluster(cl: Seq<char>) -> Class {
    if cl.len() == 1 && is_digit(cl[0]) {
        Class::Number
    } else {
        Class::Plain
    }
}

/// One tag per cluster, by the classification rule.
pub open spec fn classification(cl: Seq<Seq<char>>) -> Seq<Class> {
    cl.map_values(|c: Seq<char>| classify_cluster(c))
}

/// The tag a render pass uses for cluster `i`: the stored tag, or `Plain`
/// where the stored tags do not reach.
pub open spec fn tag_at(tags: Seq<Class>, i: int) -> Class {
    if 0 <= i < tags.len() {
        tags[i]
    } else {
        Class::Plain
    }
}

/// How one cluster appears on screen: a tab becomes a single space, every
/// other cluster is emitted whole.
pub open spec fn render_cluster(cl: Seq<char>) -> Seq<char> {
    if cl == seq!['\t'] {
        seq![' ']
    } else {
        cl
    }
}

/// The color marker that switches the foreground to the given category's
/// color.
pub open spec fn marker_for(t: Class) -> Seq<char> {
    fg_marker(t.spec_color().r, t.spec_color().g, t.spec_color().b)
}

/// The rendered characters for clusters `[i, end)`, given that the last
/// emitted cluster carried the tag `prev`: a color marker is emitted exactly
/// where a cluster's tag differs from the previous one, and the reset marker
/// closes the range.
pub open spec fn render_chars(
    cl: Seq<Seq<char>>,
    tags: Seq<Class>,
    i: int,
    end: int,
    prev: Class,
) -> Seq<char>
    decreases end - i,
{
    if i >= end {
        reset_marker()
    } else {
        let t = tag_at(tags, i);
        let m: Seq<char> = if t == prev {
            Seq::empty()
        } else {
            marker_for(t)
        };
        m + render_cluster(cl[i]) + render_chars(cl, tags, i + 1, end, t)
    }
}

/// The requested end of a render range, clamped to the row.
pub open spec fn clip_end(b: int, len: int) -> int {
    vstd::math::min(b, len)
}

/// The requested start of a render range, clamped to the clamped end.
pub open spec fn clip_start(a: int, e: int) -> int {
    vstd::math::min(a, e)
}

/// The clusters that `render(a, b)` draws, in order, each rendered as one
/// unit.
pub open spec fn rendered_clusters(cl: Seq<Seq<char>>, a: int, b: int) -> Seq<Seq<char>> {
    let e = clip_end(b, cl.len() as int);
    let s = clip_start(a, e);
    cl.subrange(s, e).map_values(|c: Seq<char>| render_cluster(c))
}

impl Row {
    /// What `render(a, b)` returns: the clusters of the clipped range
    /// `[min(a, min(b, len)), min(b, len))` with their color markers, closed
    /// by the reset marker.
    pub open spec fn render_spec(self, a: int, b: int) -> Seq<char> {
        let e = clip_end(b, self@.len() as int);
        let s = clip_start(a, e);
        render_chars(self@, self.tags(), s, e, Class::Plain)
    }

    /// The visible substring for cluster range `[start, end)`, clipped to the
    /// row, with color markers at tag transitions and a trailing reset
    /// marker.
    pub fn render(&self, start: usize, end: usize) -> (r: String)
        ensures
            r@ == self.render_spec(start as int, end as int),
    {
        let len = self.clusters.len();
        let end = if end <= len {
            end
        } else {
            len
        };
        let start = if start <= end {
            start
        } else {
            end
        };
        let mut out = String::new();
        let mut prev = Class::Plain;
        let mut i = start;
        proof {
            assert(Seq::<char>::empty() + render_chars(
                self@,
                self.tags(),
                start as int,
                end as int,
                Class::Plain,
            ) =~= render_chars(self@, self.tags(), start as int, end as int, Class::Plain));
        }
        while i < end
            invariant
                start <= i <= end,
                end <= self@.len(),
                out@ + render_chars(self@, self.tags(), i as int, end as int, prev)
                    == render_chars(self@, self.tags(), start as int, end as int, Class::Plain),
            decreases end - i,
        {
            let ghost pre = out@;
            let ghost prevtag = prev;
            let t = if i < self.highlighting.len() {
                self.highlighting[i]
            } else {
                Class::Plain
            };
            proof {
                assert(t == tag_at(self.tags(), i as int));
            }
            if t != prev {
                let col = t.color();
                let m = fg_escape(col.r, col.g, col.b);
                out.append(m.as_str());
                prev = t;
            }
            let ghost marker: Seq<char> = if t == prevtag {
                Seq::empty()
            } else {
                marker_for(t)
            };
            proof {
                assert(out@ =~= pre + marker);
            }
            let cs = &self.clusters[i];
            let single_tab = cs.as_str().unicode_len() == 1 && cs.as_str().get_char(0) == '\t';
            if single_tab {
                out.append(" ");
                proof {
                    reveal_strlit(" ");
                    assert(cs@ =~= seq!['\t']);
                    assert(" "@ =~= seq![' ']);
                }
            } else {
                out.append(cs.as_str());
                proof {
                    if cs@.len() == 1 && cs@[0] == '\t' {
                        assert(cs@ =~= seq!['\t']);
                        assert(false);
                    }
                    assert(cs@ != seq!['\t']);
                }
            }
            proof {
                assert(self@[i as int] == cs@);
                assert(out@ =~= pre + marker + render_cluster(self@[i as int]));
                assert(render_chars(self@, self.tags(), i as int, end as int, prevtag) == marker
                    + render_cluster(self@[i as int]) + render_chars(
                    self@,
                    self.tags(),
                    i + 1 as int,
                    end as int,
                    t,
                ));
                assert(out@ + render_chars(self@, self.tags(), i + 1 as int, end as int, t) =~= pre
                    + render_chars(self@, self.tags(), i as int, end as int, prevtag));
            }
            i += 1;
        }
        let rst = reset_escape();
        out.append(rst.as_str());
        proof {
            assert(out@ =~= self.render_spec(start as int, end as int));
        }
        out
    }

    /// The line's text as a `String`: the clusters concatenated.
    pub fn contents(&self) -> (s: String)
        ensures
            s@ == self.text(),
    {
        let mut s = String::new();
        let mut i: usize = 0;
        proof {
            assert(self@.subrange(0, 0) =~= Seq::<Seq<char>>::empty());
            assert(s@ =~= self@.subrange(0, 0).flatten());
        }
        while i < self.clusters.len()
            invariant
                i <= self.clusters.len(),
                s@ == self@.subrange(0, i as int).flatten(),
            decreases self.clusters.len() - i,
        {
            let ghost sub = self@.subrange(0, i as int);
            s.append(self.clusters[i].as_str());
            proof {
                sub.lemma_flatten_push(self@[i as int]);
                assert(self@.subrange(0, i + 1 as int) =~= sub.push(self@[i as int]));
            }
            i += 1;
        }
        proof {
            assert(self@.subrange(0, self@.len() as int) =~= self@);
        }
        s
    }

    /// The line's raw bytes: its text, UTF-8 encoded.
    pub fn as_bytes(&self) -> (b: Vec<u8>)
        ensures
            b@ == vstd::utf8::encode_utf8(self.text()),
    {
        let s = self.contents();
        s.as_str().as_bytes_vec()
    }

    /// Recomputes the highlight tags from the current text: one tag per
    /// cluster, by the classification rule.
    pub fn highlight(&mut self)
        ensures
            final(self)@ == old(self)@,
            final(self).tags() == classification(old(self)@),
    {
        let mut hg: Vec<Class> = Vec::new();
        let mut i: usize = 0;
        while i < self.clusters.len()
            invariant
                i <= self.clusters.len(),
                self@ == old(self)@,
                self.clusters@ == old(self).clusters@,
                hg@.len() == i,
                forall|j: int| 0 <= j < i ==> hg@[j] == classify_cluster(self@[j]),
            decreases self.clusters.len() - i,
        {
            let cs = self.clusters[i].as_str();
            let t = if cs.unicode_len() == 1 && {
                let u = cs.get_char(0) as u32;
                u >= 48 && u <= 57
            } {
                Class::Number
            } else {
                Class::Plain
            };
            proof {
                assert(cs@ == self@[i as int]);
                assert(t == classify_cluster(self@[i as int]));
            }
            hg.push(t);
            i += 1;
        }
        self.highlighting = hg;
        proof {
            assert(self.tags() =~= classification(old(self)@));
        }
    }
}

/// `render(a, b)` draws the clusters of the clipped range and no others: the
/// count of rendered clusters is `max(0, min(b, len) - min(a, min(b, len)))`,
/// and each is rendered as one unit (a multi-codepoint cluster is never
/// split; only a tab changes, into one space).
pub proof fn lemma_render_cluster_count(cl: Seq<Seq<char>>, a: int, b: int)
    requires
        0 <= a,
        0 <= b,
    ensures
        rendered_clusters(cl, a, b).len() == vstd::math::max(
            0,
            vstd::math::min(b, cl.len() as int) - vstd::math::min(
                a,
                vstd::math::min(b, cl.len() as int),
            ),
        ),
        forall|i: int|
            0 <= i < rendered_clusters(cl, a, b).len() ==> rendered_clusters(cl, a, b)[i]
                == render_cluster(cl[clip_start(a, clip_end(b, cl.len() as int)) + i]),
{
}

/// Splitting a row at any `k` in `[0, len]` and appending the two parts
/// reconstructs the original row exactly, clusters and text alike.
pub proof fn lemma_split_append_round_trip(r: Seq<Seq<char>>, k: int)
    requires
        0 <= k <= r.len(),
    ensures
        r.subrange(0, k) + r.subrange(k, r.len() as int) == r,
        (r.subrange(0, k) + r.subrange(k, r.len() as int)).flatten() == r.flatten(),
{
    assert(r.subrange(0, k) + r.subrange(k, r.len() as int) =~= r);
}

/// Inserting a character at any `p` in `[0, len]` and deleting at the same
/// `p` restores the original row. This covers the append case `p == len`:
/// the insert grew the row, so `p` is a valid delete position.
pub proof fn lemma_insert_delete_inverse(r: Seq<Seq<char>>, p: int, c: char)
    requires
        0 <= p <= r.len(),
    ensures
        delete_result(insert_result(r, p, c), p) == r,
{
    assert(delete_result(insert_result(r, p, c), p) =~= r);
}

} // verus!
