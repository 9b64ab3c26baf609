//! Prefixes: the left-hand side of a delegation rule.
use vstd::prelude::*;

use super::{chars_of, is_label, is_label_char, label_error_is, label_stop, Label, LabelError};

verus! {

/// A path element: a label or the wildcard `*`.
#[derive(Debug, PartialEq, Eq)]
pub enum Elem {
    /// a label
    Label(Label),
    /// the `*` character
    AnyElem,
}

impl View for Elem {
    type V = Seq<char>;

    /// The element's text.
    open spec fn view(&self) -> Seq<char> {
        match self {
            Elem::Label(l) => l@,
            Elem::AnyElem => seq!['*'],
        }
    }
}

/// `t` is the text of an element: `*` or a label.
pub open spec fn is_elem_text(t: Seq<char>) -> bool {
    t == seq!['*'] || is_label(t)
}

/// Every one of `segs` is the text of an element.
pub open spec fn all_elem_texts(segs: Seq<Seq<char>>) -> bool {
    forall|i: int| 0 <= i < segs.len() ==> is_elem_text(#[trigger] segs[i])
}

/// `segs[k]` is the first of `segs` that is not the text of an element.
pub open spec fn first_bad_at(segs: Seq<Seq<char>>, k: int) -> bool {
    &&& 0 <= k < segs.len()
    &&& !is_elem_text(segs[k])
    &&& forall|j: int| 0 <= j < k ==> is_elem_text(#[trigger] segs[j])
}

/// The characters of `s` after its last `/` (all of `s` if it has none).
pub open spec fn trailing_segment(s: Seq<char>) -> Seq<char>
    decreases s.len(),
{
    if s.len() == 0 || s.last() == '/' {
        Seq::empty()
    } else {
        trailing_segment(s.drop_last()).push(s.last())
    }
}

/// The non-empty segments of `s` that a `/` ends, in order.
pub open spec fn closed_segments(s: Seq<char>) -> Seq<Seq<char>>
    decreases s.len(),
{
    if s.len() == 0 {
        Seq::empty()
    } else if s.last() == '/' {
        let p = s.drop_last();
        if trailing_segment(p).len() > 0 {
            closed_segments(p).push(trailing_segment(p))
        } else {
            closed_segments(p)
        }
    } else {
        closed_segments(s.drop_last())
    }
}

/// The non-empty segments of `s` between the `/` separators, in order.
pub open spec fn segments(s: Seq<char>) -> Seq<Seq<char>> {
    if trailing_segment(s).len() > 0 {
        closed_segments(s).push(trailing_segment(s))
    } else {
        closed_segments(s)
    }
}

/// The text of a prefix whose elements have the texts `es`: a `/` before
/// each one. No elements give the empty text.
pub open spec fn prefix_text(es: Seq<Seq<char>>) -> Seq<char>
    decreases es.len(),
{
    if es.len() == 0 {
        Seq::empty()
    } else {
        prefix_text(es.drop_last()) + seq!['/'] + es.last()
    }
}

impl Elem {
    /// Parses one segment: exactly `*` is the wildcard, anything else must
    /// be a label.
    pub fn try_from(s: &str) -> (r: Result<Elem, LabelError>)
        requires
            s@.len() > 0,
        ensures
            r is Ok <==> is_elem_text(s@),
            r matches Ok(e) ==> e@ == s@,
            r matches Err(e) ==> label_error_is(s@, e),
    {
        let cs = chars_of(s);
        if cs.len() == 1 && cs[0] == '*' {
            assert(s@ =~= seq!['*']);
            Ok(Elem::AnyElem)
        } else {
            assert(s@ != seq!['*']) by {
                if s@ =~= seq!['*'] {
                    assert(cs@[0] == '*');
                }
            }
            match Label::try_from(s) {
                Ok(l) => Ok(Elem::Label(l)),
                Err(e) => Err(e),
            }
        }
    }

    /// The element's text.
    pub fn as_str(&self) -> (r: &str)
        ensures
            r@ == self@,
    {
        match self {
            Elem::Label(l) => l.as_str(),
            Elem::AnyElem => {
                proof {
                    reveal_strlit("*");
                }
                "*"
            },
        }
    }
}

/// An ordered sequence of path elements.
#[derive(Debug, PartialEq, Eq)]
pub struct Prefix(Vec<Elem>);

impl View for Prefix {
    type V = Seq<Seq<char>>;

    /// The texts of the elements, in order.
    closed spec fn view(&self) -> Seq<Seq<char>> {
        self.0@.map_values(|e: Elem| e@)
    }
}

/// Splits `cs` at each `/`: the start and end of each non-empty segment.
fn split_segments(cs: &Vec<char>) -> (r: Vec<(usize, usize)>)
    ensures
        r@.len() == segments(cs@).len(),
        forall|j: int|
            0 <= j < r@.len() ==> {
                &&& (#[trigger] r@[j]).0 <= r@[j].1 <= cs@.len()
                &&& cs@.subrange(r@[j].0 as int, r@[j].1 as int) == segments(cs@)[j]
            },
{
    let mut r: Vec<(usize, usize)> = Vec::new();
    let mut start: usize = 0;
    let mut i: usize = 0;
    while i < cs.len()
        invariant
            start <= i <= cs@.len(),
            trailing_segment(cs@.subrange(0, i as int)) == cs@.subrange(start as int, i as int),
            r@.len() == closed_segments(cs@.subrange(0, i as int)).len(),
            forall|j: int|
                0 <= j < r@.len() ==> {
                    &&& (#[trigger] r@[j]).0 <= r@[j].1 <= i
                    &&& cs@.subrange(r@[j].0 as int, r@[j].1 as int) == closed_segments(
                        cs@.subrange(0, i as int),
                    )[j]
                },
        decreases cs@.len() - i,
    {
        let ghost p = cs@.subrange(0, i as int);
        let ghost q = cs@.subrange(0, i + 1);
        assert(q.drop_last() =~= p);
        assert(q.last() == cs@[i as int]);
        if cs[i] == '/' {
            if start < i {
                r.push((start, i));
            }
            start = i + 1;
            assert(trailing_segment(q) =~= cs@.subrange(start as int, start as int));
        } else {
            assert(trailing_segment(q) =~= cs@.subrange(start as int, i + 1));
        }
        i = i + 1;
    }
    assert(cs@.subrange(0, i as int) =~= cs@);
    if start < i {
        r.push((start, i));
    }
    r
}

impl Prefix {
    /// Parses a prefix: the text is split at each `/`, empty segments are
    /// dropped, and each other segment must be `*` or a label. The first
    /// segment that is neither gives the error.
    pub fn try_from(s: &str) -> (r: Result<Prefix, LabelError>)
        ensures
            r is Ok <==> all_elem_texts(segments(s@)),
            r matches Ok(p) ==> p@ == segments(s@),
            r matches Err(e) ==> exists|k: int|
                first_bad_at(segments(s@), k) && label_error_is(segments(s@)[k], e),
    {
        let cs = chars_of(s);
        let ranges = split_segments(&cs);
        let ghost segs = segments(s@);
        let mut elems: Vec<Elem> = Vec::new();
        let mut k: usize = 0;
        while k < ranges.len()
            invariant
                k <= ranges@.len(),
                cs@ == s@,
                segs == segments(s@),
                ranges@.len() == segs.len(),
                forall|j: int|
                    0 <= j < ranges@.len() ==> {
                        &&& (#[trigger] ranges@[j]).0 <= ranges@[j].1 <= cs@.len()
                        &&& cs@.subrange(ranges@[j].0 as int, ranges@[j].1 as int) == segs[j]
                    },
                elems@.map_values(|e: Elem| e@) == segs.subrange(0, k as int),
                forall|j: int| 0 <= j < k ==> is_elem_text(#[trigger] segs[j]),
            decreases ranges@.len() - k,
        {
            let (a, b) = ranges[k];
            assert(ranges@[k as int].0 <= ranges@[k as int].1);
            let t = s.substring_char(a, b);
            assert(t@ == segs[k as int]);
            assert(t@.len() > 0) by {
                lemma_segments_nonempty(s@, k as int);
            }
            match Elem::try_from(t) {
                Ok(e) => {
                    let ghost before = elems@;
                    elems.push(e);
                    assert(elems@.map_values(|e: Elem| e@) =~= before.map_values(|e: Elem| e@).push(
                        segs[k as int],
                    ));
                    assert(elems@.map_values(|e: Elem| e@) =~= segs.subrange(0, k + 1));
                },
                Err(e) => {
                    assert(first_bad_at(segs, k as int));
                    return Err(e);
                },
            }
            k = k + 1;
        }
        assert(segs.subrange(0, k as int) =~= segs);
        Ok(Prefix(elems))
    }

    /// The prefix made of `elems`, in order.
    pub fn from_elems(elems: Vec<Elem>) -> (r: Prefix)
        ensures
            r@ == elems@.map_values(|e: Elem| e@),
    {
        Prefix(elems)
    }

    /// Writes the prefix's text after `out`.
    pub(crate) fn render_into(&self, out: &mut String)
        ensures
            final(out)@ == old(out)@ + prefix_text(self@),
    {
        let ghost start = out@;
        let mut i: usize = 0;
        while i < self.0.len()
            invariant
                i <= self@.len(),
                out@ == start + prefix_text(self@.subrange(0, i as int)),
            decreases self@.len() - i,
        {
            let ghost before = out@;
            proof {
                reveal_strlit("/");
            }
            out.append("/");
            let t = self.0[i].as_str();
            out.append(t);
            assert(t@ == self@[i as int]);
            assert(out@ == before + seq!['/'] + self@[i as int]);
            assert(self@.subrange(0, i + 1).drop_last() =~= self@.subrange(0, i as int));
            assert(out@ =~= start + prefix_text(self@.subrange(0, i + 1)));
            i = i + 1;
        }
        assert(self@.subrange(0, i as int) =~= self@);
    }

    /// The prefix's text: `/` before each element; the empty prefix gives
    /// the empty text.
    pub fn render(&self) -> (r: String)
        ensures
            r@ == prefix_text(self@),
    {
        let mut out = String::new();
        self.render_into(&mut out);
        assert(out@ =~= prefix_text(self@));
        out
    }
}

/// Each segment that `segments` finds is non-empty.
proof fn lemma_segments_nonempty(s: Seq<char>, k: int)
    requires
        0 <= k < segments(s).len(),
    ensures
        segments(s)[k].len() > 0,
{
    lemma_closed_nonempty(s);
}

proof fn lemma_closed_nonempty(s: Seq<char>)
    ensures
        forall|k: int|
            0 <= k < closed_segments(s).len() ==> (#[trigger] closed_segments(s)[k]).len() > 0,
    decreases s.len(),
{
    if s.len() > 0 {
        let p = s.drop_last();
        lemma_closed_nonempty(p);
        if s.last() == '/' && trailing_segment(p).len() > 0 {
            assert(closed_segments(s) == closed_segments(p).push(trailing_segment(p)));
        } else {
            assert(closed_segments(s) == closed_segments(p));
        }
    }
}

/// Every character of a label from index `i` on is other than `/`.
proof fn lemma_label_no_slash(s: Seq<char>, i: int)
    requires
        0 <= i <= s.len(),
        label_stop(s, i) == s.len(),
    ensures
        forall|j: int| i <= j < s.len() ==> s[j] != '/',
    decreases s.len() - i,
{
    if i < s.len() {
        if is_label_char(s[i]) {
            lemma_label_no_slash(s, i + 1);
        } else {
            lemma_label_no_slash(s, i + 4);
        }
    }
}

/// Appending characters without a `/` extends the trailing segment.
proof fn lemma_trailing_append(p: Seq<char>, t: Seq<char>)
    requires
        forall|j: int| 0 <= j < t.len() ==> t[j] != '/',
    ensures
        trailing_segment(p + t) == trailing_segment(p) + t,
    decreases t.len(),
{
    if t.len() == 0 {
        assert(p + t =~= p);
        assert(trailing_segment(p) + t =~= trailing_segment(p));
    } else {
        lemma_trailing_append(p, t.drop_last());
        assert((p + t).drop_last() =~= p + t.drop_last());
        assert(trailing_segment(p) + t =~= (trailing_segment(p) + t.drop_last()).push(t.last()));
    }
}

/// Appending characters without a `/` ends no segment.
proof fn lemma_closed_append(p: Seq<char>, t: Seq<char>)
    requires
        forall|j: int| 0 <= j < t.len() ==> t[j] != '/',
    ensures
        closed_segments(p + t) == closed_segments(p),
    decreases t.len(),
{
    if t.len() == 0 {
        assert(p + t =~= p);
    } else {
        lemma_closed_append(p, t.drop_last());
        assert((p + t).drop_last() =~= p + t.drop_last());
    }
}

/// Splitting the text of a prefix gives back its elements: parsing what
/// `render` writes for elements `es` yields a prefix whose elements are
/// `es` again, so for each such prefix the text round-trips.
pub proof fn lemma_prefix_round_trip(es: Seq<Seq<char>>)
    requires
        all_elem_texts(es),
    ensures
        segments(prefix_text(es)) == es,
        all_elem_texts(segments(prefix_text(es))),
    decreases es.len(),
{
    if es.len() == 0 {
        assert(segments(prefix_text(es)) =~= es);
    } else {
        let init = es.drop_last();
        let t = es.last();
        assert(all_elem_texts(init)) by {
            assert forall|i: int| 0 <= i < init.len() implies is_elem_text(#[trigger] init[i]) by {
                assert(init[i] == es[i]);
            }
        }
        lemma_prefix_round_trip(init);
        let p = prefix_text(init);
        let q = p + seq!['/'];
        assert(is_elem_text(es[es.len() - 1]));
        assert forall|j: int| 0 <= j < t.len() implies t[j] != '/' by {
            if t != seq!['*'] {
                lemma_label_no_slash(t, 0);
            }
        }
        assert(q.drop_last() =~= p);
        assert(closed_segments(q) == segments(p));
        assert(trailing_segment(q).len() == 0);
        lemma_trailing_append(q, t);
        lemma_closed_append(q, t);
        assert(trailing_segment(q) + t =~= t);
        assert(prefix_text(es) == q + t);
        assert(segments(prefix_text(es)) =~= es);
    }
}

} // verus!
