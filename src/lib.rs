//! Delegation tables (dtabs): ordered rules that map a validated name
//! prefix to a name tree, built so that no invalid rule can be
//! represented, with their canonical text form.
use vstd::prelude::*;

pub mod nametree;
pub mod path;
pub mod weight;

pub use self::nametree::{NameTree, Weighted};
pub use self::path::{Elem, Label, LabelError, Path, PathError, Prefix};
pub use self::weight::W;

use self::nametree::tree_text;
use self::path::prefix::{all_elem_texts, first_bad_at, prefix_text, segments};
use self::path::label_error_is;

verus! {

/// One delegation rule: names under `prefix` are delegated to `dst`.
#[derive(Debug, PartialEq)]
pub struct Dentry {
    pub prefix: Prefix,
    pub dst: NameTree<String>,
}

/// The text of a rule: `prefix => dst;`.
pub open spec fn dentry_text(d: Dentry) -> Seq<char> {
    prefix_text(d.prefix@) + seq![' ', '=', '>', ' '] + tree_text(d.dst) + seq![';']
}

/// The text of a table of rules: each rule's text and a line break, in order.
pub open spec fn dtab_text(ds: Seq<Dentry>) -> Seq<char>
    decreases ds.len(),
{
    if ds.len() == 0 {
        Seq::empty()
    } else {
        dtab_text(ds.drop_last()) + dentry_text(ds.last()) + seq!['\n']
    }
}

impl Dentry {
    /// The rule that delegates `prefix` to `dst`.
    pub fn new(prefix: Prefix, dst: NameTree<String>) -> (r: Dentry)
        ensures
            r.prefix == prefix,
            r.dst == dst,
    {
        Dentry { prefix, dst }
    }

    /// The rule that delegates the prefix parsed from `src` to `dst`; the
    /// error is the one that parsing `src` reports.
    pub fn parse(src: &str, dst: NameTree<String>) -> (r: Result<Dentry, LabelError>)
        ensures
            r is Ok <==> all_elem_texts(segments(src@)),
            r matches Ok(d) ==> d.prefix@ == segments(src@) && d.dst == dst,
            r matches Err(e) ==> exists|k: int|
                first_bad_at(segments(src@), k) && label_error_is(segments(src@)[k], e),
    {
        match Prefix::try_from(src) {
            Ok(prefix) => Ok(Dentry { prefix, dst }),
            Err(e) => Err(e),
        }
    }

    /// Writes the rule's text after `out`.
    fn render_into(&self, out: &mut String)
        ensures
            final(out)@ == old(out)@ + dentry_text(*self),
    {
        self.prefix.render_into(out);
        proof {
            reveal_strlit(" => ");
            reveal_strlit(";");
        }
        out.append(" => ");
        self.dst.render_into(out);
        out.append(";");
        assert(final(out)@ =~= old(out)@ + dentry_text(*self));
    }

    /// The rule's text: `prefix => dst;`.
    pub fn render(&self) -> (r: String)
        ensures
            r@ == dentry_text(*self),
    {
        let mut out = String::new();
        self.render_into(&mut out);
        assert(out@ =~= dentry_text(*self));
        out
    }
}

/// A delegation table: rules in the order given.
#[derive(Debug, PartialEq)]
pub struct Dtab(pub Vec<Dentry>);

impl Dtab {
    /// The table of `entries`, in the order given, duplicates kept.
    pub fn new(entries: Vec<Dentry>) -> (r: Dtab)
        ensures
            r.0@ == entries@,
    {
        Dtab(entries)
    }

    /// The table's text: each rule's text followed by a line break; the
    /// empty table gives the empty text.
    pub fn render(&self) -> (r: String)
        ensures
            r@ == dtab_text(self.0@),
    {
        let mut out = String::new();
        let mut i: usize = 0;
        while i < self.0.len()
            invariant
                i <= self.0@.len(),
                out@ == dtab_text(self.0@.subrange(0, i as int)),
            decreases self.0@.len() - i,
        {
            self.0[i].render_into(&mut out);
            proof {
                reveal_strlit("\n");
            }
            out.append("\n");
            assert(self.0@.subrange(0, i + 1).drop_last() =~= self.0@.subrange(0, i as int));
            assert(out@ =~= dtab_text(self.0@.subrange(0, i + 1)));
            i = i + 1;
        }
        assert(self.0@.subrange(0, i as int) =~= self.0@);
        out
    }
}

/// A table of two rules renders them in the order given, one per line,
/// each ended by `;` and a line break.
pub proof fn lemma_dtab_two_in_order(a: Dentry, b: Dentry)
    ensures
        dtab_text(seq![a, b]) == dentry_text(a) + seq!['\n'] + dentry_text(b) + seq!['\n'],
{
    let ds = seq![a, b];
    assert(ds.drop_last() =~= seq![a]);
    assert(seq![a].drop_last() =~= Seq::<Dentry>::empty());
    assert(dtab_text(Seq::<Dentry>::empty()) == Seq::<char>::empty());
    assert(seq![a].last() == a);
    assert(dtab_text(seq![a]) == dtab_text(Seq::<Dentry>::empty()) + dentry_text(a) + seq!['\n']);
    assert(dtab_text(seq![a]) =~= dentry_text(a) + seq!['\n']);
    assert(dtab_text(ds) =~= dentry_text(a) + seq!['\n'] + dentry_text(b) + seq!['\n']);
}

} // verus!
