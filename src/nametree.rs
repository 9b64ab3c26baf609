//! Name trees: alternation and weighted union over leaves, with the three
//! sentinel outcomes, and their canonical text form.
use vstd::prelude::*;

use crate::weight::{weight_text, W};

verus! {

/// A composite name: leaves combined by ordered alternation and weighted
/// union, or one of the sentinels negation, empty and failure.
#[derive(Debug, PartialEq)]
pub enum NameTree<T> {
    Leaf(T),
    Union(Weighted<T>, Weighted<T>),
    Alt(Box<NameTree<T>>, Box<NameTree<T>>),
    Neg,
    Empty,
    Fail,
}

/// A tree with the weight of its branch in a union.
#[derive(Debug, PartialEq)]
pub struct Weighted<T> {
    pub weight: W,
    pub tree: Box<NameTree<T>>,
}

/// `t` is what the text `s` stands for as a tree: `~`, `!` and `$` are the
/// sentinels negation, failure and empty; any other text is a leaf holding
/// exactly that text.
pub open spec fn is_text_tree(s: Seq<char>, t: NameTree<String>) -> bool {
    if s == seq!['~'] {
        t == NameTree::<String>::Neg
    } else if s == seq!['!'] {
        t == NameTree::<String>::Fail
    } else if s == seq!['$'] {
        t == NameTree::<String>::Empty
    } else {
        match t {
            NameTree::Leaf(v) => v@ == s,
            _ => false,
        }
    }
}

/// The canonical text of a tree. Alternation is written `l | r`, union
/// `wl * l & wr * r`; no parentheses are ever written.
pub open spec fn tree_text(t: NameTree<String>) -> Seq<char>
    decreases t,
{
    match t {
        NameTree::Leaf(v) => v@,
        NameTree::Union(l, r) => weight_text(l.weight) + seq![' ', '*', ' '] + tree_text(*l.tree)
            + seq![' ', '&', ' '] + weight_text(r.weight) + seq![' ', '*', ' '] + tree_text(
            *r.tree,
        ),
        NameTree::Alt(l, r) => tree_text(*l) + seq![' ', '|', ' '] + tree_text(*r),
        NameTree::Neg => seq!['~'],
        NameTree::Empty => seq!['$'],
        NameTree::Fail => seq!['!'],
    }
}

/// The canonical text of a weighted tree: `w * t`.
pub open spec fn weighted_text(w: Weighted<String>) -> Seq<char> {
    weight_text(w.weight) + seq![' ', '*', ' '] + tree_text(*w.tree)
}

impl<T> NameTree<T> {
    /// A leaf holding `value`.
    pub fn leaf(value: T) -> (r: NameTree<T>)
        ensures
            r == NameTree::Leaf(value),
    {
        NameTree::Leaf(value)
    }

    /// This tree with the weight `weight`.
    pub fn weighted(self, weight: W) -> (r: Weighted<T>)
        ensures
            r == (Weighted { weight, tree: Box::new(self) }),
    {
        Weighted { weight, tree: Box::new(self) }
    }

    /// Ordered alternation: this tree, then `rhs`.
    pub fn alt(self, rhs: NameTree<T>) -> (r: NameTree<T>)
        ensures
            r == NameTree::Alt(Box::new(self), Box::new(rhs)),
    {
        NameTree::Alt(Box::new(self), Box::new(rhs))
    }

    /// Union of this tree and `rhs`, each with the default weight `0.5`.
    pub fn union(self, rhs: NameTree<T>) -> (r: NameTree<T>)
        ensures
            r == NameTree::Union(
                Weighted { weight: W::default_weight(), tree: Box::new(self) },
                Weighted { weight: W::default_weight(), tree: Box::new(rhs) },
            ),
    {
        NameTree::Union(self.weighted(W::default_weight()), rhs.weighted(W::default_weight()))
    }
}

impl<T> Weighted<T> {
    /// Union of two weighted trees, each keeping its weight.
    pub fn union(self, rhs: Weighted<T>) -> (r: NameTree<T>)
        ensures
            r == NameTree::Union(self, rhs),
    {
        NameTree::Union(self, rhs)
    }
}

impl NameTree<String> {
    /// The tree that the text `s` stands for: a sentinel for `~`, `!` or
    /// `$`, otherwise a leaf holding `s`.
    pub fn from_text(s: &str) -> (r: NameTree<String>)
        ensures
            is_text_tree(s@, r),
    {
        let cs = crate::path::chars_of(s);
        if cs.len() == 1 && cs[0] == '~' {
            assert(s@ =~= seq!['~']);
            NameTree::Neg
        } else if cs.len() == 1 && cs[0] == '!' {
            assert(s@ =~= seq!['!']);
            NameTree::Fail
        } else if cs.len() == 1 && cs[0] == '$' {
            assert(s@ =~= seq!['$']);
            NameTree::Empty
        } else {
            assert(s@ != seq!['~'] && s@ != seq!['!'] && s@ != seq!['$']) by {
                if s@.len() == 1 {
                    assert(s@[0] == cs@[0]);
                }
            }
            NameTree::Leaf(String::from_str(s))
        }
    }

    /// Ordered alternation: this tree, then the tree of the text `rhs`.
    pub fn alt_text(self, rhs: &str) -> (r: NameTree<String>)
        ensures
            r matches NameTree::Alt(l, rr) && *l == self && is_text_tree(rhs@, *rr),
    {
        self.alt(NameTree::from_text(rhs))
    }

    /// Union of this tree and the tree of the text `rhs`, each with the
    /// default weight `0.5`.
    pub fn union_text(self, rhs: &str) -> (r: NameTree<String>)
        ensures
            r matches NameTree::Union(wl, wr) && wl.weight == W::default_weight() && *wl.tree
                == self && wr.weight == W::default_weight() && is_text_tree(rhs@, *wr.tree),
    {
        self.union(NameTree::from_text(rhs))
    }

    /// Writes the tree's text after `out`.
    pub(crate) fn render_into(&self, out: &mut String)
        ensures
            final(out)@ == old(out)@ + tree_text(*self),
        decreases self,
    {
        match self {
            NameTree::Leaf(v) => {
                out.append(v.as_str());
            },
            NameTree::Union(l, r) => {
                l.render_into(out);
                proof {
                    reveal_strlit(" & ");
                }
                out.append(" & ");
                r.render_into(out);
            },
            NameTree::Alt(l, r) => {
                l.render_into(out);
                proof {
                    reveal_strlit(" | ");
                }
                out.append(" | ");
                r.render_into(out);
            },
            NameTree::Neg => {
                proof {
                    reveal_strlit("~");
                }
                out.append("~");
            },
            NameTree::Empty => {
                proof {
                    reveal_strlit("$");
                }
                out.append("$");
            },
            NameTree::Fail => {
                proof {
                    reveal_strlit("!");
                }
                out.append("!");
            },
        }
        assert(final(out)@ =~= old(out)@ + tree_text(*self));
    }

    /// The tree's canonical text.
    pub fn render(&self) -> (r: String)
        ensures
            r@ == tree_text(*self),
    {
        let mut out = String::new();
        self.render_into(&mut out);
        assert(out@ =~= tree_text(*self));
        out
    }
}

impl Weighted<String> {
    /// Writes the weighted tree's text after `out`.
    pub(crate) fn render_into(&self, out: &mut String)
        ensures
            final(out)@ == old(out)@ + weighted_text(*self),
        decreases self,
    {
        self.weight.render_into(out);
        proof {
            reveal_strlit(" * ");
        }
        out.append(" * ");
        self.tree.render_into(out);
        assert(final(out)@ =~= old(out)@ + weighted_text(*self));
    }

    /// The weighted tree's canonical text.
    pub fn render(&self) -> (r: String)
        ensures
            r@ == weighted_text(*self),
    {
        let mut out = String::new();
        self.render_into(&mut out);
        assert(out@ =~= weighted_text(*self));
        out
    }
}

impl W {
    /// The tree of the text `rhs` with this weight.
    pub fn mul(self, rhs: &str) -> (r: Weighted<String>)
        ensures
            r.weight == self && is_text_tree(rhs@, *r.tree),
    {
        NameTree::from_text(rhs).weighted(self)
    }
}

/// A text stands for a tree whose text is that text again: a sentinel
/// renders as its own symbol, a leaf as the text it holds.
pub proof fn lemma_text_tree_renders(s: Seq<char>, t: NameTree<String>)
    requires
        is_text_tree(s, t),
    ensures
        tree_text(t) == s,
{
}

/// A left-nested chain of alternations renders flat, its branches
/// separated by ` | ` and no parentheses: `alt(alt(a, b), c)` renders as
/// `a | b | c` for the texts `a`, `b`, `c` of its leaves.
pub proof fn lemma_alt_chain_text(
    a: Seq<char>,
    b: Seq<char>,
    c: Seq<char>,
    ta: NameTree<String>,
    tb: NameTree<String>,
    tc: NameTree<String>,
)
    requires
        is_text_tree(a, ta),
        is_text_tree(b, tb),
        is_text_tree(c, tc),
    ensures
        tree_text(NameTree::Alt(Box::new(NameTree::Alt(Box::new(ta), Box::new(tb))), Box::new(tc)))
            == a + seq![' ', '|', ' '] + b + seq![' ', '|', ' '] + c,
{
    lemma_text_tree_renders(a, ta);
    lemma_text_tree_renders(b, tb);
    lemma_text_tree_renders(c, tc);
    let inner = NameTree::Alt(Box::new(ta), Box::new(tb));
    assert(tree_text(inner) == a + seq![' ', '|', ' '] + b);
    assert(tree_text(NameTree::Alt(Box::new(NameTree::Alt(Box::new(ta), Box::new(tb))), Box::new(tc)))
        =~= a + seq![' ', '|', ' '] + b + seq![' ', '|', ' '] + c);
}

/// The default weight renders as `0.5`.
pub proof fn lemma_default_weight_text()
    ensures
        weight_text(W::default_weight()) == seq!['0', '.', '5'],
{
    reveal_with_fuel(crate::weight::low_digits, 2);
    reveal_with_fuel(crate::weight::high_part, 2);
    reveal_with_fuel(crate::weight::strip_trailing_zeros, 2);
    assert(crate::weight::low_digits(5, 1) =~= seq!['5']);
    assert(crate::weight::nat_text(0) =~= seq!['0']);
    assert(weight_text(W::default_weight()) =~= seq!['0', '.', '5']);
}

/// A union made without weights gives each side the weight `0.5`:
/// `union(a, b)` renders as `0.5 * a & 0.5 * b`.
pub proof fn lemma_default_union_text(a: NameTree<String>, b: NameTree<String>)
    ensures
        tree_text(
            NameTree::Union(
                Weighted { weight: W::default_weight(), tree: Box::new(a) },
                Weighted { weight: W::default_weight(), tree: Box::new(b) },
            ),
        ) == seq!['0', '.', '5', ' ', '*', ' '] + tree_text(a) + seq![' ', '&', ' ', '0', '.', '5', ' ', '*', ' ']
            + tree_text(b),
{
    lemma_default_weight_text();
    assert(tree_text(
        NameTree::Union(
            Weighted { weight: W::default_weight(), tree: Box::new(a) },
            Weighted { weight: W::default_weight(), tree: Box::new(b) },
        ),
    ) =~= seq!['0', '.', '5', ' ', '*', ' '] + tree_text(a) + seq![' ', '&', ' ', '0', '.', '5', ' ', '*', ' ']
        + tree_text(b));
}

} // verus!
