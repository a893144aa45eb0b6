//! Individual Java modifier keywords, and the canonical-order join of
//! a modifier collection.

use crate::format_tokens::FormatTokens;
use crate::item::DirView;
use crate::java::Java;
use crate::tokens::Tokens;
use vstd::prelude::*;

verus! {

/// A Java modifier keyword.
#[derive(Debug, PartialEq, Eq, PartialOrd, Ord, Clone, Copy, Hash, Structural)]
pub enum Modifier {
    /// `default`
    Default,
    /// `public`
    Public,
    /// `protected`
    Protected,
    /// `private`
    Private,
    /// `abstract`
    Abstract,
    /// `static`
    Static,
    /// `final`
    Final,
    /// `native`
    Native,
}

impl Modifier {
    /// The modifier's position in the declared order, the canonical
    /// sort key of a modifier collection.
    pub open spec fn rank(self) -> int {
        match self {
            Modifier::Default => 0,
            Modifier::Public => 1,
            Modifier::Protected => 2,
            Modifier::Private => 3,
            Modifier::Abstract => 4,
            Modifier::Static => 5,
            Modifier::Final => 6,
            Modifier::Native => 7,
        }
    }

    /// The keyword's characters.
    pub open spec fn spec_name(self) -> Seq<char> {
        match self {
            Modifier::Default => "default"@,
            Modifier::Public => "public"@,
            Modifier::Protected => "protected"@,
            Modifier::Private => "private"@,
            Modifier::Abstract => "abstract"@,
            Modifier::Static => "static"@,
            Modifier::Final => "final"@,
            Modifier::Native => "native"@,
        }
    }

    /// Get the name of the modifier.
    pub fn name(&self) -> (r: &'static str)
        ensures
            r@ == self.spec_name(),
    {
        match self {
            Modifier::Default => "default",
            Modifier::Public => "public",
            Modifier::Protected => "protected",
            Modifier::Private => "private",
            Modifier::Abstract => "abstract",
            Modifier::Static => "static",
            Modifier::Final => "final",
            Modifier::Native => "native",
        }
    }
}

/// The modifier whose canonical position is `k`.
pub open spec fn from_rank(k: int) -> Modifier {
    if k == 0 {
        Modifier::Default
    } else if k == 1 {
        Modifier::Public
    } else if k == 2 {
        Modifier::Protected
    } else if k == 3 {
        Modifier::Private
    } else if k == 4 {
        Modifier::Abstract
    } else if k == 5 {
        Modifier::Static
    } else if k == 6 {
        Modifier::Final
    } else {
        Modifier::Native
    }
}

/// The canonical form of a collection, restricted to the first `k`
/// positions of the declared order: each of those modifiers once, in
/// that order, if the collection holds it.
pub open spec fn canonical_upto(ms: Seq<Modifier>, k: int) -> Seq<Modifier>
    decreases k,
{
    if k <= 0 {
        Seq::empty()
    } else {
        canonical_upto(ms, k - 1) + (if ms.contains(from_rank(k - 1)) {
            seq![from_rank(k - 1)]
        } else {
            Seq::empty()
        })
    }
}

/// The canonical form of a modifier collection: each distinct modifier
/// it holds exactly once, in the declared order.
pub open spec fn canonical(ms: Seq<Modifier>) -> Seq<Modifier> {
    canonical_upto(ms, 8)
}

/// The directives of a joined word list after its first word: each
/// word preceded by a single space.
pub open spec fn rest_joined(ms: Seq<Modifier>) -> Seq<DirView<Java>>
    decreases ms.len(),
{
    if ms.len() == 0 {
        Seq::empty()
    } else {
        seq![DirView::<Java>::Spacing, DirView::<Java>::Literal(ms[0].spec_name())] + rest_joined(
            ms.drop_first(),
        )
    }
}

/// The directives of a joined word list: the first word, then each
/// further word preceded by a single space.
pub open spec fn joined(ms: Seq<Modifier>) -> Seq<DirView<Java>> {
    if ms.len() == 0 {
        Seq::empty()
    } else {
        seq![DirView::<Java>::Literal(ms[0].spec_name())] + rest_joined(ms.drop_first())
    }
}

/// One more word joins with one space before it.
proof fn lemma_rest_joined_snoc(ms: Seq<Modifier>, m: Modifier)
    ensures
        rest_joined(ms.push(m)) == rest_joined(ms) + seq![
            DirView::<Java>::Spacing,
            DirView::<Java>::Literal(m.spec_name()),
        ],
    decreases ms.len(),
{
    let tail = seq![DirView::<Java>::Spacing, DirView::<Java>::Literal(m.spec_name())];
    if ms.len() == 0 {
        assert(ms.push(m).drop_first() =~= Seq::<Modifier>::empty());
        assert(ms.push(m)[0] == m);
        assert(rest_joined(ms.push(m)) == tail + rest_joined(Seq::<Modifier>::empty()));
        assert(tail + Seq::<DirView<Java>>::empty() =~= tail);
        assert(Seq::<DirView<Java>>::empty() + tail =~= tail);
    } else {
        assert(ms.push(m).drop_first() =~= ms.drop_first().push(m));
        assert(ms.push(m)[0] == ms[0]);
        lemma_rest_joined_snoc(ms.drop_first(), m);
        let head = seq![DirView::<Java>::Spacing, DirView::<Java>::Literal(ms[0].spec_name())];
        assert(head + (rest_joined(ms.drop_first()) + tail) =~= (head + rest_joined(
            ms.drop_first(),
        )) + tail);
    }
}

/// Joining one more word onto a non-empty list appends a space and the
/// word.
proof fn lemma_joined_snoc(ms: Seq<Modifier>, m: Modifier)
    requires
        ms.len() >= 1,
    ensures
        joined(ms.push(m)) == joined(ms) + seq![
            DirView::<Java>::Spacing,
            DirView::<Java>::Literal(m.spec_name()),
        ],
{
    let tail = seq![DirView::<Java>::Spacing, DirView::<Java>::Literal(m.spec_name())];
    assert(ms.push(m)[0] == ms[0]);
    assert(ms.push(m).drop_first() =~= ms.drop_first().push(m));
    lemma_rest_joined_snoc(ms.drop_first(), m);
    let head = seq![DirView::<Java>::Literal(ms[0].spec_name())];
    assert(head + (rest_joined(ms.drop_first()) + tail) =~= (head + rest_joined(ms.drop_first()))
        + tail);
}

/// Whether the collection holds the given modifier.
fn contains_modifier(ms: &Vec<Modifier>, m: Modifier) -> (r: bool)
    ensures
        r == ms@.contains(m),
{
    let n = ms.len();
    let mut i: usize = 0;
    while i < n
        invariant
            n == ms@.len(),
            i <= n,
            forall|j: int| 0 <= j < i ==> ms@[j] != m,
        decreases n - i,
    {
        if ms[i] == m {
            proof {
                assert(ms@[i as int] == m);
            }
            return true;
        }
        i = i + 1;
    }
    false
}

/// The canonical form of the collection as a vector: each distinct
/// modifier once, in the declared order.
fn canonical_vec(ms: &Vec<Modifier>) -> (r: Vec<Modifier>)
    ensures
        r@ == canonical(ms@),
{
    let mut r: Vec<Modifier> = Vec::new();
    let mut k: usize = 0;
    while k < 8
        invariant
            k <= 8,
            r@ == canonical_upto(ms@, k as int),
        decreases 8 - k,
    {
        let m = match k {
            0 => Modifier::Default,
            1 => Modifier::Public,
            2 => Modifier::Protected,
            3 => Modifier::Private,
            4 => Modifier::Abstract,
            5 => Modifier::Static,
            6 => Modifier::Final,
            _ => Modifier::Native,
        };
        proof {
            assert(m == from_rank(k as int));
        }
        if contains_modifier(ms, m) {
            r.push(m);
            proof {
                assert(r@ =~= canonical_upto(ms@, k as int) + seq![from_rank(k as int)]);
            }
        } else {
            proof {
                assert(r@ =~= canonical_upto(ms@, k as int) + Seq::<Modifier>::empty());
            }
        }
        k = k + 1;
    }
    r
}

/// A single modifier contributes its keyword as a literal.
impl FormatTokens<Java> for Modifier {
    open spec fn dir_view(&self) -> Seq<DirView<Java>> {
        seq![DirView::<Java>::Literal(self.spec_name())]
    }

    open spec fn spec_is_empty(&self) -> bool {
        false
    }

    fn format_tokens(self, tokens: &mut Tokens<Java>) {
        tokens.append(self.name());
    }

    fn is_empty(&self) -> (r: bool) {
        false
    }
}

/// A modifier collection contributes its canonical form — each
/// distinct modifier once, in the declared order — joined with single
/// spaces.
impl FormatTokens<Java> for Vec<Modifier> {
    open spec fn dir_view(&self) -> Seq<DirView<Java>> {
        joined(canonical(self@))
    }

    /// A modifier collection always counts as worth emitting, like any
    /// other single value.
    open spec fn spec_is_empty(&self) -> bool {
        false
    }

    fn format_tokens(self, tokens: &mut Tokens<Java>) {
        let sorted = canonical_vec(&self);
        let ghost c = canonical(self@);
        let n = sorted.len();
        if n == 0 {
            proof {
                assert(old(tokens)@ + joined(c) =~= old(tokens)@);
            }
            return;
        }
        tokens.append(sorted[0].name());
        proof {
            assert(c.take(1)[0] == c[0]);
            assert(c.take(1).drop_first() =~= Seq::<Modifier>::empty());
            assert(seq![DirView::<Java>::Literal(c[0].spec_name())] + rest_joined(
                Seq::<Modifier>::empty(),
            ) =~= seq![DirView::<Java>::Literal(c[0].spec_name())]);
            assert(joined(c.take(1)) =~= seq![DirView::<Java>::Literal(c[0].spec_name())]);
        }
        let mut i: usize = 1;
        while i < n
            invariant
                n == sorted@.len(),
                sorted@ == c,
                1 <= i <= n,
                tokens@ == old(tokens)@ + joined(c.take(i as int)),
            decreases n - i,
        {
            tokens.spacing();
            tokens.append(sorted[i].name());
            proof {
                lemma_joined_snoc(c.take(i as int), c[i as int]);
                assert(c.take(i as int).push(c[i as int]) =~= c.take(i + 1));
                assert((old(tokens)@ + joined(c.take(i as int))) + seq![
                    DirView::<Java>::Spacing,
                    DirView::<Java>::Literal(c[i as int].spec_name()),
                ] =~= old(tokens)@ + joined(c.take(i + 1)));
            }
            i = i + 1;
        }
        proof {
            assert(c.take(n as int) =~= c);
        }
    }

    fn is_empty(&self) -> (r: bool) {
        false
    }
}

} // verus!
