//! The normalization protocol: the conversion capability implemented by
//! every value type that can contribute directives.

use crate::item::{DirView, Item, ItemStr};
use crate::lang::{rc_clone, Lang};
use crate::tokens::Tokens;
use std::rc::Rc;
use vstd::prelude::*;

verus! {

/// A value type that can contribute directives to a sequence.
///
/// `dir_view` is the exact sequence of directives the value stands for;
/// `spec_is_empty` is the emptiness hint callers use to elide blank
/// output.  Every heterogeneous input to the engine passes through this
/// protocol exactly once before becoming directives.
pub trait FormatTokens<L: Lang>: Sized {
    /// The directives this value contributes, in order.
    spec fn dir_view(&self) -> Seq<DirView<L>>;

    /// Whether the value reports that it would contribute nothing worth
    /// emitting.
    spec fn spec_is_empty(&self) -> bool;

    /// Append this value's directives to `tokens`, in order, consuming
    /// the value.
    fn format_tokens(self, tokens: &mut Tokens<L>)
        ensures
            final(tokens)@ == old(tokens)@ + self.dir_view(),
    ;

    /// The emptiness hint: a cheap probe used to skip a value entirely.
    fn is_empty(&self) -> (r: bool)
        ensures
            r == self.spec_is_empty(),
    ;

    /// Convert the value into a directive sequence of its own.
    fn into_tokens(self) -> (r: Tokens<L>)
        ensures
            r@ == self.dir_view(),
    {
        let mut tokens = Tokens::new();
        self.format_tokens(&mut tokens);
        proof {
            assert(Seq::<DirView<L>>::empty() + self.dir_view() =~= self.dir_view());
        }
        tokens
    }
}

impl<L: Lang> Tokens<L> {
    /// Append anything satisfying the normalization protocol.
    pub fn append<T: FormatTokens<L>>(&mut self, value: T)
        ensures
            final(self)@ == old(self)@ + value.dir_view(),
    {
        value.format_tokens(self);
    }
}

/// A directive sequence contributes its own directives in order.
impl<L: Lang> FormatTokens<L> for Tokens<L> {
    open spec fn dir_view(&self) -> Seq<DirView<L>> {
        self@
    }

    /// Empty iff it holds no directives at all.
    open spec fn spec_is_empty(&self) -> bool {
        self@.len() == 0
    }

    fn format_tokens(self, tokens: &mut Tokens<L>) {
        tokens.extend(self);
    }

    fn is_empty(&self) -> (r: bool) {
        self.len() == 0
    }
}

/// A borrowed directive sequence contributes clones of its directives,
/// in order; the clones share the original's buffers and handles.
impl<'a, L: Lang> FormatTokens<L> for &'a Tokens<L> {
    open spec fn dir_view(&self) -> Seq<DirView<L>> {
        (**self)@
    }

    open spec fn spec_is_empty(&self) -> bool {
        (**self)@.len() == 0
    }

    fn format_tokens(self, tokens: &mut Tokens<L>) {
        tokens.extend(self.clone());
    }

    fn is_empty(&self) -> (r: bool) {
        self.len() == 0
    }
}

/// The directives of a whole sequence of directive sequences, flattened
/// in order.
pub open spec fn seqs_view<L: Lang>(ts: Seq<Tokens<L>>) -> Seq<DirView<L>>
    decreases ts.len(),
{
    if ts.len() == 0 {
        Seq::empty()
    } else {
        ts[0]@ + seqs_view(ts.drop_first())
    }
}

/// One more member at the end contributes its directives at the end.
pub proof fn lemma_seqs_view_snoc<L: Lang>(ts: Seq<Tokens<L>>, t: Tokens<L>)
    ensures
        seqs_view(ts.push(t)) == seqs_view(ts) + t@,
    decreases ts.len(),
{
    if ts.len() == 0 {
        assert(ts.push(t).drop_first() =~= Seq::<Tokens<L>>::empty());
        assert(ts.push(t)[0] == t);
        assert(t@ + seqs_view(Seq::<Tokens<L>>::empty()) =~= t@);
        assert(seqs_view(ts) + t@ =~= t@);
    } else {
        assert(ts.push(t).drop_first() =~= ts.drop_first().push(t));
        assert(ts.push(t)[0] == ts[0]);
        lemma_seqs_view_snoc(ts.drop_first(), t);
        assert(ts[0]@ + (seqs_view(ts.drop_first()) + t@) =~= (ts[0]@ + seqs_view(
            ts.drop_first(),
        )) + t@);
    }
}

/// A collection of directive sequences contributes each member's
/// directives in order, flattening.
impl<L: Lang> FormatTokens<L> for Vec<Tokens<L>> {
    open spec fn dir_view(&self) -> Seq<DirView<L>> {
        seqs_view(self@)
    }

    /// Empty iff every member reports empty.
    open spec fn spec_is_empty(&self) -> bool {
        forall|i: int| 0 <= i < self@.len() ==> self@[i]@.len() == 0
    }

    fn format_tokens(self, tokens: &mut Tokens<L>) {
        let n = self.len();
        proof {
            assert(seqs_view(self@.take(0)) =~= Seq::<DirView<L>>::empty());
            assert(old(tokens)@ + seqs_view(self@.take(0)) =~= old(tokens)@);
        }
        let mut i: usize = 0;
        while i < n
            invariant
                n == self@.len(),
                i <= n,
                tokens@ == old(tokens)@ + seqs_view(self@.take(i as int)),
            decreases n - i,
        {
            let t = self[i].clone();
            tokens.extend(t);
            proof {
                lemma_seqs_view_snoc(self@.take(i as int), self@[i as int]);
                assert(self@.take(i as int).push(self@[i as int]) =~= self@.take(i + 1));
                assert((old(tokens)@ + seqs_view(self@.take(i as int))) + self@[i as int]@ =~= old(
                    tokens,
                )@ + (seqs_view(self@.take(i as int)) + self@[i as int]@));
            }
            i = i + 1;
        }
        proof {
            assert(self@.take(n as int) =~= self@);
        }
    }

    fn is_empty(&self) -> (r: bool) {
        let n = self.len();
        let mut i: usize = 0;
        while i < n
            invariant
                n == self@.len(),
                i <= n,
                forall|j: int| 0 <= j < i ==> self@[j]@.len() == 0,
            decreases n - i,
        {
            if self[i].len() != 0 {
                return false;
            }
            i = i + 1;
        }
        true
    }
}

/// A single directive contributes itself.
impl<L: Lang> FormatTokens<L> for Item<L> {
    open spec fn dir_view(&self) -> Seq<DirView<L>> {
        seq![self@]
    }

    /// A lone directive always counts as worth emitting.
    open spec fn spec_is_empty(&self) -> bool {
        false
    }

    fn format_tokens(self, tokens: &mut Tokens<L>) {
        tokens.push_item(self);
    }

    fn is_empty(&self) -> (r: bool) {
        false
    }
}

/// Shared text contributes itself as a literal.
impl<L: Lang> FormatTokens<L> for ItemStr {
    open spec fn dir_view(&self) -> Seq<DirView<L>> {
        seq![DirView::Literal(self@)]
    }

    open spec fn spec_is_empty(&self) -> bool {
        false
    }

    fn format_tokens(self, tokens: &mut Tokens<L>) {
        tokens.push_item(Item::Literal(self));
    }

    fn is_empty(&self) -> (r: bool) {
        false
    }
}

/// Borrowed text contributes a literal carrying a copy of the text.
impl<'a, L: Lang> FormatTokens<L> for &'a str {
    open spec fn dir_view(&self) -> Seq<DirView<L>> {
        seq![DirView::Literal(self@)]
    }

    open spec fn spec_is_empty(&self) -> bool {
        false
    }

    fn format_tokens(self, tokens: &mut Tokens<L>) {
        tokens.push_item(Item::Literal(ItemStr::from_str(self)));
    }

    fn is_empty(&self) -> (r: bool) {
        false
    }
}

/// Owned text contributes itself as a literal.
impl<L: Lang> FormatTokens<L> for String {
    open spec fn dir_view(&self) -> Seq<DirView<L>> {
        seq![DirView::Literal(self@)]
    }

    open spec fn spec_is_empty(&self) -> bool {
        false
    }

    fn format_tokens(self, tokens: &mut Tokens<L>) {
        tokens.push_item(Item::Literal(ItemStr::from_string(self)));
    }

    fn is_empty(&self) -> (r: bool) {
        false
    }
}

/// A borrowed owned string contributes a literal carrying a copy.
impl<'a, L: Lang> FormatTokens<L> for &'a String {
    open spec fn dir_view(&self) -> Seq<DirView<L>> {
        seq![DirView::Literal((**self)@)]
    }

    open spec fn spec_is_empty(&self) -> bool {
        false
    }

    fn format_tokens(self, tokens: &mut Tokens<L>) {
        tokens.push_item(Item::Literal(ItemStr::from_str(self.as_str())));
    }

    fn is_empty(&self) -> (r: bool) {
        false
    }
}

/// Reference-counted text contributes itself as a literal, sharing the
/// buffer.
impl<L: Lang> FormatTokens<L> for Rc<String> {
    open spec fn dir_view(&self) -> Seq<DirView<L>> {
        seq![DirView::Literal(self@)]
    }

    open spec fn spec_is_empty(&self) -> bool {
        false
    }

    fn format_tokens(self, tokens: &mut Tokens<L>) {
        tokens.push_item(Item::Literal(ItemStr::Shared(self)));
    }

    fn is_empty(&self) -> (r: bool) {
        false
    }
}

/// A borrowed reference-counted string contributes a literal sharing
/// the same buffer.
impl<'a, L: Lang> FormatTokens<L> for &'a Rc<String> {
    open spec fn dir_view(&self) -> Seq<DirView<L>> {
        seq![DirView::Literal((**self)@)]
    }

    open spec fn spec_is_empty(&self) -> bool {
        false
    }

    fn format_tokens(self, tokens: &mut Tokens<L>) {
        tokens.push_item(Item::Literal(ItemStr::Shared(rc_clone(self))));
    }

    fn is_empty(&self) -> (r: bool) {
        false
    }
}

/// An optional value contributes nothing when absent, and delegates to
/// the inner value when present: optional content without a separate
/// branch construct.
impl<L: Lang, T: FormatTokens<L>> FormatTokens<L> for Option<T> {
    open spec fn dir_view(&self) -> Seq<DirView<L>> {
        match self {
            Option::Some(inner) => inner.dir_view(),
            Option::None => Seq::empty(),
        }
    }

    /// An absent value is empty; a present one reports its own hint.
    open spec fn spec_is_empty(&self) -> bool {
        match self {
            Option::Some(inner) => inner.spec_is_empty(),
            Option::None => true,
        }
    }

    fn format_tokens(self, tokens: &mut Tokens<L>) {
        match self {
            Option::Some(inner) => {
                inner.format_tokens(tokens);
            }
            Option::None => {
                proof {
                    assert(old(tokens)@ + Seq::<DirView<L>>::empty() =~= old(tokens)@);
                }
            }
        }
    }

    fn is_empty(&self) -> (r: bool) {
        match self {
            Option::Some(inner) => inner.is_empty(),
            Option::None => true,
        }
    }
}

} // verus!
