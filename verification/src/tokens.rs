//! An ordered, growable sequence of directives, and the single forward
//! pass that renders it to text.

use crate::formatter::{FmtView, Formatter, RenderError};
use crate::item::{DirView, Item};
use crate::lang::Lang;
use crate::render::{depth_ok, render_seq, render_step};
use vstd::prelude::*;

verus! {

/// An ordered sequence of directives.  Insertion order is the emission
/// order; building only ever appends.
pub struct Tokens<L: Lang> {
    elements: Vec<Item<L>>,
}

impl<L: Lang> View for Tokens<L> {
    type V = Seq<DirView<L>>;

    closed spec fn view(&self) -> Seq<DirView<L>> {
        self.elements@.map_values(|e: Item<L>| e@)
    }
}

impl<L: Lang> Tokens<L> {
    /// An empty directive sequence.
    pub fn new() -> (r: Tokens<L>)
        ensures
            r@ == Seq::<DirView<L>>::empty(),
    {
        let r = Tokens { elements: Vec::new() };
        proof {
            assert(r@ =~= Seq::<DirView<L>>::empty());
        }
        r
    }

    /// The number of directives held.
    pub fn len(&self) -> (r: usize)
        ensures
            r == self@.len(),
    {
        self.elements.len()
    }

    /// Borrow the directive at `i`.
    pub fn get(&self, i: usize) -> (r: &Item<L>)
        requires
            i < self@.len(),
        ensures
            r@ == self@[i as int],
    {
        &self.elements[i]
    }

    /// Append one directive.
    pub fn push_item(&mut self, item: Item<L>)
        ensures
            final(self)@ == old(self)@ + seq![item@],
    {
        self.elements.push(item);
        proof {
            assert(self@ =~= old(self)@ + seq![item@]);
        }
    }

    /// Append a conditional line break.
    pub fn push(&mut self)
        ensures
            final(self)@ == old(self)@ + seq![DirView::<L>::Push],
    {
        self.push_item(Item::Push);
    }

    /// Append an unconditional line break.
    pub fn line(&mut self)
        ensures
            final(self)@ == old(self)@ + seq![DirView::<L>::Line],
    {
        self.push_item(Item::Line);
    }

    /// Append an inline space.
    pub fn spacing(&mut self)
        ensures
            final(self)@ == old(self)@ + seq![DirView::<L>::Spacing],
    {
        self.push_item(Item::Spacing);
    }

    /// Append an indentation step.
    pub fn indent(&mut self)
        ensures
            final(self)@ == old(self)@ + seq![DirView::<L>::Indent],
    {
        self.push_item(Item::Indent);
    }

    /// Append an unindentation step.
    pub fn unindent(&mut self)
        ensures
            final(self)@ == old(self)@ + seq![DirView::<L>::Unindent],
    {
        self.push_item(Item::Unindent);
    }

    /// Append another sequence's directives in order.
    pub fn extend(&mut self, other: Tokens<L>)
        ensures
            final(self)@ == old(self)@ + other@,
    {
        let mut o = other;
        self.elements.append(&mut o.elements);
        proof {
            assert(self@ =~= old(self)@ + other@);
        }
    }

    /// Walk the sequence once, left to right, rendering each directive
    /// against the sink and the configuration, each at the indentation
    /// depth current when it is reached: exactly the rendering relation
    /// applied to the whole sequence.
    pub fn format(&self, out: &mut Formatter, config: &mut L::Config)
        requires
            depth_ok(self@, old(out)@.depth),
        ensures
            final(out)@ == render_seq::<L>(self@, old(out)@, *old(config)).0,
            *final(config) == render_seq::<L>(self@, old(out)@, *old(config)).1,
    {
        let ghost f0 = out@;
        let ghost c0 = *config;
        let n = self.elements.len();
        proof {
            assert(self@.take(0) =~= Seq::<DirView<L>>::empty());
            assert(self@.skip(0) =~= self@);
        }
        let mut i: usize = 0;
        while i < n
            invariant
                n == self@.len(),
                n == self.elements.len(),
                i <= n,
                out@ == render_seq::<L>(self@.take(i as int), f0, c0).0,
                *config == render_seq::<L>(self@.take(i as int), f0, c0).1,
                depth_ok(self@.skip(i as int), out@.depth),
            decreases n - i,
        {
            proof {
                assert(self@.skip(i as int)[0] == self@[i as int]);
            }
            let item = self.get(i);
            let depth = out.depth();
            item.format(out, config, depth);
            proof {
                crate::render::lemma_render_seq_snoc::<L>(
                    self@.take(i as int),
                    self@[i as int],
                    f0,
                    c0,
                );
                assert(self@.take(i as int).push(self@[i as int]) =~= self@.take(i + 1));
                assert(self@.skip(i as int).drop_first() =~= self@.skip(i + 1));
            }
            i = i + 1;
        }
        proof {
            assert(self@.take(n as int) =~= self@);
        }
    }

    /// Render the whole sequence from an empty sink at depth zero, with
    /// a fresh configuration, and hand back the text.  The sink used
    /// accumulates into memory, so the render always succeeds.
    pub fn to_string(&self) -> (r: Result<String, RenderError>)
        requires
            depth_ok(self@, 0),
        ensures
            (r matches Ok(s) && s@ == render_seq::<L>(
                self@,
                FmtView::init(0),
                L::spec_new_config(),
            ).0.out),
    {
        let mut out = Formatter::new(0);
        let mut config = L::new_config();
        self.format(&mut out, &mut config);
        Ok(out.into_output())
    }
}

impl<L: Lang> Clone for Tokens<L> {
    /// The clone holds the same directives in the same order, sharing
    /// their text buffers and construct handles.
    fn clone(&self) -> (r: Self)
        ensures
            r@ == self@,
    {
        let mut elements: Vec<Item<L>> = Vec::new();
        let n = self.elements.len();
        let mut i: usize = 0;
        while i < n
            invariant
                n == self.elements.len(),
                i <= n,
                elements@ == self.elements@.take(i as int),
            decreases n - i,
        {
            elements.push(self.elements[i].clone());
            proof {
                assert(elements@ =~= self.elements@.take(i + 1));
            }
            i = i + 1;
        }
        let r = Tokens { elements };
        proof {
            assert(self.elements@.take(n as int) =~= self.elements@);
            assert(r@ =~= self@);
        }
        r
    }
}

} // verus!
