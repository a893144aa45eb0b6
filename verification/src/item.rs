//! A single directive: the atomic unit of the emission stream.

use crate::formatter::Formatter;
use crate::lang::{rc_clone, Lang, LangBox};
use crate::render::render_step;
use std::rc::Rc;
use vstd::prelude::*;

verus! {

/// Immutable, cheaply shareable text carried by a directive.  Cloning
/// never duplicates the backing buffer: either the text is borrowed for
/// the program's whole life, or it is shared by reference count.
#[derive(Debug)]
pub enum ItemStr {
    /// Text borrowed for the program's whole life.
    Static(&'static str),
    /// Text shared by all holders.
    Shared(Rc<String>),
}

impl View for ItemStr {
    type V = Seq<char>;

    open spec fn view(&self) -> Seq<char> {
        match self {
            ItemStr::Static(s) => s@,
            ItemStr::Shared(r) => r@,
        }
    }
}

impl ItemStr {
    /// Copy borrowed text into a shared buffer.
    pub fn from_str(s: &str) -> (r: ItemStr)
        ensures
            r@ == s@,
    {
        ItemStr::Shared(Rc::new(s.to_owned()))
    }

    /// Take ownership of text and share it.
    pub fn from_string(s: String) -> (r: ItemStr)
        ensures
            r@ == s@,
    {
        ItemStr::Shared(Rc::new(s))
    }

    /// Borrow the text.
    pub fn as_str(&self) -> (r: &str)
        ensures
            r@ == self@,
    {
        match self {
            ItemStr::Static(s) => s,
            ItemStr::Shared(r) => (*r).as_str(),
        }
    }
}

impl Clone for ItemStr {
    /// The clone shares the same backing buffer.
    fn clone(&self) -> (r: Self)
        ensures
            r == *self,
    {
        match self {
            ItemStr::Static(s) => ItemStr::Static(s),
            ItemStr::Shared(r) => ItemStr::Shared(rc_clone(r)),
        }
    }
}

/// The mathematical value of a directive: text is a character sequence,
/// and a construct handle stands for the construct it points at.
pub enum DirView<L: Lang> {
    /// Raw text, emitted verbatim.
    Literal(Seq<char>),
    /// Text quoted by the language's quoting rule at render time.
    Quoted(Seq<char>),
    /// A language construct, rendered through its own contract.
    LangBox(L::Construct),
    /// A language construct that is walked for its side effect on the
    /// configuration but never emits text.
    Registered(L::Construct),
    /// A line break, only if the current line holds content.
    Push,
    /// An unconditional line break.
    Line,
    /// A single inline space; consecutive ones collapse, and one at the
    /// start of a line is suppressed.
    Spacing,
    /// One indentation step deeper.
    Indent,
    /// One indentation step back.
    Unindent,
}

/// A single directive in a directive sequence.
#[derive(Debug)]
pub enum Item<L: Lang> {
    /// Raw text, emitted verbatim.
    Literal(ItemStr),
    /// Text quoted with the language's quoting rule.
    Quoted(ItemStr),
    /// A language construct, rendered via its own contract.
    LangBox(LangBox<L>),
    /// A language construct that never emits text.
    Registered(LangBox<L>),
    /// A line break unless the current line is empty.
    Push,
    /// An unconditional line break.
    Line,
    /// A single inline space, collapsed with its neighbours.
    Spacing,
    /// Indent one step.
    Indent,
    /// Unindent one step.
    Unindent,
}

impl<L: Lang> View for Item<L> {
    type V = DirView<L>;

    open spec fn view(&self) -> DirView<L> {
        match self {
            Item::Literal(s) => DirView::Literal(s@),
            Item::Quoted(s) => DirView::Quoted(s@),
            Item::LangBox(b) => DirView::LangBox(b.construct()),
            Item::Registered(b) => DirView::Registered(b.construct()),
            Item::Push => DirView::Push,
            Item::Line => DirView::Line,
            Item::Spacing => DirView::Spacing,
            Item::Indent => DirView::Indent,
            Item::Unindent => DirView::Unindent,
        }
    }
}

impl<L: Lang> Item<L> {
    /// Render this one directive against the sink and the configuration:
    /// exactly one step of the rendering relation.
    pub fn format(&self, out: &mut Formatter, config: &mut L::Config, level: usize)
        requires
            (*self) is Indent ==> old(out)@.depth < usize::MAX,
            (*self) is Unindent ==> old(out)@.depth >= 1,
        ensures
            final(out)@ == render_step::<L>(self@, old(out)@, *old(config), level as int).0,
            *final(config) == render_step::<L>(self@, old(out)@, *old(config), level as int).1,
    {
        match self {
            Item::Registered(_) => {}
            Item::Literal(literal) => {
                out.write_str(literal.as_str());
            }
            Item::Quoted(literal) => {
                L::quote_string(out, literal.as_str());
            }
            Item::LangBox(lang) => {
                L::format_construct(lang.get(), out, config, level);
            }
            Item::Push => {
                out.new_line_unless_empty();
            }
            Item::Line => {
                out.new_line();
            }
            Item::Spacing => {
                out.space();
            }
            Item::Indent => {
                out.indent();
                out.new_line_unless_empty();
            }
            Item::Unindent => {
                out.unindent();
                out.new_line_unless_empty();
            }
        }
    }
}

impl<L: Lang> vstd::std_specs::convert::FromSpecImpl<ItemStr> for Item<L> {
    open spec fn obeys_from_spec() -> bool {
        true
    }

    open spec fn from_spec(value: ItemStr) -> Item<L> {
        Item::Literal(value)
    }
}

/// Shared text converts to a literal directive.
impl<L: Lang> From<ItemStr> for Item<L> {
    fn from(value: ItemStr) -> Self {
        Item::Literal(value)
    }
}

impl<L: Lang> vstd::std_specs::convert::FromSpecImpl<Rc<String>> for Item<L> {
    open spec fn obeys_from_spec() -> bool {
        true
    }

    open spec fn from_spec(value: Rc<String>) -> Item<L> {
        Item::Literal(ItemStr::Shared(value))
    }
}

/// Reference-counted text converts to a literal directive sharing the
/// buffer.
impl<L: Lang> From<Rc<String>> for Item<L> {
    fn from(value: Rc<String>) -> Self {
        Item::Literal(ItemStr::Shared(value))
    }
}

impl<L: Lang> Clone for Item<L> {
    /// The clone shares the original's text buffers and construct
    /// handles.
    fn clone(&self) -> (r: Self)
        ensures
            r == *self,
    {
        match self {
            Item::Literal(literal) => Item::Literal(literal.clone()),
            Item::Quoted(quoted) => Item::Quoted(quoted.clone()),
            Item::LangBox(lang) => Item::LangBox(lang.clone()),
            Item::Registered(lang) => Item::Registered(lang.clone()),
            Item::Push => Item::Push,
            Item::Line => Item::Line,
            Item::Spacing => Item::Spacing,
            Item::Indent => Item::Indent,
            Item::Unindent => Item::Unindent,
        }
    }
}

} // verus!
