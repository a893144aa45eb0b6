//! The per-target-language capability and the shared construct handle.

use crate::formatter::Formatter;
use std::rc::Rc;
use vstd::prelude::*;

verus! {

/// Relies on `Rc::clone`: the clone is another pointer to the same
/// allocation as the original, so it carries the same value.
#[verifier::external_body]
pub(crate) fn rc_clone<T>(v: &Rc<T>) -> (r: Rc<T>)
    ensures
        r == *v,
{
    Rc::clone(v)
}

/// The capability a target-language backend provides: a per-render
/// configuration type, a total string-quoting rule, and the rendering
/// contract of the language's constructs.
///
/// A construct writes its text through the sink's verbatim-write
/// primitive; what it writes, and how it changes the configuration, are
/// pure functions of the construct, the configuration, and the nesting
/// level, stated by the two `construct_` specification functions.
pub trait Lang: Sized {
    /// The mutable configuration threaded through one render.
    type Config;

    /// The language's renderable construct type.
    type Construct: core::fmt::Debug;

    /// What the quoting rule produces for the given text.
    spec fn spec_quote(text: Seq<char>) -> Seq<char>;

    /// The text a construct writes, given the configuration and the
    /// nesting level it is rendered at.
    spec fn construct_text(c: Self::Construct, config: Self::Config, level: int) -> Seq<char>;

    /// The configuration a construct leaves behind (for example with a
    /// discovered import recorded).
    spec fn construct_config(c: Self::Construct, config: Self::Config, level: int) -> Self::Config;

    /// The configuration a fresh top-level render starts from.
    spec fn spec_new_config() -> Self::Config;

    /// Create the configuration for one top-level render.
    fn new_config() -> (c: Self::Config)
        ensures
            c == Self::spec_new_config(),
    ;

    /// Write the language's quoted, escaped form of `input` to the sink.
    /// The rule is total: every input has a quoted form.
    fn quote_string(out: &mut Formatter, input: &str)
        ensures
            final(out)@ == old(out)@.write(Self::spec_quote(input@)),
    ;

    /// Render one construct: write its text and update the
    /// configuration, as the two `construct_` specifications state.
    fn format_construct(
        c: &Self::Construct,
        out: &mut Formatter,
        config: &mut Self::Config,
        level: usize,
    )
        ensures
            final(out)@ == old(out)@.write(Self::construct_text(*c, *old(config), level as int)),
            *final(config) == Self::construct_config(*c, *old(config), level as int),
    ;
}

/// A shareable handle to a language construct.  Cloning the handle
/// shares the underlying construct instead of duplicating it, so the
/// same construct can stand in many directive sequences.
#[derive(Debug)]
pub struct LangBox<L: Lang> {
    inner: Rc<L::Construct>,
}

impl<L: Lang> LangBox<L> {
    /// The construct the handle points at.
    pub closed spec fn construct(&self) -> L::Construct {
        *self.inner
    }

    /// Wrap a construct in a shareable handle.
    pub fn new(c: L::Construct) -> (r: LangBox<L>)
        ensures
            r.construct() == c,
    {
        LangBox { inner: Rc::new(c) }
    }

    /// Borrow the construct.
    pub fn get(&self) -> (r: &L::Construct)
        ensures
            *r == self.construct(),
    {
        &*self.inner
    }
}

impl<L: Lang> Clone for LangBox<L> {
    /// The clone shares the same construct.
    fn clone(&self) -> (r: Self)
        ensures
            r == *self,
    {
        LangBox { inner: rc_clone(&self.inner) }
    }
}

} // verus!
