//! The rendering relation: what one directive, and a whole sequence of
//! directives, do to the sink state and the configuration.

use crate::formatter::FmtView;
use crate::item::DirView;
use crate::lang::Lang;
use vstd::prelude::*;

verus! {

/// The effect of one directive on the sink state and the configuration,
/// at the given nesting level.
pub open spec fn render_step<L: Lang>(
    d: DirView<L>,
    f: FmtView,
    config: L::Config,
    level: int,
) -> (FmtView, L::Config) {
    match d {
        DirView::Literal(s) => (f.write(s), config),
        DirView::Quoted(s) => (f.write(L::spec_quote(s)), config),
        DirView::LangBox(c) => (
            f.write(L::construct_text(c, config, level)),
            L::construct_config(c, config, level),
        ),
        DirView::Registered(_) => (f, config),
        DirView::Push => (f.soft_newline(), config),
        DirView::Line => (f.newline(), config),
        DirView::Spacing => (f.space(), config),
        DirView::Indent => (f.at_depth(f.depth + 1).soft_newline(), config),
        DirView::Unindent => (f.at_depth(f.depth - 1).soft_newline(), config),
    }
}

/// The effect of a whole directive sequence: one forward pass, each
/// directive applied in order, each at the depth current when it is
/// reached.
pub open spec fn render_seq<L: Lang>(
    ds: Seq<DirView<L>>,
    f: FmtView,
    config: L::Config,
) -> (FmtView, L::Config)
    decreases ds.len(),
{
    if ds.len() == 0 {
        (f, config)
    } else {
        let stepped = render_step(ds[0], f, config, f.depth);
        render_seq(ds.drop_first(), stepped.0, stepped.1)
    }
}

/// Whether a directive sequence keeps the indentation depth within
/// bounds when walked from the given depth: never a step back below
/// zero, never a step past the machine limit.
pub open spec fn depth_ok<L: Lang>(ds: Seq<DirView<L>>, depth: int) -> bool
    decreases ds.len(),
{
    if ds.len() == 0 {
        true
    } else {
        match ds[0] {
            DirView::Indent => depth + 1 <= usize::MAX && depth_ok(ds.drop_first(), depth + 1),
            DirView::Unindent => depth >= 1 && depth_ok(ds.drop_first(), depth - 1),
            _ => depth_ok(ds.drop_first(), depth),
        }
    }
}

/// A sequence without indentation steps keeps any depth in bounds.
pub proof fn lemma_depth_ok_flat<L: Lang>(ds: Seq<DirView<L>>, depth: int)
    requires
        forall|i: int| 0 <= i < ds.len() ==> !(#[trigger] ds[i] is Indent) && !(ds[i] is Unindent),
    ensures
        depth_ok(ds, depth),
    decreases ds.len(),
{
    if ds.len() > 0 {
        assert(forall|i: int|
            0 <= i < ds.drop_first().len() ==> #[trigger] ds.drop_first()[i] == ds[i + 1]);
        lemma_depth_ok_flat(ds.drop_first(), depth);
    }
}

/// Only the two indentation directives move the depth, each by one
/// step; every other directive leaves it unchanged.
pub proof fn lemma_step_depth<L: Lang>(d: DirView<L>, f: FmtView, config: L::Config, level: int)
    ensures
        render_step(d, f, config, level).0.depth == match d {
            DirView::Indent => f.depth + 1,
            DirView::Unindent => f.depth - 1,
            _ => f.depth,
        },
{
}

/// Rendering a concatenation renders the first part, then the second
/// from the state the first part left behind.
pub proof fn lemma_render_seq_concat<L: Lang>(
    a: Seq<DirView<L>>,
    b: Seq<DirView<L>>,
    f: FmtView,
    config: L::Config,
)
    ensures
        render_seq(a + b, f, config) == render_seq(
            b,
            render_seq(a, f, config).0,
            render_seq(a, f, config).1,
        ),
    decreases a.len(),
{
    if a.len() == 0 {
        assert(a + b =~= b);
    } else {
        let stepped = render_step(a[0], f, config, f.depth);
        assert((a + b).drop_first() =~= a.drop_first() + b);
        lemma_render_seq_concat(a.drop_first(), b, stepped.0, stepped.1);
    }
}

/// Rendering an empty sequence changes nothing.
pub proof fn lemma_render_seq_nil<L: Lang>(f: FmtView, config: L::Config)
    ensures
        render_seq(Seq::<DirView<L>>::empty(), f, config) == (f, config),
{
}

/// Unfold one step of the walk: the first directive, then the rest.
pub proof fn lemma_render_seq_cons<L: Lang>(ds: Seq<DirView<L>>, f: FmtView, config: L::Config)
    requires
        ds.len() > 0,
    ensures
        render_seq(ds, f, config) == render_seq(
            ds.drop_first(),
            render_step(ds[0], f, config, f.depth).0,
            render_step(ds[0], f, config, f.depth).1,
        ),
{
}

/// Rendering a single directive is one step, at the current depth.
pub proof fn lemma_render_seq_singleton<L: Lang>(x: DirView<L>, f: FmtView, config: L::Config)
    ensures
        render_seq(seq![x], f, config) == render_step(x, f, config, f.depth),
{
    let stepped = render_step(x, f, config, f.depth);
    lemma_render_seq_cons(seq![x], f, config);
    assert(seq![x][0] == x);
    assert(seq![x].drop_first() =~= Seq::<DirView<L>>::empty());
    lemma_render_seq_nil::<L>(stepped.0, stepped.1);
}

/// Rendering one more directive at the end of a sequence applies one
/// more step to the state the sequence left behind.
pub proof fn lemma_render_seq_snoc<L: Lang>(
    s: Seq<DirView<L>>,
    x: DirView<L>,
    f: FmtView,
    config: L::Config,
)
    ensures
        render_seq(s.push(x), f, config) == (
            {
                let mid = render_seq(s, f, config);
                render_step(x, mid.0, mid.1, mid.0.depth)
            }
        ),
{
    assert(s.push(x) =~= s + seq![x]);
    lemma_render_seq_concat(s, seq![x], f, config);
    let mid = render_seq(s, f, config);
    lemma_render_seq_singleton(x, mid.0, mid.1);
}

} // verus!
