//! The whitespace and indentation guarantees of the rendering engine,
//! stated and proved over the rendering relation that
//! [`crate::tokens::Tokens::format`] is specified by.

use crate::formatter::FmtView;
use crate::item::DirView;
use crate::lang::Lang;
use crate::render::{
    lemma_render_seq_concat, lemma_render_seq_cons, lemma_render_seq_nil,
    lemma_render_seq_singleton, lemma_step_depth, render_seq, render_step,
};
use vstd::prelude::*;

verus! {

/// A run of spacing directives on a line that holds content leaves the
/// sink's text unchanged and exactly one space pending, however long
/// the run is.
proof fn lemma_spacing_run<L: Lang>(n: nat, f: FmtView, config: L::Config)
    requires
        n >= 1,
        f.line,
    ensures
        render_seq(Seq::new(n, |i: int| DirView::<L>::Spacing), f, config) == (
        FmtView { out: f.out, line: true, pending: true, depth: f.depth }, config),
    decreases n,
{
    let spaces = Seq::new(n, |i: int| DirView::<L>::Spacing);
    let g = FmtView { out: f.out, line: true, pending: true, depth: f.depth };
    lemma_render_seq_cons(spaces, f, config);
    assert(spaces[0] == DirView::<L>::Spacing);
    assert(f.space() == g);
    assert(render_step(spaces[0], f, config, f.depth).0 == g);
    assert(render_step(spaces[0], f, config, f.depth).1 == config);
    if n == 1 {
        assert(spaces.drop_first() =~= Seq::<DirView<L>>::empty());
        lemma_render_seq_nil::<L>(g, config);
    } else {
        assert(spaces.drop_first() =~= Seq::new((n - 1) as nat, |i: int| DirView::<L>::Spacing));
        lemma_spacing_run::<L>((n - 1) as nat, g, config);
    }
}

/// Collapsing: any run of one or more spacing directives between two
/// non-empty literals renders as exactly one space between their texts.
pub proof fn lemma_spacing_collapses<L: Lang>(
    a: Seq<char>,
    n: nat,
    b: Seq<char>,
    f: FmtView,
    config: L::Config,
)
    requires
        a.len() > 0,
        b.len() > 0,
        n >= 1,
    ensures
        render_seq(
            seq![DirView::<L>::Literal(a)] + Seq::new(n, |i: int| DirView::<L>::Spacing) + seq![
                DirView::<L>::Literal(b),
            ],
            f,
            config,
        ).0.out == f.write(a).out + seq![' '] + b,
{
    let first = seq![DirView::<L>::Literal(a)];
    let spaces = Seq::new(n, |i: int| DirView::<L>::Spacing);
    let second = seq![DirView::<L>::Literal(b)];
    let fa = f.write(a);
    lemma_render_seq_concat(first + spaces, second, f, config);
    lemma_render_seq_concat(first, spaces, f, config);
    lemma_render_seq_singleton(DirView::<L>::Literal(a), f, config);
    assert(fa.line);
    lemma_spacing_run::<L>(n, fa, config);
    let g = FmtView { out: fa.out, line: true, pending: true, depth: fa.depth };
    assert(render_seq(first + spaces, f, config) == (g, config));
    lemma_render_seq_singleton(DirView::<L>::Literal(b), g, config);
    assert(g.write(b).out =~= fa.out + seq![' '] + b);
}

/// Line-start suppression: a spacing directive immediately after a
/// conditional or unconditional line break, or after an indentation
/// step in either direction, has no effect at all — the line is empty
/// there, so the space is suppressed.
pub proof fn lemma_line_start_suppression<L: Lang>(
    d: DirView<L>,
    ds: Seq<DirView<L>>,
    f: FmtView,
    config: L::Config,
)
    requires
        d is Push || d is Line || d is Indent || d is Unindent,
    ensures
        render_seq(seq![d, DirView::<L>::Spacing] + ds, f, config) == render_seq(
            seq![d] + ds,
            f,
            config,
        ),
{
    let with_spacing = seq![d, DirView::<L>::Spacing] + ds;
    let without_spacing = seq![d] + ds;
    let mid = seq![DirView::<L>::Spacing] + ds;
    let stepped = render_step(d, f, config, f.depth);
    assert(!stepped.0.line);
    lemma_render_seq_cons(with_spacing, f, config);
    assert(with_spacing[0] == d);
    assert(with_spacing.drop_first() =~= mid);
    lemma_render_seq_cons(mid, stepped.0, stepped.1);
    assert(mid[0] == DirView::<L>::Spacing);
    assert(stepped.0.space() == stepped.0);
    assert(render_step(DirView::<L>::Spacing, stepped.0, stepped.1, stepped.0.depth).0
        == stepped.0);
    assert(render_step(DirView::<L>::Spacing, stepped.0, stepped.1, stepped.0.depth).1
        == stepped.1);
    assert(mid.drop_first() =~= ds);
    lemma_render_seq_cons(without_spacing, f, config);
    assert(without_spacing[0] == d);
    assert(without_spacing.drop_first() =~= ds);
}

/// Push idempotence: a second conditional line break right after a
/// first one does nothing, and a conditional break right after an
/// unconditional one does nothing — the line is already empty.
pub proof fn lemma_push_idempotent<L: Lang>(ds: Seq<DirView<L>>, f: FmtView, config: L::Config)
    ensures
        render_seq(seq![DirView::<L>::Push, DirView::<L>::Push] + ds, f, config) == render_seq(
            seq![DirView::<L>::Push] + ds,
            f,
            config,
        ),
        render_seq(seq![DirView::<L>::Line, DirView::<L>::Push] + ds, f, config) == render_seq(
            seq![DirView::<L>::Line] + ds,
            f,
            config,
        ),
{
    let push_push = seq![DirView::<L>::Push, DirView::<L>::Push] + ds;
    let push_only = seq![DirView::<L>::Push] + ds;
    let after_push = render_step(DirView::<L>::Push, f, config, f.depth);
    assert(!after_push.0.line);
    lemma_render_seq_cons(push_push, f, config);
    assert(push_push[0] == DirView::<L>::Push);
    assert(push_push.drop_first() =~= push_only);
    lemma_render_seq_cons(push_only, after_push.0, after_push.1);
    assert(push_only[0] == DirView::<L>::Push);
    assert(after_push.0.soft_newline() == after_push.0);
    assert(render_step(DirView::<L>::Push, after_push.0, after_push.1, after_push.0.depth).0
        == after_push.0);
    assert(render_step(DirView::<L>::Push, after_push.0, after_push.1, after_push.0.depth).1
        == after_push.1);
    assert(push_only.drop_first() =~= ds);
    lemma_render_seq_cons(push_only, f, config);
    let line_push = seq![DirView::<L>::Line, DirView::<L>::Push] + ds;
    let line_only = seq![DirView::<L>::Line] + ds;
    let after_line = render_step(DirView::<L>::Line, f, config, f.depth);
    assert(!after_line.0.line);
    lemma_render_seq_cons(line_push, f, config);
    assert(line_push[0] == DirView::<L>::Line);
    let push_tail = seq![DirView::<L>::Push] + ds;
    assert(line_push.drop_first() =~= push_tail);
    lemma_render_seq_cons(push_tail, after_line.0, after_line.1);
    assert(push_tail[0] == DirView::<L>::Push);
    assert(after_line.0.soft_newline() == after_line.0);
    assert(render_step(DirView::<L>::Push, after_line.0, after_line.1, after_line.0.depth).0
        == after_line.0);
    assert(render_step(DirView::<L>::Push, after_line.0, after_line.1, after_line.0.depth).1
        == after_line.1);
    assert(push_tail.drop_first() =~= ds);
    lemma_render_seq_cons(line_only, f, config);
    assert(line_only[0] == DirView::<L>::Line);
    assert(line_only.drop_first() =~= ds);
}

/// How many indent directives a sequence holds.
pub open spec fn indent_count<L: Lang>(ds: Seq<DirView<L>>) -> int
    decreases ds.len(),
{
    if ds.len() == 0 {
        0
    } else {
        (if ds[0] is Indent {
            1int
        } else {
            0int
        }) + indent_count(ds.drop_first())
    }
}

/// How many unindent directives a sequence holds.
pub open spec fn unindent_count<L: Lang>(ds: Seq<DirView<L>>) -> int
    decreases ds.len(),
{
    if ds.len() == 0 {
        0
    } else {
        (if ds[0] is Unindent {
            1int
        } else {
            0int
        }) + unindent_count(ds.drop_first())
    }
}

/// The depth a walk ends at is its starting depth plus the indent
/// steps minus the unindent steps.
pub proof fn lemma_depth_netting<L: Lang>(ds: Seq<DirView<L>>, f: FmtView, config: L::Config)
    ensures
        render_seq(ds, f, config).0.depth == f.depth + indent_count(ds) - unindent_count(ds),
    decreases ds.len(),
{
    if ds.len() > 0 {
        let stepped = render_step(ds[0], f, config, f.depth);
        lemma_step_depth(ds[0], f, config, f.depth);
        lemma_depth_netting(ds.drop_first(), stepped.0, stepped.1);
    }
}

/// Indent/unindent balance: a walk over a sequence with as many indent
/// as unindent steps ends at the depth it started from.
pub proof fn lemma_depth_balance<L: Lang>(ds: Seq<DirView<L>>, f: FmtView, config: L::Config)
    requires
        indent_count(ds) == unindent_count(ds),
    ensures
        render_seq(ds, f, config).0.depth == f.depth,
{
    lemma_depth_netting(ds, f, config);
}

} // verus!
