//! The output sink of the rendering engine.
//!
//! A [`Formatter`] accumulates rendered text while tracking the current
//! indentation depth, whether the current line already holds content, and
//! whether an inline space is pending.  Pending spaces are only flushed
//! when non-empty text follows, which is what collapses consecutive
//! spacing directives into a single space and suppresses spaces at the
//! start of a line.

use vstd::prelude::*;

verus! {

/// The mathematical state of a [`Formatter`]: the text emitted so far,
/// the "current line has content" flag, the "a space is pending" flag,
/// and the current indentation depth.
pub struct FmtView {
    /// The characters emitted so far.
    pub out: Seq<char>,
    /// Whether the current line already holds content.
    pub line: bool,
    /// Whether an inline space is pending.
    pub pending: bool,
    /// The current indentation depth.
    pub depth: int,
}

impl FmtView {
    /// The state of a fresh formatter at the given indentation depth.
    pub open spec fn init(depth: int) -> FmtView {
        FmtView { out: Seq::empty(), line: false, pending: false, depth }
    }

    /// The effect of writing `s` verbatim: nothing happens for empty
    /// text; otherwise a pending space is flushed first and the line is
    /// marked as holding content.
    pub open spec fn write(self, s: Seq<char>) -> FmtView {
        if s.len() == 0 {
            self
        } else {
            FmtView {
                out: if self.pending {
                    self.out + seq![' '] + s
                } else {
                    self.out + s
                },
                line: true,
                pending: false,
                depth: self.depth,
            }
        }
    }

    /// The effect of an unconditional line break: any pending space is
    /// dropped and the line becomes empty.
    pub open spec fn newline(self) -> FmtView {
        FmtView { out: self.out + seq!['\n'], line: false, pending: false, depth: self.depth }
    }

    /// The effect of a conditional line break: a break only if the
    /// current line holds content.
    pub open spec fn soft_newline(self) -> FmtView {
        if self.line {
            self.newline()
        } else {
            self
        }
    }

    /// The effect of requesting an inline space: a space becomes pending
    /// only if the current line holds content; at the start of a line the
    /// request is suppressed.
    pub open spec fn space(self) -> FmtView {
        if self.line {
            FmtView { out: self.out, line: self.line, pending: true, depth: self.depth }
        } else {
            self
        }
    }

    /// The effect of moving to the given indentation depth.
    pub open spec fn at_depth(self, depth: int) -> FmtView {
        FmtView { out: self.out, line: self.line, pending: self.pending, depth }
    }
}

/// A rendering failed because the output sink refused the written text.
/// The sink used here accumulates into memory and never refuses, so a
/// render always succeeds; the variant exists so callers see the same
/// result shape whatever the sink.
#[derive(Clone, Copy, Debug, PartialEq, Eq, Structural)]
pub struct RenderError;

/// The output sink: accumulated text plus the rendering state (current
/// indentation depth, line flag, pending-space flag).
pub struct Formatter {
    buf: String,
    line: bool,
    pending: bool,
    depth: usize,
}

impl View for Formatter {
    type V = FmtView;

    closed spec fn view(&self) -> FmtView {
        FmtView {
            out: self.buf@,
            line: self.line,
            pending: self.pending,
            depth: self.depth as int,
        }
    }
}

impl Formatter {
    /// A fresh formatter starting at the given indentation depth.
    pub fn new(depth: usize) -> (r: Formatter)
        ensures
            r@ == FmtView::init(depth as int),
    {
        Formatter { buf: String::new(), line: false, pending: false, depth }
    }

    /// Write `s` verbatim; a pending space is flushed first and the line
    /// is marked non-empty, unless `s` is empty.
    pub fn write_str(&mut self, s: &str)
        ensures
            final(self)@ == old(self)@.write(s@),
    {
        if !s.is_empty() {
            if self.pending {
                proof {
                    reveal_strlit(" ");
                    assert(" "@ =~= seq![' ']);
                }
                self.buf.append(" ");
                self.pending = false;
            }
            self.buf.append(s);
            self.line = true;
            proof {
                assert(self@ =~= old(self)@.write(s@));
            }
        }
    }

    /// Request an inline space; it stays pending until non-empty text
    /// follows, and is suppressed at the start of a line.
    pub fn space(&mut self)
        ensures
            final(self)@ == old(self)@.space(),
    {
        if self.line {
            self.pending = true;
        }
    }

    /// Unconditionally break the line.
    pub fn new_line(&mut self)
        ensures
            final(self)@ == old(self)@.newline(),
    {
        proof {
            reveal_strlit("\n");
            assert("\n"@ =~= seq!['\n']);
        }
        self.buf.append("\n");
        self.line = false;
        self.pending = false;
    }

    /// Break the line only if it already holds content.
    pub fn new_line_unless_empty(&mut self)
        ensures
            final(self)@ == old(self)@.soft_newline(),
    {
        if self.line {
            self.new_line();
        }
    }

    /// Step one indentation level deeper.
    pub fn indent(&mut self)
        requires
            old(self)@.depth < usize::MAX,
        ensures
            final(self)@ == old(self)@.at_depth(old(self)@.depth + 1),
    {
        self.depth = self.depth + 1;
    }

    /// Step one indentation level back.  An unmatched step back is a
    /// contract violation of the caller, not a recoverable condition.
    pub fn unindent(&mut self)
        requires
            old(self)@.depth >= 1,
        ensures
            final(self)@ == old(self)@.at_depth(old(self)@.depth - 1),
    {
        self.depth = self.depth - 1;
    }

    /// The current indentation depth.
    pub fn depth(&self) -> (r: usize)
        ensures
            r as int == self@.depth,
    {
        self.depth
    }

    /// Whether the current line already holds content.
    pub fn line_has_content(&self) -> (r: bool)
        ensures
            r == self@.line,
    {
        self.line
    }

    /// Consume the formatter and hand back the accumulated text.
    pub fn into_output(self) -> (r: String)
        ensures
            r@ == self@.out,
    {
        self.buf
    }
}

} // verus!
