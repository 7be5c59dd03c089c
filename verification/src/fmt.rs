//! Indent formatting for text-oriented sinks.

use vstd::prelude::*;

use crate::common::pending_after;
use crate::common::rendered;
use crate::common::IndentWrite;
use crate::common::IndentWriterCommon;
use crate::common::IndentWriterImpl;
use crate::marker::Format;

verus! {

/// Declares core::fmt::Error, the text flavor's failure signal, which
/// carries no payload.
#[verifier::external_type_specification]
#[verifier::external_body]
pub struct ExFmtError(core::fmt::Error);

/// Format-level indent writer.
///
/// A thin facade over the lazy-indent engine for text-oriented sinks: it
/// exposes the text-write interface together with the indent-control
/// operations of [`IndentWriterCommon`]. Failures are the sink's own
/// formatting failures, carrying no payload.
pub struct IndentWriter<W: IndentWrite<Format>> {
    inner: IndentWriterImpl<Format, W>,
}

impl<W: IndentWrite<Format>> IndentWriter<W> {
    /// Constructs a new indent writer managing indents of `indent` spaces
    /// in the owned text sink `w`.
    pub fn new(w: W, indent: usize) -> (r: Self)
        ensures
            r.step() == indent,
            r.indent() == Seq::<char>::empty(),
            r.pending() == false,
            r.out() == w.content(),
    {
        Self { inner: IndentWriterImpl::new(w, indent) }
    }

    /// Writes a string through the lazy-indent engine: each character is
    /// written in order, and the current indentation is emitted before
    /// every character that starts a new line. An empty string is a no-op
    /// and always succeeds.
    pub fn write_str(&mut self, s: &str) -> (r: Result<(), W::Error>)
        ensures
            final(self).step() == old(self).step(),
            final(self).indent() == old(self).indent(),
            r is Ok ==> final(self).out() == old(self).out() + rendered(
                old(self).indent(),
                old(self).pending(),
                s@,
            ),
            r is Ok ==> final(self).pending() == pending_after(old(self).pending(), s@),
            s@.len() == 0 ==> r is Ok,
    {
        self.inner.write_str(s)
    }

    /// Writes one character through the lazy-indent engine.
    pub fn write_char(&mut self, c: char) -> (r: Result<(), W::Error>)
        ensures
            final(self).step() == old(self).step(),
            final(self).indent() == old(self).indent(),
            r is Ok ==> final(self).out() == old(self).out() + rendered(
                old(self).indent(),
                old(self).pending(),
                seq![c],
            ),
            r is Ok ==> final(self).pending() == (c == '\n'),
    {
        self.inner.write_char(c)
    }

    /// Gives shared access to the owned sink, for inspecting what it has
    /// received without disturbing the writer.
    pub fn sink_ref(&self) -> (r: &W)
        ensures
            r.content() == self.out(),
    {
        self.inner.sink_ref()
    }

    /// Consumes the writer and returns the sink it owned.
    pub fn into_inner(self) -> (r: W)
        ensures
            r.content() == self.out(),
    {
        self.inner.into_inner()
    }
}

impl<W: IndentWrite<Format>> IndentWriterCommon for IndentWriter<W> {
    closed spec fn step(&self) -> nat {
        self.inner.step()
    }

    closed spec fn indent(&self) -> Seq<char> {
        self.inner.indent()
    }

    closed spec fn pending(&self) -> bool {
        self.inner.pending()
    }

    closed spec fn out(&self) -> Seq<char> {
        self.inner.out()
    }

    fn increase_indent(&mut self) {
        self.inner.increase_indent();
    }

    fn decrease_indent(&mut self) {
        self.inner.decrease_indent();
    }
}

} // verus!
