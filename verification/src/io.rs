//! Indent formatting for byte-oriented sinks.

use vstd::prelude::*;

use crate::common::pending_after;
use crate::common::rendered;
use crate::common::IndentWrite;
use crate::common::IndentWriterCommon;
use crate::common::IndentWriterImpl;
use crate::marker::IO;

verus! {

/// Declares std::io::Error, the byte flavor's failure signal, which
/// carries the underlying error detail.
#[verifier::external_type_specification]
#[verifier::external_body]
pub struct ExIoError(std::io::Error);

/// Declares core::str::Utf8Error, the detail carried by the failure that
/// rejects malformed byte input.
#[verifier::external_type_specification]
#[verifier::external_body]
pub struct ExUtf8Error(core::str::Utf8Error);

/// The decoding of a byte sequence as UTF-8 text: the character sequence
/// the bytes encode when they are valid UTF-8, and nothing otherwise.
pub uninterp spec fn utf8_decode(bytes: Seq<u8>) -> Option<Seq<char>>;

/// Relies on core::str::from_utf8: it returns the text a byte slice holds
/// exactly when the bytes are valid UTF-8, and the decoding is a function
/// of the bytes alone.
#[verifier::external_body]
fn utf8_to_str(bytes: &[u8]) -> (r: Result<&str, core::str::Utf8Error>)
    ensures
        r matches Ok(s) ==> utf8_decode(bytes@) == Some(s@),
        r is Err ==> utf8_decode(bytes@) is None,
{
    core::str::from_utf8(bytes)
}

/// Relies on std::io::Error::other: it wraps an arbitrary error into an
/// I/O error of the `Other` kind.
#[verifier::external_body]
fn other_io_error(e: core::str::Utf8Error) -> std::io::Error {
    std::io::Error::other(e)
}

/// I/O-level indent writer.
///
/// A thin facade over the lazy-indent engine for byte-oriented sinks: it
/// exposes the byte-write interface together with the indent-control
/// operations of [`IndentWriterCommon`]. Failures are I/O failures
/// carrying the underlying error; bytes that are not valid UTF-8 are
/// rejected with an I/O failure before anything reaches the sink.
pub struct IndentWriter<W: IndentWrite<IO, Error = std::io::Error>> {
    inner: IndentWriterImpl<IO, W>,
}

impl<W: IndentWrite<IO, Error = std::io::Error>> IndentWriter<W> {
    /// Constructs a new indent writer managing indents of `indent` spaces
    /// in the owned I/O sink `w`.
    pub fn new(w: W, indent: usize) -> (r: Self)
        ensures
            r.step() == indent,
            r.indent() == Seq::<char>::empty(),
            r.pending() == false,
            r.out() == w.content(),
    {
        Self { inner: IndentWriterImpl::new(w, indent) }
    }

    /// Provides access to the wrapped I/O sink in `f`, bypassing all
    /// indentation logic for the duration of the call. The indentation
    /// state is untouched; whatever `f` writes to the sink is outside the
    /// engine's accounting.
    pub fn with_raw_buffer<R, F: FnOnce(&mut W) -> R>(&mut self, f: F) -> (r: R)
        requires
            forall|args: (&mut W,)| #[trigger] call_requires(f, args),
        ensures
            final(self).step() == old(self).step(),
            final(self).indent() == old(self).indent(),
            final(self).pending() == old(self).pending(),
            exists|args: (&mut W,)| call_ensures(f, args, r),
    {
        f(self.inner.sink_mut())
    }

    /// Writes a byte slice holding UTF-8 text through the lazy-indent
    /// engine. Bytes that are not valid UTF-8 are rejected with an I/O
    /// failure and nothing is written or changed; on success the whole
    /// slice is consumed and its byte length returned.
    pub fn write(&mut self, buf: &[u8]) -> (r: Result<usize, std::io::Error>)
        ensures
            final(self).step() == old(self).step(),
            final(self).indent() == old(self).indent(),
            utf8_decode(buf@) is None ==> r is Err && *final(self) == *old(self),
            r matches Ok(n) ==> n == buf@.len(),
            utf8_decode(buf@) matches Some(text) ==> (r is Ok ==> final(self).out()
                == old(self).out() + rendered(old(self).indent(), old(self).pending(), text)
                && final(self).pending() == pending_after(old(self).pending(), text)),
    {
        let s = match utf8_to_str(buf) {
            Ok(s) => s,
            Err(e) => {
                return Err(other_io_error(e));
            },
        };
        match self.inner.write_str(s) {
            Ok(()) => Ok(buf.len()),
            Err(e) => Err(e),
        }
    }

    /// Delegates directly to the sink's flush; carries no indentation
    /// logic.
    pub fn flush(&mut self) -> (r: Result<(), std::io::Error>)
        ensures
            final(self).step() == old(self).step(),
            final(self).indent() == old(self).indent(),
            final(self).pending() == old(self).pending(),
            r is Ok ==> final(self).out() == old(self).out(),
    {
        self.inner.flush()
    }

    /// Gives shared access to the owned sink, for inspecting what it has
    /// received without disturbing the writer.
    pub fn sink_ref(&self) -> (r: &W)
        ensures
            r.content() == self.out(),
    {
        self.inner.sink_ref()
    }

    /// Consumes the writer and returns the sink it owned.
    pub fn into_inner(self) -> (r: W)
        ensures
            r.content() == self.out(),
    {
        self.inner.into_inner()
    }
}

impl<W: IndentWrite<IO, Error = std::io::Error>> IndentWriterCommon for IndentWriter<W> {
    closed spec fn step(&self) -> nat {
        self.inner.step()
    }

    closed spec fn indent(&self) -> Seq<char> {
        self.inner.indent()
    }

    closed spec fn pending(&self) -> bool {
        self.inner.pending()
    }

    closed spec fn out(&self) -> Seq<char> {
        self.inner.out()
    }

    fn increase_indent(&mut self) {
        self.inner.increase_indent();
    }

    fn decrease_indent(&mut self) {
        self.inner.decrease_indent();
    }
}

} // verus!
