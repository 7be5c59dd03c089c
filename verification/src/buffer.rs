//! In-memory text sinks, one per writer flavor.

use vstd::prelude::*;

use crate::common::IndentWrite;
use crate::marker::Format;
use crate::marker::IO;

verus! {

fn append_chars(v: &mut Vec<char>, s: &str)
    ensures
        final(v)@ == old(v)@ + s@,
{
    for c in it: s.chars()
        invariant
            it.seq() == s@,
            v@ == old(v)@ + s@.take(it.index() as int),
    {
        let ghost i = it.index() as int;
        v.push(c);
        proof {
            assert(old(v)@ + s@.take(i + 1) =~= (old(v)@ + s@.take(i)).push(s@[i]));
        }
    }
    proof {
        assert(old(v)@ + s@.take(s@.len() as int) =~= old(v)@ + s@);
    }
}

/// An in-memory text-oriented sink recording the characters written to it,
/// in order. It never fails, which makes it the natural buffer for
/// formatting into memory through the format-level writer.
pub struct FmtBuffer {
    chars: Vec<char>,
}

impl View for FmtBuffer {
    type V = Seq<char>;

    closed spec fn view(&self) -> Seq<char> {
        self.chars@
    }
}

impl FmtBuffer {
    pub fn new() -> (r: Self)
        ensures
            r@ == Seq::<char>::empty(),
    {
        FmtBuffer { chars: Vec::new() }
    }

    /// The characters received so far, in order.
    pub fn as_chars(&self) -> (r: &Vec<char>)
        ensures
            r@ == self@,
    {
        &self.chars
    }
}

impl IndentWrite<Format> for FmtBuffer {
    type Error = core::fmt::Error;

    open spec fn content(&self) -> Seq<char> {
        self@
    }

    fn write_char(&mut self, c: char) -> (r: Result<(), Self::Error>)
        ensures
            r is Ok,
    {
        self.chars.push(c);
        Ok(())
    }

    fn write_str(&mut self, s: &str) -> (r: Result<(), Self::Error>)
        ensures
            r is Ok,
    {
        append_chars(&mut self.chars, s);
        Ok(())
    }

    fn flush(&mut self) -> (r: Result<(), Self::Error>)
        ensures
            r is Ok,
    {
        Ok(())
    }
}

/// An in-memory byte-oriented sink recording the characters written to it,
/// in order. It never fails, which makes it the natural buffer for
/// formatting into memory through the I/O-level writer.
pub struct IoBuffer {
    chars: Vec<char>,
}

impl View for IoBuffer {
    type V = Seq<char>;

    closed spec fn view(&self) -> Seq<char> {
        self.chars@
    }
}

impl IoBuffer {
    pub fn new() -> (r: Self)
        ensures
            r@ == Seq::<char>::empty(),
    {
        IoBuffer { chars: Vec::new() }
    }

    /// The characters received so far, in order.
    pub fn as_chars(&self) -> (r: &Vec<char>)
        ensures
            r@ == self@,
    {
        &self.chars
    }
}

impl IndentWrite<IO> for IoBuffer {
    type Error = std::io::Error;

    open spec fn content(&self) -> Seq<char> {
        self@
    }

    fn write_char(&mut self, c: char) -> (r: Result<(), Self::Error>)
        ensures
            r is Ok,
    {
        self.chars.push(c);
        Ok(())
    }

    fn write_str(&mut self, s: &str) -> (r: Result<(), Self::Error>)
        ensures
            r is Ok,
    {
        append_chars(&mut self.chars, s);
        Ok(())
    }

    fn flush(&mut self) -> (r: Result<(), Self::Error>)
        ensures
            r is Ok,
    {
        Ok(())
    }
}

} // verus!
