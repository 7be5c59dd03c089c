//! Marker types that select which flavor of sink an indent writer drives.

use vstd::prelude::*;

verus! {

/// A marker for a stream supporting indent formatting.
///
/// The indentation engine is written once, generically over a sink
/// capability; the marker picks the flavor of that capability (byte-oriented
/// or text-oriented) without duplicating any of the engine's logic.
pub trait IndentWriteMarker {

}

/// Marks a byte-oriented (I/O) stream.
pub struct IO;

impl IndentWriteMarker for IO {

}

/// Marks a text-oriented (format) stream.
pub struct Format;

impl IndentWriteMarker for Format {

}

} // verus!
