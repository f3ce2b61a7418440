//! The error taxonomy of the library.
//!
//! Loading, lookup, rendering and emission each fail in their own ways; a
//! lookup miss is *not* an error (it is the normal `None` result), while a
//! wrong node kind or a malformed key encoding is.
use vstd::prelude::*;

verus! {

/// A failure reported while loading a document from bytes.
#[derive(Clone, Copy, Debug, PartialEq, Eq, Structural)]
pub enum LoadError {
    /// The input does not conform to the grammar, or the grammar engine
    /// produced a document that violates the arena invariants.
    Syntax,
    /// The underlying byte source failed, or no input was configured.
    Io,
    /// The input stream held no document at all.
    EmptyStream,
}

/// A failure reported while looking a child node up by key or position.
#[derive(Clone, Copy, Debug, PartialEq, Eq, Structural)]
pub enum LookupError {
    /// A key lookup was attempted on a node that is not a mapping.
    NotAMapping,
    /// A positional lookup was attempted on a node that is not a sequence.
    NotASequence,
    /// A scalar key of the scanned mapping is not valid UTF-8; the document
    /// is corrupt, so this is a hard failure rather than a silent skip.
    MalformedKeyEncoding,
}

/// A failure reported while rendering a node to text.
#[derive(Clone, Copy, Debug, PartialEq, Eq, Structural)]
pub enum RenderError {
    /// The recursion depth cap was reached before the subtree was exhausted.
    TooDeep,
}

/// A failure reported when asking an empty document for its root node.
#[derive(Clone, Copy, Debug, PartialEq, Eq, Structural)]
pub enum RootError {
    /// The document holds no nodes, so there is no root.
    NoRoot,
}

/// A failure reported while emitting a document as bytes.
#[derive(Clone, Copy, Debug, PartialEq, Eq, Structural)]
pub enum EmitError {
    /// The document cannot be handed to the grammar engine: a scalar holds
    /// bytes that are not valid UTF-8, or the arena is too large.
    Unencodable,
    /// The grammar engine itself failed to emit.
    Engine,
    /// The emitted byte stream is not valid UTF-8, so it cannot be exposed
    /// as text.
    OutputNotUtf8,
    /// The installed emission sink rejected a write.
    Sink,
}

/// A failure reported by an emission sink.
#[derive(Clone, Copy, Debug, PartialEq, Eq, Structural)]
pub enum SinkError {
    /// The sink could not accept the bytes handed to it.
    WriteFailed,
    /// The captured bytes are not valid UTF-8, so they cannot be exposed
    /// as text.
    InvalidUtf8,
}

} // verus!
