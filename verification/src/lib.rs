//! A safe, navigable, in-memory tree representation of a parsed YAML-like
//! document, together with the inverse path: re-emitting a document as a
//! byte stream into a file-like or in-memory sink.
//!
//! The character-level grammar work (scanning, parsing, quoting,
//! indentation) is delegated to an external grammar engine; this crate owns
//! the node arena, the indexing of mapping and sequence nodes, the
//! recursive renderer, and the emission-capture layer.
pub mod emit;
pub mod engine;
pub mod errors;
pub mod loader;
pub mod lookup;
pub mod model;
pub mod render;
pub mod text;

pub use emit::EmissionSink;
pub use emit::Emitter;
pub use emit::MemorySink;
pub use errors::EmitError;
pub use errors::LoadError;
pub use errors::LookupError;
pub use errors::RenderError;
pub use errors::RootError;
pub use errors::SinkError;
pub use loader::loads;
pub use loader::Parser;
pub use model::Document;
pub use model::Node;
pub use model::NodeData;
pub use model::Pair;
pub use model::Style;
