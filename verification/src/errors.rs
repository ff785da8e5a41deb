//! Structured error values of the engine. Every failure is fail-fast: it
//! bubbles to the immediate caller of a load, resolve or render call, with
//! no local recovery, suppression or retry.

use vstd::prelude::*;

verus! {

/// What went wrong during loading, resolution or rendering.
#[derive(Debug, PartialEq)]
pub enum Error {
    /// A file or directory could not be opened or enumerated. Produced by
    /// the I/O driver around this engine, never by the engine itself.
    Io(String),
    /// The context description file did not parse into the expected shape.
    /// Carries the offending file's path. Propagated, not generated here.
    Deserialization(String),
    /// The template engine failed to parse or execute a file. Carries the
    /// offending file's name and the engine's message.
    Templating { file_name: String, message: String },
    /// A template rendered to no output at all; an empty deployment
    /// manifest is almost always a mistake, so it is a hard error.
    /// Carries the offending file's name.
    EmptyTemplate(String),
    /// A context declared no resource sets, so there is nothing to render.
    EmptyContext,
}

} // verus!
