//! The error taxonomy of the library.

use vstd::prelude::*;

verus! {

/// Errors surfaced by registry, workspace and node operations.
#[derive(Debug)]
pub enum Error {
    /// The registry document or an expected directory is absent.
    NotFound,
    /// A filesystem step failed; carries the component-tagged message.
    IoError(String),
    /// Deleting a subgraph was blocked because its directory is not empty.
    NotEmpty,
    /// A node was constructed from a path that is not a markdown file.
    InvalidInput,
    /// The registry document is present but is not a valid registry.
    ParseError,
}

} // verus!
