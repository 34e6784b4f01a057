//! Error taxonomy of the recognizer core.
//!
//! Loading the pretrained classifier is the sole fallible startup
//! dependency; its failure is fatal to the session and carries the path
//! that was attempted. A pointer outside the canvas is not an error but the
//! ordinary "outside" outcome of the coordinate mapper.

use vstd::prelude::*;

verus! {

/// Failure to bring up the wrapped classifier.
#[derive(Debug, Clone)]
pub enum ModelError {
    /// The model file at the carried path could not be opened or
    /// deserialized.
    UnableToOpenModel(String),
}

impl ModelError {
    /// The path whose model could not be loaded.
    pub fn path(&self) -> (p: &String)
        ensures
            self matches ModelError::UnableToOpenModel(q) && p == q,
    {
        match self {
            ModelError::UnableToOpenModel(p) => p,
        }
    }
}

} // verus!
