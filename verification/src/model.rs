//! Model availability state.
//!
//! A single boolean gate saying whether an inference model is currently
//! available, held as explicit state owned by whatever component manages
//! the model lifecycle — not as ambient global state. The mesh core does
//! not depend on it.

use vstd::prelude::*;

verus! {

/// Whether a model is currently loaded.
#[derive(Debug)]
pub struct ModelState {
    loaded: bool,
}

impl ModelState {
    /// Whether a model is loaded.
    pub closed spec fn loaded_spec(&self) -> bool {
        self.loaded
    }

    /// A fresh gate with no model loaded.
    pub fn new() -> (r: Self)
        ensures
            !r.loaded_spec(),
    {
        ModelState { loaded: false }
    }

    /// Record whether a model is loaded.
    pub fn store(&mut self, loaded: bool)
        ensures
            final(self).loaded_spec() == loaded,
    {
        self.loaded = loaded;
    }

    /// Whether a model is currently loaded.
    pub fn load(&self) -> (r: bool)
        ensures
            r == self.loaded_spec(),
    {
        self.loaded
    }
}

impl Default for ModelState {
    /// No model loaded.
    fn default() -> (r: Self)
        ensures
            !r.loaded_spec(),
    {
        ModelState { loaded: false }
    }
}

} // verus!
