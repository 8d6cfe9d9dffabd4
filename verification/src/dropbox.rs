//! The Dropbox backend. Only its name is settled: it has no discovery yet.
use vstd::prelude::*;

verus! {

/// A Dropbox account as a source of tracks.
#[derive(Debug, Clone, Copy, PartialEq, Eq)]
pub struct Dropbox {}

impl Dropbox {
    pub fn new() -> (backend: Dropbox)
        ensures
            backend == (Dropbox {  }),
    {
        Dropbox {  }
    }

    /// The name under which this backend is mounted.
    pub fn name(&self) -> (name: &'static str)
        ensures
            name@ == "dropbox"@,
    {
        "dropbox"
    }
}

} // verus!
