use vstd::prelude::*;

verus! {

/// Identifier of one reactive node, unique within its reactor.
#[derive(Clone, Copy, Debug, Eq, Hash, Ord, PartialEq, PartialOrd, Structural)]
pub struct NodeId(pub u64);

impl NodeId {
    /// Wraps a raw identifier.
    pub fn new(raw: u64) -> (id: Self)
        ensures
            id == NodeId(raw),
    {
        Self(raw)
    }

    /// Returns the numeric identifier.
    pub fn get(self) -> (raw: u64)
        ensures
            raw == self.0,
    {
        self.0
    }
}

/// Where in a program something happened: the file, and the line and column in it.
#[derive(Clone, Copy, Debug, Eq, Hash, PartialEq)]
pub struct Location {
    pub file: &'static str,
    pub line: u32,
    pub column: u32,
}

} // verus!
