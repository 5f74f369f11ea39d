//! The target shape for a later control-flow-graph stage: a basic block is
//! an address range, its successor addresses, and the statements it covers.
//! No partitioning or successor-linking algorithm is defined here; this is
//! only the record the future pass will fill.

use vstd::prelude::*;

use crate::ir::Statement;

verus! {

/// A basic block: a byte range of the routine stream, the entry addresses
/// of its successors, and the statements decoded inside the range.
#[derive(Debug)]
pub struct BasicBlock {
    pub start: usize,
    pub end: usize,
    pub successors: Vec<usize>,
    pub statements: Vec<Statement>,
}

impl BasicBlock {
    /// An empty block covering the given byte range.
    pub fn new(start: usize, end: usize) -> (r: Self)
        ensures
            r.start == start,
            r.end == end,
            r.successors@ == Seq::<usize>::empty(),
            r.statements@ == Seq::<Statement>::empty(),
    {
        BasicBlock { start, end, successors: Vec::new(), statements: Vec::new() }
    }
}

/// The builder a control-flow-graph construction pass will grow from; the
/// partitioning rules are intentionally left to that pass.
#[derive(Debug, Clone)]
pub struct CFGBuilder {
}

} // verus!
