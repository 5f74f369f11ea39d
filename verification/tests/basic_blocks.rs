//! Tests of the basic-block record used by a later control-flow-graph
//! stage.

use rdecompiler::BasicBlock;
use rdecompiler::CFGBuilder;

#[test]
fn new_block_covers_its_range_and_is_empty() {
    let b = BasicBlock::new(4, 21);
    assert_eq!(b.start, 4);
    assert_eq!(b.end, 21);
    assert!(b.successors.is_empty());
    assert!(b.statements.is_empty());
}

#[test]
fn builder_is_constructible() {
    let b = CFGBuilder {};
    let _c = b.clone();
}
