//! Tests of the symbolic stack analyzer: depth bookkeeping, slot indexing
//! rules, and the pop order of operands.

use rdecompiler::DisasmError;
use rdecompiler::NamedVariant;
use rdecompiler::StackAnalyzer;
use rdecompiler::Variant;

#[test]
fn locals_exist_and_pop_never_reaches_them() {
    let mut sa = StackAnalyzer::new(3, 1);
    assert_eq!(sa.current_stack_top(), 3);
    assert_eq!(sa.pop().unwrap_err(), DisasmError::StackUnderflow);
    assert_eq!(sa.current_stack_top(), 3);
    sa.push_nil().unwrap();
    assert_eq!(sa.current_stack_top(), 4);
    sa.pop().unwrap();
    assert_eq!(sa.current_stack_top(), 3);
    assert_eq!(sa.pop().unwrap_err(), DisasmError::StackUnderflow);
}

#[test]
fn pushed_constants_are_named_by_their_slot() {
    let mut sa = StackAnalyzer::new(2, 0);
    sa.push_int(7).unwrap();
    let v = sa.pop().unwrap();
    match v {
        NamedVariant::StackIndexed { name, variant } => {
            assert_eq!(name, "local2");
            assert!(matches!(variant, Variant::Int(7)));
        },
        _ => panic!("expected a stack-indexed reference"),
    }
}

#[test]
fn operands_pop_in_reverse_push_order() {
    let mut sa = StackAnalyzer::new(0, 0);
    sa.push_int(5).unwrap();
    sa.push_int(3).unwrap();
    let right = sa.pop().unwrap();
    let left = sa.pop().unwrap();
    match right {
        NamedVariant::StackIndexed { variant, .. } => assert!(matches!(variant, Variant::Int(3))),
        _ => panic!("expected a stack-indexed reference"),
    }
    match left {
        NamedVariant::StackIndexed { variant, .. } => assert!(matches!(variant, Variant::Int(5))),
        _ => panic!("expected a stack-indexed reference"),
    }
}

#[test]
fn push_stack_indexing_rules() {
    let mut sa = StackAnalyzer::new(2, 0);
    sa.push_stack(0).unwrap();
    sa.push_stack(1).unwrap();
    assert_eq!(
        sa.push_stack(2).unwrap_err(),
        DisasmError::InvalidStackIndex { index: 2 }
    );
    assert_eq!(
        sa.push_stack(-1).unwrap_err(),
        DisasmError::InvalidStackIndex { index: -1 }
    );
    sa.push_stack(-2).unwrap();
    let top = sa.pop().unwrap();
    match top {
        NamedVariant::StackIndexed { name, .. } => assert_eq!(name, "arg0"),
        _ => panic!("expected a stack-indexed reference"),
    }
}

#[test]
fn push_stack_fails_past_locals_with_empty_locals() {
    let mut sa = StackAnalyzer::new(0, 0);
    assert_eq!(
        sa.push_stack(0).unwrap_err(),
        DisasmError::InvalidStackIndex { index: 0 }
    );
}

#[test]
fn get_mirrors_push_stack_without_popping() {
    let sa = StackAnalyzer::new(1, 0);
    let local = sa.get(0).unwrap();
    match local {
        NamedVariant::StackIndexed { name, .. } => assert_eq!(name, "local0"),
        _ => panic!("expected a stack-indexed reference"),
    }
    let arg = sa.get(-4).unwrap();
    match arg {
        NamedVariant::StackIndexed { name, .. } => assert_eq!(name, "arg2"),
        _ => panic!("expected a stack-indexed reference"),
    }
    assert_eq!(sa.get(-1).unwrap_err(), DisasmError::InvalidStackIndex { index: -1 });
    assert_eq!(sa.get(1).unwrap_err(), DisasmError::InvalidStackIndex { index: 1 });
    assert_eq!(sa.current_stack_top(), 1);
}

#[test]
fn push_top_duplicates_and_underflows() {
    let mut sa = StackAnalyzer::new(0, 0);
    assert_eq!(sa.push_top().unwrap_err(), DisasmError::StackUnderflow);
    sa.push_int(9).unwrap();
    sa.push_top().unwrap();
    assert_eq!(sa.current_stack_top(), 2);
    let a = sa.pop().unwrap();
    let b = sa.pop().unwrap();
    match (a, b) {
        (
            NamedVariant::StackIndexed { variant: Variant::Int(x), .. },
            NamedVariant::StackIndexed { variant: Variant::Int(y), .. },
        ) => {
            assert_eq!(x, 9);
            assert_eq!(y, 9);
        },
        _ => panic!("expected two integer references"),
    }
}

#[test]
fn push_return_value_and_global() {
    let mut sa = StackAnalyzer::new(0, 0);
    sa.push_return_value().unwrap();
    sa.push_global(77).unwrap();
    assert!(matches!(sa.pop().unwrap(), NamedVariant::Global { slot: 77 }));
    assert!(matches!(sa.pop().unwrap(), NamedVariant::ReturnValue));
}
