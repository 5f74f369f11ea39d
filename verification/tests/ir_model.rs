//! Tests of the value-reference model: slot naming, identity, and the
//! statement constructors.

use rdecompiler::NamedVariant;
use rdecompiler::Statement;
use rdecompiler::Variant;
use rdecompiler::DisasmError;
use rdecompiler::names::arg_name;
use rdecompiler::names::dec_string;
use rdecompiler::names::local_name;

#[test]
fn decimal_rendering() {
    assert_eq!(dec_string(0), "0");
    assert_eq!(dec_string(7), "7");
    assert_eq!(dec_string(10), "10");
    assert_eq!(dec_string(12345), "12345");
    assert_eq!(dec_string(4294967295), "4294967295");
}

#[test]
fn slot_names() {
    assert_eq!(local_name(0), "local0");
    assert_eq!(local_name(17), "local17");
    assert_eq!(arg_name(0), "arg0");
    assert_eq!(arg_name(3), "arg3");
}

#[test]
fn from_arg_names_offsets_below_minus_one() {
    let a = NamedVariant::from_arg(-2, Variant::Nil).unwrap();
    match a {
        NamedVariant::StackIndexed { name, .. } => assert_eq!(name, "arg0"),
        _ => panic!("expected a stack-indexed reference"),
    }
    let b = NamedVariant::from_arg(-5, Variant::Nil).unwrap();
    match b {
        NamedVariant::StackIndexed { name, .. } => assert_eq!(name, "arg3"),
        _ => panic!("expected a stack-indexed reference"),
    }
    let c = NamedVariant::from_arg(-128, Variant::Nil).unwrap();
    match c {
        NamedVariant::StackIndexed { name, .. } => assert_eq!(name, "arg126"),
        _ => panic!("expected a stack-indexed reference"),
    }
}

#[test]
fn from_arg_rejects_frame_pointer_and_locals() {
    assert_eq!(
        NamedVariant::from_arg(-1, Variant::Nil).unwrap_err(),
        DisasmError::InvalidArgIndex { index: -1 }
    );
    assert_eq!(
        NamedVariant::from_arg(0, Variant::Nil).unwrap_err(),
        DisasmError::InvalidArgIndex { index: 0 }
    );
    assert_eq!(
        NamedVariant::from_arg(5, Variant::Nil).unwrap_err(),
        DisasmError::InvalidArgIndex { index: 5 }
    );
}

#[test]
fn from_local_names_non_negative_indices() {
    let a = NamedVariant::from_local(0, Variant::Nil).unwrap();
    match a {
        NamedVariant::StackIndexed { name, .. } => assert_eq!(name, "local0"),
        _ => panic!("expected a stack-indexed reference"),
    }
    let b = NamedVariant::from_local(42, Variant::True).unwrap();
    match b {
        NamedVariant::StackIndexed { name, .. } => assert_eq!(name, "local42"),
        _ => panic!("expected a stack-indexed reference"),
    }
}

#[test]
fn from_local_rejects_negative_indices() {
    assert_eq!(
        NamedVariant::from_local(-1, Variant::Nil).unwrap_err(),
        DisasmError::InvalidLocalIndex { index: -1 }
    );
    assert_eq!(
        NamedVariant::from_local(-100, Variant::Nil).unwrap_err(),
        DisasmError::InvalidLocalIndex { index: -100 }
    );
}

#[test]
fn is_same_register_compares_names_only() {
    let a = NamedVariant::from_local(3, Variant::Nil).unwrap();
    let b = NamedVariant::from_local(3, Variant::Int(9)).unwrap();
    let c = NamedVariant::from_local(4, Variant::Nil).unwrap();
    let d = NamedVariant::from_arg(-2, Variant::Nil).unwrap();
    let g = NamedVariant::from_global(3);
    assert_eq!(a.is_same_register(&b), Some(true));
    assert_eq!(a.is_same_register(&c), Some(false));
    assert_eq!(a.is_same_register(&d), Some(false));
    assert_eq!(a.is_same_register(&g), None);
    assert_eq!(g.is_same_register(&a), None);
    let r = NamedVariant::from_return_value();
    assert_eq!(r.is_same_register(&a), None);
}

#[test]
fn statement_addresses() {
    let s = Statement::from_return(17, true);
    assert_eq!(s.address(), 17);
    let j = Statement::from_jmp(80, 4);
    assert_eq!(j.address(), 80);
    let cond = NamedVariant::from_return_value();
    let z = Statement::from_jz(5, 99, cond);
    assert_eq!(z.address(), 5);
    let t = Statement::from_unary_op(12, String::from("pvm_neg"), NamedVariant::from_global(1));
    assert_eq!(t.address(), 12);
}

#[test]
fn statement_duplicate_preserves_structure() {
    let inner = Statement::from_binary_op(
        9,
        String::from("pvm_add"),
        NamedVariant::from_global(1),
        NamedVariant::from_return_value(),
    );
    let wrapped = NamedVariant::from_expr(inner);
    let copy = wrapped.duplicate();
    match copy {
        NamedVariant::Expr { expr } => match *expr {
            Statement::BinaryOp { address, op, lhs, rhs } => {
                assert_eq!(address, 9);
                assert_eq!(op, "pvm_add");
                assert!(matches!(lhs, NamedVariant::Global { slot: 1 }));
                assert!(matches!(rhs, NamedVariant::ReturnValue));
            },
            _ => panic!("expected a binary operation"),
        },
        _ => panic!("expected an expression reference"),
    }
}
