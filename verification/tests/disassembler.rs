//! End-to-end tests of the two-pass disassembler over hand-assembled
//! routine streams.

use rdecompiler::DisasmError;
use rdecompiler::Disassembler;
use rdecompiler::NamedVariant;
use rdecompiler::Scenario;
use rdecompiler::Statement;
use rdecompiler::Syscall;
use rdecompiler::Variant;

/// Builds a disassembler over a four-byte header followed by the stream;
/// the routine stream ends exactly at the end of the buffer.
fn build(stream: &[u8], syscalls: Vec<Syscall>) -> Disassembler {
    let mut bytes = vec![0u8, 0, 0, 0];
    bytes.extend_from_slice(stream);
    let end: u32 = bytes.len() as u32;
    Disassembler::new(Scenario::new(bytes, syscalls, end).unwrap())
}

fn int_of(v: &NamedVariant) -> i32 {
    match v {
        NamedVariant::StackIndexed { variant: Variant::Int(n), .. } => *n,
        _ => panic!("expected an integer constant reference"),
    }
}

#[test]
fn add_two_constants_into_a_global() {
    let mut d = build(
        &[
            0x01, 0x00, 0x00, // init-stack args=0 locals=0 (address 4)
            0x0A, 0x05, 0x00, 0x00, 0x00, // push i32 5
            0x0A, 0x03, 0x00, 0x00, 0x00, // push i32 3
            0x1A, // add
            0x15, 0x01, 0x00, // pop global key=1
            0x04, // ret
        ],
        Vec::new(),
    );
    d.disassemble().unwrap();
    let funcs = d.get_functions();
    assert_eq!(funcs.len(), 1);
    let f = &funcs[0];
    assert_eq!(f.address, 4);
    assert_eq!(f.args_count, 0);
    assert_eq!(f.locals_count, 0);
    assert_eq!(f.statements.len(), 2);
    match &f.statements[0] {
        Statement::Assign { address, target, value } => {
            assert_eq!(*address, 18);
            assert!(matches!(target, NamedVariant::Global { slot: 1 }));
            match value {
                NamedVariant::Expr { expr } => match &**expr {
                    Statement::BinaryOp { op, lhs, rhs, .. } => {
                        assert_eq!(op, "pvm_add");
                        assert_eq!(int_of(lhs), 5);
                        assert_eq!(int_of(rhs), 3);
                    },
                    _ => panic!("expected a binary operation"),
                },
                _ => panic!("expected an expression reference"),
            }
        },
        _ => panic!("expected an assignment"),
    }
    match &f.statements[1] {
        Statement::Return { address, has_value } => {
            assert_eq!(*address, 21);
            assert!(!*has_value);
        },
        _ => panic!("expected a return"),
    }
}

#[test]
fn both_passes_end_at_the_stream_end() {
    let mut d = build(
        &[
            0x01, 0x00, 0x01, // init-stack args=0 locals=1
            0x00, // nop
            0x0B, 0xFE, 0xFF, // push i16 -2
            0x16, 0x00, // pop into local 0
            0x04, // ret
        ],
        Vec::new(),
    );
    d.disassemble().unwrap();
    assert_eq!(d.get_pc(), 4 + 10);
    assert_eq!(d.get_pc() as u32, d.get_scenario().get_sys_desc_offset());
}

#[test]
fn call_pops_exactly_the_callee_arg_count() {
    let mut d = build(
        &[
            0x01, 0x02, 0x00, // routine A at 4: args=2 locals=0
            0x04, // ret (appended to A)
            0x01, 0x00, 0x00, // routine B at 8: args=0 locals=0
            0x0A, 0x07, 0x00, 0x00, 0x00, // push i32 7
            0x0A, 0x08, 0x00, 0x00, 0x00, // push i32 8
            0x02, 0x04, 0x00, 0x00, 0x00, // call routine at address 4
            0x04, // ret
        ],
        Vec::new(),
    );
    d.disassemble().unwrap();
    let funcs = d.get_functions();
    assert_eq!(funcs.len(), 2);
    assert_eq!(funcs[0].address, 4);
    assert_eq!(funcs[0].args_count, 2);
    assert_eq!(funcs[1].address, 8);
    match &funcs[1].statements[0] {
        Statement::Call { address, target, args } => {
            assert_eq!(*address, 21);
            assert_eq!(*target, 4);
            assert_eq!(args.len(), funcs[0].args_count as usize);
            // Popped in reverse push order: the last pushed comes first.
            assert_eq!(int_of(&args[0]), 8);
            assert_eq!(int_of(&args[1]), 7);
        },
        _ => panic!("expected a call"),
    }
}

#[test]
fn syscall_looks_up_name_and_arity() {
    let table = vec![Syscall { name: String::from("present"), args: 2 }];
    let mut d = build(
        &[
            0x01, 0x00, 0x00, // init-stack
            0x0A, 0x01, 0x00, 0x00, 0x00, // push i32 1
            0x0A, 0x02, 0x00, 0x00, 0x00, // push i32 2
            0x03, 0x00, 0x00, // syscall id=0
            0x04, // ret
        ],
        table,
    );
    d.disassemble().unwrap();
    let funcs = d.get_functions();
    match &funcs[0].statements[0] {
        Statement::Syscall { syscall_name, args, .. } => {
            assert_eq!(syscall_name, "present");
            assert_eq!(args.len(), 2);
            assert_eq!(int_of(&args[0]), 2);
            assert_eq!(int_of(&args[1]), 1);
        },
        _ => panic!("expected a syscall"),
    }
}

#[test]
fn unknown_opcode_is_fatal_in_discovery() {
    let mut d = build(&[0x28], Vec::new());
    assert_eq!(
        d.disassemble().unwrap_err(),
        DisasmError::UnknownOpcode { opcode: 0x28 }
    );
}

#[test]
fn unknown_opcode_is_skipped_in_interpretation() {
    let mut d = build(&[0x28], Vec::new());
    d.disassemble_pass().unwrap();
    assert_eq!(d.get_pc(), 5);
}

#[test]
fn unknown_syscall_id_is_fatal() {
    let mut d = build(
        &[
            0x01, 0x00, 0x00, // init-stack
            0x03, 0x05, 0x00, // syscall id=5 with an empty table
        ],
        Vec::new(),
    );
    assert_eq!(d.disassemble().unwrap_err(), DisasmError::UnknownSyscall { id: 5 });
}

#[test]
fn call_to_unrecorded_routine_is_fatal() {
    let mut d = build(
        &[
            0x01, 0x00, 0x00, // init-stack
            0x02, 0x64, 0x00, 0x00, 0x00, // call address 100
        ],
        Vec::new(),
    );
    assert_eq!(
        d.disassemble().unwrap_err(),
        DisasmError::RoutineNotFound { address: 100 }
    );
}

#[test]
fn opcode_outside_a_routine_is_fatal() {
    let mut d = build(&[0x08], Vec::new());
    assert_eq!(d.disassemble().unwrap_err(), DisasmError::NoActiveRoutine);
}

#[test]
fn popping_an_empty_operand_area_is_fatal() {
    let mut d = build(
        &[
            0x01, 0x00, 0x00, // init-stack args=0 locals=0
            0x1A, // add with nothing pushed
        ],
        Vec::new(),
    );
    assert_eq!(d.disassemble().unwrap_err(), DisasmError::StackUnderflow);
}

#[test]
fn truncated_init_stack_is_fatal_in_discovery() {
    let mut d = build(&[0x01], Vec::new());
    assert_eq!(d.disassemble().unwrap_err(), DisasmError::OutOfBounds { offset: 5 });
}

#[test]
fn string_constants_carry_their_raw_bytes() {
    let mut d = build(
        &[
            0x01, 0x00, 0x00, // init-stack
            0x0E, 0x02, b'h', b'i', // push string "hi"
            0x15, 0x00, 0x00, // pop global key=0
            0x04, // ret
        ],
        Vec::new(),
    );
    d.disassemble().unwrap();
    let funcs = d.get_functions();
    match &funcs[0].statements[0] {
        Statement::Assign { value, .. } => match value {
            NamedVariant::StackIndexed { name, variant } => {
                assert_eq!(name, "local0");
                match variant {
                    Variant::Str(bytes) => assert_eq!(bytes, &vec![b'h', b'i']),
                    _ => panic!("expected a string constant"),
                }
            },
            _ => panic!("expected a stack-indexed reference"),
        },
        _ => panic!("expected an assignment"),
    }
}

#[test]
fn float_constants_carry_their_bits() {
    let bits = 2.5f32.to_bits().to_le_bytes();
    let mut d = build(
        &[
            0x01, 0x00, 0x00, // init-stack
            0x0D, bits[0], bits[1], bits[2], bits[3], // push f32 2.5
            0x15, 0x00, 0x00, // pop global key=0
            0x04, // ret
        ],
        Vec::new(),
    );
    d.disassemble().unwrap();
    let funcs = d.get_functions();
    match &funcs[0].statements[0] {
        Statement::Assign { value, .. } => match value {
            NamedVariant::StackIndexed { variant: Variant::Float(b), .. } => {
                assert_eq!(f32::from_bits(*b), 2.5f32);
            },
            _ => panic!("expected a float constant reference"),
        },
        _ => panic!("expected an assignment"),
    }
}

#[test]
fn jumps_and_conditions() {
    let mut d = build(
        &[
            0x01, 0x00, 0x00, // init-stack
            0x09, // push true
            0x07, 0x64, 0x00, 0x00, 0x00, // jz to 100
            0x06, 0x04, 0x00, 0x00, 0x00, // jmp to 4
            0x05, // retv
        ],
        Vec::new(),
    );
    d.disassemble().unwrap();
    let funcs = d.get_functions();
    assert_eq!(funcs[0].statements.len(), 3);
    match &funcs[0].statements[0] {
        Statement::Jz { target, condition, .. } => {
            assert_eq!(*target, 100);
            assert!(matches!(
                condition,
                NamedVariant::StackIndexed { variant: Variant::True, .. }
            ));
        },
        _ => panic!("expected a conditional jump"),
    }
    match &funcs[0].statements[1] {
        Statement::Jmp { target, .. } => assert_eq!(*target, 4),
        _ => panic!("expected a jump"),
    }
    match &funcs[0].statements[2] {
        Statement::Return { has_value, .. } => assert!(*has_value),
        _ => panic!("expected a return"),
    }
}

#[test]
fn table_accesses_nest_as_expressions() {
    let mut d = build(
        &[
            0x01, 0x00, 0x00, // init-stack args=0 locals=0
            0x0A, 0x01, 0x00, 0x00, 0x00, // push i32 1 (key selector)
            0x11, 0x07, 0x00, // push global table key=7
            0x15, 0x00, 0x00, // pop global key=0
            0x0A, 0x01, 0x00, 0x00, 0x00, // push i32 1 (key selector)
            0x0A, 0x09, 0x00, 0x00, 0x00, // push i32 9 (value)
            0x17, 0x03, 0x00, // pop global table key=3
            0x04, // ret
        ],
        Vec::new(),
    );
    d.disassemble().unwrap();
    let funcs = d.get_functions();
    assert_eq!(funcs[0].statements.len(), 3);
    match &funcs[0].statements[0] {
        Statement::Assign { value, .. } => match value {
            NamedVariant::Expr { expr } => match &**expr {
                Statement::GlobalTableAccess { tlb, slot, .. } => {
                    assert!(matches!(tlb, NamedVariant::Global { slot: 7 }));
                    assert_eq!(int_of(slot), 1);
                },
                _ => panic!("expected a global table access"),
            },
            _ => panic!("expected an expression reference"),
        },
        _ => panic!("expected an assignment"),
    }
    match &funcs[0].statements[1] {
        Statement::Assign { target, value, .. } => {
            match target {
                NamedVariant::Expr { expr } => match &**expr {
                    Statement::GlobalTableAccess { tlb, slot, .. } => {
                        assert!(matches!(tlb, NamedVariant::Global { slot: 3 }));
                        assert_eq!(int_of(slot), 1);
                    },
                    _ => panic!("expected a global table access"),
                },
                _ => panic!("expected an expression target"),
            }
            assert_eq!(int_of(value), 9);
        },
        _ => panic!("expected an assignment"),
    }
}

#[test]
fn local_table_accesses_resolve_the_slot() {
    let mut d = build(
        &[
            0x01, 0x00, 0x01, // init-stack args=0 locals=1
            0x0A, 0x05, 0x00, 0x00, 0x00, // push i32 5 (key selector)
            0x12, 0x00, // push local table idx=0
            0x15, 0x02, 0x00, // pop global key=2
            0x04, // ret
        ],
        Vec::new(),
    );
    d.disassemble().unwrap();
    let funcs = d.get_functions();
    match &funcs[0].statements[0] {
        Statement::Assign { value, .. } => match value {
            NamedVariant::Expr { expr } => match &**expr {
                Statement::LocalTableAccess { tlb, slot, .. } => {
                    match tlb {
                        NamedVariant::StackIndexed { name, .. } => assert_eq!(name, "local0"),
                        _ => panic!("expected the local slot as the table"),
                    }
                    assert_eq!(int_of(slot), 5);
                },
                _ => panic!("expected a local table access"),
            },
            _ => panic!("expected an expression reference"),
        },
        _ => panic!("expected an assignment"),
    }
}

#[test]
fn negation_wraps_the_popped_operand() {
    let mut d = build(
        &[
            0x01, 0x00, 0x00, // init-stack
            0x0C, 0x05, // push i8 5
            0x19, // neg
            0x15, 0x01, 0x00, // pop global key=1
            0x04, // ret
        ],
        Vec::new(),
    );
    d.disassemble().unwrap();
    let funcs = d.get_functions();
    match &funcs[0].statements[0] {
        Statement::Assign { value, .. } => match value {
            NamedVariant::Expr { expr } => match &**expr {
                Statement::UnaryOp { op, operand, .. } => {
                    assert_eq!(op, "pvm_neg");
                    assert_eq!(int_of(operand), 5);
                },
                _ => panic!("expected a unary operation"),
            },
            _ => panic!("expected an expression reference"),
        },
        _ => panic!("expected an assignment"),
    }
}

#[test]
fn small_integer_pushes_sign_extend() {
    let mut d = build(
        &[
            0x01, 0x00, 0x00, // init-stack
            0x0C, 0x80, // push i8 -128
            0x15, 0x00, 0x00, // pop global key=0
            0x0B, 0xFE, 0xFF, // push i16 -2
            0x15, 0x01, 0x00, // pop global key=1
            0x04, // ret
        ],
        Vec::new(),
    );
    d.disassemble().unwrap();
    let funcs = d.get_functions();
    match &funcs[0].statements[0] {
        Statement::Assign { value, .. } => assert_eq!(int_of(value), -128),
        _ => panic!("expected an assignment"),
    }
    match &funcs[0].statements[1] {
        Statement::Assign { value, .. } => assert_eq!(int_of(value), -2),
        _ => panic!("expected an assignment"),
    }
}

#[test]
fn push_top_duplicates_the_operand() {
    let mut d = build(
        &[
            0x01, 0x00, 0x00, // init-stack
            0x0A, 0x01, 0x00, 0x00, 0x00, // push i32 1
            0x13, // push top
            0x15, 0x00, 0x00, // pop global key=0
            0x15, 0x01, 0x00, // pop global key=1
            0x04, // ret
        ],
        Vec::new(),
    );
    d.disassemble().unwrap();
    let funcs = d.get_functions();
    match &funcs[0].statements[0] {
        Statement::Assign { value, .. } => assert_eq!(int_of(value), 1),
        _ => panic!("expected an assignment"),
    }
    match &funcs[0].statements[1] {
        Statement::Assign { value, .. } => assert_eq!(int_of(value), 1),
        _ => panic!("expected an assignment"),
    }
}

#[test]
fn return_value_flows_into_arguments() {
    let mut d = build(
        &[
            0x01, 0x00, 0x00, // routine at 4
            0x05, // retv
            0x01, 0x00, 0x00, // routine at 8
            0x14, // push return value
            0x15, 0x00, 0x00, // pop global key=0
            0x04, // ret
        ],
        Vec::new(),
    );
    d.disassemble().unwrap();
    let funcs = d.get_functions();
    assert_eq!(funcs.len(), 2);
    match &funcs[1].statements[0] {
        Statement::Assign { value, .. } => {
            assert!(matches!(value, NamedVariant::ReturnValue));
        },
        _ => panic!("expected an assignment"),
    }
}
