//! The mathematical model of the two disassembly passes: the machine state,
//! one spec-level transition per opcode, and the recursive walk of the
//! routine stream. The executable disassembler is proved to follow these
//! transitions exactly.

use vstd::prelude::*;

use crate::error::DisasmError;
use crate::ir::NamedV;
use crate::ir::StmtV;
use crate::ir::VariantV;
use crate::scenario::SyscallV;
use crate::scenario::as_i8;
use crate::scenario::as_i16;
use crate::scenario::as_i32;
use crate::scenario::le_u16;
use crate::scenario::le_u32;
use crate::stack::AnalyzerV;
use crate::stack::arg_slot;
use crate::stack::av_wf;
use crate::stack::placeholder_slot;
use crate::stack::pushed_slot;

verus! {

/// The byte length of the fixed header the cursor starts past.
pub const HEADER_BYTES: usize = 4;

/// One instruction opcode of the virtual machine.
#[derive(Debug, Clone, Copy, PartialEq, Eq, Structural)]
pub enum Opcode {
    Nop,
    InitStack,
    Call,
    Syscall,
    Ret,
    RetV,
    Jmp,
    Jz,
    PushNil,
    PushTrue,
    PushI32,
    PushI16,
    PushI8,
    PushF32,
    PushString,
    PushGlobal,
    PushStack,
    PushGlobalTable,
    PushLocalTable,
    PushTop,
    PushReturn,
    PopGlobal,
    PopStack,
    PopGlobalTable,
    PopLocalTable,
    Neg,
    Add,
    Sub,
    Mul,
    Div,
    Mod,
    BitTest,
    And,
    Or,
    SetE,
    SetNE,
    SetG,
    SetLE,
    SetL,
    SetGE,
}

/// The opcode a byte encodes, if any.
pub open spec fn spec_opcode(b: u8) -> Option<Opcode> {
    if b == 0x00 {
        Some(Opcode::Nop)
    } else if b == 0x01 {
        Some(Opcode::InitStack)
    } else if b == 0x02 {
        Some(Opcode::Call)
    } else if b == 0x03 {
        Some(Opcode::Syscall)
    } else if b == 0x04 {
        Some(Opcode::Ret)
    } else if b == 0x05 {
        Some(Opcode::RetV)
    } else if b == 0x06 {
        Some(Opcode::Jmp)
    } else if b == 0x07 {
        Some(Opcode::Jz)
    } else if b == 0x08 {
        Some(Opcode::PushNil)
    } else if b == 0x09 {
        Some(Opcode::PushTrue)
    } else if b == 0x0A {
        Some(Opcode::PushI32)
    } else if b == 0x0B {
        Some(Opcode::PushI16)
    } else if b == 0x0C {
        Some(Opcode::PushI8)
    } else if b == 0x0D {
        Some(Opcode::PushF32)
    } else if b == 0x0E {
        Some(Opcode::PushString)
    } else if b == 0x0F {
        Some(Opcode::PushGlobal)
    } else if b == 0x10 {
        Some(Opcode::PushStack)
    } else if b == 0x11 {
        Some(Opcode::PushGlobalTable)
    } else if b == 0x12 {
        Some(Opcode::PushLocalTable)
    } else if b == 0x13 {
        Some(Opcode::PushTop)
    } else if b == 0x14 {
        Some(Opcode::PushReturn)
    } else if b == 0x15 {
        Some(Opcode::PopGlobal)
    } else if b == 0x16 {
        Some(Opcode::PopStack)
    } else if b == 0x17 {
        Some(Opcode::PopGlobalTable)
    } else if b == 0x18 {
        Some(Opcode::PopLocalTable)
    } else if b == 0x19 {
        Some(Opcode::Neg)
    } else if b == 0x1A {
        Some(Opcode::Add)
    } else if b == 0x1B {
        Some(Opcode::Sub)
    } else if b == 0x1C {
        Some(Opcode::Mul)
    } else if b == 0x1D {
        Some(Opcode::Div)
    } else if b == 0x1E {
        Some(Opcode::Mod)
    } else if b == 0x1F {
        Some(Opcode::BitTest)
    } else if b == 0x20 {
        Some(Opcode::And)
    } else if b == 0x21 {
        Some(Opcode::Or)
    } else if b == 0x22 {
        Some(Opcode::SetE)
    } else if b == 0x23 {
        Some(Opcode::SetNE)
    } else if b == 0x24 {
        Some(Opcode::SetG)
    } else if b == 0x25 {
        Some(Opcode::SetLE)
    } else if b == 0x26 {
        Some(Opcode::SetL)
    } else if b == 0x27 {
        Some(Opcode::SetGE)
    } else {
        None
    }
}

/// Whether an opcode is one of the binary operators.
pub open spec fn is_binop(op: Opcode) -> bool {
    match op {
        Opcode::Add | Opcode::Sub | Opcode::Mul | Opcode::Div | Opcode::Mod | Opcode::BitTest
            | Opcode::And | Opcode::Or | Opcode::SetE | Opcode::SetNE | Opcode::SetG
            | Opcode::SetLE | Opcode::SetL | Opcode::SetGE => true,
        _ => false,
    }
}

/// The operator name a binary-operator opcode is rendered as.
pub open spec fn binop_name(op: Opcode) -> Seq<char> {
    match op {
        Opcode::Add => "pvm_add"@,
        Opcode::Sub => "pvm_sub"@,
        Opcode::Mul => "pvm_mul"@,
        Opcode::Div => "pvm_div"@,
        Opcode::Mod => "pvm_mod"@,
        Opcode::BitTest => "pvm_bittest"@,
        Opcode::And => "pvm_and"@,
        Opcode::Or => "pvm_or"@,
        Opcode::SetE => "pvm_sete"@,
        Opcode::SetNE => "pvm_setne"@,
        Opcode::SetG => "pvm_setg"@,
        Opcode::SetLE => "pvm_setle"@,
        Opcode::SetL => "pvm_setl"@,
        Opcode::SetGE => "pvm_setge"@,
        _ => Seq::<char>::empty(),
    }
}

/// Model of one discovered routine.
#[verifier::ext_equal]
pub struct FuncV {
    pub addr: u32,
    pub args: u8,
    pub locals: u8,
    pub stmts: Seq<StmtV>,
}

/// Model of the disassembler's mutable state: the cursor, the routine
/// table, the active routine's address and its symbolic stack.
#[verifier::ext_equal]
pub struct MachV {
    pub pos: int,
    pub funcs: Seq<FuncV>,
    pub cur: Option<u32>,
    pub an: Option<AnalyzerV>,
}

/// A machine state is well formed when its analyzer, if any, is.
pub open spec fn mach_wf(m: MachV) -> bool {
    match m.an {
        Some(a) => av_wf(a),
        None => true,
    }
}

/// The placeholder slots a fresh analyzer is seeded with.
pub open spec fn placeholders(n: nat) -> Seq<NamedV> {
    Seq::new(n, |i: int| placeholder_slot(i as nat))
}

/// The first routine with the given entry address.
pub open spec fn find_func(funcs: Seq<FuncV>, addr: u32) -> Option<int>
    decreases funcs.len(),
{
    if funcs.len() == 0 {
        None
    } else if funcs[0].addr == addr {
        Some(0)
    } else {
        match find_func(funcs.drop_first(), addr) {
            None => None,
            Some(i) => Some(i + 1),
        }
    }
}

/// What `find_func` returns: the first index whose routine carries the
/// address, or nothing when no routine does.
pub proof fn lemma_find_func(funcs: Seq<FuncV>, addr: u32)
    ensures
        match find_func(funcs, addr) {
            None => forall|j: int| 0 <= j < funcs.len() ==> funcs[j].addr != addr,
            Some(i) => 0 <= i < funcs.len() && funcs[i].addr == addr && forall|j: int|
                0 <= j < i ==> funcs[j].addr != addr,
        },
    decreases funcs.len(),
{
    if funcs.len() > 0 && funcs[0].addr != addr {
        lemma_find_func(funcs.drop_first(), addr);
        match find_func(funcs.drop_first(), addr) {
            None => {
                assert forall|j: int| 0 <= j < funcs.len() implies funcs[j].addr != addr by {
                    if j > 0 {
                        assert(funcs.drop_first()[j - 1] == funcs[j]);
                    }
                }
            },
            Some(i) => {
                assert(funcs.drop_first()[i] == funcs[i + 1]);
                assert forall|j: int| 0 <= j < i + 1 implies funcs[j].addr != addr by {
                    if j > 0 {
                        assert(funcs.drop_first()[j - 1] == funcs[j]);
                    }
                }
            },
        }
    }
}

/// Pushes one operand onto the analyzer's stack.
pub open spec fn av_push(a: AnalyzerV, v: NamedV) -> AnalyzerV {
    AnalyzerV { locals: a.locals, args: a.args, slots: a.slots.push(v) }
}

/// Pushes a constant, named by the slot it lands in.
pub open spec fn av_push_const(a: AnalyzerV, v: VariantV) -> AnalyzerV {
    av_push(a, pushed_slot(a.slots.len(), v))
}

/// Pops the top operand; fails when the operand area is empty.
pub open spec fn av_pop(a: AnalyzerV) -> Result<(AnalyzerV, NamedV), DisasmError> {
    if a.slots.len() > a.locals {
        Ok(
            (
                AnalyzerV { locals: a.locals, args: a.args, slots: a.slots.drop_last() },
                a.slots.last(),
            ),
        )
    } else {
        Err(DisasmError::StackUnderflow)
    }
}

/// Pops `n` operands, first popped first.
pub open spec fn av_pop_n(a: AnalyzerV, n: nat) -> Result<(AnalyzerV, Seq<NamedV>), DisasmError>
    decreases n,
{
    if n == 0 {
        Ok((a, Seq::<NamedV>::empty()))
    } else {
        match av_pop(a) {
            Err(e) => Err(e),
            Ok((a2, v)) => match av_pop_n(a2, (n - 1) as nat) {
                Err(e) => Err(e),
                Ok((a3, vs)) => Ok((a3, seq![v] + vs)),
            },
        }
    }
}

/// Reads a local or argument slot without popping: a non-negative index
/// must name a declared local, an index at or below -2 names a synthetic
/// argument, and anything else is invalid.
pub open spec fn av_get(a: AnalyzerV, idx: i8) -> Result<NamedV, DisasmError> {
    if 0 <= idx && (idx as int) < a.locals {
        Ok(a.slots[idx as int])
    } else if idx <= -2 {
        Ok(arg_slot((-(idx as int) - 2) as nat))
    } else {
        Err(DisasmError::InvalidStackIndex { index: idx })
    }
}

/// Appends a statement to the active routine; fails outside a routine.
pub open spec fn append_stmt(m: MachV, stmt: StmtV) -> Result<Seq<FuncV>, DisasmError> {
    match m.cur {
        None => Err(DisasmError::NoActiveRoutine),
        Some(addr) => match find_func(m.funcs, addr) {
            None => Err(DisasmError::RoutineNotFound { address: addr }),
            Some(i) => Ok(
                m.funcs.update(
                    i,
                    FuncV {
                        addr: m.funcs[i].addr,
                        args: m.funcs[i].args,
                        locals: m.funcs[i].locals,
                        stmts: m.funcs[i].stmts.push(stmt),
                    },
                ),
            ),
        },
    }
}

/// The byte length of the known instruction at `pos` (for a string push the
/// length-prefix byte at `pos + 1` decides).
pub open spec fn inst_len(data: Seq<u8>, pos: int, op: Opcode) -> int {
    match op {
        Opcode::Nop => 1,
        Opcode::InitStack => 3,
        Opcode::Call => 5,
        Opcode::Syscall => 3,
        Opcode::Ret => 1,
        Opcode::RetV => 1,
        Opcode::Jmp => 5,
        Opcode::Jz => 5,
        Opcode::PushNil => 1,
        Opcode::PushTrue => 1,
        Opcode::PushI32 => 5,
        Opcode::PushI16 => 3,
        Opcode::PushI8 => 2,
        Opcode::PushF32 => 5,
        Opcode::PushString => 2 + data[pos + 1],
        Opcode::PushGlobal => 3,
        Opcode::PushStack => 2,
        Opcode::PushGlobalTable => 3,
        Opcode::PushLocalTable => 2,
        Opcode::PushTop => 1,
        Opcode::PushReturn => 1,
        Opcode::PopGlobal => 3,
        Opcode::PopStack => 2,
        Opcode::PopGlobalTable => 3,
        Opcode::PopLocalTable => 2,
        _ => 1,
    }
}

/// One step of the discovery pass: advance over the instruction at `pos`,
/// recording a routine whenever an init-stack opcode is met. An unknown
/// opcode is fatal here, since the instruction's length is unknown.
pub open spec fn discover_step(data: Seq<u8>, pos: int, funcs: Seq<FuncV>) -> Result<
    (int, Seq<FuncV>),
    DisasmError,
> {
    if !(0 <= pos < data.len()) {
        Err(DisasmError::OutOfBounds { offset: pos as usize })
    } else {
        match spec_opcode(data[pos]) {
            None => Err(DisasmError::UnknownOpcode { opcode: data[pos] }),
            Some(op) => match op {
                Opcode::InitStack => if pos + 1 >= data.len() {
                    Err(DisasmError::OutOfBounds { offset: (pos + 1) as usize })
                } else if pos + 2 >= data.len() {
                    Err(DisasmError::OutOfBounds { offset: (pos + 2) as usize })
                } else {
                    Ok(
                        (
                            pos + 3,
                            funcs.push(
                                FuncV {
                                    addr: pos as u32,
                                    args: data[pos + 1],
                                    locals: data[pos + 2],
                                    stmts: Seq::<StmtV>::empty(),
                                },
                            ),
                        ),
                    )
                },
                Opcode::PushString => if pos + 1 >= data.len() {
                    Err(DisasmError::OutOfBounds { offset: (pos + 1) as usize })
                } else {
                    Ok((pos + inst_len(data, pos, op), funcs))
                },
                _ => Ok((pos + inst_len(data, pos, op), funcs)),
            },
        }
    }
}

/// A successful discovery step always advances the cursor.
pub proof fn lemma_discover_step_advances(data: Seq<u8>, pos: int, funcs: Seq<FuncV>)
    ensures
        discover_step(data, pos, funcs) matches Ok(r) ==> r.0 > pos,
{
}

/// The discovery pass from `pos` to the stream end: the final cursor and
/// the routine table, or the first fatal error.
pub open spec fn discover_run(data: Seq<u8>, end: int, pos: int, funcs: Seq<FuncV>) -> Result<
    (int, Seq<FuncV>),
    DisasmError,
>
    decreases (if pos < end { end - pos } else { 0 }),
{
    if pos >= end {
        Ok((pos, funcs))
    } else {
        match discover_step(data, pos, funcs) {
            Err(e) => Err(e),
            Ok((p2, f2)) => if p2 > pos {
                discover_run(data, end, p2, f2)
            } else {
                Err(DisasmError::UnknownOpcode { opcode: data[pos] })
            },
        }
    }
}

/// The same machine state at another cursor position.
pub open spec fn with_pos(m: MachV, pos: int) -> MachV {
    MachV { pos, funcs: m.funcs, cur: m.cur, an: m.an }
}

/// The no-operation step: the cursor advances, nothing else changes.
pub open spec fn step_nop(m: MachV) -> Result<MachV, DisasmError> {
    Ok(with_pos(m, m.pos + 1))
}

/// The init-stack step of the interpretation pass: the routine recorded at
/// this address during discovery becomes the active one, with a fresh
/// analyzer sized by its declared counts.
pub open spec fn step_init_stack(m: MachV) -> Result<MachV, DisasmError> {
    let addr = m.pos as u32;
    match find_func(m.funcs, addr) {
        None => Err(DisasmError::RoutineNotFound { address: addr }),
        Some(i) => Ok(
            MachV {
                pos: m.pos + 3,
                funcs: m.funcs,
                cur: Some(addr),
                an: Some(
                    AnalyzerV {
                        locals: m.funcs[i].locals as nat,
                        args: m.funcs[i].args as nat,
                        slots: placeholders(m.funcs[i].locals as nat),
                    },
                ),
            },
        ),
    }
}

/// The call step: the callee's declared argument count decides how many
/// operands are popped, in reverse push order, into the emitted statement.
pub open spec fn step_call(data: Seq<u8>, m: MachV) -> Result<MachV, DisasmError> {
    if m.pos + 5 > data.len() {
        Err(DisasmError::OutOfBounds { offset: (m.pos + 1) as usize })
    } else {
        let target = le_u32(data, m.pos + 1);
        match find_func(m.funcs, target) {
            None => Err(DisasmError::RoutineNotFound { address: target }),
            Some(i) => match m.an {
                None => Err(DisasmError::NoActiveRoutine),
                Some(a) => match av_pop_n(a, m.funcs[i].args as nat) {
                    Err(e) => Err(e),
                    Ok((a2, vs)) => {
                        let stmt = StmtV::Call { address: m.pos as u32, target, args: vs };
                        match append_stmt(m, stmt) {
                            Err(e) => Err(e),
                            Ok(f2) => Ok(
                                MachV { pos: m.pos + 5, funcs: f2, cur: m.cur, an: Some(a2) },
                            ),
                        }
                    },
                },
            },
        }
    }
}

/// The syscall step: the table entry's declared argument count decides how
/// many operands are popped into the emitted statement.
pub open spec fn step_syscall(data: Seq<u8>, sys: Seq<SyscallV>, m: MachV) -> Result<
    MachV,
    DisasmError,
> {
    if m.pos + 3 > data.len() {
        Err(DisasmError::OutOfBounds { offset: (m.pos + 1) as usize })
    } else {
        let id = le_u16(data, m.pos + 1);
        if id as int >= sys.len() {
            Err(DisasmError::UnknownSyscall { id })
        } else {
            match m.an {
                None => Err(DisasmError::NoActiveRoutine),
                Some(a) => match av_pop_n(a, sys[id as int].args as nat) {
                    Err(e) => Err(e),
                    Ok((a2, vs)) => {
                        let stmt = StmtV::Syscall {
                            address: m.pos as u32,
                            syscall_name: sys[id as int].name,
                            args: vs,
                        };
                        match append_stmt(m, stmt) {
                            Err(e) => Err(e),
                            Ok(f2) => Ok(
                                MachV { pos: m.pos + 3, funcs: f2, cur: m.cur, an: Some(a2) },
                            ),
                        }
                    },
                },
            }
        }
    }
}

/// The return step, with or without a value.
pub open spec fn step_ret(m: MachV, has_value: bool) -> Result<MachV, DisasmError> {
    let stmt = StmtV::Return { address: m.pos as u32, has_value };
    match append_stmt(m, stmt) {
        Err(e) => Err(e),
        Ok(f2) => Ok(MachV { pos: m.pos + 1, funcs: f2, cur: m.cur, an: m.an }),
    }
}

/// The unconditional jump step.
pub open spec fn step_jmp(data: Seq<u8>, m: MachV) -> Result<MachV, DisasmError> {
    if m.pos + 5 > data.len() {
        Err(DisasmError::OutOfBounds { offset: (m.pos + 1) as usize })
    } else {
        let stmt = StmtV::Jmp { address: m.pos as u32, target: le_u32(data, m.pos + 1) };
        match append_stmt(m, stmt) {
            Err(e) => Err(e),
            Ok(f2) => Ok(MachV { pos: m.pos + 5, funcs: f2, cur: m.cur, an: m.an }),
        }
    }
}

/// The jump-if-zero step: the condition is popped off the stack.
pub open spec fn step_jz(data: Seq<u8>, m: MachV) -> Result<MachV, DisasmError> {
    if m.pos + 5 > data.len() {
        Err(DisasmError::OutOfBounds { offset: (m.pos + 1) as usize })
    } else {
        match m.an {
            None => Err(DisasmError::NoActiveRoutine),
            Some(a) => match av_pop(a) {
                Err(e) => Err(e),
                Ok((a2, cond)) => {
                    let stmt = StmtV::Jz {
                        address: m.pos as u32,
                        target: le_u32(data, m.pos + 1),
                        condition: cond,
                    };
                    match append_stmt(m, stmt) {
                        Err(e) => Err(e),
                        Ok(f2) => Ok(MachV { pos: m.pos + 5, funcs: f2, cur: m.cur, an: Some(a2) }),
                    }
                },
            },
        }
    }
}

/// A constant push step with a fixed instruction length.
pub open spec fn step_push_const(m: MachV, len: int, v: VariantV) -> Result<MachV, DisasmError> {
    match m.an {
        None => Err(DisasmError::NoActiveRoutine),
        Some(a) => Ok(
            MachV { pos: m.pos + len, funcs: m.funcs, cur: m.cur, an: Some(av_push_const(a, v)) },
        ),
    }
}

/// The 32-bit integer push step.
pub open spec fn step_push_i32(data: Seq<u8>, m: MachV) -> Result<MachV, DisasmError> {
    if m.pos + 5 > data.len() {
        Err(DisasmError::OutOfBounds { offset: (m.pos + 1) as usize })
    } else {
        step_push_const(m, 5, VariantV::Int(as_i32(le_u32(data, m.pos + 1))))
    }
}

/// The 16-bit integer push step: the constant is sign-extended.
pub open spec fn step_push_i16(data: Seq<u8>, m: MachV) -> Result<MachV, DisasmError> {
    if m.pos + 3 > data.len() {
        Err(DisasmError::OutOfBounds { offset: (m.pos + 1) as usize })
    } else {
        step_push_const(m, 3, VariantV::Int(as_i16(le_u16(data, m.pos + 1)) as i32))
    }
}

/// The 8-bit integer push step: the constant is sign-extended.
pub open spec fn step_push_i8(data: Seq<u8>, m: MachV) -> Result<MachV, DisasmError> {
    if m.pos + 2 > data.len() {
        Err(DisasmError::OutOfBounds { offset: (m.pos + 1) as usize })
    } else {
        step_push_const(m, 2, VariantV::Int(as_i8(data[m.pos + 1]) as i32))
    }
}

/// The float push step: the constant is carried as its raw bits.
pub open spec fn step_push_f32(data: Seq<u8>, m: MachV) -> Result<MachV, DisasmError> {
    if m.pos + 5 > data.len() {
        Err(DisasmError::OutOfBounds { offset: (m.pos + 1) as usize })
    } else {
        step_push_const(m, 5, VariantV::Float(le_u32(data, m.pos + 1)))
    }
}

/// The string push step: a length prefix and that many raw bytes.
pub open spec fn step_push_string(data: Seq<u8>, m: MachV) -> Result<MachV, DisasmError> {
    if m.pos + 2 > data.len() {
        Err(DisasmError::OutOfBounds { offset: (m.pos + 1) as usize })
    } else {
        let n = data[m.pos + 1] as int;
        if m.pos + 2 + n > data.len() {
            Err(DisasmError::OutOfBounds { offset: (m.pos + 2) as usize })
        } else {
            step_push_const(
                m,
                2 + n,
                VariantV::Str(data.subrange(m.pos + 2, m.pos + 2 + n)),
            )
        }
    }
}

/// The global push step: a reference to the global table entry.
pub open spec fn step_push_global(data: Seq<u8>, m: MachV) -> Result<MachV, DisasmError> {
    if m.pos + 3 > data.len() {
        Err(DisasmError::OutOfBounds { offset: (m.pos + 1) as usize })
    } else {
        match m.an {
            None => Err(DisasmError::NoActiveRoutine),
            Some(a) => Ok(
                MachV {
                    pos: m.pos + 3,
                    funcs: m.funcs,
                    cur: m.cur,
                    an: Some(av_push(a, NamedV::Global { slot: le_u16(data, m.pos + 1) as u32 })),
                },
            ),
        }
    }
}

/// The stack push step: a copy of the referenced local or argument slot.
pub open spec fn step_push_stack(data: Seq<u8>, m: MachV) -> Result<MachV, DisasmError> {
    if m.pos + 2 > data.len() {
        Err(DisasmError::OutOfBounds { offset: (m.pos + 1) as usize })
    } else {
        let off = as_i8(data[m.pos + 1]);
        match m.an {
            None => Err(DisasmError::NoActiveRoutine),
            Some(a) => if 0 <= off && (off as int) < a.locals {
                Ok(
                    MachV {
                        pos: m.pos + 2,
                        funcs: m.funcs,
                        cur: m.cur,
                        an: Some(av_push(a, a.slots[off as int])),
                    },
                )
            } else if off <= -2 {
                Ok(
                    MachV {
                        pos: m.pos + 2,
                        funcs: m.funcs,
                        cur: m.cur,
                        an: Some(av_push(a, arg_slot((-(off as int) - 2) as nat))),
                    },
                )
            } else {
                Err(DisasmError::InvalidStackIndex { index: off })
            },
        }
    }
}

/// The global-table push step: the key selector is popped and the access is
/// pushed back as an expression operand.
pub open spec fn step_push_global_table(data: Seq<u8>, m: MachV) -> Result<MachV, DisasmError> {
    if m.pos + 3 > data.len() {
        Err(DisasmError::OutOfBounds { offset: (m.pos + 1) as usize })
    } else {
        match m.an {
            None => Err(DisasmError::NoActiveRoutine),
            Some(a) => match av_pop(a) {
                Err(e) => Err(e),
                Ok((a2, key_sel)) => {
                    let stmt = StmtV::GlobalTableAccess {
                        address: m.pos as u32,
                        tlb: NamedV::Global { slot: le_u16(data, m.pos + 1) as u32 },
                        slot: key_sel,
                    };
                    Ok(
                        MachV {
                            pos: m.pos + 3,
                            funcs: m.funcs,
                            cur: m.cur,
                            an: Some(av_push(a2, NamedV::Expr { expr: Box::new(stmt) })),
                        },
                    )
                },
            },
        }
    }
}

/// The local-table push step: the slot is resolved as the table, the key
/// selector is popped, and the access is pushed back as an expression.
pub open spec fn step_push_local_table(data: Seq<u8>, m: MachV) -> Result<MachV, DisasmError> {
    if m.pos + 2 > data.len() {
        Err(DisasmError::OutOfBounds { offset: (m.pos + 1) as usize })
    } else {
        let idx = as_i8(data[m.pos + 1]);
        match m.an {
            None => Err(DisasmError::NoActiveRoutine),
            Some(a) => match av_get(a, idx) {
                Err(e) => Err(e),
                Ok(table) => match av_pop(a) {
                    Err(e) => Err(e),
                    Ok((a2, key_sel)) => {
                        let stmt = StmtV::LocalTableAccess {
                            address: m.pos as u32,
                            tlb: table,
                            slot: key_sel,
                        };
                        Ok(
                            MachV {
                                pos: m.pos + 2,
                                funcs: m.funcs,
                                cur: m.cur,
                                an: Some(av_push(a2, NamedV::Expr { expr: Box::new(stmt) })),
                            },
                        )
                    },
                },
            },
        }
    }
}

/// The duplicate-top step; it fails on an entirely empty stack.
pub open spec fn step_push_top(m: MachV) -> Result<MachV, DisasmError> {
    match m.an {
        None => Err(DisasmError::NoActiveRoutine),
        Some(a) => if a.slots.len() > 0 {
            Ok(
                MachV {
                    pos: m.pos + 1,
                    funcs: m.funcs,
                    cur: m.cur,
                    an: Some(av_push(a, a.slots.last())),
                },
            )
        } else {
            Err(DisasmError::StackUnderflow)
        },
    }
}

/// The return-value push step.
pub open spec fn step_push_return(m: MachV) -> Result<MachV, DisasmError> {
    match m.an {
        None => Err(DisasmError::NoActiveRoutine),
        Some(a) => Ok(
            MachV {
                pos: m.pos + 1,
                funcs: m.funcs,
                cur: m.cur,
                an: Some(av_push(a, NamedV::ReturnValue)),
            },
        ),
    }
}

/// The pop-global step: the popped value is assigned to the global entry.
pub open spec fn step_pop_global(data: Seq<u8>, m: MachV) -> Result<MachV, DisasmError> {
    if m.pos + 3 > data.len() {
        Err(DisasmError::OutOfBounds { offset: (m.pos + 1) as usize })
    } else {
        match m.an {
            None => Err(DisasmError::NoActiveRoutine),
            Some(a) => match av_pop(a) {
                Err(e) => Err(e),
                Ok((a2, value)) => {
                    let stmt = StmtV::Assign {
                        address: m.pos as u32,
                        target: NamedV::Global { slot: le_u16(data, m.pos + 1) as u32 },
                        value,
                    };
                    match append_stmt(m, stmt) {
                        Err(e) => Err(e),
                        Ok(f2) => Ok(MachV { pos: m.pos + 3, funcs: f2, cur: m.cur, an: Some(a2) }),
                    }
                },
            },
        }
    }
}

/// The pop-stack step: the popped value is assigned to the referenced local
/// or argument slot.
pub open spec fn step_pop_stack(data: Seq<u8>, m: MachV) -> Result<MachV, DisasmError> {
    if m.pos + 2 > data.len() {
        Err(DisasmError::OutOfBounds { offset: (m.pos + 1) as usize })
    } else {
        let idx = as_i8(data[m.pos + 1]);
        match m.an {
            None => Err(DisasmError::NoActiveRoutine),
            Some(a) => match av_pop(a) {
                Err(e) => Err(e),
                Ok((a2, value)) => match av_get(a2, idx) {
                    Err(e) => Err(e),
                    Ok(target) => {
                        let stmt = StmtV::Assign { address: m.pos as u32, target, value };
                        match append_stmt(m, stmt) {
                            Err(e) => Err(e),
                            Ok(f2) => Ok(
                                MachV { pos: m.pos + 2, funcs: f2, cur: m.cur, an: Some(a2) },
                            ),
                        }
                    },
                },
            },
        }
    }
}

/// The pop-global-table step: value and key selector are popped and the
/// assignment targets the keyed global-table access.
pub open spec fn step_pop_global_table(data: Seq<u8>, m: MachV) -> Result<MachV, DisasmError> {
    if m.pos + 3 > data.len() {
        Err(DisasmError::OutOfBounds { offset: (m.pos + 1) as usize })
    } else {
        match m.an {
            None => Err(DisasmError::NoActiveRoutine),
            Some(a) => match av_pop(a) {
                Err(e) => Err(e),
                Ok((a2, value)) => match av_pop(a2) {
                    Err(e) => Err(e),
                    Ok((a3, key_sel)) => {
                        let access = StmtV::GlobalTableAccess {
                            address: m.pos as u32,
                            tlb: NamedV::Global { slot: le_u16(data, m.pos + 1) as u32 },
                            slot: key_sel,
                        };
                        let stmt = StmtV::Assign {
                            address: m.pos as u32,
                            target: NamedV::Expr { expr: Box::new(access) },
                            value,
                        };
                        match append_stmt(m, stmt) {
                            Err(e) => Err(e),
                            Ok(f2) => Ok(
                                MachV { pos: m.pos + 3, funcs: f2, cur: m.cur, an: Some(a3) },
                            ),
                        }
                    },
                },
            },
        }
    }
}

/// The pop-local-table step: value and key selector are popped, the slot is
/// resolved as the table, and the assignment targets the keyed access.
pub open spec fn step_pop_local_table(data: Seq<u8>, m: MachV) -> Result<MachV, DisasmError> {
    if m.pos + 2 > data.len() {
        Err(DisasmError::OutOfBounds { offset: (m.pos + 1) as usize })
    } else {
        let idx = as_i8(data[m.pos + 1]);
        match m.an {
            None => Err(DisasmError::NoActiveRoutine),
            Some(a) => match av_pop(a) {
                Err(e) => Err(e),
                Ok((a2, value)) => match av_pop(a2) {
                    Err(e) => Err(e),
                    Ok((a3, key_sel)) => match av_get(a3, idx) {
                        Err(e) => Err(e),
                        Ok(table) => {
                            let access = StmtV::LocalTableAccess {
                                address: m.pos as u32,
                                tlb: table,
                                slot: key_sel,
                            };
                            let stmt = StmtV::Assign {
                                address: m.pos as u32,
                                target: NamedV::Expr { expr: Box::new(access) },
                                value,
                            };
                            match append_stmt(m, stmt) {
                                Err(e) => Err(e),
                                Ok(f2) => Ok(
                                    MachV { pos: m.pos + 2, funcs: f2, cur: m.cur, an: Some(a3) },
                                ),
                            }
                        },
                    },
                },
            },
        }
    }
}

/// The negation step: the operand is popped and the operation pushed back
/// as an expression.
pub open spec fn step_neg(m: MachV) -> Result<MachV, DisasmError> {
    match m.an {
        None => Err(DisasmError::NoActiveRoutine),
        Some(a) => match av_pop(a) {
            Err(e) => Err(e),
            Ok((a2, operand)) => {
                let stmt = StmtV::UnaryOp { address: m.pos as u32, op: "pvm_neg"@, operand };
                Ok(
                    MachV {
                        pos: m.pos + 1,
                        funcs: m.funcs,
                        cur: m.cur,
                        an: Some(av_push(a2, NamedV::Expr { expr: Box::new(stmt) })),
                    },
                )
            },
        },
    }
}

/// A binary-operator step: the right operand is popped before the left one
/// (mirroring push order), and the operation is pushed back as an
/// expression.
pub open spec fn step_binop(m: MachV, op: Opcode) -> Result<MachV, DisasmError> {
    match m.an {
        None => Err(DisasmError::NoActiveRoutine),
        Some(a) => match av_pop(a) {
            Err(e) => Err(e),
            Ok((a2, rhs)) => match av_pop(a2) {
                Err(e) => Err(e),
                Ok((a3, lhs)) => {
                    let stmt = StmtV::BinaryOp {
                        address: m.pos as u32,
                        op: binop_name(op),
                        lhs,
                        rhs,
                    };
                    Ok(
                        MachV {
                            pos: m.pos + 1,
                            funcs: m.funcs,
                            cur: m.cur,
                            an: Some(av_push(a3, NamedV::Expr { expr: Box::new(stmt) })),
                        },
                    )
                },
            },
        },
    }
}

/// One step of the interpretation pass. An unknown opcode is not fatal
/// here: it is treated as a one-byte skip so the pass can make best-effort
/// progress.
pub open spec fn interp_step(data: Seq<u8>, sys: Seq<SyscallV>, m: MachV) -> Result<
    MachV,
    DisasmError,
> {
    if !(0 <= m.pos < data.len()) {
        Err(DisasmError::OutOfBounds { offset: m.pos as usize })
    } else {
        match spec_opcode(data[m.pos]) {
            None => Ok(with_pos(m, m.pos + 1)),
            Some(op) => match op {
                Opcode::Nop => step_nop(m),
                Opcode::InitStack => step_init_stack(m),
                Opcode::Call => step_call(data, m),
                Opcode::Syscall => step_syscall(data, sys, m),
                Opcode::Ret => step_ret(m, false),
                Opcode::RetV => step_ret(m, true),
                Opcode::Jmp => step_jmp(data, m),
                Opcode::Jz => step_jz(data, m),
                Opcode::PushNil => step_push_const(m, 1, VariantV::Nil),
                Opcode::PushTrue => step_push_const(m, 1, VariantV::True),
                Opcode::PushI32 => step_push_i32(data, m),
                Opcode::PushI16 => step_push_i16(data, m),
                Opcode::PushI8 => step_push_i8(data, m),
                Opcode::PushF32 => step_push_f32(data, m),
                Opcode::PushString => step_push_string(data, m),
                Opcode::PushGlobal => step_push_global(data, m),
                Opcode::PushStack => step_push_stack(data, m),
                Opcode::PushGlobalTable => step_push_global_table(data, m),
                Opcode::PushLocalTable => step_push_local_table(data, m),
                Opcode::PushTop => step_push_top(m),
                Opcode::PushReturn => step_push_return(m),
                Opcode::PopGlobal => step_pop_global(data, m),
                Opcode::PopStack => step_pop_stack(data, m),
                Opcode::PopGlobalTable => step_pop_global_table(data, m),
                Opcode::PopLocalTable => step_pop_local_table(data, m),
                Opcode::Neg => step_neg(m),
                _ => step_binop(m, op),
            },
        }
    }
}

/// A successful interpretation step always advances the cursor.
pub proof fn lemma_interp_step_advances(data: Seq<u8>, sys: Seq<SyscallV>, m: MachV)
    ensures
        interp_step(data, sys, m) matches Ok(m2) ==> m2.pos > m.pos,
{
}

/// The interpretation pass from the state's cursor to the stream end.
pub open spec fn interp_run(data: Seq<u8>, sys: Seq<SyscallV>, end: int, m: MachV) -> Result<
    MachV,
    DisasmError,
>
    decreases (if m.pos < end { end - m.pos } else { 0 }),
{
    if m.pos >= end {
        Ok(m)
    } else {
        match interp_step(data, sys, m) {
            Err(e) => Err(e),
            Ok(m2) => if m2.pos > m.pos {
                interp_run(data, sys, end, m2)
            } else {
                Err(DisasmError::OutOfBounds { offset: m.pos as usize })
            },
        }
    }
}

/// The whole run: the discovery pass walks the stream from the current
/// cursor, then the interpretation pass walks it again from just past the
/// header, with the routine table discovery produced and no active routine.
pub open spec fn disassemble_spec(data: Seq<u8>, sys: Seq<SyscallV>, end: int, m: MachV) -> Result<
    MachV,
    DisasmError,
> {
    match discover_run(data, end, m.pos, m.funcs) {
        Err(e) => Err(e),
        Ok((c1, f1)) => interp_run(
            data,
            sys,
            end,
            MachV { pos: HEADER_BYTES as int, funcs: f1, cur: None, an: None },
        ),
    }
}

/// The discovery pass aborts on an opcode outside the known set, because
/// the instruction's length cannot be guessed; the interpretation pass
/// treats the same byte as a one-byte skip and continues.
pub proof fn lemma_unknown_opcode_policy(
    data: Seq<u8>,
    sys: Seq<SyscallV>,
    funcs: Seq<FuncV>,
    m: MachV,
)
    requires
        0 <= m.pos < data.len(),
        spec_opcode(data[m.pos]) is None,
    ensures
        discover_step(data, m.pos, funcs) == Err::<(int, Seq<FuncV>), DisasmError>(
            DisasmError::UnknownOpcode { opcode: data[m.pos] },
        ),
        interp_step(data, sys, m) == Ok::<MachV, DisasmError>(with_pos(m, m.pos + 1)),
{
}

/// On any one instruction, a successful discovery step and a successful
/// interpretation step advance the cursor to the same position.
pub proof fn lemma_step_cursor_align(data: Seq<u8>, sys: Seq<SyscallV>, funcs: Seq<FuncV>, m: MachV)
    ensures
        match (discover_step(data, m.pos, funcs), interp_step(data, sys, m)) {
            (Ok(r1), Ok(m2)) => m2.pos == r1.0,
            _ => true,
        },
{
}

/// Run over the same stream from the same starting cursor, the two passes
/// finish at exactly the same final cursor whenever both succeed.
pub proof fn lemma_runs_cursor_agree(
    data: Seq<u8>,
    sys: Seq<SyscallV>,
    end: int,
    pos: int,
    funcs: Seq<FuncV>,
    m: MachV,
)
    requires
        m.pos == pos,
    ensures
        match (discover_run(data, end, pos, funcs), interp_run(data, sys, end, m)) {
            (Ok(r1), Ok(m2)) => m2.pos == r1.0,
            _ => true,
        },
    decreases (if pos < end { end - pos } else { 0 }),
{
    if pos < end {
        match (discover_step(data, pos, funcs), interp_step(data, sys, m)) {
            (Ok(r1), Ok(m2)) => {
                lemma_step_cursor_align(data, sys, funcs, m);
                lemma_discover_step_advances(data, pos, funcs);
                lemma_interp_step_advances(data, sys, m);
                lemma_runs_cursor_agree(data, sys, end, r1.0, r1.1, m2);
            },
            _ => {},
        }
    }
}

/// A completed discovery pass never stops short of the stream end.
pub proof fn lemma_discover_run_reaches_end(data: Seq<u8>, end: int, pos: int, funcs: Seq<FuncV>)
    requires
        pos <= end,
    ensures
        discover_run(data, end, pos, funcs) matches Ok(r) ==> r.0 >= end,
    decreases (if pos < end { end - pos } else { 0 }),
{
    if pos < end {
        match discover_step(data, pos, funcs) {
            Ok(r2) => {
                lemma_discover_step_advances(data, pos, funcs);
                if r2.0 > pos {
                    if r2.0 <= end {
                        lemma_discover_run_reaches_end(data, end, r2.0, r2.1);
                    } else {
                        lemma_discover_run_past_end(data, end, r2.0, r2.1);
                    }
                }
            },
            Err(_) => {},
        }
    }
}

/// Starting at or past the stream end, a run ends where it started.
pub proof fn lemma_discover_run_past_end(data: Seq<u8>, end: int, pos: int, funcs: Seq<FuncV>)
    requires
        pos >= end,
    ensures
        discover_run(data, end, pos, funcs) == Ok::<(int, Seq<FuncV>), DisasmError>((pos, funcs)),
{
}

/// The cursor round-trip of the whole run: when the discovery pass ends at
/// some final cursor and the interpretation pass that follows it also
/// completes, the interpretation pass ends at that same cursor.
pub proof fn lemma_two_pass_cursor_round_trip(
    data: Seq<u8>,
    sys: Seq<SyscallV>,
    end: int,
    m0: MachV,
)
    requires
        m0.pos == HEADER_BYTES as int,
    ensures
        match (discover_run(data, end, m0.pos, m0.funcs), disassemble_spec(data, sys, end, m0)) {
            (Ok(r1), Ok(m2)) => m2.pos == r1.0,
            _ => true,
        },
{
    match discover_run(data, end, m0.pos, m0.funcs) {
        Ok(r1) => {
            let m1 = MachV {
                pos: HEADER_BYTES as int,
                funcs: r1.1,
                cur: None,
                an: None,
            };
            lemma_runs_cursor_agree(data, sys, end, m0.pos, m0.funcs, m1);
        },
        Err(_) => {},
    }
}

/// The entry addresses of a routine table, in strictly increasing order.
pub open spec fn addrs_increasing(funcs: Seq<FuncV>) -> bool {
    forall|i: int, j: int| 0 <= i < j < funcs.len() ==> #[trigger] funcs[i].addr < #[trigger] funcs[j].addr
}

/// The discovery pass records one routine per distinct entry address: it
/// walks the stream forward, so the addresses it records are strictly
/// increasing.
pub proof fn lemma_discover_run_addrs_increasing(
    data: Seq<u8>,
    end: int,
    pos: int,
    funcs: Seq<FuncV>,
)
    requires
        data.len() <= 0xFFFF_FFFF,
        end <= data.len(),
        0 <= pos,
        addrs_increasing(funcs),
        forall|i: int| 0 <= i < funcs.len() ==> (#[trigger] funcs[i].addr as int) < pos,
    ensures
        discover_run(data, end, pos, funcs) matches Ok(r) ==> addrs_increasing(r.1),
    decreases (if pos < end { end - pos } else { 0 }),
{
    if pos < end {
        match discover_step(data, pos, funcs) {
            Ok(r2) => {
                lemma_discover_step_advances(data, pos, funcs);
                if r2.0 > pos {
                    assert(addrs_increasing(r2.1)) by {
                        if r2.1.len() == funcs.len() + 1 {
                            assert forall|i: int, j: int|
                                0 <= i < j < r2.1.len() implies #[trigger] r2.1[i].addr
                                < #[trigger] r2.1[j].addr by {
                                if j < funcs.len() {
                                    assert(r2.1[i] == funcs[i]);
                                    assert(r2.1[j] == funcs[j]);
                                } else {
                                    assert(r2.1[i] == funcs[i]);
                                    assert(r2.1[j].addr == pos as u32);
                                }
                            }
                        }
                    }
                    assert(forall|i: int| 0 <= i < r2.1.len() ==> (#[trigger] r2.1[i].addr as int)
                        < r2.0);
                    lemma_discover_run_addrs_increasing(data, end, r2.0, r2.1);
                }
            },
            Err(_) => {},
        }
    }
}

/// Pushing keeps the analyzer well formed: the fixed local slots are
/// untouched and the depth only grows.
pub proof fn lemma_av_push_wf(a: AnalyzerV)
    requires
        av_wf(a),
    ensures
        forall|v: NamedV| av_wf(#[trigger] av_push(a, v)) && av_push(a, v).locals == a.locals,
{
    assert forall|v: NamedV| av_wf(#[trigger] av_push(a, v)) && av_push(a, v).locals
        == a.locals by {
        assert forall|i: int| 0 <= i < a.locals implies av_push(a, v).slots[i] == placeholder_slot(
            i as nat,
        ) by {
            assert(av_push(a, v).slots[i] == a.slots[i]);
        }
    }
}

/// Popping keeps the analyzer well formed: it fails before the depth could
/// drop below the declared locals, so the fixed slots stay intact.
pub proof fn lemma_av_pop_wf(a: AnalyzerV)
    requires
        av_wf(a),
    ensures
        av_pop(a) matches Ok(r) ==> av_wf(r.0) && r.0.locals == a.locals,
{
    match av_pop(a) {
        Ok(r) => {
            assert forall|i: int| 0 <= i < r.0.locals implies r.0.slots[i] == placeholder_slot(
                i as nat,
            ) by {
                assert(r.0.slots[i] == a.slots[i]);
            }
        },
        Err(_) => {},
    }
}

/// Popping `n` operands keeps the analyzer well formed and returns exactly
/// `n` references.
pub proof fn lemma_av_pop_n_wf(a: AnalyzerV, n: nat)
    requires
        av_wf(a),
    ensures
        av_pop_n(a, n) matches Ok(r) ==> av_wf(r.0) && r.0.locals == a.locals && r.1.len() == n,
    decreases n,
{
    if n > 0 {
        lemma_av_pop_wf(a);
        match av_pop(a) {
            Ok(r2) => {
                lemma_av_pop_n_wf(r2.0, (n - 1) as nat);
            },
            Err(_) => {},
        }
    }
}

/// A freshly seeded analyzer is well formed.
pub proof fn lemma_placeholders_wf(locals: nat, args: nat)
    ensures
        av_wf(AnalyzerV { locals, args, slots: placeholders(locals) }),
{
}

/// The safety invariant of the symbolic stack: one interpretation step
/// never lets the operand area reach into the fixed local slots, and the
/// local slots keep their placeholders.
pub proof fn lemma_interp_step_preserves_wf(data: Seq<u8>, sys: Seq<SyscallV>, m: MachV)
    requires
        mach_wf(m),
    ensures
        interp_step(data, sys, m) matches Ok(m2) ==> mach_wf(m2),
{
    if 0 <= m.pos < data.len() {
        match spec_opcode(data[m.pos]) {
            None => {},
            Some(op) => {
                match m.an {
                    Some(a) => {
                        lemma_av_push_wf(a);
                        lemma_av_pop_wf(a);
                        match av_pop(a) {
                            Ok(r1) => {
                                lemma_av_push_wf(r1.0);
                                lemma_av_pop_wf(r1.0);
                                match av_pop(r1.0) {
                                    Ok(r2) => {
                                        lemma_av_push_wf(r2.0);
                                        lemma_av_pop_wf(r2.0);
                                    },
                                    Err(_) => {},
                                }
                            },
                            Err(_) => {},
                        }
                        match op {
                            Opcode::Call => {
                                lemma_find_func(m.funcs, le_u32(data, m.pos + 1));
                                match find_func(m.funcs, le_u32(data, m.pos + 1)) {
                                    Some(i) => {
                                        lemma_av_pop_n_wf(a, m.funcs[i].args as nat);
                                    },
                                    None => {},
                                }
                            },
                            Opcode::Syscall => {
                                let id = le_u16(data, m.pos + 1);
                                if (id as int) < sys.len() {
                                    lemma_av_pop_n_wf(a, sys[id as int].args as nat);
                                }
                            },
                            _ => {},
                        }
                    },
                    None => {},
                }
                match op {
                    Opcode::InitStack => {
                        lemma_find_func(m.funcs, m.pos as u32);
                        match find_func(m.funcs, m.pos as u32) {
                            Some(i) => {
                                lemma_placeholders_wf(
                                    m.funcs[i].locals as nat,
                                    m.funcs[i].args as nat,
                                );
                            },
                            None => {},
                        }
                    },
                    _ => {},
                }
            },
        }
    }
}

/// The stack-safety invariant holds across a whole interpretation run.
pub proof fn lemma_interp_run_preserves_wf(data: Seq<u8>, sys: Seq<SyscallV>, end: int, m: MachV)
    requires
        mach_wf(m),
    ensures
        interp_run(data, sys, end, m) matches Ok(m2) ==> mach_wf(m2),
    decreases (if m.pos < end { end - m.pos } else { 0 }),
{
    if m.pos < end {
        match interp_step(data, sys, m) {
            Ok(m2) => {
                lemma_interp_step_preserves_wf(data, sys, m);
                lemma_interp_step_advances(data, sys, m);
                if m2.pos > m.pos {
                    lemma_interp_run_preserves_wf(data, sys, end, m2);
                }
            },
            Err(_) => {},
        }
    }
}

/// Two routine tables with the same signatures: same length and, slot for
/// slot, the same entry address and declared counts.
pub open spec fn same_signatures(f1: Seq<FuncV>, f2: Seq<FuncV>) -> bool {
    &&& f1.len() == f2.len()
    &&& forall|i: int| 0 <= i < f1.len() ==> #[trigger] f2[i].addr == f1[i].addr && f2[i].args
        == f1[i].args && f2[i].locals == f1[i].locals
}

/// Address lookup depends on the signatures alone.
pub proof fn lemma_find_func_same_signatures(f1: Seq<FuncV>, f2: Seq<FuncV>, addr: u32)
    requires
        same_signatures(f1, f2),
    ensures
        find_func(f1, addr) == find_func(f2, addr),
    decreases f1.len(),
{
    if f1.len() > 0 {
        assert(f2[0].addr == f1[0].addr);
        assert forall|i: int| 0 <= i < f1.drop_first().len() implies #[trigger] f2.drop_first()[i].addr
            == f1.drop_first()[i].addr && f2.drop_first()[i].args == f1.drop_first()[i].args
            && f2.drop_first()[i].locals == f1.drop_first()[i].locals by {
            assert(f1.drop_first()[i] == f1[i + 1]);
            assert(f2.drop_first()[i] == f2[i + 1]);
            assert(f2[i + 1].addr == f1[i + 1].addr);
        }
        lemma_find_func_same_signatures(f1.drop_first(), f2.drop_first(), addr);
    }
}

/// Whether one statement respects call arity: a call statement carries
/// exactly as many arguments as its callee's declared argument count.
pub open spec fn arity_ok_stmt(funcs: Seq<FuncV>, s: StmtV) -> bool {
    match s {
        StmtV::Call { target, args, .. } => match find_func(funcs, target) {
            Some(i) => args.len() == funcs[i].args,
            None => false,
        },
        _ => true,
    }
}

/// Whether every statement of every routine respects call arity.
pub open spec fn calls_arity_ok(funcs: Seq<FuncV>) -> bool {
    forall|k: int, j: int| 0 <= k < funcs.len() && 0 <= j < funcs[k].stmts.len()
        ==> arity_ok_stmt(funcs, #[trigger] funcs[k].stmts[j])
}

/// Appending one arity-respecting statement to the active routine keeps
/// the whole table arity-respecting, and never changes the signatures.
pub proof fn lemma_append_stmt_arity(m: MachV, stmt: StmtV)
    requires
        calls_arity_ok(m.funcs),
        arity_ok_stmt(m.funcs, stmt),
    ensures
        append_stmt(m, stmt) matches Ok(f2) ==> same_signatures(m.funcs, f2) && calls_arity_ok(f2),
{
    match m.cur {
        Some(addr) => {
            lemma_find_func(m.funcs, addr);
            match find_func(m.funcs, addr) {
                Some(i) => {
                    let f2 = append_stmt(m, stmt).unwrap();
                    assert(same_signatures(m.funcs, f2));
                    assert forall|k: int, j: int|
                        0 <= k < f2.len() && 0 <= j < f2[k].stmts.len() implies arity_ok_stmt(
                        f2,
                        #[trigger] f2[k].stmts[j],
                    ) by {
                        let s = f2[k].stmts[j];
                        if k == i && j == f2[k].stmts.len() - 1 {
                            assert(s == stmt);
                        } else {
                            assert(s == m.funcs[k].stmts[j]);
                            assert(arity_ok_stmt(m.funcs, s));
                        }
                        match s {
                            StmtV::Call { target, args, .. } => {
                                lemma_find_func_same_signatures(m.funcs, f2, target);
                                lemma_find_func(m.funcs, target);
                                match find_func(m.funcs, target) {
                                    Some(t) => {
                                        assert(f2[t].args == m.funcs[t].args);
                                    },
                                    None => {},
                                }
                            },
                            _ => {},
                        }
                    }
                },
                None => {},
            }
        },
        None => {},
    }
}

/// One interpretation step keeps every statement arity-respecting and the
/// signatures unchanged. In particular, the call handler pops exactly the
/// callee's declared number of arguments into the statement it emits.
pub proof fn lemma_interp_step_call_arity(data: Seq<u8>, sys: Seq<SyscallV>, m: MachV)
    requires
        calls_arity_ok(m.funcs),
    ensures
        interp_step(data, sys, m) matches Ok(m2) ==> same_signatures(m.funcs, m2.funcs)
            && calls_arity_ok(m2.funcs),
{
    if 0 <= m.pos < data.len() {
        match spec_opcode(data[m.pos]) {
            None => {},
            Some(op) => {
                match op {
                    Opcode::Call => {
                        if m.pos + 5 <= data.len() {
                            let target = le_u32(data, m.pos + 1);
                            match find_func(m.funcs, target) {
                                Some(i) => {
                                    lemma_find_func(m.funcs, target);
                                    match m.an {
                                        Some(a) => {
                                            match av_pop_n(a, m.funcs[i].args as nat) {
                                                Ok(r) => {
                                                    lemma_av_pop_n_len(a, m.funcs[i].args as nat);
                                                    let stmt = StmtV::Call {
                                                        address: m.pos as u32,
                                                        target,
                                                        args: r.1,
                                                    };
                                                    assert(arity_ok_stmt(m.funcs, stmt));
                                                    lemma_append_stmt_arity(m, stmt);
                                                },
                                                Err(_) => {},
                                            }
                                        },
                                        None => {},
                                    }
                                },
                                None => {},
                            }
                        }
                    },
                    Opcode::Syscall => {
                        if m.pos + 3 <= data.len() {
                            let id = le_u16(data, m.pos + 1);
                            if (id as int) < sys.len() {
                                match m.an {
                                    Some(a) => {
                                        match av_pop_n(a, sys[id as int].args as nat) {
                                            Ok(r) => {
                                                let stmt = StmtV::Syscall {
                                                    address: m.pos as u32,
                                                    syscall_name: sys[id as int].name,
                                                    args: r.1,
                                                };
                                                lemma_append_stmt_arity(m, stmt);
                                            },
                                            Err(_) => {},
                                        }
                                    },
                                    None => {},
                                }
                            }
                        }
                    },
                    Opcode::Ret => {
                        lemma_append_stmt_arity(
                            m,
                            StmtV::Return { address: m.pos as u32, has_value: false },
                        );
                    },
                    Opcode::RetV => {
                        lemma_append_stmt_arity(
                            m,
                            StmtV::Return { address: m.pos as u32, has_value: true },
                        );
                    },
                    Opcode::Jmp => {
                        if m.pos + 5 <= data.len() {
                            lemma_append_stmt_arity(
                                m,
                                StmtV::Jmp { address: m.pos as u32, target: le_u32(data, m.pos + 1) },
                            );
                        }
                    },
                    Opcode::Jz => {
                        if m.pos + 5 <= data.len() {
                            match m.an {
                                Some(a) => {
                                    match av_pop(a) {
                                        Ok(r) => {
                                            lemma_append_stmt_arity(
                                                m,
                                                StmtV::Jz {
                                                    address: m.pos as u32,
                                                    target: le_u32(data, m.pos + 1),
                                                    condition: r.1,
                                                },
                                            );
                                        },
                                        Err(_) => {},
                                    }
                                },
                                None => {},
                            }
                        }
                    },
                    Opcode::PopGlobal => {
                        if m.pos + 3 <= data.len() {
                            match m.an {
                                Some(a) => {
                                    match av_pop(a) {
                                        Ok(r) => {
                                            lemma_append_stmt_arity(
                                                m,
                                                StmtV::Assign {
                                                    address: m.pos as u32,
                                                    target: NamedV::Global {
                                                        slot: le_u16(data, m.pos + 1) as u32,
                                                    },
                                                    value: r.1,
                                                },
                                            );
                                        },
                                        Err(_) => {},
                                    }
                                },
                                None => {},
                            }
                        }
                    },
                    Opcode::PopStack => {
                        if m.pos + 2 <= data.len() {
                            match m.an {
                                Some(a) => {
                                    match av_pop(a) {
                                        Ok(r) => {
                                            match av_get(r.0, as_i8(data[m.pos + 1])) {
                                                Ok(target) => {
                                                    lemma_append_stmt_arity(
                                                        m,
                                                        StmtV::Assign {
                                                            address: m.pos as u32,
                                                            target,
                                                            value: r.1,
                                                        },
                                                    );
                                                },
                                                Err(_) => {},
                                            }
                                        },
                                        Err(_) => {},
                                    }
                                },
                                None => {},
                            }
                        }
                    },
                    Opcode::PopGlobalTable => {
                        if m.pos + 3 <= data.len() {
                            match m.an {
                                Some(a) => {
                                    match av_pop(a) {
                                        Ok(r1) => {
                                            match av_pop(r1.0) {
                                                Ok(r2) => {
                                                    let access = StmtV::GlobalTableAccess {
                                                        address: m.pos as u32,
                                                        tlb: NamedV::Global {
                                                            slot: le_u16(data, m.pos + 1) as u32,
                                                        },
                                                        slot: r2.1,
                                                    };
                                                    lemma_append_stmt_arity(
                                                        m,
                                                        StmtV::Assign {
                                                            address: m.pos as u32,
                                                            target: NamedV::Expr {
                                                                expr: Box::new(access),
                                                            },
                                                            value: r1.1,
                                                        },
                                                    );
                                                },
                                                Err(_) => {},
                                            }
                                        },
                                        Err(_) => {},
                                    }
                                },
                                None => {},
                            }
                        }
                    },
                    Opcode::PopLocalTable => {
                        if m.pos + 2 <= data.len() {
                            match m.an {
                                Some(a) => {
                                    match av_pop(a) {
                                        Ok(r1) => {
                                            match av_pop(r1.0) {
                                                Ok(r2) => {
                                                    match av_get(r2.0, as_i8(data[m.pos + 1])) {
                                                        Ok(table) => {
                                                            let access = StmtV::LocalTableAccess {
                                                                address: m.pos as u32,
                                                                tlb: table,
                                                                slot: r2.1,
                                                            };
                                                            lemma_append_stmt_arity(
                                                                m,
                                                                StmtV::Assign {
                                                                    address: m.pos as u32,
                                                                    target: NamedV::Expr {
                                                                        expr: Box::new(access),
                                                                    },
                                                                    value: r1.1,
                                                                },
                                                            );
                                                        },
                                                        Err(_) => {},
                                                    }
                                                },
                                                Err(_) => {},
                                            }
                                        },
                                        Err(_) => {},
                                    }
                                },
                                None => {},
                            }
                        }
                    },
                    _ => {},
                }
            },
        }
    }
}

/// The operand order of the binary operators: with at least two operands
/// on the stack, the emitted operation takes the next-to-top entry as its
/// left-hand side and the top entry as its right-hand side — the
/// right-hand operand is popped first, mirroring the push order.
pub proof fn lemma_binop_operand_order(m: MachV, op: Opcode, a: AnalyzerV)
    requires
        is_binop(op),
        m.an == Some(a),
        a.slots.len() >= a.locals + 2,
    ensures
        ({
            let lhs = a.slots[a.slots.len() - 2];
            let rhs = a.slots[a.slots.len() - 1];
            let stmt = StmtV::BinaryOp { address: m.pos as u32, op: binop_name(op), lhs, rhs };
            let slots2 = a.slots.drop_last().drop_last().push(
                NamedV::Expr { expr: Box::new(stmt) },
            );
            step_binop(m, op) == Ok::<MachV, DisasmError>(
                MachV {
                    pos: m.pos + 1,
                    funcs: m.funcs,
                    cur: m.cur,
                    an: Some(AnalyzerV { locals: a.locals, args: a.args, slots: slots2 }),
                },
            )
        }),
{
    assert(a.slots.drop_last().last() == a.slots[a.slots.len() - 2]);
}

/// Popping `n` operands returns exactly `n` references.
pub proof fn lemma_av_pop_n_len(a: AnalyzerV, n: nat)
    ensures
        av_pop_n(a, n) matches Ok(r) ==> r.1.len() == n,
    decreases n,
{
    if n > 0 {
        match av_pop(a) {
            Ok(r2) => {
                lemma_av_pop_n_len(r2.0, (n - 1) as nat);
            },
            Err(_) => {},
        }
    }
}

/// Call arity holds across a whole interpretation run.
pub proof fn lemma_interp_run_call_arity(data: Seq<u8>, sys: Seq<SyscallV>, end: int, m: MachV)
    requires
        calls_arity_ok(m.funcs),
    ensures
        interp_run(data, sys, end, m) matches Ok(m2) ==> calls_arity_ok(m2.funcs),
    decreases (if m.pos < end { end - m.pos } else { 0 }),
{
    if m.pos < end {
        match interp_step(data, sys, m) {
            Ok(m2) => {
                lemma_interp_step_call_arity(data, sys, m);
                lemma_interp_step_advances(data, sys, m);
                if m2.pos > m.pos {
                    lemma_interp_run_call_arity(data, sys, end, m2);
                }
            },
            Err(_) => {},
        }
    }
}

/// The discovery pass only records routines with empty statement lists.
pub proof fn lemma_discover_run_stmts_empty(data: Seq<u8>, end: int, pos: int, funcs: Seq<FuncV>)
    requires
        forall|k: int| 0 <= k < funcs.len() ==> #[trigger] funcs[k].stmts.len() == 0,
    ensures
        discover_run(data, end, pos, funcs) matches Ok(r) ==> forall|k: int|
            0 <= k < r.1.len() ==> #[trigger] r.1[k].stmts.len() == 0,
    decreases (if pos < end { end - pos } else { 0 }),
{
    if pos < end {
        match discover_step(data, pos, funcs) {
            Ok(r2) => {
                lemma_discover_step_advances(data, pos, funcs);
                if r2.0 > pos {
                    lemma_discover_run_stmts_empty(data, end, r2.0, r2.1);
                }
            },
            Err(_) => {},
        }
    }
}

/// Call arity over the whole run: starting from an empty routine table,
/// every call statement of every routine the run produces carries exactly
/// as many arguments as its callee's declared argument count.
pub proof fn lemma_disassemble_call_arity(data: Seq<u8>, sys: Seq<SyscallV>, end: int, m0: MachV)
    requires
        m0.funcs.len() == 0,
    ensures
        disassemble_spec(data, sys, end, m0) matches Ok(m2) ==> calls_arity_ok(m2.funcs),
{
    match discover_run(data, end, m0.pos, m0.funcs) {
        Ok(r1) => {
            lemma_discover_run_stmts_empty(data, end, m0.pos, m0.funcs);
            let m1 = MachV {
                pos: HEADER_BYTES as int,
                funcs: r1.1,
                cur: None,
                an: None,
            };
            assert(calls_arity_ok(m1.funcs));
            lemma_interp_run_call_arity(data, sys, end, m1);
        },
        Err(_) => {},
    }
}

} // verus!
