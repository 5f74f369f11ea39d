//! The disassembler: owns the byte cursor and the routine table, and drives
//! the two passes over the routine stream. The discovery pass records every
//! routine's entry address and declared counts; the interpretation pass
//! re-walks the stream, symbolically executing each opcode against the
//! active routine's stack analyzer and appending the emitted statements.
//! Every step is proved equal to its spec-level transition.

use vstd::prelude::*;

use crate::error::DisasmError;
use crate::ir::Statement;
use crate::ir::StmtV;
use crate::ir::stmt_view;
use crate::scenario::Scenario;
use crate::scenario::SyscallV;
use crate::semantics::FuncV;
use crate::semantics::HEADER_BYTES;
use crate::semantics::MachV;
use crate::semantics::Opcode;
use crate::semantics::binop_name;
use crate::semantics::find_func;
use crate::semantics::lemma_find_func;
use crate::semantics::spec_opcode;
use crate::semantics::discover_step;
use crate::semantics::lemma_discover_step_advances;
use crate::semantics::lemma_interp_step_advances;
use crate::semantics::discover_run;
use crate::semantics::interp_step;
use crate::semantics::interp_run;
use crate::semantics::disassemble_spec;
use crate::semantics::with_pos;
use crate::semantics::av_pop_n;
use crate::semantics::placeholders;
use crate::semantics::step_binop;
use crate::semantics::step_call;
use crate::semantics::step_init_stack;
use crate::semantics::step_jmp;
use crate::semantics::step_jz;
use crate::semantics::step_neg;
use crate::semantics::step_pop_global;
use crate::semantics::step_pop_global_table;
use crate::semantics::step_pop_local_table;
use crate::semantics::step_pop_stack;
use crate::semantics::step_push_const;
use crate::semantics::step_push_f32;
use crate::semantics::step_push_global;
use crate::semantics::step_push_global_table;
use crate::semantics::step_push_i16;
use crate::semantics::step_push_i32;
use crate::semantics::step_push_i8;
use crate::semantics::step_push_local_table;
use crate::semantics::step_push_return;
use crate::semantics::step_push_stack;
use crate::semantics::step_push_string;
use crate::semantics::step_push_top;
use crate::semantics::step_ret;
use crate::semantics::step_syscall;
use crate::ir::NamedVariant;
use crate::ir::named_seq_view;
use crate::ir::named_view;
use crate::ir::lemma_named_seq_view;
use crate::ir::VariantV;
use crate::stack::StackAnalyzer;

verus! {

/// One discovered routine: its entry address, declared counts, and the
/// statements emitted for it during the interpretation pass.
#[derive(Debug)]
pub struct Function {
    pub address: u32,
    pub args_count: u8,
    pub locals_count: u8,
    pub statements: Vec<Statement>,
}

/// Model of a sequence of statements, elementwise.
pub open spec fn stmt_seq_view(s: Seq<Statement>) -> Seq<StmtV>
    decreases s,
{
    if s.len() == 0 {
        Seq::<StmtV>::empty()
    } else {
        stmt_seq_view(s.drop_last()).push(stmt_view(s.last()))
    }
}

/// `stmt_seq_view` maps the sequence elementwise.
pub proof fn lemma_stmt_seq_view(s: Seq<Statement>)
    ensures
        stmt_seq_view(s).len() == s.len(),
        forall|i: int| 0 <= i < s.len() ==> stmt_seq_view(s)[i] == stmt_view(s[i]),
    decreases s.len(),
{
    if s.len() > 0 {
        lemma_stmt_seq_view(s.drop_last());
        assert forall|i: int| 0 <= i < s.len() implies stmt_seq_view(s)[i] == stmt_view(s[i]) by {
            if i < s.len() - 1 {
                assert(stmt_seq_view(s.drop_last())[i] == stmt_view(s.drop_last()[i]));
            }
        }
    }
}

/// Appending one statement appends its model.
pub proof fn lemma_stmt_seq_view_push(s: Seq<Statement>, x: Statement)
    ensures
        stmt_seq_view(s.push(x)) == stmt_seq_view(s).push(stmt_view(x)),
{
    assert(s.push(x).drop_last() =~= s);
    assert(s.push(x).last() == x);
    assert(stmt_seq_view(s.push(x)) =~= stmt_seq_view(s).push(stmt_view(x)));
}

/// Model of a `Function` value.
pub open spec fn func_view(f: Function) -> FuncV {
    FuncV {
        addr: f.address,
        args: f.args_count,
        locals: f.locals_count,
        stmts: stmt_seq_view(f.statements@),
    }
}

/// Model of the routine table, elementwise.
pub open spec fn funcs_view(s: Seq<Function>) -> Seq<FuncV>
    decreases s,
{
    if s.len() == 0 {
        Seq::<FuncV>::empty()
    } else {
        funcs_view(s.drop_last()).push(func_view(s.last()))
    }
}

/// `funcs_view` maps the table elementwise.
pub proof fn lemma_funcs_view(s: Seq<Function>)
    ensures
        funcs_view(s).len() == s.len(),
        forall|i: int| 0 <= i < s.len() ==> funcs_view(s)[i] == func_view(s[i]),
    decreases s.len(),
{
    if s.len() > 0 {
        lemma_funcs_view(s.drop_last());
        assert forall|i: int| 0 <= i < s.len() implies funcs_view(s)[i] == func_view(s[i]) by {
            if i < s.len() - 1 {
                assert(funcs_view(s.drop_last())[i] == func_view(s.drop_last()[i]));
            }
        }
    }
}

/// Appending one routine appends its model.
pub proof fn lemma_funcs_view_push(s: Seq<Function>, x: Function)
    ensures
        funcs_view(s.push(x)) == funcs_view(s).push(func_view(x)),
{
    assert(s.push(x).drop_last() =~= s);
    assert(s.push(x).last() == x);
    assert(funcs_view(s.push(x)) =~= funcs_view(s).push(func_view(x)));
}

/// Replacing one routine updates its model in place.
pub proof fn lemma_funcs_view_update(s: Seq<Function>, i: int, x: Function)
    requires
        0 <= i < s.len(),
    ensures
        funcs_view(s.update(i, x)) == funcs_view(s).update(i, func_view(x)),
{
    lemma_funcs_view(s);
    lemma_funcs_view(s.update(i, x));
    assert(funcs_view(s.update(i, x)) =~= funcs_view(s).update(i, func_view(x)));
}

/// Decodes one opcode byte.
pub fn opcode_from_u8(b: u8) -> (r: Option<Opcode>)
    ensures
        r == spec_opcode(b),
{
    match b {
        0x00 => Some(Opcode::Nop),
        0x01 => Some(Opcode::InitStack),
        0x02 => Some(Opcode::Call),
        0x03 => Some(Opcode::Syscall),
        0x04 => Some(Opcode::Ret),
        0x05 => Some(Opcode::RetV),
        0x06 => Some(Opcode::Jmp),
        0x07 => Some(Opcode::Jz),
        0x08 => Some(Opcode::PushNil),
        0x09 => Some(Opcode::PushTrue),
        0x0A => Some(Opcode::PushI32),
        0x0B => Some(Opcode::PushI16),
        0x0C => Some(Opcode::PushI8),
        0x0D => Some(Opcode::PushF32),
        0x0E => Some(Opcode::PushString),
        0x0F => Some(Opcode::PushGlobal),
        0x10 => Some(Opcode::PushStack),
        0x11 => Some(Opcode::PushGlobalTable),
        0x12 => Some(Opcode::PushLocalTable),
        0x13 => Some(Opcode::PushTop),
        0x14 => Some(Opcode::PushReturn),
        0x15 => Some(Opcode::PopGlobal),
        0x16 => Some(Opcode::PopStack),
        0x17 => Some(Opcode::PopGlobalTable),
        0x18 => Some(Opcode::PopLocalTable),
        0x19 => Some(Opcode::Neg),
        0x1A => Some(Opcode::Add),
        0x1B => Some(Opcode::Sub),
        0x1C => Some(Opcode::Mul),
        0x1D => Some(Opcode::Div),
        0x1E => Some(Opcode::Mod),
        0x1F => Some(Opcode::BitTest),
        0x20 => Some(Opcode::And),
        0x21 => Some(Opcode::Or),
        0x22 => Some(Opcode::SetE),
        0x23 => Some(Opcode::SetNE),
        0x24 => Some(Opcode::SetG),
        0x25 => Some(Opcode::SetLE),
        0x26 => Some(Opcode::SetL),
        0x27 => Some(Opcode::SetGE),
        _ => None,
    }
}

/// The rendered operator name of a binary-operator opcode (and the empty
/// string for any other opcode).
fn binop_str(op: Opcode) -> (r: &'static str)
    ensures
        r@ == binop_name(op),
{
    proof {
        reveal_strlit("");
    }
    let r = match op {
        Opcode::Add => "pvm_add",
        Opcode::Sub => "pvm_sub",
        Opcode::Mul => "pvm_mul",
        Opcode::Div => "pvm_div",
        Opcode::Mod => "pvm_mod",
        Opcode::BitTest => "pvm_bittest",
        Opcode::And => "pvm_and",
        Opcode::Or => "pvm_or",
        Opcode::SetE => "pvm_sete",
        Opcode::SetNE => "pvm_setne",
        Opcode::SetG => "pvm_setg",
        Opcode::SetLE => "pvm_setle",
        Opcode::SetL => "pvm_setl",
        Opcode::SetGE => "pvm_setge",
        _ => "",
    };
    proof {
        assert(""@ =~= Seq::<char>::empty());
    }
    r
}

/// The disassembler's state: the shared read-only scenario, the cursor,
/// the routine table, and the active routine's address and stack analyzer.
#[derive(Debug)]
pub struct Disassembler {
    scenario: Scenario,
    cursor: usize,
    functions: Vec<Function>,
    stack_analyzer: Option<StackAnalyzer>,
    current_function_address: Option<u32>,
}

impl Disassembler {
    /// The state's validity: a valid scenario and, if a routine is being
    /// interpreted, a well-formed stack analyzer.
    pub closed spec fn wf(&self) -> bool {
        &&& self.scenario.wf()
        &&& match self.stack_analyzer {
            Some(a) => a.wf(),
            None => true,
        }
    }

    /// The scenario's bytes.
    pub closed spec fn data(&self) -> Seq<u8> {
        self.scenario.bytes()
    }

    /// The scenario's syscall table.
    pub closed spec fn sys(&self) -> Seq<SyscallV> {
        self.scenario.sys()
    }

    /// The offset at which the routine stream ends.
    pub closed spec fn end(&self) -> int {
        self.scenario.end()
    }

    /// The machine-state model the spec transitions run over.
    pub closed spec fn mach(&self) -> MachV {
        MachV {
            pos: self.cursor as int,
            funcs: funcs_view(self.functions@),
            cur: self.current_function_address,
            an: match self.stack_analyzer {
                Some(a) => Some(a.av()),
                None => None,
            },
        }
    }

    /// Builds a disassembler over a loaded scenario, with the cursor just
    /// past the fixed header and no routine active.
    pub fn new(scenario: Scenario) -> (r: Self)
        requires
            scenario.wf(),
        ensures
            r.wf(),
            r.data() == scenario.bytes(),
            r.sys() == scenario.sys(),
            r.end() == scenario.end(),
            r.mach() == (MachV {
                pos: HEADER_BYTES as int,
                funcs: Seq::<FuncV>::empty(),
                cur: None::<u32>,
                an: None::<crate::stack::AnalyzerV>,
            }),
    {
        Disassembler {
            scenario,
            cursor: HEADER_BYTES,
            functions: Vec::new(),
            stack_analyzer: None,
            current_function_address: None,
        }
    }

    /// The shared scenario.
    pub fn get_scenario(&self) -> (r: &Scenario)
        ensures
            r.bytes() == self.data(),
            r.sys() == self.sys(),
            r.end() == self.end(),
    {
        &self.scenario
    }

    /// The routine table in discovery order.
    pub fn get_functions(&self) -> (r: &Vec<Function>)
        ensures
            funcs_view(r@) == self.mach().funcs,
    {
        &self.functions
    }

    /// The cursor (the program counter of the walk).
    pub fn get_pc(&self) -> (r: usize)
        ensures
            r as int == self.mach().pos,
    {
        self.cursor
    }

    /// Resets the walk: cursor back past the header, no active routine.
    fn rewind(&mut self)
        requires
            old(self).wf(),
        ensures
            final(self).wf(),
            final(self).data() == old(self).data(),
            final(self).sys() == old(self).sys(),
            final(self).end() == old(self).end(),
            final(self).mach() == (MachV {
                pos: HEADER_BYTES as int,
                funcs: old(self).mach().funcs,
                cur: None::<u32>,
                an: None::<crate::stack::AnalyzerV>,
            }),
    {
        self.cursor = HEADER_BYTES;
        self.current_function_address = None;
        self.stack_analyzer = None;
    }

    /// Finds the routine recorded for an entry address.
    fn find_function(functions: &Vec<Function>, address: u32) -> (r: Option<usize>)
        ensures
            match r {
                Some(i) => find_func(funcs_view(functions@), address) == Some(i as int),
                None => find_func(funcs_view(functions@), address) is None,
            },
    {
        proof {
            lemma_funcs_view(functions@);
            lemma_find_func(funcs_view(functions@), address);
        }
        let mut i: usize = 0;
        while i < functions.len()
            invariant
                i <= functions.len(),
                funcs_view(functions@).len() == functions@.len(),
                forall|j: int| 0 <= j < functions@.len() ==> funcs_view(functions@)[j]
                    == func_view(functions@[j]),
                forall|j: int| 0 <= j < i ==> funcs_view(functions@)[j].addr != address,
            decreases functions.len() - i,
        {
            if functions[i].address == address {
                proof {
                    lemma_find_func(funcs_view(functions@), address);
                    assert(funcs_view(functions@)[i as int].addr == address);
                    match find_func(funcs_view(functions@), address) {
                        None => {
                            assert(false);
                        },
                        Some(k) => {
                            if k < i {
                                assert(funcs_view(functions@)[k].addr != address);
                            } else if k > i {
                                assert(funcs_view(functions@)[i as int].addr != address);
                            }
                        },
                    }
                }
                return Some(i);
            }
            i = i + 1;
        }
        proof {
            lemma_find_func(funcs_view(functions@), address);
        }
        None
    }

    /// Appends a statement to the routine being interpreted.
    fn push_statement_to_current_function(&mut self, statement: Statement) -> (r: Result<
        (),
        DisasmError,
    >)
        requires
            old(self).wf(),
        ensures
            final(self).wf(),
            final(self).data() == old(self).data(),
            final(self).sys() == old(self).sys(),
            final(self).end() == old(self).end(),
            final(self).mach().pos == old(self).mach().pos,
            final(self).mach().cur == old(self).mach().cur,
            final(self).mach().an == old(self).mach().an,
            match crate::semantics::append_stmt(old(self).mach(), stmt_view(statement)) {
                Ok(f2) => r == Ok::<(), DisasmError>(()) && final(self).mach().funcs == f2,
                Err(e) => r == Err::<(), DisasmError>(e) && final(self).mach().funcs == old(
                    self,
                ).mach().funcs,
            },
    {
        match self.current_function_address {
            Some(addr) => {
                match Self::find_function(&self.functions, addr) {
                    Some(i) => {
                        proof {
                            lemma_funcs_view(self.functions@);
                            lemma_find_func(funcs_view(self.functions@), addr);
                        }
                        let ghost fs0 = self.functions@;
                        let mut f = self.functions.remove(i);
                        let ghost st0 = f.statements@;
                        f.statements.push(statement);
                        proof {
                            lemma_stmt_seq_view_push(st0, statement);
                        }
                        self.functions.insert(i, f);
                        proof {
                            assert(self.functions@ =~= fs0.update(
                                i as int,
                                self.functions@[i as int],
                            ));
                            lemma_funcs_view_update(fs0, i as int, self.functions@[i as int]);
                            lemma_funcs_view(fs0);
                        }
                        Ok(())
                    },
                    None => Err(DisasmError::RoutineNotFound { address: addr }),
                }
            },
            None => Err(DisasmError::NoActiveRoutine),
        }
    }

    /// Skips the one-byte no-operation instruction.
    pub fn nop(&mut self) -> (r: Result<(), DisasmError>)
        requires
            old(self).wf(),
            old(self).mach().pos < old(self).end(),
        ensures
            final(self).wf(),
            final(self).data() == old(self).data(),
            final(self).sys() == old(self).sys(),
            final(self).end() == old(self).end(),
            r == Ok::<(), DisasmError>(()),
            final(self).mach() == with_pos(old(self).mach(), old(self).mach().pos + 1),
    {
        proof {
            self.scenario.lemma_wf_bounds();
        }
        self.cursor = self.cursor + 1;
        Ok(())
    }

    /// Skips a one-byte instruction without interpreting it.
    pub fn one_byte_bypass(&mut self) -> (r: Result<(), DisasmError>)
        requires
            old(self).wf(),
            old(self).mach().pos < old(self).end(),
        ensures
            final(self).wf(),
            final(self).data() == old(self).data(),
            final(self).sys() == old(self).sys(),
            final(self).end() == old(self).end(),
            r == Ok::<(), DisasmError>(()),
            final(self).mach() == with_pos(old(self).mach(), old(self).mach().pos + 1),
    {
        proof {
            self.scenario.lemma_wf_bounds();
        }
        self.cursor = self.cursor + 1;
        Ok(())
    }

    /// Skips a two-byte instruction without interpreting it.
    pub fn two_bytes_bypass(&mut self) -> (r: Result<(), DisasmError>)
        requires
            old(self).wf(),
            old(self).mach().pos < old(self).end(),
        ensures
            final(self).wf(),
            final(self).data() == old(self).data(),
            final(self).sys() == old(self).sys(),
            final(self).end() == old(self).end(),
            r == Ok::<(), DisasmError>(()),
            final(self).mach() == with_pos(old(self).mach(), old(self).mach().pos + 2),
    {
        proof {
            self.scenario.lemma_wf_bounds();
        }
        self.cursor = self.cursor + 2;
        Ok(())
    }

    /// Skips a three-byte instruction without interpreting it.
    pub fn three_bytes_bypass(&mut self) -> (r: Result<(), DisasmError>)
        requires
            old(self).wf(),
            old(self).mach().pos < old(self).end(),
        ensures
            final(self).wf(),
            final(self).data() == old(self).data(),
            final(self).sys() == old(self).sys(),
            final(self).end() == old(self).end(),
            r == Ok::<(), DisasmError>(()),
            final(self).mach() == with_pos(old(self).mach(), old(self).mach().pos + 3),
    {
        proof {
            self.scenario.lemma_wf_bounds();
        }
        self.cursor = self.cursor + 3;
        Ok(())
    }

    /// Skips a five-byte instruction without interpreting it.
    pub fn five_bytes_bypass(&mut self) -> (r: Result<(), DisasmError>)
        requires
            old(self).wf(),
            old(self).mach().pos < old(self).end(),
        ensures
            final(self).wf(),
            final(self).data() == old(self).data(),
            final(self).sys() == old(self).sys(),
            final(self).end() == old(self).end(),
            r == Ok::<(), DisasmError>(()),
            final(self).mach() == with_pos(old(self).mach(), old(self).mach().pos + 5),
    {
        proof {
            self.scenario.lemma_wf_bounds();
        }
        self.cursor = self.cursor + 5;
        Ok(())
    }

    /// The discovery-pass handler for the init-stack opcode: reads the
    /// declared argument and local counts and records the routine keyed by
    /// the opcode's own address.
    pub fn init_stack_bypass(&mut self) -> (r: Result<(), DisasmError>)
        requires
            old(self).wf(),
            old(self).mach().pos < old(self).end(),
        ensures
            final(self).wf(),
            final(self).data() == old(self).data(),
            final(self).sys() == old(self).sys(),
            final(self).end() == old(self).end(),
            final(self).mach().cur == old(self).mach().cur,
            final(self).mach().an == old(self).mach().an,
            old(self).mach().pos + 1 >= old(self).data().len() ==> (r == Err::<(), DisasmError>(
                DisasmError::OutOfBounds { offset: (old(self).mach().pos + 1) as usize },
            ) && final(self).mach().funcs == old(self).mach().funcs),
            (old(self).mach().pos + 1 < old(self).data().len() && old(self).mach().pos + 2 >= old(
                self,
            ).data().len()) ==> (r == Err::<(), DisasmError>(
                DisasmError::OutOfBounds { offset: (old(self).mach().pos + 2) as usize },
            ) && final(self).mach().funcs == old(self).mach().funcs),
            old(self).mach().pos + 2 < old(self).data().len() ==> (r == Ok::<(), DisasmError>(())
                && final(self).mach().pos == old(self).mach().pos + 3 && final(self).mach().funcs
                == old(self).mach().funcs.push(
                FuncV {
                    addr: old(self).mach().pos as u32,
                    args: old(self).data()[old(self).mach().pos + 1],
                    locals: old(self).data()[old(self).mach().pos + 2],
                    stmts: Seq::<StmtV>::empty(),
                },
            )),
    {
        proof {
            self.scenario.lemma_wf_bounds();
        }
        let addr = self.cursor as u32;
        self.cursor = self.cursor + 1;
        let args_count = match self.scenario.read_u8(self.cursor) {
            Ok(v) => v,
            Err(e) => {
                return Err(e);
            },
        };
        self.cursor = self.cursor + 1;
        let locals_count = match self.scenario.read_u8(self.cursor) {
            Ok(v) => v,
            Err(e) => {
                return Err(e);
            },
        };
        self.cursor = self.cursor + 1;
        let ghost fs0 = self.functions@;
        self.functions.push(
            Function { address: addr, args_count, locals_count, statements: Vec::new() },
        );
        proof {
            lemma_funcs_view_push(fs0, self.functions@.last());
            assert(stmt_seq_view(Seq::<Statement>::empty()) =~= Seq::<StmtV>::empty());
        }
        Ok(())
    }

    /// The discovery-pass handler for the string push: skips the length
    /// prefix and that many bytes.
    pub fn push_string_bypass(&mut self) -> (r: Result<(), DisasmError>)
        requires
            old(self).wf(),
            old(self).mach().pos < old(self).end(),
        ensures
            final(self).wf(),
            final(self).data() == old(self).data(),
            final(self).sys() == old(self).sys(),
            final(self).end() == old(self).end(),
            final(self).mach().cur == old(self).mach().cur,
            final(self).mach().an == old(self).mach().an,
            final(self).mach().funcs == old(self).mach().funcs,
            old(self).mach().pos + 1 >= old(self).data().len() ==> r == Err::<(), DisasmError>(
                DisasmError::OutOfBounds { offset: (old(self).mach().pos + 1) as usize },
            ),
            old(self).mach().pos + 1 < old(self).data().len() ==> (r == Ok::<(), DisasmError>(())
                && final(self).mach().pos == old(self).mach().pos + 2 + old(self).data()[old(
                self,
            ).mach().pos + 1]),
    {
        proof {
            self.scenario.lemma_wf_bounds();
        }
        self.cursor = self.cursor + 1;
        let len = match self.scenario.read_u8(self.cursor) {
            Ok(v) => v,
            Err(e) => {
                return Err(e);
            },
        };
        self.cursor = self.cursor + 1;
        self.cursor = self.cursor + (len as usize);
        Ok(())
    }

    /// One step of the discovery pass: decodes the opcode at the cursor and
    /// skips the instruction, recording routines at init-stack opcodes. An
    /// opcode outside the known set aborts the pass, since the rest of the
    /// stream cannot be walked without knowing the instruction's length.
    pub fn routine_defination_pass(&mut self) -> (r: Result<(), DisasmError>)
        requires
            old(self).wf(),
            old(self).mach().pos < old(self).end(),
        ensures
            final(self).wf(),
            final(self).data() == old(self).data(),
            final(self).sys() == old(self).sys(),
            final(self).end() == old(self).end(),
            final(self).mach().cur == old(self).mach().cur,
            final(self).mach().an == old(self).mach().an,
            match discover_step(old(self).data(), old(self).mach().pos, old(self).mach().funcs) {
                Ok(r2) => r == Ok::<(), DisasmError>(()) && final(self).mach().pos == r2.0
                    && final(self).mach().funcs == r2.1,
                Err(e) => r == Err::<(), DisasmError>(e) && final(self).mach().funcs == old(
                    self,
                ).mach().funcs,
            },
    {
        proof {
            self.scenario.lemma_wf_bounds();
        }
        let opcode = match self.scenario.read_u8(self.cursor) {
            Ok(b) => b,
            Err(e) => {
                return Err(e);
            },
        };
        match opcode_from_u8(opcode) {
            Some(Opcode::Nop) => self.one_byte_bypass(),
            Some(Opcode::InitStack) => self.init_stack_bypass(),
            Some(Opcode::Call) => self.five_bytes_bypass(),
            Some(Opcode::Syscall) => self.three_bytes_bypass(),
            Some(Opcode::Ret) => self.one_byte_bypass(),
            Some(Opcode::RetV) => self.one_byte_bypass(),
            Some(Opcode::Jmp) => self.five_bytes_bypass(),
            Some(Opcode::Jz) => self.five_bytes_bypass(),
            Some(Opcode::PushNil) => self.one_byte_bypass(),
            Some(Opcode::PushTrue) => self.one_byte_bypass(),
            Some(Opcode::PushI32) => self.five_bytes_bypass(),
            Some(Opcode::PushI16) => self.three_bytes_bypass(),
            Some(Opcode::PushI8) => self.two_bytes_bypass(),
            Some(Opcode::PushF32) => self.five_bytes_bypass(),
            Some(Opcode::PushString) => self.push_string_bypass(),
            Some(Opcode::PushGlobal) => self.three_bytes_bypass(),
            Some(Opcode::PushStack) => self.two_bytes_bypass(),
            Some(Opcode::PushGlobalTable) => self.three_bytes_bypass(),
            Some(Opcode::PushLocalTable) => self.two_bytes_bypass(),
            Some(Opcode::PushTop) => self.one_byte_bypass(),
            Some(Opcode::PushReturn) => self.one_byte_bypass(),
            Some(Opcode::PopGlobal) => self.three_bytes_bypass(),
            Some(Opcode::PopStack) => self.two_bytes_bypass(),
            Some(Opcode::PopGlobalTable) => self.three_bytes_bypass(),
            Some(Opcode::PopLocalTable) => self.two_bytes_bypass(),
            Some(Opcode::Neg) => self.one_byte_bypass(),
            Some(Opcode::Add) => self.one_byte_bypass(),
            Some(Opcode::Sub) => self.one_byte_bypass(),
            Some(Opcode::Mul) => self.one_byte_bypass(),
            Some(Opcode::Div) => self.one_byte_bypass(),
            Some(Opcode::Mod) => self.one_byte_bypass(),
            Some(Opcode::BitTest) => self.one_byte_bypass(),
            Some(Opcode::And) => self.one_byte_bypass(),
            Some(Opcode::Or) => self.one_byte_bypass(),
            Some(Opcode::SetE) => self.one_byte_bypass(),
            Some(Opcode::SetNE) => self.one_byte_bypass(),
            Some(Opcode::SetG) => self.one_byte_bypass(),
            Some(Opcode::SetLE) => self.one_byte_bypass(),
            Some(Opcode::SetL) => self.one_byte_bypass(),
            Some(Opcode::SetGE) => self.one_byte_bypass(),
            None => Err(DisasmError::UnknownOpcode { opcode }),
        }
    }

    /// The interpretation-pass handler for the init-stack opcode: makes the
    /// routine recorded at this address the active one, with a fresh stack
    /// analyzer sized by its declared counts.
    pub fn init_stack(&mut self) -> (r: Result<(), DisasmError>)
        requires
            old(self).wf(),
            old(self).mach().pos < old(self).end(),
        ensures
            final(self).wf(),
            final(self).data() == old(self).data(),
            final(self).sys() == old(self).sys(),
            final(self).end() == old(self).end(),
            match step_init_stack(old(self).mach()) {
                Ok(m2) => r == Ok::<(), DisasmError>(()) && final(self).mach() == m2,
                Err(e) => r == Err::<(), DisasmError>(e) && final(self).mach().funcs == old(
                    self,
                ).mach().funcs && final(self).mach().cur == old(self).mach().cur,
            },
    {
        proof {
            self.scenario.lemma_wf_bounds();
        }
        let addr = self.cursor as u32;
        self.cursor = self.cursor + 3;
        match Self::find_function(&self.functions, addr) {
            Some(i) => {
                proof {
                    lemma_funcs_view(self.functions@);
                    lemma_find_func(funcs_view(self.functions@), addr);
                }
                let locals_count = self.functions[i].locals_count;
                let args_count = self.functions[i].args_count;
                let sa = StackAnalyzer::new(locals_count as usize, args_count as usize);
                proof {
                    assert(sa.av().slots =~= placeholders(locals_count as nat));
                }
                self.stack_analyzer = Some(sa);
                self.current_function_address = Some(addr);
                Ok(())
            },
            None => Err(DisasmError::RoutineNotFound { address: addr }),
        }
    }

    /// The interpretation-pass handler for the call opcode: pops the
    /// callee's declared number of arguments, in reverse push order, and
    /// emits the call statement.
    pub fn call(&mut self) -> (r: Result<(), DisasmError>)
        requires
            old(self).wf(),
            old(self).mach().pos < old(self).end(),
        ensures
            final(self).wf(),
            final(self).data() == old(self).data(),
            final(self).sys() == old(self).sys(),
            final(self).end() == old(self).end(),
            match step_call(old(self).data(), old(self).mach()) {
                Ok(m2) => r == Ok::<(), DisasmError>(()) && final(self).mach() == m2,
                Err(e) => r == Err::<(), DisasmError>(e) && final(self).mach().funcs == old(
                    self,
                ).mach().funcs && final(self).mach().cur == old(self).mach().cur,
            },
    {
        proof {
            self.scenario.lemma_wf_bounds();
        }
        let addr = self.cursor as u32;
        self.cursor = self.cursor + 1;
        let target = match self.scenario.read_u32(self.cursor) {
            Ok(v) => v,
            Err(e) => {
                return Err(e);
            },
        };
        self.cursor = self.cursor + 4;
        let callee_args_count = match Self::find_function(&self.functions, target) {
            Some(i) => {
                proof {
                    lemma_funcs_view(self.functions@);
                    lemma_find_func(funcs_view(self.functions@), target);
                }
                self.functions[i].args_count
            },
            None => {
                return Err(DisasmError::RoutineNotFound { address: target });
            },
        };
        let mut sa = match self.stack_analyzer.take() {
            Some(sa) => sa,
            None => {
                return Err(DisasmError::NoActiveRoutine);
            },
        };
        proof {
            sa.lemma_av_wf();
        }
        let args = match pop_n(&mut sa, callee_args_count) {
            Ok(v) => v,
            Err(e) => {
                self.stack_analyzer = Some(sa);
                return Err(e);
            },
        };
        self.stack_analyzer = Some(sa);
        let statement = Statement::from_call(addr, target, args);
        self.push_statement_to_current_function(statement)
    }

    /// The interpretation-pass handler for the syscall opcode: looks the id
    /// up in the scenario's table, pops its declared number of arguments,
    /// and emits the syscall statement. An unknown id is fatal.
    pub fn syscall(&mut self) -> (r: Result<(), DisasmError>)
        requires
            old(self).wf(),
            old(self).mach().pos < old(self).end(),
        ensures
            final(self).wf(),
            final(self).data() == old(self).data(),
            final(self).sys() == old(self).sys(),
            final(self).end() == old(self).end(),
            match step_syscall(old(self).data(), old(self).sys(), old(self).mach()) {
                Ok(m2) => r == Ok::<(), DisasmError>(()) && final(self).mach() == m2,
                Err(e) => r == Err::<(), DisasmError>(e) && final(self).mach().funcs == old(
                    self,
                ).mach().funcs && final(self).mach().cur == old(self).mach().cur,
            },
    {
        proof {
            self.scenario.lemma_wf_bounds();
        }
        let addr = self.cursor as u32;
        self.cursor = self.cursor + 1;
        let id = match self.scenario.read_u16(self.cursor) {
            Ok(v) => v,
            Err(e) => {
                return Err(e);
            },
        };
        self.cursor = self.cursor + 2;
        let (syscall_name, syscall_args) = match self.scenario.get_syscall(id) {
            Some(s) => (s.name.clone(), s.args),
            None => {
                return Err(DisasmError::UnknownSyscall { id });
            },
        };
        let mut sa = match self.stack_analyzer.take() {
            Some(sa) => sa,
            None => {
                return Err(DisasmError::NoActiveRoutine);
            },
        };
        proof {
            sa.lemma_av_wf();
        }
        let args = match pop_n(&mut sa, syscall_args) {
            Ok(v) => v,
            Err(e) => {
                self.stack_analyzer = Some(sa);
                return Err(e);
            },
        };
        self.stack_analyzer = Some(sa);
        let statement = Statement::from_syscall(addr, syscall_name, args);
        self.push_statement_to_current_function(statement)
    }

    /// The interpretation-pass handler for the plain return opcode.
    pub fn ret(&mut self) -> (r: Result<(), DisasmError>)
        requires
            old(self).wf(),
            old(self).mach().pos < old(self).end(),
        ensures
            final(self).wf(),
            final(self).data() == old(self).data(),
            final(self).sys() == old(self).sys(),
            final(self).end() == old(self).end(),
            match step_ret(old(self).mach(), false) {
                Ok(m2) => r == Ok::<(), DisasmError>(()) && final(self).mach() == m2,
                Err(e) => r == Err::<(), DisasmError>(e) && final(self).mach().funcs == old(
                    self,
                ).mach().funcs && final(self).mach().cur == old(self).mach().cur,
            },
    {
        proof {
            self.scenario.lemma_wf_bounds();
        }
        let addr = self.cursor as u32;
        self.cursor = self.cursor + 1;
        let statement = Statement::from_return(addr, false);
        self.push_statement_to_current_function(statement)
    }

    /// The interpretation-pass handler for the return-with-value opcode.
    pub fn retv(&mut self) -> (r: Result<(), DisasmError>)
        requires
            old(self).wf(),
            old(self).mach().pos < old(self).end(),
        ensures
            final(self).wf(),
            final(self).data() == old(self).data(),
            final(self).sys() == old(self).sys(),
            final(self).end() == old(self).end(),
            match step_ret(old(self).mach(), true) {
                Ok(m2) => r == Ok::<(), DisasmError>(()) && final(self).mach() == m2,
                Err(e) => r == Err::<(), DisasmError>(e) && final(self).mach().funcs == old(
                    self,
                ).mach().funcs && final(self).mach().cur == old(self).mach().cur,
            },
    {
        proof {
            self.scenario.lemma_wf_bounds();
        }
        let addr = self.cursor as u32;
        self.cursor = self.cursor + 1;
        let statement = Statement::from_return(addr, true);
        self.push_statement_to_current_function(statement)
    }

    /// The interpretation-pass handler for the unconditional jump.
    pub fn jmp(&mut self) -> (r: Result<(), DisasmError>)
        requires
            old(self).wf(),
            old(self).mach().pos < old(self).end(),
        ensures
            final(self).wf(),
            final(self).data() == old(self).data(),
            final(self).sys() == old(self).sys(),
            final(self).end() == old(self).end(),
            match step_jmp(old(self).data(), old(self).mach()) {
                Ok(m2) => r == Ok::<(), DisasmError>(()) && final(self).mach() == m2,
                Err(e) => r == Err::<(), DisasmError>(e) && final(self).mach().funcs == old(
                    self,
                ).mach().funcs && final(self).mach().cur == old(self).mach().cur,
            },
    {
        proof {
            self.scenario.lemma_wf_bounds();
        }
        let addr = self.cursor as u32;
        self.cursor = self.cursor + 1;
        let target = match self.scenario.read_u32(self.cursor) {
            Ok(v) => v,
            Err(e) => {
                return Err(e);
            },
        };
        self.cursor = self.cursor + 4;
        let statement = Statement::from_jmp(addr, target);
        self.push_statement_to_current_function(statement)
    }

    /// The interpretation-pass handler for the jump-if-zero: the condition
    /// is popped off the active stack.
    pub fn jz(&mut self) -> (r: Result<(), DisasmError>)
        requires
            old(self).wf(),
            old(self).mach().pos < old(self).end(),
        ensures
            final(self).wf(),
            final(self).data() == old(self).data(),
            final(self).sys() == old(self).sys(),
            final(self).end() == old(self).end(),
            match step_jz(old(self).data(), old(self).mach()) {
                Ok(m2) => r == Ok::<(), DisasmError>(()) && final(self).mach() == m2,
                Err(e) => r == Err::<(), DisasmError>(e) && final(self).mach().funcs == old(
                    self,
                ).mach().funcs && final(self).mach().cur == old(self).mach().cur,
            },
    {
        proof {
            self.scenario.lemma_wf_bounds();
        }
        let addr = self.cursor as u32;
        self.cursor = self.cursor + 1;
        let target = match self.scenario.read_u32(self.cursor) {
            Ok(v) => v,
            Err(e) => {
                return Err(e);
            },
        };
        self.cursor = self.cursor + 4;
        let mut sa = match self.stack_analyzer.take() {
            Some(sa) => sa,
            None => {
                return Err(DisasmError::NoActiveRoutine);
            },
        };
        proof {
            sa.lemma_av_wf();
        }
        let condition_var = match sa.pop() {
            Ok(v) => v,
            Err(e) => {
                self.stack_analyzer = Some(sa);
                return Err(e);
            },
        };
        self.stack_analyzer = Some(sa);
        let statement = Statement::from_jz(addr, target, condition_var);
        self.push_statement_to_current_function(statement)
    }

    /// The interpretation-pass handler for the nil push.
    pub fn push_nil(&mut self) -> (r: Result<(), DisasmError>)
        requires
            old(self).wf(),
            old(self).mach().pos < old(self).end(),
        ensures
            final(self).wf(),
            final(self).data() == old(self).data(),
            final(self).sys() == old(self).sys(),
            final(self).end() == old(self).end(),
            match step_push_const(old(self).mach(), 1, VariantV::Nil) {
                Ok(m2) => r == Ok::<(), DisasmError>(()) && final(self).mach() == m2,
                Err(e) => r == Err::<(), DisasmError>(e) && final(self).mach().funcs == old(
                    self,
                ).mach().funcs && final(self).mach().cur == old(self).mach().cur,
            },
    {
        proof {
            self.scenario.lemma_wf_bounds();
        }
        self.cursor = self.cursor + 1;
        let mut sa = match self.stack_analyzer.take() {
            Some(sa) => sa,
            None => {
                return Err(DisasmError::NoActiveRoutine);
            },
        };
        let _ = sa.push_nil();
        self.stack_analyzer = Some(sa);
        Ok(())
    }

    /// The interpretation-pass handler for the true push.
    pub fn push_true(&mut self) -> (r: Result<(), DisasmError>)
        requires
            old(self).wf(),
            old(self).mach().pos < old(self).end(),
        ensures
            final(self).wf(),
            final(self).data() == old(self).data(),
            final(self).sys() == old(self).sys(),
            final(self).end() == old(self).end(),
            match step_push_const(old(self).mach(), 1, VariantV::True) {
                Ok(m2) => r == Ok::<(), DisasmError>(()) && final(self).mach() == m2,
                Err(e) => r == Err::<(), DisasmError>(e) && final(self).mach().funcs == old(
                    self,
                ).mach().funcs && final(self).mach().cur == old(self).mach().cur,
            },
    {
        proof {
            self.scenario.lemma_wf_bounds();
        }
        self.cursor = self.cursor + 1;
        let mut sa = match self.stack_analyzer.take() {
            Some(sa) => sa,
            None => {
                return Err(DisasmError::NoActiveRoutine);
            },
        };
        let _ = sa.push_true();
        self.stack_analyzer = Some(sa);
        Ok(())
    }

    /// The interpretation-pass handler for the 32-bit integer push.
    pub fn push_i32(&mut self) -> (r: Result<(), DisasmError>)
        requires
            old(self).wf(),
            old(self).mach().pos < old(self).end(),
        ensures
            final(self).wf(),
            final(self).data() == old(self).data(),
            final(self).sys() == old(self).sys(),
            final(self).end() == old(self).end(),
            match step_push_i32(old(self).data(), old(self).mach()) {
                Ok(m2) => r == Ok::<(), DisasmError>(()) && final(self).mach() == m2,
                Err(e) => r == Err::<(), DisasmError>(e) && final(self).mach().funcs == old(
                    self,
                ).mach().funcs && final(self).mach().cur == old(self).mach().cur,
            },
    {
        proof {
            self.scenario.lemma_wf_bounds();
        }
        self.cursor = self.cursor + 1;
        let value = match self.scenario.read_i32(self.cursor) {
            Ok(v) => v,
            Err(e) => {
                return Err(e);
            },
        };
        self.cursor = self.cursor + 4;
        let mut sa = match self.stack_analyzer.take() {
            Some(sa) => sa,
            None => {
                return Err(DisasmError::NoActiveRoutine);
            },
        };
        let _ = sa.push_int(value);
        self.stack_analyzer = Some(sa);
        Ok(())
    }

    /// The interpretation-pass handler for the 16-bit integer push; the
    /// constant is sign-extended.
    pub fn push_i16(&mut self) -> (r: Result<(), DisasmError>)
        requires
            old(self).wf(),
            old(self).mach().pos < old(self).end(),
        ensures
            final(self).wf(),
            final(self).data() == old(self).data(),
            final(self).sys() == old(self).sys(),
            final(self).end() == old(self).end(),
            match step_push_i16(old(self).data(), old(self).mach()) {
                Ok(m2) => r == Ok::<(), DisasmError>(()) && final(self).mach() == m2,
                Err(e) => r == Err::<(), DisasmError>(e) && final(self).mach().funcs == old(
                    self,
                ).mach().funcs && final(self).mach().cur == old(self).mach().cur,
            },
    {
        proof {
            self.scenario.lemma_wf_bounds();
        }
        self.cursor = self.cursor + 1;
        let value = match self.scenario.read_i16(self.cursor) {
            Ok(v) => v,
            Err(e) => {
                return Err(e);
            },
        };
        self.cursor = self.cursor + 2;
        let mut sa = match self.stack_analyzer.take() {
            Some(sa) => sa,
            None => {
                return Err(DisasmError::NoActiveRoutine);
            },
        };
        let _ = sa.push_int(value as i32);
        self.stack_analyzer = Some(sa);
        Ok(())
    }

    /// The interpretation-pass handler for the 8-bit integer push; the
    /// constant is sign-extended.
    pub fn push_i8(&mut self) -> (r: Result<(), DisasmError>)
        requires
            old(self).wf(),
            old(self).mach().pos < old(self).end(),
        ensures
            final(self).wf(),
            final(self).data() == old(self).data(),
            final(self).sys() == old(self).sys(),
            final(self).end() == old(self).end(),
            match step_push_i8(old(self).data(), old(self).mach()) {
                Ok(m2) => r == Ok::<(), DisasmError>(()) && final(self).mach() == m2,
                Err(e) => r == Err::<(), DisasmError>(e) && final(self).mach().funcs == old(
                    self,
                ).mach().funcs && final(self).mach().cur == old(self).mach().cur,
            },
    {
        proof {
            self.scenario.lemma_wf_bounds();
        }
        self.cursor = self.cursor + 1;
        let value = match self.scenario.read_i8(self.cursor) {
            Ok(v) => v,
            Err(e) => {
                return Err(e);
            },
        };
        self.cursor = self.cursor + 1;
        let mut sa = match self.stack_analyzer.take() {
            Some(sa) => sa,
            None => {
                return Err(DisasmError::NoActiveRoutine);
            },
        };
        let _ = sa.push_int(value as i32);
        self.stack_analyzer = Some(sa);
        Ok(())
    }

    /// The interpretation-pass handler for the float push; the constant is
    /// carried as its raw bits.
    pub fn push_f32(&mut self) -> (r: Result<(), DisasmError>)
        requires
            old(self).wf(),
            old(self).mach().pos < old(self).end(),
        ensures
            final(self).wf(),
            final(self).data() == old(self).data(),
            final(self).sys() == old(self).sys(),
            final(self).end() == old(self).end(),
            match step_push_f32(old(self).data(), old(self).mach()) {
                Ok(m2) => r == Ok::<(), DisasmError>(()) && final(self).mach() == m2,
                Err(e) => r == Err::<(), DisasmError>(e) && final(self).mach().funcs == old(
                    self,
                ).mach().funcs && final(self).mach().cur == old(self).mach().cur,
            },
    {
        proof {
            self.scenario.lemma_wf_bounds();
        }
        self.cursor = self.cursor + 1;
        let bits = match self.scenario.read_f32_bits(self.cursor) {
            Ok(v) => v,
            Err(e) => {
                return Err(e);
            },
        };
        self.cursor = self.cursor + 4;
        let mut sa = match self.stack_analyzer.take() {
            Some(sa) => sa,
            None => {
                return Err(DisasmError::NoActiveRoutine);
            },
        };
        let _ = sa.push_float(bits);
        self.stack_analyzer = Some(sa);
        Ok(())
    }

    /// The interpretation-pass handler for the string push: a length prefix
    /// and that many raw bytes.
    pub fn push_string(&mut self) -> (r: Result<(), DisasmError>)
        requires
            old(self).wf(),
            old(self).mach().pos < old(self).end(),
        ensures
            final(self).wf(),
            final(self).data() == old(self).data(),
            final(self).sys() == old(self).sys(),
            final(self).end() == old(self).end(),
            match step_push_string(old(self).data(), old(self).mach()) {
                Ok(m2) => r == Ok::<(), DisasmError>(()) && final(self).mach() == m2,
                Err(e) => r == Err::<(), DisasmError>(e) && final(self).mach().funcs == old(
                    self,
                ).mach().funcs && final(self).mach().cur == old(self).mach().cur,
            },
    {
        proof {
            self.scenario.lemma_wf_bounds();
        }
        self.cursor = self.cursor + 1;
        let len = match self.scenario.read_u8(self.cursor) {
            Ok(v) => v,
            Err(e) => {
                return Err(e);
            },
        };
        self.cursor = self.cursor + 1;
        let s = match self.scenario.read_string_bytes(self.cursor, len as usize) {
            Ok(v) => v,
            Err(e) => {
                return Err(e);
            },
        };
        self.cursor = self.cursor + (len as usize);
        let mut sa = match self.stack_analyzer.take() {
            Some(sa) => sa,
            None => {
                return Err(DisasmError::NoActiveRoutine);
            },
        };
        let _ = sa.push_string(s);
        self.stack_analyzer = Some(sa);
        Ok(())
    }

    /// The interpretation-pass handler for the global push: a reference to
    /// the keyed global-table entry.
    pub fn push_global(&mut self) -> (r: Result<(), DisasmError>)
        requires
            old(self).wf(),
            old(self).mach().pos < old(self).end(),
        ensures
            final(self).wf(),
            final(self).data() == old(self).data(),
            final(self).sys() == old(self).sys(),
            final(self).end() == old(self).end(),
            match step_push_global(old(self).data(), old(self).mach()) {
                Ok(m2) => r == Ok::<(), DisasmError>(()) && final(self).mach() == m2,
                Err(e) => r == Err::<(), DisasmError>(e) && final(self).mach().funcs == old(
                    self,
                ).mach().funcs && final(self).mach().cur == old(self).mach().cur,
            },
    {
        proof {
            self.scenario.lemma_wf_bounds();
        }
        self.cursor = self.cursor + 1;
        let key = match self.scenario.read_u16(self.cursor) {
            Ok(v) => v,
            Err(e) => {
                return Err(e);
            },
        };
        self.cursor = self.cursor + 2;
        let mut sa = match self.stack_analyzer.take() {
            Some(sa) => sa,
            None => {
                return Err(DisasmError::NoActiveRoutine);
            },
        };
        let _ = sa.push_global(key as u32);
        self.stack_analyzer = Some(sa);
        Ok(())
    }

    /// The interpretation-pass handler for the stack push: a copy of the
    /// referenced local or argument slot.
    pub fn push_stack(&mut self) -> (r: Result<(), DisasmError>)
        requires
            old(self).wf(),
            old(self).mach().pos < old(self).end(),
        ensures
            final(self).wf(),
            final(self).data() == old(self).data(),
            final(self).sys() == old(self).sys(),
            final(self).end() == old(self).end(),
            match step_push_stack(old(self).data(), old(self).mach()) {
                Ok(m2) => r == Ok::<(), DisasmError>(()) && final(self).mach() == m2,
                Err(e) => r == Err::<(), DisasmError>(e) && final(self).mach().funcs == old(
                    self,
                ).mach().funcs && final(self).mach().cur == old(self).mach().cur,
            },
    {
        proof {
            self.scenario.lemma_wf_bounds();
        }
        self.cursor = self.cursor + 1;
        let offset = match self.scenario.read_i8(self.cursor) {
            Ok(v) => v,
            Err(e) => {
                return Err(e);
            },
        };
        self.cursor = self.cursor + 1;
        let mut sa = match self.stack_analyzer.take() {
            Some(sa) => sa,
            None => {
                return Err(DisasmError::NoActiveRoutine);
            },
        };
        proof {
            sa.lemma_av_wf();
        }
        match sa.push_stack(offset) {
            Ok(()) => {
                self.stack_analyzer = Some(sa);
                Ok(())
            },
            Err(e) => {
                self.stack_analyzer = Some(sa);
                Err(e)
            },
        }
    }

    /// The interpretation-pass handler for the global-table push: the key
    /// selector is popped and the access is pushed back as an expression.
    pub fn push_global_table(&mut self) -> (r: Result<(), DisasmError>)
        requires
            old(self).wf(),
            old(self).mach().pos < old(self).end(),
        ensures
            final(self).wf(),
            final(self).data() == old(self).data(),
            final(self).sys() == old(self).sys(),
            final(self).end() == old(self).end(),
            match step_push_global_table(old(self).data(), old(self).mach()) {
                Ok(m2) => r == Ok::<(), DisasmError>(()) && final(self).mach() == m2,
                Err(e) => r == Err::<(), DisasmError>(e) && final(self).mach().funcs == old(
                    self,
                ).mach().funcs && final(self).mach().cur == old(self).mach().cur,
            },
    {
        proof {
            self.scenario.lemma_wf_bounds();
        }
        let addr = self.cursor as u32;
        self.cursor = self.cursor + 1;
        let key = match self.scenario.read_u16(self.cursor) {
            Ok(v) => v,
            Err(e) => {
                return Err(e);
            },
        };
        self.cursor = self.cursor + 2;
        let mut sa = match self.stack_analyzer.take() {
            Some(sa) => sa,
            None => {
                return Err(DisasmError::NoActiveRoutine);
            },
        };
        proof {
            sa.lemma_av_wf();
        }
        let table = NamedVariant::from_global(key as u32);
        let table_key = match sa.pop() {
            Ok(v) => v,
            Err(e) => {
                self.stack_analyzer = Some(sa);
                return Err(e);
            },
        };
        let statement = Statement::from_global_table_access(addr, table, table_key);
        let _ = sa.push_expr(statement);
        self.stack_analyzer = Some(sa);
        Ok(())
    }

    /// The interpretation-pass handler for the local-table push: the slot
    /// is resolved as the table, the key selector is popped, and the access
    /// is pushed back as an expression.
    pub fn push_local_table(&mut self) -> (r: Result<(), DisasmError>)
        requires
            old(self).wf(),
            old(self).mach().pos < old(self).end(),
        ensures
            final(self).wf(),
            final(self).data() == old(self).data(),
            final(self).sys() == old(self).sys(),
            final(self).end() == old(self).end(),
            match step_push_local_table(old(self).data(), old(self).mach()) {
                Ok(m2) => r == Ok::<(), DisasmError>(()) && final(self).mach() == m2,
                Err(e) => r == Err::<(), DisasmError>(e) && final(self).mach().funcs == old(
                    self,
                ).mach().funcs && final(self).mach().cur == old(self).mach().cur,
            },
    {
        proof {
            self.scenario.lemma_wf_bounds();
        }
        let addr = self.cursor as u32;
        self.cursor = self.cursor + 1;
        let idx = match self.scenario.read_i8(self.cursor) {
            Ok(v) => v,
            Err(e) => {
                return Err(e);
            },
        };
        self.cursor = self.cursor + 1;
        let mut sa = match self.stack_analyzer.take() {
            Some(sa) => sa,
            None => {
                return Err(DisasmError::NoActiveRoutine);
            },
        };
        proof {
            sa.lemma_av_wf();
        }
        let table = match sa.get(idx) {
            Ok(v) => v,
            Err(e) => {
                self.stack_analyzer = Some(sa);
                return Err(e);
            },
        };
        let table_key = match sa.pop() {
            Ok(v) => v,
            Err(e) => {
                self.stack_analyzer = Some(sa);
                return Err(e);
            },
        };
        let statement = Statement::from_local_table_access(addr, table, table_key);
        let _ = sa.push_expr(statement);
        self.stack_analyzer = Some(sa);
        Ok(())
    }

    /// The interpretation-pass handler for the duplicate-top opcode.
    pub fn push_top(&mut self) -> (r: Result<(), DisasmError>)
        requires
            old(self).wf(),
            old(self).mach().pos < old(self).end(),
        ensures
            final(self).wf(),
            final(self).data() == old(self).data(),
            final(self).sys() == old(self).sys(),
            final(self).end() == old(self).end(),
            match step_push_top(old(self).mach()) {
                Ok(m2) => r == Ok::<(), DisasmError>(()) && final(self).mach() == m2,
                Err(e) => r == Err::<(), DisasmError>(e) && final(self).mach().funcs == old(
                    self,
                ).mach().funcs && final(self).mach().cur == old(self).mach().cur,
            },
    {
        proof {
            self.scenario.lemma_wf_bounds();
        }
        self.cursor = self.cursor + 1;
        let mut sa = match self.stack_analyzer.take() {
            Some(sa) => sa,
            None => {
                return Err(DisasmError::NoActiveRoutine);
            },
        };
        match sa.push_top() {
            Ok(()) => {
                self.stack_analyzer = Some(sa);
                Ok(())
            },
            Err(e) => {
                self.stack_analyzer = Some(sa);
                Err(e)
            },
        }
    }

    /// The interpretation-pass handler for the return-value push.
    pub fn push_return_value(&mut self) -> (r: Result<(), DisasmError>)
        requires
            old(self).wf(),
            old(self).mach().pos < old(self).end(),
        ensures
            final(self).wf(),
            final(self).data() == old(self).data(),
            final(self).sys() == old(self).sys(),
            final(self).end() == old(self).end(),
            match step_push_return(old(self).mach()) {
                Ok(m2) => r == Ok::<(), DisasmError>(()) && final(self).mach() == m2,
                Err(e) => r == Err::<(), DisasmError>(e) && final(self).mach().funcs == old(
                    self,
                ).mach().funcs && final(self).mach().cur == old(self).mach().cur,
            },
    {
        proof {
            self.scenario.lemma_wf_bounds();
        }
        self.cursor = self.cursor + 1;
        let mut sa = match self.stack_analyzer.take() {
            Some(sa) => sa,
            None => {
                return Err(DisasmError::NoActiveRoutine);
            },
        };
        let _ = sa.push_return_value();
        self.stack_analyzer = Some(sa);
        Ok(())
    }

    /// The interpretation-pass handler for the global pop: the popped value
    /// is assigned to the keyed global-table entry.
    pub fn pop_global(&mut self) -> (r: Result<(), DisasmError>)
        requires
            old(self).wf(),
            old(self).mach().pos < old(self).end(),
        ensures
            final(self).wf(),
            final(self).data() == old(self).data(),
            final(self).sys() == old(self).sys(),
            final(self).end() == old(self).end(),
            match step_pop_global(old(self).data(), old(self).mach()) {
                Ok(m2) => r == Ok::<(), DisasmError>(()) && final(self).mach() == m2,
                Err(e) => r == Err::<(), DisasmError>(e) && final(self).mach().funcs == old(
                    self,
                ).mach().funcs && final(self).mach().cur == old(self).mach().cur,
            },
    {
        proof {
            self.scenario.lemma_wf_bounds();
        }
        let addr = self.cursor as u32;
        self.cursor = self.cursor + 1;
        let key = match self.scenario.read_u16(self.cursor) {
            Ok(v) => v,
            Err(e) => {
                return Err(e);
            },
        };
        self.cursor = self.cursor + 2;
        let mut sa = match self.stack_analyzer.take() {
            Some(sa) => sa,
            None => {
                return Err(DisasmError::NoActiveRoutine);
            },
        };
        proof {
            sa.lemma_av_wf();
        }
        let right = match sa.pop() {
            Ok(v) => v,
            Err(e) => {
                self.stack_analyzer = Some(sa);
                return Err(e);
            },
        };
        self.stack_analyzer = Some(sa);
        let left = NamedVariant::from_global(key as u32);
        let statement = Statement::from_assign(addr, left, right);
        self.push_statement_to_current_function(statement)
    }

    /// The interpretation-pass handler for the stack pop: the popped value
    /// is assigned to the referenced local or argument slot.
    pub fn local_copy(&mut self) -> (r: Result<(), DisasmError>)
        requires
            old(self).wf(),
            old(self).mach().pos < old(self).end(),
        ensures
            final(self).wf(),
            final(self).data() == old(self).data(),
            final(self).sys() == old(self).sys(),
            final(self).end() == old(self).end(),
            match step_pop_stack(old(self).data(), old(self).mach()) {
                Ok(m2) => r == Ok::<(), DisasmError>(()) && final(self).mach() == m2,
                Err(e) => r == Err::<(), DisasmError>(e) && final(self).mach().funcs == old(
                    self,
                ).mach().funcs && final(self).mach().cur == old(self).mach().cur,
            },
    {
        proof {
            self.scenario.lemma_wf_bounds();
        }
        let addr = self.cursor as u32;
        self.cursor = self.cursor + 1;
        let idx = match self.scenario.read_i8(self.cursor) {
            Ok(v) => v,
            Err(e) => {
                return Err(e);
            },
        };
        self.cursor = self.cursor + 1;
        let mut sa = match self.stack_analyzer.take() {
            Some(sa) => sa,
            None => {
                return Err(DisasmError::NoActiveRoutine);
            },
        };
        proof {
            sa.lemma_av_wf();
        }
        let right = match sa.pop() {
            Ok(v) => v,
            Err(e) => {
                self.stack_analyzer = Some(sa);
                return Err(e);
            },
        };
        let left = match sa.get(idx) {
            Ok(v) => v,
            Err(e) => {
                self.stack_analyzer = Some(sa);
                return Err(e);
            },
        };
        self.stack_analyzer = Some(sa);
        let statement = Statement::from_assign(addr, left, right);
        self.push_statement_to_current_function(statement)
    }

    /// The interpretation-pass handler for the global-table pop: value and
    /// key selector are popped and the assignment targets the keyed
    /// global-table access.
    pub fn pop_global_table(&mut self) -> (r: Result<(), DisasmError>)
        requires
            old(self).wf(),
            old(self).mach().pos < old(self).end(),
        ensures
            final(self).wf(),
            final(self).data() == old(self).data(),
            final(self).sys() == old(self).sys(),
            final(self).end() == old(self).end(),
            match step_pop_global_table(old(self).data(), old(self).mach()) {
                Ok(m2) => r == Ok::<(), DisasmError>(()) && final(self).mach() == m2,
                Err(e) => r == Err::<(), DisasmError>(e) && final(self).mach().funcs == old(
                    self,
                ).mach().funcs && final(self).mach().cur == old(self).mach().cur,
            },
    {
        proof {
            self.scenario.lemma_wf_bounds();
        }
        let addr = self.cursor as u32;
        self.cursor = self.cursor + 1;
        let key = match self.scenario.read_u16(self.cursor) {
            Ok(v) => v,
            Err(e) => {
                return Err(e);
            },
        };
        self.cursor = self.cursor + 2;
        let mut sa = match self.stack_analyzer.take() {
            Some(sa) => sa,
            None => {
                return Err(DisasmError::NoActiveRoutine);
            },
        };
        proof {
            sa.lemma_av_wf();
        }
        let right = match sa.pop() {
            Ok(v) => v,
            Err(e) => {
                self.stack_analyzer = Some(sa);
                return Err(e);
            },
        };
        proof {
            sa.lemma_av_wf();
        }
        let table_key = match sa.pop() {
            Ok(v) => v,
            Err(e) => {
                self.stack_analyzer = Some(sa);
                return Err(e);
            },
        };
        self.stack_analyzer = Some(sa);
        let table = NamedVariant::from_global(key as u32);
        let access = Statement::from_global_table_access(addr, table, table_key);
        let left = NamedVariant::from_expr(access);
        let statement = Statement::from_assign(addr, left, right);
        self.push_statement_to_current_function(statement)
    }

    /// The interpretation-pass handler for the local-table pop: value and
    /// key selector are popped, the slot is resolved as the table, and the
    /// assignment targets the keyed access.
    pub fn pop_local_table(&mut self) -> (r: Result<(), DisasmError>)
        requires
            old(self).wf(),
            old(self).mach().pos < old(self).end(),
        ensures
            final(self).wf(),
            final(self).data() == old(self).data(),
            final(self).sys() == old(self).sys(),
            final(self).end() == old(self).end(),
            match step_pop_local_table(old(self).data(), old(self).mach()) {
                Ok(m2) => r == Ok::<(), DisasmError>(()) && final(self).mach() == m2,
                Err(e) => r == Err::<(), DisasmError>(e) && final(self).mach().funcs == old(
                    self,
                ).mach().funcs && final(self).mach().cur == old(self).mach().cur,
            },
    {
        proof {
            self.scenario.lemma_wf_bounds();
        }
        let addr = self.cursor as u32;
        self.cursor = self.cursor + 1;
        let idx = match self.scenario.read_i8(self.cursor) {
            Ok(v) => v,
            Err(e) => {
                return Err(e);
            },
        };
        self.cursor = self.cursor + 1;
        let mut sa = match self.stack_analyzer.take() {
            Some(sa) => sa,
            None => {
                return Err(DisasmError::NoActiveRoutine);
            },
        };
        proof {
            sa.lemma_av_wf();
        }
        let right = match sa.pop() {
            Ok(v) => v,
            Err(e) => {
                self.stack_analyzer = Some(sa);
                return Err(e);
            },
        };
        proof {
            sa.lemma_av_wf();
        }
        let table_key = match sa.pop() {
            Ok(v) => v,
            Err(e) => {
                self.stack_analyzer = Some(sa);
                return Err(e);
            },
        };
        let table = match sa.get(idx) {
            Ok(v) => v,
            Err(e) => {
                self.stack_analyzer = Some(sa);
                return Err(e);
            },
        };
        self.stack_analyzer = Some(sa);
        let access = Statement::from_local_table_access(addr, table, table_key);
        let left = NamedVariant::from_expr(access);
        let statement = Statement::from_assign(addr, left, right);
        self.push_statement_to_current_function(statement)
    }

    /// The interpretation-pass handler for negation: the operand is popped
    /// and the operation pushed back as an expression.
    pub fn neg(&mut self) -> (r: Result<(), DisasmError>)
        requires
            old(self).wf(),
            old(self).mach().pos < old(self).end(),
        ensures
            final(self).wf(),
            final(self).data() == old(self).data(),
            final(self).sys() == old(self).sys(),
            final(self).end() == old(self).end(),
            match step_neg(old(self).mach()) {
                Ok(m2) => r == Ok::<(), DisasmError>(()) && final(self).mach() == m2,
                Err(e) => r == Err::<(), DisasmError>(e) && final(self).mach().funcs == old(
                    self,
                ).mach().funcs && final(self).mach().cur == old(self).mach().cur,
            },
    {
        proof {
            self.scenario.lemma_wf_bounds();
        }
        let addr = self.cursor as u32;
        self.cursor = self.cursor + 1;
        let mut sa = match self.stack_analyzer.take() {
            Some(sa) => sa,
            None => {
                return Err(DisasmError::NoActiveRoutine);
            },
        };
        proof {
            sa.lemma_av_wf();
        }
        let operand = match sa.pop() {
            Ok(v) => v,
            Err(e) => {
                self.stack_analyzer = Some(sa);
                return Err(e);
            },
        };
        let statement = Statement::from_unary_op(addr, String::from_str("pvm_neg"), operand);
        let _ = sa.push_expr(statement);
        self.stack_analyzer = Some(sa);
        Ok(())
    }

    /// Shared body of the binary-operator handlers: the right operand is
    /// popped before the left one, and the operation is pushed back as an
    /// expression.
    fn binary_op(&mut self, op: Opcode) -> (r: Result<(), DisasmError>)
        requires
            old(self).wf(),
            old(self).mach().pos < old(self).end(),
        ensures
            final(self).wf(),
            final(self).data() == old(self).data(),
            final(self).sys() == old(self).sys(),
            final(self).end() == old(self).end(),
            match step_binop(old(self).mach(), op) {
                Ok(m2) => r == Ok::<(), DisasmError>(()) && final(self).mach() == m2,
                Err(e) => r == Err::<(), DisasmError>(e) && final(self).mach().funcs == old(
                    self,
                ).mach().funcs && final(self).mach().cur == old(self).mach().cur,
            },
    {
        proof {
            self.scenario.lemma_wf_bounds();
        }
        let addr = self.cursor as u32;
        self.cursor = self.cursor + 1;
        let mut sa = match self.stack_analyzer.take() {
            Some(sa) => sa,
            None => {
                return Err(DisasmError::NoActiveRoutine);
            },
        };
        proof {
            sa.lemma_av_wf();
        }
        let right = match sa.pop() {
            Ok(v) => v,
            Err(e) => {
                self.stack_analyzer = Some(sa);
                return Err(e);
            },
        };
        proof {
            sa.lemma_av_wf();
        }
        let left = match sa.pop() {
            Ok(v) => v,
            Err(e) => {
                self.stack_analyzer = Some(sa);
                return Err(e);
            },
        };
        let statement = Statement::from_binary_op(addr, String::from_str(binop_str(op)), left, right);
        let _ = sa.push_expr(statement);
        self.stack_analyzer = Some(sa);
        Ok(())
    }

    /// The addition operator.
    pub fn add(&mut self) -> (r: Result<(), DisasmError>)
        requires
            old(self).wf(),
            old(self).mach().pos < old(self).end(),
        ensures
            final(self).wf(),
            final(self).data() == old(self).data(),
            final(self).sys() == old(self).sys(),
            final(self).end() == old(self).end(),
            match step_binop(old(self).mach(), Opcode::Add) {
                Ok(m2) => r == Ok::<(), DisasmError>(()) && final(self).mach() == m2,
                Err(e) => r == Err::<(), DisasmError>(e) && final(self).mach().funcs == old(
                    self,
                ).mach().funcs && final(self).mach().cur == old(self).mach().cur,
            },
    {
        self.binary_op(Opcode::Add)
    }

    /// The subtraction operator.
    pub fn sub(&mut self) -> (r: Result<(), DisasmError>)
        requires
            old(self).wf(),
            old(self).mach().pos < old(self).end(),
        ensures
            final(self).wf(),
            final(self).data() == old(self).data(),
            final(self).sys() == old(self).sys(),
            final(self).end() == old(self).end(),
            match step_binop(old(self).mach(), Opcode::Sub) {
                Ok(m2) => r == Ok::<(), DisasmError>(()) && final(self).mach() == m2,
                Err(e) => r == Err::<(), DisasmError>(e) && final(self).mach().funcs == old(
                    self,
                ).mach().funcs && final(self).mach().cur == old(self).mach().cur,
            },
    {
        self.binary_op(Opcode::Sub)
    }

    /// The multiplication operator.
    pub fn mul(&mut self) -> (r: Result<(), DisasmError>)
        requires
            old(self).wf(),
            old(self).mach().pos < old(self).end(),
        ensures
            final(self).wf(),
            final(self).data() == old(self).data(),
            final(self).sys() == old(self).sys(),
            final(self).end() == old(self).end(),
            match step_binop(old(self).mach(), Opcode::Mul) {
                Ok(m2) => r == Ok::<(), DisasmError>(()) && final(self).mach() == m2,
                Err(e) => r == Err::<(), DisasmError>(e) && final(self).mach().funcs == old(
                    self,
                ).mach().funcs && final(self).mach().cur == old(self).mach().cur,
            },
    {
        self.binary_op(Opcode::Mul)
    }

    /// The division operator.
    pub fn div(&mut self) -> (r: Result<(), DisasmError>)
        requires
            old(self).wf(),
            old(self).mach().pos < old(self).end(),
        ensures
            final(self).wf(),
            final(self).data() == old(self).data(),
            final(self).sys() == old(self).sys(),
            final(self).end() == old(self).end(),
            match step_binop(old(self).mach(), Opcode::Div) {
                Ok(m2) => r == Ok::<(), DisasmError>(()) && final(self).mach() == m2,
                Err(e) => r == Err::<(), DisasmError>(e) && final(self).mach().funcs == old(
                    self,
                ).mach().funcs && final(self).mach().cur == old(self).mach().cur,
            },
    {
        self.binary_op(Opcode::Div)
    }

    /// The modulo operator.
    pub fn modulo(&mut self) -> (r: Result<(), DisasmError>)
        requires
            old(self).wf(),
            old(self).mach().pos < old(self).end(),
        ensures
            final(self).wf(),
            final(self).data() == old(self).data(),
            final(self).sys() == old(self).sys(),
            final(self).end() == old(self).end(),
            match step_binop(old(self).mach(), Opcode::Mod) {
                Ok(m2) => r == Ok::<(), DisasmError>(()) && final(self).mach() == m2,
                Err(e) => r == Err::<(), DisasmError>(e) && final(self).mach().funcs == old(
                    self,
                ).mach().funcs && final(self).mach().cur == old(self).mach().cur,
            },
    {
        self.binary_op(Opcode::Mod)
    }

    /// The bit-test operator.
    pub fn bittest(&mut self) -> (r: Result<(), DisasmError>)
        requires
            old(self).wf(),
            old(self).mach().pos < old(self).end(),
        ensures
            final(self).wf(),
            final(self).data() == old(self).data(),
            final(self).sys() == old(self).sys(),
            final(self).end() == old(self).end(),
            match step_binop(old(self).mach(), Opcode::BitTest) {
                Ok(m2) => r == Ok::<(), DisasmError>(()) && final(self).mach() == m2,
                Err(e) => r == Err::<(), DisasmError>(e) && final(self).mach().funcs == old(
                    self,
                ).mach().funcs && final(self).mach().cur == old(self).mach().cur,
            },
    {
        self.binary_op(Opcode::BitTest)
    }

    /// The logical-and operator.
    pub fn and(&mut self) -> (r: Result<(), DisasmError>)
        requires
            old(self).wf(),
            old(self).mach().pos < old(self).end(),
        ensures
            final(self).wf(),
            final(self).data() == old(self).data(),
            final(self).sys() == old(self).sys(),
            final(self).end() == old(self).end(),
            match step_binop(old(self).mach(), Opcode::And) {
                Ok(m2) => r == Ok::<(), DisasmError>(()) && final(self).mach() == m2,
                Err(e) => r == Err::<(), DisasmError>(e) && final(self).mach().funcs == old(
                    self,
                ).mach().funcs && final(self).mach().cur == old(self).mach().cur,
            },
    {
        self.binary_op(Opcode::And)
    }

    /// The logical-or operator.
    pub fn or(&mut self) -> (r: Result<(), DisasmError>)
        requires
            old(self).wf(),
            old(self).mach().pos < old(self).end(),
        ensures
            final(self).wf(),
            final(self).data() == old(self).data(),
            final(self).sys() == old(self).sys(),
            final(self).end() == old(self).end(),
            match step_binop(old(self).mach(), Opcode::Or) {
                Ok(m2) => r == Ok::<(), DisasmError>(()) && final(self).mach() == m2,
                Err(e) => r == Err::<(), DisasmError>(e) && final(self).mach().funcs == old(
                    self,
                ).mach().funcs && final(self).mach().cur == old(self).mach().cur,
            },
    {
        self.binary_op(Opcode::Or)
    }

    /// The equality comparison.
    pub fn sete(&mut self) -> (r: Result<(), DisasmError>)
        requires
            old(self).wf(),
            old(self).mach().pos < old(self).end(),
        ensures
            final(self).wf(),
            final(self).data() == old(self).data(),
            final(self).sys() == old(self).sys(),
            final(self).end() == old(self).end(),
            match step_binop(old(self).mach(), Opcode::SetE) {
                Ok(m2) => r == Ok::<(), DisasmError>(()) && final(self).mach() == m2,
                Err(e) => r == Err::<(), DisasmError>(e) && final(self).mach().funcs == old(
                    self,
                ).mach().funcs && final(self).mach().cur == old(self).mach().cur,
            },
    {
        self.binary_op(Opcode::SetE)
    }

    /// The inequality comparison.
    pub fn setne(&mut self) -> (r: Result<(), DisasmError>)
        requires
            old(self).wf(),
            old(self).mach().pos < old(self).end(),
        ensures
            final(self).wf(),
            final(self).data() == old(self).data(),
            final(self).sys() == old(self).sys(),
            final(self).end() == old(self).end(),
            match step_binop(old(self).mach(), Opcode::SetNE) {
                Ok(m2) => r == Ok::<(), DisasmError>(()) && final(self).mach() == m2,
                Err(e) => r == Err::<(), DisasmError>(e) && final(self).mach().funcs == old(
                    self,
                ).mach().funcs && final(self).mach().cur == old(self).mach().cur,
            },
    {
        self.binary_op(Opcode::SetNE)
    }

    /// The greater-than comparison.
    pub fn setg(&mut self) -> (r: Result<(), DisasmError>)
        requires
            old(self).wf(),
            old(self).mach().pos < old(self).end(),
        ensures
            final(self).wf(),
            final(self).data() == old(self).data(),
            final(self).sys() == old(self).sys(),
            final(self).end() == old(self).end(),
            match step_binop(old(self).mach(), Opcode::SetG) {
                Ok(m2) => r == Ok::<(), DisasmError>(()) && final(self).mach() == m2,
                Err(e) => r == Err::<(), DisasmError>(e) && final(self).mach().funcs == old(
                    self,
                ).mach().funcs && final(self).mach().cur == old(self).mach().cur,
            },
    {
        self.binary_op(Opcode::SetG)
    }

    /// The less-or-equal comparison.
    pub fn setle(&mut self) -> (r: Result<(), DisasmError>)
        requires
            old(self).wf(),
            old(self).mach().pos < old(self).end(),
        ensures
            final(self).wf(),
            final(self).data() == old(self).data(),
            final(self).sys() == old(self).sys(),
            final(self).end() == old(self).end(),
            match step_binop(old(self).mach(), Opcode::SetLE) {
                Ok(m2) => r == Ok::<(), DisasmError>(()) && final(self).mach() == m2,
                Err(e) => r == Err::<(), DisasmError>(e) && final(self).mach().funcs == old(
                    self,
                ).mach().funcs && final(self).mach().cur == old(self).mach().cur,
            },
    {
        self.binary_op(Opcode::SetLE)
    }

    /// The less-than comparison.
    pub fn setl(&mut self) -> (r: Result<(), DisasmError>)
        requires
            old(self).wf(),
            old(self).mach().pos < old(self).end(),
        ensures
            final(self).wf(),
            final(self).data() == old(self).data(),
            final(self).sys() == old(self).sys(),
            final(self).end() == old(self).end(),
            match step_binop(old(self).mach(), Opcode::SetL) {
                Ok(m2) => r == Ok::<(), DisasmError>(()) && final(self).mach() == m2,
                Err(e) => r == Err::<(), DisasmError>(e) && final(self).mach().funcs == old(
                    self,
                ).mach().funcs && final(self).mach().cur == old(self).mach().cur,
            },
    {
        self.binary_op(Opcode::SetL)
    }

    /// The greater-or-equal comparison.
    pub fn setge(&mut self) -> (r: Result<(), DisasmError>)
        requires
            old(self).wf(),
            old(self).mach().pos < old(self).end(),
        ensures
            final(self).wf(),
            final(self).data() == old(self).data(),
            final(self).sys() == old(self).sys(),
            final(self).end() == old(self).end(),
            match step_binop(old(self).mach(), Opcode::SetGE) {
                Ok(m2) => r == Ok::<(), DisasmError>(()) && final(self).mach() == m2,
                Err(e) => r == Err::<(), DisasmError>(e) && final(self).mach().funcs == old(
                    self,
                ).mach().funcs && final(self).mach().cur == old(self).mach().cur,
            },
    {
        self.binary_op(Opcode::SetGE)
    }

    /// One step of the interpretation pass: decodes the opcode at the
    /// cursor and dispatches it to its handler. An opcode outside the known
    /// set is skipped as a one-byte no-operation, for best-effort progress.
    pub fn disassemble_pass(&mut self) -> (r: Result<(), DisasmError>)
        requires
            old(self).wf(),
            old(self).mach().pos < old(self).end(),
        ensures
            final(self).wf(),
            final(self).data() == old(self).data(),
            final(self).sys() == old(self).sys(),
            final(self).end() == old(self).end(),
            match interp_step(old(self).data(), old(self).sys(), old(self).mach()) {
                Ok(m2) => r == Ok::<(), DisasmError>(()) && final(self).mach() == m2,
                Err(e) => r == Err::<(), DisasmError>(e) && final(self).mach().funcs == old(
                    self,
                ).mach().funcs && final(self).mach().cur == old(self).mach().cur,
            },
    {
        proof {
            self.scenario.lemma_wf_bounds();
        }
        let opcode = match self.scenario.read_u8(self.cursor) {
            Ok(b) => b,
            Err(e) => {
                return Err(e);
            },
        };
        match opcode_from_u8(opcode) {
            Some(Opcode::Nop) => self.nop(),
            Some(Opcode::InitStack) => self.init_stack(),
            Some(Opcode::Call) => self.call(),
            Some(Opcode::Syscall) => self.syscall(),
            Some(Opcode::Ret) => self.ret(),
            Some(Opcode::RetV) => self.retv(),
            Some(Opcode::Jmp) => self.jmp(),
            Some(Opcode::Jz) => self.jz(),
            Some(Opcode::PushNil) => self.push_nil(),
            Some(Opcode::PushTrue) => self.push_true(),
            Some(Opcode::PushI32) => self.push_i32(),
            Some(Opcode::PushI16) => self.push_i16(),
            Some(Opcode::PushI8) => self.push_i8(),
            Some(Opcode::PushF32) => self.push_f32(),
            Some(Opcode::PushString) => self.push_string(),
            Some(Opcode::PushGlobal) => self.push_global(),
            Some(Opcode::PushStack) => self.push_stack(),
            Some(Opcode::PushGlobalTable) => self.push_global_table(),
            Some(Opcode::PushLocalTable) => self.push_local_table(),
            Some(Opcode::PushTop) => self.push_top(),
            Some(Opcode::PushReturn) => self.push_return_value(),
            Some(Opcode::PopGlobal) => self.pop_global(),
            Some(Opcode::PopStack) => self.local_copy(),
            Some(Opcode::PopGlobalTable) => self.pop_global_table(),
            Some(Opcode::PopLocalTable) => self.pop_local_table(),
            Some(Opcode::Neg) => self.neg(),
            Some(Opcode::Add) => self.add(),
            Some(Opcode::Sub) => self.sub(),
            Some(Opcode::Mul) => self.mul(),
            Some(Opcode::Div) => self.div(),
            Some(Opcode::Mod) => self.modulo(),
            Some(Opcode::BitTest) => self.bittest(),
            Some(Opcode::And) => self.and(),
            Some(Opcode::Or) => self.or(),
            Some(Opcode::SetE) => self.sete(),
            Some(Opcode::SetNE) => self.setne(),
            Some(Opcode::SetG) => self.setg(),
            Some(Opcode::SetLE) => self.setle(),
            Some(Opcode::SetL) => self.setl(),
            Some(Opcode::SetGE) => self.setge(),
            None => self.nop(),
        }
    }

    /// Runs both passes over the routine stream: discovery of every routine
    /// and its declared counts, a rewind, and the symbolic interpretation
    /// that fills the routines' statement lists.
    pub fn disassemble(&mut self) -> (r: Result<(), DisasmError>)
        requires
            old(self).wf(),
        ensures
            final(self).wf(),
            final(self).data() == old(self).data(),
            final(self).sys() == old(self).sys(),
            final(self).end() == old(self).end(),
            match disassemble_spec(
                old(self).data(),
                old(self).sys(),
                old(self).end(),
                old(self).mach(),
            ) {
                Ok(m2) => r == Ok::<(), DisasmError>(()) && final(self).mach() == m2,
                Err(e) => r == Err::<(), DisasmError>(e),
            },
    {
        proof {
            self.scenario.lemma_wf_bounds();
        }
        let ghost d0 = self.data();
        let ghost s0 = self.sys();
        let ghost e0 = self.end();
        let ghost m0 = self.mach();
        let end = self.scenario.get_sys_desc_offset() as usize;
        while self.cursor < end
            invariant
                self.wf(),
                d0 == old(self).data(),
                s0 == old(self).sys(),
                e0 == old(self).end(),
                m0 == old(self).mach(),
                self.data() == d0,
                self.sys() == s0,
                self.end() == e0,
                end as int == e0,
                self.mach().cur == m0.cur,
                self.mach().an == m0.an,
                discover_run(d0, e0, self.mach().pos, self.mach().funcs) == discover_run(
                    d0,
                    e0,
                    m0.pos,
                    m0.funcs,
                ),
            decreases (if self.mach().pos < e0 { e0 - self.mach().pos } else { 0 }),
        {
            let ghost mpre = self.mach();
            match self.routine_defination_pass() {
                Ok(()) => {
                    proof {
                        lemma_discover_step_advances(d0, mpre.pos, mpre.funcs);
                        match discover_step(d0, mpre.pos, mpre.funcs) {
                            Ok(r2) => {
                                assert(discover_run(d0, e0, mpre.pos, mpre.funcs) == discover_run(
                                    d0,
                                    e0,
                                    r2.0,
                                    r2.1,
                                ));
                            },
                            Err(_) => {
                                assert(false);
                            },
                        }
                    }
                },
                Err(e) => {
                    proof {
                        assert(discover_run(d0, e0, mpre.pos, mpre.funcs) == Err::<
                            (int, Seq<FuncV>),
                            DisasmError,
                        >(e));
                    }
                    return Err(e);
                },
            }
        }
        proof {
            assert(discover_run(d0, e0, m0.pos, m0.funcs) == Ok::<(int, Seq<FuncV>), DisasmError>(
                (self.mach().pos, self.mach().funcs),
            ));
        }
        self.rewind();
        let ghost m1 = self.mach();
        proof {
            assert(disassemble_spec(d0, s0, e0, m0) == interp_run(d0, s0, e0, m1));
        }
        while self.cursor < end
            invariant
                self.wf(),
                d0 == old(self).data(),
                s0 == old(self).sys(),
                e0 == old(self).end(),
                m0 == old(self).mach(),
                self.data() == d0,
                self.sys() == s0,
                self.end() == e0,
                end as int == e0,
                disassemble_spec(d0, s0, e0, m0) == interp_run(d0, s0, e0, self.mach()),
            decreases (if self.mach().pos < e0 { e0 - self.mach().pos } else { 0 }),
        {
            let ghost mpre = self.mach();
            match self.disassemble_pass() {
                Ok(()) => {
                    proof {
                        lemma_interp_step_advances(d0, s0, mpre);
                        match interp_step(d0, s0, mpre) {
                            Ok(m2) => {
                                assert(interp_run(d0, s0, e0, mpre) == interp_run(d0, s0, e0, m2));
                            },
                            Err(_) => {
                                assert(false);
                            },
                        }
                    }
                },
                Err(e) => {
                    proof {
                        assert(interp_run(d0, s0, e0, mpre) == Err::<MachV, DisasmError>(e));
                    }
                    return Err(e);
                },
            }
        }
        proof {
            assert(interp_run(d0, s0, e0, self.mach()) == Ok::<MachV, DisasmError>(self.mach()));
        }
        Ok(())
    }
}

/// Pops `n` operands off the analyzer, first popped first.
fn pop_n(sa: &mut StackAnalyzer, n: u8) -> (r: Result<Vec<NamedVariant>, DisasmError>)
    requires
        old(sa).wf(),
        crate::stack::av_wf(old(sa).av()),
    ensures
        final(sa).wf(),
        final(sa).av().locals == old(sa).av().locals,
        final(sa).av().args == old(sa).av().args,
        match av_pop_n(old(sa).av(), n as nat) {
            Ok(r2) => (r matches Ok(v) && named_seq_view(v@) == r2.1 && final(sa).av() == r2.0),
            Err(e) => r == Err::<Vec<NamedVariant>, DisasmError>(e),
        },
    decreases n,
{
    if n == 0 {
        let v: Vec<NamedVariant> = Vec::new();
        proof {
            assert(named_seq_view(v@) =~= Seq::<crate::ir::NamedV>::empty());
        }
        Ok(v)
    } else {
        proof {
            sa.lemma_av_wf();
        }
        match sa.pop() {
            Err(e) => Err(e),
            Ok(first) => {
                proof {
                    sa.lemma_av_wf();
                }
                match pop_n(sa, n - 1) {
                    Err(e) => Err(e),
                    Ok(mut rest) => {
                        let ghost rest0 = rest@;
                        rest.insert(0, first);
                        proof {
                            lemma_named_seq_view(rest0);
                            lemma_named_seq_view(rest@);
                            assert(named_seq_view(rest@) =~= seq![named_view(first)]
                                + named_seq_view(rest0));
                        }
                        Ok(rest)
                    },
                }
            },
        }
    }
}

} // verus!
