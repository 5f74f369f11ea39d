//! The symbolic stack analyzer: a per-routine mirror of the virtual
//! machine's value stack. Slots `[0, locals)` are the routine's declared
//! locals, seeded with placeholder references; everything above them is the
//! live operand area. The analyzer tracks the stack depth in lock-step with
//! the machine, so the operand area never eats into the fixed locals.

use vstd::prelude::*;

use crate::error::DisasmError;
use crate::ir::NamedV;
use crate::ir::NamedVariant;
use crate::ir::Statement;
use crate::ir::Variant;
use crate::ir::VariantV;
use crate::ir::named_seq_view;
use crate::ir::named_view;
use crate::ir::stmt_view;
use crate::ir::lemma_named_seq_view;
use crate::ir::lemma_named_seq_view_push;
use crate::names::arg_name_seq;
use crate::names::local_name_seq;

verus! {

/// Model of a `StackAnalyzer`: the declared counts and the stack slots,
/// locals first, operand area above them.
#[verifier::ext_equal]
pub struct AnalyzerV {
    pub locals: nat,
    pub args: nat,
    pub slots: Seq<NamedV>,
}

/// The placeholder reference a local slot is seeded with: the slot's derived
/// name, carrying no known value.
pub open spec fn placeholder_slot(i: nat) -> NamedV {
    NamedV::StackIndexed { name: local_name_seq(i), variant: VariantV::Nil }
}

/// The reference a constant-producing push records: named by the slot index
/// it lands in, carrying the constant's kind.
pub open spec fn pushed_slot(i: nat, v: VariantV) -> NamedV {
    NamedV::StackIndexed { name: local_name_seq(i), variant: v }
}

/// The synthetic reference for argument slot `k`.
pub open spec fn arg_slot(k: nat) -> NamedV {
    NamedV::StackIndexed { name: arg_name_seq(k), variant: VariantV::Nil }
}

/// What always holds of a live analyzer: the operand area never reaches
/// below the declared locals, and the local slots keep their placeholders.
pub open spec fn av_wf(a: AnalyzerV) -> bool {
    &&& a.locals <= a.slots.len()
    &&& forall|i: int| 0 <= i < a.locals ==> a.slots[i] == placeholder_slot(i as nat)
}

/// The symbolic per-routine stack.
#[derive(Debug)]
pub struct StackAnalyzer {
    local_count: usize,
    args_count: usize,
    cur_top: usize,
    local_variables: Vec<NamedVariant>,
}

impl StackAnalyzer {
    /// Internal consistency: the tracked top is the length of the slot
    /// vector, and the model is well formed.
    pub closed spec fn wf(&self) -> bool {
        &&& self.cur_top == self.local_variables@.len()
        &&& av_wf(self.av())
    }

    /// The analyzer's model.
    pub closed spec fn av(&self) -> AnalyzerV {
        AnalyzerV {
            locals: self.local_count as nat,
            args: self.args_count as nat,
            slots: named_seq_view(self.local_variables@),
        }
    }

    /// A well-formed analyzer has a well-formed model.
    pub proof fn lemma_av_wf(&self)
        requires
            self.wf(),
        ensures
            av_wf(self.av()),
    {
    }

    /// Builds the analyzer for a routine with `local` declared locals and
    /// `args` declared arguments, seeding one placeholder per local slot.
    pub fn new(local: usize, args: usize) -> (r: Self)
        ensures
            r.wf(),
            r.av().locals == local as nat,
            r.av().args == args as nat,
            r.av().slots == Seq::new(local as nat, |i: int| placeholder_slot(i as nat)),
    {
        let mut local_variables: Vec<NamedVariant> = Vec::new();
        let mut i: usize = 0;
        while i < local
            invariant
                i <= local,
                local_variables@.len() == i,
                named_seq_view(local_variables@) == Seq::new(
                    i as nat,
                    |j: int| placeholder_slot(j as nat),
                ),
            decreases local - i,
        {
            let ghost pre = local_variables@;
            local_variables.push(
                NamedVariant::StackIndexed {
                    name: crate::names::local_name(i),
                    variant: Variant::Nil,
                },
            );
            proof {
                lemma_named_seq_view_push(pre, local_variables@.last());
                assert(named_seq_view(pre).push(named_view(local_variables@.last())) =~= Seq::new(
                    (i + 1) as nat,
                    |j: int| placeholder_slot(j as nat),
                ));
            }
            i = i + 1;
        }
        let r = StackAnalyzer {
            local_count: local,
            args_count: args,
            cur_top: local,
            local_variables,
        };
        proof {
            lemma_named_seq_view(r.local_variables@);
        }
        r
    }

    /// Appends one entry to the operand area.
    fn push_named(&mut self, named: NamedVariant) -> (r: Result<(), DisasmError>)
        requires
            old(self).wf(),
        ensures
            final(self).wf(),
            r == Ok::<(), DisasmError>(()),
            final(self).av().locals == old(self).av().locals,
            final(self).av().args == old(self).av().args,
            final(self).av().slots == old(self).av().slots.push(named_view(named)),
    {
        proof {
            lemma_named_seq_view_push(self.local_variables@, named);
            lemma_named_seq_view(self.local_variables@.push(named));
        }
        self.local_variables.push(named);
        self.cur_top = self.local_variables.len();
        Ok(())
    }

    /// Pushes a constant, recorded as a reference named by the slot index it
    /// lands in.
    fn push(&mut self, variant: Variant) -> (r: Result<(), DisasmError>)
        requires
            old(self).wf(),
        ensures
            final(self).wf(),
            r == Ok::<(), DisasmError>(()),
            final(self).av().locals == old(self).av().locals,
            final(self).av().args == old(self).av().args,
            final(self).av().slots == old(self).av().slots.push(
                pushed_slot(old(self).av().slots.len(), crate::ir::variant_view(variant)),
            ),
    {
        proof {
            lemma_named_seq_view(self.local_variables@);
        }
        let named = NamedVariant::StackIndexed {
            name: crate::names::local_name(self.cur_top),
            variant,
        };
        self.push_named(named)
    }

    /// Pushes a nil constant.
    pub fn push_nil(&mut self) -> (r: Result<(), DisasmError>)
        requires
            old(self).wf(),
        ensures
            final(self).wf(),
            r == Ok::<(), DisasmError>(()),
            final(self).av().locals == old(self).av().locals,
            final(self).av().args == old(self).av().args,
            final(self).av().slots == old(self).av().slots.push(
                pushed_slot(old(self).av().slots.len(), VariantV::Nil),
            ),
    {
        self.push(Variant::Nil)
    }

    /// Pushes a true constant.
    pub fn push_true(&mut self) -> (r: Result<(), DisasmError>)
        requires
            old(self).wf(),
        ensures
            final(self).wf(),
            r == Ok::<(), DisasmError>(()),
            final(self).av().locals == old(self).av().locals,
            final(self).av().args == old(self).av().args,
            final(self).av().slots == old(self).av().slots.push(
                pushed_slot(old(self).av().slots.len(), VariantV::True),
            ),
    {
        self.push(Variant::True)
    }

    /// Pushes an integer constant.
    pub fn push_int(&mut self, value: i32) -> (r: Result<(), DisasmError>)
        requires
            old(self).wf(),
        ensures
            final(self).wf(),
            r == Ok::<(), DisasmError>(()),
            final(self).av().locals == old(self).av().locals,
            final(self).av().args == old(self).av().args,
            final(self).av().slots == old(self).av().slots.push(
                pushed_slot(old(self).av().slots.len(), VariantV::Int(value)),
            ),
    {
        self.push(Variant::Int(value))
    }

    /// Pushes a float constant, carried as its raw bits.
    pub fn push_float(&mut self, bits: u32) -> (r: Result<(), DisasmError>)
        requires
            old(self).wf(),
        ensures
            final(self).wf(),
            r == Ok::<(), DisasmError>(()),
            final(self).av().locals == old(self).av().locals,
            final(self).av().args == old(self).av().args,
            final(self).av().slots == old(self).av().slots.push(
                pushed_slot(old(self).av().slots.len(), VariantV::Float(bits)),
            ),
    {
        self.push(Variant::Float(bits))
    }

    /// Pushes a string constant, carried as its raw bytes.
    pub fn push_string(&mut self, value: Vec<u8>) -> (r: Result<(), DisasmError>)
        requires
            old(self).wf(),
        ensures
            final(self).wf(),
            r == Ok::<(), DisasmError>(()),
            final(self).av().locals == old(self).av().locals,
            final(self).av().args == old(self).av().args,
            final(self).av().slots == old(self).av().slots.push(
                pushed_slot(old(self).av().slots.len(), VariantV::Str(value@)),
            ),
    {
        self.push(Variant::Str(value))
    }

    /// Pushes a reference to a global-table entry.
    pub fn push_global(&mut self, slot: u32) -> (r: Result<(), DisasmError>)
        requires
            old(self).wf(),
        ensures
            final(self).wf(),
            r == Ok::<(), DisasmError>(()),
            final(self).av().locals == old(self).av().locals,
            final(self).av().args == old(self).av().args,
            final(self).av().slots == old(self).av().slots.push(NamedV::Global { slot }),
    {
        self.push_named(NamedVariant::from_global(slot))
    }

    /// Pushes a copy of the referenced local or argument slot. Non-negative
    /// offsets must index a declared local; offsets at or below -2 name a
    /// synthetic argument; offset -1 is reserved for the frame pointer and
    /// is rejected, as is a non-negative offset at or past the local count.
    pub fn push_stack(&mut self, idx: i8) -> (r: Result<(), DisasmError>)
        requires
            old(self).wf(),
        ensures
            final(self).wf(),
            final(self).av().locals == old(self).av().locals,
            final(self).av().args == old(self).av().args,
            (0 <= idx && (idx as int) < old(self).av().locals) ==> (r == Ok::<(), DisasmError>(())
                && final(self).av().slots == old(self).av().slots.push(old(self).av().slots[idx as int])),
            (idx <= -2) ==> (r == Ok::<(), DisasmError>(()) && final(self).av().slots == old(
                self,
            ).av().slots.push(arg_slot((-(idx as int) - 2) as nat))),
            (idx == -1 || (0 <= idx && (idx as int) >= old(self).av().locals)) ==> (r == Err::<
                (),
                DisasmError,
            >(DisasmError::InvalidStackIndex { index: idx }) && final(self).av() == old(self).av()),
    {
        proof {
            lemma_named_seq_view(self.local_variables@);
        }
        if idx >= 0 && (idx as usize) < self.local_count {
            let tmp = self.local_variables[idx as usize].duplicate();
            self.push_named(tmp)
        } else if idx < -1 {
            match NamedVariant::from_arg(idx, Variant::Nil) {
                Ok(tmp) => self.push_named(tmp),
                Err(e) => Err(e),
            }
        } else {
            Err(DisasmError::InvalidStackIndex { index: idx })
        }
    }

    /// Duplicates the current top of the stack; fails on an entirely empty
    /// stack.
    pub fn push_top(&mut self) -> (r: Result<(), DisasmError>)
        requires
            old(self).wf(),
        ensures
            final(self).wf(),
            final(self).av().locals == old(self).av().locals,
            final(self).av().args == old(self).av().args,
            old(self).av().slots.len() > 0 ==> (r == Ok::<(), DisasmError>(()) && final(self).av().slots
                == old(self).av().slots.push(old(self).av().slots.last())),
            old(self).av().slots.len() == 0 ==> (r == Err::<(), DisasmError>(
                DisasmError::StackUnderflow,
            ) && final(self).av() == old(self).av()),
    {
        proof {
            lemma_named_seq_view(self.local_variables@);
        }
        if self.cur_top > 0 {
            let tmp = self.local_variables[self.cur_top - 1].duplicate();
            self.push_named(tmp)
        } else {
            Err(DisasmError::StackUnderflow)
        }
    }

    /// Pushes a reference to the callee's most recent return value.
    pub fn push_return_value(&mut self) -> (r: Result<(), DisasmError>)
        requires
            old(self).wf(),
        ensures
            final(self).wf(),
            r == Ok::<(), DisasmError>(()),
            final(self).av().locals == old(self).av().locals,
            final(self).av().args == old(self).av().args,
            final(self).av().slots == old(self).av().slots.push(NamedV::ReturnValue),
    {
        self.push_named(NamedVariant::from_return_value())
    }

    /// Wraps a just-built statement and pushes it as an operand.
    pub fn push_expr(&mut self, expr: Statement) -> (r: Result<(), DisasmError>)
        requires
            old(self).wf(),
        ensures
            final(self).wf(),
            r == Ok::<(), DisasmError>(()),
            final(self).av().locals == old(self).av().locals,
            final(self).av().args == old(self).av().args,
            final(self).av().slots == old(self).av().slots.push(
                NamedV::Expr { expr: Box::new(stmt_view(expr)) },
            ),
    {
        let ghost e = stmt_view(expr);
        let named = NamedVariant::from_expr(expr);
        self.push_named(named)
    }

    /// Pops the top operand; fails when the operand area is empty, so the
    /// stack never reaches into the fixed local slots.
    pub fn pop(&mut self) -> (r: Result<NamedVariant, DisasmError>)
        requires
            old(self).wf(),
        ensures
            final(self).wf(),
            final(self).av().locals == old(self).av().locals,
            final(self).av().args == old(self).av().args,
            old(self).av().slots.len() > old(self).av().locals ==> (r matches Ok(v) && named_view(v)
                == old(self).av().slots.last() && final(self).av().slots == old(
                self,
            ).av().slots.drop_last()),
            old(self).av().slots.len() == old(self).av().locals ==> (r == Err::<
                NamedVariant,
                DisasmError,
            >(DisasmError::StackUnderflow) && final(self).av() == old(self).av()),
    {
        proof {
            lemma_named_seq_view(self.local_variables@);
        }
        if self.cur_top > self.local_count {
            let ghost pre = self.local_variables@;
            match self.local_variables.pop() {
                Some(v) => {
                    self.cur_top = self.cur_top - 1;
                    proof {
                        assert(pre.drop_last() =~= self.local_variables@);
                        lemma_named_seq_view_push(pre.drop_last(), v);
                        assert(pre.drop_last().push(v) =~= pre);
                        assert(named_seq_view(pre).drop_last() =~= named_seq_view(
                            self.local_variables@,
                        ));
                        lemma_named_seq_view(self.local_variables@);
                    }
                    Ok(v)
                },
                None => Err(DisasmError::StackUnderflow),
            }
        } else {
            Err(DisasmError::StackUnderflow)
        }
    }

    /// Reads a local or argument slot without popping, under the same
    /// indexing rules as `push_stack`.
    pub fn get(&self, idx: i8) -> (r: Result<NamedVariant, DisasmError>)
        requires
            self.wf(),
        ensures
            (0 <= idx && (idx as int) < self.av().locals) ==> (r matches Ok(v) && named_view(v)
                == self.av().slots[idx as int]),
            (idx <= -2) ==> (r matches Ok(v) && named_view(v) == arg_slot(
                (-(idx as int) - 2) as nat,
            )),
            (idx == -1 || (0 <= idx && (idx as int) >= self.av().locals)) ==> r == Err::<
                NamedVariant,
                DisasmError,
            >(DisasmError::InvalidStackIndex { index: idx }),
    {
        proof {
            lemma_named_seq_view(self.local_variables@);
        }
        if idx >= 0 && (idx as usize) < self.local_count {
            Ok(self.local_variables[idx as usize].duplicate())
        } else if idx < -1 {
            NamedVariant::from_arg(idx, Variant::Nil)
        } else {
            Err(DisasmError::InvalidStackIndex { index: idx })
        }
    }

    /// The current stack depth, locals included.
    pub fn current_stack_top(&self) -> (r: usize)
        requires
            self.wf(),
        ensures
            r as int == self.av().slots.len(),
    {
        proof {
            lemma_named_seq_view(self.local_variables@);
        }
        self.cur_top
    }
}

} // verus!
