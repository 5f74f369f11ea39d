//! The intermediate representation: references to value-producing locations
//! (`NamedVariant`) and the statements a routine is made of (`Statement`),
//! together with their mathematical models (`NamedV`, `StmtV`).

use vstd::prelude::*;

use crate::error::DisasmError;
use crate::names::arg_name;
use crate::names::arg_name_seq;
use crate::names::local_name;
use crate::names::local_name_seq;

verus! {

/// The semantic kind a constant-producing push carries.
#[derive(Debug, Clone)]
pub enum Variant {
    Nil,
    True,
    Int(i32),
    /// Raw IEEE-754 bits of a 32-bit float constant, kept undecoded.
    Float(u32),
    /// Raw bytes of a string constant, kept in the scenario's own encoding.
    Str(Vec<u8>),
}

/// Model of `Variant`.
#[verifier::ext_equal]
pub enum VariantV {
    Nil,
    True,
    Int(i32),
    Float(u32),
    Str(Seq<u8>),
}

impl DeepView for Variant {
    type V = VariantV;

    open spec fn deep_view(&self) -> VariantV {
        match self {
            Variant::Nil => VariantV::Nil,
            Variant::True => VariantV::True,
            Variant::Int(v) => VariantV::Int(*v),
            Variant::Float(bits) => VariantV::Float(*bits),
            Variant::Str(bytes) => VariantV::Str(bytes.deep_view()),
        }
    }
}

/// A reference to a value-producing location.
#[derive(Debug)]
pub enum NamedVariant {
    /// A fixed local slot or a negative-indexed argument slot; the name is
    /// derived deterministically from the slot index.
    StackIndexed { name: String, variant: Variant },
    /// The callee's most recent return value.
    ReturnValue,
    /// A global-table entry, by numeric key.
    Global { slot: u32 },
    /// A reference computed by a nested statement (e.g. a table access).
    Expr { expr: Box<Statement> },
}

/// One operation of the intermediate representation, carrying the byte
/// address of the originating opcode.
#[derive(Debug)]
pub enum Statement {
    Call { address: u32, target: u32, args: Vec<NamedVariant> },
    Syscall { address: u32, syscall_name: String, args: Vec<NamedVariant> },
    Return { address: u32, has_value: bool },
    Jmp { address: u32, target: u32 },
    Jz { address: u32, target: u32, condition: NamedVariant },
    GlobalTableAccess { address: u32, tlb: NamedVariant, slot: NamedVariant },
    LocalTableAccess { address: u32, tlb: NamedVariant, slot: NamedVariant },
    BinaryOp { address: u32, op: String, lhs: NamedVariant, rhs: NamedVariant },
    UnaryOp { address: u32, op: String, operand: NamedVariant },
    Assign { address: u32, target: NamedVariant, value: NamedVariant },
}

/// Model of `NamedVariant`.
#[verifier::ext_equal]
pub enum NamedV {
    StackIndexed { name: Seq<char>, variant: VariantV },
    ReturnValue,
    Global { slot: u32 },
    Expr { expr: Box<StmtV> },
}

/// Model of `Statement`.
#[verifier::ext_equal]
pub enum StmtV {
    Call { address: u32, target: u32, args: Seq<NamedV> },
    Syscall { address: u32, syscall_name: Seq<char>, args: Seq<NamedV> },
    Return { address: u32, has_value: bool },
    Jmp { address: u32, target: u32 },
    Jz { address: u32, target: u32, condition: NamedV },
    GlobalTableAccess { address: u32, tlb: NamedV, slot: NamedV },
    LocalTableAccess { address: u32, tlb: NamedV, slot: NamedV },
    BinaryOp { address: u32, op: Seq<char>, lhs: NamedV, rhs: NamedV },
    UnaryOp { address: u32, op: Seq<char>, operand: NamedV },
    Assign { address: u32, target: NamedV, value: NamedV },
}

/// Model of a `Variant` value.
pub open spec fn variant_view(v: Variant) -> VariantV {
    match v {
        Variant::Nil => VariantV::Nil,
        Variant::True => VariantV::True,
        Variant::Int(n) => VariantV::Int(n),
        Variant::Float(bits) => VariantV::Float(bits),
        Variant::Str(bytes) => VariantV::Str(bytes@),
    }
}

/// Model of a `NamedVariant` value.
pub open spec fn named_view(n: NamedVariant) -> NamedV
    decreases n,
{
    match n {
        NamedVariant::StackIndexed { name, variant } => NamedV::StackIndexed {
            name: name@,
            variant: variant_view(variant),
        },
        NamedVariant::ReturnValue => NamedV::ReturnValue,
        NamedVariant::Global { slot } => NamedV::Global { slot },
        NamedVariant::Expr { expr } => NamedV::Expr { expr: Box::new(stmt_view(*expr)) },
    }
}

/// Model of a sequence of `NamedVariant`s, elementwise.
pub open spec fn named_seq_view(s: Seq<NamedVariant>) -> Seq<NamedV>
    decreases s,
{
    if s.len() == 0 {
        Seq::<NamedV>::empty()
    } else {
        named_seq_view(s.drop_last()).push(named_view(s.last()))
    }
}

/// Model of a `Statement` value.
pub open spec fn stmt_view(s: Statement) -> StmtV
    decreases s,
{
    match s {
        Statement::Call { address, target, args } => StmtV::Call {
            address,
            target,
            args: named_seq_view(args@),
        },
        Statement::Syscall { address, syscall_name, args } => StmtV::Syscall {
            address,
            syscall_name: syscall_name@,
            args: named_seq_view(args@),
        },
        Statement::Return { address, has_value } => StmtV::Return { address, has_value },
        Statement::Jmp { address, target } => StmtV::Jmp { address, target },
        Statement::Jz { address, target, condition } => StmtV::Jz {
            address,
            target,
            condition: named_view(condition),
        },
        Statement::GlobalTableAccess { address, tlb, slot } => StmtV::GlobalTableAccess {
            address,
            tlb: named_view(tlb),
            slot: named_view(slot),
        },
        Statement::LocalTableAccess { address, tlb, slot } => StmtV::LocalTableAccess {
            address,
            tlb: named_view(tlb),
            slot: named_view(slot),
        },
        Statement::BinaryOp { address, op, lhs, rhs } => StmtV::BinaryOp {
            address,
            op: op@,
            lhs: named_view(lhs),
            rhs: named_view(rhs),
        },
        Statement::UnaryOp { address, op, operand } => StmtV::UnaryOp {
            address,
            op: op@,
            operand: named_view(operand),
        },
        Statement::Assign { address, target, value } => StmtV::Assign {
            address,
            target: named_view(target),
            value: named_view(value),
        },
    }
}

/// The originating byte address a statement carries.
pub open spec fn stmt_addr(s: StmtV) -> u32 {
    match s {
        StmtV::Call { address, .. } => address,
        StmtV::Syscall { address, .. } => address,
        StmtV::Return { address, .. } => address,
        StmtV::Jmp { address, .. } => address,
        StmtV::Jz { address, .. } => address,
        StmtV::GlobalTableAccess { address, .. } => address,
        StmtV::LocalTableAccess { address, .. } => address,
        StmtV::BinaryOp { address, .. } => address,
        StmtV::UnaryOp { address, .. } => address,
        StmtV::Assign { address, .. } => address,
    }
}

/// `named_seq_view` maps the sequence elementwise.
pub proof fn lemma_named_seq_view(s: Seq<NamedVariant>)
    ensures
        named_seq_view(s).len() == s.len(),
        forall|i: int| 0 <= i < s.len() ==> named_seq_view(s)[i] == named_view(s[i]),
    decreases s.len(),
{
    if s.len() > 0 {
        lemma_named_seq_view(s.drop_last());
        assert forall|i: int| 0 <= i < s.len() implies named_seq_view(s)[i] == named_view(
            s[i],
        ) by {
            if i < s.len() - 1 {
                assert(named_seq_view(s.drop_last())[i] == named_view(s.drop_last()[i]));
            }
        }
    }
}

/// Appending one reference appends its model.
pub proof fn lemma_named_seq_view_push(s: Seq<NamedVariant>, x: NamedVariant)
    ensures
        named_seq_view(s.push(x)) == named_seq_view(s).push(named_view(x)),
{
    assert(s.push(x).drop_last() =~= s);
    assert(s.push(x).last() == x);
    assert(named_seq_view(s.push(x)) =~= named_seq_view(s).push(named_view(x)));
}

fn copy_bytes(v: &Vec<u8>) -> (r: Vec<u8>)
    ensures
        r@ == v@,
{
    let mut r: Vec<u8> = Vec::new();
    let mut i: usize = 0;
    while i < v.len()
        invariant
            i <= v.len(),
            r@ == v@.take(i as int),
        decreases v.len() - i,
    {
        r.push(v[i]);
        proof {
            assert(v@.take(i as int).push(v@[i as int]) =~= v@.take(i + 1));
        }
        i = i + 1;
    }
    proof {
        assert(v@.take(v@.len() as int) =~= v@);
    }
    r
}

impl Variant {
    /// A structural copy with the same model.
    pub fn duplicate(&self) -> (r: Self)
        ensures
            variant_view(r) == variant_view(*self),
    {
        match self {
            Variant::Nil => Variant::Nil,
            Variant::True => Variant::True,
            Variant::Int(n) => Variant::Int(*n),
            Variant::Float(bits) => Variant::Float(*bits),
            Variant::Str(bytes) => Variant::Str(copy_bytes(bytes)),
        }
    }
}

impl NamedVariant {
    /// Builds the argument-slot reference for a negative stack offset.
    /// Offsets count down from -2 (offset -1 is the frame pointer), so the
    /// offset `i <= -2` names the slot `arg{|i| - 2}`; any other offset is
    /// rejected.
    pub fn from_arg(index: i8, variant: Variant) -> (r: Result<Self, DisasmError>)
        ensures
            index >= -1 ==> r == Err::<Self, DisasmError>(DisasmError::InvalidArgIndex { index }),
            index <= -2 ==> (r matches Ok(v) && named_view(v) == (NamedV::StackIndexed {
                name: arg_name_seq((-(index as int) - 2) as nat),
                variant: variant_view(variant),
            })),
    {
        if index >= -1 {
            Err(DisasmError::InvalidArgIndex { index })
        } else {
            let k: i32 = -(index as i32) - 2;
            Ok(NamedVariant::StackIndexed { name: arg_name(k as usize), variant })
        }
    }

    /// Builds the local-slot reference `local{index}` for a non-negative
    /// index; negative indices are rejected.
    pub fn from_local(index: i8, variant: Variant) -> (r: Result<Self, DisasmError>)
        ensures
            index < 0 ==> r == Err::<Self, DisasmError>(DisasmError::InvalidLocalIndex { index }),
            index >= 0 ==> (r matches Ok(v) && named_view(v) == (NamedV::StackIndexed {
                name: local_name_seq(index as nat),
                variant: variant_view(variant),
            })),
    {
        if index < 0 {
            Err(DisasmError::InvalidLocalIndex { index })
        } else {
            Ok(NamedVariant::StackIndexed { name: local_name(index as usize), variant })
        }
    }

    /// Builds the global-table reference for a numeric key.
    pub fn from_global(slot: u32) -> (r: Self)
        ensures
            named_view(r) == (NamedV::Global { slot }),
    {
        NamedVariant::Global { slot }
    }

    /// Builds the reference to the callee's most recent return value.
    pub fn from_return_value() -> (r: Self)
        ensures
            named_view(r) == NamedV::ReturnValue,
    {
        NamedVariant::ReturnValue
    }

    /// Wraps a just-built statement so it can be used as an operand.
    pub fn from_expr(expr: Statement) -> (r: Self)
        ensures
            named_view(r) == (NamedV::Expr { expr: Box::new(stmt_view(expr)) }),
    {
        NamedVariant::Expr { expr: Box::new(expr) }
    }

    /// Whether two references denote the same storage slot. This is decided
    /// only between two stack-indexed references, by their derived names;
    /// every other pairing is unknown rather than false.
    pub fn is_same_register(&self, other: &Self) -> (r: Option<bool>)
        ensures
            match (named_view(*self), named_view(*other)) {
                (
                    NamedV::StackIndexed { name: n1, .. },
                    NamedV::StackIndexed { name: n2, .. },
                ) => r == Some(n1 == n2),
                _ => r is None,
            },
    {
        match (self, other) {
            (
                NamedVariant::StackIndexed { name: n1, .. },
                NamedVariant::StackIndexed { name: n2, .. },
            ) => Some(*n1 == *n2),
            _ => None,
        }
    }

    /// A structural copy with the same model.
    pub fn duplicate(&self) -> (r: Self)
        ensures
            named_view(r) == named_view(*self),
        decreases *self,
    {
        match self {
            NamedVariant::StackIndexed { name, variant } => NamedVariant::StackIndexed {
                name: name.clone(),
                variant: variant.duplicate(),
            },
            NamedVariant::ReturnValue => NamedVariant::ReturnValue,
            NamedVariant::Global { slot } => NamedVariant::Global { slot: *slot },
            NamedVariant::Expr { expr } => NamedVariant::Expr {
                expr: Box::new((**expr).duplicate()),
            },
        }
    }
}

fn duplicate_args(args: &Vec<NamedVariant>) -> (r: Vec<NamedVariant>)
    ensures
        named_seq_view(r@) == named_seq_view(args@),
    decreases *args,
{
    let mut r: Vec<NamedVariant> = Vec::new();
    let mut i: usize = 0;
    while i < args.len()
        invariant
            i <= args.len(),
            named_seq_view(r@) == named_seq_view(args@.take(i as int)),
        decreases args.len() - i,
    {
        let ghost pre = r@;
        r.push(args[i].duplicate());
        proof {
            lemma_named_seq_view_push(pre, r@.last());
            lemma_named_seq_view_push(args@.take(i as int), args@[i as int]);
            assert(args@.take(i as int).push(args@[i as int]) =~= args@.take(i + 1));
        }
        i = i + 1;
    }
    proof {
        assert(args@.take(args@.len() as int) =~= args@);
    }
    r
}

impl Statement {
    /// Builds a call statement from the popped argument references.
    pub fn from_call(address: u32, target: u32, args: Vec<NamedVariant>) -> (r: Self)
        ensures
            stmt_view(r) == (StmtV::Call { address, target, args: named_seq_view(args@) }),
    {
        Statement::Call { address, target, args }
    }

    /// Builds a syscall statement from the popped argument references.
    pub fn from_syscall(address: u32, syscall_name: String, args: Vec<NamedVariant>) -> (r: Self)
        ensures
            stmt_view(r) == (StmtV::Syscall {
                address,
                syscall_name: syscall_name@,
                args: named_seq_view(args@),
            }),
    {
        Statement::Syscall { address, syscall_name, args }
    }

    /// Builds a return statement.
    pub fn from_return(address: u32, has_value: bool) -> (r: Self)
        ensures
            stmt_view(r) == (StmtV::Return { address, has_value }),
    {
        Statement::Return { address, has_value }
    }

    /// Builds an unconditional jump statement.
    pub fn from_jmp(address: u32, target: u32) -> (r: Self)
        ensures
            stmt_view(r) == (StmtV::Jmp { address, target }),
    {
        Statement::Jmp { address, target }
    }

    /// Builds a jump-if-zero statement from the popped condition.
    pub fn from_jz(address: u32, target: u32, condition: NamedVariant) -> (r: Self)
        ensures
            stmt_view(r) == (StmtV::Jz { address, target, condition: named_view(condition) }),
    {
        Statement::Jz { address, target, condition }
    }

    /// Builds a global-table access statement.
    pub fn from_global_table_access(address: u32, tlb: NamedVariant, slot: NamedVariant) -> (r:
        Self)
        ensures
            stmt_view(r) == (StmtV::GlobalTableAccess {
                address,
                tlb: named_view(tlb),
                slot: named_view(slot),
            }),
    {
        Statement::GlobalTableAccess { address, tlb, slot }
    }

    /// Builds a local-table access statement.
    pub fn from_local_table_access(address: u32, tlb: NamedVariant, slot: NamedVariant) -> (r:
        Self)
        ensures
            stmt_view(r) == (StmtV::LocalTableAccess {
                address,
                tlb: named_view(tlb),
                slot: named_view(slot),
            }),
    {
        Statement::LocalTableAccess { address, tlb, slot }
    }

    /// Builds a binary-operation statement.
    pub fn from_binary_op(address: u32, op: String, lhs: NamedVariant, rhs: NamedVariant) -> (r:
        Self)
        ensures
            stmt_view(r) == (StmtV::BinaryOp {
                address,
                op: op@,
                lhs: named_view(lhs),
                rhs: named_view(rhs),
            }),
    {
        Statement::BinaryOp { address, op, lhs, rhs }
    }

    /// Builds a unary-operation statement.
    pub fn from_unary_op(address: u32, op: String, operand: NamedVariant) -> (r: Self)
        ensures
            stmt_view(r) == (StmtV::UnaryOp { address, op: op@, operand: named_view(operand) }),
    {
        Statement::UnaryOp { address, op, operand }
    }

    /// Builds an assignment statement.
    pub fn from_assign(address: u32, target: NamedVariant, value: NamedVariant) -> (r: Self)
        ensures
            stmt_view(r) == (StmtV::Assign {
                address,
                target: named_view(target),
                value: named_view(value),
            }),
    {
        Statement::Assign { address, target, value }
    }

    /// The byte address of the originating opcode.
    pub fn address(&self) -> (r: u32)
        ensures
            r == stmt_addr(stmt_view(*self)),
    {
        match self {
            Statement::Call { address, .. } => *address,
            Statement::Syscall { address, .. } => *address,
            Statement::Return { address, .. } => *address,
            Statement::Jmp { address, .. } => *address,
            Statement::Jz { address, .. } => *address,
            Statement::GlobalTableAccess { address, .. } => *address,
            Statement::LocalTableAccess { address, .. } => *address,
            Statement::BinaryOp { address, .. } => *address,
            Statement::UnaryOp { address, .. } => *address,
            Statement::Assign { address, .. } => *address,
        }
    }

    /// A structural copy with the same model.
    pub fn duplicate(&self) -> (r: Self)
        ensures
            stmt_view(r) == stmt_view(*self),
        decreases *self,
    {
        match self {
            Statement::Call { address, target, args } => Statement::Call {
                address: *address,
                target: *target,
                args: duplicate_args(args),
            },
            Statement::Syscall { address, syscall_name, args } => Statement::Syscall {
                address: *address,
                syscall_name: syscall_name.clone(),
                args: duplicate_args(args),
            },
            Statement::Return { address, has_value } => Statement::Return {
                address: *address,
                has_value: *has_value,
            },
            Statement::Jmp { address, target } => Statement::Jmp {
                address: *address,
                target: *target,
            },
            Statement::Jz { address, target, condition } => Statement::Jz {
                address: *address,
                target: *target,
                condition: condition.duplicate(),
            },
            Statement::GlobalTableAccess { address, tlb, slot } => Statement::GlobalTableAccess {
                address: *address,
                tlb: tlb.duplicate(),
                slot: slot.duplicate(),
            },
            Statement::LocalTableAccess { address, tlb, slot } => Statement::LocalTableAccess {
                address: *address,
                tlb: tlb.duplicate(),
                slot: slot.duplicate(),
            },
            Statement::BinaryOp { address, op, lhs, rhs } => Statement::BinaryOp {
                address: *address,
                op: op.clone(),
                lhs: lhs.duplicate(),
                rhs: rhs.duplicate(),
            },
            Statement::UnaryOp { address, op, operand } => Statement::UnaryOp {
                address: *address,
                op: op.clone(),
                operand: operand.duplicate(),
            },
            Statement::Assign { address, target, value } => Statement::Assign {
                address: *address,
                target: target.duplicate(),
                value: value.duplicate(),
            },
        }
    }
}

} // verus!
