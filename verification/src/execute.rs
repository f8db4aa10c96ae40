//! Runtime values and the errors raised while instantiating or running a module.
use crate::components::{Blocktype, Funcidx, Functype, Localidx, Memtype, Typeidx};
use crate::components::Valtype;
use crate::instructions::{lemma_vec_view, Instr, SignExtensionInstr};
use crate::memory::{load_le, store_le};
use crate::numeric::{
    f32_signop, f64_signop, i32_binop, i32_relop, i32_unop, i64_binop, i64_relop, i64_unop,
};
use crate::instance::{same_funcs, spec_functype_of, Env, FuncInst, HostFunc};
use crate::module::Module;
use crate::semantics::{
    is_control, is_numeric, is_plain, lemma_run_plain_trapped, locals_kept, pop1, pop2_f32, pop2_f64, pop2_i32, pop2_i64, spec_numeric, spec_plain, spec_run_plain,
    val_bits, MachineState,
};
use crate::control::{
    agrees, agrees_call, call_entry, entered, extends, finish_call, lemma_extends_push,
    lemma_extends_refl, lemma_extends_trans, lemma_same_shapes, lemma_shape_type, min_nat, run_block,
    run_call, run_call_indirect, run_instr, run_loop, run_seq, shapes, FloatCall, HostCall, Outside, Run,
    lemma_extends_last, float_step,
};
use crate::decode::views;
use crate::PAGE_SIZE;
use vstd::prelude::*;

verus! {

/// Why instantiation or execution stopped.
#[derive(Debug, Clone, Copy, PartialEq, Eq, Structural)]
pub enum ExecuteError {
    NotExportedFunction,
    UnresolvedImport { index: usize },
    InvalidImportedMem,
    InvalidImportedTable,
    InvalidData { index: usize },
    InvalidElem { index: usize },
    InvalidGlobal { index: usize },
    InvalidMemidx,
    InvalidFuncidx,
    InvalidTypeidx,
    InvalidFuncArgs,
    Trapped,
    Exhausted,
}

/// A runtime value. A floating-point value is held as its IEEE 754 bit
/// pattern.
#[derive(Debug, Clone, Copy, PartialEq, Eq, Structural)]
pub enum Val {
    I32(i32),
    I64(i64),
    F32(u32),
    F64(u64),
}

impl Val {
    pub open spec fn spec_ty(self) -> Valtype {
        match self {
            Val::I32(_) => Valtype::I32,
            Val::I64(_) => Valtype::I64,
            Val::F32(_) => Valtype::F32,
            Val::F64(_) => Valtype::F64,
        }
    }

    /// The type of the value.
    pub fn ty(self) -> (t: Valtype)
        ensures
            t == self.spec_ty(),
    {
        match self {
            Val::I32(_) => Valtype::I32,
            Val::I64(_) => Valtype::I64,
            Val::F32(_) => Valtype::F32,
            Val::F64(_) => Valtype::F64,
        }
    }

    /// The value if it is an `i32`.
    pub fn as_i32(self) -> (r: Option<i32>)
        ensures
            r == (match self {
                Val::I32(v) => Some(v),
                _ => None::<i32>,
            }),
    {
        if let Val::I32(v) = self {
            Some(v)
        } else {
            None
        }
    }

    /// The value if it is an `i64`.
    pub fn as_i64(self) -> (r: Option<i64>)
        ensures
            r == (match self {
                Val::I64(v) => Some(v),
                _ => None::<i64>,
            }),
    {
        if let Val::I64(v) = self {
            Some(v)
        } else {
            None
        }
    }

    /// The bit pattern of the value if it is an `f32`.
    pub fn as_f32_bits(self) -> (r: Option<u32>)
        ensures
            r == (match self {
                Val::F32(v) => Some(v),
                _ => None::<u32>,
            }),
    {
        if let Val::F32(v) = self {
            Some(v)
        } else {
            None
        }
    }

    /// The bit pattern of the value if it is an `f64`.
    pub fn as_f64_bits(self) -> (r: Option<u64>)
        ensures
            r == (match self {
                Val::F64(v) => Some(v),
                _ => None::<u64>,
            }),
    {
        if let Val::F64(v) = self {
            Some(v)
        } else {
            None
        }
    }

    pub open spec fn spec_zero(ty: Valtype) -> Val {
        match ty {
            Valtype::I32 => Val::I32(0),
            Valtype::I64 => Val::I64(0),
            Valtype::F32 => Val::F32(0),
            Valtype::F64 => Val::F64(0),
        }
    }

    /// The zero of a type (positive zero for floating point), the initial
    /// value of a local.
    pub fn zero(ty: Valtype) -> (v: Val)
        ensures
            v == Val::spec_zero(ty),
    {
        match ty {
            Valtype::I32 => Val::I32(0),
            Valtype::I64 => Val::I64(0),
            Valtype::F32 => Val::F32(0),
            Valtype::F64 => Val::F64(0),
        }
    }

    pub open spec fn spec_byte_size(self) -> nat {
        match self {
            Val::I32(_) => 4,
            Val::I64(_) => 8,
            Val::F32(_) => 4,
            Val::F64(_) => 8,
        }
    }

    /// The number of bytes that the value occupies in memory.
    pub fn byte_size(self) -> (n: usize)
        ensures
            n == self.spec_byte_size(),
    {
        match self {
            Val::I32(_) => 4,
            Val::I64(_) => 8,
            Val::F32(_) => 4,
            Val::F64(_) => 8,
        }
    }
}

/// A global variable: its value and whether it may be set.
#[derive(Debug, Clone, Copy, PartialEq, Eq, Structural)]
pub struct GlobalVal {
    is_const: bool,
    val: Val,
}

impl GlobalVal {
    /// The global holding `val`, constant or not.
    pub closed spec fn spec_new(is_const: bool, val: Val) -> GlobalVal {
        GlobalVal { is_const, val }
    }

    pub closed spec fn spec_is_const(self) -> bool {
        self.is_const
    }

    pub closed spec fn spec_val(self) -> Val {
        self.val
    }

    /// The global after an attempt to set it to `val`: a constant global
    /// stays as it is.
    pub closed spec fn spec_set(self, val: Val) -> GlobalVal {
        if self.is_const {
            self
        } else {
            GlobalVal { is_const: false, val }
        }
    }

    /// Setting a mutable global to `val` makes `val` its value; setting a
    /// constant global leaves it as it was; either way it stays as constant
    /// or as mutable as it was.
    pub proof fn lemma_set(self, val: Val)
        ensures
            self.spec_set(val).spec_is_const() == self.spec_is_const(),
            !self.spec_is_const() ==> self.spec_set(val).spec_val() == val,
            self.spec_is_const() ==> self.spec_set(val) == self,
    {
    }

    /// A new global holds the value it was made with, and is constant or
    /// not as it was made.
    pub proof fn lemma_new(is_const: bool, val: Val)
        ensures
            GlobalVal::spec_new(is_const, val).spec_val() == val,
            GlobalVal::spec_new(is_const, val).spec_is_const() == is_const,
    {
    }

    /// A global holding `val`.
    pub fn new(is_const: bool, val: Val) -> (g: Self)
        ensures
            g == GlobalVal::spec_new(is_const, val),
            g.spec_is_const() == is_const,
            g.spec_val() == val,
    {
        GlobalVal { is_const, val }
    }

    /// Whether the global may not be set.
    pub fn is_const(self) -> (b: bool)
        ensures
            b == self.spec_is_const(),
    {
        self.is_const
    }

    /// The global's value.
    pub fn get(self) -> (v: Val)
        ensures
            v == self.spec_val(),
    {
        self.val
    }

    /// Sets the value of a mutable global; a constant global is left as it
    /// is. Returns whether the value was set.
    pub fn set(&mut self, val: Val) -> (b: bool)
        ensures
            b == !old(self).spec_is_const(),
            final(self).spec_is_const() == old(self).spec_is_const(),
            final(self).spec_val() == if b {
                val
            } else {
                old(self).spec_val()
            },
            *final(self) == old(self).spec_set(val),
    {
        if !self.is_const {
            self.val = val;
            true
        } else {
            false
        }
    }
}

/// The bits of a value as an unsigned number.
pub fn bits_of(v: Val) -> (r: u64)
    ensures
        r == val_bits(v),
{
    match v {
        Val::I32(a) => (a as u32) as u64,
        Val::I64(a) => a as u64,
        Val::F32(a) => a as u64,
        Val::F64(a) => a,
    }
}

/// The unary floating-point operators that need floating-point arithmetic.
#[derive(Debug, Clone, Copy, PartialEq, Eq, Structural)]
pub enum FloatUnop {
    Ceil,
    Floor,
    Trunc,
    Nearest,
    Sqrt,
}

/// The binary floating-point operators that need floating-point arithmetic.
#[derive(Debug, Clone, Copy, PartialEq, Eq, Structural)]
pub enum FloatBinop {
    Add,
    Sub,
    Mul,
    Div,
    Min,
    Max,
}

/// The floating-point comparisons.
#[derive(Debug, Clone, Copy, PartialEq, Eq, Structural)]
pub enum FloatRelop {
    Eq,
    Ne,
    Lt,
    Gt,
    Le,
    Ge,
}

/// Floating-point arithmetic on IEEE 754 bit patterns. The library holds
/// floats as bit patterns and leaves this arithmetic to its user; nothing is
/// assumed of the results.
pub trait FloatOps {
    fn f32_unop(&self, op: FloatUnop, a: u32) -> u32;

    fn f32_binop(&self, op: FloatBinop, a: u32, b: u32) -> u32;

    fn f32_relop(&self, op: FloatRelop, a: u32, b: u32) -> bool;

    fn f64_unop(&self, op: FloatUnop, a: u64) -> u64;

    fn f64_binop(&self, op: FloatBinop, a: u64, b: u64) -> u64;

    fn f64_relop(&self, op: FloatRelop, a: u64, b: u64) -> bool;

    /// The truncation of an `f32` to an `i32` (`signed` tells the two
    /// instructions apart).
    fn f32_to_i32(&self, a: u32, signed: bool) -> i32;

    fn f32_to_i64(&self, a: u32, signed: bool) -> i64;

    fn f64_to_i32(&self, a: u64, signed: bool) -> i32;

    fn f64_to_i64(&self, a: u64, signed: bool) -> i64;

    /// The `f32` nearest an `i32` read as signed or unsigned.
    fn i32_to_f32(&self, a: i32, signed: bool) -> u32;

    fn i64_to_f32(&self, a: i64, signed: bool) -> u32;

    fn i32_to_f64(&self, a: i32, signed: bool) -> u64;

    fn i64_to_f64(&self, a: i64, signed: bool) -> u64;

    fn f64_to_f32(&self, a: u64) -> u32;

    fn f32_to_f64(&self, a: u32) -> u64;
}

/// Whether `e` is an error that running a function can end in.
pub open spec fn is_runtime_error(e: ExecuteError) -> bool {
    e is Trapped || e is Exhausted || e is InvalidFuncidx || e is InvalidTypeidx
}

/// Whether `i` computes with floating point (through `FloatOps`).
pub open spec fn is_float_arith(i: Instr) -> bool {
    match i {
        Instr::F32Eq | Instr::F32Ne | Instr::F32Lt | Instr::F32Gt | Instr::F32Le | Instr::F32Ge
        | Instr::F64Eq | Instr::F64Ne | Instr::F64Lt | Instr::F64Gt | Instr::F64Le | Instr::F64Ge
        | Instr::F32Ceil | Instr::F32Floor | Instr::F32Trunc | Instr::F32Nearest | Instr::F32Sqrt
        | Instr::F32Add | Instr::F32Sub | Instr::F32Mul | Instr::F32Div | Instr::F32Min
        | Instr::F32Max | Instr::F64Ceil | Instr::F64Floor | Instr::F64Trunc | Instr::F64Nearest
        | Instr::F64Sqrt | Instr::F64Add | Instr::F64Sub | Instr::F64Mul | Instr::F64Div
        | Instr::F64Min | Instr::F64Max | Instr::I32TruncF32S | Instr::I32TruncF32U
        | Instr::I32TruncF64S | Instr::I32TruncF64U | Instr::I64TruncF32S | Instr::I64TruncF32U
        | Instr::I64TruncF64S | Instr::I64TruncF64U | Instr::F32ConvertI32S
        | Instr::F32ConvertI32U | Instr::F32ConvertI64S | Instr::F32ConvertI64U
        | Instr::F32DemoteF64 | Instr::F64ConvertI32S | Instr::F64ConvertI32U
        | Instr::F64ConvertI64S | Instr::F64ConvertI64U | Instr::F64PromoteF32 => true,
        _ => false,
    }
}

/// The operand types that the floating-point instruction `i` takes, and the
/// type of its result.
pub open spec fn float_signature(i: Instr) -> (Seq<Valtype>, Valtype) {
    match i {
        Instr::F32Eq | Instr::F32Ne | Instr::F32Lt | Instr::F32Gt | Instr::F32Le | Instr::F32Ge => (
            seq![Valtype::F32, Valtype::F32],
            Valtype::I32,
        ),
        Instr::F64Eq | Instr::F64Ne | Instr::F64Lt | Instr::F64Gt | Instr::F64Le | Instr::F64Ge => (
            seq![Valtype::F64, Valtype::F64],
            Valtype::I32,
        ),
        Instr::F32Ceil | Instr::F32Floor | Instr::F32Trunc | Instr::F32Nearest | Instr::F32Sqrt => (
            seq![Valtype::F32],
            Valtype::F32,
        ),
        Instr::F64Ceil | Instr::F64Floor | Instr::F64Trunc | Instr::F64Nearest | Instr::F64Sqrt => (
            seq![Valtype::F64],
            Valtype::F64,
        ),
        Instr::F32Add | Instr::F32Sub | Instr::F32Mul | Instr::F32Div | Instr::F32Min
        | Instr::F32Max => (seq![Valtype::F32, Valtype::F32], Valtype::F32),
        Instr::F64Add | Instr::F64Sub | Instr::F64Mul | Instr::F64Div | Instr::F64Min
        | Instr::F64Max => (seq![Valtype::F64, Valtype::F64], Valtype::F64),
        Instr::I32TruncF32S | Instr::I32TruncF32U => (seq![Valtype::F32], Valtype::I32),
        Instr::I32TruncF64S | Instr::I32TruncF64U => (seq![Valtype::F64], Valtype::I32),
        Instr::I64TruncF32S | Instr::I64TruncF32U => (seq![Valtype::F32], Valtype::I64),
        Instr::I64TruncF64S | Instr::I64TruncF64U => (seq![Valtype::F64], Valtype::I64),
        Instr::F32ConvertI32S | Instr::F32ConvertI32U => (seq![Valtype::I32], Valtype::F32),
        Instr::F32ConvertI64S | Instr::F32ConvertI64U => (seq![Valtype::I64], Valtype::F32),
        Instr::F32DemoteF64 => (seq![Valtype::F64], Valtype::F32),
        Instr::F64ConvertI32S | Instr::F64ConvertI32U => (seq![Valtype::I32], Valtype::F64),
        Instr::F64ConvertI64S | Instr::F64ConvertI64U => (seq![Valtype::I64], Valtype::F64),
        _ => (seq![Valtype::F32], Valtype::F64),
    }
}

/// Whether the top of `st` holds values of the types `ts`, in order.
pub open spec fn top_has_types(st: Seq<Val>, ts: Seq<Valtype>) -> bool {
    &&& ts.len() <= st.len()
    &&& forall|k: int|
        0 <= k < ts.len() ==> (#[trigger] st[st.len() - ts.len() + k]).spec_ty() == ts[k]
}

/// A call frame: the number of results, where the function's locals start,
/// and the height of the value stack when the function was entered.
#[derive(Debug, Clone, Copy, PartialEq, Eq, Structural)]
pub struct Frame {
    pub arity: usize,
    pub locals_start: usize,
    pub values_start: usize,
}

impl Default for Frame {
    fn default() -> (f: Frame)
        ensures
            f == (Frame { arity: 0, locals_start: 0, values_start: 0 }),
    {
        Frame { arity: 0, locals_start: 0, values_start: 0 }
    }
}

/// A structured block being run: the number of its results and the height
/// of the value stack when it was entered.
#[derive(Debug, Clone, Copy, PartialEq, Eq, Structural)]
pub struct Block {
    pub arity: usize,
    pub values_start: usize,
}

impl Default for Block {
    fn default() -> (b: Block)
        ensures
            b == (Block { arity: 0, values_start: 0 }),
    {
        Block { arity: 0, values_start: 0 }
    }
}

/// The runtime state of an instance: its memory, table and globals, and the
/// locals and values of the functions being run, and the log of the calls
/// of host functions made so far.
pub struct Executor {
    pub mem: Vec<u8>,
    pub table: Vec<Option<Funcidx>>,
    pub globals: Vec<GlobalVal>,
    pub locals: Vec<Val>,
    pub values: Vec<Val>,
    pub current_frame: Frame,
    pub current_block: Block,
    pub calls: Ghost<Seq<Outside>>,
}

impl Executor {
    /// The parts of the state that instructions read and write.
    pub open spec fn state(&self) -> MachineState {
        MachineState {
            mem: self.mem@,
            globals: self.globals@,
            locals: self.locals@,
            values: self.values@,
            table: self.table@,
            calls: self.calls@,
        }
    }

    /// An executor over the given memory, table and globals, with no
    /// function running.
    pub fn new(mem: Vec<u8>, table: Vec<Option<Funcidx>>, globals: Vec<GlobalVal>) -> (e: Self)
        ensures
            e.mem == mem,
            e.table == table,
            e.calls@ == Seq::<Outside>::empty(),
            e.globals == globals,
            e.locals@ == Seq::<Val>::empty(),
            e.values@ == Seq::<Val>::empty(),
            e.current_frame == (Frame { arity: 0, locals_start: 0, values_start: 0 }),
            e.current_block == (Block { arity: 0, values_start: 0 }),
    {
        Executor {
            mem,
            table,
            globals,
            locals: Vec::new(),
            values: Vec::new(),
            current_frame: Frame::default(),
            current_block: Block::default(),
            calls: Ghost(Seq::empty()),
        }
    }

    /// Moves the arguments of a function of type `ty` from the top of the
    /// value stack to the locals and starts a frame for it; returns the
    /// frame that was current.
    pub fn enter_frame(&mut self, ty: &Functype) -> (prev: Frame)
        requires
            old(self).values@.len() >= ty.params@.len(),
        ensures
            prev == old(self).current_frame,
            final(self).locals@ == old(self).locals@ + old(self).values@.subrange(
                old(self).values@.len() - ty.params@.len(),
                old(self).values@.len() as int,
            ),
            final(self).values@ == old(self).values@.subrange(
                0,
                old(self).values@.len() - ty.params@.len(),
            ),
            final(self).current_frame == (Frame {
                arity: ty.result.spec_len() as usize,
                locals_start: old(self).locals@.len() as usize,
                values_start: (old(self).values@.len() - ty.params@.len()) as usize,
            }),
            final(self).current_frame.locals_start == old(self).locals@.len(),
            final(self).current_frame.values_start == old(self).values@.len() - ty.params@.len(),
            final(self).mem == old(self).mem,
            final(self).table == old(self).table,
            final(self).calls == old(self).calls,
            final(self).globals == old(self).globals,
            final(self).current_block == old(self).current_block,
    {
        let locals_start = self.locals.len();
        let n = self.values.len();
        let start = n - ty.params.len();
        let mut k = start;
        while k < n
            invariant
                start <= k <= n,
                n == self.values@.len(),
                self.values@ == old(self).values@,
                self.locals@ == old(self).locals@ + old(self).values@.subrange(start as int, k as int),
                self.mem == old(self).mem,
                self.table == old(self).table,
                self.calls == old(self).calls,
                self.globals == old(self).globals,
                self.current_frame == old(self).current_frame,
                self.current_block == old(self).current_block,
            decreases n - k,
        {
            let v = self.values[k];
            self.locals.push(v);
            proof {
                assert(old(self).values@.subrange(start as int, k + 1) =~= old(self).values@.subrange(
                    start as int,
                    k as int,
                ).push(v));
            }
            k = k + 1;
        }
        self.values.truncate(start);
        let prev = self.current_frame;
        self.current_frame = Frame { arity: ty.result.len(), locals_start, values_start: start };
        prev
    }

    /// Leaves the current frame: drops its locals, keeps its results on top
    /// of the values that were below it, and makes `prev` current again.
    pub fn exit_frame(&mut self, ty: &Functype, prev: Frame)
        requires
            old(self).current_frame.locals_start <= old(self).locals@.len(),
            old(self).current_frame.values_start + old(self).current_frame.arity <= old(
                self,
            ).values@.len(),
        ensures
            final(self).locals@ == old(self).locals@.subrange(
                0,
                old(self).current_frame.locals_start as int,
            ),
            final(self).values@ == old(self).values@.subrange(
                0,
                old(self).current_frame.values_start as int,
            ) + old(self).values@.subrange(
                old(self).values@.len() - old(self).current_frame.arity,
                old(self).values@.len() as int,
            ),
            final(self).current_frame == prev,
            final(self).mem == old(self).mem,
            final(self).table == old(self).table,
            final(self).calls == old(self).calls,
            final(self).globals == old(self).globals,
            final(self).current_block == old(self).current_block,
    {
        let frame = self.current_frame;
        self.locals.truncate(frame.locals_start);
        self.keep_top(frame.values_start, frame.arity);
        self.current_frame = prev;
    }

    /// Drops the values from height `start` up to the top `keep` values.
    fn keep_top(&mut self, start: usize, keep: usize)
        requires
            start + keep <= old(self).values@.len(),
        ensures
            final(self).values@ == old(self).values@.subrange(0, start as int) + old(
                self,
            ).values@.subrange(old(self).values@.len() - keep, old(self).values@.len() as int),
            final(self).locals == old(self).locals,
            final(self).mem == old(self).mem,
            final(self).table == old(self).table,
            final(self).calls == old(self).calls,
            final(self).globals == old(self).globals,
            final(self).current_frame == old(self).current_frame,
            final(self).current_block == old(self).current_block,
    {
        let n = self.values.len();
        let mut top = self.values.split_off(n - keep);
        self.values.truncate(start);
        self.values.append(&mut top);
    }

    /// Starts a block of type `ty`; returns the block that was current.
    pub fn enter_block(&mut self, ty: Blocktype) -> (prev: Block)
        ensures
            prev == old(self).current_block,
            final(self).current_block == (Block {
                arity: ty.spec_arity() as usize,
                values_start: old(self).values@.len() as usize,
            }),
            final(self).values == old(self).values,
            final(self).locals == old(self).locals,
            final(self).mem == old(self).mem,
            final(self).table == old(self).table,
            final(self).calls == old(self).calls,
            final(self).globals == old(self).globals,
            final(self).current_frame == old(self).current_frame,
    {
        let prev = self.current_block;
        self.current_block = Block { arity: ty.arity(), values_start: self.values.len() };
        prev
    }

    /// Leaves the current block and makes `prev` current again. Unless the
    /// block is left by a branch to an enclosing label (`skipped`), the
    /// block's results are kept on top of the values that were below it.
    pub fn exit_block(&mut self, ty: Blocktype, skipped: bool, prev: Block)
        requires
            !skipped ==> old(self).current_block.values_start + old(self).current_block.arity
                <= old(self).values@.len(),
        ensures
            skipped ==> final(self).values == old(self).values,
            !skipped ==> final(self).values@ == old(self).values@.subrange(
                0,
                old(self).current_block.values_start as int,
            ) + old(self).values@.subrange(
                old(self).values@.len() - old(self).current_block.arity,
                old(self).values@.len() as int,
            ),
            final(self).current_block == prev,
            final(self).locals == old(self).locals,
            final(self).mem == old(self).mem,
            final(self).table == old(self).table,
            final(self).calls == old(self).calls,
            final(self).globals == old(self).globals,
            final(self).current_frame == old(self).current_frame,
    {
        let block = self.current_block;
        if !skipped {
            self.keep_top(block.values_start, block.arity);
        }
        self.current_block = prev;
    }

    /// Sets local `i` of the current function.
    pub fn set_local(&mut self, i: Localidx, v: Val)
        requires
            old(self).current_frame.locals_start + i.0 < old(self).locals@.len(),
        ensures
            final(self).locals@ == old(self).locals@.update(
                old(self).current_frame.locals_start + i.0,
                v,
            ),
            final(self).values == old(self).values,
            final(self).mem == old(self).mem,
            final(self).table == old(self).table,
            final(self).calls == old(self).calls,
            final(self).globals == old(self).globals,
            final(self).current_frame == old(self).current_frame,
            final(self).current_block == old(self).current_block,
    {
        let _ = self.locals.len();
        let k = self.current_frame.locals_start + i.get();
        self.locals.set(k, v);
    }

    /// Local `i` of the current function.
    pub fn get_local(&self, i: Localidx) -> (v: Val)
        requires
            self.current_frame.locals_start + i.0 < self.locals@.len(),
        ensures
            v == self.locals@[self.current_frame.locals_start + i.0],
    {
        let _ = self.locals.len();
        let k = self.current_frame.locals_start + i.get();
        self.locals[k]
    }

    /// Pushes a value.
    pub fn push_value(&mut self, v: Val)
        ensures
            final(self).values@ == old(self).values@.push(v),
            final(self).locals == old(self).locals,
            final(self).mem == old(self).mem,
            final(self).table == old(self).table,
            final(self).calls == old(self).calls,
            final(self).globals == old(self).globals,
            final(self).current_frame == old(self).current_frame,
            final(self).current_block == old(self).current_block,
    {
        self.values.push(v);
    }

    /// Pops the top value.
    pub fn pop_value(&mut self) -> (v: Val)
        requires
            old(self).values@.len() > 0,
        ensures
            v == old(self).values@.last(),
            final(self).values@ == old(self).values@.drop_last(),
            final(self).locals == old(self).locals,
            final(self).mem == old(self).mem,
            final(self).table == old(self).table,
            final(self).calls == old(self).calls,
            final(self).globals == old(self).globals,
            final(self).current_frame == old(self).current_frame,
            final(self).current_block == old(self).current_block,
    {
        self.values.pop().unwrap()
    }

    /// Pops the top value, an `i32`.
    pub fn pop_value_i32(&mut self) -> (v: i32)
        requires
            old(self).values@.len() > 0,
            old(self).values@.last() is I32,
        ensures
            old(self).values@.last() == Val::I32(v),
            final(self).values@ == old(self).values@.drop_last(),
            final(self).locals == old(self).locals,
            final(self).mem == old(self).mem,
            final(self).globals == old(self).globals,
    {
        match self.values.pop().unwrap() {
            Val::I32(v) => v,
            _ => 0,
        }
    }

    /// Pops the top value, an `i64`.
    pub fn pop_value_i64(&mut self) -> (v: i64)
        requires
            old(self).values@.len() > 0,
            old(self).values@.last() is I64,
        ensures
            old(self).values@.last() == Val::I64(v),
            final(self).values@ == old(self).values@.drop_last(),
            final(self).locals == old(self).locals,
            final(self).mem == old(self).mem,
            final(self).globals == old(self).globals,
    {
        match self.values.pop().unwrap() {
            Val::I64(v) => v,
            _ => 0,
        }
    }

    /// Pops the top value, an `i64`, read as unsigned.
    pub fn pop_value_u64(&mut self) -> (v: u64)
        requires
            old(self).values@.len() > 0,
            old(self).values@.last() is I64,
        ensures
            old(self).values@.last() matches Val::I64(x) && v == x as u64,
            final(self).values@ == old(self).values@.drop_last(),
    {
        let v = self.pop_value_i64();
        v as u64
    }

    /// Pops the top value, an `i32`, read as unsigned.
    pub fn pop_value_u32(&mut self) -> (v: u32)
        requires
            old(self).values@.len() > 0,
            old(self).values@.last() is I32,
        ensures
            old(self).values@.last() matches Val::I32(x) && v == x as u32,
            final(self).values@ == old(self).values@.drop_last(),
    {
        let v = self.pop_value_i32();
        v as u32
    }

    /// Pops the top value, an `f32`, as its bit pattern.
    pub fn pop_value_f32_bits(&mut self) -> (v: u32)
        requires
            old(self).values@.len() > 0,
            old(self).values@.last() is F32,
        ensures
            old(self).values@.last() == Val::F32(v),
            final(self).values@ == old(self).values@.drop_last(),
    {
        match self.values.pop().unwrap() {
            Val::F32(v) => v,
            _ => 0,
        }
    }

    /// Pops the top value, an `f64`, as its bit pattern.
    pub fn pop_value_f64_bits(&mut self) -> (v: u64)
        requires
            old(self).values@.len() > 0,
            old(self).values@.last() is F64,
        ensures
            old(self).values@.last() == Val::F64(v),
            final(self).values@ == old(self).values@.drop_last(),
    {
        match self.values.pop().unwrap() {
            Val::F64(v) => v,
            _ => 0,
        }
    }

    /// Pops the top value if there is one.
    fn take1(&mut self) -> (r: Option<Val>)
        ensures
            match pop1(old(self).values@) {
                Some((rest, v)) => r == Some(v) && final(self).values@ == rest,
                None => r is None && final(self).values@ == old(self).values@,
            },
            final(self).locals == old(self).locals,
            final(self).mem == old(self).mem,
            final(self).table == old(self).table,
            final(self).calls == old(self).calls,
            final(self).globals == old(self).globals,
            final(self).current_frame == old(self).current_frame,
            final(self).current_block == old(self).current_block,
    {
        self.values.pop()
    }

    /// Pops the top two values if both are `i32`.
    fn take2_i32(&mut self) -> (r: Option<(i32, i32)>)
        ensures
            match pop2_i32(old(self).values@) {
                Some((rest, a, b)) => r == Some((a, b)) && final(self).values@ == rest,
                None => r is None,
            },
            final(self).locals == old(self).locals,
            final(self).mem == old(self).mem,
            final(self).table == old(self).table,
            final(self).calls == old(self).calls,
            final(self).globals == old(self).globals,
            final(self).current_frame == old(self).current_frame,
            final(self).current_block == old(self).current_block,
    {
        let n = self.values.len();
        if n < 2 {
            return None;
        }
        match (self.values[n - 2], self.values[n - 1]) {
            (Val::I32(a), Val::I32(b)) => {
                self.values.truncate(n - 2);
                Some((a, b))
            },
            _ => None,
        }
    }

    /// Pops the top two values if both are `i64`.
    fn take2_i64(&mut self) -> (r: Option<(i64, i64)>)
        ensures
            match pop2_i64(old(self).values@) {
                Some((rest, a, b)) => r == Some((a, b)) && final(self).values@ == rest,
                None => r is None,
            },
            final(self).locals == old(self).locals,
            final(self).mem == old(self).mem,
            final(self).table == old(self).table,
            final(self).calls == old(self).calls,
            final(self).globals == old(self).globals,
            final(self).current_frame == old(self).current_frame,
            final(self).current_block == old(self).current_block,
    {
        let n = self.values.len();
        if n < 2 {
            return None;
        }
        match (self.values[n - 2], self.values[n - 1]) {
            (Val::I64(a), Val::I64(b)) => {
                self.values.truncate(n - 2);
                Some((a, b))
            },
            _ => None,
        }
    }

    /// Pops the top two values if both are `f32`.
    fn take2_f32(&mut self) -> (r: Option<(u32, u32)>)
        ensures
            match pop2_f32(old(self).values@) {
                Some((rest, a, b)) => r == Some((a, b)) && final(self).values@ == rest,
                None => r is None,
            },
            final(self).locals == old(self).locals,
            final(self).mem == old(self).mem,
            final(self).table == old(self).table,
            final(self).calls == old(self).calls,
            final(self).globals == old(self).globals,
            final(self).current_frame == old(self).current_frame,
            final(self).current_block == old(self).current_block,
    {
        let n = self.values.len();
        if n < 2 {
            return None;
        }
        match (self.values[n - 2], self.values[n - 1]) {
            (Val::F32(a), Val::F32(b)) => {
                self.values.truncate(n - 2);
                Some((a, b))
            },
            _ => None,
        }
    }

    /// Pops the top two values if both are `f64`.
    fn take2_f64(&mut self) -> (r: Option<(u64, u64)>)
        ensures
            match pop2_f64(old(self).values@) {
                Some((rest, a, b)) => r == Some((a, b)) && final(self).values@ == rest,
                None => r is None,
            },
            final(self).locals == old(self).locals,
            final(self).mem == old(self).mem,
            final(self).table == old(self).table,
            final(self).calls == old(self).calls,
            final(self).globals == old(self).globals,
            final(self).current_frame == old(self).current_frame,
            final(self).current_block == old(self).current_block,
    {
        let n = self.values.len();
        if n < 2 {
            return None;
        }
        match (self.values[n - 2], self.values[n - 1]) {
            (Val::F64(a), Val::F64(b)) => {
                self.values.truncate(n - 2);
                Some((a, b))
            },
            _ => None,
        }
    }

    /// Runs the numeric instruction `i`.
    fn exec_numeric(&mut self, i: &Instr) -> (res: Result<(), ExecuteError>)
        requires
            is_numeric(*i),
        ensures
            match spec_numeric(*i, old(self).values@) {
                Some(values) => res is Ok && final(self).values@ == values,
                None => res == Err::<(), ExecuteError>(ExecuteError::Trapped),
            },
            final(self).locals == old(self).locals,
            final(self).mem == old(self).mem,
            final(self).table == old(self).table,
            final(self).calls == old(self).calls,
            final(self).globals == old(self).globals,
            final(self).current_frame == old(self).current_frame,
            final(self).current_block == old(self).current_block,
    {
        proof {
            reveal(spec_numeric);
        }
        match i {
            Instr::I32Add | Instr::I32Sub | Instr::I32Mul | Instr::I32DivS | Instr::I32DivU
            | Instr::I32RemS | Instr::I32RemU | Instr::I32And | Instr::I32Or | Instr::I32Xor
            | Instr::I32Shl | Instr::I32ShrS | Instr::I32ShrU | Instr::I32Rotl | Instr::I32Rotr => {
                let (a, b) = match self.take2_i32() {
                    Some(p) => p,
                    None => return Err(ExecuteError::Trapped),
                };
                match i32_binop(i, a, b) {
                    Some(c) => self.values.push(Val::I32(c)),
                    None => return Err(ExecuteError::Trapped),
                }
            },
            Instr::I64Add | Instr::I64Sub | Instr::I64Mul | Instr::I64DivS | Instr::I64DivU
            | Instr::I64RemS | Instr::I64RemU | Instr::I64And | Instr::I64Or | Instr::I64Xor
            | Instr::I64Shl | Instr::I64ShrS | Instr::I64ShrU | Instr::I64Rotl | Instr::I64Rotr => {
                let (a, b) = match self.take2_i64() {
                    Some(p) => p,
                    None => return Err(ExecuteError::Trapped),
                };
                match i64_binop(i, a, b) {
                    Some(c) => self.values.push(Val::I64(c)),
                    None => return Err(ExecuteError::Trapped),
                }
            },
            Instr::I32Eq | Instr::I32Ne | Instr::I32LtS | Instr::I32LtU | Instr::I32GtS
            | Instr::I32GtU | Instr::I32LeS | Instr::I32LeU | Instr::I32GeS | Instr::I32GeU => {
                let (a, b) = match self.take2_i32() {
                    Some(p) => p,
                    None => return Err(ExecuteError::Trapped),
                };
                let c = if i32_relop(i, a, b) {
                    1
                } else {
                    0
                };
                self.values.push(Val::I32(c));
            },
            Instr::I64Eq | Instr::I64Ne | Instr::I64LtS | Instr::I64LtU | Instr::I64GtS
            | Instr::I64GtU | Instr::I64LeS | Instr::I64LeU | Instr::I64GeS | Instr::I64GeU => {
                let (a, b) = match self.take2_i64() {
                    Some(p) => p,
                    None => return Err(ExecuteError::Trapped),
                };
                let c = if i64_relop(i, a, b) {
                    1
                } else {
                    0
                };
                self.values.push(Val::I32(c));
            },
            Instr::F32Copysign => {
                let (a, b) = match self.take2_f32() {
                    Some(p) => p,
                    None => return Err(ExecuteError::Trapped),
                };
                self.values.push(Val::F32(f32_signop(i, a, b)));
            },
            Instr::F64Copysign => {
                let (a, b) = match self.take2_f64() {
                    Some(p) => p,
                    None => return Err(ExecuteError::Trapped),
                };
                self.values.push(Val::F64(f64_signop(i, a, b)));
            },
            Instr::I32Const(v) => self.values.push(Val::I32(*v)),
            Instr::I64Const(v) => self.values.push(Val::I64(*v)),
            Instr::F32Const(v) => self.values.push(Val::F32(*v)),
            Instr::F64Const(v) => self.values.push(Val::F64(*v)),
            _ => {
                let v = match self.take1() {
                    Some(v) => v,
                    None => return Err(ExecuteError::Trapped),
                };
                let r = match (i, v) {
                    (Instr::I32Clz, Val::I32(a)) | (Instr::I32Ctz, Val::I32(a)) | (
                        Instr::I32Popcnt,
                        Val::I32(a),
                    ) | (Instr::I32Eqz, Val::I32(a)) | (
                        Instr::SignExtension(SignExtensionInstr::I32Extend8S),
                        Val::I32(a),
                    ) | (Instr::SignExtension(SignExtensionInstr::I32Extend16S), Val::I32(a)) => {
                        Val::I32(i32_unop(i, a))
                    },
                    (Instr::I64Clz, Val::I64(a)) | (Instr::I64Ctz, Val::I64(a)) | (
                        Instr::I64Popcnt,
                        Val::I64(a),
                    ) | (Instr::SignExtension(SignExtensionInstr::I64Extend8S), Val::I64(a)) | (
                        Instr::SignExtension(SignExtensionInstr::I64Extend16S),
                        Val::I64(a),
                    ) | (Instr::SignExtension(SignExtensionInstr::I64Extend32S), Val::I64(a)) => {
                        Val::I64(i64_unop(i, a))
                    },
                    (Instr::F32Abs, Val::F32(a)) | (Instr::F32Neg, Val::F32(a)) => Val::F32(
                        f32_signop(i, a, 0),
                    ),
                    (Instr::F64Abs, Val::F64(a)) | (Instr::F64Neg, Val::F64(a)) => Val::F64(
                        f64_signop(i, a, 0),
                    ),
                    (Instr::I64Eqz, Val::I64(a)) => Val::I32(
                        if a == 0 {
                            1
                        } else {
                            0
                        },
                    ),
                    (Instr::I32WrapI64, Val::I64(a)) => Val::I32(a as i32),
                    (Instr::I64ExtendI32S, Val::I32(a)) => Val::I64(a as i64),
                    (Instr::I64ExtendI32U, Val::I32(a)) => Val::I64((a as u32) as i64),
                    (Instr::I32ReinterpretF32, Val::F32(a)) => Val::I32(a as i32),
                    (Instr::I64ReinterpretF64, Val::F64(a)) => Val::I64(a as i64),
                    (Instr::F32ReinterpretI32, Val::I32(a)) => Val::F32(a as u32),
                    (Instr::F64ReinterpretI64, Val::I64(a)) => Val::F64(a as u64),
                    _ => return Err(ExecuteError::Trapped),
                };
                self.values.push(r);
            },
        }
        Ok(())
    }

    /// The address of a load or store of `n` bytes at the operand `a` with
    /// the offset of `arg`, if all of it lies in memory.
    fn address(&self, a: i32, offset: u32, n: usize) -> (r: Option<usize>)
        requires
            n <= 8,
        ensures
            match r {
                Some(ea) => ea == (a as u32) + offset && ea + n <= self.mem@.len(),
                None => (a as u32) + offset + n > self.mem@.len(),
            },
    {
        let ea: u64 = (a as u32) as u64 + offset as u64;
        let len = self.mem.len();
        if ea + (n as u64) <= len as u64 {
            Some(ea as usize)
        } else {
            None
        }
    }

    /// Runs the instruction `i`, which neither branches, calls nor computes
    /// with floating point; `memory_type` is the module's memory type.
    fn exec_plain(&mut self, i: &Instr, memory_type: Option<Memtype>) -> (res: Result<(), ExecuteError>)
        requires
            is_plain(*i),
        ensures
            match spec_plain(
                *i,
                old(self).state(),
                old(self).current_frame.locals_start as int,
                memory_type,
            ) {
                Some(st) => res is Ok && final(self).state() == st,
                None => res == Err::<(), ExecuteError>(ExecuteError::Trapped),
            },
            res is Err ==> final(self).mem == old(self).mem && final(self).globals == old(
                self,
            ).globals && final(self).locals == old(self).locals,
            res is Ok ==> locals_kept(
                old(self).locals@,
                final(self).locals@,
                old(self).current_frame.locals_start as int,
            ),
            final(self).table == old(self).table,
            final(self).calls == old(self).calls,
            final(self).current_frame == old(self).current_frame,
            final(self).current_block == old(self).current_block,
    {
        proof {
            reveal(spec_plain);
        }
        if is_numeric_instr(i) {
            return self.exec_numeric(i);
        }
        match i {
            Instr::I32Load(arg) | Instr::I64Load(arg) | Instr::F32Load(arg) | Instr::F64Load(arg)
            | Instr::I32Load8S(arg) | Instr::I32Load8U(arg) | Instr::I32Load16S(arg)
            | Instr::I32Load16U(arg) | Instr::I64Load8S(arg) | Instr::I64Load8U(arg)
            | Instr::I64Load16S(arg) | Instr::I64Load16U(arg) | Instr::I64Load32S(arg)
            | Instr::I64Load32U(arg) => {
                let a = match self.take1() {
                    Some(Val::I32(a)) => a,
                    _ => return Err(ExecuteError::Trapped),
                };
                let n: usize = match i {
                    Instr::I32Load(_) | Instr::F32Load(_) | Instr::I64Load32S(_)
                    | Instr::I64Load32U(_) => 4,
                    Instr::I64Load(_) | Instr::F64Load(_) => 8,
                    Instr::I32Load8S(_) | Instr::I32Load8U(_) | Instr::I64Load8S(_)
                    | Instr::I64Load8U(_) => 1,
                    _ => 2,
                };
                let ea = match self.address(a, arg.offset, n) {
                    Some(ea) => ea,
                    None => return Err(ExecuteError::Trapped),
                };
                let x = load_le(&self.mem, ea, n);
                let v = match i {
                    Instr::I32Load(_) => Val::I32(x as i32),
                    Instr::I64Load(_) => Val::I64(x as i64),
                    Instr::F32Load(_) => Val::F32(x as u32),
                    Instr::F64Load(_) => Val::F64(x),
                    Instr::I32Load8S(_) => Val::I32((x as i8) as i32),
                    Instr::I32Load8U(_) => Val::I32(x as i32),
                    Instr::I32Load16S(_) => Val::I32((x as i16) as i32),
                    Instr::I32Load16U(_) => Val::I32(x as i32),
                    Instr::I64Load8S(_) => Val::I64((x as i8) as i64),
                    Instr::I64Load16S(_) => Val::I64((x as i16) as i64),
                    Instr::I64Load32S(_) => Val::I64((x as i32) as i64),
                    _ => Val::I64(x as i64),
                };
                self.values.push(v);
                Ok(())
            },
            Instr::I32Store(arg) | Instr::I64Store(arg) | Instr::F32Store(arg)
            | Instr::F64Store(arg) | Instr::I32Store8(arg) | Instr::I32Store16(arg)
            | Instr::I64Store8(arg) | Instr::I64Store16(arg) | Instr::I64Store32(arg) => {
                let v = match self.take1() {
                    Some(v) => v,
                    None => return Err(ExecuteError::Trapped),
                };
                let a = match self.take1() {
                    Some(Val::I32(a)) => a,
                    _ => return Err(ExecuteError::Trapped),
                };
                let n: usize = match (i, v) {
                    (Instr::I32Store(_), _) | (Instr::I64Store(_), _) | (Instr::F32Store(_), _) | (
                        Instr::F64Store(_),
                        _,
                    ) => v.byte_size(),
                    (Instr::I32Store8(_), Val::I32(_)) | (Instr::I64Store8(_), Val::I64(_)) => 1,
                    (Instr::I32Store16(_), Val::I32(_)) | (Instr::I64Store16(_), Val::I64(_)) => 2,
                    (Instr::I64Store32(_), Val::I64(_)) => 4,
                    _ => return Err(ExecuteError::Trapped),
                };
                let ea = match self.address(a, arg.offset, n) {
                    Some(ea) => ea,
                    None => return Err(ExecuteError::Trapped),
                };
                store_le(&mut self.mem, ea, n, bits_of(v));
                Ok(())
            },
            Instr::Nop => Ok(()),
            Instr::Drop => {
                match self.take1() {
                    Some(_) => Ok(()),
                    None => Err(ExecuteError::Trapped),
                }
            },
            Instr::Select => {
                let c = match self.take1() {
                    Some(Val::I32(c)) => c,
                    _ => return Err(ExecuteError::Trapped),
                };
                let v0 = match self.take1() {
                    Some(v) => v,
                    None => return Err(ExecuteError::Trapped),
                };
                let v1 = match self.take1() {
                    Some(v) => v,
                    None => return Err(ExecuteError::Trapped),
                };
                self.values.push(
                    if c != 0 {
                        v0
                    } else {
                        v1
                    },
                );
                Ok(())
            },
            Instr::LocalGet(x) => {
                if !self.local_in_frame(*x) {
                    return Err(ExecuteError::Trapped);
                }
                let v = self.get_local(*x);
                self.values.push(v);
                Ok(())
            },
            Instr::LocalSet(x) => {
                let v = match self.take1() {
                    Some(v) => v,
                    None => return Err(ExecuteError::Trapped),
                };
                if !self.local_in_frame(*x) {
                    return Err(ExecuteError::Trapped);
                }
                self.set_local(*x, v);
                Ok(())
            },
            Instr::LocalTee(x) => {
                let n = self.values.len();
                if n == 0 || !self.local_in_frame(*x) {
                    return Err(ExecuteError::Trapped);
                }
                let v = self.values[n - 1];
                self.set_local(*x, v);
                Ok(())
            },
            Instr::GlobalGet(x) => {
                let k = x.get();
                if k >= self.globals.len() {
                    return Err(ExecuteError::Trapped);
                }
                let v = self.globals[k].get();
                self.values.push(v);
                Ok(())
            },
            Instr::GlobalSet(x) => {
                let v = match self.take1() {
                    Some(v) => v,
                    None => return Err(ExecuteError::Trapped),
                };
                let k = x.get();
                if k >= self.globals.len() {
                    return Err(ExecuteError::Trapped);
                }
                let mut g = self.globals[k];
                let _ = g.set(v);
                self.globals.set(k, g);
                Ok(())
            },
            Instr::MemorySize => {
                let pages = self.mem.len() / PAGE_SIZE;
                self.values.push(Val::I32(pages as i32));
                Ok(())
            },
            Instr::MemoryGrow => {
                let delta = match self.take1() {
                    Some(Val::I32(d)) => d,
                    _ => return Err(ExecuteError::Trapped),
                };
                let len = self.mem.len();
                let current = len / PAGE_SIZE;
                let new: u64 = current as u64 + (delta as u32) as u64;
                let max: u64 = match memory_type {
                    Some(t) => match t.limits.max {
                        Some(m) => m as u64,
                        None => 65536,
                    },
                    None => 0,
                };
                let extra: u64 = (delta as u32) as u64 * PAGE_SIZE as u64;
                if new <= max && extra <= (usize::MAX - len) as u64 {
                    let ghost before = self.mem@;
                    self.mem.resize(len + extra as usize, 0u8);
                    proof {
                        assert(self.mem@ =~= before + Seq::new(extra as nat, |k: int| 0u8));
                    }
                    self.values.push(Val::I32(current as i32));
                } else {
                    self.values.push(Val::I32(-1));
                }
                Ok(())
            },
            _ => Err(ExecuteError::Trapped),
        }
    }

    /// Runs the floating-point instruction `i` with the arithmetic of
    /// `floats`: its operands are replaced by one result of its result type.
    fn exec_float<F: FloatOps>(&mut self, i: &Instr, floats: &F) -> (res: Result<(), ExecuteError>)
        requires
            is_float_arith(*i),
        ensures
            top_has_types(old(self).values@, float_signature(*i).0) ==> {
                let k = old(self).values@.len() - float_signature(*i).0.len();
                let r = final(self).values@.last();
                &&& res is Ok
                &&& final(self).values@ == old(self).values@.subrange(0, k).push(r)
                &&& r.spec_ty() == float_signature(*i).1
                &&& final(self).calls@ == old(self).calls@.push(
                    Outside::Float(
                        FloatCall {
                            instr: *i,
                            operands: old(self).values@.subrange(k, old(self).values@.len() as int),
                            result: r,
                        },
                    ),
                )
            },
            !top_has_types(old(self).values@, float_signature(*i).0) ==> res == Err::<
                (),
                ExecuteError,
            >(ExecuteError::Trapped) && final(self).calls == old(self).calls,
            final(self).locals == old(self).locals,
            final(self).mem == old(self).mem,
            final(self).table == old(self).table,
            final(self).globals == old(self).globals,
            final(self).current_frame == old(self).current_frame,
            final(self).current_block == old(self).current_block,
    {
        let ghost st = self.values@;
        let ghost n = st.len();
        match i {
            Instr::F32Eq | Instr::F32Ne | Instr::F32Lt | Instr::F32Gt | Instr::F32Le
            | Instr::F32Ge | Instr::F32Add | Instr::F32Sub | Instr::F32Mul | Instr::F32Div
            | Instr::F32Min | Instr::F32Max => {
                let (a, b) = match self.take2_f32() {
                    Some(p) => p,
                    None => {
                        proof {
                            assert(!top_has_types(st, float_signature(*i).0)) by {
                                if top_has_types(st, float_signature(*i).0) {
                                    assert(st[n - 2 + 0].spec_ty() == Valtype::F32);
                                    assert(st[n - 2 + 1].spec_ty() == Valtype::F32);
                                }
                            }
                        }
                        return Err(ExecuteError::Trapped);
                    },
                };
                let r = match i {
                    Instr::F32Eq => bool_val(floats.f32_relop(FloatRelop::Eq, a, b)),
                    Instr::F32Ne => bool_val(floats.f32_relop(FloatRelop::Ne, a, b)),
                    Instr::F32Lt => bool_val(floats.f32_relop(FloatRelop::Lt, a, b)),
                    Instr::F32Gt => bool_val(floats.f32_relop(FloatRelop::Gt, a, b)),
                    Instr::F32Le => bool_val(floats.f32_relop(FloatRelop::Le, a, b)),
                    Instr::F32Ge => bool_val(floats.f32_relop(FloatRelop::Ge, a, b)),
                    Instr::F32Add => Val::F32(floats.f32_binop(FloatBinop::Add, a, b)),
                    Instr::F32Sub => Val::F32(floats.f32_binop(FloatBinop::Sub, a, b)),
                    Instr::F32Mul => Val::F32(floats.f32_binop(FloatBinop::Mul, a, b)),
                    Instr::F32Div => Val::F32(floats.f32_binop(FloatBinop::Div, a, b)),
                    Instr::F32Min => Val::F32(floats.f32_binop(FloatBinop::Min, a, b)),
                    _ => Val::F32(floats.f32_binop(FloatBinop::Max, a, b)),
                };
                proof {
                    assert(seq![Val::F32(a), Val::F32(b)] =~= st.subrange(n - 2, n as int));
                }
                self.calls = Ghost(
                    self.calls@.push(
                        Outside::Float(FloatCall { instr: *i, operands: seq![Val::F32(a), Val::F32(b)], result: r }),
                    ),
                );
                self.values.push(r);
            },
            Instr::F64Eq | Instr::F64Ne | Instr::F64Lt | Instr::F64Gt | Instr::F64Le
            | Instr::F64Ge | Instr::F64Add | Instr::F64Sub | Instr::F64Mul | Instr::F64Div
            | Instr::F64Min | Instr::F64Max => {
                let (a, b) = match self.take2_f64() {
                    Some(p) => p,
                    None => {
                        proof {
                            assert(!top_has_types(st, float_signature(*i).0)) by {
                                if top_has_types(st, float_signature(*i).0) {
                                    assert(st[n - 2 + 0].spec_ty() == Valtype::F64);
                                    assert(st[n - 2 + 1].spec_ty() == Valtype::F64);
                                }
                            }
                        }
                        return Err(ExecuteError::Trapped);
                    },
                };
                let r = match i {
                    Instr::F64Eq => bool_val(floats.f64_relop(FloatRelop::Eq, a, b)),
                    Instr::F64Ne => bool_val(floats.f64_relop(FloatRelop::Ne, a, b)),
                    Instr::F64Lt => bool_val(floats.f64_relop(FloatRelop::Lt, a, b)),
                    Instr::F64Gt => bool_val(floats.f64_relop(FloatRelop::Gt, a, b)),
                    Instr::F64Le => bool_val(floats.f64_relop(FloatRelop::Le, a, b)),
                    Instr::F64Ge => bool_val(floats.f64_relop(FloatRelop::Ge, a, b)),
                    Instr::F64Add => Val::F64(floats.f64_binop(FloatBinop::Add, a, b)),
                    Instr::F64Sub => Val::F64(floats.f64_binop(FloatBinop::Sub, a, b)),
                    Instr::F64Mul => Val::F64(floats.f64_binop(FloatBinop::Mul, a, b)),
                    Instr::F64Div => Val::F64(floats.f64_binop(FloatBinop::Div, a, b)),
                    Instr::F64Min => Val::F64(floats.f64_binop(FloatBinop::Min, a, b)),
                    _ => Val::F64(floats.f64_binop(FloatBinop::Max, a, b)),
                };
                proof {
                    assert(seq![Val::F64(a), Val::F64(b)] =~= st.subrange(n - 2, n as int));
                }
                self.calls = Ghost(
                    self.calls@.push(
                        Outside::Float(FloatCall { instr: *i, operands: seq![Val::F64(a), Val::F64(b)], result: r }),
                    ),
                );
                self.values.push(r);
            },
            _ => {
                let v = match self.take1() {
                    Some(v) => v,
                    None => return Err(ExecuteError::Trapped),
                };
                let r = match (i, v) {
                    (Instr::F32Ceil, Val::F32(a)) => Val::F32(floats.f32_unop(FloatUnop::Ceil, a)),
                    (Instr::F32Floor, Val::F32(a)) => Val::F32(floats.f32_unop(FloatUnop::Floor, a)),
                    (Instr::F32Trunc, Val::F32(a)) => Val::F32(floats.f32_unop(FloatUnop::Trunc, a)),
                    (Instr::F32Nearest, Val::F32(a)) => Val::F32(
                        floats.f32_unop(FloatUnop::Nearest, a),
                    ),
                    (Instr::F32Sqrt, Val::F32(a)) => Val::F32(floats.f32_unop(FloatUnop::Sqrt, a)),
                    (Instr::F64Ceil, Val::F64(a)) => Val::F64(floats.f64_unop(FloatUnop::Ceil, a)),
                    (Instr::F64Floor, Val::F64(a)) => Val::F64(floats.f64_unop(FloatUnop::Floor, a)),
                    (Instr::F64Trunc, Val::F64(a)) => Val::F64(floats.f64_unop(FloatUnop::Trunc, a)),
                    (Instr::F64Nearest, Val::F64(a)) => Val::F64(
                        floats.f64_unop(FloatUnop::Nearest, a),
                    ),
                    (Instr::F64Sqrt, Val::F64(a)) => Val::F64(floats.f64_unop(FloatUnop::Sqrt, a)),
                    (Instr::I32TruncF32S, Val::F32(a)) => Val::I32(floats.f32_to_i32(a, true)),
                    (Instr::I32TruncF32U, Val::F32(a)) => Val::I32(floats.f32_to_i32(a, false)),
                    (Instr::I32TruncF64S, Val::F64(a)) => Val::I32(floats.f64_to_i32(a, true)),
                    (Instr::I32TruncF64U, Val::F64(a)) => Val::I32(floats.f64_to_i32(a, false)),
                    (Instr::I64TruncF32S, Val::F32(a)) => Val::I64(floats.f32_to_i64(a, true)),
                    (Instr::I64TruncF32U, Val::F32(a)) => Val::I64(floats.f32_to_i64(a, false)),
                    (Instr::I64TruncF64S, Val::F64(a)) => Val::I64(floats.f64_to_i64(a, true)),
                    (Instr::I64TruncF64U, Val::F64(a)) => Val::I64(floats.f64_to_i64(a, false)),
                    (Instr::F32ConvertI32S, Val::I32(a)) => Val::F32(floats.i32_to_f32(a, true)),
                    (Instr::F32ConvertI32U, Val::I32(a)) => Val::F32(floats.i32_to_f32(a, false)),
                    (Instr::F32ConvertI64S, Val::I64(a)) => Val::F32(floats.i64_to_f32(a, true)),
                    (Instr::F32ConvertI64U, Val::I64(a)) => Val::F32(floats.i64_to_f32(a, false)),
                    (Instr::F32DemoteF64, Val::F64(a)) => Val::F32(floats.f64_to_f32(a)),
                    (Instr::F64ConvertI32S, Val::I32(a)) => Val::F64(floats.i32_to_f64(a, true)),
                    (Instr::F64ConvertI32U, Val::I32(a)) => Val::F64(floats.i32_to_f64(a, false)),
                    (Instr::F64ConvertI64S, Val::I64(a)) => Val::F64(floats.i64_to_f64(a, true)),
                    (Instr::F64ConvertI64U, Val::I64(a)) => Val::F64(floats.i64_to_f64(a, false)),
                    (Instr::F64PromoteF32, Val::F32(a)) => Val::F64(floats.f32_to_f64(a)),
                    _ => {
                        proof {
                            assert(!top_has_types(st, float_signature(*i).0)) by {
                                if top_has_types(st, float_signature(*i).0) {
                                    assert(st[n - 1 + 0].spec_ty() == float_signature(*i).0[0]);
                                }
                            }
                        }
                        return Err(ExecuteError::Trapped);
                    },
                };
                proof {
                    assert(seq![v] =~= st.subrange(n - 1, n as int));
                }
                self.calls = Ghost(
                    self.calls@.push(Outside::Float(FloatCall { instr: *i, operands: seq![v], result: r })),
                );
                self.values.push(r);
            },
        }
        proof {
            assert(self.values@.subrange(0, n - float_signature(*i).0.len()) =~= st.subrange(
                0,
                n - float_signature(*i).0.len(),
            ));
        }
        Ok(())
    }

    /// Calls function `func_idx` of the instance, whose functions are
    /// `funcs`: its arguments are taken from the value stack, and its results
    /// replace them. A call of a host function hands it the arguments, in
    /// the order they were pushed, and is recorded in `calls` with what it
    /// returned and left. `fuel` bounds the number of calls and blocks
    /// entered; what is left of it is returned.
    pub fn call_function<H: HostFunc, F: FloatOps>(
        &mut self,
        func_idx: Funcidx,
        funcs: &mut Vec<FuncInst<H>>,
        module: &Module,
        floats: &F,
        fuel: u64,
    ) -> (r: (Result<(), ExecuteError>, u64))
        ensures
            r.1 <= fuel,
            same_funcs(old(funcs)@, final(funcs)@),
            r.0 matches Err(e) ==> is_runtime_error(e),
            r.0 is Ok ==> {
                &&& func_idx.0 < old(funcs)@.len()
                &&& spec_functype_of(old(funcs)@[func_idx.0 as int], module@) matches Some(t)
                &&& final(self).values@.len() + t.params.len() == old(self).values@.len()
                    + t.result.spec_len()
                &&& final(self).locals@ == old(self).locals@
                &&& final(self).current_frame == old(self).current_frame
                &&& final(self).current_block == old(self).current_block
            },
            extends(final(self).calls@, old(self).calls@),
            forall|h: Seq<Outside>|
                #[trigger] extends(h, final(self).calls@) ==> agrees_call(
                    run_call(func_idx, old(self).state(), shapes(old(funcs)@), module@, h, fuel as nat),
                    r.0,
                    r.1,
                    final(self).state(),
                ),
        decreases fuel, 0int,
    {
        proof {
            lemma_extends_refl(old(self).calls@);
        }
        let ghost the_run = |h: Seq<Outside>|
            run_call(func_idx, old(self).state(), shapes(old(funcs)@), module@, h, fuel as nat);
        let ghost fuel0 = fuel;
        if fuel == 0 {
            return (Err(ExecuteError::Exhausted), 0);
        }
        let mut fuel = fuel - 1;
        let fi = func_idx.get();
        if fi >= funcs.len() {
            return (Err(ExecuteError::InvalidFuncidx), fuel);
        }
        proof {
            lemma_shape_type(funcs@[fi as int], module@);
        }
        let func_type = match funcs[fi].get_type(module) {
            Some(t) => t,
            None => return (Err(ExecuteError::InvalidFuncidx), fuel),
        };
        let nparams = func_type.params.len();
        if self.values.len() < nparams {
            return (Err(ExecuteError::Trapped), fuel);
        }
        let ghost t = func_type@;
        let ghost ls = old(self).locals@.len() as int;
        let ghost n = old(self).values@.len() - t.params.len();
        let prev_frame = self.enter_frame(func_type);
        let ghost entered = *self;
        let funcs_index: Option<usize> = match &funcs[fi] {
            FuncInst::Module { funcs_index } => Some(*funcs_index),
            FuncInst::Imported { .. } => None,
        };
        match funcs_index {
            None => {
                let nl = self.locals.len();
                let args = copy_vals(&self.locals, nl - nparams, nl);
                let mem_len = self.mem.len();
                let globals_len = self.globals.len();
                let mut env = Env { mem: Vec::new(), globals: Vec::new() };
                core::mem::swap(&mut env.mem, &mut self.mem);
                core::mem::swap(&mut env.globals, &mut self.globals);
                let ghost handed = env;
                let value = funcs[fi].invoke_host(args.as_slice(), &mut env);
                core::mem::swap(&mut env.mem, &mut self.mem);
                core::mem::swap(&mut env.globals, &mut self.globals);
                let ghost call = Outside::Host(
                    HostCall {
                        func: func_idx,
                        args: args@,
                        env_mem: handed.mem@,
                        env_globals: handed.globals@,
                        result: value,
                        mem: self.mem@,
                        globals: self.globals@,
                    },
                );
                proof {
                    lemma_extends_push(self.calls@, call);
                }
                self.calls = Ghost(self.calls@.push(call));
                proof {
                    assert(args@ =~= old(self).values@.subrange(n, old(self).values@.len() as int));
                    assert forall|h: Seq<Outside>| #[trigger] extends(h, self.calls@) implies h[old(
                        self,
                    ).calls@.len() as int] == call by {
                        assert(h.subrange(0, self.calls@.len() as int)[old(self).calls@.len() as int]
                            == h[old(self).calls@.len() as int]);
                    }
                }
                if self.mem.len() != mem_len || self.globals.len() != globals_len {
                    return (Err(ExecuteError::Trapped), fuel);
                }
                if let Some(v) = value {
                    self.values.push(v);
                }
                proof {
                    assert(self.values@ =~= old(self).values@.subrange(0, n) + match value {
                        Some(v) => seq![v],
                        None => Seq::<Val>::empty(),
                    });
                }
            },
            Some(k) => {
                let codes = module.function_codes();
                if k >= codes.len() {
                    return (Err(ExecuteError::InvalidFuncidx), fuel);
                }
                let code = &codes[k];
                let mut j: usize = 0;
                while j < code.locals.len()
                    invariant
                        j <= code.locals@.len(),
                        self.locals@ == entered.locals@ + code.locals@.subrange(0, j as int).map_values(
                            |ty: Valtype| Val::spec_zero(ty),
                        ),
                        self.mem == entered.mem,
                        self.globals == entered.globals,
                        self.table == entered.table,
                        self.calls == entered.calls,
                        self.locals@.len() >= entered.locals@.len(),
                        forall|i: int|
                            0 <= i < entered.locals@.len() ==> #[trigger] self.locals@[i]
                                == entered.locals@[i],
                        self.values == entered.values,
                        self.current_frame == entered.current_frame,
                        self.current_block == entered.current_block,
                        entered.current_frame.locals_start == old(self).locals@.len(),
                        entered.current_block == old(self).current_block,
                        entered.locals@.len() >= old(self).locals@.len(),
                        forall|i: int|
                            0 <= i < old(self).locals@.len() ==> #[trigger] entered.locals@[i]
                                == old(self).locals@[i],
                    decreases code.locals@.len() - j,
                {
                    self.locals.push(Val::zero(code.locals[j]));
                    proof {
                        assert(code.locals@.subrange(0, j + 1).map_values(|ty: Valtype| Val::spec_zero(ty))
                            =~= code.locals@.subrange(0, j as int).map_values(|ty: Valtype| Val::spec_zero(ty)).push(
                            Val::spec_zero(code.locals@[j as int]),
                        ));
                    }
                    j = j + 1;
                }
                let ghost before_body = *self;
                let body = code.body.instrs();
                proof {
                    let sc = module@.function_codes[k as int];
                    assert(views(codes@)[k as int] == codes@[k as int]@);
                    assert(code@ == sc);
                    assert(views(body@) == sc.body);
                    assert(code.locals@.subrange(0, code.locals@.len() as int) =~= sc.locals);
                    assert(old(self).values@.subrange(
                        old(self).values@.len() - func_type.params@.len(),
                        old(self).values@.len() as int,
                    ) == old(self).values@.subrange(n, old(self).values@.len() as int));
                    assert(self.state() == call_entry(old(self).state(), t, sc));
                    assert forall|h: Seq<Outside>| true implies the_run(h) == match #[trigger] run_seq(sc.body, 0, 0, call_entry(old(self).state(), t, sc), ls, shapes(old(funcs)@), module@, h, (fuel0 - 1) as nat) {
                        Run::Done(_, s2, f2) => finish_call(s2, ls, n, t.result.spec_len(), min_nat(f2, (fuel0 - 1) as nat)),
                        other => other,
                    } by {}
                }
                let (res, f) = self.execute_instrs(body, 0, funcs, module, floats, fuel);
                fuel = f;
                if let Err(e) = res {
                    return (Err(e), fuel);
                }
                proof {
                    assert(before_body.current_frame.locals_start == old(self).locals@.len());
                    assert(locals_kept(before_body.locals@, self.locals@, before_body.current_frame.locals_start as int));
                    assert forall|i: int| 0 <= i < old(self).locals@.len() implies #[trigger] self.locals@[i]
                        == old(self).locals@[i] by {
                        assert(before_body.locals@[i] == entered.locals@[i]);
                        assert(entered.locals@[i] == old(self).locals@[i]);
                        assert(before_body.locals@[i] == self.locals@[i]);
                    }
                }
            },
        }
        assert(extends(self.calls@, old(self).calls@));
        assert(forall|h: Seq<Outside>| #[trigger] extends(h, self.calls@) ==> the_run(h) == finish_call(self.state(), ls, n, t.result.spec_len(), fuel as nat));
        let frame = self.current_frame;
        if frame.locals_start > self.locals.len() || frame.arity > self.values.len()
            || frame.values_start > self.values.len() - frame.arity {
            return (Err(ExecuteError::Trapped), fuel);
        }
        self.exit_frame(func_type, prev_frame);
        proof {
            assert(self.locals@ =~= old(self).locals@);
        }
        (Ok(()), fuel)
    }

    /// Runs `body` as a block of type `blocktype` nested at depth `level`.
    /// Returns `Ok(None)` when the block ends or is branched out of, and the
    /// target depth when a branch targets an enclosing label.
    fn exec_block<H: HostFunc, F: FloatOps>(
        &mut self,
        body: &[Instr],
        blocktype: Blocktype,
        level: usize,
        funcs: &mut Vec<FuncInst<H>>,
        module: &Module,
        floats: &F,
        fuel: u64,
    ) -> (r: (Result<Option<usize>, ExecuteError>, u64))
        requires
            level < usize::MAX,
        ensures
            r.1 <= fuel,
            same_funcs(old(funcs)@, final(funcs)@),
            r.0 matches Err(e) ==> is_runtime_error(e),
            r.0 matches Ok(Some(l)) ==> l <= level,
            r.0 is Ok ==> final(self).current_frame == old(self).current_frame
                && final(self).current_block == old(self).current_block && locals_kept(
                old(self).locals@,
                final(self).locals@,
                old(self).current_frame.locals_start as int,
            ),
            extends(final(self).calls@, old(self).calls@),
            forall|h: Seq<Outside>|
                #[trigger] extends(h, final(self).calls@) ==> agrees(
                    run_block(
                        views(body@),
                        blocktype,
                        level,
                        old(self).state(),
                        old(self).current_frame.locals_start as int,
                        shapes(old(funcs)@),
                        module@,
                        h,
                        fuel as nat,
                    ),
                    r.0,
                    r.1,
                    final(self).state(),
                ),
        decreases fuel, 1int,
    {
        proof {
            lemma_extends_refl(old(self).calls@);
        }
        if fuel == 0 {
            return (Err(ExecuteError::Exhausted), 0);
        }
        let prev = self.enter_block(blocktype);
        let (r, fuel) = self.execute_instrs(body, level + 1, funcs, module, floats, fuel - 1);
        let return_level = match r {
            Ok(l) => l,
            Err(e) => return (Err(e), fuel),
        };
        let skipped = match return_level {
            Some(l) => l <= level,
            None => false,
        };
        if !skipped {
            let block = self.current_block;
            if block.arity > self.values.len() || block.values_start > self.values.len()
                - block.arity {
                return (Err(ExecuteError::Trapped), fuel);
            }
        }
        self.exit_block(blocktype, skipped, prev);
        if skipped {
            (Ok(return_level), fuel)
        } else {
            (Ok(None), fuel)
        }
    }

    /// Runs `body` as a loop of type `blocktype` nested at depth `level`: a
    /// branch to the loop's label runs the body again.
    fn exec_loop<H: HostFunc, F: FloatOps>(
        &mut self,
        body: &[Instr],
        blocktype: Blocktype,
        level: usize,
        funcs: &mut Vec<FuncInst<H>>,
        module: &Module,
        floats: &F,
        fuel: u64,
    ) -> (r: (Result<Option<usize>, ExecuteError>, u64))
        requires
            level < usize::MAX,
        ensures
            r.1 <= fuel,
            same_funcs(old(funcs)@, final(funcs)@),
            r.0 matches Err(e) ==> is_runtime_error(e),
            r.0 matches Ok(Some(l)) ==> l <= level,
            r.0 is Ok ==> final(self).current_frame == old(self).current_frame
                && final(self).current_block == old(self).current_block && locals_kept(
                old(self).locals@,
                final(self).locals@,
                old(self).current_frame.locals_start as int,
            ),
            extends(final(self).calls@, old(self).calls@),
            forall|h: Seq<Outside>|
                #[trigger] extends(h, final(self).calls@) ==> agrees(
                    run_loop(
                        views(body@),
                        level,
                        old(self).state(),
                        entered(blocktype, old(self).state()),
                        old(self).current_frame.locals_start as int,
                        shapes(old(funcs)@),
                        module@,
                        h,
                        fuel as nat,
                    ),
                    r.0,
                    r.1,
                    final(self).state(),
                ),
        decreases fuel, 1int,
    {
        proof {
            lemma_extends_refl(old(self).calls@);
        }
        let ghost ls = old(self).current_frame.locals_start as int;
        let ghost mt = module@.memory_type;
        let ghost blk = entered(blocktype, old(self).state());
        let ghost fs = shapes(old(funcs)@);
        let prev = self.enter_block(blocktype);
        proof {
            lemma_extends_refl(self.calls@);
        }
        let ghost start = *self;
        let mut cur = fuel;
        loop
            invariant
                cur <= fuel,
                same_funcs(old(funcs)@, funcs@),
                self.current_frame == old(self).current_frame,
                self.current_block == start.current_block,
                prev == old(self).current_block,
                locals_kept(old(self).locals@, self.locals@, old(self).current_frame.locals_start as int),
                level < usize::MAX,
                start.current_block == blk,
                blk == entered(blocktype, old(self).state()),
                ls == old(self).current_frame.locals_start,
                mt == module@.memory_type,
                fs == shapes(old(funcs)@),
                extends(self.calls@, old(self).calls@),
                forall|h: Seq<Outside>|
                    #[trigger] extends(h, self.calls@) ==> run_loop(views(body@), level, old(self).state(), blk, ls, fs, module@, h, fuel as nat)
                    == run_loop(views(body@), level, self.state(), blk, ls, fs, module@, h, cur as nat)

            decreases cur,
        {
            if cur == 0 {
                return (Err(ExecuteError::Exhausted), 0);
            }
            let ghost here = self.state();
            let ghost before = cur as nat;
            proof {
                lemma_same_shapes(old(funcs)@, funcs@);
            }
            let ghost fs_before = funcs@;
            let ghost calls_before = self.calls@;
            let (r, f) = self.execute_instrs(body, level + 1, funcs, module, floats, cur - 1);
            proof {
                lemma_same_shapes(fs_before, funcs@);
                lemma_extends_trans(self.calls@, calls_before, old(self).calls@);
                assert forall|h: Seq<Outside>| #[trigger] extends(h, self.calls@) implies extends(h, calls_before) by {
                    lemma_extends_trans(h, self.calls@, calls_before);
                }
            }
            cur = f;
            let return_level = match r {
                Ok(l) => l,
                Err(e) => return (Err(e), cur),
            };
            if return_level == Some(level + 1) {
                let start = self.current_block.values_start;
                self.values.truncate(start);
            } else {
                let skipped = match return_level {
                    Some(l) => l <= level,
                    None => false,
                };
                if !skipped {
                    let block = self.current_block;
                    if block.arity > self.values.len() || block.values_start > self.values.len()
                        - block.arity {
                        return (Err(ExecuteError::Trapped), cur);
                    }
                }
                self.exit_block(blocktype, skipped, prev);
                if skipped {
                    return (Ok(return_level), cur);
                } else {
                    return (Ok(None), cur);
                }
            }
        }
    }

    /// Runs `instrs` nested at depth `level` (0 for a function body) in the
    /// current frame. Returns `Ok(None)` when the instructions run to their
    /// end, and `Ok(Some(l))` when a branch targets the label at depth `l`
    /// (0 for a return). For instructions that neither branch, call nor
    /// compute with floating point, the outcome is their effects in order.
    pub fn execute_instrs<H: HostFunc, F: FloatOps>(
        &mut self,
        instrs: &[Instr],
        level: usize,
        funcs: &mut Vec<FuncInst<H>>,
        module: &Module,
        floats: &F,
        fuel: u64,
    ) -> (r: (Result<Option<usize>, ExecuteError>, u64))
        ensures
            r.1 <= fuel,
            same_funcs(old(funcs)@, final(funcs)@),
            r.0 matches Err(e) ==> is_runtime_error(e),
            r.0 matches Ok(Some(l)) ==> l <= level,
            r.0 is Ok ==> final(self).current_frame == old(self).current_frame
                && final(self).current_block == old(self).current_block && locals_kept(
                old(self).locals@,
                final(self).locals@,
                old(self).current_frame.locals_start as int,
            ),
            (forall|k: int| 0 <= k < instrs@.len() ==> is_plain(#[trigger] instrs@[k]))
                ==> match spec_run_plain(
                instrs@,
                instrs@.len(),
                old(self).state(),
                old(self).current_frame.locals_start as int,
                module@.memory_type,
            ) {
                Some(st) => r.0 == Ok::<Option<usize>, ExecuteError>(None) && final(self).state()
                    == st,
                None => r.0 == Err::<Option<usize>, ExecuteError>(ExecuteError::Trapped),
            },
            extends(final(self).calls@, old(self).calls@),
            forall|h: Seq<Outside>|
                #[trigger] extends(h, final(self).calls@) ==> agrees(
                    run_seq(
                        views(instrs@),
                        0,
                        level,
                        old(self).state(),
                        old(self).current_frame.locals_start as int,
                        shapes(old(funcs)@),
                        module@,
                        h,
                        fuel as nat,
                    ),
                    r.0,
                    r.1,
                    final(self).state(),
                ),
        decreases fuel, 3int,
    {
        proof {
            lemma_extends_refl(old(self).calls@);
        }
        let ghost ls = self.current_frame.locals_start as int;
        let ghost mt = module@.memory_type;
        let ghost all_plain = forall|k: int| 0 <= k < instrs@.len() ==> is_plain(#[trigger] instrs@[k]);
        let ghost s0 = self.state();
        let ghost fs = shapes(old(funcs)@);
        proof {
            lemma_extends_refl(self.calls@);
        }
        let mut cur = fuel;
        let mut idx: usize = 0;
        while idx < instrs.len()
            invariant
                idx <= instrs@.len(),
                cur <= fuel,
                same_funcs(old(funcs)@, funcs@),
                self.current_frame == old(self).current_frame,
                self.current_block == old(self).current_block,
                locals_kept(old(self).locals@, self.locals@, ls),
                ls == old(self).current_frame.locals_start,
                mt == module@.memory_type,
                s0 == old(self).state(),
                all_plain == (forall|k: int| 0 <= k < instrs@.len() ==> is_plain(#[trigger] instrs@[k])),
                all_plain ==> spec_run_plain(instrs@, idx as nat, s0, ls, mt) == Some(self.state()),
                all_plain ==> cur == fuel,
                fs == shapes(old(funcs)@),
                extends(self.calls@, old(self).calls@),
                forall|h: Seq<Outside>|
                    #[trigger] extends(h, self.calls@) ==> run_seq(views(instrs@), 0, level, s0, ls, fs, module@, h, fuel as nat)
                    == run_seq(views(instrs@), idx as nat, level, self.state(), ls, fs, module@, h, cur as nat)

            decreases instrs@.len() - idx,
        {
            let ghost here = self.state();
            let ghost before = cur as nat;
            proof {
                lemma_same_shapes(old(funcs)@, funcs@);
            }
            let ghost fs_before = funcs@;
            let ghost calls_before = self.calls@;
            let (r, f) = self.exec_instr(&instrs[idx], level, funcs, module, floats, cur);
            proof {
                lemma_same_shapes(fs_before, funcs@);
                lemma_extends_trans(self.calls@, calls_before, old(self).calls@);
                assert forall|h: Seq<Outside>| #[trigger] extends(h, self.calls@) implies extends(h, calls_before) by {
                    lemma_extends_trans(h, self.calls@, calls_before);
                }
                if all_plain {
                    assert(is_plain(instrs@[idx as int]));
                    if r is Err {
                        lemma_run_plain_trapped(instrs@, (idx + 1) as nat, instrs@.len(), s0, ls, mt);
                    }
                }
            }
            cur = f;
            match r {
                Ok(None) => {},
                Ok(Some(l)) => return (Ok(Some(l)), cur),
                Err(e) => return (Err(e), cur),
            }
            idx = idx + 1;
        }
        (Ok(None), cur)
    }

    /// Runs the one instruction `instr` nested at depth `level`, with the
    /// outcome that `execute_instrs` gives for it alone.
    fn exec_instr<H: HostFunc, F: FloatOps>(
        &mut self,
        instr: &Instr,
        level: usize,
        funcs: &mut Vec<FuncInst<H>>,
        module: &Module,
        floats: &F,
        fuel: u64,
    ) -> (r: (Result<Option<usize>, ExecuteError>, u64))
        ensures
            r.1 <= fuel,
            same_funcs(old(funcs)@, final(funcs)@),
            r.0 matches Err(e) ==> is_runtime_error(e),
            r.0 matches Ok(Some(l)) ==> l <= level,
            r.0 is Ok ==> final(self).current_frame == old(self).current_frame
                && final(self).current_block == old(self).current_block && locals_kept(
                old(self).locals@,
                final(self).locals@,
                old(self).current_frame.locals_start as int,
            ),
            is_plain(*instr) ==> r.1 == fuel && match spec_plain(
                *instr,
                old(self).state(),
                old(self).current_frame.locals_start as int,
                module@.memory_type,
            ) {
                Some(st) => r.0 == Ok::<Option<usize>, ExecuteError>(None) && final(self).state()
                    == st,
                None => r.0 == Err::<Option<usize>, ExecuteError>(ExecuteError::Trapped),
            },
            extends(final(self).calls@, old(self).calls@),
            forall|h: Seq<Outside>|
                #[trigger] extends(h, final(self).calls@) ==> agrees(
                    run_instr(
                        instr@,
                        level,
                        old(self).state(),
                        old(self).current_frame.locals_start as int,
                        shapes(old(funcs)@),
                        module@,
                        h,
                        fuel as nat,
                    ),
                    r.0,
                    r.1,
                    final(self).state(),
                ),
        decreases fuel, 2int,
    {
        proof {
            lemma_extends_refl(old(self).calls@);
        }
        match instr {
            Instr::Block(b) => {
                if level == usize::MAX {
                    return (Err(ExecuteError::Trapped), fuel);
                }
                proof {
                    lemma_vec_view(b.instrs);
                }
                self.exec_block(b.instrs.as_slice(), b.blocktype, level, funcs, module, floats, fuel)
            },
            Instr::Loop(b) => {
                if level == usize::MAX {
                    return (Err(ExecuteError::Trapped), fuel);
                }
                proof {
                    lemma_vec_view(b.instrs);
                }
                self.exec_loop(b.instrs.as_slice(), b.blocktype, level, funcs, module, floats, fuel)
            },
            Instr::If(b) => {
                if level == usize::MAX {
                    return (Err(ExecuteError::Trapped), fuel);
                }
                let c = match self.take1() {
                    Some(Val::I32(c)) => c,
                    _ => return (Err(ExecuteError::Trapped), fuel),
                };
                proof {
                    lemma_vec_view(b.then_instrs);
                    lemma_vec_view(b.else_instrs);
                }
                if c != 0 {
                    self.exec_block(b.then_instrs.as_slice(), b.blocktype, level, funcs, module, floats, fuel)
                } else {
                    self.exec_block(b.else_instrs.as_slice(), b.blocktype, level, funcs, module, floats, fuel)
                }
            },
            Instr::Br(label) => {
                let l = label.get();
                if l > level {
                    return (Err(ExecuteError::Trapped), fuel);
                }
                (Ok(Some(level - l)), fuel)
            },
            Instr::BrIf(label) => {
                let c = match self.take1() {
                    Some(Val::I32(c)) => c,
                    _ => return (Err(ExecuteError::Trapped), fuel),
                };
                if c != 0 {
                    let l = label.get();
                    if l > level {
                        return (Err(ExecuteError::Trapped), fuel);
                    }
                    (Ok(Some(level - l)), fuel)
                } else {
                    (Ok(None), fuel)
                }
            },
            Instr::BrTable(table) => {
                let i = match self.take1() {
                    Some(Val::I32(i)) => (i as u32) as usize,
                    _ => return (Err(ExecuteError::Trapped), fuel),
                };
                let n = table.labels.len();
                if n == 0 {
                    return (Err(ExecuteError::Trapped), fuel);
                }
                let label = if i < n {
                    table.labels[i]
                } else {
                    table.labels[n - 1]
                };
                let l = label.get();
                if l > level {
                    return (Err(ExecuteError::Trapped), fuel);
                }
                (Ok(Some(level - l)), fuel)
            },
            Instr::Return => (Ok(Some(0)), fuel),
            Instr::Call(func_idx) => {
                let (r, f) = self.call_function(*func_idx, funcs, module, floats, fuel);
                match r {
                    Ok(()) => (Ok(None), f),
                    Err(e) => (Err(e), f),
                }
            },
            Instr::CallIndirect(typeidx) => {
                let (r, f) = self.call_indirect(*typeidx, funcs, module, floats, fuel);
                match r {
                    Ok(()) => (Ok(None), f),
                    Err(e) => (Err(e), f),
                }
            },
            _ => {
                proof {
                    lemma_plain_or_float(*instr);
                }
                if is_float_instr(instr) {
                    let ghost before = *self;
                    let res = self.exec_float(instr, floats);
                    proof {
                        if res is Ok {
                            let c = self.calls@.last();
                            assert(self.calls@ == before.calls@.push(c));
                            lemma_extends_push(before.calls@, c);
                            assert forall|h: Seq<Outside>| #[trigger] extends(h, self.calls@) implies h[before.calls@.len() as int] == c by {
                                lemma_extends_last(h, before.calls@, c);
                            }
                        }
                    }
                    match res {
                        Ok(()) => (Ok(None), fuel),
                        Err(e) => (Err(e), fuel),
                    }
                } else {
                    match self.exec_plain(instr, module.memory_type()) {
                        Ok(()) => (Ok(None), fuel),
                        Err(e) => (Err(e), fuel),
                    }
                }
            },
        }
    }

    /// Calls the function that table entry (the popped operand) refers to,
    /// if its type is type `typeidx` of the module.
    fn call_indirect<H: HostFunc, F: FloatOps>(
        &mut self,
        typeidx: Typeidx,
        funcs: &mut Vec<FuncInst<H>>,
        module: &Module,
        floats: &F,
        fuel: u64,
    ) -> (r: (Result<(), ExecuteError>, u64))
        ensures
            r.1 <= fuel,
            same_funcs(old(funcs)@, final(funcs)@),
            r.0 matches Err(e) ==> is_runtime_error(e),
            r.0 is Ok ==> final(self).locals@ == old(self).locals@ && final(self).current_frame
                == old(self).current_frame && final(self).current_block == old(
                self,
            ).current_block,
            extends(final(self).calls@, old(self).calls@),
            forall|h: Seq<Outside>|
                #[trigger] extends(h, final(self).calls@) ==> agrees_call(
                    run_call_indirect(typeidx, old(self).state(), shapes(old(funcs)@), module@, h, fuel as nat),
                    r.0,
                    r.1,
                    final(self).state(),
                ),
        decreases fuel, 1int,
    {
        proof {
            lemma_extends_refl(old(self).calls@);
        }
        let k = match self.take1() {
            Some(Val::I32(k)) => (k as u32) as usize,
            _ => return (Err(ExecuteError::Trapped), fuel),
        };
        if k >= self.table.len() {
            return (Err(ExecuteError::Trapped), fuel);
        }
        let func_idx = match self.table[k] {
            Some(f) => f,
            None => return (Err(ExecuteError::Trapped), fuel),
        };
        let types = module.function_types();
        let ti = typeidx.get();
        if ti >= types.len() {
            return (Err(ExecuteError::InvalidTypeidx), fuel);
        }
        let fi = func_idx.get();
        if fi >= funcs.len() {
            return (Err(ExecuteError::InvalidFuncidx), fuel);
        }
        let actual = match funcs[fi].get_type(module) {
            Some(t) => t,
            None => return (Err(ExecuteError::InvalidFuncidx), fuel),
        };
        if !same_functype(&types[ti], actual) {
            return (Err(ExecuteError::Trapped), fuel);
        }
        self.call_function(func_idx, funcs, module, floats, fuel)
    }

    /// Whether local `x` of the current function exists.
    fn local_in_frame(&self, x: Localidx) -> (b: bool)
        ensures
            b == (0 <= self.current_frame.locals_start + x.0 < self.locals@.len()),
    {
        let start = self.current_frame.locals_start;
        let len = self.locals.len();
        start <= len && x.get() < len - start
    }
}

/// An instruction that neither branches nor calls computes either with
/// floating point or not at all.
proof fn lemma_plain_or_float(i: Instr)
    requires
        !is_control(i),
    ensures
        is_float_arith(i) || is_plain(i),
{
}

/// Whether `i` computes with floating point.
fn is_float_instr(i: &Instr) -> (b: bool)
    ensures
        b == is_float_arith(*i),
{
    match i {
        Instr::F32Eq | Instr::F32Ne | Instr::F32Lt | Instr::F32Gt | Instr::F32Le | Instr::F32Ge
        | Instr::F64Eq | Instr::F64Ne | Instr::F64Lt | Instr::F64Gt | Instr::F64Le | Instr::F64Ge
        | Instr::F32Ceil | Instr::F32Floor | Instr::F32Trunc | Instr::F32Nearest | Instr::F32Sqrt
        | Instr::F32Add | Instr::F32Sub | Instr::F32Mul | Instr::F32Div | Instr::F32Min
        | Instr::F32Max | Instr::F64Ceil | Instr::F64Floor | Instr::F64Trunc | Instr::F64Nearest
        | Instr::F64Sqrt | Instr::F64Add | Instr::F64Sub | Instr::F64Mul | Instr::F64Div
        | Instr::F64Min | Instr::F64Max | Instr::I32TruncF32S | Instr::I32TruncF32U
        | Instr::I32TruncF64S | Instr::I32TruncF64U | Instr::I64TruncF32S | Instr::I64TruncF32U
        | Instr::I64TruncF64S | Instr::I64TruncF64U | Instr::F32ConvertI32S
        | Instr::F32ConvertI32U | Instr::F32ConvertI64S | Instr::F32ConvertI64U
        | Instr::F32DemoteF64 | Instr::F64ConvertI32S | Instr::F64ConvertI32U
        | Instr::F64ConvertI64S | Instr::F64ConvertI64U | Instr::F64PromoteF32 => true,
        _ => false,
    }
}

/// A copy of `v[start..end]`.
fn copy_vals(v: &Vec<Val>, start: usize, end: usize) -> (r: Vec<Val>)
    requires
        start <= end <= v@.len(),
    ensures
        r@ == v@.subrange(start as int, end as int),
{
    let mut r: Vec<Val> = Vec::new();
    let mut k = start;
    while k < end
        invariant
            start <= k <= end <= v@.len(),
            r@ == v@.subrange(start as int, k as int),
        decreases end - k,
    {
        r.push(v[k]);
        proof {
            assert(v@.subrange(start as int, k + 1) =~= v@.subrange(start as int, k as int).push(
                v@[k as int],
            ));
        }
        k = k + 1;
    }
    r
}

/// Whether two function types are the same.
fn same_functype(a: &Functype, b: &Functype) -> (r: bool)
    ensures
        r == (a@ == b@),
{
    if a.result != b.result || a.params.len() != b.params.len() {
        return false;
    }
    let mut k: usize = 0;
    while k < a.params.len()
        invariant
            k <= a.params@.len() == b.params@.len(),
            a.result == b.result,
            forall|j: int| 0 <= j < k ==> a.params@[j] == b.params@[j],
        decreases a.params@.len() - k,
    {
        if a.params[k] != b.params[k] {
            return false;
        }
        k = k + 1;
    }
    proof {
        assert(a.params@ =~= b.params@);
    }
    true
}

/// 1 for true, 0 for false, as an `i32` value.
fn bool_val(b: bool) -> (v: Val)
    ensures
        v == Val::I32(if b { 1 } else { 0 }),
{
    Val::I32(
        if b {
            1
        } else {
            0
        },
    )
}

/// Whether `i` is a numeric instruction that does not compute with floating
/// point.
fn is_numeric_instr(i: &Instr) -> (b: bool)
    ensures
        b == is_numeric(*i),
{
    match i {
        Instr::I32Add | Instr::I32Sub | Instr::I32Mul | Instr::I32DivS | Instr::I32DivU
        | Instr::I32RemS | Instr::I32RemU | Instr::I32And | Instr::I32Or | Instr::I32Xor
        | Instr::I32Shl | Instr::I32ShrS | Instr::I32ShrU | Instr::I32Rotl | Instr::I32Rotr
        | Instr::I64Add | Instr::I64Sub | Instr::I64Mul | Instr::I64DivS | Instr::I64DivU
        | Instr::I64RemS | Instr::I64RemU | Instr::I64And | Instr::I64Or | Instr::I64Xor
        | Instr::I64Shl | Instr::I64ShrS | Instr::I64ShrU | Instr::I64Rotl | Instr::I64Rotr
        | Instr::I32Eq | Instr::I32Ne | Instr::I32LtS | Instr::I32LtU | Instr::I32GtS
        | Instr::I32GtU | Instr::I32LeS | Instr::I32LeU | Instr::I32GeS | Instr::I32GeU
        | Instr::I64Eq | Instr::I64Ne | Instr::I64LtS | Instr::I64LtU | Instr::I64GtS
        | Instr::I64GtU | Instr::I64LeS | Instr::I64LeU | Instr::I64GeS | Instr::I64GeU
        | Instr::I32Clz | Instr::I32Ctz | Instr::I32Popcnt | Instr::I32Eqz | Instr::I64Clz
        | Instr::I64Ctz | Instr::I64Popcnt | Instr::F32Abs | Instr::F32Neg | Instr::F32Copysign
        | Instr::F64Abs | Instr::F64Neg | Instr::F64Copysign | Instr::I32Const(_)
        | Instr::I64Const(_) | Instr::F32Const(_) | Instr::F64Const(_) | Instr::I64Eqz
        | Instr::I32WrapI64 | Instr::I64ExtendI32S | Instr::I64ExtendI32U
        | Instr::I32ReinterpretF32 | Instr::I64ReinterpretF64 | Instr::F32ReinterpretI32
        | Instr::F64ReinterpretI64 | Instr::SignExtension(_) => true,
        _ => false,
    }
}

} // verus!
