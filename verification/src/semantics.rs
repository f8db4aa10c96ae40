//! What each instruction that neither branches, calls nor computes with
//! floating point does to the state of a running instance.
use crate::components::{Funcidx, Globalidx, Localidx, Memarg, Memtype};
use crate::control::Outside;
use crate::execute::{GlobalVal, Val};
use crate::instructions::Instr;
use crate::memory::{lemma_load_after_store, pow256, spec_store};
use crate::numeric::{
    bool_i32, is_f32_signop, is_f64_signop, is_i32_binop, is_i32_relop, is_i32_unop, is_i64_binop,
    is_i64_relop, is_i64_unop, spec_f32_signop, spec_f64_signop, spec_i32_binop, spec_i32_relop,
    spec_i32_unop, spec_i64_binop, spec_i64_relop, spec_i64_unop,
};
use crate::reader::spec_le;
use crate::PAGE_SIZE;
use vstd::prelude::*;

verus! {

/// The parts of a running instance that an instruction reads and writes.
pub struct MachineState {
    pub mem: Seq<u8>,
    pub globals: Seq<GlobalVal>,
    pub locals: Seq<Val>,
    pub values: Seq<Val>,
    pub table: Seq<Option<Funcidx>>,
    pub calls: Seq<Outside>,
}

/// The top two values of `st` if both are `i32`, with the rest below them.
pub open spec fn pop2_i32(st: Seq<Val>) -> Option<(Seq<Val>, i32, i32)> {
    if st.len() >= 2 {
        match (st[st.len() - 2], st[st.len() - 1]) {
            (Val::I32(a), Val::I32(b)) => Some((st.subrange(0, st.len() - 2), a, b)),
            _ => None,
        }
    } else {
        None
    }
}

/// The top two values of `st` if both are `i64`, with the rest below them.
pub open spec fn pop2_i64(st: Seq<Val>) -> Option<(Seq<Val>, i64, i64)> {
    if st.len() >= 2 {
        match (st[st.len() - 2], st[st.len() - 1]) {
            (Val::I64(a), Val::I64(b)) => Some((st.subrange(0, st.len() - 2), a, b)),
            _ => None,
        }
    } else {
        None
    }
}

/// The top two values of `st` if both are `f32`, with the rest below them.
pub open spec fn pop2_f32(st: Seq<Val>) -> Option<(Seq<Val>, u32, u32)> {
    if st.len() >= 2 {
        match (st[st.len() - 2], st[st.len() - 1]) {
            (Val::F32(a), Val::F32(b)) => Some((st.subrange(0, st.len() - 2), a, b)),
            _ => None,
        }
    } else {
        None
    }
}

/// The top two values of `st` if both are `f64`, with the rest below them.
pub open spec fn pop2_f64(st: Seq<Val>) -> Option<(Seq<Val>, u64, u64)> {
    if st.len() >= 2 {
        match (st[st.len() - 2], st[st.len() - 1]) {
            (Val::F64(a), Val::F64(b)) => Some((st.subrange(0, st.len() - 2), a, b)),
            _ => None,
        }
    } else {
        None
    }
}

/// The top value of `st` and the rest below it.
pub open spec fn pop1(st: Seq<Val>) -> Option<(Seq<Val>, Val)> {
    if st.len() >= 1 {
        Some((st.subrange(0, st.len() - 1), st[st.len() - 1]))
    } else {
        None
    }
}

/// Whether `i` is a numeric instruction that does not compute with floating
/// point: a constant, an integer operator, a conversion between integers, a
/// reinterpretation, or a sign operator on a float's bit pattern.
pub open spec fn is_numeric(i: Instr) -> bool {
    ||| is_i32_binop(i)
    ||| is_i64_binop(i)
    ||| is_i32_relop(i)
    ||| is_i64_relop(i)
    ||| is_i32_unop(i)
    ||| is_i64_unop(i)
    ||| is_f32_signop(i)
    ||| is_f64_signop(i)
    ||| match i {
        Instr::I32Const(_) | Instr::I64Const(_) | Instr::F32Const(_) | Instr::F64Const(_)
        | Instr::I64Eqz | Instr::I32WrapI64 | Instr::I64ExtendI32S | Instr::I64ExtendI32U
        | Instr::I32ReinterpretF32 | Instr::I64ReinterpretF64 | Instr::F32ReinterpretI32
        | Instr::F64ReinterpretI64 => true,
        _ => false,
    }
}

/// The value stack after the numeric instruction `i`, or `None` for a trap
/// (an operand missing or of the wrong type, or a division by zero).
#[verifier::opaque]
pub open spec fn spec_numeric(i: Instr, st: Seq<Val>) -> Option<Seq<Val>> {
    if is_i32_binop(i) {
        match pop2_i32(st) {
            Some((rest, a, b)) => match spec_i32_binop(i, a, b) {
                Some(c) => Some(rest.push(Val::I32(c))),
                None => None,
            },
            None => None,
        }
    } else if is_i64_binop(i) {
        match pop2_i64(st) {
            Some((rest, a, b)) => match spec_i64_binop(i, a, b) {
                Some(c) => Some(rest.push(Val::I64(c))),
                None => None,
            },
            None => None,
        }
    } else if is_i32_relop(i) {
        match pop2_i32(st) {
            Some((rest, a, b)) => Some(rest.push(Val::I32(bool_i32(spec_i32_relop(i, a, b))))),
            None => None,
        }
    } else if is_i64_relop(i) {
        match pop2_i64(st) {
            Some((rest, a, b)) => Some(rest.push(Val::I32(bool_i32(spec_i64_relop(i, a, b))))),
            None => None,
        }
    } else if is_f32_signop(i) {
        if i == Instr::F32Copysign {
            match pop2_f32(st) {
                Some((rest, a, b)) => Some(rest.push(Val::F32(spec_f32_signop(i, a, b)))),
                None => None,
            }
        } else {
            match pop1(st) {
                Some((rest, Val::F32(a))) => Some(rest.push(Val::F32(spec_f32_signop(i, a, 0)))),
                _ => None,
            }
        }
    } else if is_f64_signop(i) {
        if i == Instr::F64Copysign {
            match pop2_f64(st) {
                Some((rest, a, b)) => Some(rest.push(Val::F64(spec_f64_signop(i, a, b)))),
                None => None,
            }
        } else {
            match pop1(st) {
                Some((rest, Val::F64(a))) => Some(rest.push(Val::F64(spec_f64_signop(i, a, 0)))),
                _ => None,
            }
        }
    } else {
        match i {
            Instr::I32Const(v) => Some(st.push(Val::I32(v))),
            Instr::I64Const(v) => Some(st.push(Val::I64(v))),
            Instr::F32Const(v) => Some(st.push(Val::F32(v))),
            Instr::F64Const(v) => Some(st.push(Val::F64(v))),
            _ => match pop1(st) {
                None => None,
                Some((rest, v)) => if is_i32_unop(i) {
                    match v {
                        Val::I32(a) => Some(rest.push(Val::I32(spec_i32_unop(i, a)))),
                        _ => None,
                    }
                } else if is_i64_unop(i) {
                    match v {
                        Val::I64(a) => Some(rest.push(Val::I64(spec_i64_unop(i, a)))),
                        _ => None,
                    }
                } else {
                    match (i, v) {
                        (Instr::I64Eqz, Val::I64(a)) => Some(rest.push(Val::I32(bool_i32(a == 0)))),
                        (Instr::I32WrapI64, Val::I64(a)) => Some(rest.push(Val::I32(a as i32))),
                        (Instr::I64ExtendI32S, Val::I32(a)) => Some(rest.push(Val::I64(a as i64))),
                        (Instr::I64ExtendI32U, Val::I32(a)) => Some(
                            rest.push(Val::I64((a as u32) as i64)),
                        ),
                        (Instr::I32ReinterpretF32, Val::F32(a)) => Some(
                            rest.push(Val::I32(a as i32)),
                        ),
                        (Instr::I64ReinterpretF64, Val::F64(a)) => Some(
                            rest.push(Val::I64(a as i64)),
                        ),
                        (Instr::F32ReinterpretI32, Val::I32(a)) => Some(
                            rest.push(Val::F32(a as u32)),
                        ),
                        (Instr::F64ReinterpretI64, Val::I64(a)) => Some(
                            rest.push(Val::F64(a as u64)),
                        ),
                        _ => None,
                    }
                },
            },
        }
    }
}

/// The address that `arg` and the operand `a` give: the operand read as
/// unsigned plus the offset.
pub open spec fn effective_address(a: i32, arg: Memarg) -> int {
    (a as u32) + arg.offset
}

/// The number of bytes that a load instruction reads (0 for others).
pub open spec fn load_width(i: Instr) -> nat {
    match i {
        Instr::I32Load(_) | Instr::F32Load(_) | Instr::I64Load32S(_) | Instr::I64Load32U(_) => 4,
        Instr::I64Load(_) | Instr::F64Load(_) => 8,
        Instr::I32Load8S(_) | Instr::I32Load8U(_) | Instr::I64Load8S(_) | Instr::I64Load8U(_) => 1,
        Instr::I32Load16S(_) | Instr::I32Load16U(_) | Instr::I64Load16S(_) | Instr::I64Load16U(
            _,
        ) => 2,
        _ => 0,
    }
}

/// The memory argument of a load or store instruction.
pub open spec fn memarg_of(i: Instr) -> Option<Memarg> {
    match i {
        Instr::I32Load(m) | Instr::I64Load(m) | Instr::F32Load(m) | Instr::F64Load(m)
        | Instr::I32Load8S(m) | Instr::I32Load8U(m) | Instr::I32Load16S(m) | Instr::I32Load16U(m)
        | Instr::I64Load8S(m) | Instr::I64Load8U(m) | Instr::I64Load16S(m) | Instr::I64Load16U(m)
        | Instr::I64Load32S(m) | Instr::I64Load32U(m) | Instr::I32Store(m) | Instr::I64Store(m)
        | Instr::F32Store(m) | Instr::F64Store(m) | Instr::I32Store8(m) | Instr::I32Store16(m)
        | Instr::I64Store8(m) | Instr::I64Store16(m) | Instr::I64Store32(m) => Some(m),
        _ => None,
    }
}

/// Whether `i` loads from memory.
pub open spec fn is_load(i: Instr) -> bool {
    load_width(i) > 0
}

/// The value that the load `i` makes of the little-endian number `x` read
/// from memory.
pub open spec fn loaded_value(i: Instr, x: nat) -> Val {
    match i {
        Instr::I32Load(_) => Val::I32(x as i32),
        Instr::I64Load(_) => Val::I64(x as i64),
        Instr::F32Load(_) => Val::F32(x as u32),
        Instr::F64Load(_) => Val::F64(x as u64),
        Instr::I32Load8S(_) => Val::I32((x as i8) as i32),
        Instr::I32Load8U(_) => Val::I32(x as i32),
        Instr::I32Load16S(_) => Val::I32((x as i16) as i32),
        Instr::I32Load16U(_) => Val::I32(x as i32),
        Instr::I64Load8S(_) => Val::I64((x as i8) as i64),
        Instr::I64Load16S(_) => Val::I64((x as i16) as i64),
        Instr::I64Load32S(_) => Val::I64((x as i32) as i64),
        _ => Val::I64(x as i64),
    }
}

/// Whether `i` stores to memory.
pub open spec fn is_store(i: Instr) -> bool {
    match i {
        Instr::I32Store(_) | Instr::I64Store(_) | Instr::F32Store(_) | Instr::F64Store(_)
        | Instr::I32Store8(_) | Instr::I32Store16(_) | Instr::I64Store8(_) | Instr::I64Store16(_)
        | Instr::I64Store32(_) => true,
        _ => false,
    }
}

/// The bits of a value as an unsigned number.
pub open spec fn val_bits(v: Val) -> nat {
    match v {
        Val::I32(a) => (a as u32) as nat,
        Val::I64(a) => (a as u64) as nat,
        Val::F32(a) => a as nat,
        Val::F64(a) => a as nat,
    }
}

/// The width and the number that the store `i` writes for the value `v`, or
/// `None` for a trap. The full-width stores write the value's own width and
/// bits whatever its type; the narrow stores take an integer of their type.
pub open spec fn stored(i: Instr, v: Val) -> Option<(nat, nat)> {
    match (i, v) {
        (Instr::I32Store(_), _) | (Instr::I64Store(_), _) | (Instr::F32Store(_), _) | (
            Instr::F64Store(_),
            _,
        ) => Some((v.spec_byte_size(), val_bits(v))),
        (Instr::I32Store8(_), Val::I32(a)) => Some((1, val_bits(v))),
        (Instr::I32Store16(_), Val::I32(a)) => Some((2, val_bits(v))),
        (Instr::I64Store8(_), Val::I64(a)) => Some((1, val_bits(v))),
        (Instr::I64Store16(_), Val::I64(a)) => Some((2, val_bits(v))),
        (Instr::I64Store32(_), Val::I64(a)) => Some((4, val_bits(v))),
        _ => None,
    }
}

/// The most pages that memory may grow to: its declared maximum, 65536
/// (4 GiB) if it declares none, and 0 if the module has no memory.
pub open spec fn max_pages(memory_type: Option<Memtype>) -> nat {
    match memory_type {
        Some(t) => match t.limits.max {
            Some(m) => m as nat,
            None => 65536,
        },
        None => 0,
    }
}

/// The state after the instruction `i` that neither branches, calls nor
/// computes with floating point, or `None` for a trap. `locals_start` is
/// where the current function's locals begin.
#[verifier::opaque]
pub open spec fn spec_plain(
    i: Instr,
    s: MachineState,
    locals_start: int,
    memory_type: Option<Memtype>,
) -> Option<MachineState> {
    if is_numeric(i) {
        match spec_numeric(i, s.values) {
            Some(values) => Some(MachineState { values, ..s }),
            None => None,
        }
    } else if is_load(i) {
        match pop1(s.values) {
            Some((rest, Val::I32(a))) => {
                let ea = effective_address(a, memarg_of(i)->0);
                let n = load_width(i);
                if ea + n <= s.mem.len() {
                    Some(
                        MachineState {
                            values: rest.push(loaded_value(i, spec_le(s.mem, ea, n))),
                            ..s
                        },
                    )
                } else {
                    None
                }
            },
            _ => None,
        }
    } else if is_store(i) {
        match pop1(s.values) {
            Some((rest, v)) => match pop1(rest) {
                Some((rest2, Val::I32(a))) => {
                    let ea = effective_address(a, memarg_of(i)->0);
                    match stored(i, v) {
                        Some((n, x)) => if ea + n <= s.mem.len() {
                            Some(MachineState { mem: spec_store(s.mem, ea, n, x), values: rest2, ..s })
                        } else {
                            None
                        },
                        None => None,
                    }
                },
                _ => None,
            },
            None => None,
        }
    } else {
        match i {
            Instr::Nop => Some(s),
            Instr::Drop => match pop1(s.values) {
                Some((rest, _)) => Some(MachineState { values: rest, ..s }),
                None => None,
            },
            Instr::Select => match pop1(s.values) {
                Some((r1, Val::I32(c))) => match pop1(r1) {
                    Some((r2, v0)) => match pop1(r2) {
                        Some((r3, v1)) => Some(
                            MachineState {
                                values: r3.push(
                                    if c != 0 {
                                        v0
                                    } else {
                                        v1
                                    },
                                ),
                                ..s
                            },
                        ),
                        None => None,
                    },
                    None => None,
                },
                _ => None,
            },
            Instr::LocalGet(x) => {
                let k = locals_start + x.0;
                if 0 <= k < s.locals.len() {
                    Some(MachineState { values: s.values.push(s.locals[k]), ..s })
                } else {
                    None
                }
            },
            Instr::LocalSet(x) => {
                let k = locals_start + x.0;
                match pop1(s.values) {
                    Some((rest, v)) => if 0 <= k < s.locals.len() {
                        Some(MachineState { values: rest, locals: s.locals.update(k, v), ..s })
                    } else {
                        None
                    },
                    None => None,
                }
            },
            Instr::LocalTee(x) => {
                let k = locals_start + x.0;
                match pop1(s.values) {
                    Some((_, v)) => if 0 <= k < s.locals.len() {
                        Some(MachineState { locals: s.locals.update(k, v), ..s })
                    } else {
                        None
                    },
                    None => None,
                }
            },
            Instr::GlobalGet(x) => if x.0 < s.globals.len() {
                Some(MachineState { values: s.values.push(s.globals[x.0 as int].spec_val()), ..s })
            } else {
                None
            },
            Instr::GlobalSet(x) => match pop1(s.values) {
                Some((rest, v)) => if x.0 < s.globals.len() {
                    Some(
                        MachineState {
                            values: rest,
                            globals: s.globals.update(x.0 as int, s.globals[x.0 as int].spec_set(v)),
                            ..s
                        },
                    )
                } else {
                    None
                },
                None => None,
            },
            Instr::MemorySize => Some(
                MachineState { values: s.values.push(Val::I32((s.mem.len() / PAGE_SIZE as nat) as i32)), ..s },
            ),
            Instr::MemoryGrow => match pop1(s.values) {
                Some((rest, Val::I32(delta))) => {
                    let current = s.mem.len() / PAGE_SIZE as nat;
                    let new = current + (delta as u32);
                    if new <= max_pages(memory_type) && new * PAGE_SIZE <= usize::MAX {
                        Some(
                            MachineState {
                                mem: s.mem + Seq::new(((delta as u32) * PAGE_SIZE) as nat, |k: int| 0u8),
                                values: rest.push(Val::I32(current as i32)),
                                ..s
                            },
                        )
                    } else {
                        Some(MachineState { values: rest.push(Val::I32(-1i32)), ..s })
                    }
                },
                _ => None,
            },
            _ => None,
        }
    }
}

/// Whether `i` is an instruction whose effect `spec_plain` states.
pub open spec fn is_plain(i: Instr) -> bool {
    ||| is_numeric(i)
    ||| is_load(i)
    ||| is_store(i)
    ||| match i {
        Instr::Unreachable | Instr::Nop | Instr::Drop | Instr::Select | Instr::LocalGet(_)
        | Instr::LocalSet(_) | Instr::LocalTee(_) | Instr::GlobalGet(_) | Instr::GlobalSet(_)
        | Instr::MemorySize | Instr::MemoryGrow => true,
        _ => false,
    }
}

/// The state after the first `n` instructions of `instrs`, each of which
/// neither branches, calls nor computes with floating point, or `None` if one
/// of them traps.
pub open spec fn spec_run_plain(
    instrs: Seq<Instr>,
    n: nat,
    s: MachineState,
    locals_start: int,
    memory_type: Option<Memtype>,
) -> Option<MachineState>
    decreases n,
{
    if n == 0 {
        Some(s)
    } else {
        match spec_run_plain(instrs, (n - 1) as nat, s, locals_start, memory_type) {
            Some(t) => spec_plain(instrs[n - 1], t, locals_start, memory_type),
            None => None,
        }
    }
}

/// Once a run traps, running more instructions still traps.
pub proof fn lemma_run_plain_trapped(
    instrs: Seq<Instr>,
    n: nat,
    m: nat,
    s: MachineState,
    locals_start: int,
    memory_type: Option<Memtype>,
)
    requires
        n <= m,
        spec_run_plain(instrs, n, s, locals_start, memory_type) is None,
    ensures
        spec_run_plain(instrs, m, s, locals_start, memory_type) is None,
    decreases m,
{
    if n < m {
        lemma_run_plain_trapped(instrs, n, (m - 1) as nat, s, locals_start, memory_type);
    }
}

/// Whether `i` branches, calls, or holds nested instructions.
pub open spec fn is_control(i: Instr) -> bool {
    match i {
        Instr::Block(_) | Instr::Loop(_) | Instr::If(_) | Instr::Br(_) | Instr::BrIf(_)
        | Instr::BrTable(_) | Instr::Return | Instr::Call(_) | Instr::CallIndirect(_) => true,
        _ => false,
    }
}

/// `a` and `b` have the same length and agree below `start`.
pub open spec fn locals_kept(a: Seq<Val>, b: Seq<Val>, start: int) -> bool {
    &&& a.len() == b.len()
    &&& forall|k: int| 0 <= k < start && k < a.len() ==> #[trigger] a[k] == b[k]
}

/// `s` with `v` pushed onto its value stack.
pub open spec fn push_value(s: MachineState, v: Val) -> MachineState {
    MachineState { values: s.values.push(v), ..s }
}

/// An `i32.load` from the address that an `i32.store` just wrote gives back
/// the stored value: after the store of `x` at `a`, pushing `a` and loading
/// yields `x`, and nothing else changes.
pub proof fn lemma_i32_store_then_load(
    s: MachineState,
    a: i32,
    x: i32,
    arg: Memarg,
    locals_start: int,
    memory_type: Option<Memtype>,
)
    requires
        s.values.len() >= 2,
        s.values[s.values.len() - 2] == Val::I32(a),
        s.values[s.values.len() - 1] == Val::I32(x),
        effective_address(a, arg) + 4 <= s.mem.len(),
    ensures
        spec_plain(Instr::I32Store(arg), s, locals_start, memory_type) matches Some(s1) && spec_plain(
            Instr::I32Load(arg),
            push_value(s1, Val::I32(a)),
            locals_start,
            memory_type,
        ) == Some(push_value(s1, Val::I32(x))),
{
    reveal(spec_plain);
    let ea = effective_address(a, arg);
    let rest = s.values.subrange(0, s.values.len() - 2);
    assert(pop1(s.values) == Some((s.values.subrange(0, s.values.len() - 1), Val::I32(x))));
    assert(pop1(s.values.subrange(0, s.values.len() - 1)) == Some((rest, Val::I32(a))));
    let s1 = MachineState { mem: spec_store(s.mem, ea, 4, val_bits(Val::I32(x))), values: rest, ..s };
    assert(spec_plain(Instr::I32Store(arg), s, locals_start, memory_type) == Some(s1));
    lemma_load_after_store(s.mem, ea, 4, val_bits(Val::I32(x)));
    assert(pow256(4) == 0x1_0000_0000) by {
        reveal_with_fuel(pow256, 5);
    }
    let t = push_value(s1, Val::I32(a));
    assert(pop1(t.values) == Some((rest, Val::I32(a)))) by {
        assert(t.values.subrange(0, t.values.len() - 1) =~= rest);
    }
    assert((((x as u32) as nat % 0x1_0000_0000) as i32) == x) by {
        assert(((x as u32) as i32) == x) by (bit_vector);
    }
}

/// An `i64.load` from the address that an `i64.store` just wrote gives back
/// the stored value.
pub proof fn lemma_i64_store_then_load(
    s: MachineState,
    a: i32,
    x: i64,
    arg: Memarg,
    locals_start: int,
    memory_type: Option<Memtype>,
)
    requires
        s.values.len() >= 2,
        s.values[s.values.len() - 2] == Val::I32(a),
        s.values[s.values.len() - 1] == Val::I64(x),
        effective_address(a, arg) + 8 <= s.mem.len(),
    ensures
        spec_plain(Instr::I64Store(arg), s, locals_start, memory_type) matches Some(s1) && spec_plain(
            Instr::I64Load(arg),
            push_value(s1, Val::I32(a)),
            locals_start,
            memory_type,
        ) == Some(push_value(s1, Val::I64(x))),
{
    reveal(spec_plain);
    let ea = effective_address(a, arg);
    let rest = s.values.subrange(0, s.values.len() - 2);
    assert(pop1(s.values) == Some((s.values.subrange(0, s.values.len() - 1), Val::I64(x))));
    assert(pop1(s.values.subrange(0, s.values.len() - 1)) == Some((rest, Val::I32(a))));
    let s1 = MachineState { mem: spec_store(s.mem, ea, 8, val_bits(Val::I64(x))), values: rest, ..s };
    assert(spec_plain(Instr::I64Store(arg), s, locals_start, memory_type) == Some(s1));
    lemma_load_after_store(s.mem, ea, 8, val_bits(Val::I64(x)));
    assert(pow256(8) == 0x1_0000_0000_0000_0000) by {
        reveal_with_fuel(pow256, 9);
    }
    let t = push_value(s1, Val::I32(a));
    assert(pop1(t.values) == Some((rest, Val::I32(a)))) by {
        assert(t.values.subrange(0, t.values.len() - 1) =~= rest);
    }
    assert((((x as u64) as nat % 0x1_0000_0000_0000_0000) as i64) == x) by {
        assert(((x as u64) as i64) == x) by (bit_vector);
    }
}

/// `local.get` of a local that `local.set` just set pushes the value that
/// was set.
pub proof fn lemma_local_set_then_get(
    s: MachineState,
    x: Localidx,
    v: Val,
    locals_start: int,
    memory_type: Option<Memtype>,
)
    requires
        s.values.len() >= 1,
        s.values[s.values.len() - 1] == v,
        0 <= locals_start + x.0 < s.locals.len(),
    ensures
        spec_plain(Instr::LocalSet(x), s, locals_start, memory_type) matches Some(s1) && spec_plain(
            Instr::LocalGet(x),
            s1,
            locals_start,
            memory_type,
        ) == Some(push_value(s1, v)),
{
    reveal(spec_plain);
    assert(pop1(s.values) == Some((s.values.subrange(0, s.values.len() - 1), v)));
}

/// `global.get` of a mutable global that `global.set` just set pushes the
/// value that was set; `global.set` leaves a constant global as it was.
pub proof fn lemma_global_set_then_get(
    s: MachineState,
    x: Globalidx,
    v: Val,
    locals_start: int,
    memory_type: Option<Memtype>,
)
    requires
        s.values.len() >= 1,
        s.values[s.values.len() - 1] == v,
        x.0 < s.globals.len(),
    ensures
        spec_plain(Instr::GlobalSet(x), s, locals_start, memory_type) matches Some(s1) && spec_plain(
            Instr::GlobalGet(x),
            s1,
            locals_start,
            memory_type,
        ) == Some(
            push_value(
                s1,
                if s.globals[x.0 as int].spec_is_const() {
                    s.globals[x.0 as int].spec_val()
                } else {
                    v
                },
            ),
        ),
{
    reveal(spec_plain);
    assert(pop1(s.values) == Some((s.values.subrange(0, s.values.len() - 1), v)));
    GlobalVal::lemma_set(s.globals[x.0 as int], v);
}

/// After a `memory.grow` by `delta` pages that succeeds on a memory of whole
/// pages, `memory.size` reports the old size plus `delta`; `memory.grow`
/// itself gives the old size.
pub proof fn lemma_grow_then_size(
    s: MachineState,
    delta: i32,
    locals_start: int,
    memory_type: Option<Memtype>,
)
    requires
        s.values.len() >= 1,
        s.values[s.values.len() - 1] == Val::I32(delta),
        s.mem.len() % (PAGE_SIZE as nat) == 0,
        s.mem.len() / (PAGE_SIZE as nat) + (delta as u32) <= max_pages(memory_type),
        max_pages(memory_type) <= 65536,
        s.mem.len() + (delta as u32) * PAGE_SIZE <= usize::MAX,
    ensures
        spec_plain(Instr::MemoryGrow, s, locals_start, memory_type) matches Some(s1) && {
            &&& s1.values.last() == Val::I32((s.mem.len() / (PAGE_SIZE as nat)) as i32)
            &&& s1.mem.len() == s.mem.len() + (delta as u32) * PAGE_SIZE
            &&& spec_plain(Instr::MemorySize, s1, locals_start, memory_type) == Some(
                push_value(
                    s1,
                    Val::I32((s.mem.len() / (PAGE_SIZE as nat) + (delta as u32)) as i32),
                ),
            )
        },
{
    reveal(spec_plain);
    assert(pop1(s.values) == Some((s.values.subrange(0, s.values.len() - 1), Val::I32(delta))));
    let d = (delta as u32) as nat;
    let n = s.mem.len() / (PAGE_SIZE as nat);
    assert(s.mem.len() == n * 65536);
    assert((n * 65536 + d * 65536) / 65536 == n + d) by (nonlinear_arith);
}

/// What the narrow loads give for the bytes `x` read: the signed ones
/// extend the top bit of the bytes read, so the value is negative exactly
/// when that bit is set; the unsigned ones give the bytes' value.
pub proof fn lemma_narrow_loads(m: Memarg, x8: u8, x16: u16, x32: u32)
    ensures
        loaded_value(Instr::I32Load8S(m), x8 as nat) matches Val::I32(v) && v as int == if x8
            >= 0x80 {
            x8 - 0x100
        } else {
            x8 as int
        },
        loaded_value(Instr::I32Load8U(m), x8 as nat) matches Val::I32(v) && v as int == x8 as int,
        loaded_value(Instr::I32Load16S(m), x16 as nat) matches Val::I32(v) && v as int == if x16
            >= 0x8000 {
            x16 - 0x1_0000
        } else {
            x16 as int
        },
        loaded_value(Instr::I32Load16U(m), x16 as nat) matches Val::I32(v) && v as int == x16 as int,
        loaded_value(Instr::I64Load8S(m), x8 as nat) matches Val::I64(v) && v as int == if x8
            >= 0x80 {
            x8 - 0x100
        } else {
            x8 as int
        },
        loaded_value(Instr::I64Load8U(m), x8 as nat) matches Val::I64(v) && v as int == x8 as int,
        loaded_value(Instr::I64Load16S(m), x16 as nat) matches Val::I64(v) && v as int == if x16
            >= 0x8000 {
            x16 - 0x1_0000
        } else {
            x16 as int
        },
        loaded_value(Instr::I64Load16U(m), x16 as nat) matches Val::I64(v) && v as int == x16 as int,
        loaded_value(Instr::I64Load32S(m), x32 as nat) matches Val::I64(v) && v as int == if x32
            >= 0x8000_0000 {
            x32 - 0x1_0000_0000
        } else {
            x32 as int
        },
        loaded_value(Instr::I64Load32U(m), x32 as nat) matches Val::I64(v) && v as int == x32 as int,
        loaded_value(Instr::I32Load(m), x32 as nat) matches Val::I32(v) && v as int == if x32
            >= 0x8000_0000 {
            x32 - 0x1_0000_0000
        } else {
            x32 as int
        },
{
    assert(((x8 as nat) as i8) == (x8 as i8));
    assert(((x16 as nat) as i16) == (x16 as i16));
    assert(((x32 as nat) as i32) == (x32 as i32));
    assert(((x8 as nat) as i32) == (x8 as i32));
    assert(((x16 as nat) as i32) == (x16 as i32));
    assert(((x8 as nat) as i64) == (x8 as i64));
    assert(((x16 as nat) as i64) == (x16 as i64));
    assert(((x32 as nat) as i64) == (x32 as i64));
    assert(((x8 as i8) as i32) as int == if x8 >= 0x80 { x8 - 0x100 } else { x8 as int }) by (bit_vector);
    assert(((x16 as i16) as i32) as int == if x16 >= 0x8000 { x16 - 0x1_0000 } else { x16 as int }) by (bit_vector);
    assert(((x8 as i8) as i64) as int == if x8 >= 0x80 { x8 - 0x100 } else { x8 as int }) by (bit_vector);
    assert(((x16 as i16) as i64) as int == if x16 >= 0x8000 { x16 - 0x1_0000 } else { x16 as int }) by (bit_vector);
    assert(((x32 as i32) as i64) as int == if x32 >= 0x8000_0000 { x32 - 0x1_0000_0000 } else { x32 as int }) by (bit_vector);
    assert((x32 as i32) as int == if x32 >= 0x8000_0000 { x32 - 0x1_0000_0000 } else { x32 as int }) by (bit_vector);
    assert((x8 as i32) as int == x8 as int) by (bit_vector);
    assert((x16 as i32) as int == x16 as int) by (bit_vector);
    assert((x8 as i64) as int == x8 as int) by (bit_vector);
    assert((x16 as i64) as int == x16 as int) by (bit_vector);
    assert((x32 as i64) as int == x32 as int) by (bit_vector);
}

} // verus!
