//! What running code does: blocks, loops, conditionals, branches, calls of
//! the module's own functions and calls of host functions, around the
//! instructions whose effect `spec_plain` states, and floating-point
//! instructions. What a host function or the embedder's floating-point
//! arithmetic answered is read from a log of outside calls, and what the log
//! records as handed to them must be what the code hands them.
use crate::components::{Blocktype, Memarg, Funcidx, Labelidx, SpecCode, SpecFunctype, Typeidx, Valtype};
use crate::execute::{float_signature, is_float_arith, top_has_types, Block, ExecuteError, GlobalVal, Val};
use crate::instance::{same_funcs, spec_functype_of, FuncInst};
use crate::instructions::{Instr, SpecInstr};
use crate::module::SpecModule;
use crate::memory::spec_store;
use crate::semantics::{
    effective_address, lemma_i32_store_then_load, pop1, push_value, spec_numeric, spec_plain, val_bits,
    MachineState,
};
use vstd::prelude::*;

verus! {

/// The outcome of running instructions with some fuel.
pub enum Run {
    /// They finished, either at their end (`None`) or by a branch to the
    /// label at the given depth, in the given state and with the given fuel
    /// left.
    Done(Option<usize>, MachineState, nat),
    /// They stopped with an error, in the given state; its value stack is
    /// left open.
    Failed(ExecuteError, MachineState),
    /// The log of outside calls given does not match the calls they make.
    Stray,
}

/// One call of a host function: the function called, the arguments and the
/// memory and globals handed to it, its result, and the memory and globals
/// it left behind.
pub struct HostCall {
    pub func: Funcidx,
    pub args: Seq<Val>,
    pub env_mem: Seq<u8>,
    pub env_globals: Seq<GlobalVal>,
    pub result: Option<Val>,
    pub mem: Seq<u8>,
    pub globals: Seq<GlobalVal>,
}

/// One floating-point computation asked of the embedder's arithmetic: the
/// instruction, the operands handed over, and the value it gave back.
pub struct FloatCall {
    pub instr: Instr,
    pub operands: Seq<Val>,
    pub result: Val,
}

/// A call to code outside the library: a host function or the embedder's
/// floating-point arithmetic.
pub enum Outside {
    Host(HostCall),
    Float(FloatCall),
}

/// The call at position `k` of a log that extends `log.push(c)`, for `k` the
/// length of `log`, is `c`.
pub proof fn lemma_extends_last(h: Seq<Outside>, log: Seq<Outside>, c: Outside)
    requires
        extends(h, log.push(c)),
    ensures
        h[log.len() as int] == c,
{
    assert(h.subrange(0, log.len() + 1int)[log.len() as int] == h[log.len() as int]);
}

/// Running the floating-point instruction `i` in state `s`: its operands are
/// taken from the top of the value stack, and the next entry of the log `h`
/// gives the value the embedder's arithmetic computed from them, which is
/// pushed; the computation is recorded in the state's log.
pub open spec fn float_step(i: Instr, s: MachineState, h: Seq<Outside>, fuel: nat) -> Run {
    let ts = float_signature(i).0;
    let n = s.values.len() - ts.len();
    if !top_has_types(s.values, ts) {
        Run::Failed(ExecuteError::Trapped, s)
    } else {
        let k = s.calls.len();
        if k >= h.len() {
            Run::Stray
        } else {
            match h[k as int] {
                Outside::Float(c) => if c.instr != i || c.operands != s.values.subrange(
                    n,
                    s.values.len() as int,
                ) {
                    Run::Stray
                } else {
                    Run::Done(
                        None,
                        MachineState {
                            values: s.values.subrange(0, n).push(c.result),
                            calls: s.calls.push(h[k as int]),
                            ..s
                        },
                        fuel,
                    )
                },
                _ => Run::Stray,
            }
        }
    }
}

/// Whether `h` is `log` followed by possibly more calls.
pub open spec fn extends(h: Seq<Outside>, log: Seq<Outside>) -> bool {
    log.len() <= h.len() && h.subrange(0, log.len() as int) == log
}

/// A log extends itself.
pub proof fn lemma_extends_refl(log: Seq<Outside>)
    ensures
        extends(log, log),
{
    assert(log.subrange(0, log.len() as int) =~= log);
}

/// A log with one more call extends the log.
pub proof fn lemma_extends_push(log: Seq<Outside>, c: Outside)
    ensures
        extends(log.push(c), log),
{
    assert(log.push(c).subrange(0, log.len() as int) =~= log);
}

/// Extending is transitive.
pub proof fn lemma_extends_trans(a: Seq<Outside>, b: Seq<Outside>, c: Seq<Outside>)
    requires
        extends(a, b),
        extends(b, c),
    ensures
        extends(a, c),
{
    assert(a.subrange(0, c.len() as int) =~= b.subrange(0, c.len() as int));
}

/// Calling the host function `f` of type `t` in state `s`, with fuel left
/// `fuel` after the call's unit: the arguments are taken from the top of the
/// value stack and the next entry of the log `h` gives what the host
/// returned and left; the call is recorded in the state's log. A host that
/// changes the size of the memory or the number of globals traps.
pub open spec fn host_call(f: Funcidx, s: MachineState, t: SpecFunctype, h: Seq<Outside>, fuel: nat) -> Run {
    let n = s.values.len() - t.params.len();
    let args = s.values.subrange(n, s.values.len() as int);
    let k = s.calls.len();
    if k >= h.len() || !(h[k as int] matches Outside::Host(c) && c.func == f && c.args == args
        && c.env_mem == s.mem && c.env_globals == s.globals) {
        Run::Stray
    } else {
        let e = h[k as int]->Host_0;
        let s2 = MachineState {
            mem: e.mem,
            globals: e.globals,
            locals: s.locals + args,
            values: s.values.subrange(0, n) + match e.result {
                Some(v) => seq![v],
                None => Seq::empty(),
            },
            table: s.table,
            calls: s.calls.push(h[k as int]),
        };
        if e.mem.len() != s.mem.len() || e.globals.len() != s.globals.len() {
            Run::Failed(ExecuteError::Trapped, s2)
        } else {
            finish_call(s2, s.locals.len() as int, n, t.result.spec_len(), fuel)
        }
    }
}

/// Whether `a` and `b` agree in all but their value stacks.
pub open spec fn same_but_values(a: MachineState, b: MachineState) -> bool {
    &&& a.mem == b.mem
    &&& a.globals == b.globals
    &&& a.locals == b.locals
    &&& a.table == b.table
    &&& a.calls == b.calls
}

/// The smaller of `a` and `b`.
pub open spec fn min_nat(a: nat, b: nat) -> nat {
    if a <= b {
        a
    } else {
        b
    }
}

/// The block that a block of type `bt` entered in state `s` starts.
pub open spec fn entered(bt: Blocktype, s: MachineState) -> Block {
    Block { arity: bt.spec_arity() as usize, values_start: s.values.len() as usize }
}

/// The first `n` values of `values`, or all of them if there are fewer.
pub open spec fn truncated(values: Seq<Val>, n: int) -> Seq<Val> {
    if n <= values.len() {
        values.subrange(0, n)
    } else {
        values
    }
}

/// The values below the start of block `blk` with the block's results on top.
pub open spec fn keep_results(values: Seq<Val>, blk: Block) -> Seq<Val> {
    values.subrange(0, blk.values_start as int) + values.subrange(
        values.len() - blk.arity,
        values.len() as int,
    )
}

/// Leaving block `blk`, nested at depth `level`, whose body finished with
/// `rl` in state `s`: a branch to an enclosing label passes through; else the
/// block's results must be on the value stack, and are kept.
pub open spec fn leave(rl: Option<usize>, s: MachineState, blk: Block, level: usize, fuel: nat) -> Run {
    let skipped = match rl {
        Some(l) => l <= level,
        None => false,
    };
    if skipped {
        Run::Done(rl, s, fuel)
    } else if blk.values_start + blk.arity <= s.values.len() {
        Run::Done(None, MachineState { values: keep_results(s.values, blk), ..s }, fuel)
    } else {
        Run::Failed(ExecuteError::Trapped, s)
    }
}

/// A branch to `label` from code nested at depth `level`.
pub open spec fn branch(label: Labelidx, level: usize, s: MachineState, fuel: nat) -> Run {
    if label.0 > level {
        Run::Failed(ExecuteError::Trapped, s)
    } else {
        Run::Done(Some((level - label.0) as usize), s, fuel)
    }
}

/// What a function of an instance is, without the state of a host function.
pub open spec fn func_shape<H>(f: FuncInst<H>) -> FuncInst<()> {
    match f {
        FuncInst::Imported { imports_index, .. } => FuncInst::Imported { imports_index, host_func: () },
        FuncInst::Module { funcs_index } => FuncInst::Module { funcs_index },
    }
}

/// What the functions of an instance are, without the host functions' state.
pub open spec fn shapes<H>(fs: Seq<FuncInst<H>>) -> Seq<FuncInst<()>> {
    fs.map_values(|f: FuncInst<H>| func_shape(f))
}

/// Host functions changing state leave the functions' shapes as they were.
pub proof fn lemma_same_shapes<H>(a: Seq<FuncInst<H>>, b: Seq<FuncInst<H>>)
    requires
        same_funcs(a, b),
    ensures
        shapes(a) == shapes(b),
{
    assert forall|k: int| 0 <= k < a.len() implies shapes(a)[k] == shapes(b)[k] by {
        match a[k] {
            FuncInst::Imported { .. } => {},
            FuncInst::Module { .. } => {},
        }
    }
    assert(shapes(a) =~= shapes(b));
}

/// A function's shape has the function's type.
pub proof fn lemma_shape_type<H>(f: FuncInst<H>, m: SpecModule)
    ensures
        spec_functype_of(func_shape(f), m) == spec_functype_of(f, m),
{
}

/// Running `instrs` from index `idx` on, nested at depth `level`, in state
/// `s`, in a function whose locals start at `ls`, in an instance of `m`
/// whose functions are `fs`.
pub open spec fn run_seq(
    instrs: Seq<SpecInstr>,
    idx: nat,
    level: usize,
    s: MachineState,
    ls: int,
    fs: Seq<FuncInst<()>>,
    m: SpecModule,
    h: Seq<Outside>,
    fuel: nat,
) -> Run
    decreases fuel, 2int, instrs.len() - idx,
{
    if idx >= instrs.len() {
        Run::Done(None, s, fuel)
    } else {
        match run_instr(instrs[idx as int], level, s, ls, fs, m, h, fuel) {
            Run::Done(None, s2, f2) => run_seq(instrs, idx + 1, level, s2, ls, fs, m, h, min_nat(f2, fuel)),
            other => other,
        }
    }
}

/// Running the one instruction `i`.
pub open spec fn run_instr(
    i: SpecInstr,
    level: usize,
    s: MachineState,
    ls: int,
    fs: Seq<FuncInst<()>>,
    m: SpecModule,
    h: Seq<Outside>,
    fuel: nat,
) -> Run
    decreases fuel, 1int, 0int,
{
    match i {
        SpecInstr::Block(bt, body) => if level == usize::MAX {
            Run::Failed(ExecuteError::Trapped, s)
        } else {
            run_block(body, bt, level, s, ls, fs, m, h, fuel)
        },
        SpecInstr::Loop(bt, body) => if level == usize::MAX {
            Run::Failed(ExecuteError::Trapped, s)
        } else {
            run_loop(body, level, s, entered(bt, s), ls, fs, m, h, fuel)
        },
        SpecInstr::If(bt, then_instrs, else_instrs) => if level == usize::MAX {
            Run::Failed(ExecuteError::Trapped, s)
        } else {
            match pop1(s.values) {
                Some((rest, Val::I32(c))) => run_block(
                    if c != 0 {
                        then_instrs
                    } else {
                        else_instrs
                    },
                    bt,
                    level,
                    MachineState { values: rest, ..s },
                    ls,
                    fs,
                    m,
                    h,
                    fuel,
                ),
                _ => Run::Failed(ExecuteError::Trapped, s),
            }
        },
        SpecInstr::BrTable(labels) => match pop1(s.values) {
            Some((rest, Val::I32(k))) => {
                let n = labels.len();
                let j = k as u32;
                if n == 0 {
                    Run::Failed(ExecuteError::Trapped, s)
                } else {
                    branch(
                        if j < n {
                            labels[j as int]
                        } else {
                            labels[n - 1]
                        },
                        level,
                        MachineState { values: rest, ..s },
                        fuel,
                    )
                }
            },
            _ => Run::Failed(ExecuteError::Trapped, s),
        },
        SpecInstr::Plain(p) => match p {
            Instr::Br(label) => branch(label, level, s, fuel),
            Instr::BrIf(label) => match pop1(s.values) {
                Some((rest, Val::I32(c))) => if c != 0 {
                    branch(label, level, MachineState { values: rest, ..s }, fuel)
                } else {
                    Run::Done(None, MachineState { values: rest, ..s }, fuel)
                },
                _ => Run::Failed(ExecuteError::Trapped, s),
            },
            Instr::Return => Run::Done(Some(0), s, fuel),
            Instr::Call(f) => run_call(f, s, fs, m, h, fuel),
            Instr::CallIndirect(t) => run_call_indirect(t, s, fs, m, h, fuel),
            _ => if is_float_arith(p) {
                float_step(p, s, h, fuel)
            } else {
                match spec_plain(p, s, ls, m.memory_type) {
                    Some(s2) => Run::Done(None, s2, fuel),
                    None => Run::Failed(ExecuteError::Trapped, s),
                }
            },
        },
    }
}

/// Calling the function that table entry `k` (the popped operand) refers to,
/// if its type is type `t` of the module.
pub open spec fn run_call_indirect(t: Typeidx, s: MachineState, fs: Seq<FuncInst<()>>, m: SpecModule, h: Seq<Outside>, fuel: nat) -> Run
    decreases fuel, 0int, 1int,
{
    match pop1(s.values) {
        Some((rest, Val::I32(k))) => {
            let j = k as u32;
            if j >= s.table.len() {
                Run::Failed(ExecuteError::Trapped, s)
            } else {
                match s.table[j as int] {
                    None => Run::Failed(ExecuteError::Trapped, s),
                    Some(f) => if t.0 >= m.function_types.len() {
                        Run::Failed(ExecuteError::InvalidTypeidx, s)
                    } else if f.0 >= fs.len() {
                        Run::Failed(ExecuteError::InvalidFuncidx, s)
                    } else {
                        match spec_functype_of(fs[f.0 as int], m) {
                            None => Run::Failed(ExecuteError::InvalidFuncidx, s),
                            Some(ty) => if m.function_types[t.0 as int] != ty {
                                Run::Failed(ExecuteError::Trapped, s)
                            } else {
                                run_call(f, MachineState { values: rest, ..s }, fs, m, h, fuel)
                            },
                        }
                    },
                }
            }
        },
        _ => Run::Failed(ExecuteError::Trapped, s),
    }
}

/// The state in which the body of a function of type `t` with code `code`
/// starts when called in state `s`: its arguments, taken from the top of the
/// value stack, and its declared locals, set to zero, follow the caller's
/// locals.
pub open spec fn call_entry(s: MachineState, t: SpecFunctype, code: SpecCode) -> MachineState {
    let n = s.values.len() - t.params.len();
    MachineState {
        locals: s.locals + s.values.subrange(n, s.values.len() as int) + code.locals.map_values(
            |ty: Valtype| Val::spec_zero(ty),
        ),
        values: s.values.subrange(0, n),
        ..s
    }
}

/// Returning from a call whose arguments began at height `n` of the value
/// stack, with `arity` results, to a caller whose locals end at `ls`, after
/// the body left state `s`.
pub open spec fn finish_call(s: MachineState, ls: int, n: int, arity: nat, fuel: nat) -> Run {
    if ls <= s.locals.len() && n + arity <= s.values.len() {
        Run::Done(
            None,
            MachineState {
                locals: s.locals.subrange(0, ls),
                values: s.values.subrange(0, n) + s.values.subrange(
                    s.values.len() - arity,
                    s.values.len() as int,
                ),
                ..s
            },
            fuel,
        )
    } else {
        Run::Failed(ExecuteError::Trapped, s)
    }
}

/// Calling function `f`: one unit of fuel; its arguments move from the top
/// of the value stack to new locals, followed by its declared locals set to
/// zero; its body runs; then its results replace the values above the
/// arguments' place, and the caller's locals are back.
pub open spec fn run_call(f: Funcidx, s: MachineState, fs: Seq<FuncInst<()>>, m: SpecModule, h: Seq<Outside>, fuel: nat) -> Run
    decreases fuel, 0int, 0int,
{
    if fuel == 0 {
        Run::Failed(ExecuteError::Exhausted, s)
    } else if f.0 >= fs.len() {
        Run::Failed(ExecuteError::InvalidFuncidx, s)
    } else {
        match spec_functype_of(fs[f.0 as int], m) {
            None => Run::Failed(ExecuteError::InvalidFuncidx, s),
            Some(t) => if s.values.len() < t.params.len() {
                Run::Failed(ExecuteError::Trapped, s)
            } else {
                match fs[f.0 as int] {
                    FuncInst::Imported { .. } => host_call(f, s, t, h, (fuel - 1) as nat),
                    FuncInst::Module { funcs_index } => if funcs_index >= m.function_codes.len() {
                        Run::Failed(
                            ExecuteError::InvalidFuncidx,
                            MachineState {
                                locals: s.locals + s.values.subrange(
                                    s.values.len() - t.params.len(),
                                    s.values.len() as int,
                                ),
                                ..s
                            },
                        )
                    } else {
                        let code = m.function_codes[funcs_index as int];
                        let n = s.values.len() - t.params.len();
                        let ls = s.locals.len() as int;
                        match run_seq(code.body, 0, 0, call_entry(s, t, code), ls, fs, m, h, (fuel - 1) as nat) {
                            Run::Done(_, s2, f2) => finish_call(s2, ls, n, t.result.spec_len(), min_nat(f2, (fuel - 1) as nat)),
                            other => other,
                        }
                    },
                }
            },
        }
    }
}

/// Running a block of type `bt` whose body is `body`: entering it costs one
/// unit of fuel.
pub open spec fn run_block(
    body: Seq<SpecInstr>,
    bt: Blocktype,
    level: usize,
    s: MachineState,
    ls: int,
    fs: Seq<FuncInst<()>>,
    m: SpecModule,
    h: Seq<Outside>,
    fuel: nat,
) -> Run
    decreases fuel, 0int, 0int,
{
    if fuel == 0 {
        Run::Failed(ExecuteError::Exhausted, s)
    } else {
        match run_seq(body, 0, (level + 1) as usize, s, ls, fs, m, h, (fuel - 1) as nat) {
            Run::Done(rl, s2, f2) => leave(rl, s2, entered(bt, s), level, min_nat(f2, (fuel - 1) as nat)),
            other => other,
        }
    }
}

/// Running a loop whose body is `body` and whose block `blk` has been
/// entered: each pass costs one unit of fuel, and a branch to the loop's own
/// label runs the body again on the values below the block.
pub open spec fn run_loop(
    body: Seq<SpecInstr>,
    level: usize,
    s: MachineState,
    blk: Block,
    ls: int,
    fs: Seq<FuncInst<()>>,
    m: SpecModule,
    h: Seq<Outside>,
    fuel: nat,
) -> Run
    decreases fuel, 0int, 0int,
{
    if fuel == 0 {
        Run::Failed(ExecuteError::Exhausted, s)
    } else {
        match run_seq(body, 0, (level + 1) as usize, s, ls, fs, m, h, (fuel - 1) as nat) {
            Run::Done(rl, s2, f2) => if rl == Some((level + 1) as usize) {
                run_loop(
                    body,
                    level,
                    MachineState { values: truncated(s2.values, blk.values_start as int), ..s2 },
                    blk,
                    ls,
                    fs,
                    m,
                    h,
                    min_nat(f2, (fuel - 1) as nat),
                )
            } else {
                leave(rl, s2, blk, level, min_nat(f2, (fuel - 1) as nat))
            },
            other => other,
        }
    }
}

/// Whether an executor's result `res`, fuel left `fuel_left` and state `st`
/// are those that `run` describes.
pub open spec fn agrees(
    run: Run,
    res: Result<Option<usize>, ExecuteError>,
    fuel_left: u64,
    st: MachineState,
) -> bool {
    match run {
        Run::Done(l, s, f) => res == Ok::<Option<usize>, ExecuteError>(l) && st == s && fuel_left
            == f,
        Run::Failed(e, s) => res == Err::<Option<usize>, ExecuteError>(e) && same_but_values(st, s),
        Run::Stray => false,
    }
}

/// Whether a call's result `res`, fuel left `fuel_left` and state `st` are
/// those that `run` describes.
pub open spec fn agrees_call(run: Run, res: Result<(), ExecuteError>, fuel_left: u64, st: MachineState) -> bool {
    match run {
        Run::Done(_, s, f) => res is Ok && st == s && fuel_left == f,
        Run::Failed(e, s) => res == Err::<(), ExecuteError>(e) && same_but_values(st, s),
        Run::Stray => false,
    }
}

/// A value stored with `i32.store` and loaded again with `i32.load` from the
/// same address comes back unchanged: running `i32.const a; i32.const x;
/// i32.store; i32.const a; i32.load` where the four bytes fit leaves `x` on
/// the value stack and the memory with `x` written at the address, and costs
/// no fuel.
pub proof fn lemma_store_then_load_run(
    s: MachineState,
    a: i32,
    x: i32,
    arg: Memarg,
    level: usize,
    ls: int,
    fs: Seq<FuncInst<()>>,
    m: SpecModule,
    h: Seq<Outside>,
    fuel: nat,
)
    requires
        effective_address(a, arg) + 4 <= s.mem.len(),
    ensures
        run_seq(
            seq![
                SpecInstr::Plain(Instr::I32Const(a)),
                SpecInstr::Plain(Instr::I32Const(x)),
                SpecInstr::Plain(Instr::I32Store(arg)),
                SpecInstr::Plain(Instr::I32Const(a)),
                SpecInstr::Plain(Instr::I32Load(arg)),
            ],
            0,
            level,
            s,
            ls,
            fs,
            m,
            h,
            fuel,
        ) == Run::Done(
            None,
            MachineState {
                mem: spec_store(s.mem, effective_address(a, arg), 4, val_bits(Val::I32(x))),
                values: s.values.push(Val::I32(x)),
                ..s
            },
            fuel,
        ),
{
    let prog = seq![
        SpecInstr::Plain(Instr::I32Const(a)),
        SpecInstr::Plain(Instr::I32Const(x)),
        SpecInstr::Plain(Instr::I32Store(arg)),
        SpecInstr::Plain(Instr::I32Const(a)),
        SpecInstr::Plain(Instr::I32Load(arg)),
    ];
    let mt = m.memory_type;
    let s1 = push_value(s, Val::I32(a));
    let s2 = push_value(s1, Val::I32(x));
    let s3 = MachineState {
        mem: spec_store(s.mem, effective_address(a, arg), 4, val_bits(Val::I32(x))),
        ..s
    };
    let s4 = push_value(s3, Val::I32(a));
    let s5 = push_value(s3, Val::I32(x));
    assert(spec_plain(Instr::I32Const(a), s, ls, mt) == Some(s1)) by {
        reveal(spec_plain);
        reveal(spec_numeric);
    }
    assert(spec_plain(Instr::I32Const(x), s1, ls, mt) == Some(s2)) by {
        reveal(spec_plain);
        reveal(spec_numeric);
    }
    assert(spec_plain(Instr::I32Const(a), s3, ls, mt) == Some(s4)) by {
        reveal(spec_plain);
        reveal(spec_numeric);
    }
    lemma_i32_store_then_load(s2, a, x, arg, ls, mt);
    assert(s2.values.subrange(0, s2.values.len() - 2) =~= s.values);
    assert(spec_plain(Instr::I32Store(arg), s2, ls, mt) == Some(s3)) by {
        reveal(spec_plain);
        assert(pop1(s2.values) == Some((s1.values, Val::I32(x))));
        assert(s1.values.subrange(0, s1.values.len() - 1) =~= s.values);
        assert(pop1(s1.values) == Some((s.values, Val::I32(a))));
    }
    assert(spec_plain(Instr::I32Load(arg), s4, ls, mt) == Some(s5));
    assert(run_seq(prog, 5, level, s5, ls, fs, m, h, fuel) == Run::Done(None, s5, fuel));
    assert(run_instr(prog[4], level, s4, ls, fs, m, h, fuel) == Run::Done(None, s5, fuel));
    assert(run_seq(prog, 4, level, s4, ls, fs, m, h, fuel) == Run::Done(None, s5, fuel));
    assert(run_instr(prog[3], level, s3, ls, fs, m, h, fuel) == Run::Done(None, s4, fuel));
    assert(run_seq(prog, 3, level, s3, ls, fs, m, h, fuel) == Run::Done(None, s5, fuel));
    assert(run_instr(prog[2], level, s2, ls, fs, m, h, fuel) == Run::Done(None, s3, fuel));
    assert(run_seq(prog, 2, level, s2, ls, fs, m, h, fuel) == Run::Done(None, s5, fuel));
    assert(run_instr(prog[1], level, s1, ls, fs, m, h, fuel) == Run::Done(None, s2, fuel));
    assert(run_seq(prog, 1, level, s1, ls, fs, m, h, fuel) == Run::Done(None, s5, fuel));
    assert(run_instr(prog[0], level, s, ls, fs, m, h, fuel) == Run::Done(None, s1, fuel));
}

} // verus!
