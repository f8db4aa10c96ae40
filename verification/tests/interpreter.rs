use nowasm::components::{Resulttype, Valtype};
use nowasm::execute::{ExecuteError, FloatBinop, FloatOps, FloatRelop, FloatUnop, GlobalVal, Val};
use nowasm::instance::{Env, HostFunc, ModuleInstance, Resolve, ResolvedImports};
use nowasm::module::Module;

/// Floating point is never needed by these programs.
struct NoFloats;

impl FloatOps for NoFloats {
    fn f32_unop(&self, _: FloatUnop, a: u32) -> u32 { a }
    fn f32_binop(&self, _: FloatBinop, a: u32, _: u32) -> u32 { a }
    fn f32_relop(&self, _: FloatRelop, _: u32, _: u32) -> bool { false }
    fn f64_unop(&self, _: FloatUnop, a: u64) -> u64 { a }
    fn f64_binop(&self, _: FloatBinop, a: u64, _: u64) -> u64 { a }
    fn f64_relop(&self, _: FloatRelop, _: u64, _: u64) -> bool { false }
    fn f32_to_i32(&self, _: u32, _: bool) -> i32 { 0 }
    fn f32_to_i64(&self, _: u32, _: bool) -> i64 { 0 }
    fn f64_to_i32(&self, _: u64, _: bool) -> i32 { 0 }
    fn f64_to_i64(&self, _: u64, _: bool) -> i64 { 0 }
    fn i32_to_f32(&self, _: i32, _: bool) -> u32 { 0 }
    fn i64_to_f32(&self, _: i64, _: bool) -> u32 { 0 }
    fn i32_to_f64(&self, _: i32, _: bool) -> u64 { 0 }
    fn i64_to_f64(&self, _: i64, _: bool) -> u64 { 0 }
    fn f64_to_f32(&self, _: u64) -> u32 { 0 }
    fn f32_to_f64(&self, _: u32) -> u64 { 0 }
}

struct NoImports;

struct Never;

impl HostFunc for Never {
    fn invoke(&mut self, _args: &[Val], _env: &mut Env) -> Option<Val> {
        None
    }
}

impl Resolve for NoImports {
    type HostFunc = Never;

    fn resolve_func(&self, _: &str, _: &str, _: &[Valtype], _: Resulttype) -> Option<Never> {
        None
    }
}

fn uleb(mut v: u32, out: &mut Vec<u8>) {
    loop {
        let b = (v & 0x7f) as u8;
        v >>= 7;
        if v == 0 {
            out.push(b);
            break;
        }
        out.push(b | 0x80);
    }
}

fn section(id: u8, content: &[u8], out: &mut Vec<u8>) {
    out.push(id);
    uleb(content.len() as u32, out);
    out.extend_from_slice(content);
}

/// A module with one function `f` of type `params -> results`, with the
/// given extra locals (count, type) and body (without the final `end`), and
/// optionally a memory of `mem` pages (min, max) and one mutable i32 global.
fn module(
    params: &[u8],
    results: &[u8],
    locals: &[(u32, u8)],
    body: &[u8],
    mem: Option<(u32, Option<u32>)>,
    global: Option<i32>,
) -> Vec<u8> {
    let mut m = vec![0, 97, 115, 109, 1, 0, 0, 0];
    let mut types = vec![1, 0x60];
    uleb(params.len() as u32, &mut types);
    types.extend_from_slice(params);
    uleb(results.len() as u32, &mut types);
    types.extend_from_slice(results);
    section(1, &types, &mut m);
    section(3, &[1, 0], &mut m);
    if let Some((min, max)) = mem {
        let mut c = vec![1];
        match max {
            Some(max) => {
                c.push(1);
                uleb(min, &mut c);
                uleb(max, &mut c);
            }
            None => {
                c.push(0);
                uleb(min, &mut c);
            }
        }
        section(5, &c, &mut m);
    }
    if let Some(init) = global {
        let mut c = vec![1, 0x7f, 1, 0x41];
        let mut v = init as i64;
        loop {
            let b = (v & 0x7f) as u8;
            v >>= 7;
            if (v == 0 && b & 0x40 == 0) || (v == -1 && b & 0x40 != 0) {
                c.push(b);
                break;
            }
            c.push(b | 0x80);
        }
        c.push(0x0b);
        section(6, &c, &mut m);
    }
    section(7, &[1, 1, b'f', 0, 0], &mut m);
    let mut code = Vec::new();
    uleb(locals.len() as u32, &mut code);
    for (n, t) in locals {
        uleb(*n, &mut code);
        code.push(*t);
    }
    code.extend_from_slice(body);
    code.push(0x0b);
    let mut c = vec![1];
    uleb(code.len() as u32, &mut c);
    c.extend_from_slice(&code);
    section(10, &c, &mut m);
    m
}

fn run(bytes: &[u8], args: &[Val]) -> Result<Option<Val>, ExecuteError> {
    let module = Module::decode(bytes).expect("decode");
    let mut instance: ModuleInstance<Never, NoFloats> =
        ModuleInstance::new(module, NoImports, NoFloats).expect("instantiate");
    instance.invoke("f", args)
}

fn binop_i32(op: u8, a: i32, b: i32) -> Result<Option<Val>, ExecuteError> {
    let bytes = module(&[0x7f, 0x7f], &[0x7f], &[], &[0x20, 0, 0x20, 1, op], None, None);
    run(&bytes, &[Val::I32(a), Val::I32(b)])
}

fn binop_i64(op: u8, a: i64, b: i64) -> Result<Option<Val>, ExecuteError> {
    let bytes = module(&[0x7e, 0x7e], &[0x7e], &[], &[0x20, 0, 0x20, 1, op], None, None);
    run(&bytes, &[Val::I64(a), Val::I64(b)])
}

#[test]
fn add_two_adds() {
    assert_eq!(binop_i32(0x6a, 2, 40), Ok(Some(Val::I32(42))));
}

#[test]
fn i32_add_wraps_around() {
    assert_eq!(binop_i32(0x6a, i32::MAX, 1), Ok(Some(Val::I32(i32::MIN))));
    assert_eq!(binop_i32(0x6b, i32::MIN, 1), Ok(Some(Val::I32(i32::MAX))));
    assert_eq!(binop_i32(0x6c, 0x10000, 0x10000), Ok(Some(Val::I32(0))));
}

#[test]
fn i32_sub_then_add_restores() {
    let d = match binop_i32(0x6b, -7, i32::MAX) {
        Ok(Some(Val::I32(d))) => d,
        other => panic!("{other:?}"),
    };
    assert_eq!(binop_i32(0x6a, d, i32::MAX), Ok(Some(Val::I32(-7))));
}

#[test]
fn i32_division() {
    assert_eq!(binop_i32(0x6d, -7, 2), Ok(Some(Val::I32(-3))));
    assert_eq!(binop_i32(0x6e, -7, 2), Ok(Some(Val::I32(0x7fff_fffc))));
    assert_eq!(binop_i32(0x6f, -7, 2), Ok(Some(Val::I32(-1))));
    assert_eq!(binop_i32(0x70, -7, 2), Ok(Some(Val::I32(1))));
    assert_eq!(binop_i32(0x6d, i32::MIN, -1), Err(ExecuteError::Trapped));
    assert_eq!(binop_i32(0x6f, i32::MIN, -1), Ok(Some(Val::I32(0))));
}

#[test]
fn i32_division_by_zero_traps() {
    assert_eq!(binop_i32(0x6d, 1, 0), Err(ExecuteError::Trapped));
    assert_eq!(binop_i32(0x6e, 1, 0), Err(ExecuteError::Trapped));
    assert_eq!(binop_i32(0x6f, 1, 0), Err(ExecuteError::Trapped));
    assert_eq!(binop_i32(0x70, 1, 0), Err(ExecuteError::Trapped));
}

#[test]
fn i32_bitwise_and_shifts() {
    assert_eq!(binop_i32(0x71, 0b1100, 0b1010), Ok(Some(Val::I32(0b1000))));
    assert_eq!(binop_i32(0x72, 0b1100, 0b1010), Ok(Some(Val::I32(0b1110))));
    assert_eq!(binop_i32(0x73, 0b1100, 0b1010), Ok(Some(Val::I32(0b0110))));
    assert_eq!(binop_i32(0x74, 1, 33), Ok(Some(Val::I32(2))));
    assert_eq!(binop_i32(0x75, -8, 1), Ok(Some(Val::I32(-4))));
    assert_eq!(binop_i32(0x76, -8, 1), Ok(Some(Val::I32(0x7fff_fffc))));
    assert_eq!(binop_i32(0x77, i32::MIN, 1), Ok(Some(Val::I32(1))));
    assert_eq!(binop_i32(0x78, 1, 1), Ok(Some(Val::I32(i32::MIN))));
}

#[test]
fn i32_rotate_left_then_right_restores() {
    let r = match binop_i32(0x77, 0x1234_5678, 12) {
        Ok(Some(Val::I32(r))) => r,
        other => panic!("{other:?}"),
    };
    assert_eq!(r, 0x4567_8123);
    assert_eq!(binop_i32(0x78, r, 12), Ok(Some(Val::I32(0x1234_5678))));
}

#[test]
fn i32_comparisons() {
    assert_eq!(binop_i32(0x48, -1, 1), Ok(Some(Val::I32(1))));
    assert_eq!(binop_i32(0x49, -1, 1), Ok(Some(Val::I32(0))));
    assert_eq!(binop_i32(0x46, 5, 5), Ok(Some(Val::I32(1))));
    assert_eq!(binop_i32(0x47, 5, 5), Ok(Some(Val::I32(0))));
}

#[test]
fn i32_unary_operators() {
    let unop = |op: u8, a: i32| {
        let bytes = module(&[0x7f], &[0x7f], &[], &[0x20, 0, op], None, None);
        run(&bytes, &[Val::I32(a)])
    };
    assert_eq!(unop(0x67, 1), Ok(Some(Val::I32(31))));
    assert_eq!(unop(0x67, 0), Ok(Some(Val::I32(32))));
    assert_eq!(unop(0x68, 8), Ok(Some(Val::I32(3))));
    assert_eq!(unop(0x69, -1), Ok(Some(Val::I32(32))));
    assert_eq!(unop(0x45, 0), Ok(Some(Val::I32(1))));
    assert_eq!(unop(0xc0, 0x80), Ok(Some(Val::I32(-128))));
    assert_eq!(unop(0xc1, 0x8000), Ok(Some(Val::I32(-32768))));
}

#[test]
fn i64_operators() {
    assert_eq!(binop_i64(0x7c, i64::MAX, 1), Ok(Some(Val::I64(i64::MIN))));
    assert_eq!(binop_i64(0x7f, -9, 2), Ok(Some(Val::I64(-4))));
    assert_eq!(binop_i64(0x80, 1, 0), Err(ExecuteError::Trapped));
    assert_eq!(binop_i64(0x89, 1, 65), Ok(Some(Val::I64(2))));
    let bytes = module(&[0x7e], &[0x7e], &[], &[0x20, 0, 0x7b], None, None);
    assert_eq!(run(&bytes, &[Val::I64(-1)]), Ok(Some(Val::I64(64))));
}

#[test]
fn conversions_between_integers() {
    let bytes = module(&[0x7e], &[0x7f], &[], &[0x20, 0, 0xa7], None, None);
    assert_eq!(run(&bytes, &[Val::I64(0x1_0000_0005)]), Ok(Some(Val::I32(5))));
    let bytes = module(&[0x7f], &[0x7e], &[], &[0x20, 0, 0xad], None, None);
    assert_eq!(run(&bytes, &[Val::I32(-1)]), Ok(Some(Val::I64(0xffff_ffff))));
    let bytes = module(&[0x7f], &[0x7e], &[], &[0x20, 0, 0xac], None, None);
    assert_eq!(run(&bytes, &[Val::I32(-1)]), Ok(Some(Val::I64(-1))));
}

#[test]
fn float_sign_operators_act_on_bits() {
    let bytes = module(&[0x7d], &[0x7d], &[], &[0x20, 0, 0x8b], None, None);
    assert_eq!(run(&bytes, &[Val::F32(0x8000_0001)]), Ok(Some(Val::F32(1))));
    let bytes = module(&[0x7d], &[0x7d], &[], &[0x20, 0, 0x8c], None, None);
    assert_eq!(run(&bytes, &[Val::F32(1)]), Ok(Some(Val::F32(0x8000_0001))));
    let bytes = module(&[0x7d, 0x7d], &[0x7d], &[], &[0x20, 0, 0x20, 1, 0x98], None, None);
    assert_eq!(
        run(&bytes, &[Val::F32(0x3f80_0000), Val::F32(0x8000_0000)]),
        Ok(Some(Val::F32(0xbf80_0000)))
    );
}

#[test]
fn unreachable_traps() {
    let bytes = module(&[], &[], &[], &[0x00], None, None);
    assert_eq!(run(&bytes, &[]), Err(ExecuteError::Trapped));
}

#[test]
fn store_then_load_gives_back_the_value() {
    // (i32.store (local.get 0) (local.get 1)) (i32.load (local.get 0))
    let body = [0x20, 0, 0x20, 1, 0x36, 2, 0, 0x20, 0, 0x28, 2, 0];
    let bytes = module(&[0x7f, 0x7f], &[0x7f], &[], &body, Some((1, None)), None);
    assert_eq!(
        run(&bytes, &[Val::I32(100), Val::I32(-123456)]),
        Ok(Some(Val::I32(-123456)))
    );
    assert_eq!(
        run(&bytes, &[Val::I32(65532), Val::I32(7)]),
        Ok(Some(Val::I32(7)))
    );
}

#[test]
fn i64_store_then_load_gives_back_the_value() {
    let body = [0x20, 0, 0x20, 1, 0x37, 3, 8, 0x20, 0, 0x29, 3, 8];
    let bytes = module(&[0x7f, 0x7e], &[0x7e], &[], &body, Some((1, None)), None);
    assert_eq!(
        run(&bytes, &[Val::I32(16), Val::I64(-0x0123_4567_89ab_cdef)]),
        Ok(Some(Val::I64(-0x0123_4567_89ab_cdef)))
    );
}

#[test]
fn narrow_loads_extend() {
    // store i32 -2 at 0, then i32.load8_s / load8_u / load16_u at 0
    let load = |op: u8| {
        let body = [0x41, 0, 0x41, 0x7e, 0x36, 2, 0, 0x41, 0, op, 0, 0];
        let bytes = module(&[], &[0x7f], &[], &body, Some((1, Some(1))), None);
        run(&bytes, &[])
    };
    assert_eq!(load(0x2c), Ok(Some(Val::I32(-2))));
    assert_eq!(load(0x2d), Ok(Some(Val::I32(254))));
    assert_eq!(load(0x2f), Ok(Some(Val::I32(65534))));
}

#[test]
fn out_of_bounds_access_traps() {
    let body = [0x20, 0, 0x28, 2, 0];
    let bytes = module(&[0x7f], &[0x7f], &[], &body, Some((1, None)), None);
    assert_eq!(run(&bytes, &[Val::I32(65533)]), Err(ExecuteError::Trapped));
    assert_eq!(run(&bytes, &[Val::I32(65532)]), Ok(Some(Val::I32(0))));
    assert_eq!(run(&bytes, &[Val::I32(-1)]), Err(ExecuteError::Trapped));
    let body = [0x20, 0, 0x2d, 0, 0];
    let bytes = module(&[0x7f], &[0x7f], &[], &body, Some((1, None)), None);
    assert_eq!(run(&bytes, &[Val::I32(65536)]), Err(ExecuteError::Trapped));
}

#[test]
fn grow_then_size_reports_the_new_size() {
    // (drop (memory.grow (i32.const 2))) (memory.size)
    let body = [0x41, 2, 0x40, 0, 0x1a, 0x3f, 0];
    let bytes = module(&[], &[0x7f], &[], &body, Some((1, Some(4))), None);
    assert_eq!(run(&bytes, &[]), Ok(Some(Val::I32(3))));
    // memory.grow beyond the maximum gives -1 and leaves the size
    let body = [0x41, 4, 0x40, 0];
    let bytes = module(&[], &[0x7f], &[], &body, Some((1, Some(4))), None);
    assert_eq!(run(&bytes, &[]), Ok(Some(Val::I32(-1))));
    let body = [0x41, 3, 0x40, 0];
    let bytes = module(&[], &[0x7f], &[], &body, Some((1, Some(4))), None);
    assert_eq!(run(&bytes, &[]), Ok(Some(Val::I32(1))));
}

#[test]
fn local_set_then_get() {
    let body = [0x41, 9, 0x21, 0, 0x20, 0];
    let bytes = module(&[], &[0x7f], &[(1, 0x7f)], &body, None, None);
    assert_eq!(run(&bytes, &[]), Ok(Some(Val::I32(9))));
    let body = [0x41, 5, 0x22, 0, 0x20, 0, 0x6a];
    let bytes = module(&[], &[0x7f], &[(1, 0x7f)], &body, None, None);
    assert_eq!(run(&bytes, &[]), Ok(Some(Val::I32(10))));
}

#[test]
fn locals_start_at_zero() {
    let body = [0x20, 1];
    let bytes = module(&[0x7f], &[0x7e], &[(2, 0x7e)], &body, None, None);
    assert_eq!(run(&bytes, &[Val::I32(3)]), Ok(Some(Val::I64(0))));
}

#[test]
fn global_set_then_get() {
    let body = [0x23, 0, 0x41, 5, 0x6a, 0x24, 0, 0x23, 0];
    let bytes = module(&[], &[0x7f], &[], &body, None, Some(-300));
    assert_eq!(run(&bytes, &[]), Ok(Some(Val::I32(-295))));
}

#[test]
fn loop_counts_down() {
    // (local.set 1 (i32.const 1))
    // (loop (local.set 1 (i32.mul (local.get 1) (local.get 0)))
    //       (br_if 0 (local.tee 0 (i32.sub (local.get 0) (i32.const 1)))))
    // (local.get 1)   ;; factorial of the argument
    let body = [
        0x41, 1, 0x21, 1, 0x03, 0x40, 0x20, 1, 0x20, 0, 0x6c, 0x21, 1, 0x20, 0, 0x41, 1, 0x6b,
        0x22, 0, 0x0d, 0, 0x0b, 0x20, 1,
    ];
    let bytes = module(&[0x7f], &[0x7f], &[(1, 0x7f)], &body, None, None);
    assert_eq!(run(&bytes, &[Val::I32(5)]), Ok(Some(Val::I32(120))));
    assert_eq!(run(&bytes, &[Val::I32(10)]), Ok(Some(Val::I32(3628800))));
}

#[test]
fn block_with_result_and_branch() {
    // (block (result i32) (br 0 (i32.const 7)) (i32.const 8))
    let body = [0x02, 0x7f, 0x41, 7, 0x0c, 0, 0x41, 8, 0x0b];
    let bytes = module(&[], &[0x7f], &[], &body, None, None);
    assert_eq!(run(&bytes, &[]), Ok(Some(Val::I32(7))));
}

#[test]
fn if_else_chooses_a_branch() {
    // (if (result i32) (local.get 0) (then (i32.const 1)) (else (i32.const 2)))
    let body = [0x20, 0, 0x04, 0x7f, 0x41, 1, 0x05, 0x41, 2, 0x0b];
    let bytes = module(&[0x7f], &[0x7f], &[], &body, None, None);
    assert_eq!(run(&bytes, &[Val::I32(5)]), Ok(Some(Val::I32(1))));
    assert_eq!(run(&bytes, &[Val::I32(0)]), Ok(Some(Val::I32(2))));
}

#[test]
fn br_table_picks_a_label_and_defaults_to_the_last() {
    // (block (block (block (br_table 0 1 2 (local.get 0))) (return (i32.const 10)))
    //        (return (i32.const 11))) (i32.const 12)
    let body = [
        0x02, 0x40, 0x02, 0x40, 0x02, 0x40, 0x20, 0, 0x0e, 2, 0, 1, 2, 0x0b, 0x41, 10, 0x0f,
        0x0b, 0x41, 11, 0x0f, 0x0b, 0x41, 12,
    ];
    let bytes = module(&[0x7f], &[0x7f], &[], &body, None, None);
    assert_eq!(run(&bytes, &[Val::I32(0)]), Ok(Some(Val::I32(10))));
    assert_eq!(run(&bytes, &[Val::I32(1)]), Ok(Some(Val::I32(11))));
    assert_eq!(run(&bytes, &[Val::I32(2)]), Ok(Some(Val::I32(12))));
    assert_eq!(run(&bytes, &[Val::I32(99)]), Ok(Some(Val::I32(12))));
    assert_eq!(run(&bytes, &[Val::I32(-1)]), Ok(Some(Val::I32(12))));
}

#[test]
fn invoking_a_missing_export_fails() {
    let bytes = module(&[], &[], &[], &[], None, None);
    let module = Module::decode(&bytes).expect("decode");
    let mut instance: ModuleInstance<Never, NoFloats> =
        ModuleInstance::new(module, NoImports, NoFloats).expect("instantiate");
    assert_eq!(instance.invoke("g", &[]), Err(ExecuteError::NotExportedFunction));
    assert_eq!(instance.invoke("f", &[]), Ok(None));
}

#[test]
fn invoking_with_wrong_arguments_fails() {
    let bytes = module(&[0x7f], &[], &[], &[], None, None);
    assert_eq!(run(&bytes, &[]), Err(ExecuteError::InvalidFuncArgs));
    assert_eq!(run(&bytes, &[Val::I64(1)]), Err(ExecuteError::InvalidFuncArgs));
    assert_eq!(run(&bytes, &[Val::I32(1)]), Ok(None));
}

#[test]
fn missing_import_is_unresolved() {
    let bytes = [
        0, 97, 115, 109, 1, 0, 0, 0, 1, 8, 2, 96, 1, 127, 0, 96, 0, 0, 2, 15, 1, 7, 99, 111,
        110, 115, 111, 108, 101, 3, 108, 111, 103, 0, 0,
    ];
    let module = Module::decode(&bytes).expect("decode");
    let r: Result<ModuleInstance<Never, NoFloats>, ExecuteError> =
        ModuleInstance::new(module, NoImports, NoFloats);
    assert_eq!(r.err(), Some(ExecuteError::UnresolvedImport { index: 0 }));
}

#[test]
fn data_segment_initialises_memory() {
    // memory 1, data at offset 2: "hi"; the function loads a byte from 3
    let mut m = vec![0, 97, 115, 109, 1, 0, 0, 0];
    section(1, &[1, 0x60, 0, 1, 0x7f], &mut m);
    section(3, &[1, 0], &mut m);
    section(5, &[1, 0, 1], &mut m);
    section(7, &[1, 1, b'f', 0, 0], &mut m);
    section(10, &[1, 7, 0, 0x41, 3, 0x2d, 0, 0, 0x0b], &mut m);
    section(11, &[1, 0, 0x41, 2, 0x0b, 2, b'h', b'i'], &mut m);
    let module = Module::decode(&m).expect("decode");
    let mut instance: ModuleInstance<Never, NoFloats> =
        ModuleInstance::new(module, NoImports, NoFloats).expect("instantiate");
    assert_eq!(instance.invoke("f", &[]), Ok(Some(Val::I32(b'i' as i32))));
    assert_eq!(&instance.mem()[..4], &[0, 0, b'h', b'i']);
    assert_eq!(instance.mem().len(), 65536);
}

#[test]
fn data_segment_out_of_memory_is_invalid() {
    let mut m = vec![0, 97, 115, 109, 1, 0, 0, 0];
    section(5, &[1, 0, 0], &mut m);
    section(11, &[1, 0, 0x41, 0, 0x0b, 1, 7], &mut m);
    let module = Module::decode(&m).expect("decode");
    let r: Result<ModuleInstance<Never, NoFloats>, ExecuteError> =
        ModuleInstance::new(module, NoImports, NoFloats);
    assert_eq!(r.err(), Some(ExecuteError::InvalidData { index: 0 }));
}

#[test]
fn call_indirect_checks_the_type() {
    // two functions of type () -> i32 and i32 -> i32; a table of 2 with
    // both; "f" calls table entry given by its argument with type 0.
    let mut m = vec![0, 97, 115, 109, 1, 0, 0, 0];
    section(1, &[2, 0x60, 1, 0x7f, 1, 0x7f, 0x60, 0, 1, 0x7f], &mut m);
    section(3, &[3, 0, 1, 0], &mut m);
    section(4, &[1, 0x70, 0, 2], &mut m);
    section(7, &[1, 1, b'f', 0, 0], &mut m);
    section(9, &[1, 0, 0x41, 0, 0x0b, 2, 1, 2], &mut m);
    let f = [0, 0x20, 0, 0x11, 1, 0, 0x0b];
    let g = [0, 0x41, 42, 0x0b];
    let h = [0, 0x20, 0, 0x0b];
    let mut code = vec![3];
    for body in [&f[..], &g[..], &h[..]] {
        code.push(body.len() as u8);
        code.extend_from_slice(body);
    }
    section(10, &code, &mut m);
    let module = Module::decode(&m).expect("decode");
    let mut instance: ModuleInstance<Never, NoFloats> =
        ModuleInstance::new(module, NoImports, NoFloats).expect("instantiate");
    assert_eq!(instance.invoke("f", &[Val::I32(0)]), Ok(Some(Val::I32(42))));
    assert_eq!(instance.invoke("f", &[Val::I32(1)]), Err(ExecuteError::Trapped));
    assert_eq!(instance.invoke("f", &[Val::I32(2)]), Err(ExecuteError::Trapped));
}

#[test]
fn recursion_runs() {
    // fib(n) = n < 2 ? n : fib(n-1) + fib(n-2)
    let body = [
        0x20, 0, 0x41, 2, 0x48, 0x04, 0x7f, 0x20, 0, 0x05, 0x20, 0, 0x41, 1, 0x6b, 0x10, 0, 0x20,
        0, 0x41, 2, 0x6b, 0x10, 0, 0x6a, 0x0b,
    ];
    let bytes = module(&[0x7f], &[0x7f], &[], &body, None, None);
    assert_eq!(run(&bytes, &[Val::I32(15)]), Ok(Some(Val::I32(610))));
}

/// A module whose start function runs `start_body`; `f` returns the global
/// that starts at 0.
fn module_with_start(start_body: &[u8]) -> Vec<u8> {
    let mut m = vec![0, 97, 115, 109, 1, 0, 0, 0];
    section(1, &[2, 0x60, 0, 1, 0x7f, 0x60, 0, 0], &mut m);
    section(3, &[2, 0, 1], &mut m);
    section(6, &[1, 0x7f, 1, 0x41, 0, 0x0b], &mut m);
    section(7, &[1, 1, b'f', 0, 0], &mut m);
    section(8, &[1], &mut m);
    let f = [0, 0x23, 0, 0x0b];
    let mut s = vec![0];
    s.extend_from_slice(start_body);
    s.push(0x0b);
    let mut code = vec![2, f.len() as u8];
    code.extend_from_slice(&f);
    code.push(s.len() as u8);
    code.extend_from_slice(&s);
    section(10, &code, &mut m);
    m
}

#[test]
fn start_function_runs_at_instantiation() {
    // start: (global.set 0 (i32.const 7))
    let bytes = module_with_start(&[0x41, 7, 0x24, 0]);
    assert_eq!(run(&bytes, &[]), Ok(Some(Val::I32(7))));
}

#[test]
fn trapping_start_function_fails_instantiation() {
    let bytes = module_with_start(&[0x00]);
    let module = Module::decode(&bytes).expect("decode");
    let instance = ModuleInstance::<Never, NoFloats>::new(module, NoImports, NoFloats);
    assert!(matches!(instance, Err(ExecuteError::Trapped)));
}

#[test]
fn loop_repeats_until_br_if_falls_through() {
    // (local.set 0 (i32.const 3))
    // (loop (i32.const 99) (local.tee 0 (i32.sub (local.get 0) (i32.const 1))) (br_if 0) (drop))
    // (local.get 0)
    let body = [
        0x41, 3, 0x21, 0, 0x03, 0x40, 0x41, 0xe3, 0x00, 0x20, 0, 0x41, 1, 0x6b, 0x22, 0, 0x0d, 0,
        0x1a, 0x0b, 0x20, 0,
    ];
    let bytes = module(&[], &[0x7f], &[(1, 0x7f)], &body, None, None);
    assert_eq!(run(&bytes, &[]), Ok(Some(Val::I32(0))));
}

#[test]
fn data_segment_offset_from_a_mutable_global_is_invalid() {
    // memory 1; a mutable i32 global set to 2; data at offset (global.get 0)
    let mut m = vec![0, 97, 115, 109, 1, 0, 0, 0];
    section(5, &[1, 0, 1], &mut m);
    section(6, &[1, 0x7f, 1, 0x41, 2, 0x0b], &mut m);
    section(11, &[1, 0, 0x23, 0, 0x0b, 1, 7], &mut m);
    let module = Module::decode(&m).expect("decode");
    let r: Result<ModuleInstance<Never, NoFloats>, ExecuteError> =
        ModuleInstance::new(module, NoImports, NoFloats);
    assert_eq!(r.err(), Some(ExecuteError::InvalidData { index: 0 }));
}

#[test]
fn data_segment_offset_from_an_immutable_global() {
    let mut m = vec![0, 97, 115, 109, 1, 0, 0, 0];
    section(5, &[1, 0, 1], &mut m);
    section(6, &[1, 0x7f, 0, 0x41, 2, 0x0b], &mut m);
    section(11, &[1, 0, 0x23, 0, 0x0b, 1, 7], &mut m);
    let module = Module::decode(&m).expect("decode");
    let instance: ModuleInstance<Never, NoFloats> =
        ModuleInstance::new(module, NoImports, NoFloats).expect("instantiate");
    assert_eq!(&instance.mem()[..4], &[0, 0, 7, 0]);
}

#[test]
fn i64_signed_division_overflow_traps() {
    assert_eq!(binop_i64(0x7f, i64::MIN, -1), Err(ExecuteError::Trapped));
    assert_eq!(binop_i64(0x81, i64::MIN, -1), Ok(Some(Val::I64(0))));
}

#[test]
fn instantiating_with_resolved_imports() {
    // imports env.g (an immutable i32 global); f returns it
    let mut m = vec![0, 97, 115, 109, 1, 0, 0, 0];
    section(1, &[1, 0x60, 0, 1, 0x7f], &mut m);
    section(2, &[1, 3, b'e', b'n', b'v', 1, b'g', 0x03, 0x7f, 0x00], &mut m);
    section(3, &[1, 0], &mut m);
    section(7, &[1, 1, b'f', 0, 0], &mut m);
    section(10, &[1, 4, 0, 0x23, 0, 0x0b], &mut m);
    let module = Module::decode(&m).expect("decode");
    let imports = ResolvedImports::<Never> {
        funcs: Vec::new(),
        mem: None,
        table: None,
        globals: vec![GlobalVal::new(true, Val::I32(42))],
    };
    let mut instance =
        ModuleInstance::<Never, NoFloats>::instantiate_resolved(module, imports, NoFloats)
            .expect("instantiate");
    assert_eq!(instance.invoke("f", &[]), Ok(Some(Val::I32(42))));
}

#[test]
fn function_import_with_an_unknown_type_is_unresolved() {
    // imports env.f with type index 5, but there are no types
    let mut m = vec![0, 97, 115, 109, 1, 0, 0, 0];
    section(2, &[1, 3, b'e', b'n', b'v', 1, b'f', 0x00, 5], &mut m);
    let module = Module::decode(&m).expect("decode");
    let r: Result<ModuleInstance<Never, NoFloats>, ExecuteError> =
        ModuleInstance::new(module, NoImports, NoFloats);
    assert_eq!(r.err(), Some(ExecuteError::UnresolvedImport { index: 0 }));
}

/// A host function that reads the first byte of the instance's memory.
struct Peek;

impl HostFunc for Peek {
    fn invoke(&mut self, _args: &[Val], env: &mut Env) -> Option<Val> {
        Some(Val::I32(env.mem[0] as i32))
    }
}

struct PeekResolver;

impl Resolve for PeekResolver {
    type HostFunc = Peek;

    fn resolve_func(&self, module: &str, name: &str, _: &[Valtype], _: Resulttype) -> Option<Peek> {
        if module == "env" && name == "peek" {
            Some(Peek)
        } else {
            None
        }
    }
}

#[test]
fn host_function_reads_the_instance_memory() {
    // imports env.peek: () -> i32; memory 1 with "A" at 0; f calls peek
    let mut m = vec![0, 97, 115, 109, 1, 0, 0, 0];
    section(1, &[1, 0x60, 0, 1, 0x7f], &mut m);
    section(2, &[1, 3, b'e', b'n', b'v', 4, b'p', b'e', b'e', b'k', 0x00, 0], &mut m);
    section(3, &[1, 0], &mut m);
    section(5, &[1, 0, 1], &mut m);
    section(7, &[1, 1, b'f', 0, 1], &mut m);
    section(10, &[1, 4, 0, 0x10, 0, 0x0b], &mut m);
    section(11, &[1, 0, 0x41, 0, 0x0b, 1, b'A'], &mut m);
    let module = Module::decode(&m).expect("decode");
    let mut instance: ModuleInstance<Peek, NoFloats> =
        ModuleInstance::new(module, PeekResolver, NoFloats).expect("instantiate");
    assert_eq!(instance.invoke("f", &[]), Ok(Some(Val::I32(b'A' as i32))));
}
