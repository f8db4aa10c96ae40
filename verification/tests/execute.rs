use nowasm::execute::{FloatBinop, FloatOps, FloatRelop, FloatUnop, Val};
use nowasm::instance::{Env, FuncInst, HostFunc, ModuleInstance, Resolve};
use nowasm::components::{Resulttype, Valtype};
use nowasm::module::Module;

struct NativeFloats;

fn unop32(op: FloatUnop, v: f32) -> f32 {
    match op {
        FloatUnop::Ceil => v.ceil(),
        FloatUnop::Floor => v.floor(),
        FloatUnop::Trunc => v.trunc(),
        FloatUnop::Nearest => v.round(),
        FloatUnop::Sqrt => v.sqrt(),
    }
}

fn unop64(op: FloatUnop, v: f64) -> f64 {
    match op {
        FloatUnop::Ceil => v.ceil(),
        FloatUnop::Floor => v.floor(),
        FloatUnop::Trunc => v.trunc(),
        FloatUnop::Nearest => v.round(),
        FloatUnop::Sqrt => v.sqrt(),
    }
}

impl FloatOps for NativeFloats {
    fn f32_unop(&self, op: FloatUnop, a: u32) -> u32 {
        unop32(op, f32::from_bits(a)).to_bits()
    }
    fn f32_binop(&self, op: FloatBinop, a: u32, b: u32) -> u32 {
        let (a, b) = (f32::from_bits(a), f32::from_bits(b));
        match op {
            FloatBinop::Add => a + b,
            FloatBinop::Sub => a - b,
            FloatBinop::Mul => a * b,
            FloatBinop::Div => a / b,
            FloatBinop::Min => a.min(b),
            FloatBinop::Max => a.max(b),
        }
        .to_bits()
    }
    fn f32_relop(&self, op: FloatRelop, a: u32, b: u32) -> bool {
        let (a, b) = (f32::from_bits(a), f32::from_bits(b));
        match op {
            FloatRelop::Eq => a == b,
            FloatRelop::Ne => a != b,
            FloatRelop::Lt => a < b,
            FloatRelop::Gt => a > b,
            FloatRelop::Le => a <= b,
            FloatRelop::Ge => a >= b,
        }
    }
    fn f64_unop(&self, op: FloatUnop, a: u64) -> u64 {
        unop64(op, f64::from_bits(a)).to_bits()
    }
    fn f64_binop(&self, op: FloatBinop, a: u64, b: u64) -> u64 {
        let (a, b) = (f64::from_bits(a), f64::from_bits(b));
        match op {
            FloatBinop::Add => a + b,
            FloatBinop::Sub => a - b,
            FloatBinop::Mul => a * b,
            FloatBinop::Div => a / b,
            FloatBinop::Min => a.min(b),
            FloatBinop::Max => a.max(b),
        }
        .to_bits()
    }
    fn f64_relop(&self, op: FloatRelop, a: u64, b: u64) -> bool {
        let (a, b) = (f64::from_bits(a), f64::from_bits(b));
        match op {
            FloatRelop::Eq => a == b,
            FloatRelop::Ne => a != b,
            FloatRelop::Lt => a < b,
            FloatRelop::Gt => a > b,
            FloatRelop::Le => a <= b,
            FloatRelop::Ge => a >= b,
        }
    }
    fn f32_to_i32(&self, a: u32, _signed: bool) -> i32 {
        f32::from_bits(a).trunc() as i32
    }
    fn f32_to_i64(&self, a: u32, _signed: bool) -> i64 {
        f32::from_bits(a).trunc() as i64
    }
    fn f64_to_i32(&self, a: u64, _signed: bool) -> i32 {
        f64::from_bits(a).trunc() as i32
    }
    fn f64_to_i64(&self, a: u64, _signed: bool) -> i64 {
        f64::from_bits(a).trunc() as i64
    }
    fn i32_to_f32(&self, a: i32, signed: bool) -> u32 {
        if signed { a as f32 } else { a as u32 as f32 }.to_bits()
    }
    fn i64_to_f32(&self, a: i64, signed: bool) -> u32 {
        if signed { a as f32 } else { a as u64 as f32 }.to_bits()
    }
    fn i32_to_f64(&self, a: i32, signed: bool) -> u64 {
        if signed { a as f64 } else { a as u32 as f64 }.to_bits()
    }
    fn i64_to_f64(&self, a: i64, signed: bool) -> u64 {
        if signed { a as f64 } else { a as u64 as f64 }.to_bits()
    }
    fn f64_to_f32(&self, a: u64) -> u32 {
        (f64::from_bits(a) as f32).to_bits()
    }
    fn f32_to_f64(&self, a: u32) -> u64 {
        (f32::from_bits(a) as f64).to_bits()
    }
}

#[derive(Debug)]
struct Resolver;

impl Resolve for Resolver {
    type HostFunc = Log;

    fn resolve_func(
        &self,
        module: &str,
        name: &str,
        params: &[Valtype],
        result: Resulttype,
    ) -> Option<Self::HostFunc> {
        if module == "console" && name == "log" && params.len() > 0 && result.len() == 0 {
            Some(Log::default())
        } else {
            None
        }
    }
}

#[derive(Debug, Default)]
struct Log {
    messages: Vec<Val>,
}

impl HostFunc for Log {
    fn invoke(&mut self, args: &[Val], _env: &mut Env) -> Option<Val> {
        self.messages.push(args[0]);
        None
    }
}

fn instantiate(input: &[u8]) -> ModuleInstance<Log, NativeFloats> {
    let module = Module::decode(input).expect("decode");
    ModuleInstance::new(module, Resolver, NativeFloats).expect("instantiate")
}

fn logged(instance: &ModuleInstance<Log, NativeFloats>) -> &[Val] {
    let FuncInst::Imported { host_func, .. } = &instance.funcs()[0] else {
        panic!()
    };
    &host_func.messages
}

#[test]
fn control_flow_br_test() {
    let input = [
        0, 97, 115, 109, 1, 0, 0, 0, 1, 8, 2, 96, 1, 127, 0, 96, 0, 0, 2, 15, 1, 7, 99, 111,
        110, 115, 111, 108, 101, 3, 108, 111, 103, 0, 0, 3, 2, 1, 1, 6, 6, 1, 127, 1, 65, 0,
        11, 8, 1, 1, 10, 25, 1, 23, 0, 3, 64, 35, 0, 65, 1, 106, 36, 0, 35, 0, 16, 0, 35, 0,
        65, 10, 72, 13, 0, 11, 11,
    ];
    let instance = instantiate(&input);
    let messages = logged(&instance);
    assert_eq!(10, messages.len());
    for (i, m) in messages.iter().enumerate() {
        assert_eq!(Val::I32((i + 1) as i32), *m);
    }
}

#[test]
fn control_flow_drop_test() {
    let input = [
        0, 97, 115, 109, 1, 0, 0, 0, 1, 8, 2, 96, 1, 127, 0, 96, 0, 0, 2, 15, 1, 7, 99, 111,
        110, 115, 111, 108, 101, 3, 108, 111, 103, 0, 0, 3, 2, 1, 1, 8, 1, 1, 10, 11, 1, 9, 0,
        65, 10, 65, 20, 26, 16, 0, 11,
    ];
    let instance = instantiate(&input);
    assert_eq!(&[Val::I32(10)][..], logged(&instance));
}

#[test]
fn control_flow_select_test() {
    let input = [
        0, 97, 115, 109, 1, 0, 0, 0, 1, 5, 1, 96, 0, 1, 127, 3, 2, 1, 0, 7, 17, 1, 13, 115,
        101, 108, 101, 99, 116, 95, 115, 105, 109, 112, 108, 101, 0, 0, 10, 11, 1, 9, 0, 65,
        10, 65, 20, 65, 0, 27, 11,
    ];
    let module = Module::decode(&input).expect("decode");
    let mut instance: ModuleInstance<Log, NativeFloats> =
        ModuleInstance::new(module, Resolver, NativeFloats).expect("instantiate");
    let val = instance
        .invoke("select_simple", &[])
        .expect("invoke")
        .expect("result");
    assert_eq!(Val::I32(10), val);
}

#[test]
fn control_flow_block_test() {
    let input = [
        0, 97, 115, 109, 1, 0, 0, 0, 1, 5, 1, 96, 1, 127, 0, 2, 15, 1, 7, 99, 111, 110, 115,
        111, 108, 101, 3, 108, 111, 103, 0, 0, 3, 2, 1, 0, 7, 18, 1, 14, 108, 111, 103, 95,
        105, 102, 95, 110, 111, 116, 95, 49, 48, 48, 0, 1, 10, 22, 1, 20, 0, 2, 64, 32, 0, 65,
        228, 0, 70, 4, 64, 12, 1, 11, 32, 0, 16, 0, 11, 11,
    ];
    let mut instance = instantiate(&input);
    assert!(instance
        .invoke("log_if_not_100", &[Val::I32(99)])
        .expect("invoke")
        .is_none());
    assert!(instance
        .invoke("log_if_not_100", &[Val::I32(100)])
        .expect("invoke")
        .is_none());
    assert!(instance
        .invoke("log_if_not_100", &[Val::I32(101)])
        .expect("invoke")
        .is_none());
    assert_eq!(&[Val::I32(99), Val::I32(101)][..], logged(&instance));
}

#[test]
fn memory_size_test() {
    let input = [
        0, 97, 115, 109, 1, 0, 0, 0, 1, 8, 2, 96, 1, 127, 0, 96, 0, 0, 2, 15, 1, 7, 99, 111,
        110, 115, 111, 108, 101, 3, 108, 111, 103, 0, 0, 3, 2, 1, 1, 5, 3, 1, 0, 2, 8, 1, 1,
        10, 8, 1, 6, 0, 63, 0, 16, 0, 11,
    ];
    let instance = instantiate(&input);
    assert_eq!(&[Val::I32(2)][..], logged(&instance));
}

#[test]
fn memory_grow_test() {
    let input = [
        0, 97, 115, 109, 1, 0, 0, 0, 1, 8, 2, 96, 1, 127, 0, 96, 0, 0, 2, 15, 1, 7, 99, 111,
        110, 115, 111, 108, 101, 3, 108, 111, 103, 0, 0, 3, 2, 1, 1, 5, 4, 1, 1, 1, 2, 8, 1, 1,
        10, 16, 1, 14, 0, 65, 1, 64, 0, 16, 0, 65, 1, 64, 0, 16, 0, 11,
    ];
    let instance = instantiate(&input);
    assert_eq!(&[Val::I32(1), Val::I32(-1)][..], logged(&instance));
}

#[test]
fn consts_test() {
    let input = [
        0, 97, 115, 109, 1, 0, 0, 0, 1, 8, 2, 96, 1, 127, 0, 96, 0, 0, 2, 15, 1, 7, 99, 111,
        110, 115, 111, 108, 101, 3, 108, 111, 103, 0, 0, 3, 2, 1, 1, 8, 1, 1, 10, 12, 1, 10, 0,
        65, 10, 16, 0, 65, 125, 16, 0, 11,
    ];
    let instance = instantiate(&input);
    assert_eq!(&[Val::I32(10), Val::I32(-3)][..], logged(&instance));
}

#[test]
fn numeric_reinterpret_test() {
    let input = [
        0, 97, 115, 109, 1, 0, 0, 0, 1, 8, 2, 96, 1, 127, 0, 96, 0, 0, 2, 15, 1, 7, 99, 111,
        110, 115, 111, 108, 101, 3, 108, 111, 103, 0, 0, 3, 2, 1, 1, 8, 1, 1, 10, 12, 1, 10, 0,
        67, 0, 0, 0, 128, 188, 16, 0, 11,
    ];
    let instance = instantiate(&input);
    assert_eq!(&[Val::I32(-2147483648)][..], logged(&instance));
}

#[test]
fn numeric_truncate_float_to_int_test() {
    let input = [
        0, 97, 115, 109, 1, 0, 0, 0, 1, 8, 2, 96, 1, 127, 0, 96, 0, 0, 2, 15, 1, 7, 99, 111,
        110, 115, 111, 108, 101, 3, 108, 111, 103, 0, 0, 3, 2, 1, 1, 8, 1, 1, 10, 12, 1, 10, 0,
        67, 0, 0, 40, 65, 168, 16, 0, 11,
    ];
    let instance = instantiate(&input);
    assert_eq!(&[Val::I32(10)][..], logged(&instance));
}

#[test]
fn numeric_convert_test() {
    let input = [
        0, 97, 115, 109, 1, 0, 0, 0, 1, 8, 2, 96, 1, 125, 0, 96, 0, 0, 2, 15, 1, 7, 99, 111,
        110, 115, 111, 108, 101, 3, 108, 111, 103, 0, 0, 3, 2, 1, 1, 8, 1, 1, 10, 9, 1, 7, 0,
        65, 10, 178, 16, 0, 11,
    ];
    let instance = instantiate(&input);
    assert_eq!(&[Val::F32(10.0f32.to_bits())][..], logged(&instance));
}

#[test]
fn numeric_demote_test() {
    let input = [
        0, 97, 115, 109, 1, 0, 0, 0, 1, 8, 2, 96, 1, 125, 0, 96, 0, 0, 2, 15, 1, 7, 99, 111,
        110, 115, 111, 108, 101, 3, 108, 111, 103, 0, 0, 3, 2, 1, 1, 8, 1, 1, 10, 16, 1, 14, 0,
        68, 0, 0, 0, 0, 0, 0, 37, 64, 182, 16, 0, 11,
    ];
    let instance = instantiate(&input);
    assert_eq!(&[Val::F32(10.5f32.to_bits())][..], logged(&instance));
}

#[test]
fn numeric_promote_test() {
    let input = [
        0, 97, 115, 109, 1, 0, 0, 0, 1, 8, 2, 96, 1, 124, 0, 96, 0, 0, 2, 15, 1, 7, 99, 111,
        110, 115, 111, 108, 101, 3, 108, 111, 103, 0, 0, 3, 2, 1, 1, 8, 1, 1, 10, 12, 1, 10, 0,
        67, 0, 0, 40, 65, 187, 16, 0, 11,
    ];
    let instance = instantiate(&input);
    assert_eq!(&[Val::F64(10.5f64.to_bits())][..], logged(&instance));
}

#[test]
fn numeric_wrap_test() {
    let input = [
        0, 97, 115, 109, 1, 0, 0, 0, 1, 8, 2, 96, 1, 127, 0, 96, 0, 0, 2, 15, 1, 7, 99, 111,
        110, 115, 111, 108, 101, 3, 108, 111, 103, 0, 0, 3, 2, 1, 1, 8, 1, 1, 10, 9, 1, 7, 0,
        66, 10, 167, 16, 0, 11,
    ];
    let instance = instantiate(&input);
    assert_eq!(&[Val::I32(10)][..], logged(&instance));
}

#[test]
fn numeric_extend_test() {
    let input = [
        0, 97, 115, 109, 1, 0, 0, 0, 1, 8, 2, 96, 1, 126, 0, 96, 0, 0, 2, 15, 1, 7, 99, 111,
        110, 115, 111, 108, 101, 3, 108, 111, 103, 0, 0, 3, 2, 1, 1, 8, 1, 1, 10, 9, 1, 7, 0,
        65, 10, 172, 16, 0, 11,
    ];
    let instance = instantiate(&input);
    assert_eq!(&[Val::I64(10)][..], logged(&instance));
}
