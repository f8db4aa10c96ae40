//! Instructions and their binary encoding.
use crate::components::{
    spec_byte, spec_u32, lemma_u32_progress, Blocktype, Funcidx, Globalidx, Labelidx, Localidx,
    Memarg, Typeidx,
};
use crate::decode::{
    decoded, lemma_items_err, lemma_items_progress, spec_items, views, Decode, DecodeError,
};
use crate::reader::{lemma_signed_bound, spec_le, spec_signed, Reader, SpecRes};
use crate::semantics::memarg_of;
use vstd::arithmetic::power2::*;
use vstd::prelude::*;

verus! {

/// The sign-extension operators (opcodes 0xc0 to 0xc4).
#[derive(Debug, Clone, Copy, PartialEq, Eq, Structural)]
pub enum SignExtensionInstr {
    I32Extend8S,
    I32Extend16S,
    I64Extend8S,
    I64Extend16S,
    I64Extend32S,
}

/// The sign-extension operator with opcode `op`, if any.
pub open spec fn spec_sign_extension(op: u8) -> Option<SignExtensionInstr> {
    if op == 0xc0 {
        Some(SignExtensionInstr::I32Extend8S)
    } else if op == 0xc1 {
        Some(SignExtensionInstr::I32Extend16S)
    } else if op == 0xc2 {
        Some(SignExtensionInstr::I64Extend8S)
    } else if op == 0xc3 {
        Some(SignExtensionInstr::I64Extend16S)
    } else if op == 0xc4 {
        Some(SignExtensionInstr::I64Extend32S)
    } else {
        None
    }
}

impl SignExtensionInstr {
    /// Reads a sign-extension opcode.
    pub fn decode(reader: &mut Reader) -> (res: Result<Self, DecodeError>)
        requires
            old(reader).wf(),
        ensures
            final(reader).wf(),
            final(reader).bytes() == old(reader).bytes(),
            match spec_byte(old(reader).bytes(), old(reader).pos()) {
                Ok((op, p)) => match spec_sign_extension(op) {
                    Some(i) => res == Ok::<Self, DecodeError>(i) && final(reader).pos() == p,
                    None => res == Err::<Self, DecodeError>(DecodeError::InvalidOpcode { value: op }),
                },
                Err(e) => res == Err::<Self, DecodeError>(e),
            },
    {
        let opcode = reader.read_u8()?;
        match opcode {
            0xc0 => Ok(SignExtensionInstr::I32Extend8S),
            0xc1 => Ok(SignExtensionInstr::I32Extend16S),
            0xc2 => Ok(SignExtensionInstr::I64Extend8S),
            0xc3 => Ok(SignExtensionInstr::I64Extend16S),
            0xc4 => Ok(SignExtensionInstr::I64Extend32S),
            _ => Err(DecodeError::InvalidOpcode { value: opcode }),
        }
    }
}

/// A WebAssembly instruction. Blocks, loops and conditionals hold their
/// nested instructions.
#[derive(Debug)]
pub enum Instr {
    // Control instructions
    Unreachable,
    Nop,
    Block(BlockInstr),
    Loop(LoopInstr),
    If(IfInstr),
    Br(Labelidx),
    BrIf(Labelidx),
    BrTable(BrTableInstr),
    Return,
    Call(Funcidx),
    CallIndirect(Typeidx),
    // Parametric instructions
    Drop,
    Select,
    // Variable instructions
    LocalGet(Localidx),
    LocalSet(Localidx),
    LocalTee(Localidx),
    GlobalGet(Globalidx),
    GlobalSet(Globalidx),
    // Memory instructions
    I32Load(Memarg),
    I64Load(Memarg),
    F32Load(Memarg),
    F64Load(Memarg),
    I32Load8S(Memarg),
    I32Load8U(Memarg),
    I32Load16S(Memarg),
    I32Load16U(Memarg),
    I64Load8S(Memarg),
    I64Load8U(Memarg),
    I64Load16S(Memarg),
    I64Load16U(Memarg),
    I64Load32S(Memarg),
    I64Load32U(Memarg),
    I32Store(Memarg),
    I64Store(Memarg),
    F32Store(Memarg),
    F64Store(Memarg),
    I32Store8(Memarg),
    I32Store16(Memarg),
    I64Store8(Memarg),
    I64Store16(Memarg),
    I64Store32(Memarg),
    MemorySize,
    MemoryGrow,
    // Numeric instructions (a float constant is held as its bit pattern)
    I32Const(i32),
    I64Const(i64),
    F32Const(u32),
    F64Const(u64),
    I32Eqz,
    I32Eq,
    I32Ne,
    I32LtS,
    I32LtU,
    I32GtS,
    I32GtU,
    I32LeS,
    I32LeU,
    I32GeS,
    I32GeU,
    I64Eqz,
    I64Eq,
    I64Ne,
    I64LtS,
    I64LtU,
    I64GtS,
    I64GtU,
    I64LeS,
    I64LeU,
    I64GeS,
    I64GeU,
    F32Eq,
    F32Ne,
    F32Lt,
    F32Gt,
    F32Le,
    F32Ge,
    F64Eq,
    F64Ne,
    F64Lt,
    F64Gt,
    F64Le,
    F64Ge,
    I32Clz,
    I32Ctz,
    I32Popcnt,
    I32Add,
    I32Sub,
    I32Mul,
    I32DivS,
    I32DivU,
    I32RemS,
    I32RemU,
    I32And,
    I32Or,
    I32Xor,
    I32Shl,
    I32ShrS,
    I32ShrU,
    I32Rotl,
    I32Rotr,
    I64Clz,
    I64Ctz,
    I64Popcnt,
    I64Add,
    I64Sub,
    I64Mul,
    I64DivS,
    I64DivU,
    I64RemS,
    I64RemU,
    I64And,
    I64Or,
    I64Xor,
    I64Shl,
    I64ShrS,
    I64ShrU,
    I64Rotl,
    I64Rotr,
    F32Abs,
    F32Neg,
    F32Ceil,
    F32Floor,
    F32Trunc,
    F32Nearest,
    F32Sqrt,
    F32Add,
    F32Sub,
    F32Mul,
    F32Div,
    F32Min,
    F32Max,
    F32Copysign,
    F64Abs,
    F64Neg,
    F64Ceil,
    F64Floor,
    F64Trunc,
    F64Nearest,
    F64Sqrt,
    F64Add,
    F64Sub,
    F64Mul,
    F64Div,
    F64Min,
    F64Max,
    F64Copysign,
    I32WrapI64,
    I32TruncF32S,
    I32TruncF32U,
    I32TruncF64S,
    I32TruncF64U,
    I64ExtendI32S,
    I64ExtendI32U,
    I64TruncF32S,
    I64TruncF32U,
    I64TruncF64S,
    I64TruncF64U,
    F32ConvertI32S,
    F32ConvertI32U,
    F32ConvertI64S,
    F32ConvertI64U,
    F32DemoteF64,
    F64ConvertI32S,
    F64ConvertI32U,
    F64ConvertI64S,
    F64ConvertI64U,
    F64PromoteF32,
    I32ReinterpretF32,
    I64ReinterpretF64,
    F32ReinterpretI32,
    F64ReinterpretI64,
    // Sign-extension operators
    SignExtension(SignExtensionInstr),
}

/// A block or loop: its result type and body.
#[derive(Debug)]
pub struct BlockInstr {
    pub blocktype: Blocktype,
    pub instrs: Vec<Instr>,
}

/// A loop: its result type and body.
#[derive(Debug)]
pub struct LoopInstr {
    pub blocktype: Blocktype,
    pub instrs: Vec<Instr>,
}

/// A conditional: its result type and its two branches.
#[derive(Debug)]
pub struct IfInstr {
    pub blocktype: Blocktype,
    pub then_instrs: Vec<Instr>,
    pub else_instrs: Vec<Instr>,
}

/// A branch table: the labels for each index, the last one being the default.
#[derive(Debug)]
pub struct BrTableInstr {
    pub labels: Vec<Labelidx>,
}

/// The abstract form of an instruction: nested instruction sequences are
/// sequences of abstract instructions; every other instruction is itself.
pub enum SpecInstr {
    Block(Blocktype, Seq<SpecInstr>),
    Loop(Blocktype, Seq<SpecInstr>),
    If(Blocktype, Seq<SpecInstr>, Seq<SpecInstr>),
    BrTable(Seq<Labelidx>),
    Plain(Instr),
}

/// The abstract form of an instruction.
pub open spec fn instr_view(i: Instr) -> SpecInstr
    decreases i, 0nat,
{
    match i {
        Instr::Block(b) => SpecInstr::Block(b.blocktype, instrs_view(b.instrs, b.instrs@.len())),
        Instr::Loop(b) => SpecInstr::Loop(b.blocktype, instrs_view(b.instrs, b.instrs@.len())),
        Instr::If(b) => SpecInstr::If(
            b.blocktype,
            instrs_view(b.then_instrs, b.then_instrs@.len()),
            instrs_view(b.else_instrs, b.else_instrs@.len()),
        ),
        Instr::BrTable(t) => SpecInstr::BrTable(t.labels@),
        _ => SpecInstr::Plain(i),
    }
}

/// The abstract forms of the first `n` instructions of `v`.
pub open spec fn instrs_view(v: Vec<Instr>, n: nat) -> Seq<SpecInstr>
    decreases v, n,
{
    if n == 0 || n > v.len() {
        Seq::empty()
    } else {
        instrs_view(v, (n - 1) as nat).push(instr_view(v[n - 1]))
    }
}

impl View for Instr {
    type V = SpecInstr;

    open spec fn view(&self) -> SpecInstr {
        instr_view(*self)
    }
}

/// The instruction without immediates or nesting whose opcode is `op`.
pub open spec fn spec_plain_instr(op: u8) -> Option<Instr> {
    if op == 0x00 {
        Some(Instr::Unreachable)
    } else if op == 0x01 {
        Some(Instr::Nop)
    } else if op == 0x0f {
        Some(Instr::Return)
    } else if op == 0x1a {
        Some(Instr::Drop)
    } else if op == 0x1b {
        Some(Instr::Select)
    } else if op == 0x45 {
        Some(Instr::I32Eqz)
    } else if op == 0x46 {
        Some(Instr::I32Eq)
    } else if op == 0x47 {
        Some(Instr::I32Ne)
    } else if op == 0x48 {
        Some(Instr::I32LtS)
    } else if op == 0x49 {
        Some(Instr::I32LtU)
    } else if op == 0x4a {
        Some(Instr::I32GtS)
    } else if op == 0x4b {
        Some(Instr::I32GtU)
    } else if op == 0x4c {
        Some(Instr::I32LeS)
    } else if op == 0x4d {
        Some(Instr::I32LeU)
    } else if op == 0x4e {
        Some(Instr::I32GeS)
    } else if op == 0x4f {
        Some(Instr::I32GeU)
    } else if op == 0x50 {
        Some(Instr::I64Eqz)
    } else if op == 0x51 {
        Some(Instr::I64Eq)
    } else if op == 0x52 {
        Some(Instr::I64Ne)
    } else if op == 0x53 {
        Some(Instr::I64LtS)
    } else if op == 0x54 {
        Some(Instr::I64LtU)
    } else if op == 0x55 {
        Some(Instr::I64GtS)
    } else if op == 0x56 {
        Some(Instr::I64GtU)
    } else if op == 0x57 {
        Some(Instr::I64LeS)
    } else if op == 0x58 {
        Some(Instr::I64LeU)
    } else if op == 0x59 {
        Some(Instr::I64GeS)
    } else if op == 0x5a {
        Some(Instr::I64GeU)
    } else if op == 0x5b {
        Some(Instr::F32Eq)
    } else if op == 0x5c {
        Some(Instr::F32Ne)
    } else if op == 0x5d {
        Some(Instr::F32Lt)
    } else if op == 0x5e {
        Some(Instr::F32Gt)
    } else if op == 0x5f {
        Some(Instr::F32Le)
    } else if op == 0x60 {
        Some(Instr::F32Ge)
    } else if op == 0x61 {
        Some(Instr::F64Eq)
    } else if op == 0x62 {
        Some(Instr::F64Ne)
    } else if op == 0x63 {
        Some(Instr::F64Lt)
    } else if op == 0x64 {
        Some(Instr::F64Gt)
    } else if op == 0x65 {
        Some(Instr::F64Le)
    } else if op == 0x66 {
        Some(Instr::F64Ge)
    } else if op == 0x67 {
        Some(Instr::I32Clz)
    } else if op == 0x68 {
        Some(Instr::I32Ctz)
    } else if op == 0x69 {
        Some(Instr::I32Popcnt)
    } else if op == 0x6a {
        Some(Instr::I32Add)
    } else if op == 0x6b {
        Some(Instr::I32Sub)
    } else if op == 0x6c {
        Some(Instr::I32Mul)
    } else if op == 0x6d {
        Some(Instr::I32DivS)
    } else if op == 0x6e {
        Some(Instr::I32DivU)
    } else if op == 0x6f {
        Some(Instr::I32RemS)
    } else if op == 0x70 {
        Some(Instr::I32RemU)
    } else if op == 0x71 {
        Some(Instr::I32And)
    } else if op == 0x72 {
        Some(Instr::I32Or)
    } else if op == 0x73 {
        Some(Instr::I32Xor)
    } else if op == 0x74 {
        Some(Instr::I32Shl)
    } else if op == 0x75 {
        Some(Instr::I32ShrS)
    } else if op == 0x76 {
        Some(Instr::I32ShrU)
    } else if op == 0x77 {
        Some(Instr::I32Rotl)
    } else if op == 0x78 {
        Some(Instr::I32Rotr)
    } else if op == 0x79 {
        Some(Instr::I64Clz)
    } else if op == 0x7a {
        Some(Instr::I64Ctz)
    } else if op == 0x7b {
        Some(Instr::I64Popcnt)
    } else if op == 0x7c {
        Some(Instr::I64Add)
    } else if op == 0x7d {
        Some(Instr::I64Sub)
    } else if op == 0x7e {
        Some(Instr::I64Mul)
    } else if op == 0x7f {
        Some(Instr::I64DivS)
    } else if op == 0x80 {
        Some(Instr::I64DivU)
    } else if op == 0x81 {
        Some(Instr::I64RemS)
    } else if op == 0x82 {
        Some(Instr::I64RemU)
    } else if op == 0x83 {
        Some(Instr::I64And)
    } else if op == 0x84 {
        Some(Instr::I64Or)
    } else if op == 0x85 {
        Some(Instr::I64Xor)
    } else if op == 0x86 {
        Some(Instr::I64Shl)
    } else if op == 0x87 {
        Some(Instr::I64ShrS)
    } else if op == 0x88 {
        Some(Instr::I64ShrU)
    } else if op == 0x89 {
        Some(Instr::I64Rotl)
    } else if op == 0x8a {
        Some(Instr::I64Rotr)
    } else if op == 0x8b {
        Some(Instr::F32Abs)
    } else if op == 0x8c {
        Some(Instr::F32Neg)
    } else if op == 0x8d {
        Some(Instr::F32Ceil)
    } else if op == 0x8e {
        Some(Instr::F32Floor)
    } else if op == 0x8f {
        Some(Instr::F32Trunc)
    } else if op == 0x90 {
        Some(Instr::F32Nearest)
    } else if op == 0x91 {
        Some(Instr::F32Sqrt)
    } else if op == 0x92 {
        Some(Instr::F32Add)
    } else if op == 0x93 {
        Some(Instr::F32Sub)
    } else if op == 0x94 {
        Some(Instr::F32Mul)
    } else if op == 0x95 {
        Some(Instr::F32Div)
    } else if op == 0x96 {
        Some(Instr::F32Min)
    } else if op == 0x97 {
        Some(Instr::F32Max)
    } else if op == 0x98 {
        Some(Instr::F32Copysign)
    } else if op == 0x99 {
        Some(Instr::F64Abs)
    } else if op == 0x9a {
        Some(Instr::F64Neg)
    } else if op == 0x9b {
        Some(Instr::F64Ceil)
    } else if op == 0x9c {
        Some(Instr::F64Floor)
    } else if op == 0x9d {
        Some(Instr::F64Trunc)
    } else if op == 0x9e {
        Some(Instr::F64Nearest)
    } else if op == 0x9f {
        Some(Instr::F64Sqrt)
    } else if op == 0xa0 {
        Some(Instr::F64Add)
    } else if op == 0xa1 {
        Some(Instr::F64Sub)
    } else if op == 0xa2 {
        Some(Instr::F64Mul)
    } else if op == 0xa3 {
        Some(Instr::F64Div)
    } else if op == 0xa4 {
        Some(Instr::F64Min)
    } else if op == 0xa5 {
        Some(Instr::F64Max)
    } else if op == 0xa6 {
        Some(Instr::F64Copysign)
    } else if op == 0xa7 {
        Some(Instr::I32WrapI64)
    } else if op == 0xa8 {
        Some(Instr::I32TruncF32S)
    } else if op == 0xa9 {
        Some(Instr::I32TruncF32U)
    } else if op == 0xaa {
        Some(Instr::I32TruncF64S)
    } else if op == 0xab {
        Some(Instr::I32TruncF64U)
    } else if op == 0xac {
        Some(Instr::I64ExtendI32S)
    } else if op == 0xad {
        Some(Instr::I64ExtendI32U)
    } else if op == 0xae {
        Some(Instr::I64TruncF32S)
    } else if op == 0xaf {
        Some(Instr::I64TruncF32U)
    } else if op == 0xb0 {
        Some(Instr::I64TruncF64S)
    } else if op == 0xb1 {
        Some(Instr::I64TruncF64U)
    } else if op == 0xb2 {
        Some(Instr::F32ConvertI32S)
    } else if op == 0xb3 {
        Some(Instr::F32ConvertI32U)
    } else if op == 0xb4 {
        Some(Instr::F32ConvertI64S)
    } else if op == 0xb5 {
        Some(Instr::F32ConvertI64U)
    } else if op == 0xb6 {
        Some(Instr::F32DemoteF64)
    } else if op == 0xb7 {
        Some(Instr::F64ConvertI32S)
    } else if op == 0xb8 {
        Some(Instr::F64ConvertI32U)
    } else if op == 0xb9 {
        Some(Instr::F64ConvertI64S)
    } else if op == 0xba {
        Some(Instr::F64ConvertI64U)
    } else if op == 0xbb {
        Some(Instr::F64PromoteF32)
    } else if op == 0xbc {
        Some(Instr::I32ReinterpretF32)
    } else if op == 0xbd {
        Some(Instr::I64ReinterpretF64)
    } else if op == 0xbe {
        Some(Instr::F32ReinterpretI32)
    } else if op == 0xbf {
        Some(Instr::F64ReinterpretI64)
    } else {
        None
    }
}

/// The instruction without immediates or nesting whose opcode is `op`.
fn plain_instr(op: u8) -> (r: Option<Instr>)
    ensures
        r == spec_plain_instr(op),
{
    match op {
        0x00 => Some(Instr::Unreachable),
        0x01 => Some(Instr::Nop),
        0x0f => Some(Instr::Return),
        0x1a => Some(Instr::Drop),
        0x1b => Some(Instr::Select),
        0x45 => Some(Instr::I32Eqz),
        0x46 => Some(Instr::I32Eq),
        0x47 => Some(Instr::I32Ne),
        0x48 => Some(Instr::I32LtS),
        0x49 => Some(Instr::I32LtU),
        0x4a => Some(Instr::I32GtS),
        0x4b => Some(Instr::I32GtU),
        0x4c => Some(Instr::I32LeS),
        0x4d => Some(Instr::I32LeU),
        0x4e => Some(Instr::I32GeS),
        0x4f => Some(Instr::I32GeU),
        0x50 => Some(Instr::I64Eqz),
        0x51 => Some(Instr::I64Eq),
        0x52 => Some(Instr::I64Ne),
        0x53 => Some(Instr::I64LtS),
        0x54 => Some(Instr::I64LtU),
        0x55 => Some(Instr::I64GtS),
        0x56 => Some(Instr::I64GtU),
        0x57 => Some(Instr::I64LeS),
        0x58 => Some(Instr::I64LeU),
        0x59 => Some(Instr::I64GeS),
        0x5a => Some(Instr::I64GeU),
        0x5b => Some(Instr::F32Eq),
        0x5c => Some(Instr::F32Ne),
        0x5d => Some(Instr::F32Lt),
        0x5e => Some(Instr::F32Gt),
        0x5f => Some(Instr::F32Le),
        0x60 => Some(Instr::F32Ge),
        0x61 => Some(Instr::F64Eq),
        0x62 => Some(Instr::F64Ne),
        0x63 => Some(Instr::F64Lt),
        0x64 => Some(Instr::F64Gt),
        0x65 => Some(Instr::F64Le),
        0x66 => Some(Instr::F64Ge),
        0x67 => Some(Instr::I32Clz),
        0x68 => Some(Instr::I32Ctz),
        0x69 => Some(Instr::I32Popcnt),
        0x6a => Some(Instr::I32Add),
        0x6b => Some(Instr::I32Sub),
        0x6c => Some(Instr::I32Mul),
        0x6d => Some(Instr::I32DivS),
        0x6e => Some(Instr::I32DivU),
        0x6f => Some(Instr::I32RemS),
        0x70 => Some(Instr::I32RemU),
        0x71 => Some(Instr::I32And),
        0x72 => Some(Instr::I32Or),
        0x73 => Some(Instr::I32Xor),
        0x74 => Some(Instr::I32Shl),
        0x75 => Some(Instr::I32ShrS),
        0x76 => Some(Instr::I32ShrU),
        0x77 => Some(Instr::I32Rotl),
        0x78 => Some(Instr::I32Rotr),
        0x79 => Some(Instr::I64Clz),
        0x7a => Some(Instr::I64Ctz),
        0x7b => Some(Instr::I64Popcnt),
        0x7c => Some(Instr::I64Add),
        0x7d => Some(Instr::I64Sub),
        0x7e => Some(Instr::I64Mul),
        0x7f => Some(Instr::I64DivS),
        0x80 => Some(Instr::I64DivU),
        0x81 => Some(Instr::I64RemS),
        0x82 => Some(Instr::I64RemU),
        0x83 => Some(Instr::I64And),
        0x84 => Some(Instr::I64Or),
        0x85 => Some(Instr::I64Xor),
        0x86 => Some(Instr::I64Shl),
        0x87 => Some(Instr::I64ShrS),
        0x88 => Some(Instr::I64ShrU),
        0x89 => Some(Instr::I64Rotl),
        0x8a => Some(Instr::I64Rotr),
        0x8b => Some(Instr::F32Abs),
        0x8c => Some(Instr::F32Neg),
        0x8d => Some(Instr::F32Ceil),
        0x8e => Some(Instr::F32Floor),
        0x8f => Some(Instr::F32Trunc),
        0x90 => Some(Instr::F32Nearest),
        0x91 => Some(Instr::F32Sqrt),
        0x92 => Some(Instr::F32Add),
        0x93 => Some(Instr::F32Sub),
        0x94 => Some(Instr::F32Mul),
        0x95 => Some(Instr::F32Div),
        0x96 => Some(Instr::F32Min),
        0x97 => Some(Instr::F32Max),
        0x98 => Some(Instr::F32Copysign),
        0x99 => Some(Instr::F64Abs),
        0x9a => Some(Instr::F64Neg),
        0x9b => Some(Instr::F64Ceil),
        0x9c => Some(Instr::F64Floor),
        0x9d => Some(Instr::F64Trunc),
        0x9e => Some(Instr::F64Nearest),
        0x9f => Some(Instr::F64Sqrt),
        0xa0 => Some(Instr::F64Add),
        0xa1 => Some(Instr::F64Sub),
        0xa2 => Some(Instr::F64Mul),
        0xa3 => Some(Instr::F64Div),
        0xa4 => Some(Instr::F64Min),
        0xa5 => Some(Instr::F64Max),
        0xa6 => Some(Instr::F64Copysign),
        0xa7 => Some(Instr::I32WrapI64),
        0xa8 => Some(Instr::I32TruncF32S),
        0xa9 => Some(Instr::I32TruncF32U),
        0xaa => Some(Instr::I32TruncF64S),
        0xab => Some(Instr::I32TruncF64U),
        0xac => Some(Instr::I64ExtendI32S),
        0xad => Some(Instr::I64ExtendI32U),
        0xae => Some(Instr::I64TruncF32S),
        0xaf => Some(Instr::I64TruncF32U),
        0xb0 => Some(Instr::I64TruncF64S),
        0xb1 => Some(Instr::I64TruncF64U),
        0xb2 => Some(Instr::F32ConvertI32S),
        0xb3 => Some(Instr::F32ConvertI32U),
        0xb4 => Some(Instr::F32ConvertI64S),
        0xb5 => Some(Instr::F32ConvertI64U),
        0xb6 => Some(Instr::F32DemoteF64),
        0xb7 => Some(Instr::F64ConvertI32S),
        0xb8 => Some(Instr::F64ConvertI32U),
        0xb9 => Some(Instr::F64ConvertI64S),
        0xba => Some(Instr::F64ConvertI64U),
        0xbb => Some(Instr::F64PromoteF32),
        0xbc => Some(Instr::I32ReinterpretF32),
        0xbd => Some(Instr::I64ReinterpretF64),
        0xbe => Some(Instr::F32ReinterpretI32),
        0xbf => Some(Instr::F64ReinterpretI64),
        _ => None,
    }
}

} // verus!

verus! {

/// The memory instruction with opcode `op` and argument `m`.
pub open spec fn spec_memarg_instr(op: u8, m: Memarg) -> Option<Instr> {
    if op == 0x28 {
        Some(Instr::I32Load(m))
    } else if op == 0x29 {
        Some(Instr::I64Load(m))
    } else if op == 0x2a {
        Some(Instr::F32Load(m))
    } else if op == 0x2b {
        Some(Instr::F64Load(m))
    } else if op == 0x2c {
        Some(Instr::I32Load8S(m))
    } else if op == 0x2d {
        Some(Instr::I32Load8U(m))
    } else if op == 0x2e {
        Some(Instr::I32Load16S(m))
    } else if op == 0x2f {
        Some(Instr::I32Load16U(m))
    } else if op == 0x30 {
        Some(Instr::I64Load8S(m))
    } else if op == 0x31 {
        Some(Instr::I64Load8U(m))
    } else if op == 0x32 {
        Some(Instr::I64Load16S(m))
    } else if op == 0x33 {
        Some(Instr::I64Load16U(m))
    } else if op == 0x34 {
        Some(Instr::I64Load32S(m))
    } else if op == 0x35 {
        Some(Instr::I64Load32U(m))
    } else if op == 0x36 {
        Some(Instr::I32Store(m))
    } else if op == 0x37 {
        Some(Instr::I64Store(m))
    } else if op == 0x38 {
        Some(Instr::F32Store(m))
    } else if op == 0x39 {
        Some(Instr::F64Store(m))
    } else if op == 0x3a {
        Some(Instr::I32Store8(m))
    } else if op == 0x3b {
        Some(Instr::I32Store16(m))
    } else if op == 0x3c {
        Some(Instr::I64Store8(m))
    } else if op == 0x3d {
        Some(Instr::I64Store16(m))
    } else if op == 0x3e {
        Some(Instr::I64Store32(m))
    } else {
        None
    }
}

/// The memory instruction with opcode `op` and argument `m`.
fn memarg_instr(op: u8, m: Memarg) -> (r: Option<Instr>)
    ensures
        r == spec_memarg_instr(op, m),
{
    match op {
        0x28 => Some(Instr::I32Load(m)),
        0x29 => Some(Instr::I64Load(m)),
        0x2a => Some(Instr::F32Load(m)),
        0x2b => Some(Instr::F64Load(m)),
        0x2c => Some(Instr::I32Load8S(m)),
        0x2d => Some(Instr::I32Load8U(m)),
        0x2e => Some(Instr::I32Load16S(m)),
        0x2f => Some(Instr::I32Load16U(m)),
        0x30 => Some(Instr::I64Load8S(m)),
        0x31 => Some(Instr::I64Load8U(m)),
        0x32 => Some(Instr::I64Load16S(m)),
        0x33 => Some(Instr::I64Load16U(m)),
        0x34 => Some(Instr::I64Load32S(m)),
        0x35 => Some(Instr::I64Load32U(m)),
        0x36 => Some(Instr::I32Store(m)),
        0x37 => Some(Instr::I64Store(m)),
        0x38 => Some(Instr::F32Store(m)),
        0x39 => Some(Instr::F64Store(m)),
        0x3a => Some(Instr::I32Store8(m)),
        0x3b => Some(Instr::I32Store16(m)),
        0x3c => Some(Instr::I64Store8(m)),
        0x3d => Some(Instr::I64Store16(m)),
        0x3e => Some(Instr::I64Store32(m)),
        _ => None,
    }
}


/// The opcode of a memory instruction in the binary format.
pub open spec fn memory_opcode(i: Instr) -> Option<u8> {
    match i {
        Instr::I32Load(_) => Some(0x28),
        Instr::I64Load(_) => Some(0x29),
        Instr::F32Load(_) => Some(0x2a),
        Instr::F64Load(_) => Some(0x2b),
        Instr::I32Load8S(_) => Some(0x2c),
        Instr::I32Load8U(_) => Some(0x2d),
        Instr::I32Load16S(_) => Some(0x2e),
        Instr::I32Load16U(_) => Some(0x2f),
        Instr::I64Load8S(_) => Some(0x30),
        Instr::I64Load8U(_) => Some(0x31),
        Instr::I64Load16S(_) => Some(0x32),
        Instr::I64Load16U(_) => Some(0x33),
        Instr::I64Load32S(_) => Some(0x34),
        Instr::I64Load32U(_) => Some(0x35),
        Instr::I32Store(_) => Some(0x36),
        Instr::I64Store(_) => Some(0x37),
        Instr::F32Store(_) => Some(0x38),
        Instr::F64Store(_) => Some(0x39),
        Instr::I32Store8(_) => Some(0x3a),
        Instr::I32Store16(_) => Some(0x3b),
        Instr::I64Store8(_) => Some(0x3c),
        Instr::I64Store16(_) => Some(0x3d),
        Instr::I64Store32(_) => Some(0x3e),
        _ => None,
    }
}

/// The memory opcodes are 0x28 to 0x3e, and each decodes to the instruction
/// that has it as its opcode, with the memory argument that follows it; so
/// different opcodes decode to different instructions.
pub proof fn lemma_memory_opcodes(op: u8, m: Memarg)
    ensures
        (0x28 <= op <= 0x3e) == spec_memarg_instr(op, m) is Some,
        spec_memarg_instr(op, m) matches Some(i) ==> memory_opcode(i) == Some(op) && memarg_of(i)
            == Some(m),
{
}

/// The local-variable instruction with opcode `op` and index `x`.
pub open spec fn spec_local_instr(op: u8, x: Localidx) -> Option<Instr> {
    if op == 0x20 {
        Some(Instr::LocalGet(x))
    } else if op == 0x21 {
        Some(Instr::LocalSet(x))
    } else if op == 0x22 {
        Some(Instr::LocalTee(x))
    } else {
        None
    }
}

/// The local-variable instruction with opcode `op` and index `x`.
fn local_instr(op: u8, x: Localidx) -> (r: Option<Instr>)
    ensures
        r == spec_local_instr(op, x),
{
    match op {
        0x20 => Some(Instr::LocalGet(x)),
        0x21 => Some(Instr::LocalSet(x)),
        0x22 => Some(Instr::LocalTee(x)),
        _ => None,
    }
}

/// The global-variable instruction with opcode `op` and index `x`.
pub open spec fn spec_global_instr(op: u8, x: Globalidx) -> Option<Instr> {
    if op == 0x23 {
        Some(Instr::GlobalGet(x))
    } else if op == 0x24 {
        Some(Instr::GlobalSet(x))
    } else {
        None
    }
}

/// The global-variable instruction with opcode `op` and index `x`.
fn global_instr(op: u8, x: Globalidx) -> (r: Option<Instr>)
    ensures
        r == spec_global_instr(op, x),
{
    match op {
        0x23 => Some(Instr::GlobalGet(x)),
        0x24 => Some(Instr::GlobalSet(x)),
        _ => None,
    }
}

} // verus!

verus! {

/// The instruction whose encoding starts at `pos`: an opcode byte followed by
/// its immediates; blocks, loops and conditionals contain nested
/// instruction sequences.
pub open spec fn spec_instr(data: Seq<u8>, pos: int) -> SpecRes<SpecInstr>
    decreases data.len() - pos, 0int,
{
    if pos < 0 || pos >= data.len() {
        Err(DecodeError::UnexpectedEndOfBytes)
    } else {
        let op = data[pos];
        let p = pos + 1;
        if op == 0x02 || op == 0x03 {
            match Blocktype::spec_decode(data, p) {
                Ok((bt, q)) => if q <= pos || q > data.len() {
                    Err(DecodeError::UnexpectedEndOfBytes)
                } else {
                    match spec_instrs(data, q) {
                        Ok((body, r)) => if op == 0x02 {
                            Ok((SpecInstr::Block(bt, body), r))
                        } else {
                            Ok((SpecInstr::Loop(bt, body), r))
                        },
                        Err(e) => Err(e),
                    }
                },
                Err(e) => Err(e),
            }
        } else if op == 0x04 {
            match Blocktype::spec_decode(data, p) {
                Ok((bt, q)) => if q <= pos || q > data.len() {
                    Err(DecodeError::UnexpectedEndOfBytes)
                } else {
                    match spec_then_instrs(data, q) {
                        Ok(((then_body, has_else), r)) => if !has_else {
                            Ok((SpecInstr::If(bt, then_body, Seq::empty()), r))
                        } else if r <= pos || r > data.len() {
                            Err(DecodeError::UnexpectedEndOfBytes)
                        } else {
                            match spec_instrs(data, r) {
                                Ok((else_body, t)) => Ok((SpecInstr::If(bt, then_body, else_body), t)),
                                Err(e) => Err(e),
                            }
                        },
                        Err(e) => Err(e),
                    }
                },
                Err(e) => Err(e),
            }
        } else if op == 0x0c || op == 0x0d {
            match Labelidx::spec_decode(data, p) {
                Ok((l, q)) => if op == 0x0c {
                    Ok((SpecInstr::Plain(Instr::Br(l)), q))
                } else {
                    Ok((SpecInstr::Plain(Instr::BrIf(l)), q))
                },
                Err(e) => Err(e),
            }
        } else if op == 0x0e {
            match spec_u32(data, p) {
                Ok((n, q)) => match spec_items::<Labelidx>(data, q, (n + 1) as nat) {
                    Ok((labels, r)) => Ok((SpecInstr::BrTable(labels), r)),
                    Err(e) => Err(e),
                },
                Err(e) => Err(e),
            }
        } else if op == 0x10 {
            match Funcidx::spec_decode(data, p) {
                Ok((x, q)) => Ok((SpecInstr::Plain(Instr::Call(x)), q)),
                Err(e) => Err(e),
            }
        } else if op == 0x11 {
            match Typeidx::spec_decode(data, p) {
                Ok((x, q)) => match spec_byte(data, q) {
                    Ok((table, r)) => if table != 0 {
                        Err(DecodeError::InvalidTableIdx { value: table as u32 })
                    } else {
                        Ok((SpecInstr::Plain(Instr::CallIndirect(x)), r))
                    },
                    Err(e) => Err(e),
                },
                Err(e) => Err(e),
            }
        } else if 0x20 <= op <= 0x22 {
            match Localidx::spec_decode(data, p) {
                Ok((x, q)) => Ok((SpecInstr::Plain(spec_local_instr(op, x).unwrap()), q)),
                Err(e) => Err(e),
            }
        } else if 0x23 <= op <= 0x24 {
            match Globalidx::spec_decode(data, p) {
                Ok((x, q)) => Ok((SpecInstr::Plain(spec_global_instr(op, x).unwrap()), q)),
                Err(e) => Err(e),
            }
        } else if 0x28 <= op <= 0x3e {
            match Memarg::spec_decode(data, p) {
                Ok((m, q)) => Ok((SpecInstr::Plain(spec_memarg_instr(op, m).unwrap()), q)),
                Err(e) => Err(e),
            }
        } else if op == 0x3f || op == 0x40 {
            match spec_byte(data, p) {
                Ok((v, q)) => if v != 0 {
                    Err(DecodeError::InvalidMemIdx { value: v as u32 })
                } else if op == 0x3f {
                    Ok((SpecInstr::Plain(Instr::MemorySize), q))
                } else {
                    Ok((SpecInstr::Plain(Instr::MemoryGrow), q))
                },
                Err(e) => Err(e),
            }
        } else if op == 0x41 {
            match spec_signed(data, p, 32) {
                Ok((v, q)) => Ok((SpecInstr::Plain(Instr::I32Const(v as i32)), q)),
                Err(e) => Err(e),
            }
        } else if op == 0x42 {
            match spec_signed(data, p, 64) {
                Ok((v, q)) => Ok((SpecInstr::Plain(Instr::I64Const(v as i64)), q)),
                Err(e) => Err(e),
            }
        } else if op == 0x43 {
            if p + 4 <= data.len() {
                Ok((SpecInstr::Plain(Instr::F32Const(spec_le(data, p, 4) as u32)), p + 4))
            } else {
                Err(DecodeError::UnexpectedEndOfBytes)
            }
        } else if op == 0x44 {
            if p + 8 <= data.len() {
                Ok((SpecInstr::Plain(Instr::F64Const(spec_le(data, p, 8) as u64)), p + 8))
            } else {
                Err(DecodeError::UnexpectedEndOfBytes)
            }
        } else if 0xc0 <= op <= 0xc4 {
            Ok((SpecInstr::Plain(Instr::SignExtension(spec_sign_extension(op).unwrap())), p))
        } else {
            match spec_plain_instr(op) {
                Some(i) => Ok((SpecInstr::Plain(i), p)),
                None => Err(DecodeError::InvalidOpcode { value: op }),
            }
        }
    }
}

/// The instructions from `pos` up to and including the `end` byte (0x0b).
/// (Every instruction occupies at least one byte; the guard on positions
/// never applies, see `lemma_instr_progress`.)
pub open spec fn spec_instrs(data: Seq<u8>, pos: int) -> SpecRes<Seq<SpecInstr>>
    decreases data.len() - pos, 1int,
{
    if pos < 0 || pos >= data.len() {
        Err(DecodeError::UnexpectedEndOfBytes)
    } else if data[pos] == 0x0b {
        Ok((Seq::empty(), pos + 1))
    } else {
        match spec_instr(data, pos) {
            Ok((i, p)) => if p <= pos || p > data.len() {
                Err(DecodeError::UnexpectedEndOfBytes)
            } else {
                match spec_instrs(data, p) {
                    Ok((rest, q)) => Ok((seq![i] + rest, q)),
                    Err(e) => Err(e),
                }
            },
            Err(e) => Err(e),
        }
    }
}

/// The instructions of a `then` branch from `pos` up to and including the
/// `else` byte (0x05, flagged `true`) or the `end` byte (0x0b, flagged `false`).
pub open spec fn spec_then_instrs(data: Seq<u8>, pos: int) -> SpecRes<(Seq<SpecInstr>, bool)>
    decreases data.len() - pos, 1int,
{
    if pos < 0 || pos >= data.len() {
        Err(DecodeError::UnexpectedEndOfBytes)
    } else if data[pos] == 0x0b {
        Ok(((Seq::empty(), false), pos + 1))
    } else if data[pos] == 0x05 {
        Ok(((Seq::empty(), true), pos + 1))
    } else {
        match spec_instr(data, pos) {
            Ok((i, p)) => if p <= pos || p > data.len() {
                Err(DecodeError::UnexpectedEndOfBytes)
            } else {
                match spec_then_instrs(data, p) {
                    Ok(((rest, has_else), q)) => Ok(((seq![i] + rest, has_else), q)),
                    Err(e) => Err(e),
                }
            },
            Err(e) => Err(e),
        }
    }
}

/// Every decoded instruction or instruction sequence occupies at least one
/// byte and ends within the bytes.
pub proof fn lemma_instr_progress(data: Seq<u8>, pos: int)
    ensures
        spec_instr(data, pos) matches Ok((_, p)) ==> pos < p <= data.len(),
        spec_instrs(data, pos) matches Ok((_, p)) ==> pos < p <= data.len(),
        spec_then_instrs(data, pos) matches Ok((_, p)) ==> pos < p <= data.len(),
    decreases data.len() - pos,
{
    if 0 <= pos < data.len() {
        let p = pos + 1;
        Blocktype::lemma_decode_progress(data, p);
        Labelidx::lemma_decode_progress(data, p);
        Funcidx::lemma_decode_progress(data, p);
        Typeidx::lemma_decode_progress(data, p);
        Localidx::lemma_decode_progress(data, p);
        Globalidx::lemma_decode_progress(data, p);
        Memarg::lemma_decode_progress(data, p);
        lemma_u32_progress(data, p);
        lemma_signed_bound(data, p, 32);
        lemma_signed_bound(data, p, 64);
        if let Ok((n, q)) = spec_u32(data, p) {
            lemma_items_progress::<Labelidx>(data, q, (n + 1) as nat);
        }
        if let Ok((_, q)) = Blocktype::spec_decode(data, p) {
            if pos < q <= data.len() {
                lemma_instr_progress(data, q);
                if let Ok((_, r)) = spec_then_instrs(data, q) {
                    if pos < r <= data.len() {
                        lemma_instr_progress(data, r);
                    }
                }
            }
        }
        if let Ok((_, q)) = spec_instr(data, pos) {
            if pos < q <= data.len() {
                lemma_instr_progress(data, q);
            }
        }
    }
}

} // verus!

verus! {

/// The abstract forms of the first `n` instructions of `v` are the views of
/// those instructions.
pub proof fn lemma_instrs_view(v: Vec<Instr>, n: nat)
    requires
        n <= v@.len(),
    ensures
        instrs_view(v, n) == views(v@.take(n as int)),
    decreases n,
{
    if n > 0 {
        lemma_instrs_view(v, (n - 1) as nat);
        assert(v@.take(n as int) =~= v@.take(n - 1).push(v@[n - 1]));
        assert(views(v@.take(n as int)) =~= views(v@.take(n - 1)).push(v@[n - 1]@));
    } else {
        assert(views(v@.take(0)) =~= Seq::<SpecInstr>::empty());
    }
}

/// The views of all instructions of `v`.
pub proof fn lemma_vec_view(v: Vec<Instr>)
    ensures
        instrs_view(v, v@.len()) == views(v@),
{
    lemma_instrs_view(v, v@.len());
    assert(v@.take(v@.len() as int) =~= v@);
}

/// `acc` followed by the outcome `r` of decoding the rest.
pub open spec fn prepend<T>(acc: Seq<T>, r: SpecRes<Seq<T>>) -> SpecRes<Seq<T>> {
    match r {
        Ok((s, p)) => Ok((acc + s, p)),
        Err(e) => Err(e),
    }
}

/// `acc` followed by the outcome `r` of decoding the rest of a `then` branch.
pub open spec fn prepend_then(acc: Seq<SpecInstr>, r: SpecRes<(Seq<SpecInstr>, bool)>) -> SpecRes<
    (Seq<SpecInstr>, bool),
> {
    match r {
        Ok(((s, e), p)) => Ok(((acc + s, e), p)),
        Err(e) => Err(e),
    }
}

/// Reads instructions up to and including the `end` byte (0x0b).
pub fn decode_instrs(reader: &mut Reader) -> (res: Result<Vec<Instr>, DecodeError>)
    requires
        old(reader).wf(),
    ensures
        final(reader).wf(),
        final(reader).bytes() == old(reader).bytes(),
        match spec_instrs(old(reader).bytes(), old(reader).pos()) {
            Ok((s, p)) => res matches Ok(v) && views(v@) == s && final(reader).pos() == p,
            Err(e) => res == Err::<Vec<Instr>, DecodeError>(e),
        },
    decreases old(reader).bytes().len() - old(reader).pos(), 1int,
{
    let ghost data = reader.bytes();
    let ghost pos0 = reader.pos();
    let mut instrs: Vec<Instr> = Vec::new();
    proof {
        assert(views(instrs@) =~= Seq::<SpecInstr>::empty());
        assert(prepend(views(instrs@), spec_instrs(data, pos0)) =~= spec_instrs(data, pos0));
    }
    loop
        invariant_except_break
            reader.wf(),
            reader.bytes() == data,
            data == old(reader).bytes(),
            pos0 == old(reader).pos(),
            pos0 <= reader.pos(),
            spec_instrs(data, pos0) == prepend(views(instrs@), spec_instrs(data, reader.pos())),
        ensures
            reader.wf(),
            reader.bytes() == data,
            spec_instrs(data, pos0) == Ok::<(Seq<SpecInstr>, int), DecodeError>(
                (views(instrs@), reader.pos()),
            ),
        decreases data.len() - reader.pos(),
    {
        let ghost cur = reader.pos();
        proof {
            lemma_instr_progress(data, cur);
        }
        let b = reader.peek_u8()?;
        if b == 0x0b {
            let _ = reader.read_u8();
            proof {
                assert(views(instrs@) + Seq::<SpecInstr>::empty() =~= views(instrs@));
            }
            break;
        }
        let instr = Instr::decode(reader)?;
        proof {
            let i = instr@;
            let rest = spec_instrs(data, reader.pos());
            assert(views(instrs@.push(instr)) =~= views(instrs@).push(i));
            match rest {
                Ok((s, q)) => {
                    assert(views(instrs@) + (seq![i] + s) =~= views(instrs@).push(i) + s);
                },
                Err(_) => {},
            }
        }
        instrs.push(instr);
    }
    Ok(instrs)
}

/// Reads the instructions of a `then` branch up to and including the `else`
/// byte (then `true`) or the `end` byte (then `false`).
pub fn decode_then_instrs(reader: &mut Reader) -> (res: Result<(Vec<Instr>, bool), DecodeError>)
    requires
        old(reader).wf(),
    ensures
        final(reader).wf(),
        final(reader).bytes() == old(reader).bytes(),
        match spec_then_instrs(old(reader).bytes(), old(reader).pos()) {
            Ok(((s, e), p)) => res matches Ok((v, has_else)) && views(v@) == s && has_else == e
                && final(reader).pos() == p,
            Err(e) => res == Err::<(Vec<Instr>, bool), DecodeError>(e),
        },
    decreases old(reader).bytes().len() - old(reader).pos(), 1int,
{
    let ghost data = reader.bytes();
    let ghost pos0 = reader.pos();
    let mut instrs: Vec<Instr> = Vec::new();
    let mut has_else = false;
    proof {
        assert(views(instrs@) =~= Seq::<SpecInstr>::empty());
        assert(prepend_then(views(instrs@), spec_then_instrs(data, pos0)) =~= spec_then_instrs(
            data,
            pos0,
        ));
    }
    loop
        invariant_except_break
            reader.wf(),
            reader.bytes() == data,
            data == old(reader).bytes(),
            pos0 == old(reader).pos(),
            pos0 <= reader.pos(),
            spec_then_instrs(data, pos0) == prepend_then(
                views(instrs@),
                spec_then_instrs(data, reader.pos()),
            ),
        ensures
            reader.wf(),
            reader.bytes() == data,
            spec_then_instrs(data, pos0) == Ok::<((Seq<SpecInstr>, bool), int), DecodeError>(
                ((views(instrs@), has_else), reader.pos()),
            ),
        decreases data.len() - reader.pos(),
    {
        let ghost cur = reader.pos();
        proof {
            lemma_instr_progress(data, cur);
        }
        let b = reader.peek_u8()?;
        if b == 0x0b || b == 0x05 {
            let _ = reader.read_u8();
            has_else = b == 0x05;
            proof {
                assert(views(instrs@) + Seq::<SpecInstr>::empty() =~= views(instrs@));
            }
            break;
        }
        let instr = Instr::decode(reader)?;
        proof {
            let i = instr@;
            let rest = spec_then_instrs(data, reader.pos());
            assert(views(instrs@.push(instr)) =~= views(instrs@).push(i));
            match rest {
                Ok(((s, e), q)) => {
                    assert(views(instrs@) + (seq![i] + s) =~= views(instrs@).push(i) + s);
                },
                Err(_) => {},
            }
        }
        instrs.push(instr);
    }
    Ok((instrs, has_else))
}

impl BlockInstr {
    /// Reads a block's result type and body (the opcode already read).
    pub fn decode(reader: &mut Reader) -> (res: Result<Self, DecodeError>)
        requires
            old(reader).wf(),
        ensures
            final(reader).wf(),
            final(reader).bytes() == old(reader).bytes(),
            match Blocktype::spec_decode(old(reader).bytes(), old(reader).pos()) {
                Ok((bt, q)) => match spec_instrs(old(reader).bytes(), q) {
                    Ok((body, r)) => res matches Ok(b) && b.blocktype == bt && views(b.instrs@)
                        == body && final(reader).pos() == r,
                    Err(e) => res == Err::<Self, DecodeError>(e),
                },
                Err(e) => res == Err::<Self, DecodeError>(e),
            },
        decreases old(reader).bytes().len() - old(reader).pos(), 0int,
    {
        proof {
            Blocktype::lemma_decode_progress(reader.bytes(), reader.pos());
        }
        let blocktype = Blocktype::decode(reader)?;
        let instrs = decode_instrs(reader)?;
        Ok(BlockInstr { blocktype, instrs })
    }
}

impl LoopInstr {
    /// Reads a loop's result type and body (the opcode already read).
    pub fn decode(reader: &mut Reader) -> (res: Result<Self, DecodeError>)
        requires
            old(reader).wf(),
        ensures
            final(reader).wf(),
            final(reader).bytes() == old(reader).bytes(),
            match Blocktype::spec_decode(old(reader).bytes(), old(reader).pos()) {
                Ok((bt, q)) => match spec_instrs(old(reader).bytes(), q) {
                    Ok((body, r)) => res matches Ok(b) && b.blocktype == bt && views(b.instrs@)
                        == body && final(reader).pos() == r,
                    Err(e) => res == Err::<Self, DecodeError>(e),
                },
                Err(e) => res == Err::<Self, DecodeError>(e),
            },
        decreases old(reader).bytes().len() - old(reader).pos(), 0int,
    {
        proof {
            Blocktype::lemma_decode_progress(reader.bytes(), reader.pos());
        }
        let blocktype = Blocktype::decode(reader)?;
        let instrs = decode_instrs(reader)?;
        Ok(LoopInstr { blocktype, instrs })
    }
}

impl IfInstr {
    /// Reads a conditional's result type and branches (the opcode already read).
    pub fn decode(reader: &mut Reader) -> (res: Result<Self, DecodeError>)
        requires
            old(reader).wf(),
        ensures
            final(reader).wf(),
            final(reader).bytes() == old(reader).bytes(),
            match Blocktype::spec_decode(old(reader).bytes(), old(reader).pos()) {
                Ok((bt, q)) => match spec_then_instrs(old(reader).bytes(), q) {
                    Ok(((then_body, has_else), r)) => if !has_else {
                        res matches Ok(b) && b.blocktype == bt && views(b.then_instrs@)
                            == then_body && b.else_instrs@.len() == 0 && final(reader).pos() == r
                    } else {
                        match spec_instrs(old(reader).bytes(), r) {
                            Ok((else_body, t)) => res matches Ok(b) && b.blocktype == bt && views(
                                b.then_instrs@,
                            ) == then_body && views(b.else_instrs@) == else_body
                                && final(reader).pos() == t,
                            Err(e) => res == Err::<Self, DecodeError>(e),
                        }
                    },
                    Err(e) => res == Err::<Self, DecodeError>(e),
                },
                Err(e) => res == Err::<Self, DecodeError>(e),
            },
        decreases old(reader).bytes().len() - old(reader).pos(), 0int,
    {
        let ghost data = reader.bytes();
        proof {
            Blocktype::lemma_decode_progress(reader.bytes(), reader.pos());
        }
        let blocktype = Blocktype::decode(reader)?;
        proof {
            lemma_instr_progress(data, reader.pos());
        }
        let (then_instrs, has_else) = decode_then_instrs(reader)?;
        if !has_else {
            return Ok(IfInstr { blocktype, then_instrs, else_instrs: Vec::new() });
        }
        let else_instrs = decode_instrs(reader)?;
        Ok(IfInstr { blocktype, then_instrs, else_instrs })
    }
}

impl BrTableInstr {
    /// Reads a branch table: a `u32` count n, then n + 1 labels.
    pub fn decode(reader: &mut Reader) -> (res: Result<Self, DecodeError>)
        requires
            old(reader).wf(),
        ensures
            final(reader).wf(),
            final(reader).bytes() == old(reader).bytes(),
            match spec_u32(old(reader).bytes(), old(reader).pos()) {
                Ok((n, q)) => match spec_items::<Labelidx>(old(reader).bytes(), q, (n + 1) as nat) {
                    Ok((labels, r)) => res matches Ok(t) && t.labels@ == labels && final(reader).pos()
                        == r,
                    Err(e) => res == Err::<Self, DecodeError>(e),
                },
                Err(e) => res == Err::<Self, DecodeError>(e),
            },
    {
        let ghost data = reader.bytes();
        let ghost pos0 = reader.pos();
        let n = reader.read_u32()?;
        let count: u64 = n as u64 + 1;
        let ghost start = reader.pos();
        let mut labels: Vec<Labelidx> = Vec::new();
        let mut i: u64 = 0;
        proof {
            assert(views(labels@) =~= labels@);
        }
        while i < count
            invariant
                reader.wf(),
                reader.bytes() == data,
                data == old(reader).bytes(),
                spec_u32(data, pos0) == Ok::<(u32, int), DecodeError>((n, start)),
                pos0 == old(reader).pos(),
                i <= count,
                count == n + 1,
                spec_items::<Labelidx>(data, start, i as nat) == Ok::<
                    (Seq<Labelidx>, int),
                    DecodeError,
                >((labels@, reader.pos())),
            decreases count - i,
        {
            match Labelidx::decode(reader) {
                Ok(l) => {
                    labels.push(l);
                    i = i + 1;
                },
                Err(e) => {
                    proof {
                        lemma_items_err::<Labelidx>(data, start, (i + 1) as nat, count as nat);
                    }
                    return Err(e);
                },
            }
        }
        Ok(BrTableInstr { labels })
    }
}

} // verus!

verus! {

impl Instr {
    /// Reads one instruction: its opcode, then its immediates and nested
    /// instructions.
    pub fn decode(reader: &mut Reader) -> (res: Result<Instr, DecodeError>)
        requires
            old(reader).wf(),
        ensures
            final(reader).wf(),
            final(reader).bytes() == old(reader).bytes(),
            decoded(spec_instr(old(reader).bytes(), old(reader).pos()), res, final(reader).pos()),
        decreases old(reader).bytes().len() - old(reader).pos(), 0int,
    {
        let ghost data = reader.bytes();
        let ghost pos = reader.pos();
        proof {
            lemma_instr_progress(data, pos);
            Blocktype::lemma_decode_progress(data, pos + 1);
            if let Ok((_, q)) = Blocktype::spec_decode(data, pos + 1) {
                lemma_instr_progress(data, q);
            }
        }
        let opcode = reader.read_u8()?;
        if opcode == 0x02 {
            let b = BlockInstr::decode(reader)?;
            proof {
                lemma_vec_view(b.instrs);
            }
            Ok(Instr::Block(b))
        } else if opcode == 0x03 {
            let b = LoopInstr::decode(reader)?;
            proof {
                lemma_vec_view(b.instrs);
            }
            Ok(Instr::Loop(b))
        } else if opcode == 0x04 {
            let b = IfInstr::decode(reader)?;
            proof {
                lemma_vec_view(b.then_instrs);
                lemma_vec_view(b.else_instrs);
                assert(views(b.else_instrs@) =~= b.else_instrs@.map_values(|i: Instr| i@));
                if b.else_instrs@.len() == 0 {
                    assert(views(b.else_instrs@) =~= Seq::<SpecInstr>::empty());
                }
            }
            Ok(Instr::If(b))
        } else if opcode == 0x0c {
            Ok(Instr::Br(Labelidx::decode(reader)?))
        } else if opcode == 0x0d {
            Ok(Instr::BrIf(Labelidx::decode(reader)?))
        } else if opcode == 0x0e {
            Ok(Instr::BrTable(BrTableInstr::decode(reader)?))
        } else if opcode == 0x10 {
            Ok(Instr::Call(Funcidx::decode(reader)?))
        } else if opcode == 0x11 {
            let idx = Typeidx::decode(reader)?;
            let table = reader.read_u8()?;
            if table != 0 {
                return Err(DecodeError::InvalidTableIdx { value: table as u32 });
            }
            Ok(Instr::CallIndirect(idx))
        } else if 0x20 <= opcode && opcode <= 0x22 {
            let x = Localidx::decode(reader)?;
            match local_instr(opcode, x) {
                Some(i) => Ok(i),
                None => Err(DecodeError::InvalidOpcode { value: opcode }),
            }
        } else if 0x23 <= opcode && opcode <= 0x24 {
            let x = Globalidx::decode(reader)?;
            match global_instr(opcode, x) {
                Some(i) => Ok(i),
                None => Err(DecodeError::InvalidOpcode { value: opcode }),
            }
        } else if 0x28 <= opcode && opcode <= 0x3e {
            let m = Memarg::decode(reader)?;
            match memarg_instr(opcode, m) {
                Some(i) => Ok(i),
                None => Err(DecodeError::InvalidOpcode { value: opcode }),
            }
        } else if opcode == 0x3f || opcode == 0x40 {
            let value = reader.read_u8()?;
            if value != 0 {
                return Err(DecodeError::InvalidMemIdx { value: value as u32 });
            }
            if opcode == 0x3f {
                Ok(Instr::MemorySize)
            } else {
                Ok(Instr::MemoryGrow)
            }
        } else if opcode == 0x41 {
            Ok(Instr::I32Const(reader.read_i32()?))
        } else if opcode == 0x42 {
            Ok(Instr::I64Const(reader.read_i64()?))
        } else if opcode == 0x43 {
            Ok(Instr::F32Const(reader.read_f32_bits()?))
        } else if opcode == 0x44 {
            Ok(Instr::F64Const(reader.read_f64_bits()?))
        } else if 0xc0 <= opcode && opcode <= 0xc4 {
            reader.unread_u8();
            Ok(Instr::SignExtension(SignExtensionInstr::decode(reader)?))
        } else {
            match plain_instr(opcode) {
                Some(i) => Ok(i),
                None => Err(DecodeError::InvalidOpcode { value: opcode }),
            }
        }
    }
}

} // verus!

verus! {

/// A copy of `i`, nested instructions included.
pub fn clone_instr(i: &Instr) -> (r: Instr)
    ensures
        r@ == i@,
    decreases *i, 0nat,
{
    match i {
        Instr::Block(b) => {
            let instrs = clone_instrs(&b.instrs);
            proof {
                lemma_vec_view(b.instrs);
                lemma_vec_view(instrs);
            }
            Instr::Block(BlockInstr { blocktype: b.blocktype, instrs })
        },
        Instr::Loop(b) => {
            let instrs = clone_instrs(&b.instrs);
            proof {
                lemma_vec_view(b.instrs);
                lemma_vec_view(instrs);
            }
            Instr::Loop(LoopInstr { blocktype: b.blocktype, instrs })
        },
        Instr::If(b) => {
            let then_instrs = clone_instrs(&b.then_instrs);
            let else_instrs = clone_instrs(&b.else_instrs);
            proof {
                lemma_vec_view(b.then_instrs);
                lemma_vec_view(then_instrs);
                lemma_vec_view(b.else_instrs);
                lemma_vec_view(else_instrs);
            }
            Instr::If(IfInstr { blocktype: b.blocktype, then_instrs, else_instrs })
        },
        Instr::BrTable(t) => Instr::BrTable(BrTableInstr { labels: copy_labels(&t.labels) }),
        Instr::Unreachable => Instr::Unreachable,
        Instr::Nop => Instr::Nop,
        Instr::Return => Instr::Return,
        Instr::Drop => Instr::Drop,
        Instr::Select => Instr::Select,
        Instr::MemorySize => Instr::MemorySize,
        Instr::MemoryGrow => Instr::MemoryGrow,
        Instr::I32Eqz => Instr::I32Eqz,
        Instr::I32Eq => Instr::I32Eq,
        Instr::I32Ne => Instr::I32Ne,
        Instr::I32LtS => Instr::I32LtS,
        Instr::I32LtU => Instr::I32LtU,
        Instr::I32GtS => Instr::I32GtS,
        Instr::I32GtU => Instr::I32GtU,
        Instr::I32LeS => Instr::I32LeS,
        Instr::I32LeU => Instr::I32LeU,
        Instr::I32GeS => Instr::I32GeS,
        Instr::I32GeU => Instr::I32GeU,
        Instr::I64Eqz => Instr::I64Eqz,
        Instr::I64Eq => Instr::I64Eq,
        Instr::I64Ne => Instr::I64Ne,
        Instr::I64LtS => Instr::I64LtS,
        Instr::I64LtU => Instr::I64LtU,
        Instr::I64GtS => Instr::I64GtS,
        Instr::I64GtU => Instr::I64GtU,
        Instr::I64LeS => Instr::I64LeS,
        Instr::I64LeU => Instr::I64LeU,
        Instr::I64GeS => Instr::I64GeS,
        Instr::I64GeU => Instr::I64GeU,
        Instr::F32Eq => Instr::F32Eq,
        Instr::F32Ne => Instr::F32Ne,
        Instr::F32Lt => Instr::F32Lt,
        Instr::F32Gt => Instr::F32Gt,
        Instr::F32Le => Instr::F32Le,
        Instr::F32Ge => Instr::F32Ge,
        Instr::F64Eq => Instr::F64Eq,
        Instr::F64Ne => Instr::F64Ne,
        Instr::F64Lt => Instr::F64Lt,
        Instr::F64Gt => Instr::F64Gt,
        Instr::F64Le => Instr::F64Le,
        Instr::F64Ge => Instr::F64Ge,
        Instr::I32Clz => Instr::I32Clz,
        Instr::I32Ctz => Instr::I32Ctz,
        Instr::I32Popcnt => Instr::I32Popcnt,
        Instr::I32Add => Instr::I32Add,
        Instr::I32Sub => Instr::I32Sub,
        Instr::I32Mul => Instr::I32Mul,
        Instr::I32DivS => Instr::I32DivS,
        Instr::I32DivU => Instr::I32DivU,
        Instr::I32RemS => Instr::I32RemS,
        Instr::I32RemU => Instr::I32RemU,
        Instr::I32And => Instr::I32And,
        Instr::I32Or => Instr::I32Or,
        Instr::I32Xor => Instr::I32Xor,
        Instr::I32Shl => Instr::I32Shl,
        Instr::I32ShrS => Instr::I32ShrS,
        Instr::I32ShrU => Instr::I32ShrU,
        Instr::I32Rotl => Instr::I32Rotl,
        Instr::I32Rotr => Instr::I32Rotr,
        Instr::I64Clz => Instr::I64Clz,
        Instr::I64Ctz => Instr::I64Ctz,
        Instr::I64Popcnt => Instr::I64Popcnt,
        Instr::I64Add => Instr::I64Add,
        Instr::I64Sub => Instr::I64Sub,
        Instr::I64Mul => Instr::I64Mul,
        Instr::I64DivS => Instr::I64DivS,
        Instr::I64DivU => Instr::I64DivU,
        Instr::I64RemS => Instr::I64RemS,
        Instr::I64RemU => Instr::I64RemU,
        Instr::I64And => Instr::I64And,
        Instr::I64Or => Instr::I64Or,
        Instr::I64Xor => Instr::I64Xor,
        Instr::I64Shl => Instr::I64Shl,
        Instr::I64ShrS => Instr::I64ShrS,
        Instr::I64ShrU => Instr::I64ShrU,
        Instr::I64Rotl => Instr::I64Rotl,
        Instr::I64Rotr => Instr::I64Rotr,
        Instr::F32Abs => Instr::F32Abs,
        Instr::F32Neg => Instr::F32Neg,
        Instr::F32Ceil => Instr::F32Ceil,
        Instr::F32Floor => Instr::F32Floor,
        Instr::F32Trunc => Instr::F32Trunc,
        Instr::F32Nearest => Instr::F32Nearest,
        Instr::F32Sqrt => Instr::F32Sqrt,
        Instr::F32Add => Instr::F32Add,
        Instr::F32Sub => Instr::F32Sub,
        Instr::F32Mul => Instr::F32Mul,
        Instr::F32Div => Instr::F32Div,
        Instr::F32Min => Instr::F32Min,
        Instr::F32Max => Instr::F32Max,
        Instr::F32Copysign => Instr::F32Copysign,
        Instr::F64Abs => Instr::F64Abs,
        Instr::F64Neg => Instr::F64Neg,
        Instr::F64Ceil => Instr::F64Ceil,
        Instr::F64Floor => Instr::F64Floor,
        Instr::F64Trunc => Instr::F64Trunc,
        Instr::F64Nearest => Instr::F64Nearest,
        Instr::F64Sqrt => Instr::F64Sqrt,
        Instr::F64Add => Instr::F64Add,
        Instr::F64Sub => Instr::F64Sub,
        Instr::F64Mul => Instr::F64Mul,
        Instr::F64Div => Instr::F64Div,
        Instr::F64Min => Instr::F64Min,
        Instr::F64Max => Instr::F64Max,
        Instr::F64Copysign => Instr::F64Copysign,
        Instr::I32WrapI64 => Instr::I32WrapI64,
        Instr::I32TruncF32S => Instr::I32TruncF32S,
        Instr::I32TruncF32U => Instr::I32TruncF32U,
        Instr::I32TruncF64S => Instr::I32TruncF64S,
        Instr::I32TruncF64U => Instr::I32TruncF64U,
        Instr::I64ExtendI32S => Instr::I64ExtendI32S,
        Instr::I64ExtendI32U => Instr::I64ExtendI32U,
        Instr::I64TruncF32S => Instr::I64TruncF32S,
        Instr::I64TruncF32U => Instr::I64TruncF32U,
        Instr::I64TruncF64S => Instr::I64TruncF64S,
        Instr::I64TruncF64U => Instr::I64TruncF64U,
        Instr::F32ConvertI32S => Instr::F32ConvertI32S,
        Instr::F32ConvertI32U => Instr::F32ConvertI32U,
        Instr::F32ConvertI64S => Instr::F32ConvertI64S,
        Instr::F32ConvertI64U => Instr::F32ConvertI64U,
        Instr::F32DemoteF64 => Instr::F32DemoteF64,
        Instr::F64ConvertI32S => Instr::F64ConvertI32S,
        Instr::F64ConvertI32U => Instr::F64ConvertI32U,
        Instr::F64ConvertI64S => Instr::F64ConvertI64S,
        Instr::F64ConvertI64U => Instr::F64ConvertI64U,
        Instr::F64PromoteF32 => Instr::F64PromoteF32,
        Instr::I32ReinterpretF32 => Instr::I32ReinterpretF32,
        Instr::I64ReinterpretF64 => Instr::I64ReinterpretF64,
        Instr::F32ReinterpretI32 => Instr::F32ReinterpretI32,
        Instr::F64ReinterpretI64 => Instr::F64ReinterpretI64,
        Instr::Br(x) => Instr::Br(*x),
        Instr::BrIf(x) => Instr::BrIf(*x),
        Instr::Call(x) => Instr::Call(*x),
        Instr::CallIndirect(x) => Instr::CallIndirect(*x),
        Instr::LocalGet(x) => Instr::LocalGet(*x),
        Instr::LocalSet(x) => Instr::LocalSet(*x),
        Instr::LocalTee(x) => Instr::LocalTee(*x),
        Instr::GlobalGet(x) => Instr::GlobalGet(*x),
        Instr::GlobalSet(x) => Instr::GlobalSet(*x),
        Instr::I32Load(x) => Instr::I32Load(*x),
        Instr::I64Load(x) => Instr::I64Load(*x),
        Instr::F32Load(x) => Instr::F32Load(*x),
        Instr::F64Load(x) => Instr::F64Load(*x),
        Instr::I32Load8S(x) => Instr::I32Load8S(*x),
        Instr::I32Load8U(x) => Instr::I32Load8U(*x),
        Instr::I32Load16S(x) => Instr::I32Load16S(*x),
        Instr::I32Load16U(x) => Instr::I32Load16U(*x),
        Instr::I64Load8S(x) => Instr::I64Load8S(*x),
        Instr::I64Load8U(x) => Instr::I64Load8U(*x),
        Instr::I64Load16S(x) => Instr::I64Load16S(*x),
        Instr::I64Load16U(x) => Instr::I64Load16U(*x),
        Instr::I64Load32S(x) => Instr::I64Load32S(*x),
        Instr::I64Load32U(x) => Instr::I64Load32U(*x),
        Instr::I32Store(x) => Instr::I32Store(*x),
        Instr::I64Store(x) => Instr::I64Store(*x),
        Instr::F32Store(x) => Instr::F32Store(*x),
        Instr::F64Store(x) => Instr::F64Store(*x),
        Instr::I32Store8(x) => Instr::I32Store8(*x),
        Instr::I32Store16(x) => Instr::I32Store16(*x),
        Instr::I64Store8(x) => Instr::I64Store8(*x),
        Instr::I64Store16(x) => Instr::I64Store16(*x),
        Instr::I64Store32(x) => Instr::I64Store32(*x),
        Instr::I32Const(x) => Instr::I32Const(*x),
        Instr::I64Const(x) => Instr::I64Const(*x),
        Instr::F32Const(x) => Instr::F32Const(*x),
        Instr::F64Const(x) => Instr::F64Const(*x),
        Instr::SignExtension(x) => Instr::SignExtension(*x),
    }
}

/// A copy of each instruction of `v`.
pub fn clone_instrs(v: &Vec<Instr>) -> (r: Vec<Instr>)
    ensures
        views(r@) == views(v@),
    decreases *v, 1nat,
{
    let mut out: Vec<Instr> = Vec::new();
    let mut k: usize = 0;
    while k < v.len()
        invariant
            k <= v@.len(),
            out@.len() == k,
            forall|j: int| 0 <= j < k ==> out@[j]@ == v@[j]@,
        decreases v@.len() - k,
    {
        proof {
            assert(decreases_to!(*v => v@[k as int]));
        }
        let c = clone_instr(&v[k]);
        out.push(c);
        k = k + 1;
    }
    proof {
        assert(views(out@) =~= views(v@));
    }
    out
}

/// A copy of a sequence of labels.
fn copy_labels(v: &Vec<Labelidx>) -> (r: Vec<Labelidx>)
    ensures
        r@ == v@,
{
    let mut out: Vec<Labelidx> = Vec::new();
    let mut k: usize = 0;
    while k < v.len()
        invariant
            k <= v@.len(),
            out@ == v@.take(k as int),
        decreases v@.len() - k,
    {
        proof {
            assert(v@.take(k + 1) =~= v@.take(k as int).push(v@[k as int]));
        }
        out.push(v[k]);
        k = k + 1;
    }
    proof {
        assert(v@.take(v@.len() as int) =~= v@);
    }
    out
}

impl Clone for Instr {
    fn clone(&self) -> (r: Self)
        ensures
            r@ == self@,
    {
        clone_instr(self)
    }
}

impl Clone for BrTableInstr {
    fn clone(&self) -> (r: Self)
        ensures
            r.labels@ == self.labels@,
    {
        BrTableInstr { labels: copy_labels(&self.labels) }
    }
}

impl Clone for BlockInstr {
    fn clone(&self) -> (r: Self)
        ensures
            r.blocktype == self.blocktype,
            views(r.instrs@) == views(self.instrs@),
    {
        BlockInstr { blocktype: self.blocktype, instrs: clone_instrs(&self.instrs) }
    }
}

impl Clone for LoopInstr {
    fn clone(&self) -> (r: Self)
        ensures
            r.blocktype == self.blocktype,
            views(r.instrs@) == views(self.instrs@),
    {
        LoopInstr { blocktype: self.blocktype, instrs: clone_instrs(&self.instrs) }
    }
}

impl Clone for IfInstr {
    fn clone(&self) -> (r: Self)
        ensures
            r.blocktype == self.blocktype,
            views(r.then_instrs@) == views(self.then_instrs@),
            views(r.else_instrs@) == views(self.else_instrs@),
    {
        IfInstr {
            blocktype: self.blocktype,
            then_instrs: clone_instrs(&self.then_instrs),
            else_instrs: clone_instrs(&self.else_instrs),
        }
    }
}

} // verus!
