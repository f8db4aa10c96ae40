//! The parts of a module: types, indices, and their binary encodings.
use crate::decode::{
    decoded,
    decode_vector, lemma_vector_progress, spec_utf8_error, spec_vector, str_from_utf8, views, Decode,
    DecodeError,
};
use crate::reader::{Reader, SpecRes, spec_unsigned, lemma_unsigned_bound};
use crate::execute::{ExecuteError, GlobalVal, Val};
use crate::module::Module;
use crate::instructions::{
    decode_instrs, lemma_instr_progress, spec_instrs, Instr, SpecInstr,
};
use crate::PAGE_SIZE;
use vstd::arithmetic::power2::*;
use vstd::prelude::*;
use vstd::string::*;
use vstd::utf8::*;

verus! {

/// The byte at `pos`.
pub open spec fn spec_byte(data: Seq<u8>, pos: int) -> SpecRes<u8> {
    if 0 <= pos < data.len() {
        Ok((data[pos], pos + 1))
    } else {
        Err(DecodeError::UnexpectedEndOfBytes)
    }
}

/// A `u32` in unsigned LEB128.
pub open spec fn spec_u32(data: Seq<u8>, pos: int) -> SpecRes<u32> {
    match spec_unsigned(data, pos, 32) {
        Ok((v, p)) => Ok((v as u32, p)),
        Err(e) => Err(e),
    }
}

pub proof fn lemma_u32_progress(data: Seq<u8>, pos: int)
    ensures
        spec_u32(data, pos) matches Ok((v, p)) ==> pos < p <= data.len() && spec_unsigned(
            data,
            pos,
            32,
        ) == Ok::<(nat, int), DecodeError>((v as nat, p)),
{
    lemma_unsigned_bound(data, pos, 32);
    lemma2_to64();
}

/// The type of a value: a 32- or 64-bit integer or floating-point number.
#[derive(Debug, Clone, Copy, PartialEq, Eq, Hash, Structural)]
pub enum Valtype {
    I32,
    I64,
    F32,
    F64,
}

impl View for Valtype {
    type V = Valtype;

    open spec fn view(&self) -> Valtype {
        *self
    }
}

impl Decode for Valtype {
    /// 0x7f, 0x7e, 0x7d and 0x7c stand for `i32`, `i64`, `f32` and `f64`.
    open spec fn spec_decode(data: Seq<u8>, pos: int) -> SpecRes<Valtype> {
        match spec_byte(data, pos) {
            Ok((b, p)) => if b == 0x7f {
                Ok((Valtype::I32, p))
            } else if b == 0x7e {
                Ok((Valtype::I64, p))
            } else if b == 0x7d {
                Ok((Valtype::F32, p))
            } else if b == 0x7c {
                Ok((Valtype::F64, p))
            } else {
                Err(DecodeError::InvalidValType { value: b })
            },
            Err(e) => Err(e),
        }
    }

    proof fn lemma_decode_progress(data: Seq<u8>, pos: int) {
    }

    fn decode(reader: &mut Reader) -> (res: Result<Self, DecodeError>) {
        let b = reader.read_u8()?;
        if b == 0x7f {
            Ok(Valtype::I32)
        } else if b == 0x7e {
            Ok(Valtype::I64)
        } else if b == 0x7d {
            Ok(Valtype::F32)
        } else if b == 0x7c {
            Ok(Valtype::F64)
        } else {
            Err(DecodeError::InvalidValType { value: b })
        }
    }
}

} // verus!

verus! {

/// An index into the type section.
#[derive(Debug, Clone, Copy, PartialEq, Eq, Structural)]
pub struct Typeidx(pub u32);

impl View for Typeidx {
    type V = Typeidx;

    open spec fn view(&self) -> Typeidx {
        *self
    }
}

impl Typeidx {
    /// The index as a `usize`.
    pub fn get(self) -> (r: usize)
        ensures
            r == self.0,
    {
        self.0 as usize
    }
}

impl Decode for Typeidx {
    /// A `u32` in unsigned LEB128.
    open spec fn spec_decode(data: Seq<u8>, pos: int) -> SpecRes<Typeidx> {
        match spec_u32(data, pos) {
            Ok((v, p)) => Ok((Typeidx(v), p)),
            Err(e) => Err(e),
        }
    }

    proof fn lemma_decode_progress(data: Seq<u8>, pos: int) {
        lemma_u32_progress(data, pos);
    }

    fn decode(reader: &mut Reader) -> (res: Result<Self, DecodeError>) {
        let v = reader.read_u32()?;
        Ok(Typeidx(v))
    }
}

/// An index into the function index space (imported functions first).
#[derive(Debug, Clone, Copy, PartialEq, Eq, Structural)]
pub struct Funcidx(pub u32);

impl View for Funcidx {
    type V = Funcidx;

    open spec fn view(&self) -> Funcidx {
        *self
    }
}

impl Funcidx {
    /// The index as a `usize`.
    pub fn get(self) -> (r: usize)
        ensures
            r == self.0,
    {
        self.0 as usize
    }
}

impl Decode for Funcidx {
    /// A `u32` in unsigned LEB128.
    open spec fn spec_decode(data: Seq<u8>, pos: int) -> SpecRes<Funcidx> {
        match spec_u32(data, pos) {
            Ok((v, p)) => Ok((Funcidx(v), p)),
            Err(e) => Err(e),
        }
    }

    proof fn lemma_decode_progress(data: Seq<u8>, pos: int) {
        lemma_u32_progress(data, pos);
    }

    fn decode(reader: &mut Reader) -> (res: Result<Self, DecodeError>) {
        let v = reader.read_u32()?;
        Ok(Funcidx(v))
    }
}

/// An index into the global index space (imported globals first).
#[derive(Debug, Clone, Copy, PartialEq, Eq, Structural)]
pub struct Globalidx(pub u32);

impl View for Globalidx {
    type V = Globalidx;

    open spec fn view(&self) -> Globalidx {
        *self
    }
}

impl Globalidx {
    /// The index as a `usize`.
    pub fn get(self) -> (r: usize)
        ensures
            r == self.0,
    {
        self.0 as usize
    }
}

impl Decode for Globalidx {
    /// A `u32` in unsigned LEB128.
    open spec fn spec_decode(data: Seq<u8>, pos: int) -> SpecRes<Globalidx> {
        match spec_u32(data, pos) {
            Ok((v, p)) => Ok((Globalidx(v), p)),
            Err(e) => Err(e),
        }
    }

    proof fn lemma_decode_progress(data: Seq<u8>, pos: int) {
        lemma_u32_progress(data, pos);
    }

    fn decode(reader: &mut Reader) -> (res: Result<Self, DecodeError>) {
        let v = reader.read_u32()?;
        Ok(Globalidx(v))
    }
}

/// An index into the locals of the current function (parameters first).
#[derive(Debug, Clone, Copy, PartialEq, Eq, Structural)]
pub struct Localidx(pub u32);

impl View for Localidx {
    type V = Localidx;

    open spec fn view(&self) -> Localidx {
        *self
    }
}

impl Localidx {
    /// The index as a `usize`.
    pub fn get(self) -> (r: usize)
        ensures
            r == self.0,
    {
        self.0 as usize
    }
}

impl Decode for Localidx {
    /// A `u32` in unsigned LEB128.
    open spec fn spec_decode(data: Seq<u8>, pos: int) -> SpecRes<Localidx> {
        match spec_u32(data, pos) {
            Ok((v, p)) => Ok((Localidx(v), p)),
            Err(e) => Err(e),
        }
    }

    proof fn lemma_decode_progress(data: Seq<u8>, pos: int) {
        lemma_u32_progress(data, pos);
    }

    fn decode(reader: &mut Reader) -> (res: Result<Self, DecodeError>) {
        let v = reader.read_u32()?;
        Ok(Localidx(v))
    }
}

/// A relative label: 0 is the innermost enclosing block.
#[derive(Debug, Clone, Copy, PartialEq, Eq, Structural)]
pub struct Labelidx(pub u32);

impl View for Labelidx {
    type V = Labelidx;

    open spec fn view(&self) -> Labelidx {
        *self
    }
}

impl Labelidx {
    /// The label with the given depth.
    pub fn new(v: u32) -> (r: Self)
        ensures
            r.0 == v,
    {
        Labelidx(v)
    }

    /// The index as a `usize`.
    pub fn get(self) -> (r: usize)
        ensures
            r == self.0,
    {
        self.0 as usize
    }
}

impl Decode for Labelidx {
    /// A `u32` in unsigned LEB128.
    open spec fn spec_decode(data: Seq<u8>, pos: int) -> SpecRes<Labelidx> {
        match spec_u32(data, pos) {
            Ok((v, p)) => Ok((Labelidx(v), p)),
            Err(e) => Err(e),
        }
    }

    proof fn lemma_decode_progress(data: Seq<u8>, pos: int) {
        lemma_u32_progress(data, pos);
    }

    fn decode(reader: &mut Reader) -> (res: Result<Self, DecodeError>) {
        let v = reader.read_u32()?;
        Ok(Labelidx(v))
    }
}

/// The index of the (single) table.
#[derive(Debug, Clone, Copy, PartialEq, Eq, Structural)]
pub struct Tableidx;

impl View for Tableidx {
    type V = Tableidx;

    open spec fn view(&self) -> Tableidx {
        *self
    }
}

impl Decode for Tableidx {
    /// A `u32` in unsigned LEB128 that must be 0, the only one in WebAssembly 1.0.
    open spec fn spec_decode(data: Seq<u8>, pos: int) -> SpecRes<Tableidx> {
        match spec_u32(data, pos) {
            Ok((v, p)) => if v == 0 {
                Ok((Tableidx, p))
            } else {
                Err(DecodeError::InvalidTableIdx { value: v })
            },
            Err(e) => Err(e),
        }
    }

    proof fn lemma_decode_progress(data: Seq<u8>, pos: int) {
        lemma_u32_progress(data, pos);
    }

    fn decode(reader: &mut Reader) -> (res: Result<Self, DecodeError>) {
        let i = reader.read_u32()?;
        if i != 0 {
            return Err(DecodeError::InvalidTableIdx { value: i });
        }
        Ok(Tableidx)
    }
}

/// The index of the (single) memory.
#[derive(Debug, Clone, Copy, PartialEq, Eq, Structural)]
pub struct Memidx;

impl View for Memidx {
    type V = Memidx;

    open spec fn view(&self) -> Memidx {
        *self
    }
}

impl Decode for Memidx {
    /// A `u32` in unsigned LEB128 that must be 0, the only one in WebAssembly 1.0.
    open spec fn spec_decode(data: Seq<u8>, pos: int) -> SpecRes<Memidx> {
        match spec_u32(data, pos) {
            Ok((v, p)) => if v == 0 {
                Ok((Memidx, p))
            } else {
                Err(DecodeError::InvalidMemIdx { value: v })
            },
            Err(e) => Err(e),
        }
    }

    proof fn lemma_decode_progress(data: Seq<u8>, pos: int) {
        lemma_u32_progress(data, pos);
    }

    fn decode(reader: &mut Reader) -> (res: Result<Self, DecodeError>) {
        let i = reader.read_u32()?;
        if i != 0 {
            return Err(DecodeError::InvalidMemIdx { value: i });
        }
        Ok(Memidx)
    }
}

/// The type of table elements: function references (encoded 0x70).
#[derive(Debug, Clone, Copy, PartialEq, Eq, Structural)]
pub struct Elemtype;

impl View for Elemtype {
    type V = Elemtype;

    open spec fn view(&self) -> Elemtype {
        *self
    }
}

impl Decode for Elemtype {
    open spec fn spec_decode(data: Seq<u8>, pos: int) -> SpecRes<Elemtype> {
        match spec_byte(data, pos) {
            Ok((b, p)) => if b == 0x70 {
                Ok((Elemtype, p))
            } else {
                Err(DecodeError::InvalidElemType { value: b })
            },
            Err(e) => Err(e),
        }
    }

    proof fn lemma_decode_progress(data: Seq<u8>, pos: int) {
    }

    fn decode(reader: &mut Reader) -> (res: Result<Self, DecodeError>) {
        let elem_type = reader.read_u8()?;
        if elem_type != 0x70 {
            return Err(DecodeError::InvalidElemType { value: elem_type });
        }
        Ok(Elemtype)
    }
}

/// The size range of a memory (in pages) or a table (in elements).
#[derive(Debug, Clone, Copy, PartialEq, Eq, Structural)]
pub struct Limits {
    pub min: u32,
    pub max: Option<u32>,
}

impl View for Limits {
    type V = Limits;

    open spec fn view(&self) -> Limits {
        *self
    }
}

impl Limits {
    /// Reads size limits: flag 0x00 then the minimum, or flag 0x01 then the
    /// minimum and the maximum.
    pub fn decode(reader: &mut Reader) -> (res: Result<Self, DecodeError>)
        requires
            old(reader).wf(),
        ensures
            final(reader).wf(),
            final(reader).bytes() == old(reader).bytes(),
            decoded(<Limits as Decode>::spec_decode(old(reader).bytes(), old(reader).pos()), res, final(reader).pos()),
    {
        let flag = reader.read_u8()?;
        if flag == 0x00 {
            let min = reader.read_u32()?;
            Ok(Limits { min, max: None })
        } else if flag == 0x01 {
            let min = reader.read_u32()?;
            let max = reader.read_u32()?;
            Ok(Limits { min, max: Some(max) })
        } else {
            Err(DecodeError::InvalidLimitsFlag { value: flag })
        }
    }
}

impl Decode for Limits {
    /// Flag 0x00 then `min`, or flag 0x01 then `min` and `max`.
    open spec fn spec_decode(data: Seq<u8>, pos: int) -> SpecRes<Limits> {
        match spec_byte(data, pos) {
            Ok((flag, p)) => if flag == 0x00 {
                match spec_u32(data, p) {
                    Ok((min, q)) => Ok((Limits { min, max: None }, q)),
                    Err(e) => Err(e),
                }
            } else if flag == 0x01 {
                match spec_u32(data, p) {
                    Ok((min, q)) => match spec_u32(data, q) {
                        Ok((max, r)) => Ok((Limits { min, max: Some(max) }, r)),
                        Err(e) => Err(e),
                    },
                    Err(e) => Err(e),
                }
            } else {
                Err(DecodeError::InvalidLimitsFlag { value: flag })
            },
            Err(e) => Err(e),
        }
    }

    proof fn lemma_decode_progress(data: Seq<u8>, pos: int) {
        lemma_u32_progress(data, pos + 1);
        if let Ok((_, q)) = spec_u32(data, pos + 1) {
            lemma_u32_progress(data, q);
        }
    }

    fn decode(reader: &mut Reader) -> (res: Result<Self, DecodeError>) {
        Limits::decode(reader)
    }
}

/// The type of a table: its element type and size limits.
#[derive(Debug, Clone, Copy, PartialEq, Eq, Structural)]
pub struct Tabletype {
    pub elemtype: Elemtype,
    pub limits: Limits,
}

impl View for Tabletype {
    type V = Tabletype;

    open spec fn view(&self) -> Tabletype {
        *self
    }
}

impl Decode for Tabletype {
    open spec fn spec_decode(data: Seq<u8>, pos: int) -> SpecRes<Tabletype> {
        match Elemtype::spec_decode(data, pos) {
            Ok((elemtype, p)) => match Limits::spec_decode(data, p) {
                Ok((limits, q)) => Ok((Tabletype { elemtype, limits }, q)),
                Err(e) => Err(e),
            },
            Err(e) => Err(e),
        }
    }

    proof fn lemma_decode_progress(data: Seq<u8>, pos: int) {
        Limits::lemma_decode_progress(data, pos + 1);
    }

    fn decode(reader: &mut Reader) -> (res: Result<Self, DecodeError>) {
        let elemtype = Elemtype::decode(reader)?;
        let limits = Limits::decode(reader)?;
        Ok(Tabletype { elemtype, limits })
    }
}

/// The type of a memory: its size limits in pages.
#[derive(Debug, Clone, Copy, PartialEq, Eq, Structural)]
pub struct Memtype {
    pub limits: Limits,
}

impl View for Memtype {
    type V = Memtype;

    open spec fn view(&self) -> Memtype {
        *self
    }
}

impl Memtype {
    /// The memory's minimum size in bytes fits in a `usize`.
    pub open spec fn min_fits(self) -> bool {
        self.limits.min * PAGE_SIZE <= usize::MAX
    }

    /// The memory's maximum size in bytes, if any, fits in a `usize`.
    pub open spec fn max_fits(self) -> bool {
        self.limits.max matches Some(m) ==> m * PAGE_SIZE <= usize::MAX
    }

    /// Whether a memory of `bytes` bytes lies within the limits.
    pub open spec fn spec_contains(self, bytes: int) -> bool {
        &&& self.limits.min * PAGE_SIZE <= bytes
        &&& self.limits.max matches Some(m) ==> bytes <= m * PAGE_SIZE
    }

    /// The minimum size in bytes.
    pub fn min_bytes(self) -> (r: usize)
        requires
            self.min_fits(),
        ensures
            r == self.limits.min * PAGE_SIZE,
    {
        self.limits.min as usize * PAGE_SIZE
    }

    /// The maximum size in bytes, if there is a maximum.
    pub fn max_bytes(self) -> (r: Option<usize>)
        requires
            self.max_fits(),
        ensures
            r == match self.limits.max {
                Some(m) => Some((m * PAGE_SIZE) as usize),
                None => None::<usize>,
            },
    {
        match self.limits.max {
            Some(max) => Some(max as usize * PAGE_SIZE),
            None => None,
        }
    }

    /// Whether a memory of `bytes` bytes lies within the limits.
    pub fn contains(self, bytes: usize) -> (b: bool)
        requires
            self.min_fits(),
            self.max_fits(),
        ensures
            b == self.spec_contains(bytes as int),
    {
        if let Some(max) = self.max_bytes() {
            self.min_bytes() <= bytes && bytes <= max
        } else {
            self.min_bytes() <= bytes
        }
    }
}

impl Decode for Memtype {
    open spec fn spec_decode(data: Seq<u8>, pos: int) -> SpecRes<Memtype> {
        match Limits::spec_decode(data, pos) {
            Ok((limits, p)) => Ok((Memtype { limits }, p)),
            Err(e) => Err(e),
        }
    }

    proof fn lemma_decode_progress(data: Seq<u8>, pos: int) {
        Limits::lemma_decode_progress(data, pos);
    }

    fn decode(reader: &mut Reader) -> (res: Result<Self, DecodeError>) {
        let limits = Limits::decode(reader)?;
        Ok(Memtype { limits })
    }
}

/// The type of a global: its value type and whether it may change.
#[derive(Debug, Clone, Copy, PartialEq, Eq, Structural)]
pub enum Globaltype {
    Const(Valtype),
    Var(Valtype),
}

impl View for Globaltype {
    type V = Globaltype;

    open spec fn view(&self) -> Globaltype {
        *self
    }
}

impl Globaltype {
    pub open spec fn spec_val_type(self) -> Valtype {
        match self {
            Globaltype::Const(t) => t,
            Globaltype::Var(t) => t,
        }
    }

    /// The type of the global's value.
    pub fn val_type(self) -> (t: Valtype)
        ensures
            t == self.spec_val_type(),
    {
        match self {
            Globaltype::Const(t) => t,
            Globaltype::Var(t) => t,
        }
    }

    /// Whether the global may not be set.
    pub fn is_const(self) -> (b: bool)
        ensures
            b == (self is Const),
    {
        match self {
            Globaltype::Const(_) => true,
            Globaltype::Var(_) => false,
        }
    }
}

impl Decode for Globaltype {
    /// A value type, then the mutability flag: 0x00 constant, 0x01 variable.
    open spec fn spec_decode(data: Seq<u8>, pos: int) -> SpecRes<Globaltype> {
        match Valtype::spec_decode(data, pos) {
            Ok((t, p)) => match spec_byte(data, p) {
                Ok((flag, q)) => if flag == 0x00 {
                    Ok((Globaltype::Const(t), q))
                } else if flag == 0x01 {
                    Ok((Globaltype::Var(t), q))
                } else {
                    Err(DecodeError::InvalidMutabilityFlag { value: flag })
                },
                Err(e) => Err(e),
            },
            Err(e) => Err(e),
        }
    }

    proof fn lemma_decode_progress(data: Seq<u8>, pos: int) {
    }

    fn decode(reader: &mut Reader) -> (res: Result<Self, DecodeError>) {
        let t = Valtype::decode(reader)?;
        let flag = reader.read_u8()?;
        if flag == 0x00 {
            Ok(Globaltype::Const(t))
        } else if flag == 0x01 {
            Ok(Globaltype::Var(t))
        } else {
            Err(DecodeError::InvalidMutabilityFlag { value: flag })
        }
    }
}

/// The result type of a block: nothing, or one value.
#[derive(Debug, Clone, Copy, PartialEq, Eq, Structural)]
pub enum Blocktype {
    Empty,
    Val(Valtype),
}

impl View for Blocktype {
    type V = Blocktype;

    open spec fn view(&self) -> Blocktype {
        *self
    }
}

impl Blocktype {
    pub open spec fn spec_arity(self) -> nat {
        match self {
            Blocktype::Empty => 0,
            Blocktype::Val(_) => 1,
        }
    }

    /// The number of values that the block leaves.
    pub fn arity(self) -> (r: usize)
        ensures
            r == self.spec_arity(),
    {
        match self {
            Blocktype::Empty => 0,
            Blocktype::Val(_) => 1,
        }
    }
}

impl Decode for Blocktype {
    /// 0x40 for no result, else a value type.
    open spec fn spec_decode(data: Seq<u8>, pos: int) -> SpecRes<Blocktype> {
        match spec_byte(data, pos) {
            Ok((b, p)) => if b == 0x40 {
                Ok((Blocktype::Empty, p))
            } else {
                match Valtype::spec_decode(data, pos) {
                    Ok((t, q)) => Ok((Blocktype::Val(t), q)),
                    Err(e) => Err(e),
                }
            },
            Err(e) => Err(e),
        }
    }

    proof fn lemma_decode_progress(data: Seq<u8>, pos: int) {
    }

    fn decode(reader: &mut Reader) -> (res: Result<Self, DecodeError>) {
        if reader.read_u8()? == 0x40 {
            return Ok(Blocktype::Empty);
        }
        reader.unread_u8();
        let t = Valtype::decode(reader)?;
        Ok(Blocktype::Val(t))
    }
}

/// The alignment exponent and static offset of a memory access.
#[derive(Debug, Clone, Copy, PartialEq, Eq, Structural)]
pub struct Memarg {
    pub align: u32,
    pub offset: u32,
}

impl View for Memarg {
    type V = Memarg;

    open spec fn view(&self) -> Memarg {
        *self
    }
}

impl Decode for Memarg {
    open spec fn spec_decode(data: Seq<u8>, pos: int) -> SpecRes<Memarg> {
        match spec_u32(data, pos) {
            Ok((align, p)) => match spec_u32(data, p) {
                Ok((offset, q)) => Ok((Memarg { align, offset }, q)),
                Err(e) => Err(e),
            },
            Err(e) => Err(e),
        }
    }

    proof fn lemma_decode_progress(data: Seq<u8>, pos: int) {
        lemma_u32_progress(data, pos);
        if let Ok((_, p)) = spec_u32(data, pos) {
            lemma_u32_progress(data, p);
        }
    }

    fn decode(reader: &mut Reader) -> (res: Result<Self, DecodeError>) {
        let align = reader.read_u32()?;
        let offset = reader.read_u32()?;
        Ok(Memarg { align, offset })
    }
}

/// The result of a function: no value or one value (WebAssembly 1.0).
#[derive(Debug, Clone, Copy, PartialEq, Eq, Structural)]
pub struct Resulttype(pub Option<Valtype>);

impl View for Resulttype {
    type V = Resulttype;

    open spec fn view(&self) -> Resulttype {
        *self
    }
}

impl Resulttype {
    pub open spec fn spec_len(self) -> nat {
        if self.0 is Some {
            1
        } else {
            0
        }
    }

    /// The number of result values.
    pub fn len(self) -> (r: usize)
        ensures
            r == self.spec_len(),
    {
        if self.0.is_some() {
            1
        } else {
            0
        }
    }

    /// The type of the result value, if any.
    pub fn get(self) -> (r: Option<Valtype>)
        ensures
            r == self.0,
    {
        self.0
    }
}

impl Decode for Resulttype {
    /// A vector of at most one value type.
    open spec fn spec_decode(data: Seq<u8>, pos: int) -> SpecRes<Resulttype> {
        match spec_u32(data, pos) {
            Ok((n, p)) => if n == 0 {
                Ok((Resulttype(None), p))
            } else if n == 1 {
                match Valtype::spec_decode(data, p) {
                    Ok((t, q)) => Ok((Resulttype(Some(t)), q)),
                    Err(e) => Err(e),
                }
            } else {
                Err(DecodeError::InvalidResultArity { value: n as usize })
            },
            Err(e) => Err(e),
        }
    }

    proof fn lemma_decode_progress(data: Seq<u8>, pos: int) {
        lemma_u32_progress(data, pos);
    }

    fn decode(reader: &mut Reader) -> (res: Result<Self, DecodeError>) {
        proof {
            lemma_u32_progress(reader.bytes(), reader.pos());
        }
        let size = reader.read_usize()?;
        if size == 0 {
            Ok(Resulttype(None))
        } else if size == 1 {
            let t = Valtype::decode(reader)?;
            Ok(Resulttype(Some(t)))
        } else {
            Err(DecodeError::InvalidResultArity { value: size })
        }
    }
}

} // verus!

verus! {

/// A name: a vector of bytes that is valid UTF-8.
#[derive(Debug)]
pub struct Name(Vec<u8>);

impl View for Name {
    type V = Seq<u8>;

    closed spec fn view(&self) -> Seq<u8> {
        self.0@
    }
}

impl Name {
    #[verifier::type_invariant]
    spec fn inv(self) -> bool {
        valid_utf8(self.0@)
    }

    /// The name as a string.
    pub fn as_str(&self) -> (s: &str)
        ensures
            s.spec_bytes() == self@,
    {
        proof {
            use_type_invariant(self);
        }
        match str_from_utf8(self.0.as_slice()) {
            Ok(s) => s,
            Err(_) => {
                proof {
                    assert(false);
                }
                ""
            },
        }
    }

    /// The length of the name in bytes.
    pub fn len(&self) -> (r: usize)
        ensures
            r == self@.len(),
    {
        self.0.len()
    }

    /// Whether the name's bytes are those of `s`.
    pub fn eq_str(&self, s: &str) -> (b: bool)
        ensures
            b == (self@ == s.spec_bytes()),
    {
        let bytes = s.as_bytes();
        if self.0.len() != bytes.len() {
            return false;
        }
        let mut i: usize = 0;
        while i < bytes.len()
            invariant
                i <= bytes@.len(),
                self.0@.len() == bytes@.len(),
                bytes@ == s.spec_bytes(),
                forall|k: int| 0 <= k < i ==> self.0@[k] == bytes@[k],
            decreases bytes@.len() - i,
        {
            if self.0[i] != bytes[i] {
                return false;
            }
            i = i + 1;
        }
        proof {
            assert(self.0@ =~= bytes@);
        }
        true
    }
}

impl Clone for Name {
    fn clone(&self) -> (r: Self)
        ensures
            r@ == self@,
    {
        proof {
            use_type_invariant(self);
        }
        Name(self.0.clone())
    }
}

impl Name {
    /// Reads a name: a vector of bytes that must be valid UTF-8.
    pub fn decode(reader: &mut Reader) -> (res: Result<Self, DecodeError>)
        requires
            old(reader).wf(),
        ensures
            final(reader).wf(),
            final(reader).bytes() == old(reader).bytes(),
            decoded(<Name as Decode>::spec_decode(old(reader).bytes(), old(reader).pos()), res, final(reader).pos()),
    {
        let bytes: Vec<u8> = decode_vector(reader)?;
        proof {
            assert(views(bytes@) =~= bytes@);
        }
        match str_from_utf8(bytes.as_slice()) {
            Ok(_) => Ok(Name(bytes)),
            Err(e) => Err(DecodeError::InvalidUtf8(e)),
        }
    }
}

impl Decode for Name {
    /// A vector of bytes, which must be valid UTF-8.
    open spec fn spec_decode(data: Seq<u8>, pos: int) -> SpecRes<Seq<u8>> {
        match spec_vector::<u8>(data, pos) {
            Ok((b, p)) => if valid_utf8(b) {
                Ok((b, p))
            } else {
                Err(DecodeError::InvalidUtf8(spec_utf8_error(b)))
            },
            Err(e) => Err(e),
        }
    }

    proof fn lemma_decode_progress(data: Seq<u8>, pos: int) {
        lemma_vector_progress::<u8>(data, pos);
    }

    fn decode(reader: &mut Reader) -> (res: Result<Self, DecodeError>) {
        Name::decode(reader)
    }
}

/// What an import brings in: a function of a given type, a table, a memory
/// or a global.
#[derive(Debug, Clone, Copy, PartialEq, Eq, Structural)]
pub enum Importdesc {
    Func(Typeidx),
    Table(Tabletype),
    Mem(Memtype),
    Global(Globaltype),
}

impl View for Importdesc {
    type V = Importdesc;

    open spec fn view(&self) -> Importdesc {
        *self
    }
}

impl Decode for Importdesc {
    /// Tag 0x00 to 0x03, then the type of the imported item.
    open spec fn spec_decode(data: Seq<u8>, pos: int) -> SpecRes<Importdesc> {
        match spec_byte(data, pos) {
            Ok((tag, p)) => if tag == 0x00 {
                match Typeidx::spec_decode(data, p) {
                    Ok((x, q)) => Ok((Importdesc::Func(x), q)),
                    Err(e) => Err(e),
                }
            } else if tag == 0x01 {
                match Tabletype::spec_decode(data, p) {
                    Ok((x, q)) => Ok((Importdesc::Table(x), q)),
                    Err(e) => Err(e),
                }
            } else if tag == 0x02 {
                match Memtype::spec_decode(data, p) {
                    Ok((x, q)) => Ok((Importdesc::Mem(x), q)),
                    Err(e) => Err(e),
                }
            } else if tag == 0x03 {
                match Globaltype::spec_decode(data, p) {
                    Ok((x, q)) => Ok((Importdesc::Global(x), q)),
                    Err(e) => Err(e),
                }
            } else {
                Err(DecodeError::InvalidImportDescTag { value: tag })
            },
            Err(e) => Err(e),
        }
    }

    proof fn lemma_decode_progress(data: Seq<u8>, pos: int) {
        Typeidx::lemma_decode_progress(data, pos + 1);
        Tabletype::lemma_decode_progress(data, pos + 1);
        Memtype::lemma_decode_progress(data, pos + 1);
        Globaltype::lemma_decode_progress(data, pos + 1);
    }

    fn decode(reader: &mut Reader) -> (res: Result<Self, DecodeError>) {
        let tag = reader.read_u8()?;
        if tag == 0x00 {
            Ok(Importdesc::Func(Typeidx::decode(reader)?))
        } else if tag == 0x01 {
            Ok(Importdesc::Table(Tabletype::decode(reader)?))
        } else if tag == 0x02 {
            Ok(Importdesc::Mem(Memtype::decode(reader)?))
        } else if tag == 0x03 {
            Ok(Importdesc::Global(Globaltype::decode(reader)?))
        } else {
            Err(DecodeError::InvalidImportDescTag { value: tag })
        }
    }
}

/// What an export makes visible: a function, the table, the memory or a
/// global, by index.
#[derive(Debug, Clone, Copy, PartialEq, Eq, Structural)]
pub enum Exportdesc {
    Func(Funcidx),
    Table(Tableidx),
    Mem(Memidx),
    Global(Globalidx),
}

impl View for Exportdesc {
    type V = Exportdesc;

    open spec fn view(&self) -> Exportdesc {
        *self
    }
}

impl Decode for Exportdesc {
    /// Tag 0x00 to 0x03, then the index of the exported item.
    open spec fn spec_decode(data: Seq<u8>, pos: int) -> SpecRes<Exportdesc> {
        match spec_byte(data, pos) {
            Ok((tag, p)) => if tag == 0x00 {
                match Funcidx::spec_decode(data, p) {
                    Ok((x, q)) => Ok((Exportdesc::Func(x), q)),
                    Err(e) => Err(e),
                }
            } else if tag == 0x01 {
                match Tableidx::spec_decode(data, p) {
                    Ok((x, q)) => Ok((Exportdesc::Table(x), q)),
                    Err(e) => Err(e),
                }
            } else if tag == 0x02 {
                match Memidx::spec_decode(data, p) {
                    Ok((x, q)) => Ok((Exportdesc::Mem(x), q)),
                    Err(e) => Err(e),
                }
            } else if tag == 0x03 {
                match Globalidx::spec_decode(data, p) {
                    Ok((x, q)) => Ok((Exportdesc::Global(x), q)),
                    Err(e) => Err(e),
                }
            } else {
                Err(DecodeError::InvalidExportDescTag { value: tag })
            },
            Err(e) => Err(e),
        }
    }

    proof fn lemma_decode_progress(data: Seq<u8>, pos: int) {
        Funcidx::lemma_decode_progress(data, pos + 1);
        Tableidx::lemma_decode_progress(data, pos + 1);
        Memidx::lemma_decode_progress(data, pos + 1);
        Globalidx::lemma_decode_progress(data, pos + 1);
    }

    fn decode(reader: &mut Reader) -> (res: Result<Self, DecodeError>) {
        let tag = reader.read_u8()?;
        if tag == 0x00 {
            Ok(Exportdesc::Func(Funcidx::decode(reader)?))
        } else if tag == 0x01 {
            Ok(Exportdesc::Table(Tableidx::decode(reader)?))
        } else if tag == 0x02 {
            Ok(Exportdesc::Mem(Memidx::decode(reader)?))
        } else if tag == 0x03 {
            Ok(Exportdesc::Global(Globalidx::decode(reader)?))
        } else {
            Err(DecodeError::InvalidExportDescTag { value: tag })
        }
    }
}

/// The abstract content of an import.
pub struct SpecImport {
    pub module: Seq<u8>,
    pub name: Seq<u8>,
    pub desc: Importdesc,
}

/// An import: a module name, an item name, and what is imported.
#[derive(Debug, Clone)]
pub struct Import {
    pub module: Name,
    pub name: Name,
    pub desc: Importdesc,
}

impl View for Import {
    type V = SpecImport;

    open spec fn view(&self) -> SpecImport {
        SpecImport { module: self.module@, name: self.name@, desc: self.desc }
    }
}

impl Decode for Import {
    open spec fn spec_decode(data: Seq<u8>, pos: int) -> SpecRes<SpecImport> {
        match Name::spec_decode(data, pos) {
            Ok((module, p)) => match Name::spec_decode(data, p) {
                Ok((name, q)) => match Importdesc::spec_decode(data, q) {
                    Ok((desc, r)) => Ok((SpecImport { module, name, desc }, r)),
                    Err(e) => Err(e),
                },
                Err(e) => Err(e),
            },
            Err(e) => Err(e),
        }
    }

    proof fn lemma_decode_progress(data: Seq<u8>, pos: int) {
        Name::lemma_decode_progress(data, pos);
        if let Ok((_, p)) = Name::spec_decode(data, pos) {
            Name::lemma_decode_progress(data, p);
            if let Ok((_, q)) = Name::spec_decode(data, p) {
                Importdesc::lemma_decode_progress(data, q);
            }
        }
    }

    fn decode(reader: &mut Reader) -> (res: Result<Self, DecodeError>) {
        let module = Name::decode(reader)?;
        let name = Name::decode(reader)?;
        let desc = Importdesc::decode(reader)?;
        Ok(Import { module, name, desc })
    }
}

/// The abstract content of an export.
pub struct SpecExport {
    pub name: Seq<u8>,
    pub desc: Exportdesc,
}

/// An export: a name and the item it refers to.
#[derive(Debug, Clone)]
pub struct Export {
    pub name: Name,
    pub desc: Exportdesc,
}

impl View for Export {
    type V = SpecExport;

    open spec fn view(&self) -> SpecExport {
        SpecExport { name: self.name@, desc: self.desc }
    }
}

impl Decode for Export {
    open spec fn spec_decode(data: Seq<u8>, pos: int) -> SpecRes<SpecExport> {
        match Name::spec_decode(data, pos) {
            Ok((name, p)) => match Exportdesc::spec_decode(data, p) {
                Ok((desc, q)) => Ok((SpecExport { name, desc }, q)),
                Err(e) => Err(e),
            },
            Err(e) => Err(e),
        }
    }

    proof fn lemma_decode_progress(data: Seq<u8>, pos: int) {
        Name::lemma_decode_progress(data, pos);
        if let Ok((_, p)) = Name::spec_decode(data, pos) {
            Exportdesc::lemma_decode_progress(data, p);
        }
    }

    fn decode(reader: &mut Reader) -> (res: Result<Self, DecodeError>) {
        let name = Name::decode(reader)?;
        let desc = Exportdesc::decode(reader)?;
        Ok(Export { name, desc })
    }
}

/// The abstract content of a function type.
pub struct SpecFunctype {
    pub params: Seq<Valtype>,
    pub result: Resulttype,
}

/// A function type: parameter types and result type.
#[derive(Debug, Clone)]
pub struct Functype {
    pub params: Vec<Valtype>,
    pub result: Resulttype,
}

impl View for Functype {
    type V = SpecFunctype;

    open spec fn view(&self) -> SpecFunctype {
        SpecFunctype { params: self.params@, result: self.result }
    }
}

/// Whether `args` has one value of each type in `params`, in order.
pub open spec fn args_match(args: Seq<Val>, params: Seq<Valtype>) -> bool {
    &&& args.len() == params.len()
    &&& forall|k: int| 0 <= k < args.len() ==> (#[trigger] args[k]).spec_ty() == params[k]
}

impl Functype {
    /// Checks that `args` are arguments of this type.
    pub fn validate_args(&self, args: &[Val], module: &Module) -> (r: Result<(), ExecuteError>)
        ensures
            r is Ok <==> args_match(args@, self.params@),
            r is Err ==> r == Err::<(), ExecuteError>(ExecuteError::InvalidFuncArgs),
    {
        if args.len() != self.params.len() {
            return Err(ExecuteError::InvalidFuncArgs);
        }
        let mut k: usize = 0;
        while k < args.len()
            invariant
                k <= args@.len() == self.params@.len(),
                forall|j: int| 0 <= j < k ==> (#[trigger] args@[j]).spec_ty() == self.params@[j],
            decreases args@.len() - k,
        {
            if args[k].ty() != self.params[k] {
                return Err(ExecuteError::InvalidFuncArgs);
            }
            k = k + 1;
        }
        Ok(())
    }
}

impl Decode for Functype {
    /// Tag 0x60, the vector of parameter types, then the result type.
    open spec fn spec_decode(data: Seq<u8>, pos: int) -> SpecRes<SpecFunctype> {
        match spec_byte(data, pos) {
            Ok((tag, p)) => if tag != 0x60 {
                Err(DecodeError::InvalidFuncTypeTag { value: tag })
            } else {
                match spec_vector::<Valtype>(data, p) {
                    Ok((params, q)) => match Resulttype::spec_decode(data, q) {
                        Ok((result, r)) => Ok((SpecFunctype { params, result }, r)),
                        Err(e) => Err(e),
                    },
                    Err(e) => Err(e),
                }
            },
            Err(e) => Err(e),
        }
    }

    proof fn lemma_decode_progress(data: Seq<u8>, pos: int) {
        lemma_vector_progress::<Valtype>(data, pos + 1);
        if let Ok((_, q)) = spec_vector::<Valtype>(data, pos + 1) {
            Resulttype::lemma_decode_progress(data, q);
        }
    }

    fn decode(reader: &mut Reader) -> (res: Result<Self, DecodeError>) {
        let tag = reader.read_u8()?;
        if tag != 0x60 {
            return Err(DecodeError::InvalidFuncTypeTag { value: tag });
        }
        let params: Vec<Valtype> = decode_vector(reader)?;
        proof {
            assert(views(params@) =~= params@);
        }
        let result = Resulttype::decode(reader)?;
        Ok(Functype { params, result })
    }
}

} // verus!

verus! {

/// An expression: a sequence of instructions ended by 0x0b.
#[derive(Debug, Clone)]
pub struct Expr {
    instrs: Vec<Instr>,
}

impl View for Expr {
    type V = Seq<SpecInstr>;

    closed spec fn view(&self) -> Seq<SpecInstr> {
        views(self.instrs@)
    }
}

impl Expr {
    /// The instructions of the expression.
    pub fn instrs(&self) -> (s: &[Instr])
        ensures
            views(s@) == self@,
    {
        self.instrs.as_slice()
    }
}

impl Decode for Expr {
    open spec fn spec_decode(data: Seq<u8>, pos: int) -> SpecRes<Seq<SpecInstr>> {
        spec_instrs(data, pos)
    }

    proof fn lemma_decode_progress(data: Seq<u8>, pos: int) {
        lemma_instr_progress(data, pos);
    }

    fn decode(reader: &mut Reader) -> (res: Result<Self, DecodeError>) {
        let ghost data = reader.bytes();
        let ghost pos = reader.pos();
        match decode_instrs(reader) {
            Ok(instrs) => {
                let e = Expr { instrs };
                assert(e@ == views(instrs@));
                assert(spec_instrs(data, pos) matches Ok((s, p)) && s == e@ && p == reader.pos());
                assert(Self::spec_decode(data, pos) == spec_instrs(data, pos));
                Ok(e)
            },
            Err(e) => Err(e),
        }
    }
}

/// The constant expression that an abstract instruction sequence stands for:
/// exactly one constant or `global.get`.
pub open spec fn spec_constant_expr(s: Seq<SpecInstr>) -> Result<ConstantExpr, DecodeError> {
    if s.len() != 1 {
        Err(DecodeError::UnexpectedExpr)
    } else {
        match s[0] {
            SpecInstr::Plain(Instr::I32Const(x)) => Ok(ConstantExpr::I32(x)),
            SpecInstr::Plain(Instr::I64Const(x)) => Ok(ConstantExpr::I64(x)),
            SpecInstr::Plain(Instr::F32Const(x)) => Ok(ConstantExpr::F32(x)),
            SpecInstr::Plain(Instr::F64Const(x)) => Ok(ConstantExpr::F64(x)),
            SpecInstr::Plain(Instr::GlobalGet(x)) => Ok(ConstantExpr::Global(x)),
            _ => Err(DecodeError::UnexpectedExpr),
        }
    }
}

/// A constant expression: the initializer of a global (a float constant is
/// held as its bit pattern).
#[derive(Debug, Clone, Copy, PartialEq, Eq, Structural)]
pub enum ConstantExpr {
    I32(i32),
    I64(i64),
    F32(u32),
    F64(u64),
    Global(Globalidx),
}

impl View for ConstantExpr {
    type V = ConstantExpr;

    open spec fn view(&self) -> ConstantExpr {
        *self
    }
}

impl Decode for ConstantExpr {
    /// An expression of exactly one constant or `global.get` instruction.
    open spec fn spec_decode(data: Seq<u8>, pos: int) -> SpecRes<ConstantExpr> {
        match spec_instrs(data, pos) {
            Ok((s, p)) => match spec_constant_expr(s) {
                Ok(c) => Ok((c, p)),
                Err(e) => Err(e),
            },
            Err(e) => Err(e),
        }
    }

    proof fn lemma_decode_progress(data: Seq<u8>, pos: int) {
        lemma_instr_progress(data, pos);
    }

    fn decode(reader: &mut Reader) -> (res: Result<Self, DecodeError>) {
        let expr = Expr::decode(reader)?;
        let instrs = expr.instrs();
        if instrs.len() != 1 {
            return Err(DecodeError::UnexpectedExpr);
        }
        match &instrs[0] {
            Instr::I32Const(x) => Ok(ConstantExpr::I32(*x)),
            Instr::I64Const(x) => Ok(ConstantExpr::I64(*x)),
            Instr::F32Const(x) => Ok(ConstantExpr::F32(*x)),
            Instr::F64Const(x) => Ok(ConstantExpr::F64(*x)),
            Instr::GlobalGet(x) => Ok(ConstantExpr::Global(*x)),
            _ => Err(DecodeError::UnexpectedExpr),
        }
    }
}

/// The `i32` constant expression that an abstract instruction sequence
/// stands for: exactly one `i32.const` or `global.get`.
pub open spec fn spec_i32_constant_expr(s: Seq<SpecInstr>) -> Result<I32ConstantExpr, DecodeError> {
    if s.len() != 1 {
        Err(DecodeError::UnexpectedExpr)
    } else {
        match s[0] {
            SpecInstr::Plain(Instr::I32Const(x)) => Ok(I32ConstantExpr::I32(x)),
            SpecInstr::Plain(Instr::GlobalGet(x)) => Ok(I32ConstantExpr::Global(x)),
            _ => Err(DecodeError::UnexpectedExpr),
        }
    }
}

/// An `i32` constant expression: the offset of an element or data segment.
#[derive(Debug, Clone, Copy, PartialEq, Eq, Structural)]
pub enum I32ConstantExpr {
    I32(i32),
    Global(Globalidx),
}

impl View for I32ConstantExpr {
    type V = I32ConstantExpr;

    open spec fn view(&self) -> I32ConstantExpr {
        *self
    }
}

impl I32ConstantExpr {
    /// The value of the expression, given the instance's globals and the
    /// module's own globals `defined`: a global is read only where `defined`
    /// holds an immutable `i32` global at its index; `None` otherwise, or if
    /// the instance's global there does not exist or holds no `i32`.
    pub open spec fn spec_get(self, globals: Seq<GlobalVal>, defined: Seq<Global>) -> Option<i32> {
        match self {
            I32ConstantExpr::I32(v) => Some(v),
            I32ConstantExpr::Global(idx) => if idx.0 < defined.len() && defined[idx.0 as int].ty
                == Globaltype::Const(Valtype::I32) && idx.0 < globals.len() {
                match globals[idx.0 as int].spec_val() {
                    Val::I32(v) => Some(v),
                    _ => None,
                }
            } else {
                None
            },
        }
    }

    /// The value of the expression, given the instance's globals, in an
    /// instance of `module`.
    pub fn get(self, globals: &[GlobalVal], module: &Module) -> (r: Option<i32>)
        ensures
            r == self.spec_get(globals@, module@.globals),
    {
        match self {
            I32ConstantExpr::I32(v) => Some(v),
            I32ConstantExpr::Global(idx) => {
                let i = idx.get();
                let defined = module.globals();
                if i >= defined.len() {
                    return None;
                }
                match defined[i].ty {
                    Globaltype::Const(Valtype::I32) => {},
                    _ => return None,
                }
                if i < globals.len() {
                    match globals[i].get() {
                        Val::I32(v) => Some(v),
                        _ => None,
                    }
                } else {
                    None
                }
            },
        }
    }
}

impl Decode for I32ConstantExpr {
    open spec fn spec_decode(data: Seq<u8>, pos: int) -> SpecRes<I32ConstantExpr> {
        match spec_instrs(data, pos) {
            Ok((s, p)) => match spec_i32_constant_expr(s) {
                Ok(c) => Ok((c, p)),
                Err(e) => Err(e),
            },
            Err(e) => Err(e),
        }
    }

    proof fn lemma_decode_progress(data: Seq<u8>, pos: int) {
        lemma_instr_progress(data, pos);
    }

    fn decode(reader: &mut Reader) -> (res: Result<Self, DecodeError>) {
        let expr = Expr::decode(reader)?;
        let instrs = expr.instrs();
        if instrs.len() != 1 {
            return Err(DecodeError::UnexpectedExpr);
        }
        match &instrs[0] {
            Instr::I32Const(x) => Ok(I32ConstantExpr::I32(*x)),
            Instr::GlobalGet(x) => Ok(I32ConstantExpr::Global(*x)),
            _ => Err(DecodeError::UnexpectedExpr),
        }
    }
}

/// A global defined by the module: its type and initializer.
#[derive(Debug, Clone, Copy, PartialEq, Eq, Structural)]
pub struct Global {
    pub ty: Globaltype,
    pub init: ConstantExpr,
}

impl View for Global {
    type V = Global;

    open spec fn view(&self) -> Global {
        *self
    }
}

impl Global {
    /// The initial value of the global: a constant of the global's type, or
    /// the value of an imported global of that type. `None` if the
    /// initializer does not fit the type or names no imported global.
    pub open spec fn spec_init(self, imported: Seq<GlobalVal>) -> Option<GlobalVal> {
        let c = self.ty is Const;
        match (self.ty.spec_val_type(), self.init) {
            (Valtype::I32, ConstantExpr::I32(x)) => Some(GlobalVal::spec_new(c, Val::I32(x))),
            (Valtype::I64, ConstantExpr::I64(x)) => Some(GlobalVal::spec_new(c, Val::I64(x))),
            (Valtype::F32, ConstantExpr::F32(x)) => Some(GlobalVal::spec_new(c, Val::F32(x))),
            (Valtype::F64, ConstantExpr::F64(x)) => Some(GlobalVal::spec_new(c, Val::F64(x))),
            (t, ConstantExpr::Global(idx)) => if idx.0 < imported.len()
                && imported[idx.0 as int].spec_val().spec_ty() == t {
                Some(GlobalVal::spec_new(c, imported[idx.0 as int].spec_val()))
            } else {
                None
            },
            _ => None,
        }
    }

    /// A global whose initializer is a constant of its value type starts
    /// with exactly that constant; one whose initializer reads an imported
    /// global of its value type starts with that global's value; every other
    /// initializer fails. The global is constant exactly when its type is.
    pub proof fn lemma_init(self, imported: Seq<GlobalVal>)
        ensures
            self.spec_init(imported) matches Some(g) ==> g.spec_is_const() == (self.ty is Const),
            self.init is I32 && self.ty.spec_val_type() == Valtype::I32 ==> (self.spec_init(imported)
                matches Some(g) && g.spec_val() == Val::I32(self.init->I32_0)),
            self.init is I64 && self.ty.spec_val_type() == Valtype::I64 ==> (self.spec_init(imported)
                matches Some(g) && g.spec_val() == Val::I64(self.init->I64_0)),
            self.init is F32 && self.ty.spec_val_type() == Valtype::F32 ==> (self.spec_init(imported)
                matches Some(g) && g.spec_val() == Val::F32(self.init->F32_0)),
            self.init is F64 && self.ty.spec_val_type() == Valtype::F64 ==> (self.spec_init(imported)
                matches Some(g) && g.spec_val() == Val::F64(self.init->F64_0)),
            self.init is Global ==> (self.spec_init(imported) is Some <==> (self.init->Global_0.0
                < imported.len() && imported[self.init->Global_0.0 as int].spec_val().spec_ty()
                == self.ty.spec_val_type())),
            self.init is Global && self.spec_init(imported) is Some ==> self.spec_init(imported)->Some_0.spec_val()
                == imported[self.init->Global_0.0 as int].spec_val(),
            self.spec_init(imported) matches Some(g) ==> g.spec_val().spec_ty()
                == self.ty.spec_val_type(),
    {
        let c = self.ty is Const;
        match self.init {
            ConstantExpr::I32(x) => GlobalVal::lemma_new(c, Val::I32(x)),
            ConstantExpr::I64(x) => GlobalVal::lemma_new(c, Val::I64(x)),
            ConstantExpr::F32(x) => GlobalVal::lemma_new(c, Val::F32(x)),
            ConstantExpr::F64(x) => GlobalVal::lemma_new(c, Val::F64(x)),
            ConstantExpr::Global(idx) => if idx.0 < imported.len() {
                GlobalVal::lemma_new(c, imported[idx.0 as int].spec_val());
            },
        }
    }

    /// The initial value of the global, given the imported globals.
    pub fn init(&self, imported_globals: &[GlobalVal]) -> (r: Option<GlobalVal>)
        ensures
            r == self.spec_init(imported_globals@),
    {
        let c = self.ty.is_const();
        match (self.ty.val_type(), self.init) {
            (Valtype::I32, ConstantExpr::I32(x)) => Some(GlobalVal::new(c, Val::I32(x))),
            (Valtype::I64, ConstantExpr::I64(x)) => Some(GlobalVal::new(c, Val::I64(x))),
            (Valtype::F32, ConstantExpr::F32(x)) => Some(GlobalVal::new(c, Val::F32(x))),
            (Valtype::F64, ConstantExpr::F64(x)) => Some(GlobalVal::new(c, Val::F64(x))),
            (t, ConstantExpr::Global(idx)) => {
                let i = idx.get();
                if i < imported_globals.len() {
                    let v = imported_globals[i].get();
                    if v.ty() == t {
                        return Some(GlobalVal::new(c, v));
                    }
                }
                None
            },
            _ => None,
        }
    }
}

impl Decode for Global {
    open spec fn spec_decode(data: Seq<u8>, pos: int) -> SpecRes<Global> {
        match Globaltype::spec_decode(data, pos) {
            Ok((ty, p)) => match ConstantExpr::spec_decode(data, p) {
                Ok((init, q)) => Ok((Global { ty, init }, q)),
                Err(e) => Err(e),
            },
            Err(e) => Err(e),
        }
    }

    proof fn lemma_decode_progress(data: Seq<u8>, pos: int) {
        Globaltype::lemma_decode_progress(data, pos);
        if let Ok((_, p)) = Globaltype::spec_decode(data, pos) {
            ConstantExpr::lemma_decode_progress(data, p);
        }
    }

    fn decode(reader: &mut Reader) -> (res: Result<Self, DecodeError>) {
        let ty = Globaltype::decode(reader)?;
        let init = ConstantExpr::decode(reader)?;
        Ok(Global { ty, init })
    }
}

/// The abstract content of an element segment.
pub struct SpecElem {
    pub table: Tableidx,
    pub offset: I32ConstantExpr,
    pub init: Seq<Funcidx>,
}

/// An element segment: function indices to place in the table at an offset.
#[derive(Debug, Clone)]
pub struct Elem {
    pub table: Tableidx,
    pub offset: I32ConstantExpr,
    pub init: Vec<Funcidx>,
}

impl View for Elem {
    type V = SpecElem;

    open spec fn view(&self) -> SpecElem {
        SpecElem { table: self.table, offset: self.offset, init: self.init@ }
    }
}

impl Decode for Elem {
    open spec fn spec_decode(data: Seq<u8>, pos: int) -> SpecRes<SpecElem> {
        match Tableidx::spec_decode(data, pos) {
            Ok((table, p)) => match I32ConstantExpr::spec_decode(data, p) {
                Ok((offset, q)) => match spec_vector::<Funcidx>(data, q) {
                    Ok((init, r)) => Ok((SpecElem { table, offset, init }, r)),
                    Err(e) => Err(e),
                },
                Err(e) => Err(e),
            },
            Err(e) => Err(e),
        }
    }

    proof fn lemma_decode_progress(data: Seq<u8>, pos: int) {
        Tableidx::lemma_decode_progress(data, pos);
        if let Ok((_, p)) = Tableidx::spec_decode(data, pos) {
            I32ConstantExpr::lemma_decode_progress(data, p);
            if let Ok((_, q)) = I32ConstantExpr::spec_decode(data, p) {
                lemma_vector_progress::<Funcidx>(data, q);
            }
        }
    }

    fn decode(reader: &mut Reader) -> (res: Result<Self, DecodeError>) {
        let table = Tableidx::decode(reader)?;
        let offset = I32ConstantExpr::decode(reader)?;
        let init: Vec<Funcidx> = decode_vector(reader)?;
        proof {
            assert(views(init@) =~= init@);
        }
        Ok(Elem { table, offset, init })
    }
}

/// The abstract content of a data segment.
pub struct SpecData {
    pub data: Memidx,
    pub offset: I32ConstantExpr,
    pub init: Seq<u8>,
}

/// A data segment: bytes to place in memory at an offset.
#[derive(Debug, Clone)]
pub struct Data {
    pub data: Memidx,
    pub offset: I32ConstantExpr,
    pub init: Vec<u8>,
}

impl View for Data {
    type V = SpecData;

    open spec fn view(&self) -> SpecData {
        SpecData { data: self.data, offset: self.offset, init: self.init@ }
    }
}

impl Decode for Data {
    open spec fn spec_decode(data: Seq<u8>, pos: int) -> SpecRes<SpecData> {
        match Memidx::spec_decode(data, pos) {
            Ok((memidx, p)) => match I32ConstantExpr::spec_decode(data, p) {
                Ok((offset, q)) => match spec_vector::<u8>(data, q) {
                    Ok((init, r)) => Ok((SpecData { data: memidx, offset, init }, r)),
                    Err(e) => Err(e),
                },
                Err(e) => Err(e),
            },
            Err(e) => Err(e),
        }
    }

    proof fn lemma_decode_progress(data: Seq<u8>, pos: int) {
        Memidx::lemma_decode_progress(data, pos);
        if let Ok((_, p)) = Memidx::spec_decode(data, pos) {
            I32ConstantExpr::lemma_decode_progress(data, p);
            if let Ok((_, q)) = I32ConstantExpr::spec_decode(data, p) {
                lemma_vector_progress::<u8>(data, q);
            }
        }
    }

    fn decode(reader: &mut Reader) -> (res: Result<Self, DecodeError>) {
        let memidx = Memidx::decode(reader)?;
        let offset = I32ConstantExpr::decode(reader)?;
        let init: Vec<u8> = decode_vector(reader)?;
        proof {
            assert(views(init@) =~= init@);
        }
        Ok(Data { data: memidx, offset, init })
    }
}

} // verus!

verus! {

/// The local declarations of a function body: `n` entries, each a count and
/// a value type, expanded into one type per local.
pub open spec fn spec_locals(data: Seq<u8>, pos: int, n: nat) -> SpecRes<Seq<Valtype>>
    decreases n,
{
    if n == 0 {
        Ok((Seq::empty(), pos))
    } else {
        match spec_locals(data, pos, (n - 1) as nat) {
            Ok((s, p)) => match spec_u32(data, p) {
                Ok((k, q)) => match Valtype::spec_decode(data, q) {
                    Ok((t, r)) => Ok((s + Seq::new(k as nat, |_i: int| t), r)),
                    Err(e) => Err(e),
                },
                Err(e) => Err(e),
            },
            Err(e) => Err(e),
        }
    }
}

pub proof fn lemma_locals_err(data: Seq<u8>, pos: int, n: nat, m: nat)
    requires
        n <= m,
        spec_locals(data, pos, n) is Err,
    ensures
        spec_locals(data, pos, m) == spec_locals(data, pos, n),
    decreases m,
{
    if n < m {
        lemma_locals_err(data, pos, n, (m - 1) as nat);
    }
}

/// The abstract content of a function body.
pub struct SpecCode {
    pub locals: Seq<Valtype>,
    pub body: Seq<SpecInstr>,
}

/// A function body: the types of its locals (beyond the parameters) and its
/// instructions.
#[derive(Debug, Clone)]
pub struct Code {
    pub locals: Vec<Valtype>,
    pub body: Expr,
}

impl View for Code {
    type V = SpecCode;

    open spec fn view(&self) -> SpecCode {
        SpecCode { locals: self.locals@, body: self.body@ }
    }
}

impl Decode for Code {
    /// The body's size in bytes, then, within those bytes, the local
    /// declarations and the expression.
    open spec fn spec_decode(data: Seq<u8>, pos: int) -> SpecRes<SpecCode> {
        match spec_u32(data, pos) {
            Ok((size, p)) => if p + size > data.len() {
                Err(DecodeError::UnexpectedEndOfBytes)
            } else {
                let sub = data.subrange(p, p + size);
                match spec_u32(sub, 0) {
                    Ok((n, q)) => match spec_locals(sub, q, n as nat) {
                        Ok((locals, r)) => match spec_instrs(sub, r) {
                            Ok((body, _)) => Ok((SpecCode { locals, body }, p + size)),
                            Err(e) => Err(e),
                        },
                        Err(e) => Err(e),
                    },
                    Err(e) => Err(e),
                }
            },
            Err(e) => Err(e),
        }
    }

    proof fn lemma_decode_progress(data: Seq<u8>, pos: int) {
        lemma_u32_progress(data, pos);
    }

    #[verifier::loop_isolation(false)]
    fn decode(reader: &mut Reader) -> (res: Result<Self, DecodeError>) {
        let ghost data = reader.bytes();
        let ghost pos = reader.pos();
        proof {
            lemma_u32_progress(data, pos);
        }
        let code_size = reader.read_usize()?;
        let bytes = reader.read(code_size)?;
        let mut sub = Reader::new(bytes);
        let ghost sdata = bytes@;
        proof {
            lemma_u32_progress(sdata, 0);
        }
        let locals_len = sub.read_usize()?;
        let ghost start = sub.pos();
        let mut locals: Vec<Valtype> = Vec::new();
        let mut i: usize = 0;
        while i < locals_len
            invariant
                sub.wf(),
                sub.bytes() == sdata,
                i <= locals_len,
                spec_locals(sdata, start, i as nat) == Ok::<(Seq<Valtype>, int), DecodeError>(
                    (locals@, sub.pos()),
                ),
            decreases locals_len - i,
        {
            let ghost p = sub.pos();
            let ghost before = locals@;
            proof {
                lemma_u32_progress(sdata, p);
            }
            let r = sub.read_usize();
            let val_types_len = match r {
                Ok(n) => n,
                Err(e) => {
                    proof {
                        lemma_locals_err(sdata, start, (i + 1) as nat, locals_len as nat);
                    }
                    return Err(e);
                },
            };
            let r = Valtype::decode(&mut sub);
            let val_type = match r {
                Ok(t) => t,
                Err(e) => {
                    proof {
                        lemma_locals_err(sdata, start, (i + 1) as nat, locals_len as nat);
                    }
                    return Err(e);
                },
            };
            let mut j: usize = 0;
            while j < val_types_len
                invariant
                    j <= val_types_len,
                    locals@ == before + Seq::new(j as nat, |_k: int| val_type),
                decreases val_types_len - j,
            {
                proof {
                    assert(before + Seq::new((j + 1) as nat, |_k: int| val_type) =~= (before
                        + Seq::new(j as nat, |_k: int| val_type)).push(val_type));
                }
                locals.push(val_type);
                j = j + 1;
            }
            i = i + 1;
        }
        let body = Expr::decode(&mut sub)?;
        Ok(Code { locals, body })
    }
}

} // verus!
