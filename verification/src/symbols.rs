//! The preamble of a module and the part types of the section-by-section
//! reading of a module (`ModuleSpec`).
use crate::components::{spec_byte, spec_u32, lemma_u32_progress, Code, Functype, Valtype};
use crate::decode::{decode_vector, decoded, lemma_vector_progress, spec_vector, Decode, DecodeError};
use crate::execute::{ExecuteError, Val};
use crate::module::Module;
use crate::reader::{lemma_signed_bound, spec_signed, Reader, SpecRes};
use vstd::arithmetic::power2::*;
use vstd::prelude::*;

pub use crate::components::{Export, Import, Limits, Name};
pub use crate::module::SectionId;

verus! {

/// The four bytes at `pos` (which must exist).
pub open spec fn spec_four(data: Seq<u8>, pos: int) -> [u8; 4] {
    [data[pos], data[pos + 1], data[pos + 2], data[pos + 3]]
}

/// Reads four bytes into an array.
fn read_four(reader: &mut Reader) -> (res: Result<[u8; 4], DecodeError>)
    requires
        old(reader).wf(),
    ensures
        final(reader).wf(),
        final(reader).bytes() == old(reader).bytes(),
        old(reader).pos() + 4 <= old(reader).bytes().len() ==> res == Ok::<[u8; 4], DecodeError>(
            spec_four(old(reader).bytes(), old(reader).pos()),
        ) && final(reader).pos() == old(reader).pos() + 4,
        old(reader).pos() + 4 > old(reader).bytes().len() ==> res == Err::<[u8; 4], DecodeError>(
            DecodeError::UnexpectedEndOfBytes,
        ) && final(reader).pos() == old(reader).pos(),
{
    let b = reader.read(4)?;
    Ok([b[0], b[1], b[2], b[3]])
}

/// The magic number `\0asm` that starts every module.
#[derive(Debug)]
pub struct Magic;

impl Magic {
    /// The magic number at `pos`, or why it is not there.
    pub open spec fn spec_decode(data: Seq<u8>, pos: int) -> Result<int, DecodeError> {
        if pos + 4 > data.len() {
            Err(DecodeError::UnexpectedEndOfBytes)
        } else if data[pos] == 0x00 && data[pos + 1] == 0x61 && data[pos + 2] == 0x73
            && data[pos + 3] == 0x6d {
            Ok(pos + 4)
        } else {
            Err(DecodeError::InvalidMagic { value: spec_four(data, pos) })
        }
    }

    /// Reads and checks the magic number.
    pub fn decode(reader: &mut Reader) -> (res: Result<Self, DecodeError>)
        requires
            old(reader).wf(),
        ensures
            final(reader).wf(),
            final(reader).bytes() == old(reader).bytes(),
            match Magic::spec_decode(old(reader).bytes(), old(reader).pos()) {
                Ok(p) => res is Ok && final(reader).pos() == p,
                Err(e) => res matches Err(f) && f == e,
            },
            old(reader).pos() + 4 <= old(reader).bytes().len() ==> final(reader).pos() == old(
                reader,
            ).pos() + 4,
            old(reader).pos() + 4 > old(reader).bytes().len() ==> final(reader).pos() == old(
                reader,
            ).pos(),
    {
        let value = read_four(reader)?;
        if value[0] != 0x00 || value[1] != 0x61 || value[2] != 0x73 || value[3] != 0x6d {
            return Err(DecodeError::InvalidMagic { value });
        }
        Ok(Magic)
    }
}

/// The version number 1 (four bytes, little-endian) that follows the magic.
#[derive(Debug)]
pub struct Version;

impl Version {
    /// The version number at `pos`, or why it is not there.
    pub open spec fn spec_decode(data: Seq<u8>, pos: int) -> Result<int, DecodeError> {
        if pos + 4 > data.len() {
            Err(DecodeError::UnexpectedEndOfBytes)
        } else if data[pos] == 1 && data[pos + 1] == 0 && data[pos + 2] == 0 && data[pos + 3] == 0 {
            Ok(pos + 4)
        } else {
            Err(DecodeError::InvalidVersion { value: spec_four(data, pos) })
        }
    }

    /// Reads and checks the version number.
    pub fn decode(reader: &mut Reader) -> (res: Result<Self, DecodeError>)
        requires
            old(reader).wf(),
        ensures
            final(reader).wf(),
            final(reader).bytes() == old(reader).bytes(),
            match Version::spec_decode(old(reader).bytes(), old(reader).pos()) {
                Ok(p) => res is Ok && final(reader).pos() == p,
                Err(e) => res matches Err(f) && f == e,
            },
            old(reader).pos() + 4 <= old(reader).bytes().len() ==> final(reader).pos() == old(
                reader,
            ).pos() + 4,
            old(reader).pos() + 4 > old(reader).bytes().len() ==> final(reader).pos() == old(
                reader,
            ).pos(),
    {
        let value = read_four(reader)?;
        if value[0] != 1 || value[1] != 0 || value[2] != 0 || value[3] != 0 {
            return Err(DecodeError::InvalidVersion { value });
        }
        Ok(Version)
    }
}

/// A value type (the same as `Valtype`).
pub type ValType = Valtype;

/// An index into the type section.
#[derive(Debug, Default, Clone, Copy, PartialEq, Eq, Structural)]
pub struct TypeIdx(pub u32);

impl View for TypeIdx {
    type V = u32;

    open spec fn view(&self) -> u32 {
        self.0
    }
}

impl Decode for TypeIdx {
    open spec fn spec_decode(data: Seq<u8>, pos: int) -> SpecRes<u32> {
        spec_u32(data, pos)
    }

    proof fn lemma_decode_progress(data: Seq<u8>, pos: int) {
        lemma_u32_progress(data, pos);
    }

    fn decode(reader: &mut Reader) -> (res: Result<Self, DecodeError>) {
        let v = reader.read_u32()?;
        Ok(TypeIdx(v))
    }
}

/// An index into the function index space.
#[derive(Debug, Default, Clone, Copy, PartialEq, Eq, Structural)]
pub struct FuncIdx(pub u32);

impl View for FuncIdx {
    type V = u32;

    open spec fn view(&self) -> u32 {
        self.0
    }
}

impl FuncIdx {
    /// The index.
    pub fn get(self) -> (r: u32)
        ensures
            r == self@,
    {
        self.0
    }

    /// The type of this function of `module`, if the module defines it and
    /// its type index is in range.
    pub fn get_type<'a>(self, module: &'a Module) -> (r: Option<&'a Functype>)
        ensures
            match r {
                Some(t) => self@ < module@.functions.len() && module@.functions[self@ as int].0
                    < module@.function_types.len() && t@ == module@.function_types[module@.functions[self@ as int].0 as int],
                None => self@ >= module@.functions.len() || module@.functions[self@ as int].0
                    >= module@.function_types.len(),
            },
    {
        let functions = module.functions();
        let k = self.0 as usize;
        if k >= functions.len() {
            return None;
        }
        let types = module.function_types();
        let t = functions[k].get();
        if t < types.len() {
            Some(&types[t])
        } else {
            None
        }
    }

    /// The body of this function of `module`, if the module defines it.
    pub fn get_code<'a>(self, module: &'a Module) -> (r: Option<&'a Code>)
        ensures
            match r {
                Some(c) => self@ < module@.function_codes.len() && c@ == module@.function_codes[self@ as int],
                None => self@ >= module@.function_codes.len(),
            },
    {
        let codes = module.function_codes();
        let k = self.0 as usize;
        if k < codes.len() {
            Some(&codes[k])
        } else {
            None
        }
    }
}

impl Decode for FuncIdx {
    open spec fn spec_decode(data: Seq<u8>, pos: int) -> SpecRes<u32> {
        spec_u32(data, pos)
    }

    proof fn lemma_decode_progress(data: Seq<u8>, pos: int) {
        lemma_u32_progress(data, pos);
    }

    fn decode(reader: &mut Reader) -> (res: Result<Self, DecodeError>) {
        let v = reader.read_u32()?;
        Ok(FuncIdx(v))
    }
}

/// The index of the only table, which must be 0.
#[derive(Debug, Default, Clone, Copy, PartialEq, Eq, Structural)]
pub struct TableIdx;

impl TableIdx {
    /// A `u32` that must be 0.
    pub open spec fn spec_decode(data: Seq<u8>, pos: int) -> SpecRes<TableIdx> {
        match spec_u32(data, pos) {
            Ok((i, p)) => if i != 0 {
                Err(DecodeError::InvalidTableIdx { value: i })
            } else {
                Ok((TableIdx, p))
            },
            Err(e) => Err(e),
        }
    }

    /// Reads a table index.
    pub fn decode(reader: &mut Reader) -> (res: Result<Self, DecodeError>)
        requires
            old(reader).wf(),
        ensures
            final(reader).wf(),
            final(reader).bytes() == old(reader).bytes(),
            decoded(TableIdx::spec_decode(old(reader).bytes(), old(reader).pos()), res, final(reader).pos()),
    {
        let i = reader.read_u32()?;
        if i != 0 {
            return Err(DecodeError::InvalidTableIdx { value: i });
        }
        Ok(TableIdx)
    }
}

impl View for TableIdx {
    type V = TableIdx;

    open spec fn view(&self) -> TableIdx {
        *self
    }
}

/// The index of the only memory, which must be 0.
#[derive(Debug, Default, Clone, Copy, PartialEq, Eq, Structural)]
pub struct MemIdx;

impl View for MemIdx {
    type V = MemIdx;

    open spec fn view(&self) -> MemIdx {
        *self
    }
}

impl MemIdx {
    /// A `u32` that must be 0.
    pub open spec fn spec_decode(data: Seq<u8>, pos: int) -> SpecRes<MemIdx> {
        match spec_u32(data, pos) {
            Ok((i, p)) => if i != 0 {
                Err(DecodeError::InvalidMemIdx { value: i })
            } else {
                Ok((MemIdx, p))
            },
            Err(e) => Err(e),
        }
    }

    /// Reads a memory index.
    pub fn decode(reader: &mut Reader) -> (res: Result<Self, DecodeError>)
        requires
            old(reader).wf(),
        ensures
            final(reader).wf(),
            final(reader).bytes() == old(reader).bytes(),
            decoded(MemIdx::spec_decode(old(reader).bytes(), old(reader).pos()), res, final(reader).pos()),
    {
        let i = reader.read_u32()?;
        if i != 0 {
            return Err(DecodeError::InvalidMemIdx { value: i });
        }
        Ok(MemIdx)
    }
}

/// An index into the global index space.
#[derive(Debug, Clone, Copy, PartialEq, Eq, Structural)]
pub struct GlobalIdx(pub u32);

impl View for GlobalIdx {
    type V = u32;

    open spec fn view(&self) -> u32 {
        self.0
    }
}

impl GlobalIdx {
    /// Reads a global index (a `u32`).
    pub fn decode(reader: &mut Reader) -> (res: Result<Self, DecodeError>)
        requires
            old(reader).wf(),
        ensures
            final(reader).wf(),
            final(reader).bytes() == old(reader).bytes(),
            decoded(spec_u32(old(reader).bytes(), old(reader).pos()), res, final(reader).pos()),
    {
        let v = reader.read_u32()?;
        Ok(GlobalIdx(v))
    }

    /// The index.
    pub fn get(self) -> (r: u32)
        ensures
            r == self@,
    {
        self.0
    }

    /// The index as a `usize`.
    pub fn as_usize(self) -> (r: usize)
        ensures
            r == self@,
    {
        self.0 as usize
    }
}

/// An index into the locals of a function.
#[derive(Debug, Clone, Copy, PartialEq, Eq, Structural)]
pub struct LocalIdx(pub u32);

impl View for LocalIdx {
    type V = u32;

    open spec fn view(&self) -> u32 {
        self.0
    }
}

impl LocalIdx {
    /// Reads a local index (a `u32`).
    pub fn decode(reader: &mut Reader) -> (res: Result<Self, DecodeError>)
        requires
            old(reader).wf(),
        ensures
            final(reader).wf(),
            final(reader).bytes() == old(reader).bytes(),
            decoded(spec_u32(old(reader).bytes(), old(reader).pos()), res, final(reader).pos()),
    {
        let v = reader.read_u32()?;
        Ok(LocalIdx(v))
    }

    /// The index.
    pub fn get(self) -> (r: u32)
        ensures
            r == self@,
    {
        self.0
    }

    /// The index as a `usize`.
    pub fn as_usize(self) -> (r: usize)
        ensures
            r == self@,
    {
        self.0 as usize
    }
}

/// A label index: the depth of the enclosing block that a branch targets.
#[derive(Debug, Clone, Copy, PartialEq, Eq, Structural, PartialOrd, Ord)]
pub struct LabelIdx(pub u32);

impl View for LabelIdx {
    type V = u32;

    open spec fn view(&self) -> u32 {
        self.0
    }
}

impl LabelIdx {
    /// The label at depth `v`.
    pub fn new(v: u32) -> (r: Self)
        ensures
            r@ == v,
    {
        LabelIdx(v)
    }

    /// Reads a label index (a `u32`).
    pub fn decode(reader: &mut Reader) -> (res: Result<Self, DecodeError>)
        requires
            old(reader).wf(),
        ensures
            final(reader).wf(),
            final(reader).bytes() == old(reader).bytes(),
            decoded(spec_u32(old(reader).bytes(), old(reader).pos()), res, final(reader).pos()),
    {
        let v = reader.read_u32()?;
        Ok(LabelIdx(v))
    }

    /// The depth.
    pub fn get(self) -> (r: u32)
        ensures
            r == self@,
    {
        self.0
    }

    /// The label one level further out.
    pub fn increment(self) -> (r: Self)
        requires
            self@ < u32::MAX,
        ensures
            r@ == self@ + 1,
    {
        LabelIdx(self.0 + 1)
    }
}

/// A table type: element type 0x70 (function references) and size limits.
#[derive(Debug, Clone, Copy, PartialEq, Eq, Structural)]
pub struct TableType {
    pub limits: Limits,
}

impl View for TableType {
    type V = TableType;

    open spec fn view(&self) -> TableType {
        *self
    }
}

impl Decode for TableType {
    /// The element type byte 0x70, then the limits.
    open spec fn spec_decode(data: Seq<u8>, pos: int) -> SpecRes<TableType> {
        match spec_byte(data, pos) {
            Ok((t, p)) => if t != 0x70 {
                Err(DecodeError::InvalidElemType { value: t })
            } else {
                match <Limits as Decode>::spec_decode(data, p) {
                    Ok((limits, q)) => Ok((TableType { limits }, q)),
                    Err(e) => Err(e),
                }
            },
            Err(e) => Err(e),
        }
    }

    proof fn lemma_decode_progress(data: Seq<u8>, pos: int) {
        <Limits as Decode>::lemma_decode_progress(data, pos + 1);
    }

    fn decode(reader: &mut Reader) -> (res: Result<Self, DecodeError>) {
        let elem_type = reader.read_u8()?;
        if elem_type != 0x70 {
            return Err(DecodeError::InvalidElemType { value: elem_type });
        }
        let limits = Limits::decode(reader)?;
        Ok(TableType { limits })
    }
}

/// A memory type: size limits in pages.
#[derive(Debug, Clone, Copy, PartialEq, Eq, Structural)]
pub struct MemType {
    pub limits: Limits,
}

impl MemType {
    /// The limits.
    pub open spec fn spec_decode(data: Seq<u8>, pos: int) -> SpecRes<MemType> {
        match <Limits as Decode>::spec_decode(data, pos) {
            Ok((limits, p)) => Ok((MemType { limits }, p)),
            Err(e) => Err(e),
        }
    }

    /// Reads a memory type.
    pub fn decode(reader: &mut Reader) -> (res: Result<Self, DecodeError>)
        requires
            old(reader).wf(),
        ensures
            final(reader).wf(),
            final(reader).bytes() == old(reader).bytes(),
            decoded(MemType::spec_decode(old(reader).bytes(), old(reader).pos()), res, final(reader).pos()),
    {
        let limits = Limits::decode(reader)?;
        Ok(MemType { limits })
    }
}

impl View for MemType {
    type V = MemType;

    open spec fn view(&self) -> MemType {
        *self
    }
}

/// The type of a global: its value type, constant or variable.
#[derive(Debug, Clone, Copy, PartialEq, Eq, Structural)]
pub enum GlobalType {
    Const(ValType),
    Var(ValType),
}

impl View for GlobalType {
    type V = GlobalType;

    open spec fn view(&self) -> GlobalType {
        *self
    }
}

impl GlobalType {
    /// A value type, then the mutability flag (0x00 constant, 0x01 variable).
    pub open spec fn spec_decode(data: Seq<u8>, pos: int) -> SpecRes<GlobalType> {
        match Valtype::spec_decode(data, pos) {
            Ok((t, p)) => match spec_byte(data, p) {
                Ok((flag, q)) => if flag == 0x00 {
                    Ok((GlobalType::Const(t), q))
                } else if flag == 0x01 {
                    Ok((GlobalType::Var(t), q))
                } else {
                    Err(DecodeError::InvalidMutabilityFlag { value: flag })
                },
                Err(e) => Err(e),
            },
            Err(e) => Err(e),
        }
    }

    /// Reads a global type.
    pub fn decode(reader: &mut Reader) -> (res: Result<Self, DecodeError>)
        requires
            old(reader).wf(),
        ensures
            final(reader).wf(),
            final(reader).bytes() == old(reader).bytes(),
            decoded(GlobalType::spec_decode(old(reader).bytes(), old(reader).pos()), res, final(reader).pos()),
    {
        let t = Valtype::decode(reader)?;
        let flag = reader.read_u8()?;
        if flag == 0x00 {
            Ok(GlobalType::Const(t))
        } else if flag == 0x01 {
            Ok(GlobalType::Var(t))
        } else {
            Err(DecodeError::InvalidMutabilityFlag { value: flag })
        }
    }

    /// The value type.
    pub fn val_type(self) -> (t: ValType)
        ensures
            t == match self {
                GlobalType::Const(t) => t,
                GlobalType::Var(t) => t,
            },
    {
        match self {
            GlobalType::Const(t) => t,
            GlobalType::Var(t) => t,
        }
    }
}

/// A sequence of value types: the parameters or the results of a function.
#[derive(Debug, Clone)]
pub struct ResultType {
    pub types: Vec<ValType>,
}

impl ResultType {
    /// The number of types.
    pub fn len(&self) -> (r: usize)
        ensures
            r == self.types@.len(),
    {
        self.types.len()
    }

    /// The types, in order.
    pub fn iter(&self) -> (r: Vec<ValType>)
        ensures
            r@ == self.types@,
    {
        let mut r: Vec<ValType> = Vec::new();
        let mut k: usize = 0;
        while k < self.types.len()
            invariant
                k <= self.types@.len(),
                r@ == self.types@.subrange(0, k as int),
            decreases self.types@.len() - k,
        {
            r.push(self.types[k]);
            proof {
                assert(self.types@.subrange(0, k + 1) =~= self.types@.subrange(0, k as int).push(
                    self.types@[k as int],
                ));
            }
            k = k + 1;
        }
        proof {
            assert(self.types@.subrange(0, k as int) =~= self.types@);
        }
        r
    }

    /// Reads a vector of value types.
    fn decode_item(reader: &mut Reader) -> (res: Result<Self, DecodeError>)
        requires
            old(reader).wf(),
        ensures
            final(reader).wf(),
            final(reader).bytes() == old(reader).bytes(),
            match spec_vector::<Valtype>(old(reader).bytes(), old(reader).pos()) {
                Ok((ts, p)) => res matches Ok(r) && r.types@ == ts && final(reader).pos() == p,
                Err(e) => res == Err::<ResultType, DecodeError>(e),
            },
    {
        let types: Vec<ValType> = decode_vector(reader)?;
        proof {
            assert(crate::decode::views(types@) =~= types@);
        }
        Ok(ResultType { types })
    }
}

/// The abstract content of a function type.
pub struct SpecFuncType {
    pub rt1: Seq<ValType>,
    pub rt2: Seq<ValType>,
}

/// A function type: its parameter types and its result types.
#[derive(Debug, Clone)]
pub struct FuncType {
    pub rt1: ResultType,
    pub rt2: ResultType,
}

impl View for FuncType {
    type V = SpecFuncType;

    open spec fn view(&self) -> SpecFuncType {
        SpecFuncType { rt1: self.rt1.types@, rt2: self.rt2.types@ }
    }
}

impl FuncType {
    /// Checks that `args` are arguments of this type.
    pub fn validate_args(&self, args: &[Val], module: &Module) -> (r: Result<(), ExecuteError>)
        ensures
            r is Ok <==> crate::components::args_match(args@, self.rt1.types@),
            r is Err ==> r == Err::<(), ExecuteError>(ExecuteError::InvalidFuncArgs),
    {
        if args.len() != self.rt1.len() {
            return Err(ExecuteError::InvalidFuncArgs);
        }
        let mut k: usize = 0;
        while k < args.len()
            invariant
                k <= args@.len() == self.rt1.types@.len(),
                forall|j: int| 0 <= j < k ==> (#[trigger] args@[j]).spec_ty() == self.rt1.types@[j],
            decreases args@.len() - k,
        {
            if args[k].ty() != self.rt1.types[k] {
                return Err(ExecuteError::InvalidFuncArgs);
            }
            k = k + 1;
        }
        Ok(())
    }

    /// The number of parameters.
    pub fn args_len(&self) -> (r: usize)
        ensures
            r == self.rt1.types@.len(),
    {
        self.rt1.len()
    }

    /// The number of results.
    pub fn return_arity(&self) -> (r: usize)
        ensures
            r == self.rt2.types@.len(),
    {
        self.rt2.len()
    }
}

impl Decode for FuncType {
    /// The tag 0x60, the parameter types, then the result types.
    open spec fn spec_decode(data: Seq<u8>, pos: int) -> SpecRes<SpecFuncType> {
        match spec_byte(data, pos) {
            Ok((tag, p)) => if tag != 0x60 {
                Err(DecodeError::InvalidFuncTypeTag { value: tag })
            } else {
                match spec_vector::<Valtype>(data, p) {
                    Ok((rt1, q)) => match spec_vector::<Valtype>(data, q) {
                        Ok((rt2, r)) => Ok((SpecFuncType { rt1, rt2 }, r)),
                        Err(e) => Err(e),
                    },
                    Err(e) => Err(e),
                }
            },
            Err(e) => Err(e),
        }
    }

    proof fn lemma_decode_progress(data: Seq<u8>, pos: int) {
        lemma_vector_progress::<Valtype>(data, pos + 1);
        if let Ok((_, q)) = spec_vector::<Valtype>(data, pos + 1) {
            lemma_vector_progress::<Valtype>(data, q);
        }
    }

    fn decode(reader: &mut Reader) -> (res: Result<Self, DecodeError>) {
        let tag = reader.read_u8()?;
        if tag != 0x60 {
            return Err(DecodeError::InvalidFuncTypeTag { value: tag });
        }
        let rt1 = ResultType::decode_item(reader)?;
        let rt2 = ResultType::decode_item(reader)?;
        Ok(FuncType { rt1, rt2 })
    }
}

/// The alignment and offset of a memory access.
#[derive(Debug, Clone, Copy, PartialEq, Eq, Structural)]
pub struct MemArg {
    pub align: u32,
    pub offset: u32,
}

impl View for MemArg {
    type V = MemArg;

    open spec fn view(&self) -> MemArg {
        *self
    }
}

impl MemArg {
    /// The alignment then the offset, each a `u32`.
    pub open spec fn spec_decode(data: Seq<u8>, pos: int) -> SpecRes<MemArg> {
        match spec_u32(data, pos) {
            Ok((align, p)) => match spec_u32(data, p) {
                Ok((offset, q)) => Ok((MemArg { align, offset }, q)),
                Err(e) => Err(e),
            },
            Err(e) => Err(e),
        }
    }

    /// Reads a memory argument.
    pub fn decode(reader: &mut Reader) -> (res: Result<Self, DecodeError>)
        requires
            old(reader).wf(),
        ensures
            final(reader).wf(),
            final(reader).bytes() == old(reader).bytes(),
            decoded(MemArg::spec_decode(old(reader).bytes(), old(reader).pos()), res, final(reader).pos()),
    {
        let align = reader.read_u32()?;
        let offset = reader.read_u32()?;
        Ok(MemArg { align, offset })
    }
}

/// A signed 33-bit integer (the type index of a block type).
#[derive(Debug, Clone, Copy, PartialEq, Eq, Structural, Hash)]
pub struct S33(pub i64);

impl View for S33 {
    type V = i64;

    open spec fn view(&self) -> i64 {
        self.0
    }
}

impl S33 {
    /// Reads a signed LEB128 integer of at most 33 bits.
    pub fn decode(reader: &mut Reader) -> (res: Result<Self, DecodeError>)
        requires
            old(reader).wf(),
        ensures
            final(reader).wf(),
            final(reader).bytes() == old(reader).bytes(),
            match spec_signed(old(reader).bytes(), old(reader).pos(), 33) {
                Ok((v, p)) => res matches Ok(s) && s@ == v && final(reader).pos() == p,
                Err(e) => res == Err::<S33, DecodeError>(e),
            },
    {
        proof {
            lemma_signed_bound(reader.bytes(), reader.pos(), 33);
            lemma2_to64();
            lemma_pow2_adds(32, 31);
        }
        let v = reader.read_integer_s(33)?;
        Ok(S33(v))
    }
}

/// The type of a block: no result, one value, or a type index.
#[derive(Debug, Clone, Copy, PartialEq, Eq, Structural)]
pub enum BlockType {
    Empty,
    Val(ValType),
    TypeIndex(S33),
}

impl BlockType {
    /// The byte 0x40, a value type, or a type index (a signed 33-bit
    /// integer).
    pub open spec fn spec_decode(data: Seq<u8>, pos: int) -> Result<(BlockType, int), DecodeError> {
        match spec_byte(data, pos) {
            Err(e) => Err(e),
            Ok((b, p)) => if b == 0x40 {
                Ok((BlockType::Empty, p))
            } else {
                match Valtype::spec_decode(data, pos) {
                    Ok((t, q)) => Ok((BlockType::Val(t), q)),
                    Err(_) => match spec_signed(data, pos, 33) {
                        Ok((v, q)) => Ok((BlockType::TypeIndex(S33(v as i64)), q)),
                        Err(e) => Err(e),
                    },
                }
            },
        }
    }

    /// Reads a block type.
    pub fn decode(reader: &mut Reader) -> (res: Result<Self, DecodeError>)
        requires
            old(reader).wf(),
        ensures
            final(reader).wf(),
            final(reader).bytes() == old(reader).bytes(),
            match BlockType::spec_decode(old(reader).bytes(), old(reader).pos()) {
                Ok((t, p)) => res == Ok::<BlockType, DecodeError>(t) && final(reader).pos() == p,
                Err(e) => res == Err::<BlockType, DecodeError>(e),
            },
    {
        let b = reader.read_u8()?;
        if b == 0x40 {
            return Ok(BlockType::Empty);
        } else if b == 0x7f {
            return Ok(BlockType::Val(Valtype::I32));
        } else if b == 0x7e {
            return Ok(BlockType::Val(Valtype::I64));
        } else if b == 0x7d {
            return Ok(BlockType::Val(Valtype::F32));
        } else if b == 0x7c {
            return Ok(BlockType::Val(Valtype::F64));
        }
        reader.unread_u8();
        let s = S33::decode(reader)?;
        Ok(BlockType::TypeIndex(s))
    }

    /// The number of results of a block of this type; a type index is not
    /// supported.
    pub fn arity(self) -> (r: usize)
        requires
            !(self is TypeIndex),
        ensures
            r == if self is Empty {
                0usize
            } else {
                1usize
            },
    {
        match self {
            BlockType::Empty => 0,
            _ => 1,
        }
    }
}

/// What an import brings in.
#[derive(Debug, Clone, Copy, PartialEq, Eq, Structural)]
pub enum ImportDesc {
    Func(TypeIdx),
    Table(TableType),
    Mem(MemType),
    Global(GlobalType),
}

impl ImportDesc {
    /// A tag byte, then the description it announces.
    pub open spec fn spec_decode(data: Seq<u8>, pos: int) -> Result<(ImportDesc, int), DecodeError> {
        match spec_byte(data, pos) {
            Err(e) => Err(e),
            Ok((tag, p)) => if tag == 0x00 {
                match spec_u32(data, p) {
                    Ok((v, q)) => Ok((ImportDesc::Func(TypeIdx(v)), q)),
                    Err(e) => Err(e),
                }
            } else if tag == 0x01 {
                match TableType::spec_decode(data, p) {
                    Ok((t, q)) => Ok((ImportDesc::Table(t), q)),
                    Err(e) => Err(e),
                }
            } else if tag == 0x02 {
                match MemType::spec_decode(data, p) {
                    Ok((t, q)) => Ok((ImportDesc::Mem(t), q)),
                    Err(e) => Err(e),
                }
            } else if tag == 0x03 {
                match GlobalType::spec_decode(data, p) {
                    Ok((t, q)) => Ok((ImportDesc::Global(t), q)),
                    Err(e) => Err(e),
                }
            } else {
                Err(DecodeError::InvalidImportDescTag { value: tag })
            },
        }
    }

    /// Reads an import description.
    pub fn decode(reader: &mut Reader) -> (res: Result<Self, DecodeError>)
        requires
            old(reader).wf(),
        ensures
            final(reader).wf(),
            final(reader).bytes() == old(reader).bytes(),
            match ImportDesc::spec_decode(old(reader).bytes(), old(reader).pos()) {
                Ok((d, p)) => res == Ok::<ImportDesc, DecodeError>(d) && final(reader).pos() == p,
                Err(e) => res == Err::<ImportDesc, DecodeError>(e),
            },
    {
        let tag = reader.read_u8()?;
        if tag == 0x00 {
            let v = reader.read_u32()?;
            Ok(ImportDesc::Func(TypeIdx(v)))
        } else if tag == 0x01 {
            Ok(ImportDesc::Table(TableType::decode(reader)?))
        } else if tag == 0x02 {
            Ok(ImportDesc::Mem(MemType::decode(reader)?))
        } else if tag == 0x03 {
            Ok(ImportDesc::Global(GlobalType::decode(reader)?))
        } else {
            Err(DecodeError::InvalidImportDescTag { value: tag })
        }
    }
}

/// What an export refers to.
#[derive(Debug, Clone, Copy, PartialEq, Eq, Structural)]
pub enum ExportDesc {
    Func(FuncIdx),
    Table(TableIdx),
    Mem(MemIdx),
    Global(GlobalIdx),
}

impl ExportDesc {
    /// A tag byte, then the index it announces.
    pub open spec fn spec_decode(data: Seq<u8>, pos: int) -> Result<(ExportDesc, int), DecodeError> {
        match spec_byte(data, pos) {
            Err(e) => Err(e),
            Ok((tag, p)) => if tag == 0x00 {
                match spec_u32(data, p) {
                    Ok((v, q)) => Ok((ExportDesc::Func(FuncIdx(v)), q)),
                    Err(e) => Err(e),
                }
            } else if tag == 0x01 {
                match TableIdx::spec_decode(data, p) {
                    Ok((t, q)) => Ok((ExportDesc::Table(t), q)),
                    Err(e) => Err(e),
                }
            } else if tag == 0x02 {
                match MemIdx::spec_decode(data, p) {
                    Ok((t, q)) => Ok((ExportDesc::Mem(t), q)),
                    Err(e) => Err(e),
                }
            } else if tag == 0x03 {
                match spec_u32(data, p) {
                    Ok((v, q)) => Ok((ExportDesc::Global(GlobalIdx(v)), q)),
                    Err(e) => Err(e),
                }
            } else {
                Err(DecodeError::InvalidExportDescTag { value: tag })
            },
        }
    }

    /// Reads an export description.
    pub fn decode(reader: &mut Reader) -> (res: Result<Self, DecodeError>)
        requires
            old(reader).wf(),
        ensures
            final(reader).wf(),
            final(reader).bytes() == old(reader).bytes(),
            match ExportDesc::spec_decode(old(reader).bytes(), old(reader).pos()) {
                Ok((d, p)) => res == Ok::<ExportDesc, DecodeError>(d) && final(reader).pos() == p,
                Err(e) => res == Err::<ExportDesc, DecodeError>(e),
            },
    {
        let tag = reader.read_u8()?;
        if tag == 0x00 {
            let v = reader.read_u32()?;
            Ok(ExportDesc::Func(FuncIdx(v)))
        } else if tag == 0x01 {
            Ok(ExportDesc::Table(TableIdx::decode(reader)?))
        } else if tag == 0x02 {
            Ok(ExportDesc::Mem(MemIdx::decode(reader)?))
        } else if tag == 0x03 {
            let v = reader.read_u32()?;
            Ok(ExportDesc::Global(GlobalIdx(v)))
        } else {
            Err(DecodeError::InvalidExportDescTag { value: tag })
        }
    }
}

} // verus!
