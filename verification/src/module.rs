//! A decoded module: the preamble, then the sections in their prescribed order.
use crate::components::{
    spec_byte, Code, Data, Elem, Export, Funcidx, Functype, Global, Import, Memtype, SpecCode,
    SpecData, SpecElem, SpecExport, SpecFunctype, SpecImport, Tabletype, Typeidx,
};
use crate::decode::{decode_vector, views, Decode, DecodeError, spec_vector};
use crate::reader::{lemma_unsigned_bound, spec_unsigned, Reader, SpecRes};
use crate::symbols::{Magic, Version};
use crate::validation::ValidateError;
use vstd::arithmetic::power2::*;
use vstd::prelude::*;

verus! {

/// The identifier byte of a section.
#[derive(Debug, Clone, Copy, PartialEq, Eq, Structural, PartialOrd, Ord)]
pub enum SectionId {
    Custom,
    Type,
    Import,
    Function,
    Table,
    Memory,
    Global,
    Export,
    Start,
    Element,
    Code,
    Data,
}

impl SectionId {
    /// The byte that stands for the section.
    pub open spec fn spec_id(self) -> u8 {
        match self {
            SectionId::Custom => 0,
            SectionId::Type => 1,
            SectionId::Import => 2,
            SectionId::Function => 3,
            SectionId::Table => 4,
            SectionId::Memory => 5,
            SectionId::Global => 6,
            SectionId::Export => 7,
            SectionId::Start => 8,
            SectionId::Element => 9,
            SectionId::Code => 10,
            SectionId::Data => 11,
        }
    }

    /// The section that a byte stands for, if any (bytes 0 to 11).
    pub open spec fn spec_from_byte(b: u8) -> Option<SectionId> {
        if b == 0 {
            Some(SectionId::Custom)
        } else if b == 1 {
            Some(SectionId::Type)
        } else if b == 2 {
            Some(SectionId::Import)
        } else if b == 3 {
            Some(SectionId::Function)
        } else if b == 4 {
            Some(SectionId::Table)
        } else if b == 5 {
            Some(SectionId::Memory)
        } else if b == 6 {
            Some(SectionId::Global)
        } else if b == 7 {
            Some(SectionId::Export)
        } else if b == 8 {
            Some(SectionId::Start)
        } else if b == 9 {
            Some(SectionId::Element)
        } else if b == 10 {
            Some(SectionId::Code)
        } else if b == 11 {
            Some(SectionId::Data)
        } else {
            None
        }
    }

    /// The byte that stands for the section.
    pub fn id(self) -> (b: u8)
        ensures
            b == self.spec_id(),
    {
        match self {
            SectionId::Custom => 0,
            SectionId::Type => 1,
            SectionId::Import => 2,
            SectionId::Function => 3,
            SectionId::Table => 4,
            SectionId::Memory => 5,
            SectionId::Global => 6,
            SectionId::Export => 7,
            SectionId::Start => 8,
            SectionId::Element => 9,
            SectionId::Code => 10,
            SectionId::Data => 11,
        }
    }
}

impl View for SectionId {
    type V = SectionId;

    open spec fn view(&self) -> SectionId {
        *self
    }
}

impl Decode for SectionId {
    /// One byte from 0 to 11.
    open spec fn spec_decode(data: Seq<u8>, pos: int) -> SpecRes<SectionId> {
        match spec_byte(data, pos) {
            Ok((b, p)) => match SectionId::spec_from_byte(b) {
                Some(id) => Ok((id, p)),
                None => Err(DecodeError::InvalidSectionId { value: b }),
            },
            Err(e) => Err(e),
        }
    }

    proof fn lemma_decode_progress(data: Seq<u8>, pos: int) {
    }

    fn decode(reader: &mut Reader) -> (res: Result<Self, DecodeError>) {
        let b = reader.read_u8()?;
        match b {
            0 => Ok(SectionId::Custom),
            1 => Ok(SectionId::Type),
            2 => Ok(SectionId::Import),
            3 => Ok(SectionId::Function),
            4 => Ok(SectionId::Table),
            5 => Ok(SectionId::Memory),
            6 => Ok(SectionId::Global),
            7 => Ok(SectionId::Export),
            8 => Ok(SectionId::Start),
            9 => Ok(SectionId::Element),
            10 => Ok(SectionId::Code),
            11 => Ok(SectionId::Data),
            value => Err(DecodeError::InvalidSectionId { value }),
        }
    }
}

/// The abstract content of a module.
pub struct SpecModule {
    pub function_types: Seq<SpecFunctype>,
    pub imports: Seq<SpecImport>,
    pub functions: Seq<Typeidx>,
    pub table_types: Seq<Tabletype>,
    pub memory_type: Option<Memtype>,
    pub globals: Seq<Global>,
    pub exports: Seq<SpecExport>,
    pub start_function: Option<Funcidx>,
    pub elements: Seq<SpecElem>,
    pub function_codes: Seq<SpecCode>,
    pub data_segments: Seq<SpecData>,
}

/// A module with no sections.
pub open spec fn spec_empty_module() -> SpecModule {
    SpecModule {
        function_types: Seq::empty(),
        imports: Seq::empty(),
        functions: Seq::empty(),
        table_types: Seq::empty(),
        memory_type: None,
        globals: Seq::empty(),
        exports: Seq::empty(),
        start_function: None,
        elements: Seq::empty(),
        function_codes: Seq::empty(),
        data_segments: Seq::empty(),
    }
}

/// The content of the memory section `body` read from its start, applied to
/// `m`: a count of at most one, then that many memory types.
pub open spec fn spec_memory_section(body: Seq<u8>, m: SpecModule) -> SpecRes<SpecModule> {
    match spec_unsigned(body, 0, 32) {
        Ok((n, p)) => if n > 1 {
            Err(DecodeError::InvalidMemoryCount { value: n as usize })
        } else if n == 1 {
            match Memtype::spec_decode(body, p) {
                Ok((t, q)) => Ok((SpecModule { memory_type: Some(t), ..m }, q)),
                Err(e) => Err(e),
            }
        } else {
            Ok((m, p))
        },
        Err(e) => Err(e),
    }
}

/// The content of a (non-custom) section `body`, read from its start and
/// stored in `m`, with the position where reading stopped.
#[verifier::opaque]
pub open spec fn spec_section_body(id: SectionId, body: Seq<u8>, m: SpecModule) -> SpecRes<SpecModule> {
    match id {
        SectionId::Type => match spec_vector::<Functype>(body, 0) {
            Ok((v, p)) => Ok((SpecModule { function_types: v, ..m }, p)),
            Err(e) => Err(e),
        },
        SectionId::Import => match spec_vector::<Import>(body, 0) {
            Ok((v, p)) => Ok((SpecModule { imports: v, ..m }, p)),
            Err(e) => Err(e),
        },
        SectionId::Function => match spec_vector::<Typeidx>(body, 0) {
            Ok((v, p)) => Ok((SpecModule { functions: v, ..m }, p)),
            Err(e) => Err(e),
        },
        SectionId::Table => match spec_vector::<Tabletype>(body, 0) {
            Ok((v, p)) => Ok((SpecModule { table_types: v, ..m }, p)),
            Err(e) => Err(e),
        },
        SectionId::Memory => spec_memory_section(body, m),
        SectionId::Global => match spec_vector::<Global>(body, 0) {
            Ok((v, p)) => Ok((SpecModule { globals: v, ..m }, p)),
            Err(e) => Err(e),
        },
        SectionId::Export => match spec_vector::<Export>(body, 0) {
            Ok((v, p)) => Ok((SpecModule { exports: v, ..m }, p)),
            Err(e) => Err(e),
        },
        SectionId::Start => match Funcidx::spec_decode(body, 0) {
            Ok((f, p)) => Ok((SpecModule { start_function: Some(f), ..m }, p)),
            Err(e) => Err(e),
        },
        SectionId::Element => match spec_vector::<Elem>(body, 0) {
            Ok((v, p)) => Ok((SpecModule { elements: v, ..m }, p)),
            Err(e) => Err(e),
        },
        SectionId::Code => match spec_vector::<Code>(body, 0) {
            Ok((v, p)) => Ok((SpecModule { function_codes: v, ..m }, p)),
            Err(e) => Err(e),
        },
        SectionId::Data => match spec_vector::<Data>(body, 0) {
            Ok((v, p)) => Ok((SpecModule { data_segments: v, ..m }, p)),
            Err(e) => Err(e),
        },
        SectionId::Custom => Ok((m, body.len() as int)),
    }
}

/// The sections from `pos` to the end of `data`, read into `m`, where `last`
/// is the last non-custom section read so far. Each section is an id byte, a
/// `u32` size and that many bytes; custom sections are skipped; a section may
/// not come before one with a greater id; a section's content must fill it
/// exactly.
#[verifier::opaque]
pub open spec fn spec_sections(data: Seq<u8>, pos: int, last: SectionId, m: SpecModule) -> Result<SpecModule, DecodeError>
    decreases data.len() - pos,
{
    if pos < 0 || pos >= data.len() {
        Ok(m)
    } else {
        match SectionId::spec_decode(data, pos) {
            Err(e) => Err(e),
            Ok((id, p)) => match spec_unsigned(data, p, 32) {
                Err(e) => Err(e),
                Ok((size, q)) => if q + size > data.len() {
                    Err(DecodeError::UnexpectedEndOfBytes)
                } else {
                    let next = q + size;
                    proof {
                        lemma_unsigned_bound(data, p, 32);
                    }
                    if id == SectionId::Custom {
                        spec_sections(data, next, last, m)
                    } else if id.spec_id() < last.spec_id() {
                        Err(
                            DecodeError::InvalidSectionOrder {
                                last_section_id: last.spec_id(),
                                current_section_id: id.spec_id(),
                            },
                        )
                    } else {
                        match spec_section_body(id, data.subrange(q, next), m) {
                            Err(e) => Err(e),
                            Ok((m2, end)) => if end != size {
                                Err(
                                    DecodeError::InvalidSectionSize {
                                        section_id: id.spec_id(),
                                        expected_size: size as usize,
                                        actual_size: end as usize,
                                    },
                                )
                            } else {
                                spec_sections(data, next, id, m2)
                            },
                        }
                    }
                },
            },
        }
    }
}

/// A whole module: the magic number, the version, then the sections.
pub open spec fn spec_decode_module(data: Seq<u8>) -> Result<SpecModule, DecodeError> {
    match Magic::spec_decode(data, 0) {
        Err(e) => Err(e),
        Ok(p) => match Version::spec_decode(data, p) {
            Err(e) => Err(e),
            Ok(q) => spec_sections(data, q, SectionId::Custom, spec_empty_module()),
        },
    }
}

/// A decoded (not validated) module.
#[derive(Debug, Clone)]
pub struct Module {
    function_types: Vec<Functype>,
    imports: Vec<Import>,
    functions: Vec<Typeidx>,
    table_types: Vec<Tabletype>,
    memory_type: Option<Memtype>,
    globals: Vec<Global>,
    exports: Vec<Export>,
    start_function: Option<Funcidx>,
    elements: Vec<Elem>,
    function_codes: Vec<Code>,
    data_segments: Vec<Data>,
}

impl View for Module {
    type V = SpecModule;

    closed spec fn view(&self) -> SpecModule {
        SpecModule {
            function_types: views(self.function_types@),
            imports: views(self.imports@),
            functions: views(self.functions@),
            table_types: views(self.table_types@),
            memory_type: match self.memory_type {
                Some(t) => Some(t@),
                None => None,
            },
            globals: views(self.globals@),
            exports: views(self.exports@),
            start_function: match self.start_function {
                Some(f) => Some(f@),
                None => None,
            },
            elements: views(self.elements@),
            function_codes: views(self.function_codes@),
            data_segments: views(self.data_segments@),
        }
    }
}

impl Module {
    /// A module with no sections.
    fn empty() -> (m: Module)
        ensures
            m@ == spec_empty_module(),
    {
        let m = Module {
            function_types: Vec::new(),
            imports: Vec::new(),
            functions: Vec::new(),
            table_types: Vec::new(),
            memory_type: None,
            globals: Vec::new(),
            exports: Vec::new(),
            start_function: None,
            elements: Vec::new(),
            function_codes: Vec::new(),
            data_segments: Vec::new(),
        };
        proof {
            assert(m@.function_types =~= Seq::<SpecFunctype>::empty());
            assert(m@.imports =~= Seq::<SpecImport>::empty());
            assert(m@.functions =~= Seq::<Typeidx>::empty());
            assert(m@.table_types =~= Seq::<Tabletype>::empty());
            assert(m@.globals =~= Seq::<Global>::empty());
            assert(m@.exports =~= Seq::<SpecExport>::empty());
            assert(m@.elements =~= Seq::<SpecElem>::empty());
            assert(m@.function_codes =~= Seq::<SpecCode>::empty());
            assert(m@.data_segments =~= Seq::<SpecData>::empty());
        }
        m
    }

    /// Decodes a whole module from its binary encoding.
    pub fn decode(wasm_bytes: &[u8]) -> (res: Result<Module, DecodeError>)
        ensures
            match spec_decode_module(wasm_bytes@) {
                Ok(m) => res matches Ok(module) && module@ == m,
                Err(e) => res matches Err(f) && f == e,
            },
    {
        let mut this = Module::empty();
        let mut reader = Reader::new(wasm_bytes);
        let _ = Magic::decode(&mut reader)?;
        let _ = Version::decode(&mut reader)?;
        this.decode_sections(&mut reader)?;
        Ok(this)
    }

    /// Checks that the module is valid. No rule is checked yet: every
    /// decoded module is accepted.
    pub fn instantiate(&self) -> (r: Result<(), ValidateError>)
        ensures
            r is Ok,
    {
        Ok(())
    }

    /// The function types of the type section.
    pub fn function_types(&self) -> (r: &[Functype])
        ensures
            views(r@) == self@.function_types,
    {
        self.function_types.as_slice()
    }

    /// The imports.
    pub fn imports(&self) -> (r: &[Import])
        ensures
            views(r@) == self@.imports,
    {
        self.imports.as_slice()
    }

    /// The type index of each function defined by the module.
    pub fn functions(&self) -> (r: &[Typeidx])
        ensures
            r@ == self@.functions,
    {
        proof {
            assert(views(self.functions@) =~= self.functions@);
        }
        self.functions.as_slice()
    }

    /// The table types.
    pub fn table_types(&self) -> (r: &[Tabletype])
        ensures
            r@ == self@.table_types,
    {
        proof {
            assert(views(self.table_types@) =~= self.table_types@);
        }
        self.table_types.as_slice()
    }

    /// The memory type, if the module defines a memory.
    pub fn memory_type(&self) -> (r: Option<Memtype>)
        ensures
            r == self@.memory_type,
    {
        self.memory_type
    }

    /// The globals.
    pub fn globals(&self) -> (r: &[Global])
        ensures
            r@ == self@.globals,
    {
        proof {
            assert(views(self.globals@) =~= self.globals@);
        }
        self.globals.as_slice()
    }

    /// The exports.
    pub fn exports(&self) -> (r: &[Export])
        ensures
            views(r@) == self@.exports,
    {
        self.exports.as_slice()
    }

    /// The start function, if any.
    pub fn start_function(&self) -> (r: Option<Funcidx>)
        ensures
            r == self@.start_function,
    {
        self.start_function
    }

    /// The element segments.
    pub fn elements(&self) -> (r: &[Elem])
        ensures
            views(r@) == self@.elements,
    {
        self.elements.as_slice()
    }

    /// The bodies of the functions defined by the module.
    pub fn function_codes(&self) -> (r: &[Code])
        ensures
            views(r@) == self@.function_codes,
    {
        self.function_codes.as_slice()
    }

    /// The data segments.
    pub fn data_segments(&self) -> (r: &[Data])
        ensures
            views(r@) == self@.data_segments,
    {
        self.data_segments.as_slice()
    }

    /// Reads the content of the memory section.
    fn decode_memory_section(&mut self, reader: &mut Reader) -> (res: Result<(), DecodeError>)
        requires
            old(reader).wf(),
            old(reader).pos() == 0,
        ensures
            final(reader).wf(),
            final(reader).bytes() == old(reader).bytes(),
            match spec_memory_section(old(reader).bytes(), old(self)@) {
                Ok((m, p)) => res is Ok && final(self)@ == m && final(reader).pos() == p,
                Err(e) => res == Err::<(), DecodeError>(e),
            },
    {
        proof {
            lemma_unsigned_bound(reader.bytes(), 0, 32);
            lemma2_to64();
        }
        let value = reader.read_usize()?;
        if value > 1 {
            return Err(DecodeError::InvalidMemoryCount { value });
        }
        if value == 1 {
            let mem = Memtype::decode(reader)?;
            self.memory_type = Some(mem);
        }
        Ok(())
    }

    /// Reads the content of a non-custom section into the module.
    fn decode_section_body(&mut self, id: SectionId, reader: &mut Reader) -> (res: Result<(), DecodeError>)
        requires
            old(reader).wf(),
            old(reader).pos() == 0,
            id != SectionId::Custom,
        ensures
            final(reader).wf(),
            final(reader).bytes() == old(reader).bytes(),
            match spec_section_body(id, old(reader).bytes(), old(self)@) {
                Ok((m, p)) => res is Ok && final(self)@ == m && final(reader).pos() == p,
                Err(e) => res == Err::<(), DecodeError>(e),
            },
    {
        proof {
            reveal(spec_section_body);
        }
        match id {
            SectionId::Type => {
                self.function_types = decode_vector(reader)?;
            },
            SectionId::Import => {
                self.imports = decode_vector(reader)?;
            },
            SectionId::Function => {
                self.functions = decode_vector(reader)?;
            },
            SectionId::Table => {
                self.table_types = decode_vector(reader)?;
            },
            SectionId::Memory => {
                self.decode_memory_section(reader)?;
            },
            SectionId::Global => {
                self.globals = decode_vector(reader)?;
            },
            SectionId::Export => {
                self.exports = decode_vector(reader)?;
            },
            SectionId::Start => {
                self.start_function = Some(Funcidx::decode(reader)?);
            },
            SectionId::Element => {
                self.elements = decode_vector(reader)?;
            },
            SectionId::Code => {
                self.function_codes = decode_vector(reader)?;
            },
            SectionId::Data => {
                self.data_segments = decode_vector(reader)?;
            },
            SectionId::Custom => {},
        }
        Ok(())
    }

    /// Reads one section at the (not yet reached) end of `reader`, where
    /// `last` is the last non-custom section so far; returns the new last.
    fn decode_section(&mut self, reader: &mut Reader, last: SectionId) -> (res: Result<SectionId, DecodeError>)
        requires
            old(reader).wf(),
            old(reader).pos() < old(reader).bytes().len(),
        ensures
            final(reader).wf(),
            final(reader).bytes() == old(reader).bytes(),
            res matches Ok(id) ==> old(reader).pos() < final(reader).pos() && spec_sections(
                old(reader).bytes(),
                old(reader).pos(),
                last,
                old(self)@,
            ) == spec_sections(final(reader).bytes(), final(reader).pos(), id, final(self)@),
            res matches Err(e) ==> spec_sections(old(reader).bytes(), old(reader).pos(), last, old(self)@)
                == Err::<SpecModule, DecodeError>(e),
    {
        let ghost data = reader.bytes();
        proof {
            reveal(spec_sections);
        }
        let section_id = SectionId::decode(reader)?;
        let ghost p = reader.pos();
        proof {
            lemma_unsigned_bound(data, p, 32);
            lemma2_to64();
        }
        let section_size = reader.read_usize()?;
        let body = reader.read(section_size)?;
        let mut section_reader = Reader::new(body);
        if section_id == SectionId::Custom {
            return Ok(last);
        }
        if section_id.id() < last.id() {
            return Err(
                DecodeError::InvalidSectionOrder {
                    last_section_id: last.id(),
                    current_section_id: section_id.id(),
                },
            );
        }
        self.decode_section_body(section_id, &mut section_reader)?;
        if !section_reader.is_empty() {
            return Err(
                DecodeError::InvalidSectionSize {
                    section_id: section_id.id(),
                    expected_size: section_size,
                    actual_size: section_reader.position(),
                },
            );
        }
        Ok(section_id)
    }

    /// Reads sections up to the end of `reader`.
    fn decode_sections(&mut self, reader: &mut Reader) -> (res: Result<(), DecodeError>)
        requires
            old(reader).wf(),
        ensures
            match spec_sections(old(reader).bytes(), old(reader).pos(), SectionId::Custom, old(self)@) {
                Ok(m) => res is Ok && final(self)@ == m,
                Err(e) => res == Err::<(), DecodeError>(e),
            },
    {
        let ghost data = reader.bytes();
        let ghost goal = spec_sections(data, reader.pos(), SectionId::Custom, self@);
        proof {
            reveal(spec_sections);
        }
        let mut last_section_id = SectionId::Custom;
        while !reader.is_empty()
            invariant
                reader.wf(),
                reader.bytes() == data,
                data == old(reader).bytes(),
                goal == spec_sections(old(reader).bytes(), old(reader).pos(), SectionId::Custom, old(self)@),
                goal == spec_sections(data, reader.pos(), last_section_id, self@),
            decreases data.len() - reader.pos(),
        {
            last_section_id = self.decode_section(reader, last_section_id)?;
        }
        Ok(())
    }
}

} // verus!
