//! A summary of a module that counts its parts without keeping them.
use crate::components::{Export, Expr, Globaltype, Import, SpecExport, SpecImport};
use crate::decode::{decode_vector, spec_vector, views, Decode, DecodeError};
use crate::instructions::SpecInstr;
use crate::module::SectionId;
use crate::reader::{lemma_unsigned_bound, spec_unsigned, Reader, SpecRes};
use crate::symbols::{FuncType, Magic, SpecFuncType, Version};
use vstd::arithmetic::power2::*;
use vstd::prelude::*;

verus! {

/// A global as the summary reads it: its type and its initialiser, any
/// expression.
pub struct GlobalDef {
    pub ty: Globaltype,
    pub init: Expr,
}

impl View for GlobalDef {
    type V = (Globaltype, Seq<SpecInstr>);

    open spec fn view(&self) -> (Globaltype, Seq<SpecInstr>) {
        (self.ty, self.init@)
    }
}

impl Decode for GlobalDef {
    open spec fn spec_decode(data: Seq<u8>, pos: int) -> SpecRes<(Globaltype, Seq<SpecInstr>)> {
        match Globaltype::spec_decode(data, pos) {
            Ok((ty, p)) => match Expr::spec_decode(data, p) {
                Ok((init, q)) => Ok(((ty, init), q)),
                Err(e) => Err(e),
            },
            Err(e) => Err(e),
        }
    }

    proof fn lemma_decode_progress(data: Seq<u8>, pos: int) {
        Globaltype::lemma_decode_progress(data, pos);
        if let Ok((_, p)) = Globaltype::spec_decode(data, pos) {
            Expr::lemma_decode_progress(data, p);
        }
    }

    fn decode(reader: &mut Reader) -> (res: Result<Self, DecodeError>) {
        let ty = Globaltype::decode(reader)?;
        let init = Expr::decode(reader)?;
        Ok(GlobalDef { ty, init })
    }
}

/// The sum of a sequence of numbers.
pub open spec fn seq_sum(s: Seq<nat>) -> nat
    decreases s.len(),
{
    if s.len() == 0 {
        0
    } else {
        seq_sum(s.drop_last()) + s.last()
    }
}

/// `x`, or `usize::MAX` if `x` is larger.
pub open spec fn saturate(x: nat) -> usize {
    if x > usize::MAX {
        usize::MAX
    } else {
        x as usize
    }
}

/// What a summary counts.
#[derive(Debug, Clone, Copy, PartialEq, Eq, Structural)]
pub struct ModuleSpec {
    pub func_types: usize,
    pub imports: usize,
    pub bytes: usize,
    pub idxs: usize,
    pub table_types: usize,
    pub val_types: usize,
    pub globals: usize,
    pub instrs: usize,
    pub exports: usize,
}

/// The counts of a summary, without bound.
pub struct SpecCounts {
    pub func_types: nat,
    pub imports: nat,
    pub bytes: nat,
    pub idxs: nat,
    pub table_types: nat,
    pub val_types: nat,
    pub globals: nat,
    pub instrs: nat,
    pub exports: nat,
}

/// No counts yet.
pub open spec fn spec_zero_counts() -> SpecCounts {
    SpecCounts {
        func_types: 0,
        imports: 0,
        bytes: 0,
        idxs: 0,
        table_types: 0,
        val_types: 0,
        globals: 0,
        instrs: 0,
        exports: 0,
    }
}

impl ModuleSpec {
    /// The summary holds the counts `c`, each capped at `usize::MAX`.
    pub open spec fn holds(self, c: SpecCounts) -> bool {
        &&& self.func_types == saturate(c.func_types)
        &&& self.imports == saturate(c.imports)
        &&& self.bytes == saturate(c.bytes)
        &&& self.idxs == saturate(c.idxs)
        &&& self.table_types == saturate(c.table_types)
        &&& self.val_types == saturate(c.val_types)
        &&& self.globals == saturate(c.globals)
        &&& self.instrs == saturate(c.instrs)
        &&& self.exports == saturate(c.exports)
    }
}

/// The counts after the section `id` with content `body`: the number of
/// items of the type, import, function, table, global and export sections;
/// the value types of the function types; the bytes of the names of imports
/// and exports; the instructions of the global initialisers. A memory
/// section may announce at most one memory. The other sections are not
/// counted.
#[verifier::opaque]
pub open spec fn spec_count_section(id: SectionId, body: Seq<u8>, c: SpecCounts) -> Result<
    SpecCounts,
    DecodeError,
> {
    match id {
        SectionId::Type => match spec_vector::<FuncType>(body, 0) {
            Ok((ts, _)) => Ok(
                SpecCounts {
                    func_types: ts.len(),
                    val_types: c.val_types + seq_sum(
                        ts.map_values(|t: SpecFuncType| t.rt1.len() + t.rt2.len()),
                    ),
                    ..c
                },
            ),
            Err(e) => Err(e),
        },
        SectionId::Import => match spec_vector::<Import>(body, 0) {
            Ok((is, _)) => Ok(
                SpecCounts {
                    imports: is.len(),
                    bytes: c.bytes + seq_sum(
                        is.map_values(|i: SpecImport| i.module.len() + i.name.len()),
                    ),
                    ..c
                },
            ),
            Err(e) => Err(e),
        },
        SectionId::Function => match spec_unsigned(body, 0, 32) {
            Ok((n, _)) => Ok(SpecCounts { idxs: c.idxs + n, ..c }),
            Err(e) => Err(e),
        },
        SectionId::Table => match spec_unsigned(body, 0, 32) {
            Ok((n, _)) => Ok(SpecCounts { table_types: n, ..c }),
            Err(e) => Err(e),
        },
        SectionId::Memory => match spec_unsigned(body, 0, 32) {
            Ok((n, _)) => if n > 1 {
                Err(DecodeError::InvalidMemoryCount { value: n as usize })
            } else {
                Ok(c)
            },
            Err(e) => Err(e),
        },
        SectionId::Global => match spec_vector::<GlobalDef>(body, 0) {
            Ok((gs, _)) => Ok(
                SpecCounts {
                    globals: gs.len(),
                    instrs: c.instrs + seq_sum(
                        gs.map_values(|g: (Globaltype, Seq<SpecInstr>)| g.1.len()),
                    ),
                    ..c
                },
            ),
            Err(e) => Err(e),
        },
        SectionId::Export => match spec_vector::<Export>(body, 0) {
            Ok((es, _)) => Ok(
                SpecCounts {
                    exports: es.len(),
                    bytes: c.bytes + seq_sum(es.map_values(|e: SpecExport| e.name.len())),
                    ..c
                },
            ),
            Err(e) => Err(e),
        },
        _ => Ok(c),
    }
}

/// The counts of the sections from `pos` to the end of `data`, where `last`
/// is the last non-custom section so far. A non-custom section must come
/// after every earlier one (no repeats).
#[verifier::opaque]
pub open spec fn spec_count_sections(data: Seq<u8>, pos: int, last: SectionId, c: SpecCounts) -> Result<
    SpecCounts,
    DecodeError,
>
    decreases data.len() - pos,
{
    if pos < 0 || pos >= data.len() {
        Ok(c)
    } else {
        match SectionId::spec_decode(data, pos) {
            Err(e) => Err(e),
            Ok((id, p)) => if id != SectionId::Custom && id.spec_id() <= last.spec_id() {
                Err(
                    DecodeError::InvalidSectionOrder {
                        last_section_id: last.spec_id(),
                        current_section_id: id.spec_id(),
                    },
                )
            } else {
                let last2 = if id == SectionId::Custom {
                    last
                } else {
                    id
                };
                match spec_unsigned(data, p, 32) {
                    Err(e) => Err(e),
                    Ok((size, q)) => if q + size > data.len() {
                        Err(DecodeError::UnexpectedEndOfBytes)
                    } else {
                        proof {
                            lemma_unsigned_bound(data, p, 32);
                        }
                        match spec_count_section(id, data.subrange(q, q + size), c) {
                            Err(e) => Err(e),
                            Ok(c2) => spec_count_sections(data, q + size, last2, c2),
                        }
                    },
                }
            },
        }
    }
}

/// The summary of a whole module.
pub open spec fn spec_inspect(data: Seq<u8>) -> Result<SpecCounts, DecodeError> {
    match Magic::spec_decode(data, 0) {
        Err(e) => Err(e),
        Ok(p) => match Version::spec_decode(data, p) {
            Err(e) => Err(e),
            Ok(q) => spec_count_sections(data, q, SectionId::Custom, spec_zero_counts()),
        },
    }
}

/// Adding capped counts caps the sum.
proof fn lemma_saturate_add(a: nat, b: nat)
    ensures
        saturate(saturate(a) as nat + saturate(b) as nat) == saturate(a + b),
{
}

/// Sums `f` over the items, capped at `usize::MAX`, given each item's
/// capped size.
fn sum_capped<T: View>(items: &Vec<T>, Ghost(f): Ghost<spec_fn(T::V) -> nat>, sizes: &Vec<usize>) -> (r: usize)
    requires
        sizes@.len() == items@.len(),
        forall|k: int| 0 <= k < items@.len() ==> #[trigger] sizes@[k] == saturate(f(items@[k]@)),
    ensures
        r == saturate(seq_sum(views(items@).map_values(f))),
{
    let mut acc: usize = 0;
    let mut k: usize = 0;
    while k < sizes.len()
        invariant
            k <= sizes@.len() == items@.len(),
            forall|j: int| 0 <= j < items@.len() ==> #[trigger] sizes@[j] == saturate(f(items@[j]@)),
            acc == saturate(seq_sum(views(items@).subrange(0, k as int).map_values(f))),
        decreases sizes@.len() - k,
    {
        let ghost before = views(items@).subrange(0, k as int).map_values(f);
        proof {
            let after = views(items@).subrange(0, k + 1).map_values(f);
            assert(after.drop_last() =~= before);
            assert(after.last() == f(items@[k as int]@));
            lemma_saturate_add(seq_sum(before), f(items@[k as int]@));
        }
        acc = acc.saturating_add(sizes[k]);
        k = k + 1;
    }
    proof {
        assert(views(items@).subrange(0, k as int) =~= views(items@));
    }
    acc
}

impl ModuleSpec {
    /// Counts the parts of the module `wasm_bytes`.
    pub fn inspect(wasm_bytes: &[u8]) -> (res: Result<ModuleSpec, DecodeError>)
        ensures
            match spec_inspect(wasm_bytes@) {
                Ok(c) => res matches Ok(m) && m.holds(c),
                Err(e) => res == Err::<ModuleSpec, DecodeError>(e),
            },
    {
        let mut reader = Reader::new(wasm_bytes);
        let mut this = ModuleSpec {
            func_types: 0,
            imports: 0,
            bytes: 0,
            idxs: 0,
            table_types: 0,
            val_types: 0,
            globals: 0,
            instrs: 0,
            exports: 0,
        };
        let _ = Magic::decode(&mut reader)?;
        let _ = Version::decode(&mut reader)?;
        let ghost c0 = spec_zero_counts();
        proof {
            assert(this.holds(c0));
        }
        let c = this.handle_module(&mut reader, Ghost(c0));
        c?;
        Ok(this)
    }

    /// Counts the sections up to the end of `reader`.
    fn handle_module(&mut self, reader: &mut Reader, Ghost(c): Ghost<SpecCounts>) -> (res: Result<
        (),
        DecodeError,
    >)
        requires
            old(reader).wf(),
            old(self).holds(c),
        ensures
            match spec_count_sections(old(reader).bytes(), old(reader).pos(), SectionId::Custom, c) {
                Ok(c2) => res is Ok && final(self).holds(c2),
                Err(e) => res == Err::<(), DecodeError>(e),
            },
    {
        let ghost data = reader.bytes();
        let ghost goal = spec_count_sections(data, reader.pos(), SectionId::Custom, c);
        let ghost mut cur = c;
        let mut last_section_id = SectionId::Custom;
        while !reader.is_empty()
            invariant
                reader.wf(),
                reader.bytes() == data,
                data == old(reader).bytes(),
                goal == spec_count_sections(old(reader).bytes(), old(reader).pos(), SectionId::Custom, c),
                self.holds(cur),
                goal == spec_count_sections(data, reader.pos(), last_section_id, cur),
            decreases data.len() - reader.pos(),
        {
            proof {
                reveal(spec_count_sections);
            }
            let ghost pos = reader.pos();
            let section_id = SectionId::decode(reader)?;
            if section_id != SectionId::Custom {
                if section_id.id() <= last_section_id.id() {
                    return Err(
                        DecodeError::InvalidSectionOrder {
                            last_section_id: last_section_id.id(),
                            current_section_id: section_id.id(),
                        },
                    );
                }
                last_section_id = section_id;
            }
            let ghost p = reader.pos();
            proof {
                lemma_unsigned_bound(data, p, 32);
                lemma2_to64();
            }
            let section_size = reader.read_usize()?;
            let body = reader.read(section_size)?;
            let mut section_reader = Reader::new(body);
            let ghost next = spec_count_section(section_id, body@, cur);
            self.handle_section(section_id, &mut section_reader, Ghost(cur))?;
            proof {
                cur = next->Ok_0;
            }
        }
        proof {
            reveal(spec_count_sections);
        }
        Ok(())
    }

    /// Counts the section `id` with content `reader`.
    fn handle_section(&mut self, id: SectionId, reader: &mut Reader, Ghost(c): Ghost<SpecCounts>) -> (res: Result<
        (),
        DecodeError,
    >)
        requires
            old(reader).wf(),
            old(reader).pos() == 0,
            old(self).holds(c),
        ensures
            match spec_count_section(id, old(reader).bytes(), c) {
                Ok(c2) => res is Ok && final(self).holds(c2),
                Err(e) => res == Err::<(), DecodeError>(e),
            },
    {
        proof {
            reveal(spec_count_section);
            lemma_unsigned_bound(reader.bytes(), 0, 32);
            lemma2_to64();
        }
        match id {
            SectionId::Type => {
                let types: Vec<FuncType> = decode_vector(reader)?;
                let mut sizes: Vec<usize> = Vec::new();
                let mut k: usize = 0;
                while k < types.len()
                    invariant
                        k <= types@.len(),
                        sizes@.len() == k,
                        forall|j: int| 0 <= j < k ==> #[trigger] sizes@[j] == saturate(types@[j]@.rt1.len() + types@[j]@.rt2.len()),
                    decreases types@.len() - k,
                {
                    sizes.push(types[k].rt1.len().saturating_add(types[k].rt2.len()));
                    k = k + 1;
                }
                let n = sum_capped(&types, Ghost(|t: SpecFuncType| t.rt1.len() + t.rt2.len()), &sizes);
                proof {
                    lemma_saturate_add(c.val_types, seq_sum(views(types@).map_values(|t: SpecFuncType| t.rt1.len() + t.rt2.len())));
                }
                self.func_types = types.len();
                self.val_types = self.val_types.saturating_add(n);
            },
            SectionId::Import => {
                let imports: Vec<Import> = decode_vector(reader)?;
                let mut sizes: Vec<usize> = Vec::new();
                let mut k: usize = 0;
                while k < imports.len()
                    invariant
                        k <= imports@.len(),
                        sizes@.len() == k,
                        forall|j: int| 0 <= j < k ==> #[trigger] sizes@[j] == saturate(imports@[j]@.module.len() + imports@[j]@.name.len()),
                    decreases imports@.len() - k,
                {
                    sizes.push(imports[k].module.len().saturating_add(imports[k].name.len()));
                    k = k + 1;
                }
                let n = sum_capped(&imports, Ghost(|i: SpecImport| i.module.len() + i.name.len()), &sizes);
                proof {
                    lemma_saturate_add(c.bytes, seq_sum(views(imports@).map_values(|i: SpecImport| i.module.len() + i.name.len())));
                }
                self.imports = imports.len();
                self.bytes = self.bytes.saturating_add(n);
            },
            SectionId::Function => {
                let n = reader.read_usize()?;
                proof {
                    lemma_saturate_add(c.idxs, n as nat);
                }
                self.idxs = self.idxs.saturating_add(n);
            },
            SectionId::Table => {
                self.table_types = reader.read_usize()?;
            },
            SectionId::Memory => {
                let value = reader.read_usize()?;
                if value > 1 {
                    return Err(DecodeError::InvalidMemoryCount { value });
                }
            },
            SectionId::Global => {
                let globals: Vec<GlobalDef> = decode_vector(reader)?;
                let mut sizes: Vec<usize> = Vec::new();
                let mut k: usize = 0;
                while k < globals.len()
                    invariant
                        k <= globals@.len(),
                        sizes@.len() == k,
                        forall|j: int| 0 <= j < k ==> #[trigger] sizes@[j] == saturate(globals@[j]@.1.len()),
                    decreases globals@.len() - k,
                {
                    let instrs = globals[k].init.instrs();
                    proof {
                        assert(views(instrs@).len() == instrs@.len());
                    }
                    sizes.push(instrs.len());
                    k = k + 1;
                }
                let n = sum_capped(&globals, Ghost(|g: (Globaltype, Seq<SpecInstr>)| g.1.len()), &sizes);
                proof {
                    lemma_saturate_add(c.instrs, seq_sum(views(globals@).map_values(|g: (Globaltype, Seq<SpecInstr>)| g.1.len())));
                }
                self.globals = globals.len();
                self.instrs = self.instrs.saturating_add(n);
            },
            SectionId::Export => {
                let exports: Vec<Export> = decode_vector(reader)?;
                let mut sizes: Vec<usize> = Vec::new();
                let mut k: usize = 0;
                while k < exports.len()
                    invariant
                        k <= exports@.len(),
                        sizes@.len() == k,
                        forall|j: int| 0 <= j < k ==> #[trigger] sizes@[j] == saturate(exports@[j]@.name.len()),
                    decreases exports@.len() - k,
                {
                    sizes.push(exports[k].name.len());
                    k = k + 1;
                }
                let n = sum_capped(&exports, Ghost(|e: SpecExport| e.name.len()), &sizes);
                proof {
                    lemma_saturate_add(c.bytes, seq_sum(views(exports@).map_values(|e: SpecExport| e.name.len())));
                }
                self.exports = exports.len();
                self.bytes = self.bytes.saturating_add(n);
            },
            _ => {},
        }
        Ok(())
    }
}

} // verus!
