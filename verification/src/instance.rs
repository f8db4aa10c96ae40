//! Instances of a module: host functions, the functions of an instance, and
//! the resolution of imports.
use crate::components::{
    args_match, Exportdesc, SpecExport, SpecImport, Funcidx, Functype, Global, Importdesc, Limits, Memtype, Resulttype, SpecData,
    SpecElem, SpecFunctype, Tabletype, Valtype,
};
use crate::control::{
    extends, func_shape, lemma_extends_refl, same_but_values, lemma_same_shapes, run_call, shapes, Outside, Run,
};
use crate::decode::views;
use crate::execute::{is_runtime_error, ExecuteError, Executor, FloatOps, GlobalVal, Val};
use crate::module::{Module, SpecModule};
use crate::semantics::MachineState;
use crate::PAGE_SIZE;
use vstd::prelude::*;
use vstd::string::StringSliceAdditionalSpecFns;

verus! {

/// What a host function may read and change: the memory and the globals of
/// the instance that calls it.
#[derive(Debug)]
pub struct Env {
    pub mem: Vec<u8>,
    pub globals: Vec<GlobalVal>,
}

/// A function that the embedder provides for an import. Nothing is assumed
/// of what it returns or of what it does to `env`.
pub trait HostFunc {
    fn invoke(&mut self, args: &[Val], env: &mut Env) -> Option<Val>;
}

/// The host function of an embedder that resolves no function import: it is
/// never called, and returns nothing.
impl HostFunc for () {
    fn invoke(&mut self, args: &[Val], env: &mut Env) -> (r: Option<Val>)
        ensures
            r is None,
            *final(env) == *old(env),
    {
        None
    }
}

/// A function of an instance: an imported host function (with the index of
/// its import) or a function of the module (with its index among them).
#[derive(Debug)]
pub enum FuncInst<H> {
    Imported { imports_index: usize, host_func: H },
    Module { funcs_index: usize },
}

/// `b` holds the functions of `a`, the host functions possibly in another
/// state: each imported function is still the same import, and each
/// function of the module is unchanged.
pub open spec fn same_funcs<H>(a: Seq<FuncInst<H>>, b: Seq<FuncInst<H>>) -> bool {
    &&& a.len() == b.len()
    &&& forall|k: int|
        0 <= k < a.len() ==> match #[trigger] a[k] {
            FuncInst::Imported { imports_index, .. } => b[k] is Imported && b[k]->imports_index
                == imports_index,
            FuncInst::Module { .. } => b[k] == a[k],
        }
}

/// The type of the function `f` of an instance of `m`, if its index refers to
/// a function import or function of `m` whose type index is in range.
pub open spec fn spec_functype_of<H>(f: FuncInst<H>, m: SpecModule) -> Option<SpecFunctype> {
    match f {
        FuncInst::Imported { imports_index, .. } => if imports_index < m.imports.len() {
            match m.imports[imports_index as int].desc {
                Importdesc::Func(t) => if t.0 < m.function_types.len() {
                    Some(m.function_types[t.0 as int])
                } else {
                    None
                },
                _ => None,
            }
        } else {
            None
        },
        FuncInst::Module { funcs_index } => if funcs_index < m.functions.len() && m.functions[
            funcs_index as int
        ].0 < m.function_types.len() {
            Some(m.function_types[m.functions[funcs_index as int].0 as int])
        } else {
            None
        },
    }
}

impl<H: HostFunc> FuncInst<H> {
    /// The function's type in `module`.
    pub fn get_type<'a>(&self, module: &'a Module) -> (r: Option<&'a Functype>)
        ensures
            match spec_functype_of(*self, module@) {
                Some(t) => r matches Some(ft) && ft@ == t,
                None => r is None,
            },
    {
        match self {
            FuncInst::Imported { imports_index, .. } => {
                let imports = module.imports();
                if *imports_index >= imports.len() {
                    return None;
                }
                match imports[*imports_index].desc {
                    Importdesc::Func(typeidx) => {
                        let types = module.function_types();
                        let k = typeidx.get();
                        if k < types.len() {
                            Some(&types[k])
                        } else {
                            None
                        }
                    },
                    _ => None,
                }
            },
            FuncInst::Module { funcs_index } => {
                let functions = module.functions();
                if *funcs_index >= functions.len() {
                    return None;
                }
                let types = module.function_types();
                let k = functions[*funcs_index].get();
                if k < types.len() {
                    Some(&types[k])
                } else {
                    None
                }
            },
        }
    }

    /// Calls the host function of an imported function with `args`; a
    /// function of the module has no host function and gives `None`.
    pub fn invoke_host(&mut self, args: &[Val], env: &mut Env) -> (r: Option<Val>)
        ensures
            *old(self) is Module ==> r is None && *final(self) == *old(self) && *final(env) == *old(
                env,
            ),
            *old(self) is Imported ==> *final(self) is Imported && final(self)->imports_index
                == old(self)->imports_index,
    {
        match self {
            FuncInst::Imported { host_func, .. } => host_func.invoke(args, env),
            FuncInst::Module { .. } => None,
        }
    }
}

/// How an embedder supplies the imports of a module. Each method is asked
/// for one import and may decline it; nothing is assumed of its answers.
pub trait Resolve {
    type HostFunc: HostFunc;

    fn resolve_mem(&self, module: &str, name: &str, ty: Memtype) -> (r: Option<&[u8]>)
        default_ensures
            r is None,
    {
        None
    }

    fn resolve_table(&self, module: &str, name: &str, limits: Limits) -> (r: Option<
        &[Option<Funcidx>],
    >)
        default_ensures
            r is None,
    {
        None
    }

    fn resolve_global(&self, module: &str, name: &str, ty: Valtype) -> (r: Option<Val>)
        default_ensures
            r is None,
    {
        None
    }

    fn resolve_func(
        &self,
        module: &str,
        name: &str,
        params: &[Valtype],
        result: Resulttype,
    ) -> (r: Option<Self::HostFunc>)
        default_ensures
            r is None,
    {
        None
    }
}

/// An embedder with no imports to offer.
impl Resolve for () {
    type HostFunc = ();
}

/// The globals of an instance: the imported ones, then each global of the
/// module (of the first `n`) initialised from the imported ones; or the first
/// global whose initialiser fails.
pub open spec fn spec_init_globals(imported: Seq<GlobalVal>, globals: Seq<Global>, n: nat) -> Result<
    Seq<GlobalVal>,
    ExecuteError,
>
    decreases n,
{
    if n == 0 {
        Ok(imported)
    } else {
        match spec_init_globals(imported, globals, (n - 1) as nat) {
            Ok(s) => match globals[n - 1].spec_init(imported) {
                Some(g) => Ok(s.push(g)),
                None => Err(ExecuteError::InvalidGlobal { index: (n - 1) as usize }),
            },
            Err(e) => Err(e),
        }
    }
}

/// `mem` with `bytes` written from `start` on.
pub open spec fn spec_write<T>(mem: Seq<T>, start: int, bytes: Seq<T>) -> Seq<T> {
    mem.subrange(0, start) + bytes + mem.subrange(start + bytes.len(), mem.len() as int)
}

/// The memory before the data segments are written: the imported memory,
/// which must lie within the memory type and be whole pages, or the
/// type's minimum number of zeroed pages.
pub open spec fn spec_base_mem(imported: Option<Seq<u8>>, memory_type: Option<Memtype>) -> Result<
    Seq<u8>,
    ExecuteError,
> {
    match memory_type {
        Some(t) => match imported {
            Some(v) => if t.spec_contains(v.len() as int) && v.len() % (PAGE_SIZE as nat) == 0 {
                Ok(v)
            } else {
                Err(ExecuteError::InvalidImportedMem)
            },
            None => if t.min_fits() {
                Ok(Seq::new((t.limits.min * PAGE_SIZE) as nat, |i: int| 0u8))
            } else {
                Err(ExecuteError::Trapped)
            },
        },
        None => match imported {
            Some(_) => Err(ExecuteError::InvalidImportedMem),
            None => Ok(Seq::empty()),
        },
    }
}

/// `mem` with the first `n` data segments written to it, each at the offset
/// its expression gives with `globals`; or the first segment that has no
/// memory, a missing or negative offset, or does not fit.
pub open spec fn spec_write_datas(
    mem: Seq<u8>,
    globals: Seq<GlobalVal>,
    defined: Seq<Global>,
    datas: Seq<SpecData>,
    has_mem: bool,
    n: nat,
) -> Result<Seq<u8>, ExecuteError>
    decreases n,
{
    if n == 0 {
        Ok(mem)
    } else {
        match spec_write_datas(mem, globals, defined, datas, has_mem, (n - 1) as nat) {
            Err(e) => Err(e),
            Ok(m) => {
                let d = datas[n - 1];
                let err = ExecuteError::InvalidData { index: (n - 1) as usize };
                if !has_mem {
                    Err(err)
                } else {
                    match d.offset.spec_get(globals, defined) {
                        Some(off) => if off < 0 || off + d.init.len() > m.len() {
                            Err(err)
                        } else {
                            Ok(spec_write(m, off as int, d.init))
                        },
                        None => Err(err),
                    }
                }
            },
        }
    }
}

/// The memory of a new instance.
pub open spec fn spec_init_mem(
    globals: Seq<GlobalVal>,
    imported: Option<Seq<u8>>,
    m: SpecModule,
) -> Result<Seq<u8>, ExecuteError> {
    match spec_base_mem(imported, m.memory_type) {
        Ok(base) => spec_write_datas(
            base,
            globals,
            m.globals,
            m.data_segments,
            m.memory_type is Some,
            m.data_segments.len(),
        ),
        Err(e) => Err(e),
    }
}

/// Whether a size lies within limits.
pub open spec fn limits_contain(l: Limits, n: int) -> bool {
    &&& l.min <= n
    &&& l.max matches Some(m) ==> n <= m
}

/// The table type of the module, if it has one.
pub open spec fn first_table(m: SpecModule) -> Option<Tabletype> {
    if m.table_types.len() > 0 {
        Some(m.table_types[0])
    } else {
        None
    }
}

/// The table before the element segments are written: the imported table,
/// which must lie within the table type, or the type's minimum number of
/// empty entries.
pub open spec fn spec_base_table(
    imported: Option<Seq<Option<Funcidx>>>,
    table_type: Option<Tabletype>,
) -> Result<Seq<Option<Funcidx>>, ExecuteError> {
    match table_type {
        Some(t) => match imported {
            Some(v) => if limits_contain(t.limits, v.len() as int) {
                Ok(v)
            } else {
                Err(ExecuteError::InvalidImportedTable)
            },
            None => Ok(Seq::new(t.limits.min as nat, |i: int| None::<Funcidx>)),
        },
        None => match imported {
            Some(_) => Err(ExecuteError::InvalidImportedTable),
            None => Ok(Seq::empty()),
        },
    }
}

/// `Some` of each function index.
pub open spec fn some_funcs(s: Seq<Funcidx>) -> Seq<Option<Funcidx>> {
    s.map_values(|f: Funcidx| Some(f))
}

/// `table` with the first `n` element segments written to it.
pub open spec fn spec_write_elems(
    table: Seq<Option<Funcidx>>,
    globals: Seq<GlobalVal>,
    defined: Seq<Global>,
    elems: Seq<SpecElem>,
    has_table: bool,
    n: nat,
) -> Result<Seq<Option<Funcidx>>, ExecuteError>
    decreases n,
{
    if n == 0 {
        Ok(table)
    } else {
        match spec_write_elems(table, globals, defined, elems, has_table, (n - 1) as nat) {
            Err(e) => Err(e),
            Ok(t) => {
                let el = elems[n - 1];
                let err = ExecuteError::InvalidElem { index: (n - 1) as usize };
                if !has_table {
                    Err(err)
                } else {
                    match el.offset.spec_get(globals, defined) {
                        Some(off) => if off < 0 || off + el.init.len() > t.len() {
                            Err(err)
                        } else {
                            Ok(spec_write(t, off as int, some_funcs(el.init)))
                        },
                        None => Err(err),
                    }
                }
            },
        }
    }
}

/// Whether every function index in `table` is below `n`.
pub open spec fn table_in_range(table: Seq<Option<Funcidx>>, n: nat) -> bool {
    forall|k: int| 0 <= k < table.len() ==> (#[trigger] table[k] matches Some(f) ==> f.0 < n)
}

/// The table of a new instance with `n_funcs` functions.
pub open spec fn spec_init_table(
    globals: Seq<GlobalVal>,
    n_funcs: nat,
    imported: Option<Seq<Option<Funcidx>>>,
    m: SpecModule,
) -> Result<Seq<Option<Funcidx>>, ExecuteError> {
    match spec_base_table(imported, first_table(m)) {
        Ok(base) => match spec_write_elems(
            base,
            globals,
            m.globals,
            m.elements,
            first_table(m) is Some,
            m.elements.len(),
        ) {
            Ok(t) => if table_in_range(t, n_funcs) {
                Ok(t)
            } else {
                Err(ExecuteError::InvalidFuncidx)
            },
            Err(e) => Err(e),
        },
        Err(e) => Err(e),
    }
}

/// Initialises the globals of an instance from the imported ones.
pub fn init_globals(imported_globals: &[GlobalVal], module: &Module) -> (res: Result<
    Vec<GlobalVal>,
    ExecuteError,
>)
    ensures
        match spec_init_globals(imported_globals@, module@.globals, module@.globals.len()) {
            Ok(s) => res matches Ok(v) && v@ == s,
            Err(e) => res == Err::<Vec<GlobalVal>, ExecuteError>(e),
        },
        res matches Err(e) ==> e is InvalidGlobal,
{
    let mut globals: Vec<GlobalVal> = Vec::new();
    let mut k: usize = 0;
    while k < imported_globals.len()
        invariant
            k <= imported_globals@.len(),
            globals@ == imported_globals@.subrange(0, k as int),
        decreases imported_globals@.len() - k,
    {
        globals.push(imported_globals[k]);
        proof {
            assert(imported_globals@.subrange(0, k + 1) =~= imported_globals@.subrange(
                0,
                k as int,
            ).push(imported_globals@[k as int]));
        }
        k = k + 1;
    }
    proof {
        assert(globals@ =~= imported_globals@);
    }
    let defined = module.globals();
    let mut index: usize = 0;
    while index < defined.len()
        invariant
            index <= defined@.len(),
            defined@ == module@.globals,
            spec_init_globals(imported_globals@, defined@, index as nat) == Ok::<
                Seq<GlobalVal>,
                ExecuteError,
            >(globals@),
        decreases defined@.len() - index,
    {
        match defined[index].init(imported_globals) {
            Some(v) => globals.push(v),
            None => {
                proof {
                    lemma_init_globals_err(imported_globals@, defined@, (index + 1) as nat, defined@.len());
                }
                return Err(ExecuteError::InvalidGlobal { index });
            },
        }
        index = index + 1;
    }
    Ok(globals)
}

/// Once a global fails to initialise, initialising more fails the same way.
pub proof fn lemma_init_globals_err(imported: Seq<GlobalVal>, globals: Seq<Global>, n: nat, m: nat)
    requires
        n <= m,
        spec_init_globals(imported, globals, n) is Err,
    ensures
        spec_init_globals(imported, globals, m) == spec_init_globals(imported, globals, n),
    decreases m,
{
    if n < m {
        lemma_init_globals_err(imported, globals, n, (m - 1) as nat);
    }
}

/// Whether a memory of `len` bytes lies within the memory type.
fn mem_type_contains(t: Memtype, len: usize) -> (b: bool)
    ensures
        b == t.spec_contains(len as int),
{
    let min = t.limits.min as u64 * 65536;
    if (len as u64) < min {
        return false;
    }
    match t.limits.max {
        Some(max) => len as u64 <= max as u64 * 65536,
        None => true,
    }
}

/// Writes `src` into `dst` from `start` on.
fn write_at<T: Copy>(dst: &mut Vec<T>, start: usize, src: &[T])
    requires
        start + src@.len() <= old(dst)@.len(),
    ensures
        final(dst)@ == spec_write(old(dst)@, start as int, src@),
{
    let ghost d0 = dst@;
    let _ = dst.len();
    let mut j: usize = 0;
    while j < src.len()
        invariant
            j <= src@.len(),
            start + src@.len() <= d0.len() <= usize::MAX,
            dst@.len() == d0.len(),
            forall|k: int| 0 <= k < d0.len() && !(start <= k < start + j) ==> #[trigger] dst@[k] == d0[k],
            forall|k: int| start <= k < start + j ==> #[trigger] dst@[k] == src@[k - start],
        decreases src@.len() - j,
    {
        dst.set(start + j, src[j]);
        j = j + 1;
    }
    proof {
        assert(dst@ =~= spec_write(d0, start as int, src@));
    }
}

/// The memory of a new instance: the imported memory or a zeroed one of
/// the module's minimum size, with the data segments written to it.
#[verifier::loop_isolation(false)]
pub fn init_mem(globals: &[GlobalVal], mem: Option<Vec<u8>>, module: &Module) -> (res: Result<
    Vec<u8>,
    ExecuteError,
>)
    ensures
        match spec_init_mem(
            globals@,
            match mem {
                Some(v) => Some(v@),
                None => None,
            },
            module@,
        ) {
            Ok(s) => res matches Ok(v) && v@ == s,
            Err(e) => res == Err::<Vec<u8>, ExecuteError>(e),
        },
        res matches Err(e) ==> e is InvalidImportedMem || e is Trapped || e is InvalidData,
{
    let memory_type = module.memory_type();
    let ghost imported = match &mem {
        Some(v) => Some(v@),
        None => None,
    };
    let mut mem: Vec<u8> = match memory_type {
        Some(t) => match mem {
            Some(v) => {
                if !mem_type_contains(t, v.len()) || v.len() % PAGE_SIZE != 0 {
                    return Err(ExecuteError::InvalidImportedMem);
                }
                v
            },
            None => {
                if t.limits.min as u64 * 65536 > usize::MAX as u64 {
                    return Err(ExecuteError::Trapped);
                }
                let v = vec![0u8; t.min_bytes()];
                proof {
                    assert(v@ =~= Seq::new((t.limits.min * PAGE_SIZE) as nat, |i: int| 0u8));
                }
                v
            },
        },
        None => match mem {
            Some(_) => return Err(ExecuteError::InvalidImportedMem),
            None => Vec::new(),
        },
    };
    let ghost base = mem@;
    let datas = module.data_segments();
    let mut index: usize = 0;
    while index < datas.len()
        invariant
            index <= datas@.len(),
            views(datas@) == module@.data_segments,
            memory_type == module@.memory_type,
            spec_base_mem(imported, module@.memory_type) == Ok::<Seq<u8>, ExecuteError>(base),
            spec_write_datas(base, globals@, module@.globals, module@.data_segments, memory_type is Some, index as nat)
                == Ok::<Seq<u8>, ExecuteError>(mem@),
        decreases datas@.len() - index,
    {
        let data = &datas[index];
        let ghost d = module@.data_segments[index as int];
        assert(data@ == d);
        let ok = match memory_type {
            None => None,
            Some(_) => match data.offset.get(globals, module) {
                Some(offset) => {
                    if offset < 0 || data.init.len() > mem.len() || offset as usize > mem.len()
                        - data.init.len() {
                        None
                    } else {
                        Some(offset as usize)
                    }
                },
                None => None,
            },
        };
        match ok {
            Some(start) => {
                write_at(&mut mem, start, data.init.as_slice());
            },
            None => {
                proof {
                    assert(d.offset == data.offset && d.init == data.init@);
                    assert(spec_write_datas(base, globals@, module@.globals, module@.data_segments, memory_type is Some, (index + 1) as nat)
                        == Err::<Seq<u8>, ExecuteError>(ExecuteError::InvalidData { index }));
                    lemma_write_datas_err(base, globals@, module@.globals, module@.data_segments, memory_type is Some, (index + 1) as nat, datas@.len());
                }
                return Err(ExecuteError::InvalidData { index });
            },
        }
        index = index + 1;
    }
    Ok(mem)
}

/// Once a data segment fails, writing more segments fails the same way.
pub proof fn lemma_write_datas_err(
    mem: Seq<u8>,
    globals: Seq<GlobalVal>,
    defined: Seq<Global>,
    datas: Seq<SpecData>,
    has_mem: bool,
    n: nat,
    m: nat,
)
    requires
        n <= m,
        spec_write_datas(mem, globals, defined, datas, has_mem, n) is Err,
    ensures
        spec_write_datas(mem, globals, defined, datas, has_mem, m) == spec_write_datas(
            mem,
            globals,
            defined,
            datas,
            has_mem,
            n,
        ),
    decreases m,
{
    if n < m {
        lemma_write_datas_err(mem, globals, defined, datas, has_mem, n, (m - 1) as nat);
    }
}

/// The table of a new instance with `n_funcs` functions: the imported table
/// or an empty one of the module's minimum size, with the element segments
/// written to it; every function index in it must be below `n_funcs`.
#[verifier::loop_isolation(false)]
pub fn init_table(
    globals: &[GlobalVal],
    n_funcs: usize,
    table: Option<Vec<Option<Funcidx>>>,
    module: &Module,
) -> (res: Result<Vec<Option<Funcidx>>, ExecuteError>)
    ensures
        match spec_init_table(
            globals@,
            n_funcs as nat,
            match table {
                Some(v) => Some(v@),
                None => None,
            },
            module@,
        ) {
            Ok(s) => res matches Ok(v) && v@ == s,
            Err(e) => res == Err::<Vec<Option<Funcidx>>, ExecuteError>(e),
        },
        res matches Err(e) ==> e is InvalidImportedTable || e is InvalidElem || e is InvalidFuncidx,
{
    let table_types = module.table_types();
    let table_type: Option<Tabletype> = if table_types.len() > 0 {
        Some(table_types[0])
    } else {
        None
    };
    let ghost imported = match &table {
        Some(v) => Some(v@),
        None => None,
    };
    let mut table: Vec<Option<Funcidx>> = match table_type {
        Some(t) => match table {
            Some(v) => {
                let len = v.len();
                let fits = match t.limits.max {
                    Some(max) => t.limits.min as usize <= len && len <= max as usize,
                    None => t.limits.min as usize <= len,
                };
                if !fits {
                    return Err(ExecuteError::InvalidImportedTable);
                }
                v
            },
            None => {
                let v: Vec<Option<Funcidx>> = vec![None; t.limits.min as usize];
                proof {
                    assert(v@ =~= Seq::new(t.limits.min as nat, |i: int| None::<Funcidx>));
                }
                v
            },
        },
        None => match table {
            Some(_) => return Err(ExecuteError::InvalidImportedTable),
            None => Vec::new(),
        },
    };
    let ghost base = table@;
    let elems = module.elements();
    let mut index: usize = 0;
    while index < elems.len()
        invariant
            index <= elems@.len(),
            views(elems@) == module@.elements,
            spec_write_elems(base, globals@, module@.globals, module@.elements, table_type is Some, index as nat)
                == Ok::<Seq<Option<Funcidx>>, ExecuteError>(table@),
        decreases elems@.len() - index,
    {
        let elem = &elems[index];
        let ghost el = module@.elements[index as int];
        assert(elem@ == el);
        let ok = match table_type {
            None => None,
            Some(_) => match elem.offset.get(globals, module) {
                Some(offset) => {
                    if offset < 0 || elem.init.len() > table.len() || offset as usize > table.len()
                        - elem.init.len() {
                        None
                    } else {
                        Some(offset as usize)
                    }
                },
                None => None,
            },
        };
        match ok {
            Some(start) => {
                let mut entries: Vec<Option<Funcidx>> = Vec::new();
                let mut j: usize = 0;
                while j < elem.init.len()
                    invariant
                        j <= elem.init@.len(),
                        entries@ == some_funcs(elem.init@.subrange(0, j as int)),
                    decreases elem.init@.len() - j,
                {
                    entries.push(Some(elem.init[j]));
                    proof {
                        assert(some_funcs(elem.init@.subrange(0, j + 1)) =~= some_funcs(
                            elem.init@.subrange(0, j as int),
                        ).push(Some(elem.init@[j as int])));
                    }
                    j = j + 1;
                }
                proof {
                    assert(elem.init@.subrange(0, j as int) =~= elem.init@);
                }
                write_at(&mut table, start, entries.as_slice());
            },
            None => {
                proof {
                    assert(el.offset == elem.offset && el.init == elem.init@);
                    lemma_write_elems_err(base, globals@, module@.globals, module@.elements, table_type is Some, (index + 1) as nat, elems@.len());
                }
                return Err(ExecuteError::InvalidElem { index });
            },
        }
        index = index + 1;
    }
    let mut k: usize = 0;
    while k < table.len()
        invariant
            k <= table@.len(),
            forall|i: int| 0 <= i < k ==> (#[trigger] table@[i] matches Some(f) ==> f.0 < n_funcs),
        decreases table@.len() - k,
    {
        if let Some(f) = table[k] {
            if f.get() >= n_funcs {
                return Err(ExecuteError::InvalidFuncidx);
            }
        }
        k = k + 1;
    }
    Ok(table)
}

/// Once an element segment fails, writing more segments fails the same way.
pub proof fn lemma_write_elems_err(
    table: Seq<Option<Funcidx>>,
    globals: Seq<GlobalVal>,
    defined: Seq<Global>,
    elems: Seq<SpecElem>,
    has_table: bool,
    n: nat,
    m: nat,
)
    requires
        n <= m,
        spec_write_elems(table, globals, defined, elems, has_table, n) is Err,
    ensures
        spec_write_elems(table, globals, defined, elems, has_table, m) == spec_write_elems(
            table,
            globals,
            defined,
            elems,
            has_table,
            n,
        ),
    decreases m,
{
    if n < m {
        lemma_write_elems_err(table, globals, defined, elems, has_table, n, (m - 1) as nat);
    }
}

/// The most calls and blocks that one call from the embedder may enter.
pub const FUEL: u64 = 0xffff_ffff_ffff_ffff;

/// The function that the first export named `name` (among the first `n`
/// exports) exports, if it exports a function.
pub open spec fn spec_find_export(exports: Seq<SpecExport>, name: Seq<u8>, n: nat) -> Option<Funcidx>
    decreases n,
{
    if n == 0 {
        None
    } else {
        match spec_find_export(exports, name, (n - 1) as nat) {
            Some(f) => Some(f),
            None => match exports[n - 1].desc {
                Exportdesc::Func(f) => if exports[n - 1].name == name {
                    Some(f)
                } else {
                    None
                },
                _ => None,
            },
        }
    }
}

/// The number of function imports among the first `n` imports.
pub open spec fn count_func_imports(imports: Seq<SpecImport>, n: nat) -> nat
    decreases n,
{
    if n == 0 {
        0
    } else {
        count_func_imports(imports, (n - 1) as nat) + if imports[n - 1].desc is Func {
            1nat
        } else {
            0nat
        }
    }
}

/// An instance of a module: the module, its runtime state, its functions
/// (the imported ones, then the module's own), and the floating-point
/// arithmetic it runs with.
pub struct ModuleInstance<H, F> {
    pub module: Module,
    pub executor: Executor,
    pub funcs: Vec<FuncInst<H>>,
    pub floats: F,
    pub queries: Ghost<Seq<ResolveQuery>>,
    pub answers: Ghost<Seq<ResolveAnswer>>,
}

/// What the resolver answered for one import: a host function, a table's
/// entries, a memory's bytes or a global's value.
pub enum ResolveAnswer {
    Func,
    Table(Seq<Option<Funcidx>>),
    Mem(Seq<u8>),
    Global(Val),
}

/// Whether `a` answers import `imp`: it is of the kind the import asks for.
pub open spec fn answers_import(imp: SpecImport, a: ResolveAnswer) -> bool {
    match imp.desc {
        Importdesc::Func(_) => a is Func,
        Importdesc::Table(_) => a is Table,
        Importdesc::Mem(_) => a is Mem,
        Importdesc::Global(_) => a is Global,
    }
}

/// The imported globals that the answers `a` to the first `n` imports give:
/// one for each global import, in order, with the import's mutability.
pub open spec fn spec_imported_globals(imports: Seq<SpecImport>, a: Seq<ResolveAnswer>, n: nat) -> Seq<
    GlobalVal,
>
    decreases n,
{
    if n == 0 {
        Seq::empty()
    } else {
        let rest = spec_imported_globals(imports, a, (n - 1) as nat);
        match (imports[n - 1].desc, a[n - 1]) {
            (Importdesc::Global(gt), ResolveAnswer::Global(v)) => rest.push(
                GlobalVal::spec_new(gt is Const, v),
            ),
            _ => rest,
        }
    }
}

/// The imported memory that the answers `a` to the first `n` imports give:
/// that of the last memory import, if there is one.
pub open spec fn spec_imported_mem(imports: Seq<SpecImport>, a: Seq<ResolveAnswer>, n: nat) -> Option<
    Seq<u8>,
>
    decreases n,
{
    if n == 0 {
        None
    } else {
        match a[n - 1] {
            ResolveAnswer::Mem(bytes) => Some(bytes),
            _ => spec_imported_mem(imports, a, (n - 1) as nat),
        }
    }
}

/// What the answers to the first `n` imports give depends on those answers
/// alone.
pub proof fn lemma_imported_prefix(
    imports: Seq<SpecImport>,
    a: Seq<ResolveAnswer>,
    b: Seq<ResolveAnswer>,
    n: nat,
)
    requires
        n <= a.len(),
        n <= b.len(),
        a.subrange(0, n as int) == b.subrange(0, n as int),
    ensures
        spec_imported_globals(imports, a, n) == spec_imported_globals(imports, b, n),
        spec_imported_mem(imports, a, n) == spec_imported_mem(imports, b, n),
        spec_imported_table(imports, a, n) == spec_imported_table(imports, b, n),
    decreases n,
{
    if n > 0 {
        assert(a[n - 1] == a.subrange(0, n as int)[n - 1]);
        assert(b[n - 1] == b.subrange(0, n as int)[n - 1]);
        assert(a.subrange(0, n - 1) =~= a.subrange(0, n as int).subrange(0, n - 1));
        assert(b.subrange(0, n - 1) =~= b.subrange(0, n as int).subrange(0, n - 1));
        lemma_imported_prefix(imports, a, b, (n - 1) as nat);
    }
}

/// The imported table that the answers `a` to the first `n` imports give:
/// that of the last table import, if there is one.
pub open spec fn spec_imported_table(imports: Seq<SpecImport>, a: Seq<ResolveAnswer>, n: nat) -> Option<
    Seq<Option<Funcidx>>,
>
    decreases n,
{
    if n == 0 {
        None
    } else {
        match a[n - 1] {
            ResolveAnswer::Table(t) => Some(t),
            _ => spec_imported_table(imports, a, (n - 1) as nat),
        }
    }
}

/// A question put to the resolver for one import: the module and item
/// names (as bytes) and what the `resolve_*` method is given besides them.
pub enum ResolveQuery {
    Func(Seq<u8>, Seq<u8>, Seq<Valtype>, Resulttype),
    Table(Seq<u8>, Seq<u8>, Limits),
    Mem(Seq<u8>, Seq<u8>, Memtype),
    Global(Seq<u8>, Seq<u8>, Valtype),
}

/// The question that resolving import `imp` asks, in a module whose function
/// types are `types`.
pub open spec fn spec_query(imp: SpecImport, types: Seq<SpecFunctype>) -> ResolveQuery {
    match imp.desc {
        Importdesc::Func(t) => ResolveQuery::Func(
            imp.module,
            imp.name,
            types[t.0 as int].params,
            types[t.0 as int].result,
        ),
        Importdesc::Table(tt) => ResolveQuery::Table(imp.module, imp.name, tt.limits),
        Importdesc::Mem(mt) => ResolveQuery::Mem(imp.module, imp.name, mt),
        Importdesc::Global(gt) => ResolveQuery::Global(imp.module, imp.name, gt.spec_val_type()),
    }
}

/// The questions that resolving the first `n` imports of `m` asks, in order.
pub open spec fn spec_queries(m: SpecModule, n: nat) -> Seq<ResolveQuery> {
    Seq::new(n, |i: int| spec_query(m.imports[i], m.function_types))
}

/// What an embedder supplied for the imports of a module: the imported
/// functions, in the order of their imports, and the imported memory, table
/// and globals.
pub struct ResolvedImports<H> {
    pub funcs: Vec<FuncInst<H>>,
    pub mem: Option<Vec<u8>>,
    pub table: Option<Vec<Option<Funcidx>>>,
    pub globals: Vec<GlobalVal>,
}

/// The view of an optional vector.
pub open spec fn opt_view<T>(v: Option<Vec<T>>) -> Option<Seq<T>> {
    match v {
        Some(v) => Some(v@),
        None => None,
    }
}

/// The state of a new instance of `m` with the imported `globals`, memory
/// and table and `n_funcs` functions in all, before its start function runs;
/// or the first error in setting up its globals, memory and table.
pub open spec fn spec_initial_state(
    m: SpecModule,
    globals: Seq<GlobalVal>,
    mem: Option<Seq<u8>>,
    table: Option<Seq<Option<Funcidx>>>,
    n_funcs: nat,
) -> Result<MachineState, ExecuteError> {
    match spec_init_globals(globals, m.globals, m.globals.len()) {
        Err(e) => Err(e),
        Ok(g) => match spec_init_mem(g, mem, m) {
            Err(e) => Err(e),
            Ok(mm) => match spec_init_table(g, n_funcs, table, m) {
                Err(e) => Err(e),
                Ok(t) => Ok(
                    MachineState {
                        mem: mm,
                        globals: g,
                        locals: Seq::empty(),
                        values: Seq::empty(),
                        table: t,
                        calls: Seq::empty(),
                    },
                ),
            },
        },
    }
}

/// The module's own `n` functions.
pub open spec fn own_funcs(n: nat) -> Seq<FuncInst<()>> {
    Seq::new(n, |k: int| FuncInst::<()>::Module { funcs_index: k as usize })
}

/// Whether an instance of `m` with functions `funcs`, set up from the
/// imported `globals`, memory and table, is in state `st` with the log of
/// host calls `log`: the initial state, after the start function if there is
/// one, whatever the host functions it calls answer.
pub open spec fn started_from(
    m: SpecModule,
    funcs: Seq<FuncInst<()>>,
    globals: Seq<GlobalVal>,
    mem: Option<Seq<u8>>,
    table: Option<Seq<Option<Funcidx>>>,
    st: MachineState,
    log: Seq<Outside>,
) -> bool {
    match spec_initial_state(m, globals, mem, table, funcs.len()) {
        Err(_) => false,
        Ok(s) => match m.start_function {
            None => st == s,
            Some(f) => forall|h: Seq<Outside>|
                #[trigger] extends(h, log) ==> match run_call(f, s, funcs, m, h, FUEL as nat) {
                    Run::Done(_, s2, _) => st == s2,
                    _ => false,
                },
        },
    }
}

/// Whether setting up an instance of `m` as `started_from` describes can
/// fail with `e`: setting up its globals, memory or table fails with `e`,
/// or its start function does for some answers of the host functions.
pub open spec fn start_fails(
    m: SpecModule,
    funcs: Seq<FuncInst<()>>,
    globals: Seq<GlobalVal>,
    mem: Option<Seq<u8>>,
    table: Option<Seq<Option<Funcidx>>>,
    e: ExecuteError,
) -> bool {
    match spec_initial_state(m, globals, mem, table, funcs.len()) {
        Err(e2) => e == e2,
        Ok(s) => match m.start_function {
            None => false,
            Some(f) => exists|h: Seq<Outside>|
                #[trigger] run_call(f, s, funcs, m, h, FUEL as nat) matches Run::Failed(e2, _) && e2 == e,
        },
    }
}

/// Whether import `i` of `m` is a function import whose type index is out
/// of range.
pub open spec fn bad_func_import(m: SpecModule, i: int) -> bool {
    m.imports[i].desc matches Importdesc::Func(t) && t.0 >= m.function_types.len()
}

impl<H: HostFunc, F: FloatOps> ModuleInstance<H, F> {
    /// Instantiates `module`: resolves its imports with `resolver`, sets up
    /// its globals, memory and table, and runs its start function.
    pub fn new<R: Resolve<HostFunc = H>>(module: Module, resolver: R, floats: F) -> (res: Result<
        Self,
        ExecuteError,
    >)
        ensures
            res matches Ok(inst) ==> {
                &&& inst.module@ == module@
                &&& inst.funcs@.len() == count_func_imports(module@.imports, module@.imports.len())
                    + module@.functions.len()
                &&& forall|k: int|
                    0 <= k < inst.funcs@.len() ==> (#[trigger] inst.funcs@[k] is Imported <==> k
                        < count_func_imports(module@.imports, module@.imports.len()))
                &&& inst.queries@ == spec_queries(module@, module@.imports.len())
                &&& inst.answers@.len() == module@.imports.len()
                &&& forall|i: int|
                    0 <= i < module@.imports.len() ==> answers_import(
                        module@.imports[i],
                        #[trigger] inst.answers@[i],
                    )
                &&& started_from(
                    module@,
                    shapes(inst.funcs@),
                    spec_imported_globals(module@.imports, inst.answers@, module@.imports.len()),
                    spec_imported_mem(module@.imports, inst.answers@, module@.imports.len()),
                    spec_imported_table(module@.imports, inst.answers@, module@.imports.len()),
                    inst.executor.state(),
                    inst.executor.calls@,
                )
            },
            res matches Err(ExecuteError::UnresolvedImport { index }) ==> index
                < module@.imports.len() && forall|i: int| 0 <= i < index ==> !bad_func_import(module@, i),
            (exists|i: int| 0 <= i < module@.imports.len() && bad_func_import(module@, i)) ==> res
                is Err && res->Err_0 is UnresolvedImport,
            module@.imports.len() == 0 ==> {
                &&& res matches Ok(inst) ==> started_from(
                    module@,
                    own_funcs(module@.functions.len()),
                    Seq::empty(),
                    None,
                    None,
                    inst.executor.state(),
                    inst.executor.calls@,
                )
                &&& res matches Err(e) ==> start_fails(
                    module@,
                    own_funcs(module@.functions.len()),
                    Seq::empty(),
                    None,
                    None,
                    e,
                )
                &&& spec_initial_state(module@, Seq::empty(), None, None, module@.functions.len()) matches Err(e)
                    ==> res == Err::<Self, ExecuteError>(e)
                &&& module@.start_function is None ==> (spec_initial_state(
                    module@,
                    Seq::empty(),
                    None,
                    None,
                    module@.functions.len(),
                ) is Ok <==> res is Ok)
            },
    {
        let mut imported_mem: Option<Vec<u8>> = None;
        let mut imported_table: Option<Vec<Option<Funcidx>>> = None;
        let mut imported_globals: Vec<GlobalVal> = Vec::new();
        let mut funcs: Vec<FuncInst<H>> = Vec::new();
        let imports = module.imports();
        let ghost mut queries: Seq<ResolveQuery> = Seq::empty();
        let ghost mut answers: Seq<ResolveAnswer> = Seq::empty();
        let mut index: usize = 0;
        while index < imports.len()
            invariant
                index <= imports@.len(),
                answers.len() == index,
                forall|i: int| 0 <= i < index ==> answers_import(module@.imports[i], #[trigger] answers[i]),
                imported_globals@ == spec_imported_globals(module@.imports, answers, index as nat),
                opt_view(imported_mem) == spec_imported_mem(module@.imports, answers, index as nat),
                opt_view(imported_table) == spec_imported_table(module@.imports, answers, index as nat),
                queries == spec_queries(module@, index as nat),
                views(imports@) == module@.imports,
                funcs@.len() == count_func_imports(module@.imports, index as nat),
                forall|k: int| 0 <= k < funcs@.len() ==> #[trigger] funcs@[k] is Imported,
                forall|i: int| 0 <= i < index ==> !bad_func_import(module@, i),
                imports@.len() == 0 ==> imported_globals@.len() == 0 && imported_mem is None
                    && imported_table is None,
            decreases imports@.len() - index,
        {
            let import = &imports[index];
            assert(import@ == module@.imports[index as int]);
            let ghost answers0 = answers;
            let module_name = import.module.as_str();
            let name = import.name.as_str();
            match &import.desc {
                Importdesc::Func(typeidx) => {
                    let types = module.function_types();
                    let t = typeidx.get();
                    if t >= types.len() {
                        return Err(ExecuteError::UnresolvedImport { index });
                    }
                    let ty = &types[t];
                    proof {
                        assert(views(types@)[t as int] == types@[t as int]@);
                        queries = queries.push(
                            ResolveQuery::Func(module_name.spec_bytes(), name.spec_bytes(), ty.params@, ty.result),
                        );
                    }
                    match resolver.resolve_func(module_name, name, ty.params.as_slice(), ty.result) {
                        Some(host_func) => {
                            funcs.push(FuncInst::Imported { imports_index: index, host_func });
                            proof {
                                answers = answers.push(ResolveAnswer::Func);
                            }
                        },
                        None => return Err(ExecuteError::UnresolvedImport { index }),
                    }
                },
                Importdesc::Table(ty) => {
                    proof {
                        queries = queries.push(
                            ResolveQuery::Table(module_name.spec_bytes(), name.spec_bytes(), ty.limits),
                        );
                    }
                    match resolver.resolve_table(module_name, name, ty.limits) {
                        Some(resolved) => {
                            imported_table = Some(vstd::slice::slice_to_vec(resolved));
                            proof {
                                answers = answers.push(ResolveAnswer::Table(resolved@));
                            }
                        },
                        None => return Err(ExecuteError::UnresolvedImport { index }),
                    }
                },
                Importdesc::Mem(ty) => {
                    proof {
                        queries = queries.push(
                            ResolveQuery::Mem(module_name.spec_bytes(), name.spec_bytes(), *ty),
                        );
                    }
                    match resolver.resolve_mem(module_name, name, *ty) {
                        Some(resolved) => {
                            imported_mem = Some(vstd::slice::slice_to_vec(resolved));
                            proof {
                                answers = answers.push(ResolveAnswer::Mem(resolved@));
                            }
                        },
                        None => return Err(ExecuteError::UnresolvedImport { index }),
                    }
                },
                Importdesc::Global(ty) => {
                    proof {
                        queries = queries.push(
                            ResolveQuery::Global(module_name.spec_bytes(), name.spec_bytes(), ty.spec_val_type()),
                        );
                    }
                    match resolver.resolve_global(module_name, name, ty.val_type()) {
                        Some(v) => {
                            imported_globals.push(GlobalVal::new(ty.is_const(), v));
                            proof {
                                answers = answers.push(ResolveAnswer::Global(v));
                            }
                        },
                        None => return Err(ExecuteError::UnresolvedImport { index }),
                    }
                },
            }
            proof {
                assert(queries =~= spec_queries(module@, (index + 1) as nat));
                assert(answers == answers0.push(answers[index as int]));
                assert(answers.subrange(0, index as int) =~= answers0.subrange(0, index as int));
                lemma_imported_prefix(module@.imports, answers, answers0, index as nat);
            }
            index = index + 1;
        }
        let ghost g = imported_globals@;
        let ghost funcs0 = funcs@;
        let ghost mem = opt_view(imported_mem);
        let ghost table = opt_view(imported_table);
        proof {
            if module@.imports.len() == 0 {
                assert(imported_globals@ =~= Seq::<GlobalVal>::empty());
                assert(funcs@.len() == 0);
                assert(shapes(funcs@) + own_funcs(module@.functions.len()) =~= own_funcs(
                    module@.functions.len(),
                ));
            }
        }
        let resolved = ResolvedImports {
            funcs,
            mem: imported_mem,
            table: imported_table,
            globals: imported_globals,
        };
        let res = match Self::instantiate_resolved(module, resolved, floats) {
            Ok(inst) => {
                let mut inst = inst;
                inst.queries = Ghost(queries);
                inst.answers = Ghost(answers);
                Ok(inst)
            },
            Err(e) => Err(e),
        };
        proof {
            if res is Ok {
                let inst = res->Ok_0;
                assert forall|k: int| 0 <= k < inst.funcs@.len() implies (#[trigger] inst.funcs@[k] is Imported <==> k
                    < count_func_imports(module@.imports, module@.imports.len())) by {
                    assert(shapes(inst.funcs@)[k] == func_shape(inst.funcs@[k]));
                    if k < count_func_imports(module@.imports, module@.imports.len()) {
                        assert(shapes(inst.funcs@)[k] == shapes(funcs0)[k]);
                        assert(shapes(funcs0)[k] == func_shape(funcs0[k]));
                    } else {
                        assert(shapes(inst.funcs@)[k] == own_funcs(module@.functions.len())[k - funcs0.len()]);
                    }
                }
                assert(started_from(
                    module@,
                    shapes(inst.funcs@),
                    g,
                    mem,
                    table,
                    inst.executor.state(),
                    inst.executor.calls@,
                ));
            }
        }
        res
    }

    /// Instantiates `module` with the imports that `imports` supplies: the
    /// module's own functions follow the imported ones; its globals, memory
    /// and table are set up; and its start function runs.
    pub fn instantiate_resolved(module: Module, imports: ResolvedImports<H>, floats: F) -> (res:
        Result<Self, ExecuteError>)
        ensures
            res matches Ok(inst) ==> {
                &&& inst.module@ == module@
                &&& inst.funcs@.len() == imports.funcs@.len() + module@.functions.len()
                &&& shapes(inst.funcs@) == shapes(imports.funcs@) + own_funcs(module@.functions.len())
                &&& started_from(
                    module@,
                    shapes(inst.funcs@),
                    imports.globals@,
                    opt_view(imports.mem),
                    opt_view(imports.table),
                    inst.executor.state(),
                    inst.executor.calls@,
                )
            },
            res matches Err(e) ==> !(e is UnresolvedImport),
            res matches Err(e) ==> start_fails(
                module@,
                shapes(imports.funcs@) + own_funcs(module@.functions.len()),
                imports.globals@,
                opt_view(imports.mem),
                opt_view(imports.table),
                e,
            ),
            spec_initial_state(
                module@,
                imports.globals@,
                opt_view(imports.mem),
                opt_view(imports.table),
                imports.funcs@.len() + module@.functions.len(),
            ) matches Err(e) ==> res == Err::<Self, ExecuteError>(e),
            module@.start_function is None ==> (spec_initial_state(
                module@,
                imports.globals@,
                opt_view(imports.mem),
                opt_view(imports.table),
                imports.funcs@.len() + module@.functions.len(),
            ) is Ok <==> res is Ok),
    {
        let ResolvedImports { funcs, mem: imported_mem, table: imported_table, globals: imported_globals } = imports;
        let mut funcs = funcs;
        let ghost fs0 = shapes(funcs@);
        let n_imported = funcs.len();
        let n_defined = module.functions().len();
        let mut i: usize = 0;
        while i < n_defined
            invariant
                i <= n_defined,
                n_defined == module@.functions.len(),
                funcs@.len() == n_imported + i,
                fs0.len() == n_imported,
                shapes(funcs@) == fs0 + own_funcs(i as nat),
            decreases n_defined - i,
        {
            let ghost prev = funcs@;
            funcs.push(FuncInst::Module { funcs_index: i });
            proof {
                assert(shapes(funcs@) =~= shapes(prev).push(FuncInst::<()>::Module { funcs_index: i }));
                assert(own_funcs((i + 1) as nat) =~= own_funcs(i as nat).push(FuncInst::<()>::Module { funcs_index: i }));
                assert(shapes(funcs@) =~= fs0 + own_funcs((i + 1) as nat));
            }
            i = i + 1;
        }
        let globals = match init_globals(imported_globals.as_slice(), &module) {
            Ok(g) => g,
            Err(e) => return Err(e),
        };
        let mem = match init_mem(globals.as_slice(), imported_mem, &module) {
            Ok(m) => m,
            Err(e) => return Err(e),
        };
        let table = match init_table(globals.as_slice(), funcs.len(), imported_table, &module) {
            Ok(t) => t,
            Err(e) => return Err(e),
        };
        let executor = Executor::new(mem, table, globals);
        let mut this = ModuleInstance {
            module,
            executor,
            funcs,
            floats,
            queries: Ghost(Seq::empty()),
            answers: Ghost(Seq::empty()),
        };
        let ghost s0 = this.executor.state();
        assert(spec_initial_state(
            this.module@,
            imported_globals@,
            opt_view(imported_mem),
            opt_view(imported_table),
            this.funcs@.len() as nat,
        ) == Ok::<MachineState, ExecuteError>(s0));
        if let Some(funcidx) = this.module.start_function() {
            let ghost before = this.funcs@;
            let (r, _) = this.executor.call_function(
                funcidx,
                &mut this.funcs,
                &this.module,
                &this.floats,
                FUEL,
            );
            proof {
                lemma_extends_refl(this.executor.calls@);
                lemma_same_shapes(before, this.funcs@);
                let w = this.executor.calls@;
                assert(extends(w, this.executor.calls@));
                let _ = run_call(funcidx, s0, shapes(before), this.module@, w, FUEL as nat);
            }
            if let Err(e) = r {
                return Err(e);
            }
        } else {
            proof {
                lemma_extends_refl(this.executor.calls@);
            }
        }
        Ok(this)
    }

    /// Calls the function exported as `function_name` with `args`, and
    /// returns its result, if it has one.
    pub fn invoke(&mut self, function_name: &str, args: &[Val]) -> (res: Result<
        Option<Val>,
        ExecuteError,
    >)
        ensures
            final(self).module@ == old(self).module@,
            same_funcs(old(self).funcs@, final(self).funcs@),
            match spec_find_export(
                old(self).module@.exports,
                function_name.spec_bytes(),
                old(self).module@.exports.len(),
            ) {
                None => res == Err::<Option<Val>, ExecuteError>(ExecuteError::NotExportedFunction)
                    && final(self).executor == old(self).executor && final(self).funcs == old(
                    self,
                ).funcs,
                Some(f) => if f.0 >= old(self).funcs@.len() {
                    res == Err::<Option<Val>, ExecuteError>(ExecuteError::InvalidFuncidx)
                        && final(self).executor == old(self).executor && final(self).funcs == old(
                        self,
                    ).funcs
                } else {
                    match spec_functype_of(old(self).funcs@[f.0 as int], old(self).module@) {
                        None => res == Err::<Option<Val>, ExecuteError>(
                            ExecuteError::InvalidFuncidx,
                        ) && final(self).executor == old(self).executor && final(self).funcs
                            == old(self).funcs,
                        Some(t) => if !args_match(args@, t.params) {
                            res == Err::<Option<Val>, ExecuteError>(ExecuteError::InvalidFuncArgs)
                                && final(self).executor == old(self).executor
                                && final(self).funcs == old(self).funcs
                        } else {
                            &&& res matches Ok(v) ==> (v is Some <==> t.result.spec_len() == 1)
                            &&& res matches Err(e) ==> is_runtime_error(e)
                            &&& extends(final(self).executor.calls@, old(self).executor.calls@)
                            &&& forall|h: Seq<Outside>|
                                #[trigger] extends(h, final(self).executor.calls@) ==> match run_call(
                                f,
                                (MachineState {
                                    values: old(self).executor.values@ + args@,
                                    ..old(self).executor.state()
                                }),
                                shapes(old(self).funcs@),
                                old(self).module@,
                                h,
                                FUEL as nat,
                            ) {
                                Run::Done(_, st, _) => if t.result.spec_len() == 0 {
                                    &&& res == Ok::<Option<Val>, ExecuteError>(None)
                                    &&& final(self).executor.state() == st
                                } else {
                                    &&& res == Ok::<Option<Val>, ExecuteError>(Some(st.values.last()))
                                    &&& final(self).executor.state() == (MachineState {
                                        values: st.values.drop_last(),
                                        ..st
                                    })
                                },
                                Run::Failed(e, st) => res == Err::<Option<Val>, ExecuteError>(e)
                                    && same_but_values(final(self).executor.state(), st),
                                            Run::Stray => false,
                            }
                        },
                    }
                },
            },
    {
        let exports = self.module.exports();
        let ghost name = function_name.spec_bytes();
        let mut found: Option<Funcidx> = None;
        let mut k: usize = 0;
        while k < exports.len() && found.is_none()
            invariant
                k <= exports@.len(),
                views(exports@) == self.module@.exports,
                name == function_name.spec_bytes(),
                found == spec_find_export(self.module@.exports, name, k as nat),
            decreases exports@.len() - k,
        {
            assert(self.module@.exports[k as int] == exports@[k as int]@);
            if let Exportdesc::Func(f) = exports[k].desc {
                if exports[k].name.eq_str(function_name) {
                    found = Some(f);
                }
            }
            k = k + 1;
        }
        proof {
            if found is Some {
                lemma_find_export_stable(self.module@.exports, name, k as nat, exports@.len());
            }
        }
        let func_idx = match found {
            Some(f) => f,
            None => return Err(ExecuteError::NotExportedFunction),
        };
        let fi = func_idx.get();
        if fi >= self.funcs.len() {
            return Err(ExecuteError::InvalidFuncidx);
        }
        let func_type = match self.funcs[fi].get_type(&self.module) {
            Some(t) => t,
            None => return Err(ExecuteError::InvalidFuncidx),
        };
        func_type.validate_args(args, &self.module)?;
        let result_len = func_type.result.len();
        let mut j: usize = 0;
        let ghost start = self.executor.values@.len();
        while j < args.len()
            invariant
                j <= args@.len(),
                self.executor.values@.len() == start + j,
                self.executor.values@ == old(self).executor.values@ + args@.subrange(0, j as int),
                self.executor.state() == (MachineState {
                    values: self.executor.values@,
                    ..old(self).executor.state()
                }),
                self.module == old(self).module,
                self.funcs == old(self).funcs,
            decreases args@.len() - j,
        {
            self.executor.push_value(args[j]);
            proof {
                assert(args@.subrange(0, j + 1) =~= args@.subrange(0, j as int).push(args@[j as int]));
            }
            j = j + 1;
        }
        proof {
            assert(args@.subrange(0, args@.len() as int) =~= args@);
        }
        let (r, _) = self.executor.call_function(
            func_idx,
            &mut self.funcs,
            &self.module,
            &self.floats,
            FUEL,
        );
        if let Err(e) = r {
            return Err(e);
        }
        if result_len == 0 {
            Ok(None)
        } else {
            Ok(Some(self.executor.pop_value()))
        }
    }

    /// The module of the instance.
    pub fn module(&self) -> (m: &Module)
        ensures
            m@ == self.module@,
    {
        &self.module
    }

    /// The functions of the instance.
    pub fn funcs(&self) -> (f: &[FuncInst<H>])
        ensures
            f@ == self.funcs@,
    {
        self.funcs.as_slice()
    }

    /// The memory of the instance.
    pub fn mem(&self) -> (m: &[u8])
        ensures
            m@ == self.executor.mem@,
    {
        self.executor.mem.as_slice()
    }

    /// The memory of the instance, to change its bytes.
    pub fn mem_mut(&mut self) -> (m: &mut [u8])
        ensures
            m@ == old(self).executor.mem@,
            final(m)@ == final(self).executor.mem@,
    {
        self.executor.mem.as_mut_slice()
    }

    /// The globals of the instance.
    pub fn globals(&self) -> (g: &[GlobalVal])
        ensures
            g@ == self.executor.globals@,
    {
        self.executor.globals.as_slice()
    }

    /// The globals of the instance, to change them.
    pub fn globals_mut(&mut self) -> (g: &mut [GlobalVal])
        ensures
            g@ == old(self).executor.globals@,
            final(g)@ == final(self).executor.globals@,
    {
        self.executor.globals.as_mut_slice()
    }

    /// The table of the instance.
    pub fn table(&self) -> (t: &[Option<Funcidx>])
        ensures
            t@ == self.executor.table@,
    {
        self.executor.table.as_slice()
    }

    /// The table of the instance, to change it.
    pub fn table_mut(&mut self) -> (t: &mut [Option<Funcidx>])
        ensures
            t@ == old(self).executor.table@,
            final(t)@ == final(self).executor.table@,
    {
        self.executor.table.as_mut_slice()
    }
}

/// Once an export is found among the first `n`, it is the one found among
/// more.
pub proof fn lemma_find_export_stable(exports: Seq<SpecExport>, name: Seq<u8>, n: nat, m: nat)
    requires
        n <= m,
        spec_find_export(exports, name, n) is Some,
    ensures
        spec_find_export(exports, name, m) == spec_find_export(exports, name, n),
    decreases m,
{
    if n < m {
        lemma_find_export_stable(exports, name, n, (m - 1) as nat);
    }
}

} // verus!
