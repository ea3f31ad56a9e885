//! Modules: signatures, static resources, imports, exports, functions and debug tables.
use vstd::prelude::*;
use crate::body::FunctionBody;
use crate::entity::{Func, Global, Memory, Signature, SourceFile, Table, INVALID_INDEX};
use crate::text::Dump;
use crate::value::Type;

verus! {

/// A function type: parameter types to result types.
#[derive(Clone, Debug)]
pub struct SignatureData {
    pub params: Vec<Type>,
    pub returns: Vec<Type>,
}

/// A global variable, with its initial value where it is a constant.
#[derive(Clone, Debug)]
pub struct GlobalData {
    pub ty: Type,
    pub value: Option<u64>,
    pub mutable: bool,
}

/// A table, with the functions it holds where they are known.
#[derive(Clone, Debug)]
pub struct TableData {
    pub ty: Type,
    pub func_elements: Option<Vec<Func>>,
}

/// A data segment of a memory.
#[derive(Clone, Debug)]
pub struct MemorySegment {
    pub offset: usize,
    pub data: Vec<u8>,
}

/// A linear memory, sized in pages, with its data segments.
#[derive(Clone, Debug)]
pub struct MemoryData {
    pub initial_pages: usize,
    pub maximum_pages: Option<usize>,
    pub segments: Vec<MemorySegment>,
}

/// The entity an import or export refers to.
#[derive(Clone, Copy, Debug, PartialEq, Eq, Hash, Structural)]
pub enum ImportKind {
    Table(Table),
    Func(Func),
    Global(Global),
    Memory(Memory),
}

impl Dump for ImportKind {
    open spec fn dump(&self) -> Seq<char> {
        match self {
            ImportKind::Table(t) => t.text(),
            ImportKind::Func(f) => f.text(),
            ImportKind::Global(g) => g.text(),
            ImportKind::Memory(m) => m.text(),
        }
    }

    fn push_dump(&self, out: &mut String) {
        match self {
            ImportKind::Table(t) => t.push_text(out),
            ImportKind::Func(f) => f.push_text(out),
            ImportKind::Global(g) => g.push_text(out),
            ImportKind::Memory(m) => m.push_text(out),
        }
    }
}

/// An import: the providing module's name, the item's name, and what it binds.
#[derive(Clone, Debug)]
pub struct Import {
    pub module: String,
    pub name: String,
    pub kind: ImportKind,
}

/// An export: its name and the entity it exposes.
#[derive(Clone, Debug)]
pub struct Export {
    pub name: String,
    pub kind: ImportKind,
}

/// A function slot, in one of its materialisation states.
#[derive(Clone, Debug)]
pub enum FuncDecl {
    /// An imported function; it has no body.
    Import(Signature, String),
    /// A body kept as its undecoded bytes.
    Lazy(Signature, String, Vec<u8>),
    /// A fully materialised SSA body.
    Body(Signature, String, FunctionBody),
    /// Already lowered to some other representation.
    Compiled(Signature, String),
    /// An empty slot.
    Empty,
}

/// A source position of the debug tables.
#[derive(Clone, Copy, Debug, PartialEq, Eq, Hash, Structural)]
pub struct SourceLocData {
    pub file: SourceFile,
    pub line: u32,
    pub col: u32,
}

/// Debug information: source locations and the names of source files.
#[derive(Clone, Debug)]
pub struct DebugInfo {
    pub source_locs: Vec<SourceLocData>,
    pub source_files: Vec<String>,
}

/// A WebAssembly module.
#[derive(Clone, Debug)]
pub struct Module {
    pub signatures: Vec<SignatureData>,
    pub funcs: Vec<FuncDecl>,
    pub globals: Vec<GlobalData>,
    pub tables: Vec<TableData>,
    pub memories: Vec<MemoryData>,
    pub imports: Vec<Import>,
    pub exports: Vec<Export>,
    pub start_func: Option<Func>,
    pub debug: DebugInfo,
}

impl Module {
    /// A module with nothing in it.
    pub fn empty() -> (r: Module)
        ensures
            r.signatures@.len() == 0,
            r.funcs@.len() == 0,
            r.globals@.len() == 0,
            r.tables@.len() == 0,
            r.memories@.len() == 0,
            r.imports@.len() == 0,
            r.exports@.len() == 0,
            r.start_func is None,
            r.debug.source_locs@.len() == 0,
            r.debug.source_files@.len() == 0,
    {
        Module {
            signatures: Vec::new(),
            funcs: Vec::new(),
            globals: Vec::new(),
            tables: Vec::new(),
            memories: Vec::new(),
            imports: Vec::new(),
            exports: Vec::new(),
            start_func: None,
            debug: DebugInfo { source_locs: Vec::new(), source_files: Vec::new() },
        }
    }
}

impl Module {
    /// Every handle the module holds refers into its own tables, each pool
    /// fits the handle range, and each materialised body is well formed.
    pub open spec fn wf(&self) -> bool {
        &&& self.signatures@.len() < INVALID_INDEX
        &&& self.funcs@.len() < INVALID_INDEX
        &&& self.globals@.len() < INVALID_INDEX
        &&& self.tables@.len() < INVALID_INDEX
        &&& self.memories@.len() < INVALID_INDEX
        &&& self.debug.source_locs@.len() < INVALID_INDEX
        &&& self.debug.source_files@.len() < INVALID_INDEX
        &&& forall|i: int| 0 <= i < self.funcs@.len() ==> #[trigger] self.decl_wf(self.funcs@[i])
    }

    /// Everything but the function slots is as in `other`.
    pub open spec fn same_except_funcs(&self, other: &Module) -> bool {
        &&& self.signatures@ == other.signatures@
        &&& self.globals@ == other.globals@
        &&& self.tables@ == other.tables@
        &&& self.memories@ == other.memories@
        &&& self.imports@ == other.imports@
        &&& self.exports@ == other.exports@
        &&& self.start_func == other.start_func
        &&& self.debug.source_locs@ == other.debug.source_locs@
        &&& self.debug.source_files@ == other.debug.source_files@
    }

    pub open spec fn decl_wf(&self, d: FuncDecl) -> bool {
        match d {
            FuncDecl::Import(sig, _) => sig.index < self.signatures@.len(),
            FuncDecl::Lazy(sig, _, _) => sig.index < self.signatures@.len(),
            FuncDecl::Body(sig, _, body) => sig.index < self.signatures@.len() && body.wf(),
            FuncDecl::Compiled(sig, _) => sig.index < self.signatures@.len(),
            FuncDecl::Empty => true,
        }
    }
}

/// Why a lazily kept body could not be expanded: the function, and the decoder's message.
#[derive(Clone, Debug)]
pub struct ExpandError {
    pub func: Func,
    pub message: String,
}

/// Slot `i` went from `before` to `after` under an expansion with `decode`: a
/// lazy body became the body that `decode` returned for its bytes, under the
/// same signature and name; any other slot stayed as it was.
pub open spec fn expanded_slot<F: Fn(Func, &Vec<u8>) -> Result<FunctionBody, String>>(
    decode: F,
    i: int,
    before: FuncDecl,
    after: FuncDecl,
) -> bool {
    match before {
        FuncDecl::Lazy(sig, name, bytes) => exists|b: FunctionBody|
            after == FuncDecl::Body(sig, name, b) && #[trigger] decode.ensures(
                (Func { index: i as u32 }, &bytes),
                Ok::<FunctionBody, String>(b),
            ),
        _ => after == before,
    }
}

/// The function slots went from `before` to `after` under `expand_all_funcs`
/// with `decode`, which returned `r`: on success every slot was expanded; on
/// failure, the slots before the failing one were expanded, the failing one
/// is still lazy, its decoder call failed with the error's message, and the
/// rest are untouched.
pub open spec fn expansion<F: Fn(Func, &Vec<u8>) -> Result<FunctionBody, String>>(
    decode: F,
    before: Seq<FuncDecl>,
    after: Seq<FuncDecl>,
    r: Result<(), ExpandError>,
) -> bool {
    &&& after.len() == before.len()
    &&& match r {
        Ok(_) => forall|i: int|
            0 <= i < before.len() ==> expanded_slot(decode, i, #[trigger] before[i], after[i]),
        Err(e) => {
            let k = e.func.index as int;
            &&& k < before.len()
            &&& forall|i: int|
                0 <= i < k ==> expanded_slot(decode, i, #[trigger] before[i], after[i])
            &&& forall|i: int| k <= i < before.len() ==> #[trigger] after[i] == before[i]
            &&& match before[k] {
                FuncDecl::Lazy(_, _, bytes) => decode.ensures(
                    (e.func, &bytes),
                    Err::<FunctionBody, String>(e.message),
                ),
                _ => false,
            }
        },
    }
}

impl Module {
    /// Decodes every lazily kept body with `decode`, in slot order, and puts
    /// the result in its slot; other slots are left alone. Stops at the first
    /// body that fails to decode, which stays lazy, and reports its function.
    pub fn expand_all_funcs<F: Fn(Func, &Vec<u8>) -> Result<FunctionBody, String>>(
        &mut self,
        decode: F,
    ) -> (r: Result<(), ExpandError>)
        requires
            old(self).wf(),
            forall|f: Func, b: &Vec<u8>| decode.requires((f, b)),
            forall|f: Func, b: &Vec<u8>, d: Result<FunctionBody, String>|
                decode.ensures((f, b), d) ==> (d is Ok ==> d->Ok_0.wf()),
        ensures
            final(self).wf(),
            expansion(decode, old(self).funcs@, final(self).funcs@, r),
            final(self).same_except_funcs(old(self)),
    {
        let mut i: usize = 0;
        while i < self.funcs.len()
            invariant
                self.wf(),
                forall|f: Func, b: &Vec<u8>| decode.requires((f, b)),
                forall|f: Func, b: &Vec<u8>, d: Result<FunctionBody, String>|
                    decode.ensures((f, b), d) ==> (d is Ok ==> d->Ok_0.wf()),
                i <= self.funcs@.len(),
                self.funcs@.len() == old(self).funcs@.len(),
                forall|k: int|
                    0 <= k < i ==> expanded_slot(decode, k, #[trigger] old(self).funcs@[k], self.funcs@[k]),
                forall|k: int| i <= k < self.funcs@.len() ==> #[trigger] self.funcs@[k] == old(self).funcs@[k],
                self.same_except_funcs(old(self)),
            decreases self.funcs@.len() - i,
        {
            let f = Func { index: i as u32 };
            let decoded = match &self.funcs[i] {
                FuncDecl::Lazy(sig, name, bytes) => Some((*sig, name.clone(), decode(f, bytes))),
                _ => None,
            };
            match decoded {
                Some((sig, name, Ok(body))) => {
                    assert(self.decl_wf(self.funcs@[i as int]));
                    assert(body.wf());
                    let ghost prev = *self;
                    self.funcs.set(i, FuncDecl::Body(sig, name, body));
                    proof {
                        assert forall|k: int| 0 <= k < self.funcs@.len() implies #[trigger] self.decl_wf(
                            self.funcs@[k],
                        ) by {
                            if k != i {
                                assert(prev.decl_wf(prev.funcs@[k]));
                            }
                        }
                        assert(expanded_slot(decode, i as int, old(self).funcs@[i as int], self.funcs@[i as int]));
                    }
                },
                Some((_, _, Err(message))) => {
                    let e = ExpandError { func: f, message };
                    return Err(e);
                },
                None => {},
            }
            i = i + 1;
        }
        Ok(())
    }
}

/// `after` is `before` with every materialised body `b` replaced by a body
/// that `f` returned for `b`, and every other slot unchanged.
pub open spec fn bodies_mapped<F: Fn(&FunctionBody) -> FunctionBody>(
    f: F,
    before: Seq<FuncDecl>,
    after: Seq<FuncDecl>,
) -> bool {
    &&& after.len() == before.len()
    &&& forall|i: int|
        0 <= i < before.len() ==> match #[trigger] before[i] {
            FuncDecl::Body(sig, name, b) => exists|r: FunctionBody|
                after[i] == FuncDecl::Body(sig, name, r) && #[trigger] f.ensures((&b,), r),
            other => after[i] == other,
        }
}

impl Module {
    /// Replaces every materialised body `b` by `f(b)`; slots in any other state
    /// are skipped.
    pub fn per_func_body<F: Fn(&FunctionBody) -> FunctionBody>(&mut self, f: F)
        requires
            old(self).wf(),
            forall|b: &FunctionBody| b.wf() ==> f.requires((b,)),
            forall|b: &FunctionBody, r: FunctionBody| f.ensures((b,), r) ==> r.wf(),
        ensures
            final(self).wf(),
            final(self).funcs@.len() == old(self).funcs@.len(),
            bodies_mapped(f, old(self).funcs@, final(self).funcs@),
            final(self).same_except_funcs(old(self)),
    {
        let mut i: usize = 0;
        while i < self.funcs.len()
            invariant
                self.wf(),
                forall|b: &FunctionBody| b.wf() ==> f.requires((b,)),
                forall|b: &FunctionBody, r: FunctionBody| f.ensures((b,), r) ==> r.wf(),
                i <= self.funcs@.len(),
                self.funcs@.len() == old(self).funcs@.len(),
                forall|k: int|
                    0 <= k < i ==> match #[trigger] old(self).funcs@[k] {
                        FuncDecl::Body(sig, name, b) => exists|r: FunctionBody|
                            self.funcs@[k] == FuncDecl::Body(sig, name, r) && #[trigger] f.ensures(
                                (&b,),
                                r,
                            ),
                        other => self.funcs@[k] == other,
                    },
                forall|k: int| i <= k < self.funcs@.len() ==> #[trigger] self.funcs@[k] == old(self).funcs@[k],
                self.same_except_funcs(old(self)),
            decreases self.funcs@.len() - i,
        {
            assert(self.decl_wf(self.funcs@[i as int]));
            let updated = match &self.funcs[i] {
                FuncDecl::Body(sig, name, body) => Some((*sig, name.clone(), f(body))),
                _ => None,
            };
            if let Some((sig, name, body)) = updated {
                let ghost prev = *self;
                self.funcs.set(i, FuncDecl::Body(sig, name, body));
                proof {
                    assert forall|k: int| 0 <= k < self.funcs@.len() implies #[trigger] self.decl_wf(
                        self.funcs@[k],
                    ) by {
                        if k != i {
                            assert(prev.decl_wf(prev.funcs@[k]));
                        }
                    }
                }
            }
            i = i + 1;
        }
    }
}

/// Every materialised body among `funcs` is sound.
pub open spec fn bodies_sound(funcs: Seq<FuncDecl>) -> bool {
    forall|i: int|
        0 <= i < funcs.len() ==> match #[trigger] funcs[i] {
            FuncDecl::Body(_, _, b) => b.sound(),
            _ => true,
        }
}

/// Every body that `decode` returns is sound.
pub open spec fn decodes_sound<F: Fn(Func, &Vec<u8>) -> Result<FunctionBody, String>>(
    decode: F,
) -> bool {
    forall|f: Func, bytes: &Vec<u8>, b: FunctionBody|
        #[trigger] decode.ensures((f, bytes), Ok::<FunctionBody, String>(b)) ==> b.sound()
}

/// `pass` turns every sound body into a sound body.
pub open spec fn keeps_sound<F: Fn(&FunctionBody) -> FunctionBody>(pass: F) -> bool {
    forall|b: &FunctionBody, r: FunctionBody| b.sound() && #[trigger] pass.ensures((b,), r) ==> r.sound()
}

/// Expansion with a decoder that returns sound bodies keeps every body sound.
pub proof fn lemma_expansion_keeps_sound<F: Fn(Func, &Vec<u8>) -> Result<FunctionBody, String>>(
    decode: F,
    before: Seq<FuncDecl>,
    after: Seq<FuncDecl>,
    r: Result<(), ExpandError>,
)
    requires
        expansion(decode, before, after, r),
        bodies_sound(before),
        decodes_sound(decode),
    ensures
        bodies_sound(after),
{
    assert forall|i: int| 0 <= i < after.len() implies match #[trigger] after[i] {
        FuncDecl::Body(_, _, b) => b.sound(),
        _ => true,
    } by {
        let k = match r {
            Ok(_) => before.len() as int,
            Err(e) => e.func.index as int,
        };
        if i < k {
            assert(expanded_slot(decode, i, before[i], after[i]));
        } else {
            assert(after[i] == before[i]);
        }
        match before[i] {
            FuncDecl::Body(_, _, b) => {},
            _ => {},
        }
    }
}

/// A pass that keeps bodies sound, run on every body, keeps every body sound.
pub proof fn lemma_mapped_keeps_sound<F: Fn(&FunctionBody) -> FunctionBody>(
    pass: F,
    before: Seq<FuncDecl>,
    after: Seq<FuncDecl>,
)
    requires
        bodies_mapped(pass, before, after),
        bodies_sound(before),
        keeps_sound(pass),
    ensures
        bodies_sound(after),
{
    assert forall|i: int| 0 <= i < after.len() implies match #[trigger] after[i] {
        FuncDecl::Body(_, _, b) => b.sound(),
        _ => true,
    } by {
        match before[i] {
            FuncDecl::Body(_, _, b) => {
                assert(b.sound());
            },
            _ => {},
        }
    }
}

/// Every materialised body among `funcs` is in maximal SSA form.
pub open spec fn bodies_max_ssa(funcs: Seq<FuncDecl>) -> bool {
    forall|i: int|
        0 <= i < funcs.len() ==> match #[trigger] funcs[i] {
            FuncDecl::Body(_, _, b) => b.max_ssa_form(),
            _ => true,
        }
}

/// Every body that `pass` returns is in maximal SSA form.
pub open spec fn yields_max_ssa<F: Fn(&FunctionBody) -> FunctionBody>(pass: F) -> bool {
    forall|b: &FunctionBody, r: FunctionBody| #[trigger] pass.ensures((b,), r) ==> r.max_ssa_form()
}

/// A pass whose every result is in maximal SSA form, run on every body,
/// leaves every body in that form.
pub proof fn lemma_mapped_max_ssa<F: Fn(&FunctionBody) -> FunctionBody>(
    pass: F,
    before: Seq<FuncDecl>,
    after: Seq<FuncDecl>,
)
    requires
        bodies_mapped(pass, before, after),
        yields_max_ssa(pass),
    ensures
        bodies_max_ssa(after),
{
    assert forall|i: int| 0 <= i < after.len() implies match #[trigger] after[i] {
        FuncDecl::Body(_, _, b) => b.max_ssa_form(),
        _ => true,
    } by {
        match before[i] {
            FuncDecl::Body(_, _, b) => {},
            _ => {},
        }
    }
}

/// Which whole-body passes run after expansion.
#[derive(Clone, Copy, Debug, PartialEq, Eq, Hash, Structural)]
pub struct Options {
    /// Run the basic optimisations on every body.
    pub basic_opts: bool,
    /// Convert every body to maximal SSA form.
    pub max_ssa: bool,
}

/// The slots went from `expanded` through `optimized` to `done` as the
/// options ask: each pass that is asked for maps every materialised body,
/// and a pass that is not asked for changes nothing.
pub open spec fn passes_ran<O: Fn(&FunctionBody) -> FunctionBody, M: Fn(&FunctionBody) -> FunctionBody>(
    opts: Options,
    optimize: O,
    max_ssa: M,
    expanded: Seq<FuncDecl>,
    optimized: Seq<FuncDecl>,
    done: Seq<FuncDecl>,
) -> bool {
    &&& if opts.basic_opts {
        bodies_mapped(optimize, expanded, optimized)
    } else {
        optimized == expanded
    }
    &&& if opts.max_ssa {
        bodies_mapped(max_ssa, optimized, done)
    } else {
        done == optimized
    }
}

/// Expands every lazily kept body with `decode`; then, where the options ask
/// for them, runs `optimize` and after it `max_ssa` on every materialised body.
/// A decoding failure stops the work before any pass runs.
pub fn apply_options<
    D: Fn(Func, &Vec<u8>) -> Result<FunctionBody, String>,
    O: Fn(&FunctionBody) -> FunctionBody,
    M: Fn(&FunctionBody) -> FunctionBody,
>(opts: &Options, module: &mut Module, decode: D, optimize: O, max_ssa: M) -> (r: Result<
    (),
    ExpandError,
>)
    requires
        old(module).wf(),
        forall|f: Func, b: &Vec<u8>| decode.requires((f, b)),
        forall|f: Func, b: &Vec<u8>, d: Result<FunctionBody, String>|
            decode.ensures((f, b), d) ==> (d is Ok ==> d->Ok_0.wf()),
        forall|b: &FunctionBody| b.wf() ==> optimize.requires((b,)),
        forall|b: &FunctionBody, r: FunctionBody| optimize.ensures((b,), r) ==> r.wf(),
        forall|b: &FunctionBody| b.wf() ==> max_ssa.requires((b,)),
        forall|b: &FunctionBody, r: FunctionBody| max_ssa.ensures((b,), r) ==> r.wf(),
    ensures
        final(module).wf(),
        final(module).same_except_funcs(old(module)),
        r is Err ==> expansion(decode, old(module).funcs@, final(module).funcs@, r),
        r is Ok ==> exists|m1: Seq<FuncDecl>|
            #[trigger] expansion(decode, old(module).funcs@, m1, Ok(())) && exists|m2: Seq<FuncDecl>|
                #[trigger] passes_ran(*opts, optimize, max_ssa, m1, m2, final(module).funcs@),
        bodies_sound(old(module).funcs@) && decodes_sound(decode) && keeps_sound(optimize)
            && keeps_sound(max_ssa) ==> bodies_sound(final(module).funcs@),
        r is Ok && opts.max_ssa && yields_max_ssa(max_ssa) ==> bodies_max_ssa(final(module).funcs@),
{
    let ghost sound_inputs = bodies_sound(old(module).funcs@) && decodes_sound(decode)
        && keeps_sound(optimize) && keeps_sound(max_ssa);
    let r = module.expand_all_funcs(decode);
    proof {
        if sound_inputs {
            lemma_expansion_keeps_sound(decode, old(module).funcs@, module.funcs@, r);
        }
    }
    match r {
        Err(e) => {
            return Err(e);
        },
        Ok(()) => {},
    }
    let ghost m1 = module.funcs@;
    if opts.basic_opts {
        module.per_func_body(optimize);
        proof {
            if sound_inputs {
                lemma_mapped_keeps_sound(optimize, m1, module.funcs@);
            }
        }
    }
    let ghost m2 = module.funcs@;
    if opts.max_ssa {
        module.per_func_body(max_ssa);
        proof {
            if sound_inputs {
                lemma_mapped_keeps_sound(max_ssa, m2, module.funcs@);
            }
            if yields_max_ssa(max_ssa) {
                lemma_mapped_max_ssa(max_ssa, m2, module.funcs@);
            }
        }
    }
    assert(expansion(decode, old(module).funcs@, m1, Ok(())));
    assert(passes_ran(*opts, optimize, max_ssa, m1, m2, module.funcs@));
    Ok(())
}

/// Expansion is idempotent: after one call that succeeded, a second call
/// succeeds and changes no slot.
pub proof fn lemma_expand_idempotent<F: Fn(Func, &Vec<u8>) -> Result<FunctionBody, String>>(
    decode: F,
    m0: Seq<FuncDecl>,
    m1: Seq<FuncDecl>,
    m2: Seq<FuncDecl>,
    r2: Result<(), ExpandError>,
)
    requires
        expansion(decode, m0, m1, Ok(())),
        expansion(decode, m1, m2, r2),
    ensures
        r2 is Ok,
        m2 == m1,
{
    assert forall|i: int| 0 <= i < m1.len() implies !(#[trigger] m1[i] is Lazy) by {
        assert(expanded_slot(decode, i, m0[i], m1[i]));
    }
    if let Err(e) = r2 {
        let k = e.func.index as int;
        assert(!(m1[k] is Lazy));
    }
    assert forall|i: int| 0 <= i < m1.len() implies #[trigger] m2[i] == m1[i] by {
        assert(expanded_slot(decode, i, m1[i], m2[i]));
    }
    assert(m2 =~= m1);
}

/// With no pass asked for, `apply_options` is idempotent: after one call
/// that succeeded, a second call with the same decoder succeeds and leaves
/// every slot as the first call left it.
pub proof fn lemma_apply_idempotent<
    D: Fn(Func, &Vec<u8>) -> Result<FunctionBody, String>,
    O: Fn(&FunctionBody) -> FunctionBody,
    M: Fn(&FunctionBody) -> FunctionBody,
>(
    opts: Options,
    decode: D,
    optimize: O,
    max_ssa: M,
    m0: Seq<FuncDecl>,
    m1: Seq<FuncDecl>,
    m2: Seq<FuncDecl>,
    m3: Seq<FuncDecl>,
    r: Result<(), ExpandError>,
    m5: Seq<FuncDecl>,
)
    requires
        !opts.basic_opts,
        !opts.max_ssa,
        expansion(decode, m0, m1, Ok(())),
        passes_ran(opts, optimize, max_ssa, m1, m2, m3),
        r is Err ==> expansion(decode, m3, m5, r),
        r is Ok ==> exists|m4: Seq<FuncDecl>|
            #[trigger] expansion(decode, m3, m4, Ok(())) && exists|m6: Seq<FuncDecl>|
                #[trigger] passes_ran(opts, optimize, max_ssa, m4, m6, m5),
    ensures
        r is Ok,
        m5 == m3,
{
    assert(m3 == m1);
    if r is Err {
        lemma_expand_idempotent(decode, m0, m1, m5, r);
    } else {
        let m4 = choose|m4: Seq<FuncDecl>|
            #[trigger] expansion(decode, m3, m4, Ok(())) && exists|m6: Seq<FuncDecl>|
                #[trigger] passes_ran(opts, optimize, max_ssa, m4, m6, m5);
        lemma_expand_idempotent(decode, m0, m1, m4, Ok(()));
        let m6 = choose|m6: Seq<FuncDecl>| #[trigger] passes_ran(opts, optimize, max_ssa, m4, m6, m5);
    }
}

} // verus!
