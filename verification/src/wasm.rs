//! The boundary to the walrus crate: declarations of its types, a ghost model
//! of the instruction sequences held by a function builder, and trusted
//! wrappers around the calls the translator makes.
//!
//! The model of a builder is a map from each open instruction-sequence id to
//! the instructions appended to it so far.  A `block ... end` or
//! `loop ... end` instruction records, beside the id of its inner sequence,
//! the content that sequence holds as it is sealed into its parent — and
//! sealing takes the inner sequence out of the model's domain, so no call
//! through this boundary can extend a sequence after it was sealed: the
//! recorded content is the content the finished module resolves the id to.
//! Beside the sequences, names stand for the builder's entry id, the body of
//! a finished function, and a module's imports and exports, so that the
//! translation's callers can state what the finished module holds.

use vstd::prelude::*;

verus! {

#[verifier::external_type_specification]
#[verifier::external_body]
#[verifier::reject_recursive_types(T)]
pub struct ExId<T>(id_arena::Id<T>);

#[verifier::external_type_specification]
#[verifier::external_body]
pub struct ExModule(walrus::Module);

#[verifier::external_type_specification]
#[verifier::external_body]
pub struct ExFunctionBuilder(walrus::FunctionBuilder);

#[verifier::external_type_specification]
#[verifier::external_body]
pub struct ExMemArg(walrus::ir::MemArg);

#[verifier::external_type_specification]
#[verifier::external_body]
pub struct ExLocal(walrus::Local);

#[verifier::external_type_specification]
#[verifier::external_body]
pub struct ExFunction(walrus::Function);

#[verifier::external_type_specification]
#[verifier::external_body]
pub struct ExMemory(walrus::Memory);

#[verifier::external_type_specification]
#[verifier::external_body]
pub struct ExType(walrus::Type);

#[verifier::external_type_specification]
#[verifier::external_body]
pub struct ExInstrSeq(walrus::ir::InstrSeq);

#[verifier::external_type_specification]
#[verifier::external_body]
pub struct ExInstr(walrus::ir::Instr);

#[verifier::external_type_specification]
#[verifier::external_body]
pub struct ExInstrLocId(walrus::ir::InstrLocId);

/// One emitted instruction, as the model records it.  A nested block or loop
/// carries the id of its inner sequence and the content that sequence held
/// when it was sealed into its parent.
pub enum Inst {
    /// `local.get`: push the named local.
    GetLocal(walrus::LocalId),
    /// `local.set`: pop into the named local.
    SetLocal(walrus::LocalId),
    /// `i32.const`: push the value.
    I32Const(int),
    /// `i32.load8_u`: pop an address, push the byte there, zero-extended.
    LoadU8(walrus::MemoryId, walrus::ir::MemArg),
    /// `i32.store8`: pop a value and an address, store the low byte.
    StoreU8(walrus::MemoryId, walrus::ir::MemArg),
    /// `i32.add`.
    AddI32,
    /// `i32.sub`.
    SubI32,
    /// `i32.eq`.
    EqI32,
    /// `call` of the named function.
    Call(walrus::FunctionId),
    /// `br_if`: pop a condition and, when nonzero, branch to the target.
    BrIf(walrus::ir::InstrSeqId),
    /// `br`: branch to the target.
    Br(walrus::ir::InstrSeqId),
    /// `block ... end` around the recorded inner sequence.
    ExitBlock(walrus::ir::InstrSeqId, Seq<Inst>),
    /// `loop ... end` around the recorded inner sequence.
    RepeatLoop(walrus::ir::InstrSeqId, Seq<Inst>),
}

/// The instructions appended so far to each sequence a builder has allocated.
pub uninterp spec fn seqs_of(b: walrus::FunctionBuilder) -> Map<walrus::ir::InstrSeqId, Seq<Inst>>;

/// The id of the builder's entry sequence — the function body that
/// `FunctionBuilder::finish` seals into the module.
pub uninterp spec fn body_id_of(b: walrus::FunctionBuilder) -> walrus::ir::InstrSeqId;

/// The body of the function `f` of the module `m`, under the same
/// instruction-by-instruction abstraction as `seqs_of`.
pub uninterp spec fn func_body_of(m: walrus::Module, f: walrus::FunctionId) -> Seq<Inst>;

/// The function the module `m` exports under `name` — the most recently
/// added, where several share the name; nothing where the name exports no
/// function.
pub uninterp spec fn export_of(m: walrus::Module, name: Seq<char>) -> Option<walrus::FunctionId>;

/// The function the module `m` imports under the pair (module, name) — the
/// most recently added, where several share the pair.
pub uninterp spec fn imported_func_of(
    m: walrus::Module,
    module_name: Seq<char>,
    name: Seq<char>,
) -> Option<walrus::FunctionId>;

/// The memory the module `m` imports under the pair (module, name).
pub uninterp spec fn imported_memory_of(
    m: walrus::Module,
    module_name: Seq<char>,
    name: Seq<char>,
) -> Option<walrus::MemoryId>;

/// The alignment field of a memory-access descriptor.
pub uninterp spec fn mem_align(arg: walrus::ir::MemArg) -> u32;

/// The offset field of a memory-access descriptor.
pub uninterp spec fn mem_offset(arg: walrus::ir::MemArg) -> u64;

/// Relies on walrus's `FunctionBuilder::new` and `func_body_id`: a fresh
/// builder for a function with no parameters and no results holds exactly one
/// instruction sequence, the empty function body, whose id is returned beside
/// the builder.  `new` touches only the module's types, so the module's
/// imports stay as they were.
#[verifier::external_body]
pub(crate) fn new_function_builder(m: &mut walrus::Module) -> (r: (
    walrus::FunctionBuilder,
    walrus::ir::InstrSeqId,
))
    ensures
        seqs_of(r.0) == Map::<walrus::ir::InstrSeqId, Seq<Inst>>::empty().insert(
            r.1,
            Seq::<Inst>::empty(),
        ),
        body_id_of(r.0) == r.1,
        forall|mn: Seq<char>, n: Seq<char>|
            imported_func_of(*final(m), mn, n) == imported_func_of(*old(m), mn, n),
        forall|mn: Seq<char>, n: Seq<char>|
            imported_memory_of(*final(m), mn, n) == imported_memory_of(*old(m), mn, n),
{
    let b = walrus::FunctionBuilder::new(&mut m.types, &[], &[]);
    let body = b.func_body_id();
    (b, body)
}

/// Relies on walrus's `FunctionBuilder::dangling_instr_seq`: allocates a
/// fresh, empty, untyped instruction sequence in the builder's arena and
/// returns its id, which differs from every id handed out before.  The
/// builder's entry sequence stays the same.
#[verifier::external_body]
pub(crate) fn new_seq(fb: &mut walrus::FunctionBuilder) -> (s: walrus::ir::InstrSeqId)
    ensures
        !seqs_of(*old(fb)).dom().contains(s),
        seqs_of(*final(fb)) == seqs_of(*old(fb)).insert(s, Seq::<Inst>::empty()),
        body_id_of(*final(fb)) == body_id_of(*old(fb)),
{
    fb.dangling_instr_seq(None).id()
}

/// Relies on walrus's `InstrSeqBuilder::local_get`: appends one `local.get`
/// instruction for `local` to the sequence `s` and touches nothing else.
#[verifier::external_body]
pub(crate) fn push_local_get(
    fb: &mut walrus::FunctionBuilder,
    s: walrus::ir::InstrSeqId,
    local: walrus::LocalId,
)
    requires
        seqs_of(*old(fb)).dom().contains(s),
    ensures
        seqs_of(*final(fb)) == seqs_of(*old(fb)).insert(
            s,
            seqs_of(*old(fb))[s].push(Inst::GetLocal(local)),
        ),
        body_id_of(*final(fb)) == body_id_of(*old(fb)),
{
    fb.instr_seq(s).local_get(local);
}

/// Relies on walrus's `InstrSeqBuilder::local_set`: appends one `local.set`
/// instruction for `local` to the sequence `s` and touches nothing else.
#[verifier::external_body]
pub(crate) fn push_local_set(
    fb: &mut walrus::FunctionBuilder,
    s: walrus::ir::InstrSeqId,
    local: walrus::LocalId,
)
    requires
        seqs_of(*old(fb)).dom().contains(s),
    ensures
        seqs_of(*final(fb)) == seqs_of(*old(fb)).insert(
            s,
            seqs_of(*old(fb))[s].push(Inst::SetLocal(local)),
        ),
        body_id_of(*final(fb)) == body_id_of(*old(fb)),
{
    fb.instr_seq(s).local_set(local);
}

/// Relies on walrus's `InstrSeqBuilder::i32_const`: appends one `i32.const`
/// instruction for `v` to the sequence `s` and touches nothing else.
#[verifier::external_body]
pub(crate) fn push_i32_const(fb: &mut walrus::FunctionBuilder, s: walrus::ir::InstrSeqId, v: i32)
    requires
        seqs_of(*old(fb)).dom().contains(s),
    ensures
        seqs_of(*final(fb)) == seqs_of(*old(fb)).insert(
            s,
            seqs_of(*old(fb))[s].push(Inst::I32Const(v as int)),
        ),
        body_id_of(*final(fb)) == body_id_of(*old(fb)),
{
    fb.instr_seq(s).i32_const(v);
}

/// Relies on walrus's `InstrSeqBuilder::load` with `LoadKind::I32_8`,
/// zero-extended: appends one 8-bit zero-extending load from `mem` to the
/// sequence `s` and touches nothing else.
#[verifier::external_body]
pub(crate) fn push_load_u8(
    fb: &mut walrus::FunctionBuilder,
    s: walrus::ir::InstrSeqId,
    mem: walrus::MemoryId,
    arg: walrus::ir::MemArg,
)
    requires
        seqs_of(*old(fb)).dom().contains(s),
    ensures
        seqs_of(*final(fb)) == seqs_of(*old(fb)).insert(
            s,
            seqs_of(*old(fb))[s].push(Inst::LoadU8(mem, arg)),
        ),
        body_id_of(*final(fb)) == body_id_of(*old(fb)),
{
    fb.instr_seq(s).load(
        mem,
        walrus::ir::LoadKind::I32_8 { kind: walrus::ir::ExtendedLoad::ZeroExtend },
        arg,
    );
}

/// Relies on walrus's `InstrSeqBuilder::store` with `StoreKind::I32_8`,
/// non-atomic: appends one 8-bit store to `mem` to the sequence `s` and
/// touches nothing else.
#[verifier::external_body]
pub(crate) fn push_store_u8(
    fb: &mut walrus::FunctionBuilder,
    s: walrus::ir::InstrSeqId,
    mem: walrus::MemoryId,
    arg: walrus::ir::MemArg,
)
    requires
        seqs_of(*old(fb)).dom().contains(s),
    ensures
        seqs_of(*final(fb)) == seqs_of(*old(fb)).insert(
            s,
            seqs_of(*old(fb))[s].push(Inst::StoreU8(mem, arg)),
        ),
        body_id_of(*final(fb)) == body_id_of(*old(fb)),
{
    fb.instr_seq(s).store(mem, walrus::ir::StoreKind::I32_8 { atomic: false }, arg);
}

/// Relies on walrus's `InstrSeqBuilder::binop` with `BinaryOp::I32Add`:
/// appends one `i32.add` instruction to the sequence `s` and touches nothing
/// else.
#[verifier::external_body]
pub(crate) fn push_i32_add(fb: &mut walrus::FunctionBuilder, s: walrus::ir::InstrSeqId)
    requires
        seqs_of(*old(fb)).dom().contains(s),
    ensures
        seqs_of(*final(fb)) == seqs_of(*old(fb)).insert(
            s,
            seqs_of(*old(fb))[s].push(Inst::AddI32),
        ),
        body_id_of(*final(fb)) == body_id_of(*old(fb)),
{
    fb.instr_seq(s).binop(walrus::ir::BinaryOp::I32Add);
}

/// Relies on walrus's `InstrSeqBuilder::binop` with `BinaryOp::I32Sub`:
/// appends one `i32.sub` instruction to the sequence `s` and touches nothing
/// else.
#[verifier::external_body]
pub(crate) fn push_i32_sub(fb: &mut walrus::FunctionBuilder, s: walrus::ir::InstrSeqId)
    requires
        seqs_of(*old(fb)).dom().contains(s),
    ensures
        seqs_of(*final(fb)) == seqs_of(*old(fb)).insert(
            s,
            seqs_of(*old(fb))[s].push(Inst::SubI32),
        ),
        body_id_of(*final(fb)) == body_id_of(*old(fb)),
{
    fb.instr_seq(s).binop(walrus::ir::BinaryOp::I32Sub);
}

/// Relies on walrus's `InstrSeqBuilder::binop` with `BinaryOp::I32Eq`:
/// appends one `i32.eq` instruction to the sequence `s` and touches nothing
/// else.
#[verifier::external_body]
pub(crate) fn push_i32_eq(fb: &mut walrus::FunctionBuilder, s: walrus::ir::InstrSeqId)
    requires
        seqs_of(*old(fb)).dom().contains(s),
    ensures
        seqs_of(*final(fb)) == seqs_of(*old(fb)).insert(s, seqs_of(*old(fb))[s].push(Inst::EqI32)),
        body_id_of(*final(fb)) == body_id_of(*old(fb)),
{
    fb.instr_seq(s).binop(walrus::ir::BinaryOp::I32Eq);
}

/// Relies on walrus's `InstrSeqBuilder::call`: appends one `call` instruction
/// for `f` to the sequence `s` and touches nothing else.
#[verifier::external_body]
pub(crate) fn push_call(
    fb: &mut walrus::FunctionBuilder,
    s: walrus::ir::InstrSeqId,
    f: walrus::FunctionId,
)
    requires
        seqs_of(*old(fb)).dom().contains(s),
    ensures
        seqs_of(*final(fb)) == seqs_of(*old(fb)).insert(
            s,
            seqs_of(*old(fb))[s].push(Inst::Call(f)),
        ),
        body_id_of(*final(fb)) == body_id_of(*old(fb)),
{
    fb.instr_seq(s).call(f);
}

/// Relies on walrus's `InstrSeqBuilder::br_if`: appends one `br_if`
/// instruction targeting `target` to the sequence `s` and touches nothing
/// else.
#[verifier::external_body]
pub(crate) fn push_br_if(
    fb: &mut walrus::FunctionBuilder,
    s: walrus::ir::InstrSeqId,
    target: walrus::ir::InstrSeqId,
)
    requires
        seqs_of(*old(fb)).dom().contains(s),
    ensures
        seqs_of(*final(fb)) == seqs_of(*old(fb)).insert(
            s,
            seqs_of(*old(fb))[s].push(Inst::BrIf(target)),
        ),
        body_id_of(*final(fb)) == body_id_of(*old(fb)),
{
    fb.instr_seq(s).br_if(target);
}

/// Relies on walrus's `InstrSeqBuilder::br`: appends one `br` instruction
/// targeting `target` to the sequence `s` and touches nothing else.
#[verifier::external_body]
pub(crate) fn push_br(
    fb: &mut walrus::FunctionBuilder,
    s: walrus::ir::InstrSeqId,
    target: walrus::ir::InstrSeqId,
)
    requires
        seqs_of(*old(fb)).dom().contains(s),
    ensures
        seqs_of(*final(fb)) == seqs_of(*old(fb)).insert(
            s,
            seqs_of(*old(fb))[s].push(Inst::Br(target)),
        ),
        body_id_of(*final(fb)) == body_id_of(*old(fb)),
{
    fb.instr_seq(s).br(target);
}

/// Relies on walrus's `InstrSeqBuilder::instr` with `walrus::ir::Loop`:
/// appends one `loop ... end` instruction to `s` whose inner sequence is
/// `inner`, and touches nothing else.  The model records the content `inner`
/// holds now and seals `inner`: it leaves the domain, so it can never be
/// extended afterwards, and the recorded content is its final one.
#[verifier::external_body]
pub(crate) fn push_repeat_loop(
    fb: &mut walrus::FunctionBuilder,
    s: walrus::ir::InstrSeqId,
    inner: walrus::ir::InstrSeqId,
)
    requires
        seqs_of(*old(fb)).dom().contains(s),
        seqs_of(*old(fb)).dom().contains(inner),
        inner != s,
    ensures
        seqs_of(*final(fb)) == seqs_of(*old(fb)).remove(inner).insert(
            s,
            seqs_of(*old(fb))[s].push(Inst::RepeatLoop(inner, seqs_of(*old(fb))[inner])),
        ),
        body_id_of(*final(fb)) == body_id_of(*old(fb)),
{
    fb.instr_seq(s).instr(walrus::ir::Loop { seq: inner });
}

/// Relies on walrus's `InstrSeqBuilder::instr` with `walrus::ir::Block`:
/// appends one `block ... end` instruction to `s` whose inner sequence is
/// `inner`, and touches nothing else.  The model records the content `inner`
/// holds now and seals `inner`: it leaves the domain, so it can never be
/// extended afterwards, and the recorded content is its final one.
#[verifier::external_body]
pub(crate) fn push_exit_block(
    fb: &mut walrus::FunctionBuilder,
    s: walrus::ir::InstrSeqId,
    inner: walrus::ir::InstrSeqId,
)
    requires
        seqs_of(*old(fb)).dom().contains(s),
        seqs_of(*old(fb)).dom().contains(inner),
        inner != s,
    ensures
        seqs_of(*final(fb)) == seqs_of(*old(fb)).remove(inner).insert(
            s,
            seqs_of(*old(fb))[s].push(Inst::ExitBlock(inner, seqs_of(*old(fb))[inner])),
        ),
        body_id_of(*final(fb)) == body_id_of(*old(fb)),
{
    fb.instr_seq(s).instr(walrus::ir::Block { seq: inner });
}

/// Relies on `walrus::Module::default`: a fresh, empty module.
#[verifier::external_body]
pub(crate) fn new_module() -> walrus::Module {
    walrus::Module::default()
}

/// Relies on walrus's `ModuleTypes::add` for the signature `(i32) -> ()`, the
/// type of the host `putc` import.
#[verifier::external_body]
pub(crate) fn add_type_i32_param(m: &mut walrus::Module) -> walrus::TypeId {
    m.types.add(&[walrus::ValType::I32], &[])
}

/// Relies on walrus's `ModuleTypes::add` for the signature `() -> (i32)`, the
/// type of the host `getc` import.
#[verifier::external_body]
pub(crate) fn add_type_i32_result(m: &mut walrus::Module) -> walrus::TypeId {
    m.types.add(&[], &[walrus::ValType::I32])
}

/// Relies on walrus's `Module::add_import_memory`: imports a 32-bit linear
/// memory under the given names, with no pages required and no maximum, and
/// returns its id.
#[verifier::external_body]
pub(crate) fn import_memory(
    m: &mut walrus::Module,
    module_name: &str,
    name: &str,
) -> (r: walrus::MemoryId)
    ensures
        imported_memory_of(*final(m), module_name@, name@) == Some(r),
{
    m.add_import_memory(module_name, name, false, false, 0, None, None).0
}

/// Relies on walrus's `Module::add_import_func`: imports a function of the
/// given type under the given names and returns its id.  It adds one entry to
/// the import list, so every function import under another pair of names, and
/// every memory import, stays as it was.
#[verifier::external_body]
pub(crate) fn import_func(
    m: &mut walrus::Module,
    module_name: &str,
    name: &str,
    ty: walrus::TypeId,
) -> (r: walrus::FunctionId)
    ensures
        imported_func_of(*final(m), module_name@, name@) == Some(r),
        forall|mn: Seq<char>, n: Seq<char>|
            !(mn == module_name@ && n == name@) ==> #[trigger] imported_func_of(*final(m), mn, n)
                == imported_func_of(*old(m), mn, n),
        forall|mn: Seq<char>, n: Seq<char>|
            imported_memory_of(*final(m), mn, n) == imported_memory_of(*old(m), mn, n),
{
    m.add_import_func(module_name, name, ty).0
}

/// Relies on walrus's `ModuleLocals::add`: declares one mutable `i32` local.
/// It touches only the module's locals, so the imports stay as they were.
#[verifier::external_body]
pub(crate) fn add_local_i32(m: &mut walrus::Module) -> (r: walrus::LocalId)
    ensures
        forall|mn: Seq<char>, n: Seq<char>|
            imported_func_of(*final(m), mn, n) == imported_func_of(*old(m), mn, n),
        forall|mn: Seq<char>, n: Seq<char>|
            imported_memory_of(*final(m), mn, n) == imported_memory_of(*old(m), mn, n),
{
    m.locals.add(walrus::ValType::I32)
}

/// Relies on `walrus::ir::MemArg` being a plain record of an alignment and a
/// byte offset: the descriptor holds exactly the two values given.
#[verifier::external_body]
pub(crate) fn mem_arg(align: u32, offset: u64) -> (r: walrus::ir::MemArg)
    ensures
        mem_align(r) == align,
        mem_offset(r) == offset,
{
    walrus::ir::MemArg { align, offset }
}

/// Relies on walrus's `FunctionBuilder::finish`: seals the builder into the
/// module as a function of no arguments and returns the function's id; the
/// sealed function's body is the builder's entry sequence.  It touches only
/// the module's functions, so the imports stay as they were.
#[verifier::external_body]
pub(crate) fn finish_function(
    fb: walrus::FunctionBuilder,
    m: &mut walrus::Module,
) -> (r: walrus::FunctionId)
    ensures
        func_body_of(*final(m), r) == seqs_of(fb)[body_id_of(fb)],
        forall|mn: Seq<char>, n: Seq<char>|
            imported_func_of(*final(m), mn, n) == imported_func_of(*old(m), mn, n),
        forall|mn: Seq<char>, n: Seq<char>|
            imported_memory_of(*final(m), mn, n) == imported_memory_of(*old(m), mn, n),
{
    fb.finish(vec![], &mut m.funcs)
}

/// Relies on walrus's `ModuleExports::add`: exports the function under the
/// given name.  It adds one entry to the export list, so every function's
/// body and every import stays as it was.
#[verifier::external_body]
pub(crate) fn export_function(m: &mut walrus::Module, name: &str, f: walrus::FunctionId)
    ensures
        export_of(*final(m), name@) == Some(f),
        forall|g: walrus::FunctionId| func_body_of(*final(m), g) == func_body_of(*old(m), g),
        forall|mn: Seq<char>, n: Seq<char>|
            imported_func_of(*final(m), mn, n) == imported_func_of(*old(m), mn, n),
        forall|mn: Seq<char>, n: Seq<char>|
            imported_memory_of(*final(m), mn, n) == imported_memory_of(*old(m), mn, n),
{
    m.exports.add(name, f);
}

} // verus!
