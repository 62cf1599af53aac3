//! The trusted boundary to the sandbox runtime.
//!
//! Everything in this module is believed rather than verified: each wrapper
//! makes one call into the `wasmtime` crate, and its contract states only
//! what that crate's source and documentation promise. The handles that
//! `wasmtime` hands out (instances, memories, functions) are only usable with
//! the store that owns them — using one with a foreign store panics inside
//! `wasmtime` — so each wrapper that uses a handle requires the ownership
//! fact that the wrapper which produced the handle ensured, and every wrapper
//! that mutates a store states that ownership, once established, persists.

use vstd::prelude::*;

verus! {

#[verifier::external_type_specification]
#[verifier::external_body]
pub struct ExEngine(wasmtime::Engine);

#[verifier::external_type_specification]
#[verifier::external_body]
pub struct ExModule(wasmtime::Module);

#[verifier::external_type_specification]
#[verifier::external_body]
#[verifier::reject_recursive_types(T)]
pub struct ExStore<T: 'static>(wasmtime::Store<T>);

#[verifier::external_type_specification]
#[verifier::external_body]
pub struct ExInstance(wasmtime::Instance);

#[verifier::external_type_specification]
#[verifier::external_body]
pub struct ExMemory(wasmtime::Memory);

#[verifier::external_type_specification]
#[verifier::external_body]
pub struct ExFunc(wasmtime::Func);

#[verifier::external_type_specification]
#[verifier::external_body]
pub struct ExWasmtimeError(wasmtime::Error);

/// The bytes currently held by the linear memory `m` that lives inside the
/// store `s`.
pub uninterp spec fn mem_of(m: wasmtime::Memory, s: wasmtime::Store<()>) -> Seq<u8>;

/// Whether the runtime accepts `bytes` as a compilable module. Validation
/// and compilation under this crate's fixed engine configuration are a
/// function of the bytes alone.
pub uninterp spec fn module_accepted(bytes: Seq<u8>) -> bool;

/// The instance `i` was created inside the store `s`. `wasmtime` panics when
/// an instance is used with a store that does not own it, so every wrapper
/// that takes an instance and a store requires this pairing; it holds forever
/// once established.
pub uninterp spec fn instance_owned_by(i: wasmtime::Instance, s: wasmtime::Store<()>) -> bool;

/// The memory `m` belongs to an instance living in the store `s`; the same
/// pairing discipline as for instances.
pub uninterp spec fn memory_owned_by(m: wasmtime::Memory, s: wasmtime::Store<()>) -> bool;

/// The function `f` belongs to an instance living in the store `s`; the same
/// pairing discipline as for instances.
pub uninterp spec fn func_owned_by(f: wasmtime::Func, s: wasmtime::Store<()>) -> bool;

/// Relies on `wasmtime::Engine::new` and `wasmtime::Config`: builds a
/// compilation engine whose linear memories reserve a modest virtual-address
/// range up front (instead of the default guard-page scheme, which asks the
/// host for gigabytes of address space per memory) and grow by moving.
/// `Engine::new` fails only on an invalid or incompatible configuration; the
/// fixed configuration here is valid, so creation succeeds.
#[verifier::external_body]
pub(crate) fn new_engine() -> (r: Result<wasmtime::Engine, wasmtime::Error>)
    ensures
        r is Ok,
{
    let mut config = wasmtime::Config::new();
    config.memory_reservation(1 << 24);
    config.memory_guard_size(0);
    config.memory_reservation_for_growth(1 << 20);
    wasmtime::Engine::new(&config)
}

/// Relies on `wasmtime::Module::new`: compiles `bytes` into an executable
/// module, and returns an error exactly when the runtime does not accept the
/// bytes — they fail validation or cannot be compiled, which is decided by
/// the bytes alone.
#[verifier::external_body]
pub(crate) fn compile_module(engine: &wasmtime::Engine, bytes: &[u8]) -> (r: Result<
    wasmtime::Module,
    wasmtime::Error,
>)
    ensures
        r is Ok <==> module_accepted(bytes@),
{
    wasmtime::Module::new(engine, bytes)
}

/// Relies on `wasmtime::Store::new`: creates a fresh store, the unit of
/// ownership for one instance's state; it holds no instance and no memory
/// yet.
#[verifier::external_body]
pub(crate) fn new_store(engine: &wasmtime::Engine) -> wasmtime::Store<()> {
    wasmtime::Store::new(engine, ())
}

/// Relies on `wasmtime::Instance::new`: instantiates `module` inside `store`
/// with an empty import list, running the module's start section if it has
/// one; fails when the module declares an import, comes from another engine,
/// or when instantiation traps. The returned instance is owned by `store`,
/// and ownership already established for other handles persists.
#[verifier::external_body]
pub(crate) fn instantiate_in(store: &mut wasmtime::Store<()>, module: &wasmtime::Module) -> (r:
    Result<wasmtime::Instance, wasmtime::Error>)
    ensures
        r matches Ok(i) ==> instance_owned_by(i, *final(store)),
        forall|x: wasmtime::Instance| #[trigger]
            instance_owned_by(x, *final(store)) == instance_owned_by(x, *old(store)),
        forall|x: wasmtime::Memory| #[trigger]
            memory_owned_by(x, *final(store)) == memory_owned_by(x, *old(store)),
        forall|x: wasmtime::Func| #[trigger]
            func_owned_by(x, *final(store)) == func_owned_by(x, *old(store)),
{
    wasmtime::Instance::new(store, module, &[])
}

/// Relies on `wasmtime::Instance::get_memory`: looks `name` up in the
/// instance's export table and returns it if it is an exported memory, owned
/// by the same store. A lookup reads the export table only: no linear
/// memory's contents change, and no ownership changes.
#[verifier::external_body]
pub(crate) fn get_memory_export(
    store: &mut wasmtime::Store<()>,
    instance: &wasmtime::Instance,
    name: &str,
) -> (r: Option<wasmtime::Memory>)
    requires
        instance_owned_by(*instance, *old(store)),
    ensures
        r matches Some(m) ==> memory_owned_by(m, *final(store)),
        forall|x: wasmtime::Memory| #[trigger] mem_of(x, *final(store)) == mem_of(x, *old(store)),
        forall|x: wasmtime::Instance| #[trigger]
            instance_owned_by(x, *final(store)) == instance_owned_by(x, *old(store)),
        forall|x: wasmtime::Memory| #[trigger]
            memory_owned_by(x, *final(store)) == memory_owned_by(x, *old(store)),
        forall|x: wasmtime::Func| #[trigger]
            func_owned_by(x, *final(store)) == func_owned_by(x, *old(store)),
{
    instance.get_memory(&mut *store, name)
}

/// Relies on `wasmtime::Instance::get_func`: looks `name` up in the
/// instance's export table and returns it if it is an exported function,
/// owned by the same store. A lookup reads the export table only: no linear
/// memory's contents change, and no ownership changes.
#[verifier::external_body]
pub(crate) fn get_func_export(
    store: &mut wasmtime::Store<()>,
    instance: &wasmtime::Instance,
    name: &str,
) -> (r: Option<wasmtime::Func>)
    requires
        instance_owned_by(*instance, *old(store)),
    ensures
        r matches Some(f) ==> func_owned_by(f, *final(store)),
        forall|x: wasmtime::Memory| #[trigger] mem_of(x, *final(store)) == mem_of(x, *old(store)),
        forall|x: wasmtime::Instance| #[trigger]
            instance_owned_by(x, *final(store)) == instance_owned_by(x, *old(store)),
        forall|x: wasmtime::Memory| #[trigger]
            memory_owned_by(x, *final(store)) == memory_owned_by(x, *old(store)),
        forall|x: wasmtime::Func| #[trigger]
            func_owned_by(x, *final(store)) == func_owned_by(x, *old(store)),
{
    instance.get_func(&mut *store, name)
}

/// Relies on `wasmtime::Func::ty`, `FuncType::params` and
/// `FuncType::results`: reports the raw shape of `f`'s signature — the
/// parameter count, whether every parameter is a 32-bit integer, the result
/// count, and whether every result is a 32-bit integer.
#[verifier::external_body]
pub(crate) fn func_shape(store: &wasmtime::Store<()>, f: &wasmtime::Func) -> (
    usize,
    bool,
    usize,
    bool,
)
    requires
        func_owned_by(*f, *store),
{
    let ty = f.ty(&*store);
    let shape = (
        ty.params().len(),
        ty.params().all(|t: wasmtime::ValType| t.is_i32()),
        ty.results().len(),
        ty.results().all(|t: wasmtime::ValType| t.is_i32()),
    );
    shape
}

/// Relies on `wasmtime::Func::call`: invokes `f` with the given arguments as
/// 32-bit integers, expecting one 32-bit integer result, and returns an error
/// when the guest traps or when `f`'s signature has another shape. The call
/// can run arbitrary guest code, which may write anywhere in its linear
/// memory and may grow it; a WebAssembly linear memory never shrinks, and
/// handle ownership persists.
#[verifier::external_body]
pub(crate) fn call_func_ret(
    store: &mut wasmtime::Store<()>,
    f: &wasmtime::Func,
    args: &Vec<u32>,
) -> (r: Result<u32, wasmtime::Error>)
    requires
        func_owned_by(*f, *old(store)),
    ensures
        forall|x: wasmtime::Memory| #[trigger]
            mem_of(x, *final(store)).len() >= mem_of(x, *old(store)).len(),
        forall|x: wasmtime::Instance| #[trigger]
            instance_owned_by(x, *final(store)) == instance_owned_by(x, *old(store)),
        forall|x: wasmtime::Memory| #[trigger]
            memory_owned_by(x, *final(store)) == memory_owned_by(x, *old(store)),
        forall|x: wasmtime::Func| #[trigger]
            func_owned_by(x, *final(store)) == func_owned_by(x, *old(store)),
{
    let params: Vec<wasmtime::Val> = args.iter().map(|a: &u32| wasmtime::Val::I32(*a as i32)).collect();
    let mut results = [wasmtime::Val::I32(0)];
    f.call(&mut *store, &params, &mut results)?;
    match results[0].i32() {
        Some(v) => Ok(v as u32),
        None => Err(wasmtime::Error::msg("export did not return a 32-bit integer")),
    }
}

/// Relies on `wasmtime::Func::call`: invokes `f` with one 32-bit integer
/// argument and no results, and returns an error when the guest traps or
/// when `f`'s signature has another shape. As with every guest call, linear
/// memory may change but never shrinks, and handle ownership persists.
#[verifier::external_body]
pub(crate) fn call_func_unit(
    store: &mut wasmtime::Store<()>,
    f: &wasmtime::Func,
    arg: u32,
) -> (r: Result<(), wasmtime::Error>)
    requires
        func_owned_by(*f, *old(store)),
    ensures
        forall|x: wasmtime::Memory| #[trigger]
            mem_of(x, *final(store)).len() >= mem_of(x, *old(store)).len(),
        forall|x: wasmtime::Instance| #[trigger]
            instance_owned_by(x, *final(store)) == instance_owned_by(x, *old(store)),
        forall|x: wasmtime::Memory| #[trigger]
            memory_owned_by(x, *final(store)) == memory_owned_by(x, *old(store)),
        forall|x: wasmtime::Func| #[trigger]
            func_owned_by(x, *final(store)) == func_owned_by(x, *old(store)),
{
    f.call(&mut *store, &[wasmtime::Val::I32(arg as i32)], &mut [])
}

/// Relies on `wasmtime::Memory::data_size`: the current size of `m` in
/// bytes.
#[verifier::external_body]
pub(crate) fn mem_size(store: &wasmtime::Store<()>, m: &wasmtime::Memory) -> (r: usize)
    requires
        memory_owned_by(*m, *store),
    ensures
        r == mem_of(*m, *store).len(),
{
    m.data_size(&*store)
}

/// Relies on `wasmtime::Memory::read`: copies `len` bytes starting at
/// `offset` out of `m`. With `offset + len` within the current memory size
/// the read succeeds and fills the whole buffer.
#[verifier::external_body]
pub(crate) fn mem_read(
    store: &wasmtime::Store<()>,
    m: &wasmtime::Memory,
    offset: usize,
    len: usize,
) -> (r: Vec<u8>)
    requires
        memory_owned_by(*m, *store),
        offset + len <= mem_of(*m, *store).len(),
    ensures
        r@ == mem_of(*m, *store).subrange(offset as int, offset + len),
{
    let mut buf: Vec<u8> = vec![0u8; len];
    m.read(&*store, offset, &mut buf).expect("in-bounds read");
    buf
}

/// Relies on `wasmtime::Memory::write`: copies `data` into `m` at `offset`.
/// With `offset + data.len()` within the current memory size the write
/// succeeds and touches exactly the range it was given; handle ownership
/// persists.
#[verifier::external_body]
pub(crate) fn mem_write(
    store: &mut wasmtime::Store<()>,
    m: &wasmtime::Memory,
    offset: usize,
    data: &[u8],
)
    requires
        memory_owned_by(*m, *old(store)),
        offset + data@.len() <= mem_of(*m, *old(store)).len(),
    ensures
        mem_of(*m, *final(store)) == mem_of(*m, *old(store)).subrange(0, offset as int)
            + data@
            + mem_of(*m, *old(store)).subrange(
                offset + data@.len(),
                mem_of(*m, *old(store)).len() as int,
            ),
        forall|x: wasmtime::Instance| #[trigger]
            instance_owned_by(x, *final(store)) == instance_owned_by(x, *old(store)),
        forall|x: wasmtime::Memory| #[trigger]
            memory_owned_by(x, *final(store)) == memory_owned_by(x, *old(store)),
        forall|x: wasmtime::Func| #[trigger]
            func_owned_by(x, *final(store)) == func_owned_by(x, *old(store)),
{
    m.write(&mut *store, offset, data).expect("in-bounds write");
}

} // verus!
