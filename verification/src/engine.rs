//! The module loader, instance manager, memory-marshalling protocol and
//! export invocation dispatcher.
//!
//! A [`PluginModule`] is the immutable compiled artifact, created once per distinct
//! plugin binary and reused across invocations. An [`PluginInstance`] is an
//! ephemeral execution context bound to one module, owning its own linear
//! memory; the engine creates one fresh instance per invocation and discards
//! it afterwards, which is what isolates unrelated invocations from each
//! other. A [`Buffer`] is a move-only handle to one guest allocation holding
//! a wire-encoded payload; it is released by exactly one call of
//! [`PluginInstance::free_buffer`], which consumes it.

use vstd::prelude::*;
use vstd::bytes::*;
use vstd::multiset::Multiset;
use crate::artifact::Artifact;
use crate::artifact::valid_utf8;
use crate::error::PluginError;
use crate::sandbox;
use crate::wire;

verus! {

broadcast use vstd::multiset::group_multiset_axioms;

/// An immutable compiled plugin module, owned by the host. Compilation cost
/// is paid once here and amortized across all invocations.
pub struct PluginModule {
    engine: wasmtime::Engine,
    compiled: wasmtime::Module,
}

/// Compiles `bytes` into an executable module representation; succeeds if
/// and only if the runtime accepts the bytes as a valid module, and fails
/// with `LoadError` otherwise.
pub fn load_module(bytes: &[u8]) -> (r: Result<PluginModule, PluginError>)
    ensures
        r is Ok <==> sandbox::module_accepted(bytes@),
        r matches Err(e) ==> e == PluginError::LoadError,
{
    let engine = match sandbox::new_engine() {
        Ok(e) => e,
        Err(_) => {
            return Err(PluginError::LoadError);
        },
    };
    match sandbox::compile_module(&engine, bytes) {
        Ok(compiled) => Ok(PluginModule { engine, compiled }),
        Err(_) => Err(PluginError::LoadError),
    }
}

/// Decides whether the shape reported for `f`'s signature is `n_params`
/// parameters, all 32-bit integers, returning one 32-bit integer when
/// `returns_value` is set and nothing otherwise — the only call shapes the
/// dispatcher admits.
fn shape_matches(
    store: &wasmtime::Store<()>,
    f: &wasmtime::Func,
    n_params: usize,
    returns_value: bool,
) -> bool
    requires
        sandbox::func_owned_by(*f, *store),
{
    let (n_in, params_i32, n_out, results_i32) = sandbox::func_shape(store, f);
    let results_ok = if returns_value {
        n_out == 1 && results_i32
    } else {
        n_out == 0
    };
    n_in == n_params && params_i32 && results_ok
}

/// A handle to one region of an instance's linear memory holding a
/// wire-encoded payload: 4 header bytes at `base`, then `len` payload bytes.
/// The handle is deliberately move-only (no `Clone`, no `Copy`): releasing it
/// consumes it, so a buffer can neither be released twice nor touched after
/// release.
#[derive(Debug)]
pub struct Buffer {
    base: u32,
    len: u32,
}

impl Buffer {
    /// Base offset of the 4-byte length header inside the instance's memory.
    pub closed spec fn spec_base(self) -> u32 {
        self.base
    }

    /// Payload size in bytes.
    pub closed spec fn spec_len(self) -> u32 {
        self.len
    }

    /// The whole region `[base, base + 4 + len)` lies inside `mem`.
    pub open spec fn in_bounds(self, mem: Seq<u8>) -> bool {
        self.spec_base() + 4 + self.spec_len() <= mem.len()
    }

    /// Base offset of the length header.
    pub fn base(&self) -> (r: u32)
        ensures
            r == self.spec_base(),
    {
        self.base
    }

    /// Payload size in bytes.
    pub fn length(&self) -> (r: u32)
        ensures
            r == self.spec_len(),
    {
        self.len
    }
}

/// The base offsets of a sequence of buffers, as a multiset.
pub open spec fn buffer_bases(s: Seq<Buffer>) -> Multiset<u32>
    decreases s.len(),
{
    if s.len() == 0 {
        Multiset::empty()
    } else {
        buffer_bases(s.drop_last()).insert(s.last().spec_base())
    }
}

/// Adding a multiset extended by one element is extending the sum by it.
proof fn lemma_add_insert(m: Multiset<u32>, n: Multiset<u32>, x: u32)
    ensures
        m.add(n.insert(x)) == m.add(n).insert(x),
{
    assert(m.add(n.insert(x)) =~= m.add(n).insert(x));
}

/// Inserting an element and removing it again changes nothing.
proof fn lemma_insert_remove(m: Multiset<u32>, x: u32)
    ensures
        m.insert(x).remove(x) == m,
{
    assert(m.insert(x).remove(x) =~= m);
}

/// An ephemeral execution context bound to one module, with its own linear
/// memory and its own allocator state; never reused and never shared between
/// invocations.
pub struct PluginInstance {
    store: wasmtime::Store<()>,
    inst: wasmtime::Instance,
    memory: wasmtime::Memory,
    alloc_fn: wasmtime::Func,
    free_fn: wasmtime::Func,
    live: u64,
    outstanding: Ghost<Multiset<u32>>,
}

impl PluginInstance {
    /// The current contents of the instance's linear memory.
    pub closed spec fn mem(self) -> Seq<u8> {
        sandbox::mem_of(self.memory, self.store)
    }

    /// The base offsets of the guest allocations that the host currently owns
    /// and has not yet released back to the guest's `free` export.
    pub closed spec fn outstanding(self) -> Multiset<u32> {
        self.outstanding@
    }

    /// The exact count of outstanding host-owned guest allocations.
    pub closed spec fn spec_live_allocs(self) -> u64 {
        self.live
    }

    /// The instance's runtime handles all belong to its own store — the
    /// pairing the sandbox runtime enforces, established at instantiation and
    /// never given up.
    pub closed spec fn handles_owned(self) -> bool {
        &&& sandbox::instance_owned_by(self.inst, self.store)
        &&& sandbox::memory_owned_by(self.memory, self.store)
        &&& sandbox::func_owned_by(self.alloc_fn, self.store)
        &&& sandbox::func_owned_by(self.free_fn, self.store)
    }

    /// Well-formedness: the counter matches the outstanding multiset, and
    /// every handle is paired with the instance's own store.
    pub open spec fn wf(self) -> bool {
        &&& self.spec_live_allocs() == self.outstanding().len()
        &&& self.handles_owned()
    }

    /// The function handle `f` belongs to this instance's own store — the
    /// fact a resolved export needs so it can still be called after further
    /// interactions with the instance.
    pub closed spec fn owns_func(self, f: wasmtime::Func) -> bool {
        sandbox::func_owned_by(f, self.store)
    }

    /// The count of outstanding (unfreed) guest allocations owned by the
    /// host. Zero after every completed invocation.
    pub fn live_allocs(&self) -> (r: u64)
        ensures
            r == self.spec_live_allocs(),
            self.wf() ==> r == self.outstanding().len(),
    {
        self.live
    }
}

/// Creates a fresh execution context for `module`, with its own linear
/// memory; fails exactly when the module cannot be instantiated (it declares
/// imports, or its start section traps) or lacks one of the mandatory exports
/// `memory`, `alloc(i32) -> i32` and `free(i32)`.
pub fn instantiate(module: &PluginModule) -> (r: Result<PluginInstance, PluginError>)
    ensures
        match r {
            Ok(inst) => {
                &&& inst.wf()
                &&& inst.outstanding() == Multiset::<u32>::empty()
                &&& inst.spec_live_allocs() == 0
            },
            Err(e) => e == PluginError::InstantiationError,
        },
{
    let mut store = sandbox::new_store(&module.engine);
    let raw = match sandbox::instantiate_in(&mut store, &module.compiled) {
        Ok(i) => i,
        Err(_) => {
            return Err(PluginError::InstantiationError);
        },
    };
    let memory = match sandbox::get_memory_export(&mut store, &raw, "memory") {
        Some(m) => m,
        None => {
            return Err(PluginError::InstantiationError);
        },
    };
    let alloc_fn = match sandbox::get_func_export(&mut store, &raw, "alloc") {
        Some(f) => f,
        None => {
            return Err(PluginError::InstantiationError);
        },
    };
    if !shape_matches(&store, &alloc_fn, 1, true) {
        return Err(PluginError::InstantiationError);
    }
    let free_fn = match sandbox::get_func_export(&mut store, &raw, "free") {
        Some(f) => f,
        None => {
            return Err(PluginError::InstantiationError);
        },
    };
    if !shape_matches(&store, &free_fn, 1, false) {
        return Err(PluginError::InstantiationError);
    }
    Ok(
        PluginInstance {
            store,
            inst: raw,
            memory,
            alloc_fn,
            free_fn,
            live: 0,
            outstanding: Ghost(Multiset::empty()),
        },
    )
}

impl PluginInstance {
    /// Writes `bytes` into the instance's memory as one fresh guest
    /// allocation in wire form: it asks the guest `alloc` export for a
    /// region of `bytes.len() + 4` bytes, writes the 4-byte little-endian
    /// length header at the returned base offset and the payload right after
    /// it, and hands back the buffer handle, now owned by the host. Fails
    /// with `AllocationExhausted` exactly when the payload cannot be
    /// represented on the wire (longer than `u32::MAX - 4`), when the
    /// bookkeeping counter is saturated, when the guest allocator traps, or
    /// when the allocator answers with a region that does not lie inside its
    /// memory.
    pub fn write_buffer(&mut self, bytes: &[u8]) -> (r: Result<Buffer, PluginError>)
        requires
            old(self).wf(),
        ensures
            final(self).wf(),
            final(self).mem().len() >= old(self).mem().len(),
            forall|x: wasmtime::Func| #[trigger]
                final(self).owns_func(x) == old(self).owns_func(x),
            match r {
                Ok(buf) => {
                    &&& buf.spec_len() == bytes@.len()
                    &&& buf.spec_base() + 4 + buf.spec_len() <= u32::MAX
                    &&& buf.in_bounds(final(self).mem())
                    &&& wire::wire_at(final(self).mem(), buf.spec_base() as int, bytes@)
                    &&& final(self).outstanding() == old(self).outstanding().insert(
                        buf.spec_base(),
                    )
                },
                Err(e) => {
                    &&& e == PluginError::AllocationExhausted
                    &&& final(self).outstanding() == old(self).outstanding()
                },
            },
            bytes@.len() > u32::MAX - 4 ==> r is Err,
    {
        if bytes.len() as u64 > (u32::MAX as u64) - 4 {
            return Err(PluginError::AllocationExhausted);
        }
        if self.live == u64::MAX {
            return Err(PluginError::AllocationExhausted);
        }
        let size: u32 = bytes.len() as u32;
        let mut alloc_args: Vec<u32> = Vec::new();
        alloc_args.push(size);
        let base = match sandbox::call_func_ret(&mut self.store, &self.alloc_fn, &alloc_args) {
            Ok(p) => p,
            Err(_) => {
                return Err(PluginError::AllocationExhausted);
            },
        };
        let msize = sandbox::mem_size(&self.store, &self.memory);
        if base as u64 + 4 + size as u64 > u32::MAX as u64 {
            return Err(PluginError::AllocationExhausted);
        }
        if base as u64 + 4 + size as u64 > msize as u64 {
            return Err(PluginError::AllocationExhausted);
        }
        let ghost mem0 = self.mem();
        let encoded = wire::encode(bytes);
        sandbox::mem_write(&mut self.store, &self.memory, base as usize, encoded.as_slice());
        let ghost mem2 = self.mem();
        proof {
            assert(mem2.len() == mem0.len());
            assert(mem2.subrange(base as int, base + 4 + size as int) =~= wire::wire_encoding(
                bytes@,
            )) by {
                assert forall|j: int| 0 <= j < 4 + size as int implies mem2[base + j]
                    == wire::wire_encoding(bytes@)[j] by {
                    assert(mem2[base + j] == encoded@[j]);
                }
            }
        }
        self.live = self.live + 1;
        proof {
            self.outstanding@ = self.outstanding@.insert(base);
        }
        Ok(Buffer { base, len: size })
    }

    /// Reads the 4-byte little-endian length header at `base` and returns the
    /// buffer handle spanning `[base, base + 4 + n)`, which the host now owns
    /// and must eventually release. Fails with `DecodeError` exactly when the
    /// header or the payload it announces would leave the instance's memory,
    /// or when the bookkeeping counter is saturated and the host can own no
    /// further allocation.
    pub fn read_buffer(&mut self, base: u32) -> (r: Result<Buffer, PluginError>)
        requires
            old(self).wf(),
        ensures
            final(self).wf(),
            final(self).mem() == old(self).mem(),
            match r {
                Ok(buf) => {
                    &&& buf.spec_base() == base
                    &&& base + 4 <= old(self).mem().len()
                    &&& buf.spec_len() == wire::header_at(old(self).mem(), base as int)
                    &&& buf.in_bounds(old(self).mem())
                    &&& final(self).outstanding() == old(self).outstanding().insert(base)
                },
                Err(e) => {
                    &&& e == PluginError::DecodeError
                    &&& final(self).outstanding() == old(self).outstanding()
                    &&& (base + 4 > old(self).mem().len() || base + 4 + wire::header_at(
                        old(self).mem(),
                        base as int,
                    ) > old(self).mem().len() || old(self).spec_live_allocs() == u64::MAX)
                },
            },
    {
        let msize = sandbox::mem_size(&self.store, &self.memory);
        if base as u64 + 4 > msize as u64 {
            return Err(PluginError::DecodeError);
        }
        if self.live == u64::MAX {
            return Err(PluginError::DecodeError);
        }
        let header = sandbox::mem_read(&self.store, &self.memory, base as usize, 4);
        let n = u32_from_le_bytes(header.as_slice());
        if base as u64 + 4 + n as u64 > msize as u64 {
            return Err(PluginError::DecodeError);
        }
        self.live = self.live + 1;
        proof {
            self.outstanding@ = self.outstanding@.insert(base);
        }
        Ok(Buffer { base, len: n })
    }

    /// Copies the buffer's payload — the bytes between the end of its header
    /// and the end of its region — out of the instance's memory into an owned
    /// byte string, decoupling its lifetime from the instance.
    pub fn payload(&self, buf: &Buffer) -> (r: Vec<u8>)
        requires
            self.wf(),
            buf.in_bounds(self.mem()),
        ensures
            r@ == self.mem().subrange(
                buf.spec_base() + 4,
                buf.spec_base() + 4 + buf.spec_len() as int,
            ),
            r@.len() == buf.spec_len(),
    {
        // Pins the memory length into the usize range, so the pointer
        // arithmetic below cannot overflow.
        let _mem_len = sandbox::mem_size(&self.store, &self.memory);
        sandbox::mem_read(&self.store, &self.memory, buf.base as usize + 4, buf.len as usize)
    }

    /// Releases the buffer's guest allocation by calling the guest `free`
    /// export exactly once with the buffer's base offset — the address the
    /// guest allocator originally returned. The handle is consumed: no
    /// double release and no use after release is possible. Fails with
    /// `GuestTrapped` when the guest's `free` export faults.
    pub fn free_buffer(&mut self, buf: Buffer) -> (r: Result<(), PluginError>)
        requires
            old(self).wf(),
            old(self).outstanding().contains(buf.spec_base()),
        ensures
            final(self).wf(),
            final(self).mem().len() >= old(self).mem().len(),
            final(self).outstanding() == old(self).outstanding().remove(buf.spec_base()),
            r matches Err(e) ==> e == PluginError::GuestTrapped,
    {
        proof {
            assert(old(self).outstanding().len() > 0);
            assert(old(self).outstanding().remove(buf.spec_base()).insert(buf.spec_base())
                =~= old(self).outstanding());
        }
        self.live = self.live - 1;
        proof {
            self.outstanding@ = self.outstanding@.remove(buf.base);
        }
        match sandbox::call_func_unit(&mut self.store, &self.free_fn, buf.base) {
            Ok(u) => Ok(u),
            Err(_) => Err(PluginError::GuestTrapped),
        }
    }

    /// Releases every buffer in `bufs`, in reverse order of creation, and
    /// reports whether any release trapped. `rest` names the outstanding
    /// bases that are not handed in and therefore stay outstanding.
    fn release_all(&mut self, bufs: Vec<Buffer>, Ghost(rest): Ghost<Multiset<u32>>) -> (trapped:
        bool)
        requires
            old(self).wf(),
            old(self).outstanding() == rest.add(buffer_bases(bufs@)),
        ensures
            final(self).wf(),
            final(self).outstanding() == rest,
            final(self).mem().len() >= old(self).mem().len(),
    {
        let mut bufs = bufs;
        let mut trapped = false;
        while bufs.len() > 0
            invariant
                self.wf(),
                self.outstanding() == rest.add(buffer_bases(bufs@)),
                self.mem().len() >= old(self).mem().len(),
            decreases bufs@.len(),
        {
            let ghost bufs_pre = bufs@;
            let b = bufs.pop().unwrap();
            proof {
                assert(bufs@ =~= bufs_pre.drop_last());
                assert(buffer_bases(bufs_pre) == buffer_bases(bufs@).insert(b.spec_base()));
                lemma_add_insert(rest, buffer_bases(bufs@), b.spec_base());
                lemma_insert_remove(rest.add(buffer_bases(bufs@)), b.spec_base());
            }
            match self.free_buffer(b) {
                Ok(_) => {},
                Err(_) => {
                    trapped = true;
                },
            }
        }
        proof {
            assert(self.outstanding() =~= rest);
        }
        trapped
    }

    /// Resolves `export_name`, writes every input artifact into the
    /// instance's memory, invokes the export with the flattened
    /// (payload pointer, length) pairs in input order, reads the returned
    /// pointer back as a wire buffer, copies the payload out, validates it,
    /// and releases every buffer this invocation created, whatever the
    /// outcome — no invocation leaves an allocation outstanding. A failed
    /// resolution leaves the instance's memory untouched. A release that
    /// traps while a primary failure is being reported is not surfaced over
    /// that failure, since the instance is about to be discarded; on the
    /// success path such a trap is reported as `GuestTrapped`. The instance
    /// is meant to be discarded after this returns, whether it succeeded or
    /// not.
    pub fn invoke(&mut self, export_name: &str, inputs: &Vec<Artifact>) -> (r: Result<
        Artifact,
        PluginError,
    >)
        requires
            old(self).wf(),
        ensures
            final(self).wf(),
            final(self).outstanding() == old(self).outstanding(),
            match r {
                Ok(a) => valid_utf8(a@),
                Err(e) => {
                    &&& e != PluginError::LoadError
                    &&& e != PluginError::InstantiationError
                    &&& (e == PluginError::ExportNotFound || e == PluginError::ExportTypeMismatch)
                        ==> final(self).mem() == old(self).mem()
                },
            },
    {
        let f = match sandbox::get_func_export(&mut self.store, &self.inst, export_name) {
            Some(f) => f,
            None => {
                return Err(PluginError::ExportNotFound);
            },
        };
        if inputs.len() as u64 > (u32::MAX as u64) / 2 {
            // No function signature can take that many parameter pairs.
            return Err(PluginError::ExportTypeMismatch);
        }
        if !shape_matches(&self.store, &f, 2 * inputs.len(), true) {
            return Err(PluginError::ExportTypeMismatch);
        }
        let ghost out0 = self.outstanding();
        let mut bufs: Vec<Buffer> = Vec::new();
        let mut args: Vec<u32> = Vec::new();
        let mut k: usize = 0;
        while k < inputs.len()
            invariant
                self.wf(),
                self.owns_func(f),
                k <= inputs@.len(),
                out0 == old(self).outstanding(),
                self.outstanding() == out0.add(buffer_bases(bufs@)),
            decreases inputs@.len() - k,
        {
            let ghost bufs_pre = bufs@;
            let buf = match self.write_buffer(inputs[k].as_bytes().as_slice()) {
                Ok(b) => b,
                Err(e) => {
                    let _ = self.release_all(bufs, Ghost(out0));
                    return Err(e);
                },
            };
            args.push(buf.base() + 4);
            args.push(buf.length());
            proof {
                lemma_add_insert(out0, buffer_bases(bufs_pre), buf.spec_base());
                assert(bufs_pre.push(buf).drop_last() =~= bufs_pre);
            }
            bufs.push(buf);
            k = k + 1;
        }
        let ret = match sandbox::call_func_ret(&mut self.store, &f, &args) {
            Ok(v) => v,
            Err(_) => {
                let _ = self.release_all(bufs, Ghost(out0));
                return Err(PluginError::GuestTrapped);
            },
        };
        let rbuf = match self.read_buffer(ret) {
            Ok(b) => b,
            Err(e) => {
                let _ = self.release_all(bufs, Ghost(out0));
                return Err(e);
            },
        };
        let out_bytes = self.payload(&rbuf);
        let result = match Artifact::from_bytes(out_bytes) {
            Ok(a) => a,
            Err(e) => {
                proof {
                    assert(bufs@.push(rbuf).drop_last() =~= bufs@);
                    lemma_add_insert(out0, buffer_bases(bufs@), rbuf.spec_base());
                }
                bufs.push(rbuf);
                let _ = self.release_all(bufs, Ghost(out0));
                return Err(e);
            },
        };
        proof {
            lemma_insert_remove(out0.add(buffer_bases(bufs@)), rbuf.spec_base());
        }
        match self.free_buffer(rbuf) {
            Ok(_) => {},
            Err(e) => {
                let _ = self.release_all(bufs, Ghost(out0));
                return Err(e);
            },
        }
        if self.release_all(bufs, Ghost(out0)) {
            return Err(PluginError::GuestTrapped);
        }
        Ok(result)
    }
}

/// Round trip of the marshalling protocol: wherever `write_buffer` stored a
/// payload `s` — its region holds the wire encoding of `s`, as its contract
/// ensures — decoding the length header at the buffer's base recovers exactly
/// `s.len()`, and the payload bytes that `payload` copies out are `s` itself.
pub proof fn lemma_marshalling_round_trip(inst: PluginInstance, buf: Buffer, s: Seq<u8>)
    requires
        wire::wire_at(inst.mem(), buf.spec_base() as int, s),
        buf.spec_len() == s.len(),
    ensures
        wire::header_at(inst.mem(), buf.spec_base() as int) == s.len(),
        inst.mem().subrange(
            buf.spec_base() + 4,
            buf.spec_base() + 4 + buf.spec_len() as int,
        ) == s,
{
    wire::lemma_wire_round_trip(inst.mem(), buf.spec_base() as int, s);
}

/// Leak-free marshalling: an instance starts with no outstanding guest
/// allocations (as `instantiate` ensures) and every invocation, whatever its
/// outcome, preserves the outstanding multiset (as `invoke` ensures), so
/// after any number of invocations the count of outstanding allocations is
/// still zero. `states` is the chain of outstanding multisets observed
/// between the invocations.
pub proof fn lemma_leak_free(states: Seq<Multiset<u32>>)
    requires
        states.len() > 0,
        states[0] == Multiset::<u32>::empty(),
        forall|i: int| 0 < i < states.len() ==> #[trigger] states[i] == states[i - 1],
    ensures
        states[states.len() - 1] == Multiset::<u32>::empty(),
        states[states.len() - 1].len() == 0,
    decreases states.len(),
{
    if states.len() > 1 {
        let front = states.drop_last();
        assert(forall|i: int| 0 < i < front.len() ==> #[trigger] front[i] == front[i - 1]);
        lemma_leak_free(front);
        assert(states[states.len() - 1] == states[states.len() - 2]);
    }
}

/// Loads nothing and caches nothing: resolves and runs one invocation on one
/// fresh, throwaway instance of `module`, as the isolation policy demands.
/// The module itself is shared immutably and cannot be changed by an
/// invocation, whatever its outcome.
pub fn invoke(module: &PluginModule, export_name: &str, inputs: &Vec<Artifact>) -> (r: Result<
    Artifact,
    PluginError,
>)
    ensures
        r matches Ok(a) ==> valid_utf8(a@),
        r matches Err(e) ==> e != PluginError::LoadError,
{
    let mut inst = match instantiate(module) {
        Ok(i) => i,
        Err(e) => {
            return Err(e);
        },
    };
    inst.invoke(export_name, inputs)
}

} // verus!
