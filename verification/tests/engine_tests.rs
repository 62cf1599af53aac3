//! End-to-end tests of the engine against real sandboxed plugin modules,
//! written in the text format and compiled by the embedded runtime.

use plugin_host::artifact::Artifact;
use plugin_host::engine::instantiate;
use plugin_host::engine::invoke;
use plugin_host::engine::load_module;
use plugin_host::engine::PluginModule;
use plugin_host::error::PluginError;

/// A well-behaved plugin: a bump allocator honouring the guest allocator
/// contract, an identity transformation, a flag-gated transformation, and a
/// handful of deliberately misbehaving exports.
const PLUGIN: &str = r#"
(module
  (memory (export "memory") 1)
  (global $next (mut i32) (i32.const 16))
  (func $alloc (export "alloc") (param $size i32) (result i32)
    (local $ptr i32)
    (local $need i32)
    global.get $next
    local.set $ptr
    local.get $ptr
    i32.const 4
    i32.add
    local.get $size
    i32.add
    local.set $need
    block $done
      local.get $need
      memory.size
      i32.const 65536
      i32.mul
      i32.le_u
      br_if $done
      local.get $need
      memory.size
      i32.const 65536
      i32.mul
      i32.sub
      i32.const 65535
      i32.add
      i32.const 65536
      i32.div_u
      memory.grow
      drop
    end
    local.get $ptr
    local.get $size
    i32.store
    local.get $need
    global.set $next
    local.get $ptr
  )
  (func (export "free") (param $ptr i32))
  (func $identity (export "identity") (param $ptr i32) (param $len i32) (result i32)
    (local $dst i32)
    local.get $len
    call $alloc
    local.set $dst
    local.get $dst
    i32.const 4
    i32.add
    local.get $ptr
    local.get $len
    memory.copy
    local.get $dst
  )
  (func (export "gated") (param $p1 i32) (param $l1 i32) (param $p2 i32) (param $l2 i32) (result i32)
    (local $dst i32)
    local.get $l2
    i32.const 0
    i32.gt_u
    if (result i32)
      local.get $p2
      i32.load8_u
      i32.const 116
      i32.eq
    else
      i32.const 0
    end
    if (result i32)
      local.get $l1
      i32.const 1
      i32.add
      call $alloc
      local.set $dst
      local.get $dst
      i32.const 4
      i32.add
      i32.const 33
      i32.store8
      local.get $dst
      i32.const 5
      i32.add
      local.get $p1
      local.get $l1
      memory.copy
      local.get $dst
    else
      local.get $p1
      local.get $l1
      call $identity
    end
  )
  (func (export "greet") (result i32)
    (local $dst i32)
    i32.const 2
    call $alloc
    local.set $dst
    local.get $dst
    i32.const 4
    i32.add
    i32.const 104
    i32.store8
    local.get $dst
    i32.const 5
    i32.add
    i32.const 105
    i32.store8
    local.get $dst
  )
  (func (export "boom") (param $ptr i32) (param $len i32) (result i32)
    unreachable
  )
  (func (export "oob") (param $ptr i32) (param $len i32) (result i32)
    i32.const 2000000000
    i32.load
  )
  (func (export "badptr") (param $ptr i32) (param $len i32) (result i32)
    i32.const 2000000000
  )
  (func (export "badbyte") (param $ptr i32) (param $len i32) (result i32)
    (local $dst i32)
    i32.const 1
    call $alloc
    local.set $dst
    local.get $dst
    i32.const 4
    i32.add
    i32.const 255
    i32.store8
    local.get $dst
  )
  (func (export "wrongtype") (param $ptr i64) (param $len i32) (result i32)
    i32.const 0
  )
)
"#;

/// A plugin whose allocator always traps.
const NO_ALLOC_PLUGIN: &str = r#"
(module
  (memory (export "memory") 1)
  (func (export "alloc") (param i32) (result i32)
    unreachable
  )
  (func (export "free") (param i32))
  (func (export "identity") (param i32 i32) (result i32)
    i32.const 16
  )
)
"#;

/// A plugin whose `free` export always traps, while allocation and the
/// transformation itself behave.
const FREE_TRAPS_PLUGIN: &str = r#"
(module
  (memory (export "memory") 1)
  (global $next (mut i32) (i32.const 16))
  (func $alloc (export "alloc") (param $size i32) (result i32)
    (local $ptr i32)
    global.get $next
    local.set $ptr
    local.get $ptr
    local.get $size
    i32.store
    local.get $ptr
    i32.const 4
    i32.add
    local.get $size
    i32.add
    global.set $next
    local.get $ptr
  )
  (func (export "free") (param i32)
    unreachable
  )
  (func (export "identity") (param $ptr i32) (param $len i32) (result i32)
    (local $dst i32)
    local.get $len
    call $alloc
    local.set $dst
    local.get $dst
    i32.const 4
    i32.add
    local.get $ptr
    local.get $len
    memory.copy
    local.get $dst
  )
)
"#;

/// A plugin lacking the mandatory allocator exports.
const BARE_PLUGIN: &str = r#"
(module
  (memory (export "memory") 1)
)
"#;

fn plugin() -> PluginModule {
    load_module(PLUGIN.as_bytes()).unwrap()
}

fn artifact(text: &str) -> Artifact {
    Artifact::from_bytes(text.as_bytes().to_vec()).unwrap()
}

#[test]
fn load_rejects_malformed_module() {
    let r = load_module(b"not a module at all");
    assert!(matches!(r, Err(PluginError::LoadError)));
}

#[test]
fn instantiate_requires_mandatory_exports() {
    let module = load_module(BARE_PLUGIN.as_bytes()).unwrap();
    let r = instantiate(&module);
    assert!(matches!(r, Err(PluginError::InstantiationError)));
}

#[test]
fn buffer_write_read_round_trip() {
    let module = plugin();
    let mut inst = instantiate(&module).unwrap();
    let buf = inst.write_buffer(b"round trip payload").unwrap();
    assert_eq!(buf.length(), 18);
    let read = inst.read_buffer(buf.base()).unwrap();
    assert_eq!(read.length(), 18);
    assert_eq!(read.base(), buf.base());
    assert_eq!(inst.payload(&read), b"round trip payload".to_vec());
    inst.free_buffer(read).unwrap();
}

#[test]
fn buffer_empty_round_trip() {
    let module = plugin();
    let mut inst = instantiate(&module).unwrap();
    let buf = inst.write_buffer(b"").unwrap();
    assert_eq!(buf.length(), 0);
    let read = inst.read_buffer(buf.base()).unwrap();
    assert_eq!(read.length(), 0);
    assert_eq!(inst.payload(&read), Vec::<u8>::new());
}

#[test]
fn identity_returns_its_input() {
    let module = plugin();
    let out = invoke(&module, "identity", &vec![artifact("hello")]).unwrap();
    assert_eq!(out.as_bytes().as_slice(), b"hello");
}

#[test]
fn identity_round_trips_empty_artifact() {
    let module = plugin();
    let out = invoke(&module, "identity", &vec![artifact("")]).unwrap();
    assert_eq!(out.as_bytes().as_slice(), b"");
}

#[test]
fn export_without_inputs_can_be_invoked() {
    let module = plugin();
    let out = invoke(&module, "greet", &Vec::new()).unwrap();
    assert_eq!(out.as_bytes().as_slice(), b"hi");
}

#[test]
fn missing_export_is_reported_without_side_effect() {
    let module = plugin();
    let r = invoke(&module, "doesNotExist", &vec![artifact("x")]);
    assert_eq!(r.unwrap_err(), PluginError::ExportNotFound);
    // The module is untouched: a later invocation still works.
    let out = invoke(&module, "identity", &vec![artifact("x")]).unwrap();
    assert_eq!(out.as_bytes().as_slice(), b"x");
}

#[test]
fn wrong_signature_is_a_type_mismatch() {
    let module = plugin();
    let r = invoke(&module, "wrongtype", &vec![artifact("x")]);
    assert_eq!(r.unwrap_err(), PluginError::ExportTypeMismatch);
    // Arity is checked too: identity takes exactly one pointer/length pair.
    let two = vec![artifact("x"), artifact("y")];
    let r = invoke(&module, "identity", &two);
    assert_eq!(r.unwrap_err(), PluginError::ExportTypeMismatch);
}

#[test]
fn trapping_guest_is_contained() {
    let module = plugin();
    let r = invoke(&module, "boom", &vec![artifact("x")]);
    assert_eq!(r.unwrap_err(), PluginError::GuestTrapped);
    let r = invoke(&module, "oob", &vec![artifact("x")]);
    assert_eq!(r.unwrap_err(), PluginError::GuestTrapped);
    // A subsequent, unrelated invocation on a fresh instance still succeeds.
    let out = invoke(&module, "identity", &vec![artifact("still fine")]).unwrap();
    assert_eq!(out.as_bytes().as_slice(), b"still fine");
}

#[test]
fn undecodable_results_are_rejected() {
    let module = plugin();
    let r = invoke(&module, "badptr", &vec![artifact("x")]);
    assert_eq!(r.unwrap_err(), PluginError::DecodeError);
    let r = invoke(&module, "badbyte", &vec![artifact("x")]);
    assert_eq!(r.unwrap_err(), PluginError::DecodeError);
}

#[test]
fn exhausted_allocator_is_reported() {
    let module = load_module(NO_ALLOC_PLUGIN.as_bytes()).unwrap();
    let r = invoke(&module, "identity", &vec![artifact("x")]);
    assert_eq!(r.unwrap_err(), PluginError::AllocationExhausted);
}

#[test]
fn completed_invocations_leak_no_allocations() {
    let module = plugin();
    for i in 0..8 {
        let mut inst = instantiate(&module).unwrap();
        assert_eq!(inst.live_allocs(), 0);
        let input = artifact(&format!("payload number {}", i));
        let out = inst.invoke("identity", &vec![input]).unwrap();
        assert_eq!(out.as_bytes().as_slice(), format!("payload number {}", i).as_bytes());
        assert_eq!(inst.live_allocs(), 0);
    }
}

#[test]
fn failed_invocations_release_their_buffers() {
    let module = plugin();
    let mut inst = instantiate(&module).unwrap();
    let r = inst.invoke("badbyte", &vec![artifact("x")]);
    assert_eq!(r.unwrap_err(), PluginError::DecodeError);
    assert_eq!(inst.live_allocs(), 0);
    let mut inst2 = instantiate(&module).unwrap();
    let r = inst2.invoke("boom", &vec![artifact("x")]);
    assert_eq!(r.unwrap_err(), PluginError::GuestTrapped);
    assert_eq!(inst2.live_allocs(), 0);
}

#[test]
fn trapping_release_is_reported_and_owns_nothing_after() {
    let module = load_module(FREE_TRAPS_PLUGIN.as_bytes()).unwrap();
    let mut inst = instantiate(&module).unwrap();
    // The transformation succeeds, but releasing the result buffer traps.
    let r = inst.invoke("identity", &vec![artifact("x")]);
    assert_eq!(r.unwrap_err(), PluginError::GuestTrapped);
    // The host gave up ownership of every buffer all the same.
    assert_eq!(inst.live_allocs(), 0);
}

#[test]
fn sequential_invocations_are_order_independent() {
    let module = plugin();
    // First A, then B ...
    let a1 = invoke(&module, "identity", &vec![artifact("alpha")]).unwrap();
    let b1 = invoke(&module, "identity", &vec![artifact("beta")]).unwrap();
    // ... then B, then A: a pure transformation gives the same results.
    let b2 = invoke(&module, "identity", &vec![artifact("beta")]).unwrap();
    let a2 = invoke(&module, "identity", &vec![artifact("alpha")]).unwrap();
    assert_eq!(a1.as_bytes(), a2.as_bytes());
    assert_eq!(b1.as_bytes(), b2.as_bytes());
}

#[test]
fn flag_gated_plugin_is_deterministic_per_input_pair() {
    let module = plugin();
    let on = vec![artifact("hi"), artifact("true")];
    let off = vec![artifact("hi"), artifact("false")];
    let out_on_1 = invoke(&module, "gated", &on).unwrap();
    let out_on_2 = invoke(&module, "gated", &on).unwrap();
    let out_off_1 = invoke(&module, "gated", &off).unwrap();
    let out_off_2 = invoke(&module, "gated", &off).unwrap();
    // Byte-identical inputs give byte-identical outputs across calls.
    assert_eq!(out_on_1.as_bytes(), out_on_2.as_bytes());
    assert_eq!(out_off_1.as_bytes(), out_off_2.as_bytes());
    // A different flag gives a different formatting.
    assert_ne!(out_on_1.as_bytes(), out_off_1.as_bytes());
    assert_eq!(out_on_1.as_bytes().as_slice(), b"!hi");
    assert_eq!(out_off_1.as_bytes().as_slice(), b"hi");
}

#[test]
fn out_of_bounds_header_is_refused_without_a_guest_call() {
    let module = plugin();
    let mut inst = instantiate(&module).unwrap();
    // A header address far beyond the instance's memory.
    let r = inst.read_buffer(u32::MAX - 1);
    assert_eq!(r.unwrap_err(), PluginError::DecodeError);
    assert_eq!(inst.live_allocs(), 0);
}

#[test]
fn error_descriptions_are_stable() {
    assert_eq!(
        PluginError::ExportNotFound.describe(),
        "no export with the requested name"
    );
    assert!(PluginError::GuestTrapped.describe().contains("fault"));
}
