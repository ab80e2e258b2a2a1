use wasm_glue::memory::Memory;
use wasm_glue::runtime::{HostValue, Instance, Runtime};

#[test]
fn round_trip_heap_value() {
    let mut rt = Runtime::new();
    let h = rt.add_heap_object(HostValue::Num(7));
    assert_eq!(h, 0);
    let v = rt.take_object(h);
    assert!(matches!(v, HostValue::Num(7)));
    assert!(rt.assert_heap_and_stack_empty());
}

#[test]
fn round_trip_string_value() {
    let mut rt = Runtime::new();
    let h = rt.add_heap_object(HostValue::Str(vec![1, 2, 3]));
    let v = rt.take_object(h);
    match v {
        HostValue::Str(b) => assert_eq!(b, vec![1, 2, 3]),
        _ => panic!("expected a string back"),
    }
    assert!(rt.assert_heap_and_stack_empty());
}

#[test]
fn borrowed_stack_balanced() {
    let mut rt = Runtime::new();
    let h = rt.add_borrowed_object(HostValue::Bool(true));
    assert_eq!(h, 1);
    assert!(matches!(rt.get_object(h), HostValue::Bool(true)));
    let v = rt.pop_borrowed();
    assert!(matches!(v, HostValue::Bool(true)));
    assert!(rt.assert_heap_and_stack_empty());
}

#[test]
fn nested_borrows_pop_in_reverse() {
    let mut rt = Runtime::new();
    let h1 = rt.add_borrowed_object(HostValue::Num(1));
    let h2 = rt.add_borrowed_object(HostValue::Num(2));
    assert_eq!(h1, 1);
    assert_eq!(h2, 3);
    assert!(matches!(rt.pop_borrowed(), HostValue::Num(2)));
    assert!(matches!(rt.pop_borrowed(), HostValue::Num(1)));
    assert!(rt.assert_heap_and_stack_empty());
}

#[test]
fn string_transfer_round_trip() {
    let mut mem = Memory::new();
    let (ptr, len) = mem.pass_string("world".as_bytes());
    assert_eq!(ptr, 0);
    assert_eq!(len, 5);
    let back = mem.get_string(ptr, len);
    assert_eq!(back, "world".as_bytes().to_vec());
}

#[test]
fn freelist_reuses_dropped_cells() {
    let mut rt = Runtime::new();
    let h1 = rt.add_heap_object(HostValue::Num(1));
    let h2 = rt.add_heap_object(HostValue::Num(2));
    assert_eq!(h1, 0);
    assert_eq!(h2, 2);
    rt.drop_ref(h1);
    let h3 = rt.add_heap_object(HostValue::Num(3));
    assert_eq!(h3, 0);
    rt.drop_ref(h2);
    rt.drop_ref(h3);
    assert!(rt.assert_heap_and_stack_empty());
    // After balanced adds and drops the freelist walk covers the whole
    // slab capacity.
    assert_eq!(rt.free_cell_count(), 2);
}

#[test]
fn emptiness_check_sees_live_objects() {
    let mut rt = Runtime::new();
    let h = rt.add_heap_object(HostValue::Null);
    assert!(!rt.assert_heap_and_stack_empty());
    rt.drop_ref(h);
    assert!(rt.assert_heap_and_stack_empty());
}

#[test]
fn clone_ref_promotes_stack_handle() {
    let mut rt = Runtime::new();
    let occupied = rt.add_heap_object(HostValue::Num(9));
    let h = rt.add_borrowed_object(HostValue::Str(vec![b'x']));
    assert_eq!(h, 0b0001);
    let h2 = rt.clone_ref(h);
    assert_eq!(h2 % 2, 0);
    assert!(h2 >= 0b0010);
    // Dropping the promoted handle leaves the stack untouched.
    rt.drop_ref(h2);
    assert!(matches!(rt.get_object(h), HostValue::Str(_)));
    rt.pop_borrowed();
    rt.drop_ref(occupied);
    assert!(rt.assert_heap_and_stack_empty());
}

#[test]
fn clone_ref_bumps_heap_refcount() {
    let mut rt = Runtime::new();
    let h = rt.add_heap_object(HostValue::Num(5));
    let h2 = rt.clone_ref(h);
    assert_eq!(h2, h);
    rt.drop_ref(h);
    // Still alive: the clone holds a reference.
    assert!(matches!(rt.get_object(h), HostValue::Num(5)));
    rt.drop_ref(h);
    assert!(rt.assert_heap_and_stack_empty());
}

#[test]
fn boolean_get_values() {
    let mut rt = Runtime::new();
    let hf = rt.add_heap_object(HostValue::Bool(false));
    let ht = rt.add_heap_object(HostValue::Bool(true));
    let hs = rt.add_heap_object(HostValue::Str("no".as_bytes().to_vec()));
    assert_eq!(rt.boolean_get(hf), 0);
    assert_eq!(rt.boolean_get(ht), 1);
    assert_eq!(rt.boolean_get(hs), 2);
}

#[test]
fn number_get_reads_numbers_and_flags_others() {
    let mut rt = Runtime::new();
    let mut mem = Memory::new();
    let (_p, _l) = mem.pass_string(&[0u8; 8]);
    let hn = rt.add_heap_object(HostValue::Num(41));
    let hs = rt.add_heap_object(HostValue::Str(vec![b'a']));
    assert_eq!(rt.number_get(&mut mem, hn, 3), 41);
    assert_eq!(mem.get_string(3, 1), vec![0u8]);
    assert_eq!(rt.number_get(&mut mem, hs, 3), 0);
    assert_eq!(mem.get_string(3, 1), vec![1u8]);
}

#[test]
fn null_undefined_symbol_predicates() {
    let mut rt = Runtime::new();
    let hn = rt.add_heap_object(HostValue::Null);
    let hu = rt.add_heap_object(HostValue::Undefined);
    let hs = rt.add_heap_object(HostValue::Symbol(None));
    assert_eq!(rt.is_null(hn), 1);
    assert_eq!(rt.is_null(hu), 0);
    assert_eq!(rt.is_undefined(hu), 1);
    assert_eq!(rt.is_undefined(hn), 0);
    assert_eq!(rt.is_symbol(hs), 1);
    assert_eq!(rt.is_symbol(hn), 0);
}

#[test]
fn string_new_wraps_memory_bytes() {
    let mut rt = Runtime::new();
    let mut mem = Memory::new();
    let (ptr, len) = mem.pass_string("abc".as_bytes());
    let h = rt.string_new(&mem, ptr, len);
    match rt.get_object(h) {
        HostValue::Str(b) => assert_eq!(b.clone(), "abc".as_bytes().to_vec()),
        _ => panic!("expected a string object"),
    }
}

#[test]
fn symbol_new_length_zero_is_anonymous() {
    let mut rt = Runtime::new();
    let mut mem = Memory::new();
    let (ptr, len) = mem.pass_string("tag".as_bytes());
    let anon = rt.symbol_new(&mem, 0, 0);
    let named = rt.symbol_new(&mem, ptr, len);
    assert!(matches!(rt.get_object(anon), HostValue::Symbol(None)));
    match rt.get_object(named) {
        HostValue::Symbol(Some(d)) => assert_eq!(d.clone(), "tag".as_bytes().to_vec()),
        _ => panic!("expected a described symbol"),
    }
}

#[test]
fn string_get_copies_out_and_stores_length() {
    let mut rt = Runtime::new();
    let mut mem = Memory::new();
    let (_p, _l) = mem.pass_string(&[0u8; 8]);
    let h = rt.add_heap_object(HostValue::Str("hi".as_bytes().to_vec()));
    let ptr = rt.string_get(&mut mem, h, 4);
    assert_eq!(ptr, 8);
    assert_eq!(mem.get_string(ptr, 2), "hi".as_bytes().to_vec());
    assert_eq!(mem.get_string(4, 4), vec![2u8, 0, 0, 0]);
    let hn = rt.add_heap_object(HostValue::Num(1));
    assert_eq!(rt.string_get(&mut mem, hn, 4), 0);
}

#[test]
fn number_new_and_constant_wrappers() {
    let mut rt = Runtime::new();
    let h = rt.number_new(13);
    assert!(matches!(rt.get_object(h), HostValue::Num(13)));
    let hu = rt.undefined_new();
    let hn = rt.null_new();
    let hb = rt.boolean_new(1);
    let hb0 = rt.boolean_new(7);
    assert!(matches!(rt.get_object(hu), HostValue::Undefined));
    assert!(matches!(rt.get_object(hn), HostValue::Null));
    assert!(matches!(rt.get_object(hb), HostValue::Bool(true)));
    assert!(matches!(rt.get_object(hb0), HostValue::Bool(false)));
}

#[test]
fn by_value_transfer_nulls_wrapper() {
    let mut w = Instance::new(42);
    let p = w.take_ptr();
    assert_eq!(p, 42);
    assert_eq!(w.ptr, 0);
    // free() after a transfer is a no-op: the destructor never runs.
    assert_eq!(w.free(), None);
}

#[test]
fn free_runs_destructor_once() {
    let mut w = Instance::new(7);
    assert_eq!(w.free(), Some(7));
    assert_eq!(w.ptr, 0);
    assert_eq!(w.free(), None);
}
