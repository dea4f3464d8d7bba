use hush::access::{access, assign, finished, iteration, value};
use hush::dict::Dict;
use hush::mem::{Function, HostFn, Memory, Overflow};
use hush::panic::Panic;
use hush::program::SlotIx;
use hush::source::SourcePos;
use hush::value::{Float, Value};

fn slot(index: u32) -> SlotIx {
    SlotIx { index }
}

fn here() -> SourcePos {
    SourcePos::file("mem")
}

#[test]
fn new_memory_is_empty() {
    let mem = Memory::new(8);
    assert!(mem.is_empty());
    assert_eq!(mem.depth(), 0);
    assert_eq!(mem.limit(), 8);
}

#[test]
fn extend_pushes_nil_slots() {
    let mut mem = Memory::new(8);
    assert_eq!(mem.extend(3), Ok(()));
    assert_eq!(mem.depth(), 3);
    for i in 0..3 {
        assert!(matches!(mem.fetch(slot(i)), Value::Nil));
    }
    mem.shrink(2);
    assert_eq!(mem.depth(), 1);
    mem.shrink(1);
    assert!(mem.is_empty());
}

#[test]
fn extend_respects_the_limit() {
    let mut mem = Memory::new(4);
    assert_eq!(mem.extend(4), Ok(()));
    assert_eq!(mem.extend(1), Err(Overflow));
    assert_eq!(mem.depth(), 4);
    assert_eq!(mem.extend(0), Ok(()));
    mem.shrink(1);
    assert_eq!(mem.extend(2), Err(Overflow));
    assert_eq!(mem.extend(1), Ok(()));
}

#[test]
fn slots_are_counted_from_the_top() {
    let mut mem = Memory::new(8);
    mem.extend(2).unwrap();
    mem.store(slot(0), Value::Int(10));
    mem.store(slot(1), Value::Int(11));
    mem.extend(1).unwrap();
    mem.store(slot(0), Value::Int(20));
    assert!(matches!(mem.fetch(slot(0)), Value::Int(20)));
    mem.shrink(1);
    assert!(matches!(mem.fetch(slot(0)), Value::Int(10)));
    assert!(matches!(mem.fetch(slot(1)), Value::Int(11)));
}

#[test]
fn captured_cell_outlives_its_frame() {
    let mut mem = Memory::new(8);
    mem.extend(1).unwrap();
    mem.store(slot(0), Value::Int(1));
    let cell = mem.capture(slot(0));
    assert_eq!(mem.capture(slot(0)), cell);
    mem.store(slot(0), Value::Int(2));
    mem.shrink(1);
    mem.extend(2).unwrap();
    mem.place(slot(1), cell);
    assert!(matches!(mem.fetch(slot(1)), Value::Int(2)));
    mem.store(slot(1), Value::Int(3));
    mem.place(slot(0), cell);
    assert!(matches!(mem.fetch(slot(0)), Value::Int(3)));
}

#[test]
fn capturing_two_slots_gives_two_cells() {
    let mut mem = Memory::new(8);
    mem.extend(2).unwrap();
    let a = mem.capture(slot(0));
    let b = mem.capture(slot(1));
    assert_ne!(a, b);
}

#[test]
fn arrays() {
    let mut mem = Memory::new(8);
    let a = mem.alloc_array(vec![Value::Int(1), Value::Int(2)]);
    let b = mem.alloc_array(vec![]);
    assert_ne!(a, b);
    assert_eq!(mem.array_len(a), 2);
    assert_eq!(mem.array_len(b), 0);
    assert!(matches!(mem.array_index(a, 1), Some(Value::Int(2))));
    assert!(mem.array_index(a, 2).is_none());
    assert!(mem.array_index(a, -1).is_none());
    assert!(mem.array_set(a, 0, Value::Bool(true)));
    assert!(matches!(mem.array_index(a, 0), Some(Value::Bool(true))));
    assert!(!mem.array_set(a, 2, Value::Nil));
    assert!(!mem.array_set(a, -1, Value::Nil));
    assert_eq!(mem.array_len(a), 2);
    mem.array_push(b, Value::Int(9));
    assert!(matches!(mem.array_index(b, 0), Some(Value::Int(9))));
}

#[test]
fn array_can_hold_itself() {
    let mut mem = Memory::new(8);
    let a = mem.alloc_array(vec![]);
    mem.array_push(a, Value::Array(a));
    assert!(matches!(mem.array_index(a, 0), Some(Value::Array(r)) if r == a));
}

#[test]
fn dicts() {
    let mut mem = Memory::new(8);
    let d = mem.alloc_dict(Dict::new());
    assert_eq!(mem.dict_len(d), 0);
    mem.dict_insert(d, Value::Int(1), Value::string(b"a"));
    mem.dict_insert(d, Value::string(b"1"), Value::string(b"b"));
    mem.dict_insert(d, Value::Float(Float::from_bits(1.0f64.to_bits())), Value::string(b"c"));
    mem.dict_insert(d, Value::Dict(d), Value::string(b"d"));
    assert_eq!(mem.dict_len(d), 4);
    assert!(matches!(mem.dict_get(d, &Value::Int(1)), Some(Value::String(s)) if s == b"a"));
    assert!(matches!(mem.dict_get(d, &Value::string(b"1")), Some(Value::String(s)) if s == b"b"));
    assert!(matches!(mem.dict_get(d, &Value::Dict(d)), Some(Value::String(s)) if s == b"d"));
    assert!(mem.dict_get(d, &Value::Int(2)).is_none());
    assert!(mem.dict_get(d, &Value::Byte(1)).is_none());
    mem.dict_insert(d, Value::Int(1), Value::Nil);
    assert_eq!(mem.dict_len(d), 4);
    assert!(matches!(mem.dict_get(d, &Value::Int(1)), Some(Value::Nil)));
}

#[test]
fn dict_on_its_own() {
    let mut dict = Dict::new();
    assert_eq!(dict.len(), 0);
    assert!(dict.get(&Value::Nil).is_none());
    dict.insert(Value::Nil, Value::Int(1));
    dict.insert(Value::Bool(false), Value::Int(2));
    dict.insert(Value::Nil, Value::Int(3));
    assert_eq!(dict.len(), 2);
    assert!(matches!(dict.get(&Value::Nil), Some(Value::Int(3))));
    assert!(matches!(dict.get(&Value::Bool(false)), Some(Value::Int(2))));
    assert!(dict.get(&Value::Bool(true)).is_none());
}

#[test]
fn functions() {
    let mut mem = Memory::new(8);
    let f = mem.alloc_function(Function::Host(HostFn { arity: 1, id: 7 }));
    let g = mem.alloc_function(Function::Host(HostFn { arity: 0, id: 8 }));
    assert_ne!(f, g);
    assert!(matches!(mem.function(f), Function::Host(HostFn { arity: 1, id: 7 })));
    assert!(matches!(mem.function(g), Function::Host(HostFn { arity: 0, id: 8 })));
}

#[test]
fn access_on_values() {
    let mut mem = Memory::new(8);
    let a = mem.alloc_array(vec![Value::Int(5)]);
    let d = mem.alloc_dict(Dict::new());
    mem.dict_insert(d, Value::Bool(true), Value::Int(6));
    let get = |mem: &Memory, object: Value, field: Value| {
        access(mem, &object, field, SourcePos::file("object"), SourcePos::file("field"))
    };
    assert!(matches!(get(&mem, Value::Array(a), Value::Int(0)), Ok(Value::Int(5))));
    assert!(matches!(get(&mem, Value::Dict(d), Value::Bool(true)), Ok(Value::Int(6))));
    match get(&mem, Value::Array(a), Value::Int(1)) {
        Err(Panic::IndexOutOfBounds { value: Value::Int(1), pos }) => assert_eq!(pos.path, "field"),
        other => panic!("{:?}", other),
    }
    match get(&mem, Value::Array(a), Value::Nil) {
        Err(Panic::InvalidOperand { value: Value::Nil, pos }) => assert_eq!(pos.path, "field"),
        other => panic!("{:?}", other),
    }
    match get(&mem, Value::Dict(d), Value::Bool(false)) {
        Err(Panic::IndexOutOfBounds { value: Value::Bool(false), pos }) => {
            assert_eq!(pos.path, "field")
        },
        other => panic!("{:?}", other),
    }
    match get(&mem, Value::Nil, Value::Int(0)) {
        Err(Panic::InvalidOperand { value: Value::Nil, pos }) => assert_eq!(pos.path, "object"),
        other => panic!("{:?}", other),
    }
}

#[test]
fn assign_on_values() {
    let mut mem = Memory::new(8);
    let a = mem.alloc_array(vec![Value::Int(5)]);
    let d = mem.alloc_dict(Dict::new());
    let put = |mem: &mut Memory, object: Value, field: Value| {
        assign(
            mem,
            object,
            field,
            Value::Int(1),
            SourcePos::file("object"),
            SourcePos::file("field"),
        )
    };
    assert!(put(&mut mem, Value::Array(a), Value::Int(0)).is_ok());
    assert!(matches!(mem.array_index(a, 0), Some(Value::Int(1))));
    assert!(put(&mut mem, Value::Dict(d), Value::Array(a)).is_ok());
    assert!(matches!(mem.dict_get(d, &Value::Array(a)), Some(Value::Int(1))));
    match put(&mut mem, Value::Array(a), Value::Int(1)) {
        Err(Panic::IndexOutOfBounds { value: Value::Int(1), pos }) => assert_eq!(pos.path, "field"),
        other => panic!("{:?}", other),
    }
    match put(&mut mem, Value::Array(a), Value::Int(-1)) {
        Err(Panic::IndexOutOfBounds { value: Value::Int(-1), pos }) => {
            assert_eq!(pos.path, "field")
        },
        other => panic!("{:?}", other),
    }
    match put(&mut mem, Value::Array(a), Value::Nil) {
        Err(Panic::InvalidOperand { value: Value::Nil, pos }) => assert_eq!(pos.path, "field"),
        other => panic!("{:?}", other),
    }
    match put(&mut mem, Value::Int(3), Value::Int(0)) {
        Err(Panic::InvalidOperand { value: Value::Int(3), pos }) => assert_eq!(pos.path, "object"),
        other => panic!("{:?}", other),
    }
    assert_eq!(mem.array_len(a), 1);
}

#[test]
fn iterator_protocol() {
    assert!(matches!(finished(), Value::String(s) if s == b"finished"));
    assert!(matches!(value(), Value::String(s) if s == b"value"));
    let mut mem = Memory::new(8);
    let d = mem.alloc_dict(Dict::new());
    mem.dict_insert(d, finished(), Value::Bool(false));
    mem.dict_insert(d, value(), Value::Int(4));
    assert!(matches!(iteration(&mem, Value::Dict(d), here()), Ok(Some(Value::Int(4)))));
    mem.dict_insert(d, finished(), Value::Bool(true));
    assert!(matches!(iteration(&mem, Value::Dict(d), here()), Ok(None)));
    let e = mem.alloc_dict(Dict::new());
    mem.dict_insert(e, finished(), Value::Bool(true));
    assert!(matches!(iteration(&mem, Value::Dict(e), here()), Ok(None)));
    mem.dict_insert(e, finished(), Value::Bool(false));
    assert!(matches!(
        iteration(&mem, Value::Dict(e), here()),
        Err(Panic::IndexOutOfBounds { value: Value::String(s), .. }) if s == b"value"
    ));
    mem.dict_insert(e, finished(), Value::Nil);
    assert!(matches!(
        iteration(&mem, Value::Dict(e), here()),
        Err(Panic::InvalidOperand { value: Value::Nil, .. })
    ));
    assert!(matches!(
        iteration(&mem, Value::Int(1), here()),
        Err(Panic::InvalidOperand { value: Value::Int(1), .. })
    ));
}
