//! Scenario tests driving whole invocations against a program instance.

use hello_actor::{encode, Address, AbortCode, Outcome, Runtime, State, Store};

#[test]
fn init_returns_no_data() {
    let mut rt = Runtime::new();
    assert!(matches!(rt.invoke(1), Outcome::NoData));
}

#[test]
fn init_then_load_gives_zero() {
    let mut rt = Runtime::new();
    rt.invoke(1);
    assert_eq!(rt.load(), Ok(State { count: 0 }));
}

#[test]
fn three_business_calls() {
    let mut rt = Runtime::new();
    rt.invoke(1);
    for expected in 1u64..=2 {
        match rt.invoke(2) {
            Outcome::Payload(p) => {
                let text = format!("Hello world #{}!", expected);
                assert_eq!(p, fvm_ipld_encoding::to_vec(text.as_str()).unwrap());
            }
            other => panic!("expected a payload, got {:?}", other),
        }
    }
    match rt.invoke(2) {
        Outcome::Payload(p) => {
            assert_eq!(p, fvm_ipld_encoding::to_vec("Hello world #3!").unwrap());
        }
        other => panic!("expected a payload, got {:?}", other),
    }
    assert_eq!(rt.load(), Ok(State { count: 3 }));
}

#[test]
fn unknown_method_leaves_instance_untouched() {
    let mut rt = Runtime::new();
    rt.invoke(1);
    let root_before = rt.root;
    let blocks_before = rt.store.blocks.clone();
    match rt.invoke(7) {
        Outcome::Halt(c) => assert_eq!(c, AbortCode::UnhandledMethod),
        other => panic!("expected a halt, got {:?}", other),
    }
    assert_eq!(rt.root, root_before);
    assert_eq!(rt.store.blocks, blocks_before);
}

#[test]
fn unknown_method_before_init() {
    let mut rt = Runtime::new();
    match rt.invoke(0) {
        Outcome::Halt(c) => assert_eq!(c, AbortCode::UnhandledMethod),
        other => panic!("expected a halt, got {:?}", other),
    }
    assert!(rt.root.is_none());
    assert!(rt.store.blocks.is_empty());
}

#[test]
fn business_before_init_halts() {
    let mut rt = Runtime::new();
    match rt.invoke(2) {
        Outcome::Halt(c) => assert_eq!(c, AbortCode::PreconditionViolated),
        other => panic!("expected a halt, got {:?}", other),
    }
    assert!(rt.store.blocks.is_empty());
    assert_eq!(rt.load(), Err(AbortCode::PreconditionViolated));
}

#[test]
fn absent_root_block_is_corrupt() {
    let mut rt = Runtime::new();
    rt.invoke(1);
    rt.root = Some(Address { index: 42 });
    assert_eq!(rt.load(), Err(AbortCode::CorruptRoot));
    match rt.invoke(2) {
        Outcome::Halt(c) => assert_eq!(c, AbortCode::CorruptRoot),
        other => panic!("expected a halt, got {:?}", other),
    }
}

#[test]
fn undecodable_root_block_is_malformed() {
    let mut rt = Runtime {
        store: Store {
            blocks: vec![vec![0xff, 0x00]],
        },
        root: Some(Address { index: 0 }),
    };
    assert_eq!(rt.load(), Err(AbortCode::MalformedRecord));
    match rt.invoke(2) {
        Outcome::Halt(c) => assert_eq!(c, AbortCode::MalformedRecord),
        other => panic!("expected a halt, got {:?}", other),
    }
}

#[test]
fn saturated_counter_halts() {
    let mut rt = Runtime::new();
    let a = rt.store.put(encode(&State { count: u64::MAX }));
    rt.root = Some(a);
    match rt.invoke(2) {
        Outcome::Halt(c) => assert_eq!(c, AbortCode::MalformedRecord),
        other => panic!("expected a halt, got {:?}", other),
    }
    assert_eq!(rt.load(), Ok(State { count: u64::MAX }));
}

#[test]
fn put_is_content_addressed() {
    let mut store = Store { blocks: Vec::new() };
    let a1 = store.put(vec![1, 2, 3]);
    let a2 = store.put(vec![9, 9]);
    let a3 = store.put(vec![1, 2, 3]);
    assert_eq!(a1, a3);
    assert_ne!(a1, a2);
    assert_eq!(store.get(&a1), Some(vec![1, 2, 3]));
    assert_eq!(store.get(&a2), Some(vec![9, 9]));
    assert_eq!(store.get(&Address { index: 5 }), None);
}

#[test]
fn reinit_resets_counter() {
    // Re-initialization is not blocked at this layer: it persists a fresh
    // default record and repoints the root, discarding the old record's
    // reachability.
    let mut rt = Runtime::new();
    rt.invoke(1);
    rt.invoke(2);
    rt.invoke(2);
    assert_eq!(rt.load(), Ok(State { count: 2 }));
    rt.invoke(1);
    assert_eq!(rt.load(), Ok(State { count: 0 }));
}

#[test]
fn old_records_remain_retrievable() {
    // Superseded records stay in the store under their addresses; only the
    // root moves.
    let mut rt = Runtime::new();
    rt.invoke(1);
    let first_root = rt.root.unwrap();
    rt.invoke(2);
    assert_ne!(rt.root.unwrap(), first_root);
    assert_eq!(rt.store.get(&first_root), Some(encode(&State { count: 0 })));
}
