use lib::util::lazy_static::{initialize, Lazy, LazyStatic};
use std::cell::Cell;

#[test]
fn lazy_builds_once() {
    let calls = Cell::new(0);
    let mut l: Lazy<u32> = Lazy::new();
    let a = *l.get(|| {
        calls.set(calls.get() + 1);
        41 + 1
    });
    assert_eq!(a, 42);
    let b = *l.get(|| {
        calls.set(calls.get() + 1);
        7
    });
    assert_eq!(b, 42);
    assert_eq!(calls.get(), 1);
}

struct Counter {
    built: Cell<bool>,
}

impl LazyStatic for Counter {
    fn initialize(lazy: &Self) {
        lazy.built.set(true);
    }
}

#[test]
fn initialize_calls_the_type_initializer() {
    let c = Counter { built: Cell::new(false) };
    initialize(&c);
    assert!(c.built.get());
}
