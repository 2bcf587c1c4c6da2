//! Behavioral tests of the memoizing evaluator: at-most-once invocation,
//! value stability, key independence, laziness, and failures not being
//! memoized.

use std::cell::Cell;

use memocache::cacher::Cacher;

#[test]
fn identity_computation_runs_once() {
    let calls: Cell<u32> = Cell::new(0);
    let mut c = Cacher::new(|x: &u32| -> Result<u32, String> {
        calls.set(calls.get() + 1);
        Ok(*x)
    });
    assert_eq!(c.value(10), Ok(10));
    assert_eq!(c.value(10), Ok(10));
    assert_eq!(calls.get(), 1);
}

#[test]
fn distinct_keys_each_invoke_once() {
    let calls: Cell<u32> = Cell::new(0);
    let mut c = Cacher::new(|x: &u32| -> Result<u32, String> {
        calls.set(calls.get() + 1);
        Ok(*x * 2)
    });
    assert_eq!(c.value(3), Ok(6));
    assert_eq!(c.value(4), Ok(8));
    assert_eq!(calls.get(), 2);
}

#[test]
fn failure_is_retried_not_memoized() {
    let calls: Cell<u32> = Cell::new(0);
    let mut c = Cacher::new(|x: &u32| -> Result<u32, String> {
        calls.set(calls.get() + 1);
        if *x == 0 {
            Err(String::from("zero is not allowed"))
        } else {
            Ok(*x)
        }
    });
    assert_eq!(c.value(0), Err(String::from("zero is not allowed")));
    assert_eq!(calls.get(), 1);
    // the failed attempt was not cached, so the computation runs again
    assert_eq!(c.value(0), Err(String::from("zero is not allowed")));
    assert_eq!(calls.get(), 2);
    // other keys still succeed and are cached
    assert_eq!(c.value(7), Ok(7));
    assert_eq!(c.value(7), Ok(7));
    assert_eq!(calls.get(), 3);
}

#[test]
fn string_keys_cache_their_length() {
    let calls: Cell<u32> = Cell::new(0);
    let mut c = Cacher::new(|s: &String| -> Result<usize, String> {
        calls.set(calls.get() + 1);
        Ok(s.len())
    });
    assert_eq!(c.value(String::from("abc")), Ok(3));
    assert_eq!(c.value(String::from("abc")), Ok(3));
    assert_eq!(calls.get(), 1);
    assert_eq!(c.value(String::from("abcdef")), Ok(6));
    assert_eq!(calls.get(), 2);
}

#[test]
fn construction_invokes_nothing() {
    let calls: Cell<u32> = Cell::new(0);
    let c = Cacher::new(|x: &u32| -> Result<u32, String> {
        calls.set(calls.get() + 1);
        Ok(*x)
    });
    assert_eq!(calls.get(), 0);
    drop(c);
    assert_eq!(calls.get(), 0);
}

#[test]
fn querying_one_key_leaves_others_alone() {
    let calls: Cell<u32> = Cell::new(0);
    let mut c = Cacher::new(|x: &u32| -> Result<u32, String> {
        calls.set(calls.get() + 1);
        Ok(*x + 100)
    });
    assert_eq!(c.value(1), Ok(101));
    assert_eq!(c.value(2), Ok(102));
    assert_eq!(calls.get(), 2);
    // a repeat of the first key invokes nothing further for either key
    assert_eq!(c.value(1), Ok(101));
    assert_eq!(calls.get(), 2);
}
