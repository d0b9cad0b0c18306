use ggez_assets_manager::storage::{GgezStorage, InitOutcome};
use std::cell::Cell;

#[test]
fn new_storage_has_no_bound_value() {
    let s: GgezStorage<&str, String> = GgezStorage::new("raw", 1);
    assert!(s.get().is_none());
    assert!(s.needs_bind());
}

#[test]
fn concurrent_style_requests_bind_once() {
    let mut s: GgezStorage<u32, u32> = GgezStorage::new(20, 1);
    let calls = Cell::new(0);
    for _ in 0..5 {
        let out = s.get_or_init(|raw: &u32| -> Result<u32, String> {
            calls.set(calls.get() + 1);
            Ok(*raw + 1)
        });
        assert_eq!(*out.into_result().unwrap(), 21);
    }
    assert_eq!(calls.get(), 1);
}

#[test]
fn failed_rebind_serves_previous_value() {
    let mut s: GgezStorage<u32, u32> = GgezStorage::new(1, 1);
    let first = s.get_or_init(|raw: &u32| -> Result<u32, String> { Ok(*raw * 10) });
    assert!(matches!(first, InitOutcome::Bound(&10)));
    s.reload(2, 2);
    let out = s.get_or_init(|_: &u32| -> Result<u32, String> { Err(String::from("broken")) });
    match out {
        InitOutcome::Fallback(v, e) => {
            assert_eq!(*v, 10);
            assert_eq!(e, "broken");
        }
        _ => panic!("expected the previous value"),
    }
    assert_eq!(s.get(), Some(&10));
    assert!(s.needs_bind());
}

#[test]
fn failed_first_bind_is_an_error_and_retried() {
    let mut s: GgezStorage<u32, u32> = GgezStorage::new(1, 1);
    let out = s.get_or_init(|_: &u32| -> Result<u32, String> { Err(String::from("no")) });
    assert!(matches!(out.into_result(), Err(ref e) if e == "no"));
    let out = s.get_or_init(|raw: &u32| -> Result<u32, String> { Ok(*raw + 5) });
    assert!(matches!(out, InitOutcome::Bound(&6)));
}

#[test]
fn reload_rebinds_exactly_once() {
    let mut s: GgezStorage<u32, u32> = GgezStorage::new(1, 1);
    let calls = Cell::new(0);
    let bind = |raw: &u32| -> Result<u32, String> {
        calls.set(calls.get() + 1);
        Ok(*raw * 100)
    };
    assert!(matches!(s.get_or_init(bind), InitOutcome::Bound(&100)));
    s.reload(2, 2);
    assert!(s.needs_bind());
    assert!(matches!(s.get_or_init(bind), InitOutcome::Bound(&200)));
    assert!(matches!(s.get_or_init(bind), InitOutcome::Cached(&200)));
    assert_eq!(calls.get(), 2);
    assert_eq!(s.bound, Some((200, 2)));
}

#[test]
fn fast_path_ignores_reloads() {
    let mut s: GgezStorage<u32, u32> = GgezStorage::new(1, 1);
    assert!(matches!(
        s.get_or_init_fast(|raw: &u32| -> Result<u32, String> { Ok(*raw + 1) }),
        InitOutcome::Bound(&2)
    ));
    for gen in 2..6u64 {
        s.reload(gen as u32 * 7, gen);
        let out = s.get_or_init_fast(|_: &u32| -> Result<u32, String> { panic!("no rebinding") });
        assert!(matches!(out, InitOutcome::Cached(&2)));
    }
}

#[test]
fn outcome_into_result() {
    let v = 3u8;
    assert_eq!(InitOutcome::<u8, String>::Cached(&v).into_result(), Ok(&3));
    assert_eq!(
        InitOutcome::<u8, String>::Fallback(&v, String::from("e")).into_result(),
        Ok(&3)
    );
    assert_eq!(
        InitOutcome::<u8, String>::Failed(String::from("e")).into_result(),
        Err(String::from("e"))
    );
}

#[test]
fn observed_reload_makes_next_access_rebind() {
    let mut s: GgezStorage<u32, u32> = GgezStorage::new(1, 1);
    assert!(matches!(
        s.get_or_init(|raw: &u32| -> Result<u32, String> { Ok(*raw) }),
        InitOutcome::Bound(&1)
    ));
    s.observe_reload(false, 9);
    assert_eq!(s.raw, 1);
    assert!(!s.needs_bind());
    s.observe_reload(true, 9);
    assert_eq!(s.raw, 9);
    assert_ne!(s.generation, 1);
    assert!(s.needs_bind());
    assert!(matches!(
        s.get_or_init(|raw: &u32| -> Result<u32, String> { Ok(*raw) }),
        InitOutcome::Bound(&9)
    ));
}

#[test]
fn observed_reload_wraps_generation() {
    let mut s: GgezStorage<u32, u32> = GgezStorage::new(1, u64::MAX);
    s.observe_reload(true, 2);
    assert_eq!(s.generation, 0);
    assert!(s.needs_bind());
}
