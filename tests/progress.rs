use lecturecut::progress::{Advance, BarUpdate, ProgressRegistry, BASIS};

#[test]
fn position_is_ten_times_sum_of_advances() {
    let mut reg = ProgressRegistry::new();
    reg.record("detect", Advance::Units(50));
    reg.record("encode", Advance::Units(100));
    reg.record("detect", Advance::Units(125));
    reg.record("detect", Advance::Units(5));
    assert_eq!(reg.position_of("detect"), Some(180));
    assert_eq!(reg.position_of("encode"), Some(100));
    assert_eq!(reg.len(), 2);
}

#[test]
fn position_is_limited_to_basis() {
    let mut reg = ProgressRegistry::new();
    reg.record("encode", Advance::Units(700));
    let u = reg.record("encode", Advance::Units(700));
    assert_eq!(u, BarUpdate { index: 0, position: BASIS, created: false });
    assert_eq!(reg.position_of("encode"), Some(1000));
}

#[test]
fn sentinel_completes_known_stage() {
    let mut reg = ProgressRegistry::new();
    reg.record("encode", Advance::Units(3));
    let u = reg.record("encode", Advance::Finished);
    assert_eq!(u, BarUpdate { index: 0, position: 1000, created: false });
    assert_eq!(reg.position_of("encode"), Some(1000));
}

#[test]
fn first_event_creates_bar() {
    let mut reg = ProgressRegistry::new();
    let a = reg.record("prepare", Advance::Units(20));
    let b = reg.record("detect", Advance::Finished);
    assert_eq!(a, BarUpdate { index: 0, position: 20, created: true });
    assert_eq!(b, BarUpdate { index: 1, position: 0, created: true });
    assert_eq!(reg.position_of("missing"), None);
}

#[test]
fn finish_file_empties_registry() {
    let mut reg = ProgressRegistry::new();
    let first: Vec<BarUpdate> = vec![
        reg.record("detect", Advance::Units(10)),
        reg.record("encode", Advance::Units(40)),
    ];
    assert_eq!(reg.finish_file(), 2);
    assert_eq!(reg.len(), 0);
    let second: Vec<BarUpdate> = vec![
        reg.record("detect", Advance::Units(10)),
        reg.record("encode", Advance::Units(40)),
    ];
    assert_eq!(first, second);
    assert_eq!(reg.finish_file(), 2);
    assert_eq!(reg.finish_file(), 0);
}
