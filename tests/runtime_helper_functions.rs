// A file scope shared helper
fn assert_empty<T: IntoIterator, F: Fn() -> T>(f: F) {
    assert!(f().into_iter().count() == 0);
}

fn empty_i32() -> Vec<i32> {
    vec![]
}

fn empty_u64() -> Vec<u64> {
    vec![]
}

fn join(mut a: Vec<u64>, mut b: Vec<u64>) -> Vec<u64> {
    a.append(&mut b);
    a
}

#[test]
fn test_empty() {
    assert_empty(|| empty_i32());
    assert_empty(|| {
        let mut e = empty_i32();
        e.append(&mut empty_i32());
        e
    });
}

#[test]
fn test_empty_with_join() {
    assert_empty(|| empty_u64());
    assert_empty(|| join(empty_u64(), empty_u64()));
}
