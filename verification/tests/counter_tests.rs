use threadkit::counter::{LockContaminated, SharedCounter, SharedHandle};

#[test]
fn new_counter_reads_initial_value() {
    let (c, h) = SharedHandle::new(41);
    assert_eq!(c.read(&h), Ok(41));
}

#[test]
fn with_lock_applies_the_update_and_returns_it() {
    let (mut c, h) = SharedHandle::new(10);
    assert_eq!(c.with_lock(&h, |v| v + 5), Ok(15));
    assert_eq!(c.read(&h), Ok(15));
}

#[test]
fn repeated_increments_accumulate() {
    let (mut c, h) = SharedHandle::new(0);
    for _ in 0..10 {
        assert_eq!(c.with_lock(&h, |v| v + 1).is_ok(), true);
    }
    assert_eq!(c.read(&h), Ok(10));
}

#[test]
fn abandoned_lock_contaminates_until_cleared() {
    let (mut c, h) = SharedHandle::new(7);
    assert_eq!(c.acquire(&h), Ok(()));
    c.abandon();
    assert_eq!(c.acquire(&h), Err(LockContaminated));
    assert_eq!(c.with_lock(&h, |v| v + 1), Err(LockContaminated));
    assert_eq!(c.read(&h), Err(LockContaminated));
    assert_eq!(c.clear(&h), 7);
    assert_eq!(c.read(&h), Ok(7));
    assert_eq!(c.with_lock(&h, |v| v + 1), Ok(8));
}

#[test]
fn release_frees_the_lock_normally() {
    let (mut c, h) = SharedHandle::new(3);
    assert_eq!(c.acquire(&h), Ok(()));
    assert_eq!(c.read_locked(), 3);
    c.write_locked(4);
    c.release();
    assert_eq!(c.read(&h), Ok(4));
}

#[test]
fn handles_count_up_and_down() {
    let (mut c, h0) = SharedHandle::new(0);
    let h1 = c.clone_handle(&h0);
    let h2 = c.clone_handle(&h1);
    c.drop_handle(h1);
    c.drop_handle(h2);
    assert_eq!(c.read(&h0), Ok(0));
    c.drop_handle(h0);
}

fn read_anywhere(c: &SharedCounter, h: &SharedHandle) -> Result<u64, LockContaminated> {
    c.read(h)
}

#[test]
fn counter_usable_through_shared_references() {
    let (c, h) = SharedHandle::new(99);
    assert_eq!(read_anywhere(&c, &h), Ok(99));
}
