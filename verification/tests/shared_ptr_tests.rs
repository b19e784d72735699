use nstd::shared_ptr::{
    nstd_shared_heap_is_live, nstd_shared_heap_new, nstd_shared_ptr_address, nstd_shared_ptr_count,
    nstd_shared_ptr_free, nstd_shared_ptr_get_const, nstd_shared_ptr_new_zeroed,
    nstd_shared_ptr_share, nstd_shared_ptr_size, NSTD_SHARED_PTR_COUNTER_SIZE,
};

#[test]
fn shared_ptr_new_zeroed_starts_at_count_one() {
    let mut heap = nstd_shared_heap_new();
    let ptr = nstd_shared_ptr_new_zeroed(&mut heap, 16);
    assert_eq!(nstd_shared_ptr_count(&heap, &ptr), 1);
    assert_eq!(nstd_shared_ptr_size(&ptr), 16);
    assert_eq!(nstd_shared_ptr_get_const(&heap, &ptr), &[0u8; 16]);
    nstd_shared_ptr_free(&mut heap, ptr);
}

#[test]
fn shared_ptr_released_exactly_on_last_free() {
    // count = 1 on creation; two shares bring it to 3; the allocation is
    // released exactly on the third free.
    let mut heap = nstd_shared_heap_new();
    let ptr = nstd_shared_ptr_new_zeroed(&mut heap, 16);
    assert_eq!(nstd_shared_ptr_count(&heap, &ptr), 1);
    let addr = nstd_shared_ptr_address(&ptr);

    let share1 = nstd_shared_ptr_share(&mut heap, &ptr);
    let share2 = nstd_shared_ptr_share(&mut heap, &ptr);
    assert_eq!(nstd_shared_ptr_count(&heap, &ptr), 3);
    assert_eq!(nstd_shared_ptr_address(&share1), addr);
    assert_eq!(nstd_shared_ptr_address(&share2), addr);

    nstd_shared_ptr_free(&mut heap, share2);
    assert!(nstd_shared_heap_is_live(&heap, addr));
    assert_eq!(nstd_shared_ptr_count(&heap, &ptr), 2);

    nstd_shared_ptr_free(&mut heap, share1);
    assert!(nstd_shared_heap_is_live(&heap, addr));
    assert_eq!(nstd_shared_ptr_count(&heap, &ptr), 1);

    nstd_shared_ptr_free(&mut heap, ptr);
    assert!(!nstd_shared_heap_is_live(&heap, addr));
}

#[test]
fn shared_ptr_share_preserves_payload_and_never_allocates() {
    let mut heap = nstd_shared_heap_new();
    let a = nstd_shared_ptr_new_zeroed(&mut heap, 4);
    let b = nstd_shared_ptr_new_zeroed(&mut heap, 8);
    assert_ne!(nstd_shared_ptr_address(&a), nstd_shared_ptr_address(&b));

    let c = nstd_shared_ptr_share(&mut heap, &a);
    assert_eq!(nstd_shared_ptr_get_const(&heap, &c), &[0u8; 4]);
    assert_eq!(nstd_shared_ptr_size(&c), 4);
    // The other allocation is untouched.
    assert_eq!(nstd_shared_ptr_count(&heap, &b), 1);
    assert_eq!(nstd_shared_ptr_get_const(&heap, &b), &[0u8; 8]);

    nstd_shared_ptr_free(&mut heap, c);
    nstd_shared_ptr_free(&mut heap, a);
    nstd_shared_ptr_free(&mut heap, b);
}

#[test]
fn shared_ptr_size_excludes_counter() {
    let mut heap = nstd_shared_heap_new();
    let ptr = nstd_shared_ptr_new_zeroed(&mut heap, 32);
    assert_eq!(nstd_shared_ptr_size(&ptr), 32);
    assert_eq!(NSTD_SHARED_PTR_COUNTER_SIZE, 8);
    nstd_shared_ptr_free(&mut heap, ptr);
}

#[test]
fn shared_ptr_zero_sized_payload_is_shareable() {
    let mut heap = nstd_shared_heap_new();
    let ptr = nstd_shared_ptr_new_zeroed(&mut heap, 0);
    assert_eq!(nstd_shared_ptr_size(&ptr), 0);
    assert_eq!(nstd_shared_ptr_get_const(&heap, &ptr), &[] as &[u8]);
    let other = nstd_shared_ptr_share(&mut heap, &ptr);
    assert_eq!(nstd_shared_ptr_count(&heap, &ptr), 2);
    let addr = nstd_shared_ptr_address(&ptr);
    nstd_shared_ptr_free(&mut heap, ptr);
    nstd_shared_ptr_free(&mut heap, other);
    assert!(!nstd_shared_heap_is_live(&heap, addr));
}
