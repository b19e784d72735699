use nstd::vec::{
    nstd_vec_as_slice, nstd_vec_byte_at, nstd_vec_cap, nstd_vec_clone, nstd_vec_extend,
    nstd_vec_free, nstd_vec_len, nstd_vec_new, nstd_vec_new_with_cap, nstd_vec_push,
    nstd_vec_set_byte, nstd_vec_stride, nstd_vec_truncate,
};

#[test]
fn vec_new_is_empty_and_unallocated() {
    let v = nstd_vec_new(8);
    assert_eq!(nstd_vec_stride(&v), 8);
    assert_eq!(nstd_vec_len(&v), 0);
    assert_eq!(nstd_vec_cap(&v), 0);
    assert_eq!(nstd_vec_as_slice(&v), &[] as &[u8]);
}

#[test]
fn vec_with_capacity_grows_on_third_push() {
    let mut v = nstd_vec_new_with_cap(4, 2).unwrap();
    assert_eq!(nstd_vec_len(&v), 0);
    assert_eq!(nstd_vec_cap(&v), 2);

    assert_eq!(nstd_vec_push(&mut v, &[1, 2, 3, 4]), 0);
    assert_eq!(nstd_vec_len(&v), 1);
    assert_eq!(nstd_vec_cap(&v), 2);

    assert_eq!(nstd_vec_push(&mut v, &[5, 6, 7, 8]), 0);
    assert_eq!(nstd_vec_len(&v), 2);
    assert_eq!(nstd_vec_cap(&v), 2);

    assert_eq!(nstd_vec_push(&mut v, &[9, 10, 11, 12]), 0);
    assert_eq!(nstd_vec_len(&v), 3);
    assert!(nstd_vec_cap(&v) >= 3);
    assert_eq!(
        nstd_vec_as_slice(&v),
        &[1, 2, 3, 4, 5, 6, 7, 8, 9, 10, 11, 12]
    );
}

#[test]
fn vec_extend_appends_whole_elements_only() {
    let mut v = nstd_vec_new(2);
    assert_eq!(nstd_vec_extend(&mut v, &[1, 2, 3, 4]), 0);
    assert_eq!(nstd_vec_len(&v), 2);

    // Not a whole number of 2-byte elements: rejected, nothing committed.
    assert_eq!(nstd_vec_extend(&mut v, &[9, 9, 9]), 1);
    assert_eq!(nstd_vec_len(&v), 2);
    assert_eq!(nstd_vec_as_slice(&v), &[1, 2, 3, 4]);
}

#[test]
fn vec_committed_bytes_survive_pushes() {
    let stride = 3usize;
    let mut v = nstd_vec_new(stride);
    let mut pushed: Vec<u8> = Vec::new();
    for k in 0..10u8 {
        let element = [k, k + 100, k + 200];
        assert_eq!(nstd_vec_push(&mut v, &element), 0);
        pushed.extend_from_slice(&element);
        // length * stride bytes equal the sum of bytes pushed, and every
        // previously committed byte is unchanged.
        assert_eq!(nstd_vec_len(&v) * stride, pushed.len());
        assert_eq!(nstd_vec_as_slice(&v), pushed.as_slice());
    }
}

#[test]
fn vec_push_rejects_wrong_element_size() {
    let mut v = nstd_vec_new(4);
    assert_eq!(nstd_vec_push(&mut v, &[1, 2, 3]), 1);
    assert_eq!(nstd_vec_len(&v), 0);
    assert_eq!(nstd_vec_cap(&v), 0);
}

#[test]
fn vec_clone_is_deep_and_exact_fit() {
    let mut v = nstd_vec_new_with_cap(1, 8).unwrap();
    assert_eq!(nstd_vec_extend(&mut v, &[10, 20, 30]), 0);

    let mut c = nstd_vec_clone(&v);
    assert_eq!(nstd_vec_as_slice(&c), nstd_vec_as_slice(&v));
    assert_eq!(nstd_vec_len(&c), 3);
    assert_eq!(nstd_vec_cap(&c), 3);

    // Mutating the clone never affects the source.
    assert_eq!(nstd_vec_push(&mut c, &[99]), 0);
    nstd_vec_set_byte(&mut c, 0, 77);
    nstd_vec_truncate(&mut c, 1);
    assert_eq!(nstd_vec_as_slice(&v), &[10, 20, 30]);
    assert_eq!(nstd_vec_cap(&v), 8);
}

#[test]
fn vec_set_byte_overwrites_in_place() {
    let mut v = nstd_vec_new(2);
    assert_eq!(nstd_vec_extend(&mut v, &[1, 2, 3, 4]), 0);
    nstd_vec_set_byte(&mut v, 2, 9);
    assert_eq!(nstd_vec_as_slice(&v), &[1, 2, 9, 4]);
    assert_eq!(nstd_vec_len(&v), 2);
    assert_eq!(nstd_vec_byte_at(&v, 2), 9);
}

#[test]
fn vec_truncate_only_shrinks_length() {
    let mut v = nstd_vec_new_with_cap(2, 4).unwrap();
    assert_eq!(nstd_vec_extend(&mut v, &[1, 2, 3, 4, 5, 6]), 0);
    nstd_vec_truncate(&mut v, 1);
    assert_eq!(nstd_vec_len(&v), 1);
    assert_eq!(nstd_vec_cap(&v), 4);
    assert_eq!(nstd_vec_as_slice(&v), &[1, 2]);
    assert_eq!(nstd_vec_byte_at(&v, 1), 2);
}

#[test]
fn vec_free_resets_descriptor() {
    let mut v = nstd_vec_new_with_cap(4, 4).unwrap();
    assert_eq!(nstd_vec_push(&mut v, &[1, 2, 3, 4]), 0);
    nstd_vec_free(&mut v);
    assert_eq!(nstd_vec_len(&v), 0);
    assert_eq!(nstd_vec_cap(&v), 0);
    assert_eq!(nstd_vec_stride(&v), 4);
}

#[test]
fn vec_zero_stride_marker_never_commits() {
    let mut v = nstd_vec_new(0);
    assert_eq!(nstd_vec_extend(&mut v, &[]), 0);
    assert_eq!(nstd_vec_len(&v), 0);
    assert_eq!(nstd_vec_cap(&v), 0);
    assert_eq!(nstd_vec_extend(&mut v, &[1]), 1);
    assert_eq!(nstd_vec_len(&v), 0);
}

#[test]
fn vec_with_capacity_rejects_unaddressable_size() {
    assert!(nstd_vec_new_with_cap(usize::MAX, 2).is_none());
    assert!(nstd_vec_new_with_cap(2, usize::MAX).is_none());
    assert!(nstd_vec_new_with_cap(1, 64).is_some());
}
