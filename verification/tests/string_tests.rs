use nstd::string::{
    nstd_core_str_as_bytes, nstd_core_str_byte_len, nstd_core_str_from_bytes, nstd_string_as_bytes,
    nstd_string_as_str, nstd_string_byte_len, nstd_string_cap, nstd_string_clone, nstd_string_free,
    nstd_string_new, nstd_string_new_with_cap, nstd_string_pop, nstd_string_push,
    nstd_string_push_str,
};

#[test]
fn string_pushes_encode_like_the_host() {
    // The verified encoder must agree with the host's UTF-8 encoder on
    // representatives of all four encoding lengths.
    let samples = ['\u{24}', '\u{A2}', '\u{20AC}', '\u{10348}', '\u{10FFFF}'];
    let mut s = nstd_string_new();
    let mut expected = String::new();
    for c in samples {
        assert_eq!(nstd_string_push(&mut s, c as u32), 0);
        expected.push(c);
        assert_eq!(nstd_string_as_bytes(&s), expected.as_bytes());
    }
}

#[test]
fn string_emoji_push_then_pop_leaves_empty() {
    let mut s = nstd_string_new();
    assert_eq!(nstd_string_push(&mut s, 0x1F600), 0);
    assert_eq!(nstd_string_byte_len(&s), 4);
    assert_eq!(nstd_string_pop(&mut s), 0x1F600);
    assert_eq!(nstd_string_byte_len(&s), 0);
    assert_eq!(nstd_string_as_bytes(&s), &[] as &[u8]);
}

#[test]
fn string_pop_returns_pushes_in_reverse_order() {
    let codes: Vec<u32> = vec![0x48, 0xE9, 0x20AC, 0x1F600, 0x7F, 0x416, 0xFFFD, 0x10FFFF];
    let mut s = nstd_string_new();
    for &c in &codes {
        assert_eq!(nstd_string_push(&mut s, c), 0);
    }
    for &c in codes.iter().rev() {
        assert_eq!(nstd_string_pop(&mut s), c);
    }
    assert_eq!(nstd_string_byte_len(&s), 0);
}

#[test]
fn string_stays_valid_utf8_through_mutations() {
    let mut s = nstd_string_new_with_cap(4);
    assert_eq!(nstd_string_cap(&s), 4);
    assert_eq!(nstd_string_push(&mut s, 0x4F60), 0);
    assert_eq!(nstd_string_push(&mut s, 0x597D), 0);

    let mut t = nstd_string_new();
    assert_eq!(nstd_string_push(&mut t, 0x21), 0);
    let view = nstd_string_as_str(&t);
    assert_eq!(nstd_string_push_str(&mut s, &view), 0);
    nstd_string_pop(&mut s);

    // The committed bytes must decode as valid UTF-8 both by the library's
    // own validator and by the host.
    let bytes = nstd_string_as_bytes(&s);
    assert!(nstd_core_str_from_bytes(bytes).is_some());
    assert_eq!(std::str::from_utf8(bytes).unwrap(), "你好");
}

#[test]
fn string_push_rejects_non_scalar_values() {
    let mut s = nstd_string_new();
    assert_eq!(nstd_string_push(&mut s, 0xD800), 1);
    assert_eq!(nstd_string_push(&mut s, 0xDFFF), 1);
    assert_eq!(nstd_string_push(&mut s, 0x110000), 1);
    assert_eq!(nstd_string_byte_len(&s), 0);
}

#[test]
fn string_pop_from_empty_returns_replacement() {
    let mut s = nstd_string_new();
    assert_eq!(nstd_string_pop(&mut s), 0xFFFD);
    assert_eq!(nstd_string_byte_len(&s), 0);
}

#[test]
fn string_push_str_appends_verbatim() {
    let mut hello = nstd_string_new();
    for c in "Hello, ".chars() {
        assert_eq!(nstd_string_push(&mut hello, c as u32), 0);
    }
    let mut world = nstd_string_new();
    for c in "wörld!".chars() {
        assert_eq!(nstd_string_push(&mut world, c as u32), 0);
    }
    let view = nstd_string_as_str(&world);
    assert_eq!(nstd_string_push_str(&mut hello, &view), 0);
    assert_eq!(nstd_string_as_bytes(&hello), "Hello, wörld!".as_bytes());
}

#[test]
fn string_clone_is_deep() {
    let mut s = nstd_string_new();
    assert_eq!(nstd_string_push(&mut s, 0x61), 0);
    let mut c = nstd_string_clone(&s);
    assert_eq!(nstd_string_as_bytes(&c), nstd_string_as_bytes(&s));
    assert_eq!(nstd_string_push(&mut c, 0x62), 0);
    assert_eq!(nstd_string_as_bytes(&s), b"a");
    assert_eq!(nstd_string_as_bytes(&c), b"ab");
}

#[test]
fn string_free_resets() {
    let mut s = nstd_string_new_with_cap(16);
    assert_eq!(nstd_string_push(&mut s, 0x61), 0);
    nstd_string_free(&mut s);
    assert_eq!(nstd_string_byte_len(&s), 0);
    assert_eq!(nstd_string_cap(&s), 0);
}

#[test]
fn str_from_bytes_validates_utf8() {
    let ok = nstd_core_str_from_bytes("héllo".as_bytes()).unwrap();
    assert_eq!(nstd_core_str_as_bytes(&ok), "héllo".as_bytes());
    assert_eq!(nstd_core_str_byte_len(&ok), 6);

    // A lone continuation byte, a truncated sequence, an overlong encoding,
    // a surrogate, and a code point past the last one are all rejected.
    assert!(nstd_core_str_from_bytes(&[0x80]).is_none());
    assert!(nstd_core_str_from_bytes(&[0xF0, 0x9F, 0x98]).is_none());
    assert!(nstd_core_str_from_bytes(&[0xC0, 0xAF]).is_none());
    assert!(nstd_core_str_from_bytes(&[0xED, 0xA0, 0x80]).is_none());
    assert!(nstd_core_str_from_bytes(&[0xF4, 0x90, 0x80, 0x80]).is_none());
    assert!(nstd_core_str_from_bytes(&[0xFF]).is_none());
}

#[test]
fn str_from_bytes_agrees_with_host_validator() {
    let cases: Vec<Vec<u8>> = vec![
        b"".to_vec(),
        b"ascii".to_vec(),
        "très 🙂".as_bytes().to_vec(),
        vec![0xE2, 0x82],
        vec![0xE2, 0x82, 0xAC],
        vec![0x61, 0xC2],
        vec![0xC2, 0xA0, 0x80],
    ];
    for bytes in cases {
        assert_eq!(
            nstd_core_str_from_bytes(&bytes).is_some(),
            std::str::from_utf8(&bytes).is_ok(),
        );
    }
}
