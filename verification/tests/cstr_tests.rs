use nstd::cstr::{
    nstd_core_cstr_raw_compare, nstd_core_cstr_raw_copy, nstd_core_cstr_raw_copy_with_null,
    nstd_core_cstr_raw_from_str, nstd_core_cstr_raw_len, nstd_core_cstr_raw_len_with_null,
    nstd_core_str_from_cstr,
};
use nstd::string::{nstd_core_str_as_bytes, nstd_core_str_from_bytes};

#[test]
fn cstr_raw_len_excludes_null() {
    let cstr = b"Hello, world!\0";
    assert_eq!(nstd_core_cstr_raw_len(cstr), 13);
    let early = b"ab\0cd\0";
    assert_eq!(nstd_core_cstr_raw_len(early), 2);
    let empty = b"\0";
    assert_eq!(nstd_core_cstr_raw_len(empty), 0);
}

#[test]
fn cstr_raw_len_with_null_includes_it() {
    let cstr = b"Hello, world!\0";
    assert_eq!(nstd_core_cstr_raw_len_with_null(cstr), 14);
}

#[test]
fn cstr_raw_compare_is_lexicographic_up_to_null() {
    let cstr1: &[u8] = b"Hello, world!\0";
    let cstr2: &[u8] = b"Hello world!\0";
    assert!(!nstd_core_cstr_raw_compare(cstr1, cstr2));
    assert!(nstd_core_cstr_raw_compare(cstr1, cstr1));
    // Bytes past the null byte do not take part in the comparison.
    let cstr3: &[u8] = b"Hello, world!\0xyz";
    assert!(nstd_core_cstr_raw_compare(cstr1, cstr3));
    let longer: &[u8] = b"Hello, world!!\0";
    assert!(!nstd_core_cstr_raw_compare(cstr1, longer));
}

#[test]
fn cstr_raw_copy_excludes_null() {
    let cstr = b"Hello, world!\0";
    let mut buffer = vec![0u8; 14];
    nstd_core_cstr_raw_copy(&mut buffer, cstr);
    assert_eq!(buffer.as_slice(), cstr);
}

#[test]
fn cstr_raw_copy_with_null_includes_it() {
    let cstr = b"Hello, world!\0";
    let mut buffer = vec![u8::MAX; 14];
    nstd_core_cstr_raw_copy_with_null(&mut buffer, cstr);
    assert_eq!(buffer.as_slice(), cstr);
}

#[test]
fn cstr_raw_copy_leaves_tail_bytes_alone() {
    let cstr = b"hi\0";
    let mut buffer = vec![7u8; 5];
    nstd_core_cstr_raw_copy(&mut buffer, cstr);
    assert_eq!(buffer.as_slice(), &[b'h', b'i', 7, 7, 7]);
    let mut buffer2 = vec![7u8; 5];
    nstd_core_cstr_raw_copy_with_null(&mut buffer2, cstr);
    assert_eq!(buffer2.as_slice(), &[b'h', b'i', 0, 7, 7]);
}

#[test]
fn str_from_cstr_takes_bytes_before_null() {
    let cstr = "héllo\0ignored".as_bytes();
    let s = nstd_core_str_from_cstr(cstr);
    assert_eq!(nstd_core_str_as_bytes(&s), "héllo".as_bytes());
}

#[test]
fn cstr_from_str_appends_null() {
    let s = nstd_core_str_from_bytes(b"abc").unwrap();
    let c = nstd_core_cstr_raw_from_str(&s).unwrap();
    assert_eq!(c.as_slice(), b"abc\0");
}

#[test]
fn cstr_from_str_rejects_embedded_null() {
    // A zero byte is a valid UTF-8 code point, but it cannot survive a
    // conversion into a null-terminated form and must be rejected, never
    // truncated.
    let s = nstd_core_str_from_bytes(b"ab\0cd").unwrap();
    assert!(nstd_core_cstr_raw_from_str(&s).is_none());
}
