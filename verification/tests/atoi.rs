use tcio::atoi::{atoi, atou};

const U64_MAX_BUF: &[u8; 20] = b"18446744073709551615";
const U64_MAX_CH: usize = U64_MAX_BUF.len();
const I64_MAX_BUF: &[u8; 19] = b"9223372036854775807";
const I64_MIN_BUF: &[u8] = b"-9223372036854775808";

#[test]
fn atoi_test_atoi() {
    // atou

    assert_eq!(Some(0), atou(b"0"));
    assert_eq!(Some(1), atou(b"1"));
    assert_eq!(Some(255), atou(b"255"));
    assert_eq!(Some(1024), atou(b"1024"));
    assert_eq!(Some(9999999999999999999), atou(b"9999999999999999999"));

    assert!(atou(&[]).is_none());
    assert!(atou(&[0; 5]).is_none());
    assert!(atou(&[255; 5]).is_none());
    assert!(atou(b"-1").is_none());
    assert!(atou(b"foo").is_none());
    assert!(atou(b"184467440737095516155").is_none());

    // atou_max

    assert_eq!(Some(u64::MAX), atou(U64_MAX_BUF));
    assert_eq!(Some(15), atou(b"00000000000000000015"));

    assert!(atou(&[0; U64_MAX_CH]).is_none());
    assert!(atou(&[255; U64_MAX_CH]).is_none());
    assert!(atou(b"00000000000000000006").is_none());
    assert!(atou(b"18446744073709551616").is_none());
    assert!(atou(b"28446744073709551615").is_none());
    assert!(atou(b"19446744073709551615").is_none());
    assert!(atou(b"18546744073709551615").is_none());
    assert!(atou(b"99999999999999999999").is_none());

    // atoi

    assert_eq!(Some(0), atoi(b"0"));
    assert_eq!(Some(0), atoi(b"+0"));
    assert_eq!(Some(0), atoi(b"-0"));
    assert_eq!(Some(1), atoi(b"1"));
    assert_eq!(Some(1), atoi(b"+1"));
    assert_eq!(Some(-1), atoi(b"-1"));
    assert_eq!(Some(255), atoi(b"255"));
    assert_eq!(Some(255), atoi(b"+255"));
    assert_eq!(Some(-255), atoi(b"-255"));
    assert_eq!(Some(1024), atoi(b"1024"));
    assert_eq!(Some(1024), atoi(b"+1024"));
    assert_eq!(Some(-1024), atoi(b"-1024"));
    assert_eq!(Some(999999999999999999), atoi(b"999999999999999999"));
    assert_eq!(Some(999999999999999999), atoi(b"+999999999999999999"));
    assert_eq!(Some(-999999999999999999), atoi(b"-999999999999999999"));

    assert!(atoi(&[]).is_none());
    assert!(atoi(&[0; 5]).is_none());
    assert!(atoi(&[255; 5]).is_none());
    assert!(atoi(b"foo").is_none());
    assert!(atoi(b"-").is_none());
    assert!(atoi(b"+").is_none());
    assert!(atoi(b"92233720368547758077").is_none());

    // atoi_max

    assert_eq!(Some(i64::MAX), atoi(I64_MAX_BUF));
    assert_eq!(Some(i64::MIN), atoi(I64_MIN_BUF));
    assert_eq!(Some(-9223372036854775807), atoi(b"-9223372036854775807"));
    assert_eq!(Some(-15), atoi(b"-000000000000000015"));

    assert!(atoi(&[0; 20]).is_none());
    assert!(atoi(&[255; 20]).is_none());
    assert!(atoi(b"0000000000000000008").is_none());
    assert!(atoi(b"9223372036854775808").is_none());
    assert!(atoi(b"9323372036854775807").is_none());
    assert!(atoi(b"9233372036854775807").is_none());
    assert!(atoi(b"9224372036854775807").is_none());
    assert!(atoi(b"9223472036854775807").is_none());
    assert!(atoi(b"9223382036854775807").is_none());
}
