use rtkill::format::bytes_len_to_string_prefix;
use rtkill::format::u64_to_string;

#[test]
fn test_format_size() {
    assert_eq!(bytes_len_to_string_prefix(2_u64.pow(0)), "1B");
    assert_eq!(bytes_len_to_string_prefix(2_u64.pow(10)), "1.0 KiB");
    assert_eq!(bytes_len_to_string_prefix(2_u64.pow(20)), "1.0 MiB");
    assert_eq!(bytes_len_to_string_prefix(2_u64.pow(30)), "1.0 GiB");
}

#[test]
fn test_format_size_edges() {
    assert_eq!(bytes_len_to_string_prefix(0), "0B");
    assert_eq!(bytes_len_to_string_prefix(1023), "1023B");
    assert_eq!(bytes_len_to_string_prefix(1536), "1.5 KiB");
    // exact halves round to the even tenth
    assert_eq!(bytes_len_to_string_prefix(1280), "1.2 KiB");
    assert_eq!(bytes_len_to_string_prefix(1792), "1.8 KiB");
    assert_eq!(bytes_len_to_string_prefix(2304), "2.2 KiB");
    assert_eq!(bytes_len_to_string_prefix(2_560), "2.5 KiB");
    assert_eq!(bytes_len_to_string_prefix(1_048_575), "1024.0 KiB");
    assert_eq!(bytes_len_to_string_prefix(1_572_864), "1.5 MiB");
    assert_eq!(bytes_len_to_string_prefix(2_u64.pow(40)), "1.0 TiB");
    assert_eq!(bytes_len_to_string_prefix(2_u64.pow(50)), "1.0 PiB");
    assert_eq!(bytes_len_to_string_prefix(2_u64.pow(60)), "1.0 EiB");
    assert_eq!(bytes_len_to_string_prefix(u64::MAX), "16.0 EiB");
}

#[test]
fn test_u64_to_string() {
    assert_eq!(u64_to_string(0), "0");
    assert_eq!(u64_to_string(7), "7");
    assert_eq!(u64_to_string(42), "42");
    assert_eq!(u64_to_string(90_500), "90500");
    assert_eq!(u64_to_string(u64::MAX), "18446744073709551615");
}
