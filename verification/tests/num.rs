use chunked_wal::num::format_pad9_u64;
use chunked_wal::num::format_pad_u64;
use chunked_wal::num::format_u64;

#[test]
fn test_format_pad_u64() {
    assert_eq!("00_000_000_000_000_000_000", format_pad_u64(0));
    assert_eq!("00_000_000_000_001_200_000", format_pad_u64(1_200_000));
    assert_eq!("18_446_744_073_709_551_615", format_pad_u64(u64::MAX));
}

#[test]
fn test_format_pad9_u64() {
    assert_eq!("000_000_000", format_pad9_u64(0));
    assert_eq!("000_000_012", format_pad9_u64(12));
    assert_eq!("999_999_999", format_pad9_u64(999_999_999));
    assert_eq!("1_000_000_000", format_pad9_u64(1_000_000_000));
    assert_eq!("18_446_744_073_709_551_615", format_pad9_u64(u64::MAX));
}

#[test]
fn test_format_u64_is_plain_decimal() {
    for n in [0, 1, 9, 10, 99, 100, 1_073_741_825, u64::MAX] {
        assert_eq!(n.to_string(), format_u64(n));
    }
}
