use vwatch::chars::chars_of;
use vwatch::numbers::{decimal_text, integer_text, read_i32, read_i64, read_unsigned};

const SAMPLES: [&str; 34] = [
    "", "0", "00", "7", "+7", "-7", "-0", "+", "-", "--1", "+-1", " 1", "1 ", "1.0", "a", "1a", "１",
    "127", "255", "256", "2147483647", "2147483648", "-2147483648", "-2147483649", "4294967295",
    "4294967296", "9223372036854775807", "9223372036854775808", "-9223372036854775808",
    "-9223372036854775809", "18446744073709551615", "18446744073709551616", "000018446744073709551615",
    "99999999999999999999999999",
];

#[test]
fn integers_are_read_as_std_reads_them() {
    for s in SAMPLES {
        let c = chars_of(s);
        assert_eq!(read_i64(&c), s.parse::<i64>().ok(), "{s}");
        assert_eq!(read_i32(&c), s.parse::<i32>().ok(), "{s}");
        assert_eq!(read_unsigned(&c, u64::MAX), s.parse::<u64>().ok(), "{s}");
        assert_eq!(read_unsigned(&c, 255), s.parse::<u8>().ok().map(u64::from), "{s}");
    }
}

#[test]
fn integers_are_written_as_std_writes_them() {
    for n in [0, 1, 9, 10, 99, 100, 12345, u64::MAX] {
        assert_eq!(decimal_text(n), n.to_string());
    }
    for i in [0, 1, -1, 10, -10, i64::MAX, i64::MIN] {
        assert_eq!(integer_text(i), i.to_string());
        assert_eq!(read_i64(&chars_of(&integer_text(i))), Some(i));
    }
}
