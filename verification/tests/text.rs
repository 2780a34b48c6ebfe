use fuse::text::{lines, parse_u64, trim, u64_to_decimal, u64_to_hex_padded};

#[test]
fn parse_u64_matches_std() {
    for s in ["0", "42", "+7", "18446744073709551615", "18446744073709551616", "", "+", "-1", " 1", "1a", "007"] {
        assert_eq!(parse_u64(s), s.parse::<u64>().ok(), "{}", s);
    }
}

#[test]
fn lines_match_std() {
    for s in ["", "a", "a\n", "a\r\nb", "\n\n", "x\ny\r\n", "\r"] {
        let expected: Vec<String> = s.lines().map(|l| l.to_string()).collect();
        assert_eq!(lines(s), expected, "{:?}", s);
    }
}

#[test]
fn numbers_and_trimming() {
    assert_eq!(u64_to_decimal(0), "0");
    assert_eq!(u64_to_decimal(u64::MAX), u64::MAX.to_string());
    assert_eq!(u64_to_hex_padded(255, 4), "00ff");
    assert_eq!(trim("  a b \t\n").into_iter().collect::<String>(), "a b");
}
