use amdfan::utils::{
    append, append_decimal, chars_of, contains, decimal_text, first_hwmon, is_hwmon, parse_number,
    read_u16, read_usize, same_text, starts_with, trim,
};

#[test]
fn test_read_u16() {
    let test_file_content = "0x1234\n";
    let result = read_u16(test_file_content);
    assert!(result.is_some());
    assert_eq!(result, Some(0x1234));
}

#[test]
fn test_read_u16_invalid() {
    let test_file_content = "invalid\n";
    let result = read_u16(test_file_content);
    assert!(result.is_none());
    assert_eq!(result, None);
}

#[test]
fn read_u16_forms() {
    assert_eq!(read_u16("0x0"), Some(0));
    assert_eq!(read_u16("0xffff"), Some(0xffff));
    assert_eq!(read_u16("0xFFFF"), Some(0xffff));
    assert_eq!(read_u16("  0x73bf \n"), Some(0x73bf));
    assert_eq!(read_u16("0x00c1"), Some(0xc1));
    assert_eq!(read_u16("0x+c1"), Some(0xc1));
    assert_eq!(read_u16("0x10000"), None);
    assert_eq!(read_u16("0x"), None);
    assert_eq!(read_u16("0X12"), None);
    assert_eq!(read_u16("1234"), None);
    assert_eq!(read_u16("x1234"), None);
    assert_eq!(read_u16("0x12g4"), None);
    assert_eq!(read_u16("0x12 34"), None);
    assert_eq!(read_u16("0x-1"), None);
    assert_eq!(read_u16(""), None);
    assert_eq!(read_u16("0"), None);
}

#[test]
fn read_usize_forms() {
    assert_eq!(read_usize("0"), Some(0));
    assert_eq!(read_usize("255"), Some(255));
    assert_eq!(read_usize("+255"), Some(255));
    assert_eq!(read_usize("000255"), Some(255));
    assert_eq!(read_usize(&usize::MAX.to_string()), Some(usize::MAX));
    assert_eq!(read_usize("18446744073709551616"), None);
    assert_eq!(read_usize("99999999999999999999999999"), None);
    assert_eq!(read_usize(""), None);
    assert_eq!(read_usize("+"), None);
    assert_eq!(read_usize("++1"), None);
    assert_eq!(read_usize("-1"), None);
    assert_eq!(read_usize("1 "), None);
    assert_eq!(read_usize(" 1"), None);
    assert_eq!(read_usize("1_000"), None);
    assert_eq!(read_usize("ff"), None);
    assert_eq!(read_usize("１２"), None);
}

#[test]
fn read_usize_agrees_with_the_standard_parser() {
    for s in ["0", "7", "+7", "0099", "12a", "", "+", "-0", "18446744073709551615", "1e3", " 5"] {
        assert_eq!(read_usize(s), s.parse::<usize>().ok());
    }
}

#[test]
fn parse_number_respects_the_limit() {
    assert_eq!(parse_number("100", 10, 100), Some(100));
    assert_eq!(parse_number("101", 10, 100), None);
    assert_eq!(parse_number("64", 16, 100), Some(100));
    assert_eq!(parse_number("65", 16, 100), None);
    assert_eq!(parse_number("0", 10, 0), Some(0));
    assert_eq!(parse_number("1", 10, 0), None);
    assert_eq!(parse_number("101", 2, 7), Some(5));
    assert_eq!(parse_number("102", 2, 7), None);
    assert_eq!(parse_number("ffffffffffffffff", 16, u64::MAX), Some(u64::MAX));
    assert_eq!(parse_number("10000000000000000", 16, u64::MAX), None);
}

#[test]
fn trim_agrees_with_the_standard_library() {
    for s in [
        "",
        " ",
        "x",
        "  edge\n",
        "\t\r\n x y \u{a0}\u{3000}",
        "\u{2028}a\u{2029}",
        "\u{85}\u{1680}z\u{2000}\u{200a}\u{202f}\u{205f}",
        "\u{200b}keep\u{200b}",
        "a\u{feff}",
        "\u{1c}x\u{1f}",
    ] {
        assert_eq!(trim(s), s.trim());
    }
}

#[test]
fn trim_keeps_the_inside() {
    assert_eq!(trim("  a  b  "), "a  b");
    assert_eq!(trim("\n\n"), "");
    assert_eq!(trim("é "), "é");
}

#[test]
fn same_text_compares_characters() {
    assert!(same_text("", ""));
    assert!(same_text("edge", "edge"));
    assert!(!same_text("edge", "edge "));
    assert!(!same_text("edge", "edgy"));
    assert!(!same_text("edge", ""));
    assert!(same_text("é", "é"));
}

#[test]
fn chars_of_keeps_every_character() {
    assert_eq!(chars_of("aé\n"), vec!['a', 'é', '\n']);
    assert_eq!(chars_of(""), Vec::<char>::new());
}

#[test]
fn prefix_and_part() {
    assert!(starts_with("card0", "card"));
    assert!(starts_with("card", "card"));
    assert!(starts_with("card", ""));
    assert!(!starts_with("car", "card"));
    assert!(!starts_with("xcard", "card"));
    assert!(contains("DRIVER=amdgpu\nPCI_ID=1002:73BF\n", "PCI_ID=1002"));
    assert!(contains("PCI_ID=1002", "PCI_ID=1002"));
    assert!(contains("abc", ""));
    assert!(contains("", ""));
    assert!(!contains("", "a"));
    assert!(!contains("PCI_ID=10DE:1002", "PCI_ID=1002"));
    assert!(contains("aab", "ab"));
}

#[test]
fn hwmon_entries() {
    assert!(is_hwmon("hwmon0"));
    assert!(is_hwmon("hwmon"));
    assert!(!is_hwmon("hwmo"));
    assert!(!is_hwmon("power"));
}

#[test]
fn decimal_text_of_numbers() {
    assert_eq!(decimal_text(0), "0");
    assert_eq!(decimal_text(9), "9");
    assert_eq!(decimal_text(10), "10");
    assert_eq!(decimal_text(127), "127");
    assert_eq!(decimal_text(1000), "1000");
    assert_eq!(decimal_text(usize::MAX), usize::MAX.to_string());
}

#[test]
fn decimal_text_reads_back() {
    for n in [0, 1, 9, 10, 99, 100, 255, 65535, usize::MAX] {
        assert_eq!(read_usize(&decimal_text(n)), Some(n));
    }
}

#[test]
fn append_adds_at_the_end() {
    let mut s = String::from("pwm");
    append_decimal(&mut s, 3);
    append(&mut s, "_enable");
    append(&mut s, "");
    assert_eq!(s, "pwm3_enable");
}

#[test]
fn first_hwmon_of_a_listing() {
    let names = |v: &[&str]| v.iter().map(|s| String::from(*s)).collect::<Vec<String>>();
    assert_eq!(first_hwmon(&names(&["power", "hwmon3", "hwmon1"])), Some(1));
    assert_eq!(first_hwmon(&names(&["hwmon0"])), Some(0));
    assert_eq!(first_hwmon(&names(&["power", "uevent", "hwmo"])), None);
    assert_eq!(first_hwmon(&Vec::new()), None);
}
