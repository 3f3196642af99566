use wordle::persistence::{format_counters, is_whitespace, parse_counters};

#[test]
fn seven_numbers_are_read() {
    assert_eq!(parse_counters("1 2 3 4 5 6 7"), Some([1, 2, 3, 4, 5, 6, 7]));
    assert_eq!(parse_counters("0 0 0 0 0 0 0"), Some([0; 7]));
}

#[test]
fn any_white_space_separates() {
    assert_eq!(
        parse_counters("  10\t20\n30\r\n40 \u{a0}50\u{2003}60\u{3000}70\n"),
        Some([10, 20, 30, 40, 50, 60, 70])
    );
}

#[test]
fn plus_sign_and_leading_zeros_are_accepted() {
    assert_eq!(parse_counters("+1 007 3 4 5 6 +0"), Some([1, 7, 3, 4, 5, 6, 0]));
}

#[test]
fn largest_number_is_read() {
    assert_eq!(
        parse_counters("4294967295 0 0 0 0 0 4294967295"),
        Some([u32::MAX, 0, 0, 0, 0, 0, u32::MAX])
    );
}

#[test]
fn what_follows_the_seventh_number_is_ignored() {
    assert_eq!(parse_counters("1 2 3 4 5 6 7 x -3"), Some([1, 2, 3, 4, 5, 6, 7]));
}

#[test]
fn too_few_numbers_are_refused() {
    assert_eq!(parse_counters(""), None);
    assert_eq!(parse_counters("   \n"), None);
    assert_eq!(parse_counters("1 2 3 4 5 6"), None);
}

#[test]
fn words_that_are_no_numbers_are_refused() {
    assert_eq!(parse_counters("1 2 x 4 5 6 7"), None);
    assert_eq!(parse_counters("1 2 -3 4 5 6 7"), None);
    assert_eq!(parse_counters("1 2 + 4 5 6 7"), None);
    assert_eq!(parse_counters("1 2 ++3 4 5 6 7"), None);
    assert_eq!(parse_counters("1 2 3.0 4 5 6 7"), None);
    assert_eq!(parse_counters("1,2,3,4,5,6,7"), None);
    assert_eq!(parse_counters("1 2 3 4 5 6 7x"), None);
    assert_eq!(parse_counters("1 2 ٣ 4 5 6 7"), None);
}

#[test]
fn numbers_beyond_32_bits_are_refused() {
    assert_eq!(parse_counters("4294967296 0 0 0 0 0 0"), None);
    assert_eq!(parse_counters("0 0 0 0 0 0 99999999999999999999999"), None);
}

#[test]
fn reading_agrees_with_the_standard_library() {
    let texts = [
        "1 2 3 4 5 6 7",
        " +1\t2 3 4 5 6 7 8 9",
        "1 2 3",
        "a b c d e f g",
        "4294967295 4294967296 0 0 0 0 0",
        "00 01 02 03 04 05 06",
        "1 2 3 4 5 6 -7",
        "\u{85}1\u{2028}2\u{2029}3\u{202f}4\u{205f}5\u{1680}6\u{200a}7",
        "1\u{200b}2 3 4 5 6 7 8",
    ];
    for text in texts {
        let expected: Option<Vec<u32>> = text
            .split_whitespace()
            .take(7)
            .map(|w| w.parse::<u32>().ok())
            .collect();
        let expected = expected.filter(|numbers| numbers.len() == 7);
        assert_eq!(parse_counters(text).map(|c| c.to_vec()), expected);
    }
}

#[test]
fn white_space_is_what_the_standard_library_says() {
    for code in 0..=0x10ffffu32 {
        if let Some(c) = char::from_u32(code) {
            assert_eq!(is_whitespace(c), c.is_whitespace());
        }
    }
}

#[test]
fn numbers_are_written_with_single_spaces() {
    assert_eq!(format_counters(&[1, 2, 3, 4, 5, 6, 7]), "1 2 3 4 5 6 7");
    assert_eq!(format_counters(&[0; 7]), "0 0 0 0 0 0 0");
    assert_eq!(
        format_counters(&[10, 200, 3000, 40000, 500000, 6000000, u32::MAX]),
        "10 200 3000 40000 500000 6000000 4294967295"
    );
}

#[test]
fn written_numbers_are_read_back() {
    let samples = [
        [0u32; 7],
        [1, 2, 3, 4, 5, 6, 7],
        [u32::MAX; 7],
        [9, 10, 99, 100, 101, 999, 1000],
        [4294967295, 0, 1, 4294967294, 1000000000, 123456789, 987654321],
    ];
    for counters in samples {
        assert_eq!(parse_counters(&format_counters(&counters)), Some(counters));
    }
}
