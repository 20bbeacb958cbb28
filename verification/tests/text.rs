use ai_memory::text::{
    chars_of, contains_text, decimal_text, first_chars, fold_lines, join_texts, parse_count,
    parse_signed, replace_char, same_text, split_text, text_at_most, trim_text,
};

const SAMPLES: [&str; 17] = [
    "",
    "a",
    "ab",
    "b",
    " a b ",
    "\u{3000}x\u{85}\t",
    "one\ntwo\r\nthree",
    "one\n\n",
    "\r",
    "tail\r",
    "+7",
    "-7",
    "+-7",
    "007",
    "9223372036854775808",
    "18446744073709551616",
    "Grüße, 世界",
];

#[test]
fn numbers_are_written_in_decimal() {
    for n in [0, 7, 10, 99, 100, 1_234_567_890, u64::MAX] {
        assert_eq!(decimal_text(n), n.to_string());
        assert_eq!(
            parse_signed(&decimal_text(n)),
            n.to_string().parse::<i64>().ok()
        );
    }
}

#[test]
fn numbers_are_read_as_the_standard_library_reads_them() {
    for text in SAMPLES {
        assert_eq!(parse_count(text), text.parse::<usize>().ok(), "{text:?}");
        assert_eq!(parse_signed(text), text.parse::<i64>().ok(), "{text:?}");
    }
    assert_eq!(parse_signed("-9223372036854775808"), Some(i64::MIN));
    assert_eq!(parse_signed("-9223372036854775809"), None);
    assert_eq!(parse_signed("9223372036854775807"), Some(i64::MAX));
    assert_eq!(parse_count("18446744073709551615"), Some(usize::MAX));
}

#[test]
fn texts_are_taken_apart_as_the_standard_library_does() {
    for text in SAMPLES {
        let pieces: Vec<&str> = text.split(' ').collect();
        assert_eq!(split_text(text, ' '), pieces, "{text:?}");
        assert_eq!(join_texts(&split_text(text, ' '), " "), text);
        assert_eq!(fold_lines(text), text.replace(['\n', '\r'], " "), "{text:?}");
        assert_eq!(trim_text(text), text.trim(), "{text:?}");
        assert_eq!(chars_of(text), text.chars().collect::<Vec<char>>());
        assert_eq!(replace_char(text, 'a', 'z'), text.replace('a', "z"));
        let head: String = text.chars().take(3).collect();
        assert_eq!(first_chars(text, 3), head);
    }
    assert_eq!(join_texts(&vec![], ", "), "");
}

#[test]
fn texts_are_compared_as_the_standard_library_does() {
    for a in SAMPLES {
        for b in SAMPLES {
            assert_eq!(text_at_most(a, b), a <= b, "{a:?} {b:?}");
            assert_eq!(same_text(a, b), a == b, "{a:?} {b:?}");
            assert_eq!(contains_text(a, b), a.contains(b), "{a:?} {b:?}");
        }
    }
}
