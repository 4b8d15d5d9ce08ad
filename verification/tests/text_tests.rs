use aptmirs::text::chars_of;
use aptmirs::number::decimal_exec;
use aptmirs::number::parse_u64_exec;
use aptmirs::text::split_char_exec;
use aptmirs::text::split_lines;
use aptmirs::text::split_words;
use aptmirs::text::string_of;
use aptmirs::text::text_lt_exec;
use aptmirs::text::trim_end_exec;
use aptmirs::text::trim_exec;
use aptmirs::text::Blank;

fn c(s: &str) -> Vec<char> {
    chars_of(s)
}

fn strings(parts: Vec<&[char]>) -> Vec<String> {
    parts.into_iter().map(string_of).collect()
}

#[test]
fn chars_and_strings_round_trip() {
    let text = "dists/bookworm/main/Pack\u{e4}ges";
    assert_eq!(string_of(&chars_of(text)), text);
    assert_eq!(chars_of("").len(), 0);
    assert_eq!(chars_of("\u{e4}b").len(), 2);
}

#[test]
fn words_are_runs_between_blanks() {
    let line = c("  deb \t http://x/  bookworm\n");
    assert_eq!(strings(split_words(&line, Blank::Unicode)), vec!["deb", "http://x/", "bookworm"]);
    assert!(split_words(&c("   "), Blank::Unicode).is_empty());
    assert!(split_words(&c(""), Blank::Ascii).is_empty());
}

#[test]
fn ascii_and_unicode_blanks_differ() {
    let line = c("a\u{a0}b c");
    assert_eq!(strings(split_words(&line, Blank::Unicode)), vec!["a", "b", "c"]);
    assert_eq!(strings(split_words(&line, Blank::Ascii)), vec!["a\u{a0}b", "c"]);
    let tab = c("a\u{b}b");
    assert_eq!(strings(split_words(&tab, Blank::Unicode)), vec!["a", "b"]);
    assert_eq!(strings(split_words(&tab, Blank::Ascii)), vec!["a\u{b}b"]);
}

#[test]
fn slashes_separate_the_parts_of_a_path() {
    let path = c("main//binary-amd64/Packages");
    assert_eq!(
        strings(split_words(&path, Blank::Slash)),
        vec!["main", "binary-amd64", "Packages"]
    );
}

#[test]
fn lines_keep_their_line_feed() {
    let text = c("a\n\nbc");
    assert_eq!(strings(split_lines(&text)), vec!["a\n", "\n", "bc"]);
    assert_eq!(strings(split_lines(&c("a\n"))), vec!["a\n"]);
    assert!(split_lines(&c("")).is_empty());
}

#[test]
fn split_keeps_empty_pieces() {
    assert_eq!(strings(split_char_exec(&c("amd64,,arm64"), ',')), vec!["amd64", "", "arm64"]);
    assert_eq!(strings(split_char_exec(&c(""), ',')), vec![""]);
    assert_eq!(strings(split_char_exec(&c("a,"), ',')), vec!["a", ""]);
}

#[test]
fn trimming_takes_blanks_off_the_ends() {
    assert_eq!(string_of(trim_exec(&c(" \t x y \r\n"))), "x y");
    assert_eq!(string_of(trim_end_exec(&c("  x \n"))), "  x");
    assert_eq!(string_of(trim_exec(&c("   "))), "");
}

#[test]
fn numbers_are_read_in_decimal() {
    assert_eq!(parse_u64_exec(&c("0")), Some(0));
    assert_eq!(parse_u64_exec(&c("1234")), Some(1234));
    assert_eq!(parse_u64_exec(&c("+7")), Some(7));
    assert_eq!(parse_u64_exec(&c("007")), Some(7));
    assert_eq!(parse_u64_exec(&c("18446744073709551615")), Some(u64::MAX));
}

#[test]
fn what_is_no_number_is_refused() {
    assert_eq!(parse_u64_exec(&c("")), None);
    assert_eq!(parse_u64_exec(&c("+")), None);
    assert_eq!(parse_u64_exec(&c("-1")), None);
    assert_eq!(parse_u64_exec(&c("12a")), None);
    assert_eq!(parse_u64_exec(&c(" 12")), None);
    assert_eq!(parse_u64_exec(&c("18446744073709551616")), None);
    assert_eq!(parse_u64_exec(&c("99999999999999999999999")), None);
}

#[test]
fn numbers_agree_with_the_standard_parser() {
    for text in ["0", "+0", "42", "+", "", "1_0", "18446744073709551615", "18446744073709551616"] {
        assert_eq!(parse_u64_exec(&c(text)), text.parse::<u64>().ok(), "{}", text);
    }
}

#[test]
fn numbers_are_written_in_decimal() {
    assert_eq!(string_of(&decimal_exec(0)), "0");
    assert_eq!(string_of(&decimal_exec(9)), "9");
    assert_eq!(string_of(&decimal_exec(10)), "10");
    assert_eq!(string_of(&decimal_exec(120305)), "120305");
    assert_eq!(string_of(&decimal_exec(u64::MAX)), "18446744073709551615");
}

#[test]
fn text_order_is_the_order_of_strings() {
    let samples = ["", "a", "ab", "b", "B", "main/x", "main", "\u{e4}", "z"];
    for a in samples {
        for b in samples {
            assert_eq!(text_lt_exec(&c(a), &c(b)), a < b, "{:?} < {:?}", a, b);
        }
    }
}
