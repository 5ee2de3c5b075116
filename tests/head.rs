use yahead::args::{designators, resolve_mode, ArgError, Designator};
use yahead::prefix::{head_bytes, head_lines, Head, Mode};
use yahead::render::{decimal_chars, header_line, number_mark_chars};
use yahead::units::{
    byte_count_of, parse_byte_spec, parse_line_count, unit_multiplier, ByteSpecError, NumError,
};

fn chars(s: &str) -> Vec<char> {
    s.chars().collect()
}

fn text(v: &[char]) -> String {
    v.iter().collect()
}

fn lines(ls: &[&str]) -> Vec<Vec<char>> {
    ls.iter().map(|l| chars(l)).collect()
}

fn mark(k: u64) -> String {
    format!("\x1b[32m{}\x1b[0m: ", k)
}

#[test]
fn enough_lines_gives_exactly_n_numbered() {
    let input = lines(&["one", "two", "three", "four"]);
    let out = text(&head_lines(&input, 3, false));
    assert_eq!(out, format!("{}one\n{}two\n{}three\n", mark(1), mark(2), mark(3)));
    assert_eq!(out.matches('\n').count(), 3);
}

#[test]
fn zero_lines_gives_nothing() {
    let input = lines(&["one", "two"]);
    assert_eq!(text(&head_lines(&input, 0, false)), "");
    assert_eq!(text(&head_lines(&input, 0, true)), "");
}

#[test]
fn short_input_gives_all_lines_without_padding() {
    let input = lines(&["x", "y"]);
    assert_eq!(text(&head_lines(&input, 10, true)), "x\ny\n");
    assert_eq!(text(&head_lines(&input, 10, false)), format!("{}x\n{}y\n", mark(1), mark(2)));
    assert_eq!(text(&head_lines(&Vec::new(), 10, false)), "");
}

#[test]
fn ten_bytes_of_a_hundred() {
    let input = vec![b'a'; 100];
    let n = parse_byte_spec("10B").unwrap();
    assert_eq!(n, 10);
    assert_eq!(text(&head_bytes(&input, n, true)), "a".repeat(10));
    assert_eq!(text(&head_bytes(&input, n, false)), format!("{}{}", mark(1), "a".repeat(10)));
}

#[test]
fn one_kilobyte_is_1024_bytes() {
    assert_eq!(parse_byte_spec("1KB"), Ok(1024));
    assert_eq!(parse_byte_spec("1K"), Ok(1024));
}

#[test]
fn unit_parser_examples() {
    assert_eq!(parse_byte_spec("5MB"), Ok(5 * 1024 * 1024));
    assert_eq!(parse_byte_spec("5gb"), Ok(5 * 1024 * 1024 * 1024));
    assert_eq!(parse_byte_spec("5XB"), Err(ByteSpecError::UnsupportedUnit));
    assert_eq!(parse_byte_spec("abcKB"), Err(ByteSpecError::InvalidFormat));
}

#[test]
fn every_unit_and_case() {
    let k: u64 = 1024;
    assert_eq!(parse_byte_spec("3B"), Ok(3));
    assert_eq!(parse_byte_spec("3b"), Ok(3));
    assert_eq!(parse_byte_spec("3m"), Ok(3 * k * k));
    assert_eq!(parse_byte_spec("3Tb"), Ok(3 * k * k * k * k));
    assert_eq!(parse_byte_spec("3pB"), Ok(3 * k * k * k * k * k));
    assert_eq!(parse_byte_spec("3BB"), Err(ByteSpecError::UnsupportedUnit));
    assert_eq!(parse_byte_spec("3KBB"), Err(ByteSpecError::UnsupportedUnit));
}

#[test]
fn byte_spec_format_errors() {
    assert_eq!(parse_byte_spec(""), Err(ByteSpecError::InvalidFormat));
    assert_eq!(parse_byte_spec("10"), Err(ByteSpecError::InvalidFormat));
    assert_eq!(parse_byte_spec("0B"), Err(ByteSpecError::InvalidFormat));
    assert_eq!(parse_byte_spec("KB"), Err(ByteSpecError::InvalidFormat));
}

#[test]
fn byte_spec_is_found_inside_text() {
    assert_eq!(parse_byte_spec("x12KB"), Ok(12 * 1024));
    assert_eq!(parse_byte_spec("007B"), Ok(7));
    assert_eq!(parse_byte_spec("x12kBy"), Err(ByteSpecError::UnsupportedUnit));
}

#[test]
fn byte_spec_overflow() {
    assert_eq!(parse_byte_spec("2147483647B"), Ok(2147483647));
    assert_eq!(
        parse_byte_spec("2147483648B"),
        Err(ByteSpecError::Count(NumError::Overflow))
    );
    assert_eq!(
        parse_byte_spec("99999999999XB"),
        Err(ByteSpecError::Count(NumError::Overflow))
    );
    assert_eq!(parse_byte_spec("2147483647PB"), Err(ByteSpecError::TooLarge));
    assert_eq!(parse_byte_spec("8191PB"), Ok(8191 * (1u64 << 50)));
}

#[test]
fn byte_count_of_parts() {
    assert_eq!(byte_count_of(&chars("12"), &chars("kb")), Ok(12 * 1024));
    assert_eq!(byte_count_of(&chars(""), &chars("B")), Err(ByteSpecError::Count(NumError::Empty)));
    assert_eq!(
        byte_count_of(&chars("1x"), &chars("B")),
        Err(ByteSpecError::Count(NumError::InvalidDigit))
    );
    assert_eq!(byte_count_of(&chars("4"), &chars("Q")), Err(ByteSpecError::UnsupportedUnit));
    assert_eq!(unit_multiplier(&chars("g")), Some(1024 * 1024 * 1024));
    assert_eq!(unit_multiplier(&chars("")), None);
}

#[test]
fn line_count_parsing() {
    assert_eq!(parse_line_count("10"), Ok(10));
    assert_eq!(parse_line_count("+7"), Ok(7));
    assert_eq!(parse_line_count("0"), Ok(0));
    assert_eq!(parse_line_count("-5"), Ok(0));
    assert_eq!(parse_line_count("2147483647"), Ok(2147483647));
    assert_eq!(parse_line_count("2147483648"), Err(NumError::Overflow));
    assert_eq!(parse_line_count("-2147483648"), Ok(0));
    assert_eq!(parse_line_count("-2147483649"), Err(NumError::Overflow));
    assert_eq!(parse_line_count(""), Err(NumError::Empty));
    assert_eq!(parse_line_count("-"), Err(NumError::InvalidDigit));
    assert_eq!(parse_line_count("ten"), Err(NumError::InvalidDigit));
}

#[test]
fn quiet_mode_has_no_decoration() {
    assert_eq!(text(&header_line("notes.txt", true)), "");
    let input = lines(&["a", "b"]);
    assert_eq!(text(&head_lines(&input, 5, true)), "a\nb\n");
    let bytes = b"a\nb\n".to_vec();
    assert_eq!(text(&head_bytes(&bytes, 100, true)), "a\nb\n");
}

#[test]
fn byte_mode_numbers_after_each_newline() {
    let bytes = b"a\nb\n".to_vec();
    assert_eq!(
        text(&head_bytes(&bytes, 100, false)),
        format!("{}a\n{}b\n{}", mark(1), mark(2), mark(3))
    );
    assert_eq!(text(&head_bytes(&bytes, 3, false)), format!("{}a\n{}b", mark(1), mark(2)));
    assert_eq!(text(&head_bytes(&Vec::new(), 3, false)), mark(1));
    assert_eq!(text(&head_bytes(&bytes, 0, true)), "");
}

#[test]
fn bytes_are_shown_as_characters_of_the_same_code() {
    let bytes = vec![0x41u8, 0xE9];
    assert_eq!(text(&head_bytes(&bytes, 2, true)), "A\u{e9}");
}

#[test]
fn no_files_means_standard_input_once() {
    let r = designators(&Vec::new(), false);
    assert_eq!(r.len(), 1);
    assert!(matches!(r[0], Designator::Stdin));
    let r = designators(&Vec::new(), true);
    assert_eq!(r.len(), 1);
    assert!(matches!(r[0], Designator::Stdin));
}

#[test]
fn dash_is_a_file_unless_asked() {
    let files = vec!["a.txt".to_string(), "-".to_string()];
    let r = designators(&files, false);
    assert_eq!(r.len(), 2);
    assert!(matches!(&r[0], Designator::File(f) if f == "a.txt"));
    assert!(matches!(&r[1], Designator::File(f) if f == "-"));
    let r = designators(&files, true);
    assert!(matches!(&r[0], Designator::File(f) if f == "a.txt"));
    assert!(matches!(r[1], Designator::Stdin));
}

#[test]
fn repeated_line_mode_is_identical() {
    let input = lines(&["a", "b", "c"]);
    let first = head_lines(&input, 2, false);
    let second = head_lines(&input, 2, false);
    assert_eq!(first, second);
}

#[test]
fn end_to_end_two_numbered_lines() {
    let input = lines(&["a", "b", "c"]);
    let mut out = header_line("in.txt", false);
    out.extend(head_lines(&input, 2, false));
    out.push('\n');
    assert_eq!(
        text(&out),
        format!("\x1b[1;31min.txt\x1b[0m\n{}a\n{}b\n\n", mark(1), mark(2))
    );
}

#[test]
fn marks_and_numbers() {
    assert_eq!(text(&decimal_chars(0)), "0");
    assert_eq!(text(&decimal_chars(1234567890123)), "1234567890123");
    assert_eq!(text(&number_mark_chars(42)), "\x1b[32m42\x1b[0m: ");
    assert_eq!(text(&header_line("f", false)), "\x1b[1;31mf\x1b[0m\n");
}

#[test]
fn mode_resolution() {
    assert_eq!(resolve_mode(None, None), Ok(Mode::Lines(10)));
    assert_eq!(resolve_mode(None, Some("3")), Ok(Mode::Lines(3)));
    assert_eq!(resolve_mode(Some("2KB"), Some("3")), Ok(Mode::Bytes(2048)));
    assert_eq!(
        resolve_mode(Some("2XB"), None),
        Err(ArgError::ByteSpec(ByteSpecError::UnsupportedUnit))
    );
    assert_eq!(
        resolve_mode(None, Some("x")),
        Err(ArgError::LineCount(NumError::InvalidDigit))
    );
}

#[test]
fn head_fed_step_by_step() {
    let mut h = Head::new(Mode::Bytes(2), false);
    let mut out = h.opening();
    for b in b"x\ny" {
        if !h.wants_more() {
            break;
        }
        out.extend(h.take_byte(*b));
    }
    assert_eq!(text(&out), format!("{}x\n{}", mark(1), mark(2)));
    let mut h = Head::new(Mode::Lines(1), true);
    assert!(h.opening().is_empty());
    assert_eq!(text(&h.take_line(&chars("only"))), "only\n");
    assert!(!h.wants_more());
}
