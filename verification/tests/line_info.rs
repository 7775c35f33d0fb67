use tlang::utils::line_info::{calculate_line_index_and_offset, read_line};
use tlang::utils::{IterToReader, LineInfo};

#[test]
fn line_info_on_the_first_line() {
    let info = LineInfo::from_str("2+x", 2..3);
    assert_eq!(info.line_index, 0);
    assert_eq!(info.char_index, 2);
    assert_eq!(info.length, 1);
    assert_eq!(info.line, "2+x");
    assert_eq!(info.render(), "Line: 1, Char: 3\n2+x\n  ^");
}

#[test]
fn line_info_on_a_later_line() {
    let info = LineInfo::from_str("1+\n2+\r\n3+?", 10..11);
    assert_eq!(info.line_index, 2);
    assert_eq!(info.char_index, 3);
    assert_eq!(info.length, 1);
    assert_eq!(info.line, " 3+?".trim_start());
    assert_eq!(info.render(), "Line: 3, Char: 4\n3+?\n   ^");
}

#[test]
fn line_info_at_the_end_of_the_text() {
    let info = LineInfo::from_str("1+", 2..3);
    assert_eq!(info.line_index, 0);
    assert_eq!(info.char_index, 2);
    assert_eq!(info.length, 1);
    assert_eq!(info.line, "1+");
}

#[test]
fn line_info_of_a_wide_range() {
    let info = LineInfo::from_str("a\nbcdef\ng", 3..6);
    assert_eq!(info.line_index, 1);
    assert_eq!(info.char_index, 1);
    assert_eq!(info.length, 3);
    assert_eq!(info.line, "bcdef");
    assert_eq!(info.render(), "Line: 2, Char: 2\nbcdef\n ^^^");
}

#[test]
fn line_index_and_offset_count_line_feeds_before_the_position() {
    let text = b"ab\ncd\n\nef";
    assert_eq!(calculate_line_index_and_offset(IterToReader::new(text), 0), (0, 0));
    assert_eq!(calculate_line_index_and_offset(IterToReader::new(text), 2), (0, 0));
    assert_eq!(calculate_line_index_and_offset(IterToReader::new(text), 3), (1, 3));
    assert_eq!(calculate_line_index_and_offset(IterToReader::new(text), 6), (2, 6));
    assert_eq!(calculate_line_index_and_offset(IterToReader::new(text), 7), (3, 7));
    assert_eq!(calculate_line_index_and_offset(IterToReader::new(text), 100), (3, 7));
}

#[test]
fn read_line_stops_at_the_line_end() {
    let text = b"ab\ncd\r\nef";
    assert_eq!(read_line(IterToReader::new(text), 0), "ab");
    assert_eq!(read_line(IterToReader::new(text), 3), "cd");
    assert_eq!(read_line(IterToReader::new(text), 7), "ef");
    assert_eq!(read_line(IterToReader::new(text), 2), "");
    assert_eq!(read_line(IterToReader::new(text), 100), "");
}

#[test]
fn render_counts_from_one() {
    let info = LineInfo { line_index: 9, char_index: 0, length: 0, line: String::from("x") };
    assert_eq!(info.render(), "Line: 10, Char: 1\nx\n");
}
