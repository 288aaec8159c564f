use textutils::render::usize_to_string;
use textutils::wc::count;
use textutils::wc::format_counts;
use textutils::wc::FileInfo;

#[test]
fn counts_lines_words_and_bytes() {
    let lines = vec![String::from("hello world\n"), String::from("two\n")];
    let info = count(&lines);
    assert_eq!(info, FileInfo { lines: 2, words: 3, bytes: 16 });
}

#[test]
fn counts_of_nothing() {
    let lines: Vec<String> = Vec::new();
    assert_eq!(count(&lines), FileInfo { lines: 0, words: 0, bytes: 0 });
}

#[test]
fn whitespace_only_lines_have_no_words() {
    let lines = vec![String::from("  \t \n"), String::from(" a  b\n")];
    let info = count(&lines);
    assert_eq!(info.lines, 2);
    assert_eq!(info.words, 2);
}

#[test]
fn bytes_count_utf8_length() {
    let lines = vec![String::from("na\u{ef}ve\n")];
    let info = count(&lines);
    assert_eq!(info.bytes, 7);
    assert_eq!(info.words, 1);
}

#[test]
fn report_line_pads_each_count() {
    let info = FileInfo { lines: 1, words: 2, bytes: 3 };
    assert_eq!(format_counts(&info, false, false, false, "f"), "1     2     3     f\n");
    assert_eq!(format_counts(&info, true, false, false, "f"), "1     f\n");
    assert_eq!(format_counts(&info, false, true, true, "-"), "2     3     -\n");
    let wide = FileInfo { lines: 1234567, words: 0, bytes: 0 };
    assert_eq!(format_counts(&wide, true, false, false, "f"), "1234567f\n");
}

#[test]
fn decimal_rendering_is_exact() {
    assert_eq!(usize_to_string(0), "0");
    assert_eq!(usize_to_string(42), "42");
    assert_eq!(usize_to_string(1234567890), "1234567890");
}
