use textutils::uniq::format_group;
use textutils::uniq::group_lines;
use textutils::uniq::lines_equal;
use textutils::uniq::ComparisonPolicy;

fn plain() -> ComparisonPolicy {
    ComparisonPolicy { check_chars: None, skip_chars: None, ignore_case: false }
}

#[test]
fn case_folding_decides_equality() {
    let fold = ComparisonPolicy { ignore_case: true, ..plain() };
    assert!(lines_equal("Hello", "hello", &fold));
    assert!(!lines_equal("Hello", "hello", &plain()));
    assert!(lines_equal("HELLO", "hello", &fold));
}

#[test]
fn truncation_compares_a_prefix() {
    let first3 = ComparisonPolicy { check_chars: Some(3), ..plain() };
    assert!(lines_equal("abcdef", "abcxyz", &first3));
    assert!(!lines_equal("abcdef", "abcxyz", &plain()));
    assert!(!lines_equal("abd", "abc", &first3));
}

#[test]
fn skip_is_clamped_to_the_line() {
    let skip10 = ComparisonPolicy { skip_chars: Some(10), ..plain() };
    assert!(lines_equal("ab", "ab", &skip10));
    assert!(lines_equal("ab", "cd", &skip10));
    let skip1 = ComparisonPolicy { skip_chars: Some(1), ..plain() };
    assert!(lines_equal("xbc", "ybc", &skip1));
}

#[test]
fn truncate_then_skip() {
    let p = ComparisonPolicy { check_chars: Some(3), skip_chars: Some(1), ignore_case: false };
    // first three characters, then the first of those dropped
    assert!(lines_equal("abcdef", "xbcxyz", &p));
    assert!(!lines_equal("abcdef", "axcxyz", &p));
}

#[test]
fn grouping_counts_runs() {
    let lines = vec![
        String::from("a"),
        String::from("a"),
        String::from("b"),
        String::from("a"),
    ];
    let groups = group_lines(&lines, &plain());
    assert_eq!(
        groups,
        vec![
            (2, String::from("a")),
            (1, String::from("b")),
            (1, String::from("a")),
        ]
    );
}

#[test]
fn grouping_keeps_first_line_of_run() {
    let fold = ComparisonPolicy { ignore_case: true, ..plain() };
    let lines = vec![String::from("A"), String::from("a"), String::from("b")];
    let groups = group_lines(&lines, &fold);
    assert_eq!(groups, vec![(2, String::from("A")), (1, String::from("b"))]);
}

#[test]
fn grouping_of_nothing() {
    let lines: Vec<String> = Vec::new();
    assert_eq!(group_lines(&lines, &plain()), Vec::<(usize, String)>::new());
}

#[test]
fn group_output_follows_the_flags() {
    // both repeated and unique: every run prints
    assert_eq!(format_group(1, "x", true, true, false), Some(String::from("x\n")));
    assert_eq!(format_group(3, "x", true, true, true), Some(String::from("3 x\n")));
    // repeated alone: only runs longer than one
    assert_eq!(format_group(1, "x", true, false, false), None);
    assert_eq!(format_group(2, "x", true, false, false), Some(String::from("x\n")));
    // unique alone: only runs of exactly one
    assert_eq!(format_group(1, "x", false, true, true), Some(String::from("1 x\n")));
    assert_eq!(format_group(2, "x", false, true, false), None);
    // neither: nothing prints
    assert_eq!(format_group(5, "x", false, false, true), None);
}
