use textutils::find::keep_entry;
use textutils::find::CompiledPattern;
use textutils::find::EntryType;

#[test]
fn test_access_vec() {
    let s1 = String::from("1");
    let s2 = String::from("2");
    let s3 = String::from("3");
    let a: Vec<Result<String, String>> = vec![Ok(s1), Ok(s2), Ok(s3)];
    assert_eq!(a.len(), 3);
}

#[test]
fn test_regex() {
    let re = CompiledPattern::new(r"\\*rc").unwrap();
    let types = vec![EntryType::File];
    let names = vec![re];
    assert!(keep_entry(false, true, false, &types, &names, "src"));
}

#[test]
fn bad_pattern_is_reported() {
    assert!(CompiledPattern::new("(").is_err());
}

#[test]
fn entry_must_match_kind_and_name() {
    let any = CompiledPattern::new(".*").unwrap();
    let types = vec![EntryType::Dir, EntryType::Link];
    let names = vec![any];
    // a plain file matches neither wanted kind
    assert!(!keep_entry(false, true, false, &types, &names, "whatever"));
    // a directory does
    assert!(keep_entry(true, false, false, &types, &names, "whatever"));
}

#[test]
fn name_pattern_must_match_somewhere() {
    let rc = CompiledPattern::new("rc$").unwrap();
    let types = vec![EntryType::File];
    let names = vec![rc];
    assert!(keep_entry(false, true, false, &types, &names, "./a/src"));
    assert!(!keep_entry(false, true, false, &types, &names, "./a/src/main.rs"));
    let empty: Vec<CompiledPattern> = Vec::new();
    assert!(!keep_entry(false, true, false, &types, &empty, "src"));
}
