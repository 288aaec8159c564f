use textutils::cut::cut_line;
use textutils::cut::join_selected;
use textutils::cut::select_indices;
use textutils::cut::EntryType;

#[test]
fn test_control_print() {
    let v = vec![String::from("1"), String::from("2"), String::from("3")];
    let a = join_selected(&v, &vec![0, 3, 2], None);
    assert_eq!(a, Some(String::from("13\n")));
}

#[test]
fn selection_filters_out_of_range() {
    assert_eq!(select_indices(&vec![0, 3, 2, 3], 3), vec![0, 2]);
    assert_eq!(select_indices(&vec![5, 6], 3), Vec::<usize>::new());
    assert_eq!(select_indices(&vec![1, 1, 0], 2), vec![1, 1, 0]);
}

#[test]
fn nothing_selected_prints_nothing() {
    let v = vec![String::from("a")];
    assert_eq!(join_selected(&v, &vec![7], None), None);
    assert_eq!(join_selected(&Vec::new(), &vec![0], Some(':')), None);
}

#[test]
fn fields_keep_their_delimiter() {
    let line = "a:b:c";
    assert_eq!(
        cut_line(line, EntryType::Field, &vec![0, 2], ':'),
        Some(String::from("a:c\n"))
    );
    assert_eq!(
        cut_line(line, EntryType::Field, &vec![1], ':'),
        Some(String::from("b\n"))
    );
}

#[test]
fn characters_join_without_delimiter() {
    assert_eq!(
        cut_line("abcd", EntryType::Char, &vec![0, 1], ':'),
        Some(String::from("ab\n"))
    );
    assert_eq!(cut_line("abc", EntryType::Char, &vec![5], ':'), None);
}

#[test]
fn bytes_print_as_numbers() {
    assert_eq!(
        cut_line("AB", EntryType::Byte, &vec![0], ':'),
        Some(String::from("65\n"))
    );
    assert_eq!(
        cut_line("AB", EntryType::Byte, &vec![0, 1], ':'),
        Some(String::from("6566\n"))
    );
}

#[test]
fn empty_fields_survive_splitting() {
    assert_eq!(
        cut_line("a::b", EntryType::Field, &vec![0, 1, 2], ':'),
        Some(String::from("a::b\n"))
    );
}
