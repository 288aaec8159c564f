use textutils::cal::days_in_month;
use textutils::cal::month_name;
use textutils::cal::print_month;
use textutils::echo::echo_line;
use textutils::ls::show_entry;

#[test]
fn month_lengths_follow_the_leap_rule() {
    assert_eq!(days_in_month(2023, 2), 28);
    assert_eq!(days_in_month(2024, 2), 29);
    assert_eq!(days_in_month(1900, 2), 28);
    assert_eq!(days_in_month(2000, 2), 29);
    assert_eq!(days_in_month(2023, 4), 30);
    assert_eq!(days_in_month(2023, 12), 31);
}

#[test]
fn month_names_are_english() {
    assert_eq!(month_name(1), "January");
    assert_eq!(month_name(2), "February");
    assert_eq!(month_name(12), "December");
}

#[test]
fn a_month_renders_week_by_week() {
    // February 2023 started on a Wednesday.
    let text = print_month(2023, 2, 0);
    let expected = "      February       \n      1  2  3  4  5  \n6  7  8  9  10 11 12 \n13 14 15 16 17 18 19 \n20 21 22 23 24 25 26 \n27 28 \n";
    assert_eq!(text, expected);
}

#[test]
fn the_highlighted_day_is_wrapped_in_color() {
    let text = print_month(2023, 2, 14);
    assert!(text.contains("\x1b[34m14 \x1b[0m"));
    assert!(!text.contains("\x1b[34m15"));
}

#[test]
fn echo_joins_words_with_spaces() {
    let words = vec![String::from("Hello"), String::from("world")];
    assert_eq!(echo_line(&words, false), "Hello world\n");
    assert_eq!(echo_line(&words, true), "Hello world");
    assert_eq!(echo_line(&Vec::new(), false), "\n");
}

#[test]
fn hidden_entries_are_shown_on_request() {
    assert!(!show_entry(".hidden", false));
    assert!(show_entry(".hidden", true));
    assert!(show_entry("src", false));
    assert!(show_entry("", false));
}
