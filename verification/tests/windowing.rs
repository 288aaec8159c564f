use textutils::offset::parse_plus_usize;
use textutils::offset::select_window;
use textutils::offset::PlusUsize;

#[test]
fn test_parse_plus_usize() {
    let a = "+3";
    let b = parse_plus_usize(a);
    assert_eq!(b.unwrap(), PlusUsize::PlusUsize(3));

    let a = "3";
    let b = parse_plus_usize(a);
    assert_eq!(b.unwrap(), PlusUsize::Usize(3));

    let a = "-3";
    let b = parse_plus_usize(a);
    assert!(b.is_err());
}

#[test]
fn offset_zero_and_plus_zero() {
    assert_eq!(parse_plus_usize("0").unwrap(), PlusUsize::Usize(0));
    assert_eq!(parse_plus_usize("+0").unwrap(), PlusUsize::PlusUsize(0));
    assert!(parse_plus_usize("++3").is_err());
    assert!(parse_plus_usize("+").is_err());
    assert!(parse_plus_usize("").is_err());
    assert!(parse_plus_usize("3+").is_err());
}

#[test]
fn relative_window_keeps_from_position() {
    assert_eq!(select_window(10, PlusUsize::PlusUsize(3)), (3, 10));
    assert_eq!(select_window(10, PlusUsize::PlusUsize(15)), (10, 10));
    assert_eq!(select_window(10, PlusUsize::PlusUsize(0)), (0, 10));
}

#[test]
fn absolute_window_keeps_last_n() {
    assert_eq!(select_window(10, PlusUsize::Usize(3)), (7, 10));
    assert_eq!(select_window(10, PlusUsize::Usize(0)), (10, 10));
    assert_eq!(select_window(10, PlusUsize::Usize(99)), (0, 10));
}
