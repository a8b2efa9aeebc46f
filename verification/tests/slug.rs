use simple_test_case::slugify_path;

#[test]
fn space_delimited() {
    assert_eq!(&slugify_path("simple example"), "simple_example");
}

#[test]
fn leading_num() {
    assert_eq!(&slugify_path("99 bottles of beer"), "_99_bottles_of_beer");
}

#[test]
fn punctuation() {
    assert_eq!(&slugify_path("some-file_path.txt"), "some_file_path_txt");
}

#[test]
fn uppercase_is_lowered() {
    assert_eq!(&slugify_path("Large Example"), "large_example");
}

#[test]
fn empty_input_stays_empty() {
    assert_eq!(&slugify_path(""), "");
}

#[test]
fn non_empty_input_gives_non_empty_identifier() {
    let cases = ["?", "!!!", " ", "0", "a", "-"];
    for c in cases {
        assert!(!slugify_path(c).is_empty());
    }
}

#[test]
fn never_starts_with_a_digit() {
    let cases = ["7", "7 up", "99", "0abc", "a0"];
    for c in cases {
        let s = slugify_path(c);
        assert!(!s.chars().next().unwrap().is_ascii_digit());
    }
}

#[test]
fn idempotent() {
    let cases = ["simple example", "99 bottles of beer", "some-file_path.txt", "Mixed CASE-42!"];
    for c in cases {
        let once = slugify_path(c);
        let twice = slugify_path(&once);
        assert_eq!(once, twice);
    }
}
