use rusty_dusty::basics::{
    divide, get_first_sentence, is_even, largest, longest, ImportantExcerpt,
};

#[test]
fn division_truncates_toward_zero() {
    assert_eq!(divide(10, 2), Ok(5));
    assert_eq!(divide(7, 2), Ok(3));
    assert_eq!(divide(-7, 2), Ok(-3));
    assert_eq!(divide(7, -2), Ok(-3));
    assert_eq!(divide(-7, -2), Ok(3));
    assert_eq!(divide(0, 5), Ok(0));
    assert_eq!(divide(i32::MIN, 2), Ok(i32::MIN / 2));
}

#[test]
fn division_by_zero_is_an_error() {
    assert_eq!(divide(10, 0), Err("Cannot divide by zero"));
}

#[test]
fn parity_is_always_determined() {
    assert_eq!(is_even(2), Some(true));
    assert_eq!(is_even(3), Some(false));
    assert_eq!(is_even(4), Some(true));
    assert_eq!(is_even(7), Some(false));
    assert_eq!(is_even(-1), Some(false));
    assert_eq!(is_even(0), Some(true));
    assert_eq!(is_even(i32::MIN), Some(true));
}

#[test]
fn largest_finds_the_maximum() {
    assert_eq!(largest(&[1, 5, 3, 9, 2]), 9);
    assert_eq!(largest(&[10, 40, 30]), 40);
    assert_eq!(largest(&[-4]), -4);
    assert_eq!(largest(&[-4, -2, -9]), -2);
}

#[test]
fn longest_prefers_the_longer_string() {
    assert_eq!(longest("short string", "longer string"), "longer string");
    assert_eq!(longest("abcd", "xyz"), "abcd");
    assert_eq!(longest("tie", "tie"), "tie");
}

#[test]
fn first_sentence_runs_through_the_first_period() {
    let novel = "Call me Ishmael. Some years ago...";
    assert_eq!(get_first_sentence(novel), "Call me Ishmael.");
    assert_eq!(get_first_sentence("no period here"), "no period here");
    assert_eq!(get_first_sentence(""), "");
    assert_eq!(get_first_sentence(".x"), ".");
}

#[test]
fn excerpt_level_is_constant() {
    let novel = "Call me Ishmael. Some years ago...".to_string();
    let excerpt = ImportantExcerpt { part: get_first_sentence(&novel) };
    assert_eq!(excerpt.level(), 3);
    assert_eq!(excerpt.part, "Call me Ishmael.");
}
