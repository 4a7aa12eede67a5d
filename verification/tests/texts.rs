use json_schema::text::chars_of;
use json_schema::text::decimal_text;
use json_schema::text::escape_name;
use json_schema::text::join_with_slash;
use json_schema::text::names_of_pointer;
use json_schema::text::same_text;
use json_schema::text::split_at_slashes;

fn strings(items: &[&str]) -> Vec<String> {
    items.iter().map(|s| s.to_string()).collect()
}

#[test]
fn same_text_compares_characters() {
    assert!(same_text("", ""));
    assert!(same_text("héllo", "héllo"));
    assert!(!same_text("hello", "hellp"));
    assert!(!same_text("hello", "hell"));
}

#[test]
fn chars_of_keeps_every_character() {
    assert_eq!(chars_of("a/é~"), vec!['a', '/', 'é', '~']);
    assert_eq!(chars_of(""), Vec::<char>::new());
}

#[test]
fn join_puts_a_slash_between_neighbours() {
    assert_eq!(join_with_slash(&strings(&[])), "");
    assert_eq!(join_with_slash(&strings(&["a"])), "a");
    assert_eq!(join_with_slash(&strings(&["a", "b", "c"])), "a/b/c");
    assert_eq!(join_with_slash(&strings(&["", ""])), "/");
}

#[test]
fn split_is_the_inverse_of_join() {
    assert_eq!(split_at_slashes(""), strings(&[""]));
    assert_eq!(split_at_slashes("a"), strings(&["a"]));
    assert_eq!(split_at_slashes("a/b/c"), strings(&["a", "b", "c"]));
    assert_eq!(split_at_slashes("/a//é/"), strings(&["", "a", "", "é", ""]));
}

#[test]
fn names_of_a_pointer_and_of_a_plain_name() {
    assert_eq!(names_of_pointer("/definitions/x"), strings(&["definitions", "x"]));
    assert_eq!(names_of_pointer("/"), strings(&[""]));
    assert_eq!(names_of_pointer("anchor"), strings(&["anchor"]));
    assert_eq!(names_of_pointer(""), strings(&[""]));
}

#[test]
fn escaping_writes_tilde_and_slash() {
    assert_eq!(escape_name("plain"), "plain");
    assert_eq!(escape_name("a/b"), "a~1b");
    assert_eq!(escape_name("~/é/~"), "~0~1é~1~0");
    assert_eq!(escape_name(""), "");
}

#[test]
fn decimal_writes_numbers() {
    assert_eq!(decimal_text(0), "0");
    assert_eq!(decimal_text(7), "7");
    assert_eq!(decimal_text(10), "10");
    assert_eq!(decimal_text(9081726354), "9081726354");
}
