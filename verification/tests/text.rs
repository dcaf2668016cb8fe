use ketchup::text::{contains_text, join2, join3, split_list};

fn names(list: &[&str]) -> Vec<String> {
    list.iter().map(|s| s.to_string()).collect()
}

#[test]
fn split_list_cuts_at_commas_and_trims() {
    assert_eq!(split_list("default,kube-system"), names(&["default", "kube-system"]));
    assert_eq!(split_list(" a , b\t,\nc "), names(&["a", "b", "c"]));
    assert_eq!(split_list("one"), names(&["one"]));
    assert_eq!(split_list("a b, c d"), names(&["a b", "c d"]));
}

#[test]
fn split_list_keeps_empty_entries() {
    assert_eq!(split_list(""), names(&[""]));
    assert_eq!(split_list(","), names(&["", ""]));
    assert_eq!(split_list("a,,b"), names(&["a", "", "b"]));
    assert_eq!(split_list("a,"), names(&["a", ""]));
    assert_eq!(split_list(" , "), names(&["", ""]));
}

#[test]
fn split_list_counts_characters_not_bytes() {
    assert_eq!(split_list("ä,ö ,\u{2003}ü\u{00a0}"), names(&["ä", "ö", "ü"]));
    assert_eq!(split_list("日本,語"), names(&["日本", "語"]));
}

#[test]
fn contains_text_compares_whole_strings() {
    let list = names(&["a", "bc", ""]);
    assert!(contains_text(&list, "bc"));
    assert!(contains_text(&list, ""));
    assert!(!contains_text(&list, "b"));
    assert!(!contains_text(&list, "BC"));
    assert!(!contains_text(&Vec::new(), "a"));
}

#[test]
fn joins_put_the_parts_one_after_another() {
    assert_eq!(join2("a", "b"), "ab");
    assert_eq!(join2("", ""), "");
    assert_eq!(join3("x", "/", "y"), "x/y");
}
