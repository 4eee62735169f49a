use classlist_core::dedup::{cleanup_cnl, find_in, normalize_list_impl};

#[test]
fn cleanup_cnl_string_transit() {
    let line = cleanup_cnl(&"some string".to_string());

    assert_eq!(line, "some string");
}

#[test]
fn cleanup_and_deduplicate() {
    let line = cleanup_cnl(&"first second    second third first  fourth".to_string());
    assert_eq!(line, "second third first fourth")
}

#[test]
fn lib_string_transit() {
    let line = normalize_list_impl(&"some string".to_string());

    assert_eq!(line, "some string");
}

#[test]
fn normalize_string() {
    let line = normalize_list_impl(&"first second    second third first  fourth".to_string());
    assert_eq!(line, "second third first fourth")
}

#[test]
fn cleanup_of_nothing_is_nothing() {
    assert_eq!(cleanup_cnl(""), "");
    assert_eq!(cleanup_cnl("   \t\n "), "");
    assert_eq!(normalize_list_impl(""), "");
    assert_eq!(normalize_list_impl("  \u{a0} "), "");
}

#[test]
fn cleanup_splits_at_every_white_space() {
    assert_eq!(cleanup_cnl("a\tb\nc  a"), "b c a");
    assert_eq!(normalize_list_impl("a\tb\nc  a"), "b c a");
    assert_eq!(cleanup_cnl("\u{3000}x\u{2003}y\u{85}x"), "y x");
}

#[test]
fn cleanup_twice_is_cleanup_once() {
    let texts = ["", "a", " a  a ", "b a b a c", "first second    second third first  fourth"];
    for text in texts {
        let once = cleanup_cnl(text);
        assert_eq!(cleanup_cnl(&once), once);
        assert_eq!(normalize_list_impl(&once), once);
    }
}

#[test]
fn repeated_word_stands_where_it_came_last() {
    assert_eq!(cleanup_cnl("a b c a"), "b c a");
    assert_eq!(cleanup_cnl("a a a"), "a");
    assert_eq!(cleanup_cnl("x y x y x"), "y x");
    assert_eq!(normalize_list_impl("x y x y x"), "y x");
}

#[test]
fn single_words_keep_their_order() {
    assert_eq!(cleanup_cnl("one dup two dup three"), "one two dup three");
    assert_eq!(normalize_list_impl("one dup two dup three"), "one two dup three");
}

#[test]
fn both_engines_agree() {
    let texts = ["a b a", "  z  y z x y ", "q", "k k k k", "a b c d e f a b c"];
    for text in texts {
        assert_eq!(cleanup_cnl(text), normalize_list_impl(text));
    }
}

#[test]
fn find_in_gives_the_first_position() {
    let list = vec!["a".to_string(), "b".to_string(), "a".to_string()];
    assert_eq!(find_in(&list, "a"), Some(0));
    assert_eq!(find_in(&list, "b"), Some(1));
    assert_eq!(find_in(&list, "c"), None);
    assert_eq!(find_in(&Vec::new(), "a"), None);
}
