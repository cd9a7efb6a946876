use wanikani_tui::text::{join_ids, optional_join, strip_html};

#[test]
fn ids_are_joined_in_decimal_with_commas() {
    assert_eq!(join_ids(&[]), "");
    assert_eq!(join_ids(&[7]), "7");
    assert_eq!(join_ids(&[1, 22, 333, 0]), "1,22,333,0");
    assert_eq!(join_ids(&[u64::MAX]), "18446744073709551615");
}

#[test]
fn optional_join_says_none_for_nothing() {
    assert_eq!(optional_join(Vec::new()), "none");
    assert_eq!(optional_join(vec!["a".to_string()]), "a");
    assert_eq!(optional_join(vec!["a".to_string(), "b".to_string()]), "a, b");
}

#[test]
fn markup_is_rendered_as_plain_text() {
    assert_eq!(
        strip_html("The <radical>ground</radical> is &quot;flat&quot;."),
        "The ground is \"flat\"."
    );
    assert_eq!(strip_html("a &lt;b&gt; &amp; c&apos;s"), "a <b> & c's");
    assert_eq!(strip_html("&amp;lt;"), "<");
    assert_eq!(strip_html("unclosed <tag text"), "unclosed ");
    assert_eq!(strip_html("a > b"), "a  b");
}
