use microdot_core::graphviz::{
    dot, escape_id, escape_label, hashtag_signature, to_dot_label_string, HashState,
};

#[test]
fn converts_to_dot_label_string() {
    assert_eq!(r#""abc""#, to_dot_label_string("abc"));
    assert_eq!(r#""a\"bc""#, to_dot_label_string(r#"a"bc"#));
    assert_eq!(r#""a\nbc""#, to_dot_label_string("a\nbc"));
}

#[test]
fn escapes_html_codes_in_label() {
    assert_eq!(r#"abc"#, escape_label("abc"));
    assert_eq!(r#"foo &lt;bar&gt;"#, escape_label(r#"foo <bar>"#));
    assert_eq!(r#"a&amp;b"#, escape_label("a&b"));
}

#[test]
fn graphviz_escapes_label() {
    assert_eq!(r#""abc""#, to_dot_label_string("abc"));
    assert_eq!(r#""a\"bc""#, to_dot_label_string(r#"a"bc"#));
    assert_eq!(r#""a\nbc""#, to_dot_label_string("a\nbc"));
}

#[test]
fn graphviz_extracts_hashtags_right() {
    fn eq(a: &str, b: &str) {
        let ai = hashtag_signature(a);
        let bi = hashtag_signature(b);
        assert_eq!(
            ai, bi,
            "signatures are not the same for '{}' and '{}'",
            a, b
        )
    }

    fn ne(a: &str, b: &str) {
        let ai = hashtag_signature(a);
        let bi = hashtag_signature(b);
        assert_ne!(ai, bi, "signatures are the same for '{}' and '{}'", a, b)
    }

    assert_eq!(HashState::Absent, hashtag_signature("no hashtags here"));
    assert_ne!(HashState::Absent, hashtag_signature("hashtag! #HASH"));
    eq("a #HASH", "b #HASH");
    eq("#HASH a", "a #HASH");
    eq("#A #B", "#B #A");
    eq("#A #A", "#A");
    ne("#HASHA a", "a #HASHB");
}

#[test]
fn escapes_identifiers_and_dot_strings() {
    assert_eq!(escape_id("n1"), "\"n1\"");
    assert_eq!(escape_id("a\"b"), "\"a\\\"b\"");
    assert_eq!(dot("a\\b"), "a\\\\b");
    assert_eq!(dot("say \"hi\"\nnow"), "say \\\"hi\\\"\\nnow");
}

#[test]
fn templates_are_filled_one_variable_after_the_other() {
    let variables = vec![
        ("from".to_string(), "\"n1\"".to_string()),
        ("to".to_string(), "\"n2\"".to_string()),
    ];
    assert_eq!(
        microdot_core::graphviz::template("    ${from} -> ${to}; ${from} ${other} $from {to}", &variables),
        "    \"n1\" -> \"n2\"; \"n1\" ${other} $from {to}"
    );
    let chained = vec![
        ("a".to_string(), "${b}".to_string()),
        ("b".to_string(), "done".to_string()),
    ];
    assert_eq!(microdot_core::graphviz::template("${a}${a}", &chained), "donedone");
    assert_eq!(microdot_core::graphviz::template("", &chained), "");
}
