use dtab::{Elem, Label, LabelError, Path, Prefix};

fn label(s: &str) -> Label {
    Label::try_from(s).unwrap()
}

#[test]
fn path_path_slash_operator() {
    let path = Path::from_bytes(b"aaaa").div(b"bbbb");
    assert_eq!(String::from_utf8(path.render()).unwrap(), "/aaaa/bbbb");
}

#[test]
fn mod_path_slash_operator() {
    let path = Path::from_bytes(b"aaaa").div(b"bbbb");
    assert_eq!(path.render(), b"/aaaa/bbbb".to_vec());
}

#[test]
fn path_append_and_extend_keep_order() {
    let mut path = Path::from_bytes(b"a");
    assert!(path.append(b"b").is_ok());
    path.extend(&vec![b"c".to_vec(), b"d".to_vec()]);
    assert_eq!(path.render(), b"/a/b/c/d".to_vec());
}

#[test]
fn prefix_test_parse_1() {
    let prefix = Prefix::try_from("/foo/bar/baz").unwrap();
    assert_eq!(
        prefix,
        Prefix::from_elems(vec![
            Elem::Label(label("foo")),
            Elem::Label(label("bar")),
            Elem::Label(label("baz")),
        ])
    )
}

#[test]
fn prefix_test_parse_2() {
    let prefix = Prefix::try_from("/foo/*/bar/baz").unwrap();
    assert_eq!(
        prefix,
        Prefix::from_elems(vec![
            Elem::Label(label("foo")),
            Elem::AnyElem,
            Elem::Label(label("bar")),
            Elem::Label(label("baz")),
        ])
    )
}

#[test]
fn prefix_test_parse_empty() {
    let prefix = Prefix::try_from("/").unwrap();
    assert_eq!(prefix, Prefix::from_elems(vec![]))
}

#[test]
fn degenerate_prefixes_are_empty_and_render_empty() {
    let empty = Prefix::from_elems(vec![]);
    assert_eq!(Prefix::try_from("").unwrap(), empty);
    assert_eq!(Prefix::try_from("/").unwrap(), empty);
    assert_eq!(Prefix::try_from("//").unwrap(), empty);
    assert_eq!(empty.render(), "");
}

#[test]
fn prefix_round_trips() {
    for text in ["/foo", "/foo/*/bar", "/a:b/c.d/#$%_-", "/\\x2fa/b"] {
        assert_eq!(Prefix::try_from(text).unwrap().render(), text);
    }
}

#[test]
fn prefix_drops_empty_segments() {
    let prefix = Prefix::try_from("foo//bar/").unwrap();
    assert_eq!(prefix.render(), "/foo/bar");
}

#[test]
fn label_with_space_is_invalid_character() {
    assert_eq!(
        Label::try_from("ice cream"),
        Err(LabelError::InvalidCharacter { ch: ' ', at: 3, elem: "ice cream".to_string() })
    );
}

#[test]
fn label_with_accent_is_non_ascii() {
    assert_eq!(
        Label::try_from("caf\u{e9}"),
        Err(LabelError::NonAscii { ch: '\u{e9}', at: 3 })
    );
}

#[test]
fn non_ascii_is_reported_before_invalid_character() {
    assert_eq!(
        Label::try_from("a b\u{e9}"),
        Err(LabelError::NonAscii { ch: '\u{e9}', at: 3 })
    );
}

#[test]
fn label_escapes() {
    assert!(Label::try_from("\\x4f").is_ok());
    assert_eq!(
        Label::try_from("ab\\x4"),
        Err(LabelError::InvalidCharacter { ch: '\\', at: 2, elem: "ab\\x4".to_string() })
    );
    assert_eq!(
        Label::try_from("*"),
        Err(LabelError::InvalidCharacter { ch: '*', at: 0, elem: "*".to_string() })
    );
}

#[test]
fn elem_wildcard_and_label() {
    assert_eq!(Elem::try_from("*").unwrap(), Elem::AnyElem);
    assert_eq!(Elem::try_from("foo").unwrap().as_str(), "foo");
}

#[test]
fn prefix_reports_first_bad_segment() {
    assert_eq!(
        Prefix::try_from("/ok/b@d/\u{e9}"),
        Err(LabelError::InvalidCharacter { ch: '@', at: 1, elem: "b@d".to_string() })
    );
}

#[test]
fn non_ascii_check() {
    assert_eq!(LabelError::non_ascii("abc"), Ok("abc"));
    assert_eq!(
        LabelError::non_ascii("a\u{e9}b\u{e8}"),
        Err(LabelError::NonAscii { ch: '\u{e9}', at: 1 })
    );
}

#[test]
fn invalid_char_check() {
    assert_eq!(LabelError::invalid_char("a-b_c"), Ok("a-b_c"));
    assert_eq!(
        LabelError::invalid_char("a/b"),
        Err(LabelError::InvalidCharacter { ch: '/', at: 1, elem: "a/b".to_string() })
    );
}

#[test]
fn label_error_message_with_given_quotes() {
    let e = LabelError::InvalidCharacter { ch: ' ', at: 3, elem: "ice cream".to_string() };
    assert_eq!(
        e.message_with("' '", "\"ice cream\""),
        "Invalid character ' ' at position 3 in \"ice cream\"."
    );
    let e = LabelError::NonAscii { ch: '\u{e9}', at: 12 };
    assert_eq!(e.message_with("<e>", ""), "Non-ASCII character <e> at position 12.");
}

#[test]
fn label_error_messages() {
    let e = Label::try_from("ice cream").unwrap_err();
    assert_eq!(e.message(), "Invalid character ' ' at position 3 in \"ice cream\".");
    assert_eq!(e.description(), "invalid character");
    let e = Label::try_from("caf\u{e9}").unwrap_err();
    assert_eq!(e.message(), "Non-ASCII character '\u{e9}' at position 3.");
    assert_eq!(e.description(), "non-ASCII character");
}

#[test]
fn path_error_message() {
    let e = dtab::PathError::InvalidCharacter { ch: '\n', at: 0, elem: "\n".to_string() };
    assert_eq!(e.message(), "Invalid character '\\n' at position 0 in \"\\n\".");
}
