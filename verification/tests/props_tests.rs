//! The wrapper properties reader: comments, blank lines, the first `=`
//! split, colon unescaping, malformed lines, and last-entry-wins lookup.
use javabox::props::parse_properties;

#[test]
fn parses_entries_comments_and_malformed_lines() {
    let text = "# comment\n\nkey=value\nbad\nurl=https\\://host/x\nkey=value2\n";
    let p = parse_properties(text);
    assert_eq!(3, p.pairs.len());
    assert_eq!(("key".to_string(), "value".to_string()), p.pairs[0]);
    assert_eq!(("url".to_string(), "https://host/x".to_string()), p.pairs[1]);
    assert_eq!(("key".to_string(), "value2".to_string()), p.pairs[2]);
    assert_eq!(1, p.malformed);
}

#[test]
fn last_entry_wins() {
    let p = parse_properties("key=first\nkey=second");
    assert_eq!(Some(&"second".to_string()), p.get("key"));
    assert_eq!(None, p.get("missing"));
}

#[test]
fn splits_at_first_equals_only() {
    let p = parse_properties("a=b=c");
    assert_eq!(Some(&"b=c".to_string()), p.get("a"));
}

#[test]
fn trims_lines_but_not_inner_spaces() {
    let p = parse_properties("  key=value  \r\n");
    // the line is trimmed before the split; inner spaces would stay
    assert_eq!(Some(&"value".to_string()), p.get("key"));
}

#[test]
fn trims_all_unicode_white_space() {
    // a form feed before the key and a no-break space after the value are
    // trimmed, and a line of em spaces is blank
    let p = parse_properties("\u{000c}key=value\u{00a0}\n\u{2003}\u{2003}\n");
    assert_eq!(Some(&"value".to_string()), p.get("key"));
    assert_eq!(1, p.pairs.len());
    assert_eq!(0, p.malformed);
}

#[test]
fn empty_text_has_no_entries() {
    let p = parse_properties("");
    assert_eq!(0, p.pairs.len());
    assert_eq!(0, p.malformed);
}

#[test]
fn comment_only_after_trim_is_skipped() {
    let p = parse_properties("   # indented comment\nx=1");
    assert_eq!(1, p.pairs.len());
    assert_eq!(Some(&"1".to_string()), p.get("x"));
}
