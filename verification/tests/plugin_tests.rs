use wordcomplete::edit::Edit;
use wordcomplete::logpath::{generate_logging_path, get_logging_directory_path, PathError};
use wordcomplete::plugin::SamplePlugin;

fn apply_edit(doc: &str, edit: &Edit) -> String {
    assert!(edit.start <= edit.end);
    assert!(edit.end <= edit.base_len);
    assert_eq!(doc.len(), edit.base_len);
    let mut out = String::new();
    out.push_str(&doc[..edit.start]);
    out.push_str(&edit.text);
    out.push_str(&doc[edit.end..]);
    out
}

#[test]
fn scanner_word_at_end_of_line() {
    let (start, word) = SamplePlugin::get_word_at_offset("hello world!", 0, 11);
    assert_eq!(start, 6);
    assert_eq!(word, "world");
}

#[test]
fn scanner_offset_at_line_start() {
    let (start, word) = SamplePlugin::get_word_at_offset("hello", 10, 10);
    assert_eq!(start, 10);
    assert_eq!(word, "");
}

#[test]
fn scanner_no_whitespace_before_offset() {
    let (start, word) = SamplePlugin::get_word_at_offset("hello", 0, 4);
    assert_eq!(start, 0);
    assert_eq!(word, "hell");
}

#[test]
fn scanner_after_repeated_whitespace() {
    let (start, word) = SamplePlugin::get_word_at_offset("a  b", 0, 4);
    assert_eq!(start, 3);
    assert_eq!(word, "b");
}

#[test]
fn scanner_whitespace_ending_at_offset() {
    let (start, word) = SamplePlugin::get_word_at_offset("ab ", 0, 3);
    assert_eq!(start, 3);
    assert_eq!(word, "");
}

#[test]
fn scanner_counts_bytes_not_chars() {
    // "héllo wörld": the multi-byte characters shift the byte offsets.
    let line = "h\u{e9}llo w\u{f6}rld";
    assert_eq!(line.len(), 13);
    let (start, word) = SamplePlugin::get_word_at_offset(line, 0, 13);
    assert_eq!(start, 7);
    assert_eq!(word, "w\u{f6}rld");
}

#[test]
fn scanner_with_nonzero_line_start() {
    let (start, word) = SamplePlugin::get_word_at_offset("one two", 100, 107);
    assert_eq!(start, 104);
    assert_eq!(word, "two");
}

#[test]
fn update_acts_only_on_bang_insertion() {
    assert_eq!(SamplePlugin::update_action(Some("!"), 11), Some(11));
    assert_eq!(SamplePlugin::update_action(Some("a"), 11), None);
    assert_eq!(SamplePlugin::update_action(Some("!!"), 11), None);
    assert_eq!(SamplePlugin::update_action(Some(""), 11), None);
    assert_eq!(SamplePlugin::update_action(None, 11), None);
}

#[test]
fn complete_word_empty_query_yields_nothing() {
    let r = SamplePlugin::complete_word("", "foo foobar foo bar");
    assert!(r.is_empty());
}

#[test]
fn complete_word_excludes_token_equal_to_query() {
    let r = SamplePlugin::complete_word("foo", "foo foobar foo bar");
    assert_eq!(r, vec!["foobar".to_string()]);
}

#[test]
fn complete_word_sorts_and_deduplicates() {
    let r = SamplePlugin::complete_word("a", "ab aa ab a");
    assert_eq!(r, vec!["aa".to_string(), "ab".to_string()]);
}

#[test]
fn complete_word_splits_on_non_alphanumeric() {
    let r = SamplePlugin::complete_word("fo", "foo,fob!fo(42)");
    assert_eq!(r, vec!["fob".to_string(), "foo".to_string()]);
}

#[test]
fn complete_word_is_case_sensitive() {
    let r = SamplePlugin::complete_word("Fo", "Foos foos");
    assert_eq!(r, vec!["Foos".to_string()]);
}

#[test]
fn complete_word_result_is_sorted_without_duplicates() {
    let r = SamplePlugin::complete_word("t", "ten two three ten twenty two t tea");
    assert_eq!(
        r,
        vec![
            "tea".to_string(),
            "ten".to_string(),
            "three".to_string(),
            "twenty".to_string(),
            "two".to_string(),
        ]
    );
    for pair in r.windows(2) {
        assert!(pair[0] < pair[1]);
    }
}

#[test]
fn scanner_stops_at_tabs_and_other_whitespace() {
    let (start, word) = SamplePlugin::get_word_at_offset("one\ttwo", 0, 7);
    assert_eq!(start, 4);
    assert_eq!(word, "two");
    // A non-breaking space is whitespace too.
    let line = "a\u{a0}bc";
    assert_eq!(line.len(), 5);
    let (start, word) = SamplePlugin::get_word_at_offset(line, 0, 5);
    assert_eq!(start, 3);
    assert_eq!(word, "bc");
}

#[test]
fn complete_word_handles_multibyte_tokens() {
    let r = SamplePlugin::complete_word("h\u{e9}", "h\u{e9}llo h\u{e9} h\u{e9}ros");
    assert_eq!(r, vec!["h\u{e9}llo".to_string(), "h\u{e9}ros".to_string()]);
}

#[test]
fn complete_word_orders_by_scalar_value() {
    // 'b' sorts below '\u{e9}', matching byte order of the UTF-8 text.
    let r = SamplePlugin::complete_word("a", "a\u{e9} ab a");
    assert_eq!(r, vec!["ab".to_string(), "a\u{e9}".to_string()]);
}

#[test]
fn update_ignores_multibyte_single_char_insertion() {
    assert_eq!(SamplePlugin::update_action(Some("\u{e9}"), 4), None);
}

#[test]
fn capitalize_word_builds_uppercase_edit() {
    // Inserting "!" at the end of "hello world" triggers an edit that
    // replaces "world" with "WORLD".
    let doc = "hello world!";
    let edit = SamplePlugin::capitalize_word("hello world!", 0, 11, doc.len());
    assert_eq!(edit.start, 6);
    assert_eq!(edit.end, 11);
    assert_eq!(edit.text, "WORLD");
    assert_eq!(edit.base_len, doc.len());
    assert_eq!(apply_edit(doc, &edit), "hello WORLD!");
}

#[test]
fn capitalize_word_may_change_byte_length() {
    // Uppercasing can lengthen the text: the sharp s becomes "SS".
    let doc = "stra\u{df}e!";
    let edit = SamplePlugin::capitalize_word(doc, 0, 7, doc.len());
    assert_eq!(edit.start, 0);
    assert_eq!(edit.end, 7);
    assert_eq!(edit.text, "STRASSE");
    assert_eq!(apply_edit(doc, &edit), "STRASSE!");
}

#[test]
fn word_completions_pair_labels_with_edits() {
    let doc = "foo foobar foo bar";
    let items = SamplePlugin::word_completions("foo foobar foo bar", 0, 3, doc, doc.len());
    assert_eq!(items.len(), 1);
    assert_eq!(items[0].label, "foobar");
    let edit = items[0].edit.as_ref().unwrap();
    assert_eq!(edit.start, 0);
    assert_eq!(edit.end, 3);
    assert_eq!(edit.text, "foobar");
    assert_eq!(edit.base_len, doc.len());
    assert_eq!(apply_edit(doc, edit), "foobar foobar foo bar");
}

#[test]
fn word_completions_mid_document_offsets() {
    // Cursor after the "fo" that starts at byte 4; both prefix matches
    // come back, each with an edit over that word's span.
    let doc = "bar fo foam forty fo";
    let items = SamplePlugin::word_completions(doc, 0, 6, doc, doc.len());
    let labels: Vec<&str> = items.iter().map(|i| i.label.as_str()).collect();
    assert_eq!(labels, vec!["foam", "forty"]);
    for item in &items {
        let edit = item.edit.as_ref().unwrap();
        assert_eq!(edit.start, 4);
        assert_eq!(edit.end, 6);
        assert_eq!(edit.text, item.label);
    }
}

#[test]
fn completions_response_is_final_and_resolved() {
    let doc = "alpha alp";
    let response = SamplePlugin::completions(doc, 0, 9, doc, doc.len());
    assert!(!response.is_incomplete);
    assert!(!response.can_resolve);
    assert_eq!(response.items.len(), 1);
    assert_eq!(response.items[0].label, "alpha");
}

#[test]
fn completions_empty_query_gives_empty_items() {
    let doc = "alpha beta gamma";
    let response = SamplePlugin::completions(doc, 0, 0, doc, doc.len());
    assert!(!response.is_incomplete);
    assert!(!response.can_resolve);
    assert!(response.items.is_empty());
}

#[test]
fn logging_path_ends_with_fixed_components() {
    match generate_logging_path() {
        Ok(p) => assert!(p.ends_with("/xi-core/wordcomplete.log")),
        Err(e) => assert_eq!(e, PathError::NoDataDirectory),
    }
}

#[test]
fn logging_directory_ends_with_requested_directory() {
    match get_logging_directory_path("someplace") {
        Ok(p) => assert!(p.ends_with("/someplace")),
        Err(e) => assert_eq!(e, PathError::NoDataDirectory),
    }
}

#[test]
fn path_error_message_names_the_failure() {
    let e = PathError::NoDataDirectory;
    assert_eq!(
        e.message(),
        "No standard logging directory known for this platform"
    );
}
