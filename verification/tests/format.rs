use zetmemo::escape::{html_safe, markdown_safe};
use zetmemo::generation::{extract_answer, generation_request_body, GenerationError};
use zetmemo::note::{assemble_note, parse_note, Dialect};
use zetmemo::storage::storage_key;
use zetmemo::tags::{join_tags, tags_parse};
use zetmemo::timestamp::Timestamp;

fn ts() -> Timestamp {
    Timestamp::new(2024, 1, 2, 3, 4, 5, 678).unwrap()
}

#[test]
fn html_escaping_single_pass() {
    assert_eq!(html_safe("<b>&"), "&ltb&gt&amp");
}

#[test]
fn html_escaping_leaves_plain_text() {
    assert_eq!(html_safe("milk and eggs"), "milk and eggs");
    assert_eq!(html_safe(""), "");
}

#[test]
fn markdown_escaping_hash() {
    assert_eq!(markdown_safe("#one two"), "\\#one two");
    assert_eq!(markdown_safe("plain"), "plain");
}

#[test]
fn tag_normalization() {
    let tags = tags_parse("Cat, dog.food, multi word".to_string());
    assert_eq!(tags, vec!["#Cat", "#dogfood", "#multi_word"]);
    assert_eq!(join_tags(&tags), "#Cat #dogfood #multi_word");
}

#[test]
fn tag_normalization_empty_input() {
    let tags = tags_parse("".to_string());
    assert_eq!(tags, vec!["#"]);
}

#[test]
fn storage_key_deterministic() {
    assert_eq!(storage_key(123, &ts()), "/123/20240102030405.678Z.md");
}

#[test]
fn storage_key_negative_chat() {
    assert_eq!(storage_key(-5, &ts()), "/-5/20240102030405.678Z.md");
}

#[test]
fn storage_keys_of_two_chats_differ() {
    let other = Timestamp::new(2024, 1, 2, 3, 4, 5, 678).unwrap();
    assert_ne!(storage_key(123, &ts()), storage_key(124, &other));
    assert_ne!(storage_key(1, &ts()), storage_key(-1, &other));
}

#[test]
fn timestamp_rejects_out_of_range_fields() {
    assert!(Timestamp::new(2024, 13, 2, 3, 4, 5, 678).is_none());
    assert!(Timestamp::new(2024, 0, 2, 3, 4, 5, 678).is_none());
    assert!(Timestamp::new(2024, 1, 32, 3, 4, 5, 678).is_none());
    assert!(Timestamp::new(2024, 1, 2, 24, 4, 5, 678).is_none());
    assert!(Timestamp::new(2024, 1, 2, 3, 60, 5, 678).is_none());
    assert!(Timestamp::new(2024, 1, 2, 3, 4, 60, 678).is_none());
    assert!(Timestamp::new(2024, 1, 2, 3, 4, 5, 1000).is_none());
    assert!(Timestamp::new(10000, 1, 2, 3, 4, 5, 678).is_none());
}

#[test]
fn note_round_trip() {
    let note = assemble_note(
        Dialect::Html,
        &Some("Shopping list".to_string()),
        &ts(),
        "milk & eggs",
        "#groceries",
    );
    assert_eq!(note, "<b>Shopping list</b>\n\nmilk & eggs\n\n#groceries");
    let (title, body, tags) = parse_note(&note).unwrap();
    assert_eq!(title, "Shopping list");
    assert_eq!(body, "milk & eggs");
    assert_eq!(tags, "#groceries");
}

#[test]
fn note_round_trip_body_with_blank_lines() {
    let note = assemble_note(
        Dialect::Html,
        &Some("Title".to_string()),
        &ts(),
        "first\n\nsecond",
        "#a #b",
    );
    let (title, body, tags) = parse_note(&note).unwrap();
    assert_eq!(title, "Title");
    assert_eq!(body, "first\n\nsecond");
    assert_eq!(tags, "#a #b");
}

#[test]
fn note_without_title_uses_placeholder_heading() {
    let note = assemble_note(Dialect::Html, &None, &ts(), "body", "#t");
    assert_eq!(
        note,
        "<b>memo</b> <code>20240102030405.678Z</code>\n\nbody\n\n#t"
    );
}

#[test]
fn note_markdown_dialect() {
    let note = assemble_note(
        Dialect::MarkdownV2,
        &Some("Title".to_string()),
        &ts(),
        "body",
        "\\#t",
    );
    assert_eq!(note, "*Title*\n\nbody\n\n\\#t");
}

#[test]
fn parse_note_rejects_foreign_text() {
    assert!(parse_note("no bold title here").is_none());
    assert!(parse_note("<b>title</b> but no blank lines").is_none());
}

#[test]
fn extract_answer_strips_double_quotes() {
    let out = extract_answer("{\"answer\": \"a \\\"quoted\\\" word\"}").unwrap();
    assert_eq!(out, "a quoted word");
}

#[test]
fn extract_answer_plain() {
    let out = extract_answer("{\"answer\": \"My short title\", \"other\": 1}").unwrap();
    assert_eq!(out, "My short title");
}

#[test]
fn extract_answer_rejects_malformed_responses() {
    assert_eq!(extract_answer("not json at all"), Err(GenerationError::MalformedAnswer));
    assert_eq!(extract_answer("{}"), Err(GenerationError::MalformedAnswer));
    assert_eq!(extract_answer("{\"answer\": 5}"), Err(GenerationError::MalformedAnswer));
    assert_eq!(extract_answer("{\"answer\": null}"), Err(GenerationError::MalformedAnswer));
}

#[test]
fn html_escaping_does_not_reescape_its_own_output_entities() {
    // a single pass: the '&' of an entity already present is escaped once
    assert_eq!(html_safe("&amp"), "&ampamp");
}

#[test]
fn tag_normalization_trims_all_surrounding_whitespace() {
    let tags = tags_parse("\n a b ,c.\t".to_string());
    assert_eq!(tags, vec!["#a_b", "#c"]);
}

#[test]
fn tag_normalization_trims_unicode_whitespace() {
    let tags = tags_parse("\u{000B}a,\u{00A0}b\u{3000},\u{2003}c\u{2028}".to_string());
    assert_eq!(tags, vec!["#a", "#b", "#c"]);
    // the same trimming as str::trim performs
    for piece in "\u{000B}a,\u{00A0}b\u{3000},\u{2003}c\u{2028}".split(',') {
        assert!(tags.contains(&format!("#{}", piece.trim())));
    }
}

#[test]
fn request_body_escapes_control_characters() {
    let body = generation_request_body("s", "a\u{1}b");
    assert_eq!(
        body,
        "{\"messages\":[{\"role\":\"system\",\"content\":\"s\"},{\"role\":\"user\",\"content\":\"a\\u0001b\"}]}"
    );
    let parsed: serde_json::Value = serde_json::from_str(&body).unwrap();
    assert_eq!(parsed["messages"][1]["content"], "a\u{1}b");
}

#[test]
fn extract_answer_of_only_quotes_is_empty() {
    let out = extract_answer("{\"answer\": \"\\\"\\\"\"}").unwrap();
    assert_eq!(out, "");
}

#[test]
fn now_timestamp_is_well_formed() {
    let t = zetmemo::timestamp::now_timestamp().unwrap();
    assert!(t.year >= 2024 && t.year <= 9999);
    assert!((1..=12).contains(&t.month));
    assert!((1..=31).contains(&t.day));
    assert!(t.hour <= 23 && t.minute <= 59 && t.second <= 59 && t.millisecond <= 999);
    let key = storage_key(1, &t);
    assert!(key.starts_with("/1/"));
    assert!(key.ends_with("Z.md"));
}

#[test]
fn request_body_is_valid_json_with_exact_shape() {
    let body = generation_request_body("sys prompt", "say \"hi\"\nplease");
    assert_eq!(
        body,
        "{\"messages\":[{\"role\":\"system\",\"content\":\"sys prompt\"},{\"role\":\"user\",\"content\":\"say \\\"hi\\\"\\nplease\"}]}"
    );
    let parsed: serde_json::Value = serde_json::from_str(&body).unwrap();
    assert_eq!(parsed["messages"][0]["role"], "system");
    assert_eq!(parsed["messages"][0]["content"], "sys prompt");
    assert_eq!(parsed["messages"][1]["role"], "user");
    assert_eq!(parsed["messages"][1]["content"], "say \"hi\"\nplease");
}
