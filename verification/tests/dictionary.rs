use jisho::dictionary::{parse, read_entries, Entry};
use jisho::document::{element, field, members, text, JsonMember, JsonNode};

fn s(t: &str) -> JsonNode {
    JsonNode::Str(t.to_string())
}

fn arr(items: Vec<JsonNode>) -> JsonNode {
    JsonNode::Array(items)
}

fn obj(pairs: Vec<(&str, JsonNode)>) -> JsonNode {
    JsonNode::Object(
        pairs
            .into_iter()
            .map(|(k, v)| JsonMember { key: k.to_string(), value: v })
            .collect(),
    )
}

fn wide(t: &str) -> Vec<u16> {
    t.encode_utf16().collect()
}

fn sample_reply() -> JsonNode {
    obj(vec![
        ("meta", obj(vec![("status", JsonNode::Number { positive: true, mantissa: 200, exponent: 0 })])),
        (
            "data",
            arr(vec![
                obj(vec![
                    ("slug", s("辞書")),
                    ("japanese", arr(vec![obj(vec![("word", s("辞書")), ("reading", s("じしょ"))])])),
                    (
                        "senses",
                        arr(vec![
                            obj(vec![
                                ("english_definitions", arr(vec![s("dictionary"), s("lexicon")])),
                                ("tags", arr(vec![s("Noun")])),
                                ("see_also", arr(vec![])),
                                ("info", arr(vec![])),
                            ]),
                            obj(vec![
                                ("english_definitions", arr(vec![s("glossary")])),
                                ("tags", arr(vec![])),
                                ("see_also", arr(vec![s("用語集")])),
                                ("info", arr(vec![s("rare")])),
                            ]),
                        ]),
                    ),
                ]),
                obj(vec![
                    ("japanese", arr(vec![obj(vec![("reading", s("じてん"))])])),
                    ("senses", arr(vec![])),
                ]),
            ]),
        ),
    ])
}

#[test]
fn parse_reads_every_result_in_order() {
    let reply = sample_reply();
    let entries: Vec<Entry> = read_entries(Some(&reply));
    assert_eq!(entries.len(), 2);
    assert_eq!(entries[0].kanji, wide("辞書"));
    assert_eq!(entries[0].reading, wide("じしょ"));
    assert_eq!(entries[0].senses.len(), 2);
    assert_eq!(entries[0].senses[0].defs, vec![wide("dictionary"), wide("lexicon")]);
    assert_eq!(entries[0].senses[0].tags, vec![wide("Noun")]);
    assert!(entries[0].senses[0].see_also.is_empty());
    assert!(entries[0].senses[0].info.is_empty());
    assert_eq!(entries[0].senses[1].defs, vec![wide("glossary")]);
    assert_eq!(entries[0].senses[1].see_also, vec![wide("用語集")]);
    assert_eq!(entries[0].senses[1].info, vec![wide("rare")]);
}

#[test]
fn parse_missing_word_gives_empty_text() {
    let reply = sample_reply();
    let entries = read_entries(Some(&reply));
    assert!(entries[1].kanji.is_empty());
    assert_eq!(entries[1].reading, wide("じてん"));
    assert!(entries[1].senses.is_empty());
}

#[test]
fn parse_of_unparsed_reply_is_empty() {
    assert!(read_entries(None).is_empty());
}

#[test]
fn parse_without_data_array_is_empty() {
    assert!(read_entries(Some(&obj(vec![("data", s("none"))]))).is_empty());
    assert!(read_entries(Some(&arr(vec![sample_reply()]))).is_empty());
    assert!(read_entries(Some(&JsonNode::Null)).is_empty());
}

#[test]
fn parse_non_string_texts_are_empty() {
    let reply = obj(vec![(
        "data",
        arr(vec![obj(vec![
            ("japanese", arr(vec![obj(vec![("word", JsonNode::Boolean(true)), ("reading", JsonNode::Null)])])),
            ("senses", arr(vec![obj(vec![("english_definitions", arr(vec![JsonNode::Number { positive: false, mantissa: 5, exponent: -1 }, s("x")]))])])),
        ])]),
    )]);
    let entries = read_entries(Some(&reply));
    assert_eq!(entries.len(), 1);
    assert!(entries[0].kanji.is_empty());
    assert!(entries[0].reading.is_empty());
    assert_eq!(entries[0].senses[0].defs, vec![vec![], wide("x")]);
    assert!(entries[0].senses[0].tags.is_empty());
}

#[test]
fn texts_are_cut_at_a_nul_and_hold_none() {
    let reply = obj(vec![(
        "data",
        arr(vec![obj(vec![("japanese", arr(vec![obj(vec![("word", s("ab\u{0}cd")), ("reading", s("\u{0}x"))])]))])]),
    )]);
    let entries = read_entries(Some(&reply));
    assert_eq!(entries[0].kanji, vec![0x61, 0x62]);
    assert!(entries[0].reading.is_empty());
    assert!(!entries[0].kanji.contains(&0));
}

#[test]
fn texts_outside_the_basic_plane_become_surrogate_pairs() {
    let reply = obj(vec![(
        "data",
        arr(vec![obj(vec![("japanese", arr(vec![obj(vec![("word", s("𠮷野"))])]))])]),
    )]);
    let entries = read_entries(Some(&reply));
    assert_eq!(entries[0].kanji, vec![0xD842, 0xDFB7, 0x91CE]);
}

#[test]
fn only_the_first_japanese_form_is_read() {
    let reply = obj(vec![(
        "data",
        arr(vec![obj(vec![(
            "japanese",
            arr(vec![obj(vec![("word", s("一"))]), obj(vec![("word", s("二"))])]),
        )])]),
    )]);
    assert_eq!(read_entries(Some(&reply))[0].kanji, wide("一"));
}

#[test]
fn field_takes_the_first_pair_with_the_key() {
    let v = obj(vec![("k", s("first")), ("k", s("second"))]);
    assert_eq!(text(field(Some(&v), "k")), "first");
    assert!(field(Some(&v), "missing").is_none());
    assert!(field(Some(&s("k")), "k").is_none());
}

#[test]
fn element_and_members_follow_arrays_only() {
    let v = arr(vec![s("a"), s("b")]);
    assert_eq!(text(element(Some(&v), 1)), "b");
    assert!(element(Some(&v), 2).is_none());
    assert!(element(Some(&s("a")), 0).is_none());
    assert_eq!(members(Some(&v)).len(), 2);
    assert!(members(Some(&s("a"))).is_empty());
    assert!(members(None).is_empty());
    assert_eq!(text(None), "");
    assert_eq!(text(Some(&JsonNode::Boolean(false))), "");
}

const REPLY: &str = r#"{
  "meta": {"status": 200},
  "data": [
    {"slug": "辞書",
     "japanese": [{"word": "辞書", "reading": "じしょ"}, {"word": "字書"}],
     "senses": [
       {"english_definitions": ["dictionary", "lexicon"], "tags": ["Noun"], "see_also": [], "info": []},
       {"english_definitions": ["glossary"], "parts_of_speech": [], "see_also": ["用語集"], "info": ["rare"]}
     ]},
    {"japanese": [{"reading": "じてん"}], "senses": []},
    {"japanese": [{"word": 5, "reading": null}], "senses": [{"tags": "Noun", "english_definitions": [1.5, "x\u0000y"]}]}
  ]
}"#;

#[test]
fn parse_reads_the_reply_text() {
    let (entries, error) = parse(REPLY);
    assert!(error.is_none());
    assert_eq!(entries.len(), 3);
    assert_eq!(entries[0].kanji, wide("辞書"));
    assert_eq!(entries[0].reading, wide("じしょ"));
    assert_eq!(entries[0].senses.len(), 2);
    assert_eq!(entries[0].senses[0].defs, vec![wide("dictionary"), wide("lexicon")]);
    assert_eq!(entries[0].senses[0].tags, vec![wide("Noun")]);
    assert!(entries[0].senses[1].tags.is_empty());
    assert_eq!(entries[0].senses[1].see_also, vec![wide("用語集")]);
    assert_eq!(entries[0].senses[1].info, vec![wide("rare")]);
    assert!(entries[1].kanji.is_empty());
    assert_eq!(entries[1].reading, wide("じてん"));
    assert!(entries[2].kanji.is_empty() && entries[2].reading.is_empty());
    assert!(entries[2].senses[0].tags.is_empty());
    assert_eq!(entries[2].senses[0].defs, vec![vec![], wide("x")]);
}

#[test]
fn parse_of_text_that_is_not_json_gives_an_error_and_no_entries() {
    let (entries, error) = parse("{\"data\": [");
    assert!(entries.is_empty());
    assert!(error.is_some());
    let (entries, error) = parse("<html>Bad gateway</html>");
    assert!(entries.is_empty());
    assert!(!error.unwrap().is_empty());
}

#[test]
fn parse_of_json_without_data_gives_no_entries() {
    assert_eq!(parse("{\"meta\": {}}").0.len(), 0);
    assert_eq!(parse("[1, 2]").0.len(), 0);
    assert!(parse("null").1.is_none());
}

#[test]
fn parse_text_matches_reading_the_same_document() {
    let doc = obj(vec![(
        "data",
        arr(vec![obj(vec![("japanese", arr(vec![obj(vec![("word", s("犬")), ("reading", s("いぬ"))])]))])]),
    )]);
    let from_tree = read_entries(Some(&doc));
    let (from_text, _) = parse(r#"{"data":[{"japanese":[{"word":"犬","reading":"いぬ"}]}]}"#);
    assert_eq!(from_tree.len(), from_text.len());
    assert_eq!(from_tree[0].kanji, from_text[0].kanji);
    assert_eq!(from_tree[0].reading, from_text[0].reading);
}
