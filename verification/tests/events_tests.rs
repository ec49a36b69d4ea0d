use lol_scrim_exporter::events::{
    banned_champions, decode_events, extract_banned_champions, kind_named, parse_event_log, Event,
    EventKind,
};

const LOG: &str = r#"[
  {"node": {"type": "team-banned-character", "sentenceChunks": [{"text": "Blue"}, {"text": "banned"}, {"text": "Ahri"}]}},
  {"node": {"type": "team-picked-character", "sentenceChunks": [{"text": "Blue"}, {"text": "picked"}, {"text": "Zed"}]}},
  {"node": {"type": "team-banned-character", "sentenceChunks": [{"text": "Red"}, {"text": "banned"}, {"text": "Lux"}, {"text": "!"}]}},
  {"node": {"type": "grid-validated-series", "sentenceChunks": []}}
]"#;

#[test]
fn extract_banned_champions_reads_the_third_chunk_of_each_ban() {
    assert_eq!(extract_banned_champions(LOG), vec!["Ahri".to_string(), "Lux".to_string()]);
}

#[test]
fn extract_banned_champions_of_a_text_that_is_no_event_list_is_empty() {
    assert!(extract_banned_champions("").is_empty());
    assert!(extract_banned_champions("not json").is_empty());
    assert!(extract_banned_champions("null").is_empty());
    assert!(extract_banned_champions("{}").is_empty());
    assert!(extract_banned_champions("[]").is_empty());
    assert!(extract_banned_champions(r#"{"node": {"type": "team-banned-character"}}"#).is_empty());
}

#[test]
fn extract_banned_champions_skips_malformed_bans() {
    let log = r#"[
      {"node": {"type": "team-banned-character", "sentenceChunks": [{"text": "Blue"}, {"text": "banned"}]}},
      {"node": {"type": "team-banned-character", "sentenceChunks": [{"text": "Blue"}, {"text": "banned"}, {"strikethrough": false}]}},
      {"node": {"type": "team-banned-character", "sentenceChunks": [{"text": "Blue"}, {"text": "banned"}, {"text": 5}]}},
      {"node": {"type": "team-banned-character", "sentenceChunks": {"text": "Ahri"}}},
      {"node": {"type": "team-banned-character"}},
      {"node": {"type": 7, "sentenceChunks": [{"text": "a"}, {"text": "b"}, {"text": "Ahri"}]}},
      {"node": {"sentenceChunks": [{"text": "a"}, {"text": "b"}, {"text": "Ahri"}]}},
      {"type": "team-banned-character", "sentenceChunks": [{"text": "a"}, {"text": "b"}, {"text": "Ahri"}]},
      "team-banned-character",
      {"node": {"type": "team-banned-character", "sentenceChunks": [{}, 1, {"text": "Zed"}]}}
    ]"#;
    assert_eq!(extract_banned_champions(log), vec!["Zed".to_string()]);
}

#[test]
fn parse_event_log_decodes_kinds_and_chunks() {
    let events = parse_event_log(LOG);
    assert_eq!(events.len(), 4);
    assert_eq!(events[0].kind, EventKind::TeamBannedCharacter);
    assert_eq!(
        events[0].chunks,
        vec![Some("Blue".to_string()), Some("banned".to_string()), Some("Ahri".to_string())]
    );
    assert_eq!(events[1].kind, EventKind::TeamPickedCharacter);
    assert_eq!(events[2].chunks.len(), 4);
    assert_eq!(events[3].kind, EventKind::GridValidatedSeries);
    assert!(events[3].chunks.is_empty());
}

#[test]
fn decode_events_keeps_one_event_for_each_edge() {
    let doc = serde_json::from_str::<serde_json::Value>(
        r#"[{"node": {"type": "other", "sentenceChunks": [{"text": "a"}, {}]}}, 5, {"node": 1}]"#,
    )
    .unwrap();
    let events = decode_events(&doc);
    assert_eq!(events.len(), 3);
    assert_eq!(events[0].kind, EventKind::Other);
    assert_eq!(events[0].chunks, vec![Some("a".to_string()), None]);
    assert_eq!(events[1].kind, EventKind::Other);
    assert!(events[1].chunks.is_empty());
    assert_eq!(events[2].kind, EventKind::Other);
    let no_list = serde_json::from_str::<serde_json::Value>(r#"{"edges": []}"#).unwrap();
    assert!(decode_events(&no_list).is_empty());
}

#[test]
fn kind_named_knows_the_three_kinds() {
    assert_eq!(kind_named("team-banned-character"), EventKind::TeamBannedCharacter);
    assert_eq!(kind_named("team-picked-character"), EventKind::TeamPickedCharacter);
    assert_eq!(kind_named("grid-validated-series"), EventKind::GridValidatedSeries);
    assert_eq!(kind_named("team-banned-characters"), EventKind::Other);
    assert_eq!(kind_named(""), EventKind::Other);
}

#[test]
fn banned_champions_is_a_function_of_the_events() {
    let events = vec![
        Event {
            kind: EventKind::TeamBannedCharacter,
            chunks: vec![None, None, Some("Ahri".to_string())],
        },
        Event {
            kind: EventKind::TeamPickedCharacter,
            chunks: vec![None, None, Some("Zed".to_string())],
        },
        Event { kind: EventKind::TeamBannedCharacter, chunks: vec![None, None, None] },
        Event { kind: EventKind::TeamBannedCharacter, chunks: vec![Some("Lux".to_string())] },
        Event {
            kind: EventKind::TeamBannedCharacter,
            chunks: vec![Some("a".to_string()), Some("b".to_string()), Some("Ahri".to_string())],
        },
    ];
    assert_eq!(banned_champions(&events), vec!["Ahri".to_string(), "Ahri".to_string()]);
    assert!(banned_champions(&Vec::new()).is_empty());
}
