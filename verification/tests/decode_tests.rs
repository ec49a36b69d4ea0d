use lol_scrim_exporter::decode::{
    decode_event_text, decode_listing, decode_node, decode_page_info, decode_series_state,
    decode_stats, decode_summary, final_scores, join_messages, read_event_text, read_listing,
    read_scores, read_summary, RemoteError,
};
use lol_scrim_exporter::remote::{SeriesState, SeriesTeam};
use serde_json::Value;

fn doc(text: &str) -> Value {
    serde_json::from_str::<Value>(text).unwrap()
}

const LISTING: &str = r#"{
  "data": {"allSeries": {
    "edges": [
      {"node": {"id": "2700001", "startTimeScheduled": "2024-03-01T10:00:00Z", "finished": true,
                "teams": [{"baseInfo": {"name": "Alpha", "logoUrl": "alpha.png", "id": "100"}},
                          {"baseInfo": {"name": "Beta", "id": "200"}}]}},
      {"node": {"id": "2700002", "teams": [{"baseInfo": null}]}},
      {"node": {"teams": "none"}},
      {}
    ],
    "pageInfo": {"hasNextPage": true, "endCursor": "cursor-1"}
  }}
}"#;

#[test]
fn read_listing_decodes_nodes_and_page_information() {
    let page = read_listing(LISTING).unwrap();
    assert_eq!(page.edges.len(), 4);
    let first = &page.edges[0].node;
    assert_eq!(first.id, "2700001");
    assert!(first.finished);
    assert_eq!(first.start_time_scheduled.as_deref(), Some("2024-03-01T10:00:00Z"));
    assert_eq!(first.teams.len(), 2);
    let alpha = first.teams[0].base_info.as_ref().unwrap();
    assert_eq!(alpha.name.as_deref(), Some("Alpha"));
    assert_eq!(alpha.logo_url.as_deref(), Some("alpha.png"));
    assert_eq!(alpha.id.as_deref(), Some("100"));
    let beta = first.teams[1].base_info.as_ref().unwrap();
    assert_eq!(beta.name.as_deref(), Some("Beta"));
    assert_eq!(beta.logo_url, None);
    assert_eq!(beta.id.as_deref(), Some("200"));
    let second = &page.edges[1].node;
    assert_eq!(second.id, "2700002");
    assert!(!second.finished);
    assert_eq!(second.start_time_scheduled, None);
    assert_eq!(second.teams.len(), 1);
    let nothing = second.teams[0].base_info.as_ref().unwrap();
    assert_eq!(nothing.id, None);
    assert_eq!(nothing.name, None);
    assert_eq!(nothing.logo_url, None);
    assert_eq!(page.edges[2].node.id, "");
    assert!(page.edges[2].node.teams.is_empty());
    assert_eq!(page.edges[3].node.id, "");
    assert!(page.page_info.has_next_page);
    assert_eq!(page.page_info.end_cursor.as_deref(), Some("cursor-1"));
}

#[test]
fn read_listing_reports_the_errors_of_the_service() {
    let body = r#"{"errors": ["first", {"message": "second"}, 3, "last"], "data": null}"#;
    match read_listing(body) {
        Err(RemoteError::Reported(message)) => {
            assert_eq!(message, r#"first, {"message":"second"}, 3, last"#)
        }
        other => panic!("unexpected result {:?}", other),
    }
    match read_listing(r#"{"errors": ["only"]}"#) {
        Err(RemoteError::Reported(message)) => assert_eq!(message, "only"),
        other => panic!("unexpected result {:?}", other),
    }
    match read_listing(r#"{"errors": []}"#) {
        Err(RemoteError::Reported(message)) => assert_eq!(message, ""),
        other => panic!("unexpected result {:?}", other),
    }
    assert!(matches!(
        read_listing(r#"{"errors": "down", "data": {"allSeries": {"edges": []}}}"#),
        Err(RemoteError::UnknownError)
    ));
}

#[test]
fn read_listing_needs_a_list_of_edges() {
    assert!(matches!(read_listing("{}"), Err(RemoteError::InvalidListing)));
    assert!(matches!(read_listing("[]"), Err(RemoteError::InvalidListing)));
    assert!(matches!(
        read_listing(r#"{"data": {"allSeries": {"edges": {}}}}"#),
        Err(RemoteError::InvalidListing)
    ));
    assert!(matches!(read_listing("<html>"), Err(RemoteError::NotJson)));
    assert!(matches!(read_listing(""), Err(RemoteError::NotJson)));
    let empty = read_listing(r#"{"data": {"allSeries": {"edges": []}}}"#).unwrap();
    assert!(empty.edges.is_empty());
    assert!(!empty.page_info.has_next_page);
    assert_eq!(empty.page_info.end_cursor, None);
}

#[test]
fn decode_listing_is_a_function_of_the_document() {
    let page = decode_listing(&doc(LISTING)).unwrap();
    assert_eq!(page.edges.len(), 4);
    assert_eq!(page.edges[0].node.id, "2700001");
}

#[test]
fn decode_node_reads_the_node_of_an_edge() {
    let node = decode_node(&doc(r#"{"node": {"id": "7", "finished": "yes", "teams": [1, {}]}}"#));
    assert_eq!(node.id, "7");
    assert!(!node.finished);
    assert_eq!(node.teams.len(), 2);
    assert!(node.teams[0].base_info.is_none());
    assert!(node.teams[1].base_info.is_none());
    let bare = decode_node(&doc(r#"{"id": "7"}"#));
    assert_eq!(bare.id, "");
}

#[test]
fn decode_page_info_defaults_to_the_last_page() {
    let info = decode_page_info(Some(&doc(r#"{"hasNextPage": true, "endCursor": "x"}"#)));
    assert!(info.has_next_page);
    assert_eq!(info.end_cursor.as_deref(), Some("x"));
    let wrong = decode_page_info(Some(&doc(r#"{"hasNextPage": "true", "endCursor": 5}"#)));
    assert!(!wrong.has_next_page);
    assert_eq!(wrong.end_cursor, None);
    let missing = decode_page_info(None);
    assert!(!missing.has_next_page);
    assert_eq!(missing.end_cursor, None);
}

#[test]
fn join_messages_separates_with_comma_and_space() {
    let errors = vec![doc("\"a\""), doc("null"), doc("[1, 2]"), doc("\"b\"")];
    assert_eq!(join_messages(&errors), "a, null, [1,2], b");
    assert_eq!(join_messages(&Vec::new()), "");
    assert_eq!(join_messages(&vec![doc("\"\""), doc("\"\"")]), ", ");
}

const STATE: &str = r#"{"data": {"seriesState": {"teams": [
  {"id": "100", "score": 2, "players": [{"id": "1", "name": "Faker"}]},
  {"id": "200", "score": 1, "players": []},
  {"id": "300", "score": 9}
]}}}"#;

#[test]
fn read_scores_takes_the_scores_of_the_first_two_teams() {
    assert!(matches!(read_scores(STATE), Ok((2, 1))));
    let state = decode_series_state(&doc(STATE)).unwrap();
    assert_eq!(state.teams.len(), 3);
    assert_eq!(state.teams[0].id.as_deref(), Some("100"));
    assert_eq!(state.teams[0].score, 2);
    assert_eq!(state.teams[2].score, 9);
    assert!(state.teams[0].base_info.is_none());
    let named = decode_series_state(&doc(
        r#"{"data": {"seriesState": {"teams": [{"id": "1", "baseInfo": {"name": "Alpha"}}]}}}"#,
    ))
    .unwrap();
    let info = named.teams[0].base_info.as_ref().unwrap();
    assert_eq!(info.name.as_deref(), Some("Alpha"));
    assert_eq!(info.id, None);
}

#[test]
fn read_scores_counts_a_missing_score_as_zero() {
    let body = r#"{"data": {"seriesState": {"teams": [{"id": "100"}, {"score": "3"}]}}}"#;
    assert!(matches!(read_scores(body), Ok((0, 0))));
    let fraction = r#"{"data": {"seriesState": {"teams": [{"score": 1.5}, {"score": -4}]}}}"#;
    assert!(matches!(read_scores(fraction), Ok((0, -4))));
}

#[test]
fn read_scores_needs_two_teams() {
    let one = r#"{"data": {"seriesState": {"teams": [{"id": "100", "score": 2}]}}}"#;
    assert!(matches!(read_scores(one), Err(RemoteError::NotEnoughTeams)));
    let none = r#"{"data": {"seriesState": {"teams": []}}}"#;
    assert!(matches!(read_scores(none), Err(RemoteError::NotEnoughTeams)));
    assert!(matches!(read_scores(r#"{"data": {}}"#), Err(RemoteError::InvalidSeriesState)));
    assert!(matches!(
        read_scores(r#"{"data": {"seriesState": null}}"#),
        Err(RemoteError::InvalidSeriesState)
    ));
    assert!(matches!(read_scores("oops"), Err(RemoteError::NotJson)));
}

#[test]
fn final_scores_cuts_scores_to_32_bits() {
    let state = SeriesState {
        teams: vec![
            SeriesTeam { id: None, score: 4294967298, base_info: None },
            SeriesTeam { id: None, score: -2147483649, base_info: None },
        ],
    };
    assert!(matches!(final_scores(&state), Ok((2, 2147483647))));
    let plain = SeriesState {
        teams: vec![
            SeriesTeam { id: None, score: 2147483647, base_info: None },
            SeriesTeam { id: None, score: -2147483648, base_info: None },
        ],
    };
    assert!(matches!(final_scores(&plain), Ok((2147483647, -2147483648))));
}

const SUMMARY: &str = r#"{"gameVersion": "14.3.558.1234", "participants": [
  {"summonerId": 12345, "riotIdGameName": "Faker", "championName": "Ahri", "kills": 3},
  {"summonerId": "abc", "championName": "Zed"},
  {"summonerId": -7, "riotIdGameName": 5},
  {"summonerId": 1.5}
]}"#;

#[test]
fn read_summary_decodes_the_patch_and_the_participants() {
    let summary = read_summary(SUMMARY).unwrap();
    assert_eq!(summary.game_version, "14.3.558.1234");
    assert_eq!(summary.participants.len(), 4);
    let first = &summary.participants[0];
    assert_eq!(first.player_id, "12345");
    assert_eq!(first.player_name, "Faker");
    assert_eq!(first.champion_name, "Ahri");
    let stats = doc(&first.stats_json);
    assert_eq!(stats.get("kills").and_then(|k| k.as_i64()), Some(3));
    assert_eq!(stats.get("championName").and_then(|k| k.as_str()), Some("Ahri"));
    assert!(!first.stats_json.contains(' '));
    let second = &summary.participants[1];
    assert_eq!(second.player_id, "");
    assert_eq!(second.player_name, "");
    assert_eq!(second.champion_name, "Zed");
    assert_eq!(summary.participants[2].player_id, "-7");
    assert_eq!(summary.participants[2].player_name, "");
    assert_eq!(summary.participants[2].champion_name, "");
    assert_eq!(summary.participants[3].player_id, "1.5");
    assert_eq!(summary.participants[3].stats_json, r#"{"summonerId":1.5}"#);
}

#[test]
fn read_summary_defaults_to_the_latest_patch_and_no_participants() {
    let summary = read_summary("{}").unwrap();
    assert_eq!(summary.game_version, "latest");
    assert!(summary.participants.is_empty());
    let odd = decode_summary(&doc(r#"{"gameVersion": 14, "participants": {"a": 1}}"#));
    assert_eq!(odd.game_version, "latest");
    assert!(odd.participants.is_empty());
    assert!(matches!(read_summary("not json"), Err(RemoteError::NotJson)));
}

#[test]
fn decode_stats_keeps_the_whole_record_as_text() {
    let stats = decode_stats(&doc(r#"{"championName":"Lux","summonerId":9}"#));
    assert_eq!(stats.champion_name, "Lux");
    assert_eq!(stats.player_id, "9");
    assert_eq!(doc(&stats.stats_json), doc(r#"{"championName":"Lux","summonerId":9}"#));
    let scalar = decode_stats(&doc("17"));
    assert_eq!(scalar.stats_json, "17");
    assert_eq!(scalar.player_id, "");
}

#[test]
fn read_event_text_writes_the_edges_as_compact_json() {
    let body = r#"{"data": {"events": {"edges": [ {"node": {"type": "team-banned-character"}}, 1 ]}}}"#;
    assert_eq!(
        read_event_text(body).ok().as_deref(),
        Some(r#"[{"node":{"type":"team-banned-character"}},1]"#)
    );
    assert_eq!(
        read_event_text(r#"{"data": {"events": {"edges": []}}}"#).ok().as_deref(),
        Some("[]")
    );
}

#[test]
fn read_event_text_of_a_response_without_edges_is_null() {
    assert_eq!(read_event_text("{}").ok().as_deref(), Some("null"));
    assert_eq!(read_event_text(r#"{"data": {"events": 5}}"#).ok().as_deref(), Some("null"));
    assert_eq!(
        read_event_text(r#"{"data": {"events": {"edges": null}}}"#).ok().as_deref(),
        Some("null")
    );
    assert_eq!(decode_event_text(&doc("[]")).ok().as_deref(), Some("null"));
    assert!(matches!(read_event_text("{"), Err(RemoteError::NotJson)));
}

#[test]
fn remote_errors_have_messages() {
    assert_eq!(RemoteError::NotJson.message(), "Response is not JSON");
    assert_eq!(RemoteError::Reported("a, b".to_string()).message(), "a, b");
    assert_eq!(RemoteError::UnknownError.message(), "Unknown Error");
    assert_eq!(RemoteError::InvalidListing.message(), "Invalid series response format");
    assert_eq!(RemoteError::InvalidSeriesState.message(), "Invalid GraphQL response format");
    assert_eq!(RemoteError::NotEnoughTeams.message(), "Not enough teams in series data");
    assert_eq!(RemoteError::Unwritable.message(), "Event list cannot be written");
    assert_eq!(RemoteError::MaxRetries.message(), "Max retries reached");
    assert_eq!(
        RemoteError::EventLogMaxRetries.message(),
        "Max retries reached for event log"
    );
    assert!(matches!(
        RemoteError::EventLogMaxRetries.duplicate(),
        RemoteError::EventLogMaxRetries
    ));
    assert!(matches!(RemoteError::MaxRetries.duplicate(), RemoteError::MaxRetries));
    assert_eq!(RemoteError::Reported("x".to_string()).duplicate().message(), "x");
}
