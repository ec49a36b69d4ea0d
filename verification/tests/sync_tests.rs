use lol_scrim_exporter::models::{NewEventLog, NewSeries};
use lol_scrim_exporter::remote::{BaseInfo, GameStats, GameSummary, SeriesNode, TeamInfo};
use lol_scrim_exporter::store::Store;
use lol_scrim_exporter::sync::{
    apply_backfill, is_scored, listing_details, opt_text_eq, plan, same_details,
    store_participants, sync_page, sync_series, wants_event_log, wants_scores, wants_summary,
    LogChange, Plan, RemoteSeries, SeriesChange, SeriesOutcome,
    UNKNOWN_PATCH,
};

fn team(id: &str, name: &str) -> TeamInfo {
    TeamInfo {
        base_info: Some(BaseInfo {
            logo_url: Some(format!("{}.png", name)),
            id: Some(id.to_string()),
            name: Some(name.to_string()),
        }),
    }
}

fn node(id: &str, start: Option<&str>) -> SeriesNode {
    SeriesNode {
        id: id.to_string(),
        finished: false,
        start_time_scheduled: start.map(|s| s.to_string()),
        teams: vec![team("A", "Alpha"), team("B", "Beta")],
    }
}

fn stats(player: &str, champion: &str) -> GameStats {
    GameStats {
        player_id: player.to_string(),
        player_name: format!("name-{}", player),
        champion_name: champion.to_string(),
        stats_json: format!("{{\"summonerId\":{}}}", player),
    }
}

fn summary() -> GameSummary {
    GameSummary {
        game_version: "14.3.1".to_string(),
        participants: vec![stats("1", "Ahri"), stats("2", "Zed"), stats("1", "Lux")],
    }
}

fn complete(id: &str) -> RemoteSeries {
    RemoteSeries {
        node: node(id, Some("2024-03-01T10:00:00Z")),
        scores: Some((2, 1)),
        summary: Some(summary()),
        event_log: Some("[]".to_string()),
    }
}

fn bare(id: &str) -> RemoteSeries {
    RemoteSeries { node: node(id, None), scores: None, summary: None, event_log: None }
}

fn snapshot(store: &Store) -> String {
    format!("{:?}", store)
}

#[test]
fn new_series_is_inserted_and_backfilled() {
    let mut store = Store::new();
    let outcome = sync_series(&mut store, &complete("s1"));
    assert_eq!(
        outcome,
        SeriesOutcome {
            change: SeriesChange::Inserted,
            backfilled: true,
            participants_added: 2,
            event_log: LogChange::Inserted
        }
    );
    let row = store.find_series("s1").unwrap();
    assert_eq!(row.id, 1);
    assert_eq!(row.patch, "14.3.1");
    assert_eq!(row.team1_score, Some(2));
    assert_eq!(row.team2_score, Some(1));
    assert_eq!(row.team1_id.as_deref(), Some("A"));
    assert_eq!(row.team1_name.as_deref(), Some("Alpha"));
    assert_eq!(row.team1_logo.as_deref(), Some("Alpha.png"));
    assert_eq!(row.team2_id.as_deref(), Some("B"));
    assert_eq!(row.team2_name.as_deref(), Some("Beta"));
    assert_eq!(row.start_time_scheduled.as_deref(), Some("2024-03-01T10:00:00Z"));
    assert_eq!(store.participants.len(), 2);
    assert_eq!(store.participants[0].series_id, "s1");
    assert_eq!(store.participants[0].player_id, "1");
    assert_eq!(store.participants[0].player_name, "name-1");
    assert_eq!(store.participants[0].champion_name, "Ahri");
    assert_eq!(store.participants[0].stats_json, "{\"summonerId\":1}");
    assert_eq!(store.participants[1].champion_name, "Zed");
    assert_eq!(store.find_event_log("s1").unwrap().event_log, "[]");
}

#[test]
fn new_series_without_backfill_data_has_the_unknown_patch_and_no_scores() {
    let mut store = Store::new();
    let outcome = sync_series(&mut store, &bare("s1"));
    assert_eq!(
        outcome,
        SeriesOutcome {
            change: SeriesChange::Inserted,
            backfilled: false,
            participants_added: 0,
            event_log: LogChange::Untouched
        }
    );
    let row = store.find_series("s1").unwrap();
    assert_eq!(row.patch, "None");
    assert_eq!(row.patch, UNKNOWN_PATCH);
    assert_eq!(row.team1_score, None);
    assert_eq!(row.team2_score, None);
    assert!(store.participants.is_empty());
    assert!(store.event_logs.is_empty());
}

#[test]
fn backfill_needs_both_the_scores_and_the_summary() {
    let mut only_scores = bare("s1");
    only_scores.scores = Some((2, 1));
    let mut store = Store::new();
    assert!(!sync_series(&mut store, &only_scores).backfilled);
    assert_eq!(store.series[0].team1_score, None);
    assert_eq!(store.series[0].team2_score, None);
    let mut only_summary = bare("s2");
    only_summary.summary = Some(summary());
    assert!(!sync_series(&mut store, &only_summary).backfilled);
    assert_eq!(store.series[1].team1_score, None);
    assert_eq!(store.series[1].patch, "None");
    assert!(store.participants.is_empty());
}

#[test]
fn node_with_fewer_than_two_teams_is_skipped() {
    let mut store = Store::new();
    let mut item = complete("s1");
    item.node.teams.pop();
    let outcome = sync_series(&mut store, &item);
    assert_eq!(
        outcome,
        SeriesOutcome {
            change: SeriesChange::Skipped,
            backfilled: false,
            participants_added: 0,
            event_log: LogChange::Untouched
        }
    );
    assert!(store.series.is_empty());
    assert!(store.participants.is_empty());
    assert!(store.event_logs.is_empty());
    item.node.teams.clear();
    assert_eq!(sync_series(&mut store, &item).change, SeriesChange::Skipped);
}

#[test]
fn known_series_is_updated_only_where_its_details_changed() {
    let mut store = Store::new();
    sync_series(&mut store, &complete("s1"));
    let mut changed = bare("s1");
    changed.node.finished = true;
    changed.node.start_time_scheduled = Some("2024-04-01T10:00:00Z".to_string());
    changed.node.teams = vec![team("A", "Alpha Prime"), team("C", "Gamma")];
    let outcome = sync_series(&mut store, &changed);
    assert_eq!(outcome.change, SeriesChange::Updated);
    assert!(!outcome.backfilled);
    let row = store.find_series("s1").unwrap();
    assert!(row.finished);
    assert_eq!(row.start_time_scheduled.as_deref(), Some("2024-04-01T10:00:00Z"));
    assert_eq!(row.team1_name.as_deref(), Some("Alpha Prime"));
    assert_eq!(row.team2_id.as_deref(), Some("C"));
    assert_eq!(row.team2_name.as_deref(), Some("Gamma"));
    assert_eq!(row.team2_logo.as_deref(), Some("Gamma.png"));
    assert_eq!(row.team1_score, Some(2));
    assert_eq!(row.team2_score, Some(1));
    assert_eq!(row.patch, "14.3.1");
    assert_eq!(sync_series(&mut store, &changed).change, SeriesChange::Unchanged);
}

#[test]
fn change_of_a_name_alone_is_no_change_of_details() {
    let mut store = Store::new();
    sync_series(&mut store, &bare("s1"));
    let mut renamed = bare("s1");
    renamed.node.teams = vec![team("A", "Renamed"), team("B", "Beta")];
    assert_eq!(sync_series(&mut store, &renamed).change, SeriesChange::Unchanged);
    assert_eq!(store.series[0].team1_name.as_deref(), Some("Alpha"));
}

#[test]
fn known_series_without_scores_is_backfilled() {
    let mut store = Store::new();
    sync_series(&mut store, &bare("s1"));
    let outcome = sync_series(&mut store, &complete("s1"));
    assert_eq!(outcome.change, SeriesChange::Updated);
    assert!(outcome.backfilled);
    assert_eq!(outcome.participants_added, 2);
    assert_eq!(outcome.event_log, LogChange::Inserted);
    let row = store.find_series("s1").unwrap();
    assert_eq!(row.team1_score, Some(2));
    assert_eq!(row.team2_score, Some(1));
    assert_eq!(row.patch, "14.3.1");
}

#[test]
fn scored_series_is_not_backfilled_again() {
    let mut store = Store::new();
    sync_series(&mut store, &complete("s1"));
    let mut later = complete("s1");
    later.scores = Some((0, 3));
    later.summary = Some(GameSummary {
        game_version: "15.1.1".to_string(),
        participants: vec![stats("9", "Teemo")],
    });
    let outcome = sync_series(&mut store, &later);
    assert_eq!(outcome.change, SeriesChange::Unchanged);
    assert!(!outcome.backfilled);
    assert_eq!(outcome.participants_added, 0);
    let row = store.find_series("s1").unwrap();
    assert_eq!(row.team1_score, Some(2));
    assert_eq!(row.patch, "14.3.1");
    assert_eq!(store.participants.len(), 2);
}

#[test]
fn event_log_is_overwritten_on_every_pass() {
    let mut store = Store::new();
    sync_series(&mut store, &complete("s1"));
    let mut grown = complete("s1");
    grown.event_log = Some("[1,2]".to_string());
    let outcome = sync_series(&mut store, &grown);
    assert_eq!(outcome.event_log, LogChange::Overwritten);
    assert_eq!(store.event_logs.len(), 1);
    assert_eq!(store.find_event_log("s1").unwrap().event_log, "[1,2]");
    grown.event_log = None;
    assert_eq!(sync_series(&mut store, &grown).event_log, LogChange::Untouched);
    assert_eq!(store.find_event_log("s1").unwrap().event_log, "[1,2]");
}

#[test]
fn participants_already_stored_are_not_stored_again() {
    let mut store = Store::new();
    let list = vec![stats("1", "Ahri"), stats("2", "Zed")];
    assert_eq!(store_participants(&mut store, "s1", &list), 2);
    assert_eq!(store_participants(&mut store, "s1", &list), 0);
    let more = vec![stats("2", "Zed"), stats("3", "Lux"), stats("3", "Lux")];
    assert_eq!(store_participants(&mut store, "s1", &more), 1);
    assert_eq!(store_participants(&mut store, "s2", &list), 2);
    assert_eq!(store.participants.len(), 5);
    assert_eq!(store.participants[2].player_id, "3");
    assert_eq!(store.participants[4].series_id, "s2");
    assert_eq!(store.participants[4].id, 5);
}

#[test]
fn apply_backfill_stores_participants_and_sets_scores() {
    let mut store = Store::new();
    sync_series(&mut store, &bare("s1"));
    sync_series(&mut store, &bare("s2"));
    assert_eq!(apply_backfill(&mut store, "s2", (3, 0), &summary()), 2);
    assert_eq!(store.find_series("s2").unwrap().team1_score, Some(3));
    assert_eq!(store.find_series("s2").unwrap().team2_score, Some(0));
    assert_eq!(store.find_series("s2").unwrap().patch, "14.3.1");
    assert_eq!(store.find_series("s1").unwrap().team1_score, None);
    assert_eq!(store.participants.len(), 2);
}

#[test]
fn insert_into_a_full_table_fails_and_skips_the_series() {
    let mut store = Store::new();
    store.series.push(
        NewSeries {
            series_id: "last",
            finished: false,
            start_time_scheduled: None,
            patch: None,
            team1_id: None,
            team1_name: None,
            team1_score: None,
            team1_logo: None,
            team2_id: None,
            team2_name: None,
            team2_score: None,
            team2_logo: None,
        }
        .into_row(i32::MAX),
    );
    let outcome = sync_series(&mut store, &complete("s1"));
    assert_eq!(
        outcome,
        SeriesOutcome {
            change: SeriesChange::InsertFailed,
            backfilled: false,
            participants_added: 0,
            event_log: LogChange::Untouched
        }
    );
    assert_eq!(store.series.len(), 1);
    assert!(store.participants.is_empty());
    assert!(store.event_logs.is_empty());
}

#[test]
fn event_log_that_cannot_be_stored_is_reported() {
    let mut store = Store::new();
    store.event_logs.push(NewEventLog { series_id: "x", event_log: "[]" }.into_row(i32::MAX));
    let outcome = sync_series(&mut store, &complete("s1"));
    assert_eq!(outcome.change, SeriesChange::Inserted);
    assert!(outcome.backfilled);
    assert_eq!(outcome.event_log, LogChange::Refused);
    assert_eq!(store.event_logs.len(), 1);
}

#[test]
fn sync_page_counts_the_series_inserted() {
    let mut store = Store::new();
    sync_series(&mut store, &bare("known"));
    let mut skipped = complete("skipped");
    skipped.node.teams.truncate(1);
    let items = vec![complete("s1"), complete("known"), skipped, bare("s2"), complete("s1")];
    assert_eq!(sync_page(&mut store, &items).inserted, 2);
    assert_eq!(store.series.len(), 3);
    assert_eq!(store.series[1].series_id, "s1");
    assert_eq!(store.series[2].series_id, "s2");
    assert_eq!(sync_page(&mut store, &Vec::new()).inserted, 0);
}

#[test]
fn second_pass_over_an_unchanged_listing_writes_nothing() {
    let mut skipped = complete("skipped");
    skipped.node.teams.truncate(1);
    let mut half = bare("half");
    half.scores = Some((1, 0));
    let mut logged = bare("logged");
    logged.event_log = Some("[7]".to_string());
    let items = vec![complete("s1"), bare("s2"), skipped, half, complete("s3"), logged];
    let mut store = Store::new();
    sync_series(&mut store, &bare("s3"));
    assert_eq!(sync_page(&mut store, &items).inserted, 4);
    let after_first = snapshot(&store);
    assert_eq!(sync_page(&mut store, &items).inserted, 0);
    assert_eq!(snapshot(&store), after_first);
    for item in &items {
        let outcome = sync_series(&mut store, item);
        assert!(matches!(outcome.change, SeriesChange::Unchanged | SeriesChange::Skipped));
        assert!(!outcome.backfilled);
        assert_eq!(outcome.participants_added, 0);
    }
    assert_eq!(snapshot(&store), after_first);
}

#[test]
fn scores_are_present_together_or_absent_together() {
    let mut store = Store::new();
    let mut half = bare("half");
    half.scores = Some((1, 0));
    let items = vec![complete("s1"), bare("s2"), half, complete("s2"), bare("s1")];
    for item in &items {
        sync_series(&mut store, item);
        for row in &store.series {
            assert_eq!(row.team1_score.is_some(), row.team2_score.is_some());
        }
    }
    assert_eq!(store.find_series("s1").unwrap().team1_score, Some(2));
    assert_eq!(store.find_series("s2").unwrap().team2_score, Some(1));
    assert_eq!(store.find_series("half").unwrap().team1_score, None);
}

#[test]
fn plan_asks_for_the_backfill_of_new_and_unscored_series() {
    let mut store = Store::new();
    assert_eq!(plan(&store, &node("s1", None)), Plan { skip: false, backfill: true });
    sync_series(&mut store, &bare("s1"));
    assert_eq!(plan(&store, &node("s1", None)), Plan { skip: false, backfill: true });
    sync_series(&mut store, &complete("s1"));
    assert_eq!(plan(&store, &node("s1", None)), Plan { skip: false, backfill: false });
    let mut short = node("s1", None);
    short.teams.pop();
    assert_eq!(plan(&store, &short), Plan { skip: true, backfill: false });
}

#[test]
fn listing_details_read_the_first_two_teams() {
    let mut n = node("s1", Some("2024-01-01"));
    n.teams.push(team("C", "Gamma"));
    n.teams[1].base_info = None;
    let details = listing_details(&n);
    assert_eq!(details.series_id, "s1");
    assert_eq!(details.start_time_scheduled, Some("2024-01-01"));
    assert_eq!(details.patch, Some("None"));
    assert_eq!(details.team1_id, Some("A"));
    assert_eq!(details.team1_name, Some("Alpha"));
    assert_eq!(details.team1_logo, Some("Alpha.png"));
    assert_eq!(details.team2_id, None);
    assert_eq!(details.team2_name, None);
    assert_eq!(details.team2_logo, None);
    assert_eq!(details.team1_score, None);
    assert_eq!(details.team2_score, None);
}

#[test]
fn same_details_compares_flag_time_and_team_identifiers() {
    let mut store = Store::new();
    sync_series(&mut store, &bare("s1"));
    let row = store.find_series("s1").unwrap();
    let n = node("s1", None);
    assert!(same_details(row, &listing_details(&n)));
    let mut finished = node("s1", None);
    finished.finished = true;
    assert!(!same_details(row, &listing_details(&finished)));
    assert!(!same_details(row, &listing_details(&node("s1", Some("2024-01-01")))));
    let mut other_team = node("s1", None);
    other_team.teams[0] = team("Z", "Alpha");
    assert!(!same_details(row, &listing_details(&other_team)));
    let mut no_team = node("s1", None);
    no_team.teams[1].base_info = None;
    assert!(!same_details(row, &listing_details(&no_team)));
    assert!(!is_scored(row));
}

#[test]
fn opt_text_eq_compares_optional_texts() {
    assert!(opt_text_eq(None, None));
    assert!(opt_text_eq(Some("a"), Some("a")));
    assert!(!opt_text_eq(Some("a"), Some("b")));
    assert!(!opt_text_eq(Some(""), None));
    assert!(!opt_text_eq(None, Some("")));
}

#[test]
fn plan_asks_for_no_backfill_of_a_series_that_cannot_be_inserted() {
    let mut store = Store::new();
    sync_series(&mut store, &bare("last"));
    store.series[0].id = i32::MAX;
    assert_eq!(plan(&store, &node("s1", None)), Plan { skip: false, backfill: false });
    assert_eq!(plan(&store, &node("last", None)), Plan { skip: false, backfill: true });
    assert!(!store.has_room_for_series());
    assert!(Store::new().has_room_for_series());
}

#[test]
fn summary_is_asked_for_only_after_the_scores_were_had() {
    let wanted = Plan { skip: false, backfill: true };
    let unwanted = Plan { skip: false, backfill: false };
    let skipped = Plan { skip: true, backfill: false };
    assert!(wants_scores(&wanted));
    assert!(!wants_scores(&unwanted));
    assert!(!wants_scores(&skipped));
    assert!(wants_summary(&wanted, &Some((2, 1))));
    assert!(!wants_summary(&wanted, &None));
    assert!(!wants_summary(&unwanted, &Some((2, 1))));
    assert!(!wants_summary(&skipped, &None));
    assert!(wants_event_log(&wanted));
    assert!(wants_event_log(&unwanted));
    assert!(!wants_event_log(&skipped));
}

#[test]
fn second_pass_asks_for_no_scores_and_no_summary() {
    let items = vec![complete("s1"), complete("s2"), complete("s3")];
    let mut store = Store::new();
    for item in &items {
        assert!(plan(&store, &item.node).backfill);
    }
    assert_eq!(sync_page(&mut store, &items).inserted, 3);
    for item in &items {
        assert_eq!(plan(&store, &item.node), Plan { skip: false, backfill: false });
    }
}

#[test]
fn pass_without_event_log_leaves_the_event_logs_unchanged() {
    let mut store = Store::new();
    sync_series(&mut store, &complete("s1"));
    let logs = format!("{:?}", store.event_logs);
    let mut given_up = complete("s1");
    given_up.event_log = None;
    sync_series(&mut store, &given_up);
    sync_series(&mut store, &bare("s2"));
    assert_eq!(format!("{:?}", store.event_logs), logs);
}

#[test]
fn sync_page_reports_what_it_did_for_each_item() {
    let mut store = Store::new();
    let mut skipped = complete("skipped");
    skipped.node.teams.truncate(1);
    let items = vec![complete("s1"), skipped, bare("s2"), complete("s1")];
    let report = sync_page(&mut store, &items);
    assert_eq!(report.inserted, 2);
    assert_eq!(report.outcomes.len(), 4);
    assert_eq!(report.outcomes[0].change, SeriesChange::Inserted);
    assert!(report.outcomes[0].backfilled);
    assert_eq!(report.outcomes[0].participants_added, 2);
    assert_eq!(report.outcomes[0].event_log, LogChange::Inserted);
    assert_eq!(report.outcomes[1].change, SeriesChange::Skipped);
    assert_eq!(report.outcomes[2].change, SeriesChange::Inserted);
    assert!(!report.outcomes[2].backfilled);
    assert_eq!(report.outcomes[3].change, SeriesChange::Unchanged);
    assert!(!report.outcomes[3].backfilled);
    assert_eq!(report.outcomes[3].event_log, LogChange::Overwritten);
}

#[test]
fn second_pass_over_a_listing_that_repeats_an_item_writes_nothing() {
    let items = vec![complete("s1"), bare("s2"), complete("s1"), bare("s2"), complete("s1")];
    let mut store = Store::new();
    assert_eq!(sync_page(&mut store, &items).inserted, 2);
    let after_first = snapshot(&store);
    let report = sync_page(&mut store, &items);
    assert_eq!(report.inserted, 0);
    for outcome in &report.outcomes {
        assert_eq!(outcome.change, SeriesChange::Unchanged);
        assert!(!outcome.backfilled);
    }
    assert_eq!(snapshot(&store), after_first);
}

#[test]
fn listing_that_contradicts_itself_is_rewritten_on_every_pass() {
    let mut finished = bare("s1");
    finished.node.finished = true;
    let items = vec![bare("s1"), finished];
    let mut store = Store::new();
    assert_eq!(sync_page(&mut store, &items).inserted, 1);
    let after_first = snapshot(&store);
    let report = sync_page(&mut store, &items);
    assert_eq!(report.inserted, 0);
    assert_eq!(report.outcomes[0].change, SeriesChange::Updated);
    assert_eq!(report.outcomes[1].change, SeriesChange::Updated);
    assert_eq!(snapshot(&store), after_first);
}

#[test]
fn second_backfill_writes_nothing() {
    let mut store = Store::new();
    sync_series(&mut store, &bare("s1"));
    assert_eq!(apply_backfill(&mut store, "s1", (2, 1), &summary()), 2);
    let after_first = snapshot(&store);
    assert_eq!(apply_backfill(&mut store, "s1", (2, 1), &summary()), 0);
    assert_eq!(snapshot(&store), after_first);
}
