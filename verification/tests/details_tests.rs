use lol_scrim_exporter::details::{
    detail_matches, filter_series, FilteredSeriesDetail, SeriesStateWithId,
};
use lol_scrim_exporter::filter::{
    check_bans_absent, ChampionSelection, DateRange, FilterConfig, Modes, PlayerFilter, TeamFilter,
};
use lol_scrim_exporter::remote::{BaseInfo, GameStats, SeriesTeam};

fn no_filter() -> FilterConfig {
    FilterConfig {
        date_range: DateRange { from: None, to: None },
        wins: false,
        losses: false,
        patch: String::new(),
        champions_picked: Vec::new(),
        champ_picked_mode: Modes::Any,
        champions_banned: Vec::new(),
        champ_banned_mode: Modes::Any,
        teams: Vec::new(),
        players: Vec::new(),
    }
}

fn champion(name: &str) -> ChampionSelection {
    ChampionSelection {
        value: "value".to_string(),
        label: "label".to_string(),
        champ: name.to_string(),
    }
}

fn played(player: &str, champion: &str) -> GameStats {
    GameStats {
        player_id: player.to_string(),
        player_name: player.to_string(),
        champion_name: champion.to_string(),
        stats_json: "{}".to_string(),
    }
}

fn team(id: &str, name: &str, score: i64) -> SeriesTeam {
    SeriesTeam {
        id: Some(id.to_string()),
        score,
        base_info: Some(BaseInfo {
            logo_url: None,
            id: Some(id.to_string()),
            name: Some(name.to_string()),
        }),
    }
}

fn ban_log(champion: &str) -> String {
    format!(
        r#"[{{"node": {{"type": "team-banned-character", "sentenceChunks": [{{"text": "Blue"}}, {{"text": "banned"}}, {{"text": "{}"}}]}}}}]"#,
        champion
    )
}

fn detail(
    id: &str,
    start: Option<&str>,
    patch: &str,
    scores: (i64, i64),
    champions: &[&str],
    banned: Option<&str>,
) -> FilteredSeriesDetail {
    FilteredSeriesDetail {
        series_state: SeriesStateWithId {
            id: id.to_string(),
            finished: true,
            teams: vec![team("A", "Alpha", scores.0), team("B", "Beta", scores.1)],
            start_time_scheduled: start.map(|s| s.to_string()),
        },
        participants: champions
            .iter()
            .enumerate()
            .map(|(i, c)| played(&format!("{}-player-{}", id, i), c))
            .collect(),
        patch: patch.to_string(),
        event_log: banned.map(ban_log),
    }
}

fn details() -> Vec<FilteredSeriesDetail> {
    vec![
        detail("d0", Some("2024-01-01"), "14.3.558", (2, 1), &["Ahri", "Zed"], Some("Lux")),
        detail("d1", Some("2024-02-01"), "14.30.1", (1, 2), &["Lux"], Some("Ahri")),
        detail("d2", None, "14.4.1", (1, 1), &["Zed"], None),
        detail("d3", Some("2024-03-01"), "13.24.1", (0, 2), &[], Some("Zed")),
    ]
}

#[test]
fn filter_series_without_filter_keeps_every_position() {
    assert_eq!(filter_series(&details(), &no_filter(), None), vec![0, 1, 2, 3]);
    assert!(filter_series(&Vec::new(), &no_filter(), None).is_empty());
}

#[test]
fn filter_series_requires_a_banned_champion_among_the_bans() {
    let mut filters = no_filter();
    filters.champions_banned = vec![champion("Ahri")];
    assert_eq!(filter_series(&details(), &filters, None), vec![1]);
    filters.champions_banned = vec![champion("Zed"), champion("Lux")];
    assert_eq!(filter_series(&details(), &filters, None), vec![0, 3]);
    filters.champions_banned = vec![champion("Teemo")];
    assert!(filter_series(&details(), &filters, None).is_empty());
}

#[test]
fn filter_series_holds_a_detail_without_event_log_to_have_no_bans() {
    let banned_in_first = vec![
        detail("banned", None, "14.3", (1, 0), &[], Some("Ahri")),
        detail("neither", None, "14.3", (1, 0), &["Ahri"], None),
        detail("unreadable", None, "14.3", (1, 0), &[], None),
    ];
    let mut filters = no_filter();
    filters.champions_banned = vec![champion("Ahri")];
    assert_eq!(filter_series(&banned_in_first, &filters, None), vec![0]);
    let excluding: Vec<bool> = banned_in_first
        .iter()
        .map(|d| check_bans_absent(d.event_log.as_deref(), &filters))
        .collect();
    assert_eq!(excluding, vec![false, true, true]);
}

#[test]
fn filter_series_matches_a_patch_by_its_first_two_segments() {
    let mut filters = no_filter();
    filters.patch = "14.3".to_string();
    assert_eq!(filter_series(&details(), &filters, None), vec![0]);
    filters.patch = "14.30".to_string();
    assert_eq!(filter_series(&details(), &filters, None), vec![1]);
    filters.patch = "14".to_string();
    assert_eq!(filter_series(&details(), &filters, None), vec![0, 1, 2]);
}

#[test]
fn filter_series_by_date_range() {
    let mut filters = no_filter();
    filters.date_range.from = Some("2024-02-01".to_string());
    assert_eq!(filter_series(&details(), &filters, None), vec![1, 3]);
    filters.date_range.to = Some("2024-02-01".to_string());
    assert_eq!(filter_series(&details(), &filters, None), vec![1]);
}

#[test]
fn filter_series_by_outcome() {
    let mut filters = no_filter();
    filters.wins = true;
    assert_eq!(filter_series(&details(), &filters, Some("A")), vec![0, 2]);
    assert_eq!(filter_series(&details(), &filters, Some("B")), vec![1, 2, 3]);
    filters.wins = false;
    filters.losses = true;
    assert_eq!(filter_series(&details(), &filters, Some("A")), vec![1, 3]);
    assert_eq!(filter_series(&details(), &filters, Some("B")), vec![0]);
    assert!(filter_series(&details(), &filters, Some("C")).is_empty());
}

#[test]
fn filter_series_excludes_a_state_with_fewer_than_two_teams_from_outcomes() {
    let mut short = detail("short", None, "14.3", (1, 0), &[], None);
    short.series_state.teams.pop();
    let mut filters = no_filter();
    assert!(detail_matches(&short, &filters, Some("A")));
    filters.wins = true;
    assert!(!detail_matches(&short, &filters, Some("A")));
    let mut anonymous = detail("anonymous", None, "14.3", (1, 0), &[], None);
    anonymous.series_state.teams[1].id = None;
    assert!(!detail_matches(&anonymous, &filters, Some("A")));
}

#[test]
fn filter_series_by_picked_champions_in_both_modes() {
    let mut filters = no_filter();
    filters.champions_picked = vec![champion("Ahri"), champion("Zed")];
    filters.champ_picked_mode = Modes::Any;
    assert_eq!(filter_series(&details(), &filters, None), vec![0, 2]);
    filters.champ_picked_mode = Modes::Only;
    assert_eq!(filter_series(&details(), &filters, None), vec![0]);
    filters.champions_picked = vec![ChampionSelection {
        value: "Zed".to_string(),
        label: "Zed".to_string(),
        champ: "Nobody".to_string(),
    }];
    assert!(filter_series(&details(), &filters, None).is_empty());
}

#[test]
fn filter_series_by_team_and_player() {
    let mut filters = no_filter();
    filters.teams = vec![TeamFilter { value: "Beta".to_string(), label: "x".to_string() }];
    assert_eq!(filter_series(&details(), &filters, None), vec![0, 1, 2, 3]);
    filters.teams = vec![TeamFilter { value: "Gamma".to_string(), label: "Beta".to_string() }];
    assert!(filter_series(&details(), &filters, None).is_empty());
    filters.teams = Vec::new();
    filters.players =
        vec![PlayerFilter { value: "d1-player-0".to_string(), label: "x".to_string() }];
    assert_eq!(filter_series(&details(), &filters, None), vec![1]);
}

#[test]
fn detail_stands_for_a_series_row_and_its_participants() {
    let d = detail("d", Some("2024-01-01"), "14.3.1", (4294967298, 1), &["Ahri"], None);
    let row = d.series_row();
    assert_eq!(row.series_id, "d");
    assert_eq!(row.patch, "14.3.1");
    assert_eq!(row.start_time_scheduled.as_deref(), Some("2024-01-01"));
    assert_eq!(row.team1_id.as_deref(), Some("A"));
    assert_eq!(row.team1_name.as_deref(), Some("Alpha"));
    assert_eq!(row.team1_score, Some(2));
    assert_eq!(row.team2_id.as_deref(), Some("B"));
    assert_eq!(row.team2_name.as_deref(), Some("Beta"));
    assert_eq!(row.team2_score, Some(1));
    let rows = d.participant_rows();
    assert_eq!(rows.len(), 1);
    assert_eq!(rows[0].series_id, "d");
    assert_eq!(rows[0].champion_name, "Ahri");
    assert_eq!(rows[0].player_name, "d-player-0");
    let mut empty = detail("e", None, "", (0, 0), &[], None);
    empty.series_state.teams.clear();
    let bare = empty.series_row();
    assert_eq!(bare.team1_id, None);
    assert_eq!(bare.team1_score, None);
    assert_eq!(bare.team2_name, None);
}
