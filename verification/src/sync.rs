//! The synchronisation engine: how one series of a remote listing is
//! reconciled with the replica.
//!
//! A series that the replica does not know is inserted. One that it knows has
//! its listing details rewritten where they changed. A series without both
//! scores is backfilled from the score and summary data, where both could be
//! had. The event log is saved on every pass.

use crate::models::{
    opt_as_str, opt_str_view, NewEventLog, NewParticipant, NewSeries, ParticipantView, Series,
    SeriesView,
};
use crate::remote::{
    BaseInfoView, GameStats, GameStatsView, GameSummary, GameSummaryView, SeriesNode,
    SeriesNodeView, TeamInfo,
};
use crate::store::{next_id, Saved, Store, StoreView};
use crate::text::str_eq;
use vstd::prelude::*;

verus! {

/// How many team entries a series of a listing needs.
pub const TEAMS_PER_SERIES: usize = 2;

/// The patch of a series that was not backfilled yet.
pub const UNKNOWN_PATCH: &'static str = "None";

/// What the remote service holds for one series: its listing node and what
/// its three other endpoints return. `None` stands for data that could not
/// be had, or was not asked for.
#[derive(Debug)]
pub struct RemoteSeries {
    pub node: SeriesNode,
    pub scores: Option<(i32, i32)>,
    pub summary: Option<GameSummary>,
    pub event_log: Option<String>,
}

/// The view of a [`RemoteSeries`].
pub struct RemoteSeriesView {
    pub node: SeriesNodeView,
    pub scores: Option<(i32, i32)>,
    pub summary: Option<GameSummaryView>,
    pub event_log: Option<Seq<char>>,
}

impl View for RemoteSeries {
    type V = RemoteSeriesView;

    open spec fn view(&self) -> RemoteSeriesView {
        RemoteSeriesView {
            node: self.node@,
            scores: self.scores,
            summary: self.summary.deep_view(),
            event_log: self.event_log.deep_view(),
        }
    }
}

impl DeepView for RemoteSeries {
    type V = RemoteSeriesView;

    open spec fn deep_view(&self) -> RemoteSeriesView {
        self@
    }
}

/// What a pass did to the series row.
#[derive(Debug, PartialEq, Eq, Clone, Copy, Structural)]
pub enum SeriesChange {
    /// The node has fewer than two teams: nothing was read or written.
    Skipped,
    /// The series was new and a row was inserted.
    Inserted,
    /// The series was new and the series table was full.
    InsertFailed,
    /// The series was known and its listing details were rewritten.
    Updated,
    /// The series was known and its listing details had not changed.
    Unchanged,
}

/// What a pass did for one series.
#[derive(Debug, PartialEq, Eq, Clone, Copy, Structural)]
pub struct SeriesOutcome {
    pub change: SeriesChange,
    pub backfilled: bool,
    pub participants_added: usize,
    pub event_log: LogChange,
}

/// What a pass did to the event log of a series.
#[derive(Debug, PartialEq, Eq, Clone, Copy, Structural)]
pub enum LogChange {
    /// The pass had no event log to save.
    Untouched,
    /// The series had no event log: a row was inserted.
    Inserted,
    /// The series had an event log: its rows were overwritten.
    Overwritten,
    /// The series had no event log and the table was full.
    Refused,
}

/// The identity of the team at position `i` of a node: that of its entry,
/// with every part missing where the entry has none.
pub open spec fn team_part(node: SeriesNodeView, i: int) -> BaseInfoView {
    match node.teams[i].base_info {
        Some(info) => info,
        None => BaseInfoView { logo_url: None, id: None, name: None },
    }
}

/// The row that a node becomes on first sighting: its listing details, the
/// unknown patch and no scores.
pub open spec fn listed_row(node: SeriesNodeView) -> SeriesView {
    SeriesView {
        id: 0,
        series_id: node.id,
        finished: node.finished,
        start_time_scheduled: node.start_time_scheduled,
        patch: UNKNOWN_PATCH@,
        team1_id: team_part(node, 0).id,
        team1_score: None,
        team1_name: team_part(node, 0).name,
        team1_logo: team_part(node, 0).logo_url,
        team2_id: team_part(node, 1).id,
        team2_score: None,
        team2_name: team_part(node, 1).name,
        team2_logo: team_part(node, 1).logo_url,
    }
}

/// Whether a stored row has the details that a node lists: the finished
/// flag, the scheduled time and both team identifiers.
pub open spec fn details_same(row: SeriesView, node: SeriesNodeView) -> bool {
    &&& row.finished == node.finished
    &&& row.start_time_scheduled == node.start_time_scheduled
    &&& row.team1_id == team_part(node, 0).id
    &&& row.team2_id == team_part(node, 1).id
}

/// The participant row that a game's statistics become for a series.
pub open spec fn participant_row(series_id: Seq<char>, stats: GameStatsView) -> ParticipantView {
    ParticipantView {
        id: 0,
        series_id,
        player_id: stats.player_id,
        player_name: stats.player_name,
        champion_name: stats.champion_name,
        stats_json: stats.stats_json,
    }
}

/// The store after one participant of a summary is stored, unless a row
/// for the series and the player exists already.
pub open spec fn add_participant(
    s: StoreView,
    series_id: Seq<char>,
    stats: GameStatsView,
) -> StoreView {
    if s.has_participant(series_id, stats.player_id) {
        s
    } else {
        s.insert_participant(participant_row(series_id, stats))
    }
}

/// The store after the participants of a summary are stored, in order.
pub open spec fn add_participants(
    s: StoreView,
    series_id: Seq<char>,
    stats: Seq<GameStatsView>,
) -> StoreView
    decreases stats.len(),
{
    if stats.len() == 0 {
        s
    } else {
        add_participant(add_participants(s, series_id, stats.drop_last()), series_id, stats.last())
    }
}

/// Whether a backfill has its data: both the scores and the summary.
pub open spec fn backfill_ready(item: RemoteSeriesView) -> bool {
    item.scores is Some && item.summary is Some
}

/// The store after the backfill of a series: its new participants are
/// stored, then its scores and patch are set. Without both the scores and
/// the summary nothing changes.
pub open spec fn backfill(s: StoreView, item: RemoteSeriesView) -> StoreView {
    match (item.scores, item.summary) {
        (Some(scores), Some(summary)) => add_participants(
            s,
            item.node.id,
            summary.participants,
        ).update_scores(item.node.id, scores.0, scores.1, summary.game_version),
        _ => s,
    }
}

/// The store after the event log of a series is saved, where it was had.
pub open spec fn save_log(s: StoreView, item: RemoteSeriesView) -> StoreView {
    match item.event_log {
        Some(log) => s.save_event_log(item.node.id, log),
        None => s,
    }
}

/// What a pass does to the series row of an item.
pub open spec fn change_of(s: StoreView, item: RemoteSeriesView) -> SeriesChange {
    if item.node.teams.len() < TEAMS_PER_SERIES {
        SeriesChange::Skipped
    } else {
        match s.find_series(item.node.id) {
            Some(row) => if details_same(row, item.node) {
                SeriesChange::Unchanged
            } else {
                SeriesChange::Updated
            },
            None => if next_id(s.series_ids()) is Some {
                SeriesChange::Inserted
            } else {
                SeriesChange::InsertFailed
            },
        }
    }
}

/// Whether a pass attempts the backfill of the series of a node: the node
/// has its two teams, and the series is new and can be inserted, or it is
/// known and lacks a score.
pub open spec fn node_wants_backfill(s: StoreView, node: SeriesNodeView) -> bool {
    node.teams.len() >= TEAMS_PER_SERIES && match s.find_series(node.id) {
        Some(row) => !row.scored(),
        None => next_id(s.series_ids()) is Some,
    }
}

/// Whether a pass attempts the backfill of an item.
pub open spec fn wants_backfill(s: StoreView, item: RemoteSeriesView) -> bool {
    node_wants_backfill(s, item.node)
}

/// Whether a pass goes on to the event log of an item: the node is well
/// formed and its series row exists or was inserted.
pub open spec fn reaches_log(s: StoreView, item: RemoteSeriesView) -> bool {
    change_of(s, item) != SeriesChange::Skipped && change_of(s, item) != SeriesChange::InsertFailed
}

/// The store after the series row of an item is inserted or updated.
pub open spec fn reconciled(s: StoreView, item: RemoteSeriesView) -> StoreView {
    match change_of(s, item) {
        SeriesChange::Inserted => s.insert_series(listed_row(item.node)),
        SeriesChange::Updated => s.update_details(listed_row(item.node)),
        _ => s,
    }
}

/// The store after the row of an item is reconciled and, where the pass
/// attempts it, backfilled.
pub open spec fn filled(s: StoreView, item: RemoteSeriesView) -> StoreView {
    if wants_backfill(s, item) {
        backfill(reconciled(s, item), item)
    } else {
        reconciled(s, item)
    }
}

/// The store after a pass over one item.
pub open spec fn step(s: StoreView, item: RemoteSeriesView) -> StoreView {
    if reaches_log(s, item) {
        save_log(filled(s, item), item)
    } else {
        s
    }
}

/// What a pass does to the event log of an item.
pub open spec fn log_change_of(s: StoreView, item: RemoteSeriesView) -> LogChange {
    if reaches_log(s, item) && item.event_log is Some {
        match filled(s, item).event_log_saved(item.node.id) {
            Ok(Saved::Inserted) => LogChange::Inserted,
            Ok(Saved::Overwritten) => LogChange::Overwritten,
            Err(_) => LogChange::Refused,
        }
    } else {
        LogChange::Untouched
    }
}

/// What a pass over one item reports.
pub open spec fn outcome_of(s: StoreView, item: RemoteSeriesView) -> SeriesOutcome {
    SeriesOutcome {
        change: change_of(s, item),
        backfilled: wants_backfill(s, item) && backfill_ready(item),
        participants_added: (step(s, item).participants.len() - s.participants.len()) as usize,
        event_log: log_change_of(s, item),
    }
}

/// The store after a pass over the items of a listing, in order.
pub open spec fn run(s: StoreView, items: Seq<RemoteSeriesView>) -> StoreView
    decreases items.len(),
{
    if items.len() == 0 {
        s
    } else {
        step(run(s, items.drop_last()), items.last())
    }
}

/// How many series rows a pass over the items of a listing inserts.
pub open spec fn inserted_count(s: StoreView, items: Seq<RemoteSeriesView>) -> nat
    decreases items.len(),
{
    if items.len() == 0 {
        0
    } else {
        let before = run(s, items.drop_last());
        inserted_count(s, items.drop_last()) + if change_of(before, items.last())
            == SeriesChange::Inserted {
            1nat
        } else {
            0nat
        }
    }
}

/// The identifier of a team entry.
fn team_id(team: &TeamInfo) -> (r: Option<&str>)
    ensures
        opt_str_view(r) == match team@.base_info {
            Some(info) => info.id,
            None => None,
        },
{
    match &team.base_info {
        Some(info) => opt_as_str(&info.id),
        None => None,
    }
}

/// The name of a team entry.
fn team_name(team: &TeamInfo) -> (r: Option<&str>)
    ensures
        opt_str_view(r) == match team@.base_info {
            Some(info) => info.name,
            None => None,
        },
{
    match &team.base_info {
        Some(info) => opt_as_str(&info.name),
        None => None,
    }
}

/// The logo of a team entry.
fn team_logo(team: &TeamInfo) -> (r: Option<&str>)
    ensures
        opt_str_view(r) == match team@.base_info {
            Some(info) => info.logo_url,
            None => None,
        },
{
    match &team.base_info {
        Some(info) => opt_as_str(&info.logo_url),
        None => None,
    }
}

/// The row that a node becomes on first sighting.
pub fn listing_details<'a>(node: &'a SeriesNode) -> (r: NewSeries<'a>)
    requires
        node.teams.len() >= TEAMS_PER_SERIES,
    ensures
        r.row_view(0) == listed_row(node@),
{
    let team1 = &node.teams[0];
    let team2 = &node.teams[1];
    assert(node@.teams[0] == team1@);
    assert(node@.teams[1] == team2@);
    NewSeries {
        series_id: node.id.as_str(),
        finished: node.finished,
        start_time_scheduled: opt_as_str(&node.start_time_scheduled),
        patch: Some(UNKNOWN_PATCH),
        team1_id: team_id(team1),
        team1_name: team_name(team1),
        team1_score: None,
        team1_logo: team_logo(team1),
        team2_id: team_id(team2),
        team2_name: team_name(team2),
        team2_score: None,
        team2_logo: team_logo(team2),
    }
}

/// Whether two optional texts are equal.
pub fn opt_text_eq(a: Option<&str>, b: Option<&str>) -> (r: bool)
    ensures
        r == (opt_str_view(a) == opt_str_view(b)),
{
    match (a, b) {
        (Some(x), Some(y)) => str_eq(x, y),
        (None, None) => true,
        _ => false,
    }
}

/// Whether a stored row has the details that a node lists.
pub fn same_details(existing: &Series, details: &NewSeries) -> (r: bool)
    ensures
        r == {
            &&& existing@.finished == details.finished
            &&& existing@.start_time_scheduled == opt_str_view(details.start_time_scheduled)
            &&& existing@.team1_id == opt_str_view(details.team1_id)
            &&& existing@.team2_id == opt_str_view(details.team2_id)
        },
{
    existing.finished == details.finished && opt_text_eq(
        opt_as_str(&existing.start_time_scheduled),
        details.start_time_scheduled,
    ) && opt_text_eq(opt_as_str(&existing.team1_id), details.team1_id) && opt_text_eq(
        opt_as_str(&existing.team2_id),
        details.team2_id,
    )
}

/// Stores the participants of a summary that the replica does not hold yet,
/// and returns how many rows were inserted.
pub fn store_participants(store: &mut Store, series_id: &str, stats: &Vec<GameStats>) -> (r: usize)
    ensures
        final(store)@ == add_participants(old(store)@, series_id@, stats.deep_view()),
        r == final(store)@.participants.len() - old(store)@.participants.len(),
{
    let mut added: usize = 0;
    let mut i: usize = 0;
    assert(stats.deep_view().subrange(0, 0) =~= Seq::<GameStatsView>::empty());
    while i < stats.len()
        invariant
            i <= stats.len(),
            added <= i,
            store@ == add_participants(old(store)@, series_id@, stats.deep_view().subrange(0, i as int)),
            added == store@.participants.len() - old(store)@.participants.len(),
        decreases stats.len() - i,
    {
        let ghost upto = stats.deep_view().subrange(0, i + 1);
        assert(upto.drop_last() =~= stats.deep_view().subrange(0, i as int));
        assert(upto.last() == stats[i as int]@);
        let p = &stats[i];
        if !store.has_participant(series_id, p.player_id.as_str()) {
            let new_participant = NewParticipant {
                series_id: series_id.to_owned(),
                player_id: p.player_id.clone(),
                player_name: p.player_name.clone(),
                champion_name: p.champion_name.clone(),
                stats_json: p.stats_json.clone(),
            };
            assert(new_participant.row_view(0) == participant_row(series_id@, p@));
            match store.insert_participant(new_participant) {
                Ok(_) => {
                    added += 1;
                },
                Err(_) => {},
            }
        }
        i += 1;
    }
    assert(stats.deep_view().subrange(0, i as int) =~= stats.deep_view());
    added
}

/// Adding participants leaves the other two tables as they are.
pub proof fn lemma_add_participants_frame(
    s: StoreView,
    series_id: Seq<char>,
    stats: Seq<GameStatsView>,
)
    ensures
        add_participants(s, series_id, stats).series == s.series,
        add_participants(s, series_id, stats).event_logs == s.event_logs,
        add_participants(s, series_id, stats).participants.len() >= s.participants.len(),
    decreases stats.len(),
{
    if stats.len() > 0 {
        lemma_add_participants_frame(s, series_id, stats.drop_last());
    }
}

/// A pass over one item keeps the scores of every row paired: present
/// together or absent together.
pub proof fn law_scores_stay_paired(s: StoreView, item: RemoteSeriesView)
    requires
        s.scores_paired(),
    ensures
        step(s, item).scores_paired(),
{
    let r = reconciled(s, item);
    assert(r.scores_paired()) by {
        assert forall|i: int| 0 <= i < r.series.len() implies (#[trigger] r.series[i]).scores_paired() by {
            if i < s.series.len() {
                assert(s.series[i].scores_paired());
            }
        }
    }
    let f = filled(s, item);
    assert(f.scores_paired()) by {
        if wants_backfill(s, item) && backfill_ready(item) {
            let summary = item.summary->0;
            lemma_add_participants_frame(r, item.node.id, summary.participants);
            assert forall|i: int| 0 <= i < f.series.len() implies (#[trigger] f.series[i]).scores_paired() by {
                assert(r.series[i].scores_paired());
            }
        }
    }
    let t = step(s, item);
    assert(t.series == f.series || t.series == s.series);
    assert forall|i: int| 0 <= i < t.series.len() implies (#[trigger] t.series[i]).scores_paired() by {
        if t.series == f.series {
            assert(f.series[i].scores_paired());
        } else {
            assert(s.series[i].scores_paired());
        }
    }
}

/// A pass over the items of a listing keeps the scores of every row paired.
pub proof fn law_run_keeps_scores_paired(s: StoreView, items: Seq<RemoteSeriesView>)
    requires
        s.scores_paired(),
    ensures
        run(s, items).scores_paired(),
    decreases items.len(),
{
    if items.len() > 0 {
        law_run_keeps_scores_paired(s, items.drop_last());
        law_scores_stay_paired(run(s, items.drop_last()), items.last());
    }
}

/// Whether a stored row has both scores.
pub fn is_scored(row: &Series) -> (r: bool)
    ensures
        r == row@.scored(),
{
    row.team1_score.is_some() && row.team2_score.is_some()
}

/// What a pass will ask of the remote service for a node, before it is
/// made: whether the node is skipped, and whether its backfill is wanted.
#[derive(Debug, PartialEq, Eq, Clone, Copy, Structural)]
pub struct Plan {
    pub skip: bool,
    pub backfill: bool,
}

/// Plans the pass over a node: a node with fewer than two teams is skipped;
/// the backfill is wanted exactly where the pass will attempt it.
pub fn plan(store: &Store, node: &SeriesNode) -> (r: Plan)
    ensures
        r.skip == (node@.teams.len() < TEAMS_PER_SERIES),
        r.backfill == node_wants_backfill(store@, node@),
{
    if node.teams.len() < TEAMS_PER_SERIES {
        return Plan { skip: true, backfill: false };
    }
    let backfill = match store.find_series(node.id.as_str()) {
        Some(existing) => !is_scored(existing),
        None => store.has_room_for_series(),
    };
    Plan { skip: false, backfill }
}

/// Whether the scores of a series are asked for: its backfill is wanted.
pub fn wants_scores(plan: &Plan) -> (r: bool)
    ensures
        r == plan.backfill,
{
    plan.backfill
}

/// Whether the game summary of a series is asked for: its backfill is
/// wanted and its scores could be had. Without the scores the backfill is
/// given up, and no summary is asked for.
pub fn wants_summary(plan: &Plan, scores: &Option<(i32, i32)>) -> (r: bool)
    ensures
        r == (plan.backfill && scores is Some),
{
    plan.backfill && scores.is_some()
}

/// Whether the event log of a series is asked for: the node is not skipped.
pub fn wants_event_log(plan: &Plan) -> (r: bool)
    ensures
        r == !plan.skip,
{
    !plan.skip
}

/// Applies the backfill of a series: stores its new participants, then sets
/// its scores and patch. Returns how many participant rows were inserted.
pub fn apply_backfill(
    store: &mut Store,
    series_id: &str,
    scores: (i32, i32),
    summary: &GameSummary,
) -> (r: usize)
    ensures
        final(store)@ == add_participants(
            old(store)@,
            series_id@,
            summary@.participants,
        ).update_scores(series_id@, scores.0, scores.1, summary@.game_version),
        r == final(store)@.participants.len() - old(store)@.participants.len(),
{
    let added = store_participants(store, series_id, &summary.participants);
    store.update_scores(series_id, scores.0, scores.1, summary.game_version.as_str());
    added
}

/// One pass over one series of a listing. The node is reconciled with the
/// replica: skipped where it has fewer than two teams, inserted where the
/// series is new, updated where its listing details changed. A series that
/// is new, or lacks a score, is backfilled where the item has both the
/// scores and the summary. The event log is saved where the item has one.
pub fn sync_series(store: &mut Store, item: &RemoteSeries) -> (r: SeriesOutcome)
    ensures
        final(store)@ == step(old(store)@, item@),
        r == outcome_of(old(store)@, item@),
        old(store)@.scores_paired() ==> final(store)@.scores_paired(),
{
    proof {
        if old(store)@.scores_paired() {
            law_scores_stay_paired(old(store)@, item@);
        }
    }
    let node = &item.node;
    if node.teams.len() < TEAMS_PER_SERIES {
        return SeriesOutcome {
            change: SeriesChange::Skipped,
            backfilled: false,
            participants_added: 0,
            event_log: LogChange::Untouched,
        };
    }
    let details = listing_details(node);
    let series_id = node.id.as_str();
    let (known, same, scored) = match store.find_series(series_id) {
        Some(existing) => (true, same_details(existing, &details), is_scored(existing)),
        None => (false, false, false),
    };
    let change = if known {
        if same {
            SeriesChange::Unchanged
        } else {
            store.update_details(&details);
            SeriesChange::Updated
        }
    } else {
        match store.insert_series(&details) {
            Ok(_) => SeriesChange::Inserted,
            Err(_) => {
                return SeriesOutcome {
                    change: SeriesChange::InsertFailed,
                    backfilled: false,
                    participants_added: 0,
                    event_log: LogChange::Untouched,
                };
            },
        }
    };
    assert(store@ == reconciled(old(store)@, item@));
    assert(change == change_of(old(store)@, item@));
    let mut backfilled = false;
    let mut participants_added: usize = 0;
    if !known || !scored {
        match (item.scores, &item.summary) {
            (Some(scores), Some(summary)) => {
                participants_added = apply_backfill(store, series_id, scores, summary);
                backfilled = true;
            },
            _ => {},
        }
    }
    assert(store@ == filled(old(store)@, item@));
    proof {
        let r0 = reconciled(old(store)@, item@);
        assert(r0.participants == old(store)@.participants);
        if backfilled {
            lemma_add_participants_frame(r0, item@.node.id, item@.summary->0.participants);
        }
    }
    let event_log = match &item.event_log {
        Some(log) => match store.save_event_log(
            &NewEventLog { series_id, event_log: log.as_str() },
        ) {
            Ok(Saved::Inserted) => LogChange::Inserted,
            Ok(Saved::Overwritten) => LogChange::Overwritten,
            Err(_) => LogChange::Refused,
        },
        None => LogChange::Untouched,
    };
    SeriesOutcome { change, backfilled, participants_added, event_log }
}

/// What a pass over the items of a listing page did: how many series rows
/// it inserted, and what it did for each item, in order.
#[derive(Debug)]
pub struct PageReport {
    pub inserted: usize,
    pub outcomes: Vec<SeriesOutcome>,
}

/// What a pass over the items of a listing reports for each item, in
/// order.
pub open spec fn outcomes_of(s: StoreView, items: Seq<RemoteSeriesView>) -> Seq<SeriesOutcome>
    decreases items.len(),
{
    if items.len() == 0 {
        Seq::empty()
    } else {
        outcomes_of(s, items.drop_last()).push(
            outcome_of(run(s, items.drop_last()), items.last()),
        )
    }
}

/// One pass over the items of a listing page, in order.
pub fn sync_page(store: &mut Store, items: &Vec<RemoteSeries>) -> (r: PageReport)
    ensures
        final(store)@ == run(old(store)@, items.deep_view()),
        r.inserted == inserted_count(old(store)@, items.deep_view()),
        r.inserted <= items.len(),
        r.outcomes@ == outcomes_of(old(store)@, items.deep_view()),
        old(store)@.scores_paired() ==> final(store)@.scores_paired(),
{
    let mut inserted: usize = 0;
    let mut outcomes: Vec<SeriesOutcome> = Vec::new();
    let mut i: usize = 0;
    assert(items.deep_view().subrange(0, 0) =~= Seq::<RemoteSeriesView>::empty());
    while i < items.len()
        invariant
            i <= items.len(),
            inserted <= i,
            store@ == run(old(store)@, items.deep_view().subrange(0, i as int)),
            inserted == inserted_count(old(store)@, items.deep_view().subrange(0, i as int)),
            outcomes@ == outcomes_of(old(store)@, items.deep_view().subrange(0, i as int)),
            old(store)@.scores_paired() ==> store@.scores_paired(),
        decreases items.len() - i,
    {
        let ghost upto = items.deep_view().subrange(0, i + 1);
        assert(upto.drop_last() =~= items.deep_view().subrange(0, i as int));
        assert(upto.last() == items[i as int]@);
        let outcome = sync_series(store, &items[i]);
        if outcome.change == SeriesChange::Inserted {
            inserted += 1;
        }
        outcomes.push(outcome);
        i += 1;
    }
    assert(items.deep_view().subrange(0, i as int) =~= items.deep_view());
    PageReport { inserted, outcomes }
}

} // verus!
