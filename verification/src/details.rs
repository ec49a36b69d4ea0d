//! Filtering series details that the caller holds in memory.
//!
//! A detail carries what the replica would hold of a series: its state, the
//! participants of its game, its patch and its event log. The filter asks of
//! a detail what the query engine asks of a series of the replica, and says
//! which details pass.

use crate::filter::{
    check_bans, check_date, check_outcome, check_patch, check_picks, check_players, check_teams,
    series_passes, FilterConfig, FilterView,
};
use crate::models::{
    copy_opt_text, opt_as_str, opt_str_view, Participant, ParticipantView, Series, SeriesView,
};
use crate::remote::{BaseInfoView, GameStats, GameStatsView, SeriesTeam, SeriesTeamView};
use crate::store::lemma_filter_last;
use crate::sync::participant_row;
use vstd::prelude::*;

verus! {

/// The state of a series, with its identifier and its scheduled time.
#[derive(Debug)]
pub struct SeriesStateWithId {
    pub id: String,
    pub finished: bool,
    pub teams: Vec<SeriesTeam>,
    pub start_time_scheduled: Option<String>,
}

/// The view of a [`SeriesStateWithId`].
pub struct SeriesStateWithIdView {
    pub id: Seq<char>,
    pub finished: bool,
    pub teams: Seq<SeriesTeamView>,
    pub start_time_scheduled: Option<Seq<char>>,
}

impl View for SeriesStateWithId {
    type V = SeriesStateWithIdView;

    open spec fn view(&self) -> SeriesStateWithIdView {
        SeriesStateWithIdView {
            id: self.id@,
            finished: self.finished,
            teams: self.teams.deep_view(),
            start_time_scheduled: self.start_time_scheduled.deep_view(),
        }
    }
}

/// A series with the participants of its game, its patch and its event
/// log, `None` where it has none.
#[derive(Debug)]
pub struct FilteredSeriesDetail {
    pub series_state: SeriesStateWithId,
    pub participants: Vec<GameStats>,
    pub patch: String,
    pub event_log: Option<String>,
}

/// The view of a [`FilteredSeriesDetail`].
pub struct FilteredSeriesDetailView {
    pub series_state: SeriesStateWithIdView,
    pub participants: Seq<GameStatsView>,
    pub patch: Seq<char>,
    pub event_log: Option<Seq<char>>,
}

impl View for FilteredSeriesDetail {
    type V = FilteredSeriesDetailView;

    open spec fn view(&self) -> FilteredSeriesDetailView {
        FilteredSeriesDetailView {
            series_state: self.series_state@,
            participants: self.participants.deep_view(),
            patch: self.patch@,
            event_log: self.event_log.deep_view(),
        }
    }
}

impl DeepView for FilteredSeriesDetail {
    type V = FilteredSeriesDetailView;

    open spec fn deep_view(&self) -> FilteredSeriesDetailView {
        self@
    }
}

/// The team at position `i` of a state, where it has one.
pub open spec fn team_at(state: SeriesStateWithIdView, i: int) -> Option<SeriesTeamView> {
    if 0 <= i < state.teams.len() {
        Some(state.teams[i])
    } else {
        None
    }
}

/// The identifier of a team, where there is a team and it has one.
pub open spec fn team_id_of(team: Option<SeriesTeamView>) -> Option<Seq<char>> {
    match team {
        Some(t) => t.id,
        None => None,
    }
}

/// The score of a team, where there is a team, cut to 32 bits as the
/// replica cuts scores.
pub open spec fn team_score_of(team: Option<SeriesTeamView>) -> Option<i32> {
    match team {
        Some(t) => Some(t.score as i32),
        None => None,
    }
}

/// The identity of a team, where there is a team and its state names one.
pub open spec fn team_info_of(team: Option<SeriesTeamView>) -> Option<BaseInfoView> {
    match team {
        Some(t) => t.base_info,
        None => None,
    }
}

/// The name in an identity, where there is one.
pub open spec fn info_name(info: Option<BaseInfoView>) -> Option<Seq<char>> {
    match info {
        Some(i) => i.name,
        None => None,
    }
}

/// The logo in an identity, where there is one.
pub open spec fn info_logo(info: Option<BaseInfoView>) -> Option<Seq<char>> {
    match info {
        Some(i) => i.logo_url,
        None => None,
    }
}

/// The series row that a detail stands for: its state and patch, with the
/// first two teams of the state in the two team slots. A slot without a
/// team is empty.
pub open spec fn detail_series(detail: FilteredSeriesDetailView) -> SeriesView {
    let state = detail.series_state;
    let team1 = team_at(state, 0);
    let team2 = team_at(state, 1);
    SeriesView {
        id: 0,
        series_id: state.id,
        finished: state.finished,
        start_time_scheduled: state.start_time_scheduled,
        patch: detail.patch,
        team1_id: team_id_of(team1),
        team1_score: team_score_of(team1),
        team1_name: info_name(team_info_of(team1)),
        team1_logo: info_logo(team_info_of(team1)),
        team2_id: team_id_of(team2),
        team2_score: team_score_of(team2),
        team2_name: info_name(team_info_of(team2)),
        team2_logo: info_logo(team_info_of(team2)),
    }
}

/// The participant rows that a detail stands for.
pub open spec fn detail_participants(detail: FilteredSeriesDetailView) -> Seq<ParticipantView> {
    detail.participants.map_values(|g: GameStatsView| participant_row(detail.series_state.id, g))
}

/// Whether a detail passes a filter: whether the series that it stands for
/// passes every predicate, with its participants and its event log.
pub open spec fn detail_passes(
    detail: FilteredSeriesDetailView,
    filter: FilterView,
    my_team: Option<Seq<char>>,
) -> bool {
    series_passes(
        detail_series(detail),
        detail_participants(detail),
        detail.event_log,
        filter,
        my_team,
    )
}

/// The positions of the details that pass a filter, in rising order.
pub open spec fn kept_positions(
    details: Seq<FilteredSeriesDetailView>,
    filter: FilterView,
    my_team: Option<Seq<char>>,
) -> Seq<int> {
    Seq::new(details.len(), |i: int| i).filter(
        |i: int| 0 <= i < details.len() && detail_passes(details[i], filter, my_team),
    )
}

impl FilteredSeriesDetail {
    /// The series row that the detail stands for.
    pub fn series_row(&self) -> (r: Series)
        ensures
            r@ == detail_series(self@),
    {
        let teams = &self.series_state.teams;
        let team1 = if teams.len() > 0 {
            Some(&teams[0])
        } else {
            None
        };
        let team2 = if teams.len() > 1 {
            Some(&teams[1])
        } else {
            None
        };
        assert(held_team(team1) == team_at(self@.series_state, 0));
        assert(held_team(team2) == team_at(self@.series_state, 1));
        Series {
            id: 0,
            series_id: self.series_state.id.clone(),
            finished: self.series_state.finished,
            start_time_scheduled: copy_opt_text(&self.series_state.start_time_scheduled),
            patch: self.patch.clone(),
            team1_id: slot_id(team1),
            team1_score: slot_score(team1),
            team1_name: slot_name(team1),
            team1_logo: slot_logo(team1),
            team2_id: slot_id(team2),
            team2_score: slot_score(team2),
            team2_name: slot_name(team2),
            team2_logo: slot_logo(team2),
        }
    }

    /// The participant rows that the detail stands for.
    pub fn participant_rows(&self) -> (r: Vec<Participant>)
        ensures
            r.deep_view() == detail_participants(self@),
    {
        let ghost row = |g: GameStatsView| participant_row(self@.series_state.id, g);
        let mut rows: Vec<Participant> = Vec::new();
        let mut i: usize = 0;
        assert(rows.deep_view() =~= self@.participants.subrange(0, 0).map_values(row));
        while i < self.participants.len()
            invariant
                i <= self.participants.len(),
                row == (|g: GameStatsView| participant_row(self@.series_state.id, g)),
                rows.deep_view() == self@.participants.subrange(0, i as int).map_values(row),
            decreases self.participants.len() - i,
        {
            let ghost before = rows.deep_view();
            let stats = &self.participants[i];
            rows.push(
                Participant {
                    id: 0,
                    series_id: self.series_state.id.clone(),
                    player_id: stats.player_id.clone(),
                    player_name: stats.player_name.clone(),
                    champion_name: stats.champion_name.clone(),
                    stats_json: stats.stats_json.clone(),
                },
            );
            assert(rows.deep_view() =~= before.push(row(stats@)));
            assert(self@.participants.subrange(0, i + 1).map_values(row) =~= before.push(
                row(stats@),
            ));
            i += 1;
        }
        assert(self@.participants.subrange(0, i as int) =~= self@.participants);
        rows
    }
}

/// The team behind an optional reference.
pub open spec fn held_team(team: Option<&SeriesTeam>) -> Option<SeriesTeamView> {
    match team {
        Some(t) => Some(t@),
        None => None,
    }
}

/// The identifier of a team slot.
fn slot_id(team: Option<&SeriesTeam>) -> (r: Option<String>)
    ensures
        r.deep_view() == team_id_of(held_team(team)),
{
    match team {
        Some(t) => copy_opt_text(&t.id),
        None => None,
    }
}

/// The score of a team slot, cut to 32 bits.
fn slot_score(team: Option<&SeriesTeam>) -> (r: Option<i32>)
    ensures
        r == team_score_of(held_team(team)),
{
    match team {
        Some(t) => {
            let score = #[verifier::truncate]
            (t.score as i32);
            Some(score)
        },
        None => None,
    }
}

/// The name of a team slot.
fn slot_name(team: Option<&SeriesTeam>) -> (r: Option<String>)
    ensures
        r.deep_view() == info_name(team_info_of(held_team(team))),
{
    match team {
        Some(t) => match &t.base_info {
            Some(info) => copy_opt_text(&info.name),
            None => None,
        },
        None => None,
    }
}

/// The logo of a team slot.
fn slot_logo(team: Option<&SeriesTeam>) -> (r: Option<String>)
    ensures
        r.deep_view() == info_logo(team_info_of(held_team(team))),
{
    match team {
        Some(t) => match &t.base_info {
            Some(info) => copy_opt_text(&info.logo_url),
            None => None,
        },
        None => None,
    }
}

/// Whether a detail passes the filter. `my_team_id` is the identifier of
/// the team whose wins and losses the outcome predicate asks for, where it
/// could be resolved.
pub fn detail_matches(
    detail: &FilteredSeriesDetail,
    filters: &FilterConfig,
    my_team_id: Option<&str>,
) -> (r: bool)
    ensures
        r == detail_passes(detail@, filters@, opt_str_view(my_team_id)),
{
    let series = detail.series_row();
    if !(check_patch(&series, filters) && check_date(&series, filters) && check_outcome(
        &series,
        filters,
        my_team_id,
    ) && check_teams(&series, filters)) {
        return false;
    }
    let participants = detail.participant_rows();
    let log = opt_as_str(&detail.event_log);
    check_picks(&participants, filters) && check_bans(log, filters) && check_players(
        &participants,
        filters,
    )
}

/// The positions of the details that pass the filter, in rising order. The
/// caller keeps the details at these positions, whatever else each record
/// holds.
pub fn filter_series(
    series_details: &Vec<FilteredSeriesDetail>,
    filters: &FilterConfig,
    my_team_id: Option<&str>,
) -> (r: Vec<usize>)
    ensures
        r@.map_values(|p: usize| p as int) == kept_positions(
            series_details.deep_view(),
            filters@,
            opt_str_view(my_team_id),
        ),
        forall|k: int| 0 <= k < r@.len() ==> r@[k] < series_details.len(),
{
    let ghost all = series_details.deep_view();
    let ghost me = opt_str_view(my_team_id);
    let ghost positions = Seq::new(all.len(), |i: int| i);
    let ghost pass = |i: int| 0 <= i < all.len() && detail_passes(all[i], filters@, me);
    let mut kept: Vec<usize> = Vec::new();
    let mut i: usize = 0;
    assert(positions.subrange(0, 0) =~= Seq::<int>::empty());
    assert(kept@.map_values(|p: usize| p as int) =~= Seq::<int>::empty());
    while i < series_details.len()
        invariant
            i <= series_details.len(),
            all == series_details.deep_view(),
            me == opt_str_view(my_team_id),
            positions == Seq::new(all.len(), |i: int| i),
            pass == (|i: int| 0 <= i < all.len() && detail_passes(all[i], filters@, me)),
            kept@.map_values(|p: usize| p as int) == positions.subrange(0, i as int).filter(pass),
            forall|k: int| 0 <= k < kept@.len() ==> kept@[k] < series_details.len(),
        decreases series_details.len() - i,
    {
        let ghost before = kept@.map_values(|p: usize| p as int);
        proof {
            let upto = positions.subrange(0, i + 1);
            assert(upto.drop_last() =~= positions.subrange(0, i as int));
            assert(upto.last() == i as int);
            lemma_filter_last(upto, pass);
        }
        if detail_matches(&series_details[i], filters, my_team_id) {
            kept.push(i);
            assert(kept@.map_values(|p: usize| p as int) =~= before.push(i as int));
        }
        i += 1;
    }
    assert(positions.subrange(0, i as int) =~= positions);
    kept
}

} // verus!
