//! The filter and its predicates.
//!
//! A filter is a conjunction of predicates on a series, its participants and
//! its event log. A predicate whose part of the filter is empty is disabled
//! and passes every series.

use crate::events::{bans, extract_banned_champions, log_events};
use crate::models::{Participant, ParticipantView, Series, SeriesView};
use crate::patch::{patch_matches, patches_agree};
use crate::text::{contains_text, holds_text, str_before, str_eq, text_before};
use vstd::prelude::*;

verus! {

/// An inclusive range of scheduled times; either bound may be open.
#[derive(Debug)]
pub struct DateRange {
    pub from: Option<String>,
    pub to: Option<String>,
}

/// A champion chosen in the filter. `champ` is the name that participants
/// and event logs carry.
#[derive(Debug)]
pub struct ChampionSelection {
    pub value: String,
    pub label: String,
    pub champ: String,
}

/// A team chosen in the filter. `value` is the team's name.
#[derive(Debug)]
pub struct TeamFilter {
    pub value: String,
    pub label: String,
}

/// A player chosen in the filter. `value` is the player's name.
#[derive(Debug)]
pub struct PlayerFilter {
    pub value: String,
    pub label: String,
}

/// How a list of champions is matched: `Any` asks for at least one of them,
/// `Only` for every one.
#[derive(Debug, PartialEq, Eq, Clone, Copy, Structural)]
pub enum Modes {
    Any,
    Only,
}

/// The filter: what a query asks of a series.
#[derive(Debug)]
pub struct FilterConfig {
    pub date_range: DateRange,
    pub wins: bool,
    pub losses: bool,
    pub patch: String,
    pub champions_picked: Vec<ChampionSelection>,
    pub champ_picked_mode: Modes,
    pub champions_banned: Vec<ChampionSelection>,
    pub champ_banned_mode: Modes,
    pub teams: Vec<TeamFilter>,
    pub players: Vec<PlayerFilter>,
}

/// The view of a [`FilterConfig`]: the bounds, the flags, the patch, and the
/// names that each list asks for.
pub struct FilterView {
    pub from: Option<Seq<char>>,
    pub to: Option<Seq<char>>,
    pub wins: bool,
    pub losses: bool,
    pub patch: Seq<char>,
    pub champions_picked: Seq<Seq<char>>,
    pub champ_picked_mode: Modes,
    pub champions_banned: Seq<Seq<char>>,
    pub champ_banned_mode: Modes,
    pub teams: Seq<Seq<char>>,
    pub players: Seq<Seq<char>>,
}

/// The champion names of a list of selections.
pub open spec fn champion_names(list: Seq<ChampionSelection>) -> Seq<Seq<char>> {
    list.map_values(|c: ChampionSelection| c.champ@)
}

/// The team names of a list of team filters.
pub open spec fn team_names(list: Seq<TeamFilter>) -> Seq<Seq<char>> {
    list.map_values(|t: TeamFilter| t.value@)
}

/// The player names of a list of player filters.
pub open spec fn player_names(list: Seq<PlayerFilter>) -> Seq<Seq<char>> {
    list.map_values(|p: PlayerFilter| p.value@)
}

impl View for FilterConfig {
    type V = FilterView;

    open spec fn view(&self) -> FilterView {
        FilterView {
            from: self.date_range.from.deep_view(),
            to: self.date_range.to.deep_view(),
            wins: self.wins,
            losses: self.losses,
            patch: self.patch@,
            champions_picked: champion_names(self.champions_picked@),
            champ_picked_mode: self.champ_picked_mode,
            champions_banned: champion_names(self.champions_banned@),
            champ_banned_mode: self.champ_banned_mode,
            teams: team_names(self.teams@),
            players: player_names(self.players@),
        }
    }
}

/// Patch predicate: the filter names no patch, or the series' patch agrees
/// with it.
pub open spec fn patch_passes(series: SeriesView, filter: FilterView) -> bool {
    filter.patch.len() == 0 || patches_agree(series.patch, filter.patch)
}

/// Date predicate: no bound is set, or the series has a scheduled time that
/// lies within the bounds, both inclusive.
pub open spec fn date_passes(series: SeriesView, filter: FilterView) -> bool {
    (filter.from is None && filter.to is None) || match series.start_time_scheduled {
        Some(start) => {
            &&& filter.from matches Some(from) ==> !text_before(start, from)
            &&& filter.to matches Some(to) ==> !text_before(to, start)
        },
        None => false,
    }
}

/// Whether the team `me` won: it is one of the two teams and its score is
/// not lower than the other's.
pub open spec fn team_won(
    team1: Seq<char>,
    score1: i32,
    team2: Seq<char>,
    score2: i32,
    me: Seq<char>,
) -> bool {
    (team1 == me && score1 >= score2) || (team2 == me && score2 >= score1)
}

/// Whether the team `me` lost: it is one of the two teams and its score is
/// lower than the other's.
pub open spec fn team_lost(
    team1: Seq<char>,
    score1: i32,
    team2: Seq<char>,
    score2: i32,
    me: Seq<char>,
) -> bool {
    (team1 == me && score1 < score2) || (team2 == me && score2 < score1)
}

/// Outcome predicate: neither wins nor losses are asked for; or the series
/// has both team identifiers and both scores and, where my team is known,
/// my team won and wins are asked for, or it lost and losses are asked for.
pub open spec fn outcome_passes(
    series: SeriesView,
    filter: FilterView,
    my_team: Option<Seq<char>>,
) -> bool {
    !(filter.wins || filter.losses) || match (
        series.team1_id,
        series.team1_score,
        series.team2_id,
        series.team2_score,
    ) {
        (Some(team1), Some(score1), Some(team2), Some(score2)) => match my_team {
            Some(me) => (filter.wins && team_won(team1, score1, team2, score2, me)) || (
            filter.losses && team_lost(team1, score1, team2, score2, me)),
            None => true,
        },
        _ => false,
    }
}

/// Whether an optional name is one of `names`.
pub open spec fn named_in(name: Option<Seq<char>>, names: Seq<Seq<char>>) -> bool {
    match name {
        Some(n) => holds_text(names, n),
        None => false,
    }
}

/// Team predicate: no team is asked for, or one of the two team names is
/// among those asked for.
pub open spec fn team_passes(series: SeriesView, filter: FilterView) -> bool {
    filter.teams.len() == 0 || named_in(series.team1_name, filter.teams) || named_in(
        series.team2_name,
        filter.teams,
    )
}

/// Whether one of the participants played the champion.
pub open spec fn played(participants: Seq<ParticipantView>, champion: Seq<char>) -> bool {
    exists|i: int|
        0 <= i < participants.len() && (#[trigger] participants[i]).champion_name == champion
}

/// Whether at least one of the champions was played.
pub open spec fn any_played(participants: Seq<ParticipantView>, champions: Seq<Seq<char>>) -> bool {
    exists|k: int| 0 <= k < champions.len() && played(participants, #[trigger] champions[k])
}

/// Whether every one of the champions was played.
pub open spec fn all_played(participants: Seq<ParticipantView>, champions: Seq<Seq<char>>) -> bool {
    forall|k: int| 0 <= k < champions.len() ==> played(participants, #[trigger] champions[k])
}

/// Pick predicate: no champion is asked for; or, in mode `Any`, one of
/// those asked for was played; or, in mode `Only`, every one was.
pub open spec fn picks_pass(participants: Seq<ParticipantView>, filter: FilterView) -> bool {
    filter.champions_picked.len() == 0 || match filter.champ_picked_mode {
        Modes::Any => any_played(participants, filter.champions_picked),
        Modes::Only => all_played(participants, filter.champions_picked),
    }
}

/// Whether at least one of the champions `wanted` is among `banned`.
pub open spec fn any_banned(banned: Seq<Seq<char>>, wanted: Seq<Seq<char>>) -> bool {
    exists|k: int| 0 <= k < wanted.len() && holds_text(banned, #[trigger] wanted[k])
}

/// The champions banned in a series: those of its event log, none where the
/// series has no event log.
pub open spec fn bans_recorded(event_log: Option<Seq<char>>) -> Seq<Seq<char>> {
    match event_log {
        Some(log) => bans(log_events(log)),
        None => Seq::empty(),
    }
}

/// Ban predicate: no banned champion is asked for, or one of those asked
/// for was banned in the series.
pub open spec fn bans_pass(event_log: Option<Seq<char>>, filter: FilterView) -> bool {
    filter.champions_banned.len() == 0 || any_banned(
        bans_recorded(event_log),
        filter.champions_banned,
    )
}

/// The ban predicate in its excluding reading: no banned champion is asked
/// for, or none of those asked for was banned in the series. The query
/// engine does not use this reading.
pub open spec fn bans_absent(event_log: Option<Seq<char>>, filter: FilterView) -> bool {
    filter.champions_banned.len() == 0 || !any_banned(
        bans_recorded(event_log),
        filter.champions_banned,
    )
}

/// Where banned champions are asked for, the two readings of the ban
/// predicate exclude each other: a series passes exactly one of them.
pub proof fn law_ban_readings_oppose(event_log: Option<Seq<char>>, filter: FilterView)
    requires
        filter.champions_banned.len() > 0,
    ensures
        bans_pass(event_log, filter) != bans_absent(event_log, filter),
{
}

/// A filter without a patch passes every series by its patch.
pub proof fn law_empty_patch_passes(series: SeriesView, filter: FilterView)
    requires
        filter.patch.len() == 0,
    ensures
        patch_passes(series, filter),
{
}

/// An empty filter passes every series: each predicate is disabled.
pub proof fn law_empty_filter_passes(
    series: SeriesView,
    participants: Seq<ParticipantView>,
    event_log: Option<Seq<char>>,
    filter: FilterView,
    my_team: Option<Seq<char>>,
)
    requires
        filter.patch.len() == 0,
        filter.from is None,
        filter.to is None,
        !filter.wins,
        !filter.losses,
        filter.teams.len() == 0,
        filter.champions_picked.len() == 0,
        filter.champions_banned.len() == 0,
        filter.players.len() == 0,
    ensures
        series_passes(series, participants, event_log, filter, my_team),
{
}

/// My team won or lost a series exactly if it is one of its two teams: a
/// tie is a win. Where the two teams differ, no series is both won and lost.
pub proof fn law_every_outcome_is_win_or_loss(
    team1: Seq<char>,
    score1: i32,
    team2: Seq<char>,
    score2: i32,
    me: Seq<char>,
)
    ensures
        team_won(team1, score1, team2, score2, me) || team_lost(team1, score1, team2, score2, me)
            <==> team1 == me || team2 == me,
        team1 != team2 ==> !(team_won(team1, score1, team2, score2, me) && team_lost(
            team1,
            score1,
            team2,
            score2,
            me,
        )),
{
}

/// Of two different teams with different scores, the one with the higher
/// score won and did not lose, and the other lost and did not win.
pub proof fn law_winner_and_loser(team1: Seq<char>, score1: i32, team2: Seq<char>, score2: i32)
    requires
        team1 != team2,
        score1 > score2,
    ensures
        team_won(team1, score1, team2, score2, team1),
        !team_lost(team1, score1, team2, score2, team1),
        team_lost(team1, score1, team2, score2, team2),
        !team_won(team1, score1, team2, score2, team2),
{
}

/// Where champions are asked for, a series that passes the pick predicate
/// in mode `Only` passes it in mode `Any`; and one played champion among
/// those asked for is enough for mode `Any`.
pub proof fn law_only_is_stricter_than_any(
    participants: Seq<ParticipantView>,
    champions: Seq<Seq<char>>,
    k: int,
)
    requires
        0 <= k < champions.len(),
    ensures
        all_played(participants, champions) ==> any_played(participants, champions),
        played(participants, champions[k]) ==> any_played(participants, champions),
{
    if all_played(participants, champions) {
        assert(played(participants, champions[0]));
    }
}

/// Player predicate: no player is asked for, or one of the participants has
/// a name among those asked for.
pub open spec fn players_pass(participants: Seq<ParticipantView>, filter: FilterView) -> bool {
    filter.players.len() == 0 || exists|i: int|
        0 <= i < participants.len() && holds_text(
            filter.players,
            (#[trigger] participants[i]).player_name,
        )
}

/// The conjunction of all predicates.
pub open spec fn series_passes(
    series: SeriesView,
    participants: Seq<ParticipantView>,
    event_log: Option<Seq<char>>,
    filter: FilterView,
    my_team: Option<Seq<char>>,
) -> bool {
    &&& patch_passes(series, filter)
    &&& date_passes(series, filter)
    &&& outcome_passes(series, filter, my_team)
    &&& team_passes(series, filter)
    &&& picks_pass(participants, filter)
    &&& bans_pass(event_log, filter)
    &&& players_pass(participants, filter)
}

/// Patch predicate.
pub fn check_patch(series: &Series, filters: &FilterConfig) -> (r: bool)
    ensures
        r == patch_passes(series@, filters@),
{
    filters.patch.as_str().is_empty() || patch_matches(
        series.patch.as_str(),
        filters.patch.as_str(),
    )
}

/// Date predicate.
pub fn check_date(series: &Series, filters: &FilterConfig) -> (r: bool)
    ensures
        r == date_passes(series@, filters@),
{
    if filters.date_range.from.is_none() && filters.date_range.to.is_none() {
        return true;
    }
    match &series.start_time_scheduled {
        Some(start) => {
            let after_from = match &filters.date_range.from {
                Some(from) => !str_before(start.as_str(), from.as_str()),
                None => true,
            };
            let before_to = match &filters.date_range.to {
                Some(to) => !str_before(to.as_str(), start.as_str()),
                None => true,
            };
            after_from && before_to
        },
        None => false,
    }
}

/// Outcome predicate.
pub fn check_outcome(series: &Series, filters: &FilterConfig, my_team_id: Option<&str>) -> (r:
    bool)
    ensures
        r == outcome_passes(series@, filters@, crate::models::opt_str_view(my_team_id)),
{
    if !(filters.wins || filters.losses) {
        return true;
    }
    match (&series.team1_id, series.team1_score, &series.team2_id, series.team2_score) {
        (Some(team1), Some(score1), Some(team2), Some(score2)) => match my_team_id {
            Some(me) => {
                let is_team1 = str_eq(team1.as_str(), me);
                let is_team2 = str_eq(team2.as_str(), me);
                let my_team_won = (is_team1 && score1 >= score2) || (is_team2 && score2 >= score1);
                let my_team_lost = (is_team1 && score1 < score2) || (is_team2 && score2 < score1);
                (filters.wins && my_team_won) || (filters.losses && my_team_lost)
            },
            None => true,
        },
        _ => false,
    }
}

/// Whether an optional team name is the value of one of the team filters.
#[verifier::loop_isolation(false)]
fn team_allowed(name: &Option<String>, teams: &Vec<TeamFilter>) -> (r: bool)
    ensures
        r == named_in(name.deep_view(), team_names(teams@)),
{
    match name {
        Some(n) => {
            let mut k: usize = 0;
            while k < teams.len()
                invariant
                    k <= teams.len(),
                    forall|j: int| 0 <= j < k ==> team_names(teams@)[j] != n@,
                decreases teams.len() - k,
            {
                if str_eq(teams[k].value.as_str(), n.as_str()) {
                    assert(team_names(teams@)[k as int] == n@);
                    return true;
                }
                k += 1;
            }
            false
        },
        None => false,
    }
}

/// Team predicate.
pub fn check_teams(series: &Series, filters: &FilterConfig) -> (r: bool)
    ensures
        r == team_passes(series@, filters@),
{
    filters.teams.len() == 0 || team_allowed(&series.team1_name, &filters.teams) || team_allowed(
        &series.team2_name,
        &filters.teams,
    )
}

/// Whether one of the participants played the champion.
fn champion_played(participants: &Vec<Participant>, champion: &str) -> (r: bool)
    ensures
        r == played(participants.deep_view(), champion@),
{
    let mut i: usize = 0;
    while i < participants.len()
        invariant
            i <= participants.len(),
            forall|j: int|
                0 <= j < i ==> (#[trigger] participants.deep_view()[j]).champion_name
                    != champion@,
        decreases participants.len() - i,
    {
        if str_eq(participants[i].champion_name.as_str(), champion) {
            assert(participants.deep_view()[i as int].champion_name == champion@);
            return true;
        }
        i += 1;
    }
    false
}

/// Pick predicate.
#[verifier::loop_isolation(false)]
pub fn check_picks(participants: &Vec<Participant>, filters: &FilterConfig) -> (r: bool)
    ensures
        r == picks_pass(participants.deep_view(), filters@),
{
    let wanted = &filters.champions_picked;
    if wanted.len() == 0 {
        return true;
    }
    let ghost names = champion_names(wanted@);
    let mut k: usize = 0;
    match filters.champ_picked_mode {
        Modes::Any => {
            while k < wanted.len()
                invariant
                    k <= wanted.len(),
                    names == champion_names(wanted@),
                    forall|j: int|
                        0 <= j < k ==> !played(participants.deep_view(), #[trigger] names[j]),
                decreases wanted.len() - k,
            {
                if champion_played(participants, wanted[k].champ.as_str()) {
                    assert(played(participants.deep_view(), names[k as int]));
                    return true;
                }
                k += 1;
            }
            false
        },
        Modes::Only => {
            while k < wanted.len()
                invariant
                    k <= wanted.len(),
                    names == champion_names(wanted@),
                    forall|j: int|
                        0 <= j < k ==> played(participants.deep_view(), #[trigger] names[j]),
                decreases wanted.len() - k,
            {
                if !champion_played(participants, wanted[k].champ.as_str()) {
                    assert(!played(participants.deep_view(), names[k as int]));
                    return false;
                }
                k += 1;
            }
            true
        },
    }
}

/// Whether at least one of the champions asked for is among `banned`.
pub fn bans_include_any(banned: &Vec<String>, wanted: &Vec<ChampionSelection>) -> (r: bool)
    ensures
        r == any_banned(banned.deep_view(), champion_names(wanted@)),
{
    let ghost names = champion_names(wanted@);
    let mut k: usize = 0;
    while k < wanted.len()
        invariant
            k <= wanted.len(),
            names == champion_names(wanted@),
            forall|j: int| 0 <= j < k ==> !holds_text(banned.deep_view(), #[trigger] names[j]),
        decreases wanted.len() - k,
    {
        if contains_text(banned, wanted[k].champ.as_str()) {
            assert(holds_text(banned.deep_view(), names[k as int]));
            return true;
        }
        k += 1;
    }
    false
}

/// Ban predicate. `event_log` is the text of the series' event log, `None`
/// where the series has none.
pub fn check_bans(event_log: Option<&str>, filters: &FilterConfig) -> (r: bool)
    ensures
        r == bans_pass(crate::models::opt_str_view(event_log), filters@),
{
    if filters.champions_banned.len() == 0 {
        return true;
    }
    match event_log {
        Some(log) => {
            let banned = extract_banned_champions(log);
            bans_include_any(&banned, &filters.champions_banned)
        },
        None => {
            let banned: Vec<String> = Vec::new();
            assert(banned.deep_view() =~= Seq::empty());
            bans_include_any(&banned, &filters.champions_banned)
        },
    }
}

/// The ban predicate in its excluding reading.
pub fn check_bans_absent(event_log: Option<&str>, filters: &FilterConfig) -> (r: bool)
    ensures
        r == bans_absent(crate::models::opt_str_view(event_log), filters@),
{
    if filters.champions_banned.len() == 0 {
        return true;
    }
    match event_log {
        Some(log) => {
            let banned = extract_banned_champions(log);
            !bans_include_any(&banned, &filters.champions_banned)
        },
        None => {
            let banned: Vec<String> = Vec::new();
            assert(banned.deep_view() =~= Seq::empty());
            !bans_include_any(&banned, &filters.champions_banned)
        },
    }
}

/// Player predicate.
#[verifier::loop_isolation(false)]
pub fn check_players(participants: &Vec<Participant>, filters: &FilterConfig) -> (r: bool)
    ensures
        r == players_pass(participants.deep_view(), filters@),
{
    let allowed = &filters.players;
    if allowed.len() == 0 {
        return true;
    }
    let ghost names = player_names(allowed@);
    let mut i: usize = 0;
    while i < participants.len()
        invariant
            i <= participants.len(),
            names == player_names(allowed@),
            forall|j: int|
                0 <= j < i ==> !holds_text(
                    names,
                    (#[trigger] participants.deep_view()[j]).player_name,
                ),
        decreases participants.len() - i,
    {
        let mut k: usize = 0;
        while k < allowed.len()
            invariant
                k <= allowed.len(),
                i < participants.len(),
                names == player_names(allowed@),
                forall|j: int| 0 <= j < k ==> names[j] != participants[i as int].player_name@,
            decreases allowed.len() - k,
        {
            if str_eq(allowed[k].value.as_str(), participants[i].player_name.as_str()) {
                assert(names[k as int] == participants.deep_view()[i as int].player_name);
                return true;
            }
            k += 1;
        }
        assert(!holds_text(names, participants.deep_view()[i as int].player_name));
        i += 1;
    }
    false
}

} // verus!
