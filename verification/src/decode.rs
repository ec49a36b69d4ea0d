//! Decoding the responses of the remote service into typed records.
//!
//! A response is a JSON document. Whatever a document lacks is absent in
//! the record, or takes the default that the decoder names; a document that
//! lacks what a record cannot do without is an error.

use crate::document::{
    flag_at, flag_of, held, integer_at, integer_of, items_at, items_of, member, member_of,
    or_empty, text_at, text_of, text_or_empty,
};
use crate::json::{
    field, json_field, json_number, json_number_text, json_parse, json_render, json_str, number,
    number_text, parse, render, text,
};
use crate::remote::{
    AllSeries, AllSeriesView, BaseInfo, BaseInfoView, GameStats, GameStatsView, GameSummary,
    GameSummaryView, PageInfo, PageInfoView, SeriesEdge, SeriesNode, SeriesNodeView, SeriesState,
    SeriesStateView, SeriesTeam, SeriesTeamView, TeamInfo, TeamInfoView,
};
use serde_json::Value;
use vstd::prelude::*;

verus! {

/// Why a response of the remote service could not be used.
#[derive(Debug)]
pub enum RemoteError {
    /// The response is not JSON.
    NotJson,
    /// The service reported errors; their messages are joined here.
    Reported(String),
    /// The service reported errors in a form that is not a list.
    UnknownError,
    /// A listing response lacks its list of edges.
    InvalidListing,
    /// A series-state response lacks its list of teams.
    InvalidSeriesState,
    /// The series state has fewer than two teams.
    NotEnoughTeams,
    /// The event list cannot be written as text.
    Unwritable,
    /// The call was given up after the last attempt allowed.
    MaxRetries,
    /// The call for an event log was given up after the last attempt
    /// allowed.
    EventLogMaxRetries,
}

/// The view of a [`RemoteError`].
pub enum RemoteErrorView {
    NotJson,
    Reported(Seq<char>),
    UnknownError,
    InvalidListing,
    InvalidSeriesState,
    NotEnoughTeams,
    Unwritable,
    MaxRetries,
    EventLogMaxRetries,
}

impl View for RemoteError {
    type V = RemoteErrorView;

    open spec fn view(&self) -> RemoteErrorView {
        match self {
            RemoteError::NotJson => RemoteErrorView::NotJson,
            RemoteError::Reported(m) => RemoteErrorView::Reported(m@),
            RemoteError::UnknownError => RemoteErrorView::UnknownError,
            RemoteError::InvalidListing => RemoteErrorView::InvalidListing,
            RemoteError::InvalidSeriesState => RemoteErrorView::InvalidSeriesState,
            RemoteError::NotEnoughTeams => RemoteErrorView::NotEnoughTeams,
            RemoteError::Unwritable => RemoteErrorView::Unwritable,
            RemoteError::MaxRetries => RemoteErrorView::MaxRetries,
            RemoteError::EventLogMaxRetries => RemoteErrorView::EventLogMaxRetries,
        }
    }
}

impl RemoteErrorView {
    /// The message of an error.
    pub open spec fn message(self) -> Seq<char> {
        match self {
            RemoteErrorView::NotJson => "Response is not JSON"@,
            RemoteErrorView::Reported(m) => m,
            RemoteErrorView::UnknownError => "Unknown Error"@,
            RemoteErrorView::InvalidListing => "Invalid series response format"@,
            RemoteErrorView::InvalidSeriesState => "Invalid GraphQL response format"@,
            RemoteErrorView::NotEnoughTeams => "Not enough teams in series data"@,
            RemoteErrorView::Unwritable => "Event list cannot be written"@,
            RemoteErrorView::MaxRetries => "Max retries reached"@,
            RemoteErrorView::EventLogMaxRetries => "Max retries reached for event log"@,
        }
    }
}

impl RemoteError {
    /// A copy of the error.
    pub fn duplicate(&self) -> (r: RemoteError)
        ensures
            r@ == self@,
    {
        match self {
            RemoteError::NotJson => RemoteError::NotJson,
            RemoteError::Reported(m) => RemoteError::Reported(m.clone()),
            RemoteError::UnknownError => RemoteError::UnknownError,
            RemoteError::InvalidListing => RemoteError::InvalidListing,
            RemoteError::InvalidSeriesState => RemoteError::InvalidSeriesState,
            RemoteError::NotEnoughTeams => RemoteError::NotEnoughTeams,
            RemoteError::Unwritable => RemoteError::Unwritable,
            RemoteError::MaxRetries => RemoteError::MaxRetries,
            RemoteError::EventLogMaxRetries => RemoteError::EventLogMaxRetries,
        }
    }

    /// The message of the error.
    pub fn message(&self) -> (r: String)
        ensures
            r@ == self@.message(),
    {
        match self {
            RemoteError::NotJson => "Response is not JSON".to_owned(),
            RemoteError::Reported(m) => m.clone(),
            RemoteError::UnknownError => "Unknown Error".to_owned(),
            RemoteError::InvalidListing => "Invalid series response format".to_owned(),
            RemoteError::InvalidSeriesState => "Invalid GraphQL response format".to_owned(),
            RemoteError::NotEnoughTeams => "Not enough teams in series data".to_owned(),
            RemoteError::Unwritable => "Event list cannot be written".to_owned(),
            RemoteError::MaxRetries => "Max retries reached".to_owned(),
            RemoteError::EventLogMaxRetries => "Max retries reached for event log".to_owned(),
        }
    }
}

/// The view of a decoding result.
pub open spec fn outcome_view<T: View>(r: Result<T, RemoteError>) -> Result<T::V, RemoteErrorView> {
    match r {
        Ok(v) => Ok(v@),
        Err(e) => Err(e@),
    }
}

/// The patch of a summary that names none.
pub const LATEST_PATCH: &'static str = "latest";

/// The text of an event list that a response lacks: the JSON null.
pub const NO_EVENTS: &'static str = "null";

/// What separates the messages of reported errors.
pub const MESSAGE_SEPARATOR: &'static str = ", ";

/// The texts `parts`, each two joined by `separator`.
pub open spec fn joined(parts: Seq<Seq<char>>, separator: Seq<char>) -> Seq<char>
    decreases parts.len(),
{
    if parts.len() == 0 {
        Seq::empty()
    } else if parts.len() == 1 {
        parts[0]
    } else {
        joined(parts.drop_last(), separator) + separator + parts.last()
    }
}

/// The message of one reported error: its text where it is a string, else
/// the JSON text of the value.
pub open spec fn error_message(error: Value) -> Seq<char> {
    match json_str(error) {
        Some(m) => m,
        None => or_empty(json_render(error)),
    }
}

/// The identity of a team, decoded from its `baseInfo` member.
pub open spec fn base_info_of(info: Value) -> BaseInfoView {
    BaseInfoView {
        logo_url: text_of(json_field(info, "logoUrl"@)),
        id: text_of(json_field(info, "id"@)),
        name: text_of(json_field(info, "name"@)),
    }
}

/// A team entry of a listing, decoded.
pub open spec fn team_of(team: Value) -> TeamInfoView {
    TeamInfoView {
        base_info: match json_field(team, "baseInfo"@) {
            Some(info) => Some(base_info_of(info)),
            None => None,
        },
    }
}

/// The teams of a node: those of its `teams` member, none where that is no
/// array.
pub open spec fn teams_of(node: Option<Value>) -> Seq<TeamInfoView> {
    match items_of(member(node, "teams"@)) {
        Some(teams) => teams.map_values(|t: Value| team_of(t)),
        None => Seq::empty(),
    }
}

/// The node of an edge of a listing, decoded. A node without an identifier
/// has the empty one; a node without a finished flag is not finished.
pub open spec fn node_of(edge: Value) -> SeriesNodeView {
    let node = json_field(edge, "node"@);
    SeriesNodeView {
        id: or_empty(text_of(member(node, "id"@))),
        finished: match flag_of(member(node, "finished"@)) {
            Some(b) => b,
            None => false,
        },
        start_time_scheduled: text_of(member(node, "startTimeScheduled"@)),
        teams: teams_of(node),
    }
}

/// The page information of a listing, decoded. A listing that does not say
/// whether a page follows has none following.
pub open spec fn page_info_of(info: Option<Value>) -> PageInfoView {
    PageInfoView {
        has_next_page: match flag_of(member(info, "hasNextPage"@)) {
            Some(b) => b,
            None => false,
        },
        end_cursor: text_of(member(info, "endCursor"@)),
    }
}

/// The `allSeries` member of the data of a listing response.
pub open spec fn all_series_of(doc: Value) -> Option<Value> {
    member(json_field(doc, "data"@), "allSeries"@)
}

/// A listing response, decoded: the errors that it reports, or its page.
pub open spec fn listing_of(doc: Value) -> Result<AllSeriesView, RemoteErrorView> {
    match json_field(doc, "errors"@) {
        Some(errors) => match crate::json::json_items(errors) {
            Some(list) => Err(
                RemoteErrorView::Reported(
                    joined(list.map_values(|e: Value| error_message(e)), MESSAGE_SEPARATOR@),
                ),
            ),
            None => Err(RemoteErrorView::UnknownError),
        },
        None => match items_of(member(all_series_of(doc), "edges"@)) {
            Some(edges) => Ok(
                AllSeriesView {
                    edges: edges.map_values(|e: Value| node_of(e)),
                    page_info: page_info_of(member(all_series_of(doc), "pageInfo"@)),
                },
            ),
            None => Err(RemoteErrorView::InvalidListing),
        },
    }
}

/// A team of a series state, decoded. A team without a score has the score
/// zero.
pub open spec fn series_team_of(team: Value) -> SeriesTeamView {
    SeriesTeamView {
        id: text_of(json_field(team, "id"@)),
        score: match integer_of(json_field(team, "score"@)) {
            Some(n) => n,
            None => 0,
        },
        base_info: team_of(team).base_info,
    }
}

/// A series-state response, decoded.
pub open spec fn series_state_of(doc: Value) -> Result<SeriesStateView, RemoteErrorView> {
    match items_of(member(member(json_field(doc, "data"@), "seriesState"@), "teams"@)) {
        Some(teams) => Ok(
            SeriesStateView { teams: teams.map_values(|t: Value| series_team_of(t)) },
        ),
        None => Err(RemoteErrorView::InvalidSeriesState),
    }
}

/// The final scores of a series state: those of its first two teams, each
/// cut to 32 bits.
pub open spec fn scores_of(state: SeriesStateView) -> Result<(i32, i32), RemoteErrorView> {
    if state.teams.len() < 2 {
        Err(RemoteErrorView::NotEnoughTeams)
    } else {
        Ok((state.teams[0].score as i32, state.teams[1].score as i32))
    }
}

/// The identifier of a player: the text of the number under `summonerId`,
/// empty where there is no number.
pub open spec fn player_id_of(stats: Value) -> Seq<char> {
    match member(Some(stats), "summonerId"@) {
        Some(id) => match json_number(id) {
            Some(n) => json_number_text(n),
            None => Seq::empty(),
        },
        None => Seq::empty(),
    }
}

/// The statistics of one participant of a summary, decoded. Names that are
/// missing are empty; the whole record is kept as JSON text.
pub open spec fn stats_of(stats: Value) -> GameStatsView {
    GameStatsView {
        player_id: player_id_of(stats),
        player_name: or_empty(text_of(json_field(stats, "riotIdGameName"@))),
        champion_name: or_empty(text_of(json_field(stats, "championName"@))),
        stats_json: or_empty(json_render(stats)),
    }
}

/// A game summary, decoded. A summary without a version has the latest
/// patch; one without a participant list has no participants.
pub open spec fn summary_of(doc: Value) -> GameSummaryView {
    GameSummaryView {
        game_version: match text_of(json_field(doc, "gameVersion"@)) {
            Some(v) => v,
            None => LATEST_PATCH@,
        },
        participants: match items_of(json_field(doc, "participants"@)) {
            Some(list) => list.map_values(|p: Value| stats_of(p)),
            None => Seq::empty(),
        },
    }
}

/// The event list of an event response, as the text that the replica
/// stores: the JSON text of its edges, the JSON null where it has none.
pub open spec fn event_text_of(doc: Value) -> Result<Seq<char>, RemoteErrorView> {
    match member(member(json_field(doc, "data"@), "events"@), "edges"@) {
        Some(edges) => match json_render(edges) {
            Some(t) => Ok(t),
            None => Err(RemoteErrorView::Unwritable),
        },
        None => Ok(NO_EVENTS@),
    }
}

/// Joins the messages of reported errors.
pub fn join_messages(errors: &Vec<Value>) -> (r: String)
    ensures
        r@ == joined(errors@.map_values(|e: Value| error_message(e)), MESSAGE_SEPARATOR@),
{
    let ghost messages = errors@.map_values(|e: Value| error_message(e));
    let mut out = String::new();
    let mut i: usize = 0;
    assert(messages.subrange(0, 0) =~= Seq::<Seq<char>>::empty());
    while i < errors.len()
        invariant
            i <= errors.len(),
            messages == errors@.map_values(|e: Value| error_message(e)),
            out@ == joined(messages.subrange(0, i as int), MESSAGE_SEPARATOR@),
        decreases errors.len() - i,
    {
        let ghost upto = messages.subrange(0, i + 1);
        assert(upto.drop_last() =~= messages.subrange(0, i as int));
        assert(upto.last() == error_message(errors@[i as int]));
        let message = match text(&errors[i]) {
            Some(m) => m.to_owned(),
            None => match render(&errors[i]) {
                Some(m) => m,
                None => String::new(),
            },
        };
        if i > 0 {
            out.append(MESSAGE_SEPARATOR);
            out.append(message.as_str());
        } else {
            assert(upto =~= seq![message@]);
            assert(out@ + message@ =~= message@);
            out.append(message.as_str());
        }
        i += 1;
    }
    assert(messages.subrange(0, i as int) =~= messages);
    out
}

/// Decodes the identity of a team.
fn decode_base_info(info: &Value) -> (r: BaseInfo)
    ensures
        r@ == base_info_of(*info),
{
    BaseInfo {
        logo_url: text_at(field(info, "logoUrl")),
        id: text_at(field(info, "id")),
        name: text_at(field(info, "name")),
    }
}

/// Decodes the teams of a node.
fn decode_teams(node: Option<&Value>) -> (r: Vec<TeamInfo>)
    ensures
        r.deep_view() == teams_of(held(node)),
{
    let mut teams: Vec<TeamInfo> = Vec::new();
    assert(teams.deep_view() =~= Seq::empty());
    match items_at(member_of(node, "teams")) {
        Some(list) => {
            let mut i: usize = 0;
            while i < list.len()
                invariant
                    i <= list.len(),
                    teams.deep_view() == list@.subrange(0, i as int).map_values(
                        |t: Value| team_of(t),
                    ),
                decreases list.len() - i,
            {
                let ghost before = teams.deep_view();
                let base_info = match field(&list[i], "baseInfo") {
                    Some(info) => Some(decode_base_info(info)),
                    None => None,
                };
                teams.push(TeamInfo { base_info });
                assert(teams.deep_view() =~= before.push(team_of(list@[i as int])));
                assert(list@.subrange(0, i + 1).map_values(|t: Value| team_of(t)) =~= before.push(
                    team_of(list@[i as int]),
                ));
                i += 1;
            }
            assert(list@.subrange(0, i as int) =~= list@);
        },
        None => {},
    }
    teams
}

/// Decodes the node of an edge of a listing.
pub fn decode_node(edge: &Value) -> (r: SeriesNode)
    ensures
        r@ == node_of(*edge),
{
    let node = field(edge, "node");
    SeriesNode {
        id: text_or_empty(member_of(node, "id")),
        finished: match flag_at(member_of(node, "finished")) {
            Some(b) => b,
            None => false,
        },
        start_time_scheduled: text_at(member_of(node, "startTimeScheduled")),
        teams: decode_teams(node),
    }
}

/// Decodes the page information of a listing.
pub fn decode_page_info(info: Option<&Value>) -> (r: PageInfo)
    ensures
        r@ == page_info_of(held(info)),
{
    PageInfo {
        has_next_page: match flag_at(member_of(info, "hasNextPage")) {
            Some(b) => b,
            None => false,
        },
        end_cursor: text_at(member_of(info, "endCursor")),
    }
}

/// Decodes a listing response: the errors that the service reports, joined,
/// or the page of the listing. A response without a list of edges is an
/// invalid listing.
pub fn decode_listing(doc: &Value) -> (r: Result<AllSeries, RemoteError>)
    ensures
        outcome_view(r) == listing_of(*doc),
{
    match field(doc, "errors") {
        Some(errors) => {
            return match crate::json::items(errors) {
                Some(list) => Err(RemoteError::Reported(join_messages(list))),
                None => Err(RemoteError::UnknownError),
            };
        },
        None => {},
    }
    let all_series = member_of(field(doc, "data"), "allSeries");
    match items_at(member_of(all_series, "edges")) {
        Some(list) => {
            let mut edges: Vec<SeriesEdge> = Vec::new();
            assert(edges.deep_view() =~= Seq::empty());
            let mut i: usize = 0;
            while i < list.len()
                invariant
                    i <= list.len(),
                    edges.deep_view() == list@.subrange(0, i as int).map_values(
                        |e: Value| node_of(e),
                    ),
                decreases list.len() - i,
            {
                let ghost before = edges.deep_view();
                let node = decode_node(&list[i]);
                edges.push(SeriesEdge { node });
                assert(edges.deep_view() =~= before.push(node_of(list@[i as int])));
                assert(list@.subrange(0, i + 1).map_values(|e: Value| node_of(e)) =~= before.push(
                    node_of(list@[i as int]),
                ));
                i += 1;
            }
            assert(list@.subrange(0, i as int) =~= list@);
            Ok(AllSeries { edges, page_info: decode_page_info(member_of(all_series, "pageInfo")) })
        },
        None => Err(RemoteError::InvalidListing),
    }
}

/// Decodes a series-state response. A response without a list of teams is
/// an invalid series state.
pub fn decode_series_state(doc: &Value) -> (r: Result<SeriesState, RemoteError>)
    ensures
        outcome_view(r) == series_state_of(*doc),
{
    let state = member_of(field(doc, "data"), "seriesState");
    match items_at(member_of(state, "teams")) {
        Some(list) => {
            let mut teams: Vec<SeriesTeam> = Vec::new();
            assert(teams.deep_view() =~= Seq::empty());
            let mut i: usize = 0;
            while i < list.len()
                invariant
                    i <= list.len(),
                    teams.deep_view() == list@.subrange(0, i as int).map_values(
                        |t: Value| series_team_of(t),
                    ),
                decreases list.len() - i,
            {
                let ghost before = teams.deep_view();
                let team = SeriesTeam {
                    id: text_at(field(&list[i], "id")),
                    score: match integer_at(field(&list[i], "score")) {
                        Some(n) => n,
                        None => 0,
                    },
                    base_info: match field(&list[i], "baseInfo") {
                        Some(info) => Some(decode_base_info(info)),
                        None => None,
                    },
                };
                teams.push(team);
                assert(teams.deep_view() =~= before.push(series_team_of(list@[i as int])));
                assert(list@.subrange(0, i + 1).map_values(|t: Value| series_team_of(t))
                    =~= before.push(series_team_of(list@[i as int])));
                i += 1;
            }
            assert(list@.subrange(0, i as int) =~= list@);
            Ok(SeriesState { teams })
        },
        None => Err(RemoteError::InvalidSeriesState),
    }
}

/// The final scores of a series: those of the first two teams of its state,
/// each cut to 32 bits. A state with fewer than two teams has none.
pub fn final_scores(state: &SeriesState) -> (r: Result<(i32, i32), RemoteError>)
    ensures
        match r {
            Ok(scores) => scores_of(state@) == Ok::<(i32, i32), RemoteErrorView>(scores),
            Err(e) => scores_of(state@) == Err::<(i32, i32), RemoteErrorView>(e@),
        },
{
    if state.teams.len() < 2 {
        return Err(RemoteError::NotEnoughTeams);
    }
    assert(state@.teams[0] == state.teams@[0]@);
    assert(state@.teams[1] == state.teams@[1]@);
    let team1_score = #[verifier::truncate]
    (state.teams[0].score as i32);
    let team2_score = #[verifier::truncate]
    (state.teams[1].score as i32);
    Ok((team1_score, team2_score))
}

/// Decodes the statistics of one participant of a summary.
pub fn decode_stats(stats: &Value) -> (r: GameStats)
    ensures
        r@ == stats_of(*stats),
{
    let player_id = match field(stats, "summonerId") {
        Some(id) => match number(id) {
            Some(n) => number_text(n),
            None => String::new(),
        },
        None => String::new(),
    };
    let stats_json = match render(stats) {
        Some(t) => t,
        None => String::new(),
    };
    GameStats {
        player_id,
        player_name: text_or_empty(field(stats, "riotIdGameName")),
        champion_name: text_or_empty(field(stats, "championName")),
        stats_json,
    }
}

/// Decodes a game summary.
pub fn decode_summary(doc: &Value) -> (r: GameSummary)
    ensures
        r@ == summary_of(*doc),
{
    let game_version = match text_at(field(doc, "gameVersion")) {
        Some(v) => v,
        None => LATEST_PATCH.to_owned(),
    };
    let mut participants: Vec<GameStats> = Vec::new();
    assert(participants.deep_view() =~= Seq::empty());
    match items_at(field(doc, "participants")) {
        Some(list) => {
            let mut i: usize = 0;
            while i < list.len()
                invariant
                    i <= list.len(),
                    participants.deep_view() == list@.subrange(0, i as int).map_values(
                        |p: Value| stats_of(p),
                    ),
                decreases list.len() - i,
            {
                let ghost before = participants.deep_view();
                let stats = decode_stats(&list[i]);
                participants.push(stats);
                assert(participants.deep_view() =~= before.push(stats_of(list@[i as int])));
                assert(list@.subrange(0, i + 1).map_values(|p: Value| stats_of(p)) =~= before.push(
                    stats_of(list@[i as int]),
                ));
                i += 1;
            }
            assert(list@.subrange(0, i as int) =~= list@);
        },
        None => {},
    }
    GameSummary { game_version, participants }
}

/// The event list of an event response, as the text that the replica
/// stores.
pub fn decode_event_text(doc: &Value) -> (r: Result<String, RemoteError>)
    ensures
        match r {
            Ok(t) => event_text_of(*doc) == Ok::<Seq<char>, RemoteErrorView>(t@),
            Err(e) => event_text_of(*doc) == Err::<Seq<char>, RemoteErrorView>(e@),
        },
{
    match member_of(member_of(field(doc, "data"), "events"), "edges") {
        Some(edges) => match render(edges) {
            Some(t) => Ok(t),
            None => Err(RemoteError::Unwritable),
        },
        None => Ok(NO_EVENTS.to_owned()),
    }
}

/// Reads a listing response from its text.
pub fn read_listing(body: &str) -> (r: Result<AllSeries, RemoteError>)
    ensures
        outcome_view(r) == match json_parse(body@) {
            Some(doc) => listing_of(doc),
            None => Err(RemoteErrorView::NotJson),
        },
{
    match parse(body) {
        Some(doc) => decode_listing(&doc),
        None => Err(RemoteError::NotJson),
    }
}

/// Reads the final scores of a series from the text of a series-state
/// response.
pub fn read_scores(body: &str) -> (r: Result<(i32, i32), RemoteError>)
    ensures
        match r {
            Ok(scores) => json_parse(body@) matches Some(doc) && series_state_of(doc) matches Ok(
                state,
            ) && scores_of(state) == Ok::<(i32, i32), RemoteErrorView>(scores),
            Err(e) => match json_parse(body@) {
                Some(doc) => match series_state_of(doc) {
                    Ok(state) => scores_of(state) == Err::<(i32, i32), RemoteErrorView>(e@),
                    Err(f) => e@ == f,
                },
                None => e@ == RemoteErrorView::NotJson,
            },
        },
{
    match parse(body) {
        Some(doc) => match decode_series_state(&doc) {
            Ok(state) => final_scores(&state),
            Err(e) => Err(e),
        },
        None => Err(RemoteError::NotJson),
    }
}

/// Reads a game summary from its text.
pub fn read_summary(body: &str) -> (r: Result<GameSummary, RemoteError>)
    ensures
        outcome_view(r) == match json_parse(body@) {
            Some(doc) => Ok::<GameSummaryView, RemoteErrorView>(summary_of(doc)),
            None => Err(RemoteErrorView::NotJson),
        },
{
    match parse(body) {
        Some(doc) => Ok(decode_summary(&doc)),
        None => Err(RemoteError::NotJson),
    }
}

/// Reads the event list of a series from the text of an event response, as
/// the text that the replica stores.
pub fn read_event_text(body: &str) -> (r: Result<String, RemoteError>)
    ensures
        match r {
            Ok(t) => json_parse(body@) matches Some(doc) && event_text_of(doc) == Ok::<
                Seq<char>,
                RemoteErrorView,
            >(t@),
            Err(e) => match json_parse(body@) {
                Some(doc) => event_text_of(doc) == Err::<Seq<char>, RemoteErrorView>(e@),
                None => e@ == RemoteErrorView::NotJson,
            },
        },
{
    match parse(body) {
        Some(doc) => decode_event_text(&doc),
        None => Err(RemoteError::NotJson),
    }
}

} // verus!
