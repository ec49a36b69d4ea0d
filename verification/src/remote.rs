//! What the remote match service sends, as typed records.
//!
//! Every value that the service may omit is optional here, or has the
//! default that its decoder documents.

use vstd::prelude::*;

verus! {

/// The identity of a team in a listing: each part may be missing.
#[derive(Debug)]
pub struct BaseInfo {
    pub logo_url: Option<String>,
    pub id: Option<String>,
    pub name: Option<String>,
}

/// The view of a [`BaseInfo`].
pub struct BaseInfoView {
    pub logo_url: Option<Seq<char>>,
    pub id: Option<Seq<char>>,
    pub name: Option<Seq<char>>,
}

impl View for BaseInfo {
    type V = BaseInfoView;

    open spec fn view(&self) -> BaseInfoView {
        BaseInfoView {
            logo_url: self.logo_url.deep_view(),
            id: self.id.deep_view(),
            name: self.name.deep_view(),
        }
    }
}

impl DeepView for BaseInfo {
    type V = BaseInfoView;

    open spec fn deep_view(&self) -> BaseInfoView {
        self@
    }
}

/// One team entry of a series in a listing.
#[derive(Debug)]
pub struct TeamInfo {
    pub base_info: Option<BaseInfo>,
}

/// The view of a [`TeamInfo`].
pub struct TeamInfoView {
    pub base_info: Option<BaseInfoView>,
}

impl View for TeamInfo {
    type V = TeamInfoView;

    open spec fn view(&self) -> TeamInfoView {
        TeamInfoView { base_info: self.base_info.deep_view() }
    }
}

impl DeepView for TeamInfo {
    type V = TeamInfoView;

    open spec fn deep_view(&self) -> TeamInfoView {
        self@
    }
}

/// One series of a listing.
#[derive(Debug)]
pub struct SeriesNode {
    pub id: String,
    pub finished: bool,
    pub start_time_scheduled: Option<String>,
    pub teams: Vec<TeamInfo>,
}

/// The view of a [`SeriesNode`].
pub struct SeriesNodeView {
    pub id: Seq<char>,
    pub finished: bool,
    pub start_time_scheduled: Option<Seq<char>>,
    pub teams: Seq<TeamInfoView>,
}

impl View for SeriesNode {
    type V = SeriesNodeView;

    open spec fn view(&self) -> SeriesNodeView {
        SeriesNodeView {
            id: self.id@,
            finished: self.finished,
            start_time_scheduled: self.start_time_scheduled.deep_view(),
            teams: self.teams.deep_view(),
        }
    }
}

impl DeepView for SeriesNode {
    type V = SeriesNodeView;

    open spec fn deep_view(&self) -> SeriesNodeView {
        self@
    }
}

/// One edge of a listing.
#[derive(Debug)]
pub struct SeriesEdge {
    pub node: SeriesNode,
}

impl View for SeriesEdge {
    type V = SeriesNodeView;

    open spec fn view(&self) -> SeriesNodeView {
        self.node@
    }
}

impl DeepView for SeriesEdge {
    type V = SeriesNodeView;

    open spec fn deep_view(&self) -> SeriesNodeView {
        self@
    }
}

/// Where a listing page stands in the whole listing.
#[derive(Debug)]
pub struct PageInfo {
    pub has_next_page: bool,
    pub end_cursor: Option<String>,
}

/// The view of a [`PageInfo`].
pub struct PageInfoView {
    pub has_next_page: bool,
    pub end_cursor: Option<Seq<char>>,
}

impl View for PageInfo {
    type V = PageInfoView;

    open spec fn view(&self) -> PageInfoView {
        PageInfoView {
            has_next_page: self.has_next_page,
            end_cursor: self.end_cursor.deep_view(),
        }
    }
}

/// One page of the series listing.
#[derive(Debug)]
pub struct AllSeries {
    pub edges: Vec<SeriesEdge>,
    pub page_info: PageInfo,
}

/// The view of an [`AllSeries`].
pub struct AllSeriesView {
    pub edges: Seq<SeriesNodeView>,
    pub page_info: PageInfoView,
}

impl View for AllSeries {
    type V = AllSeriesView;

    open spec fn view(&self) -> AllSeriesView {
        AllSeriesView { edges: self.edges.deep_view(), page_info: self.page_info@ }
    }
}

/// One team of a series state: its identifier, its score and, where the
/// state names it, its identity.
#[derive(Debug)]
pub struct SeriesTeam {
    pub id: Option<String>,
    pub score: i64,
    pub base_info: Option<BaseInfo>,
}

/// The view of a [`SeriesTeam`].
pub struct SeriesTeamView {
    pub id: Option<Seq<char>>,
    pub score: i64,
    pub base_info: Option<BaseInfoView>,
}

impl View for SeriesTeam {
    type V = SeriesTeamView;

    open spec fn view(&self) -> SeriesTeamView {
        SeriesTeamView {
            id: self.id.deep_view(),
            score: self.score,
            base_info: self.base_info.deep_view(),
        }
    }
}

impl DeepView for SeriesTeam {
    type V = SeriesTeamView;

    open spec fn deep_view(&self) -> SeriesTeamView {
        self@
    }
}

/// The state of a series: its teams with their scores.
#[derive(Debug)]
pub struct SeriesState {
    pub teams: Vec<SeriesTeam>,
}

/// The view of a [`SeriesState`].
pub struct SeriesStateView {
    pub teams: Seq<SeriesTeamView>,
}

impl View for SeriesState {
    type V = SeriesStateView;

    open spec fn view(&self) -> SeriesStateView {
        SeriesStateView { teams: self.teams.deep_view() }
    }
}

/// The statistics of one participant of a game. `stats_json` is the whole
/// record as the service sent it.
#[derive(Debug)]
pub struct GameStats {
    pub player_id: String,
    pub player_name: String,
    pub champion_name: String,
    pub stats_json: String,
}

/// The view of a [`GameStats`].
pub struct GameStatsView {
    pub player_id: Seq<char>,
    pub player_name: Seq<char>,
    pub champion_name: Seq<char>,
    pub stats_json: Seq<char>,
}

impl View for GameStats {
    type V = GameStatsView;

    open spec fn view(&self) -> GameStatsView {
        GameStatsView {
            player_id: self.player_id@,
            player_name: self.player_name@,
            champion_name: self.champion_name@,
            stats_json: self.stats_json@,
        }
    }
}

impl DeepView for GameStats {
    type V = GameStatsView;

    open spec fn deep_view(&self) -> GameStatsView {
        self@
    }
}

/// The summary of a game: its patch and its participants.
#[derive(Debug)]
pub struct GameSummary {
    pub game_version: String,
    pub participants: Vec<GameStats>,
}

/// The view of a [`GameSummary`].
pub struct GameSummaryView {
    pub game_version: Seq<char>,
    pub participants: Seq<GameStatsView>,
}

impl View for GameSummary {
    type V = GameSummaryView;

    open spec fn view(&self) -> GameSummaryView {
        GameSummaryView {
            game_version: self.game_version@,
            participants: self.participants.deep_view(),
        }
    }
}

impl DeepView for GameSummary {
    type V = GameSummaryView;

    open spec fn deep_view(&self) -> GameSummaryView {
        self@
    }
}

} // verus!
