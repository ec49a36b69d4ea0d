//! The rows of the replica's three tables, and the values from which new
//! rows are made.
//!
//! Each row type has a view: the same record with its strings as sequences
//! of characters. Contracts throughout the crate speak of views.

use vstd::prelude::*;

verus! {

/// One remote match, as the replica stores it.
#[derive(Debug)]
pub struct Series {
    pub id: i32,
    pub series_id: String,
    pub finished: bool,
    pub start_time_scheduled: Option<String>,
    pub patch: String,
    pub team1_id: Option<String>,
    pub team1_score: Option<i32>,
    pub team1_name: Option<String>,
    pub team1_logo: Option<String>,
    pub team2_id: Option<String>,
    pub team2_score: Option<i32>,
    pub team2_name: Option<String>,
    pub team2_logo: Option<String>,
}

/// The view of a [`Series`].
pub struct SeriesView {
    pub id: i32,
    pub series_id: Seq<char>,
    pub finished: bool,
    pub start_time_scheduled: Option<Seq<char>>,
    pub patch: Seq<char>,
    pub team1_id: Option<Seq<char>>,
    pub team1_score: Option<i32>,
    pub team1_name: Option<Seq<char>>,
    pub team1_logo: Option<Seq<char>>,
    pub team2_id: Option<Seq<char>>,
    pub team2_score: Option<i32>,
    pub team2_name: Option<Seq<char>>,
    pub team2_logo: Option<Seq<char>>,
}

impl View for Series {
    type V = SeriesView;

    open spec fn view(&self) -> SeriesView {
        SeriesView {
            id: self.id,
            series_id: self.series_id@,
            finished: self.finished,
            start_time_scheduled: self.start_time_scheduled.deep_view(),
            patch: self.patch@,
            team1_id: self.team1_id.deep_view(),
            team1_score: self.team1_score,
            team1_name: self.team1_name.deep_view(),
            team1_logo: self.team1_logo.deep_view(),
            team2_id: self.team2_id.deep_view(),
            team2_score: self.team2_score,
            team2_name: self.team2_name.deep_view(),
            team2_logo: self.team2_logo.deep_view(),
        }
    }
}

impl DeepView for Series {
    type V = SeriesView;

    open spec fn deep_view(&self) -> SeriesView {
        self@
    }
}

impl SeriesView {
    /// A series is scored when both of its teams have a final score.
    pub open spec fn scored(self) -> bool {
        self.team1_score is Some && self.team2_score is Some
    }

    /// The two scores are present together or absent together.
    pub open spec fn scores_paired(self) -> bool {
        self.team1_score is Some <==> self.team2_score is Some
    }
}

/// A series that is not stored yet.
#[derive(Debug)]
pub struct NewSeries<'a> {
    pub series_id: &'a str,
    pub finished: bool,
    pub start_time_scheduled: Option<&'a str>,
    pub patch: Option<&'a str>,
    pub team1_id: Option<&'a str>,
    pub team1_name: Option<&'a str>,
    pub team1_score: Option<i32>,
    pub team1_logo: Option<&'a str>,
    pub team2_id: Option<&'a str>,
    pub team2_name: Option<&'a str>,
    pub team2_score: Option<i32>,
    pub team2_logo: Option<&'a str>,
}

/// The view of an optional string slice.
pub open spec fn opt_str_view(o: Option<&str>) -> Option<Seq<char>> {
    match o {
        Some(s) => Some(s@),
        None => None,
    }
}

impl<'a> NewSeries<'a> {
    /// The view of the row that this value becomes under the key `id`. A
    /// patch that is absent is stored as the empty patch.
    pub open spec fn row_view(&self, id: i32) -> SeriesView {
        SeriesView {
            id,
            series_id: self.series_id@,
            finished: self.finished,
            start_time_scheduled: opt_str_view(self.start_time_scheduled),
            patch: match self.patch {
                Some(p) => p@,
                None => Seq::empty(),
            },
            team1_id: opt_str_view(self.team1_id),
            team1_score: self.team1_score,
            team1_name: opt_str_view(self.team1_name),
            team1_logo: opt_str_view(self.team1_logo),
            team2_id: opt_str_view(self.team2_id),
            team2_score: self.team2_score,
            team2_name: opt_str_view(self.team2_name),
            team2_logo: opt_str_view(self.team2_logo),
        }
    }

    /// The row that this value becomes under the key `id`.
    pub fn into_row(&self, id: i32) -> (r: Series)
        ensures
            r@ == self.row_view(id),
    {
        Series {
            id,
            series_id: self.series_id.to_owned(),
            finished: self.finished,
            start_time_scheduled: own_opt_str(self.start_time_scheduled),
            patch: match self.patch {
                Some(p) => p.to_owned(),
                None => String::new(),
            },
            team1_id: own_opt_str(self.team1_id),
            team1_score: self.team1_score,
            team1_name: own_opt_str(self.team1_name),
            team1_logo: own_opt_str(self.team1_logo),
            team2_id: own_opt_str(self.team2_id),
            team2_score: self.team2_score,
            team2_name: own_opt_str(self.team2_name),
            team2_logo: own_opt_str(self.team2_logo),
        }
    }
}

/// An owned copy of an optional string slice.
pub fn own_opt_str(o: Option<&str>) -> (r: Option<String>)
    ensures
        r.deep_view() == opt_str_view(o),
{
    match o {
        Some(s) => Some(s.to_owned()),
        None => None,
    }
}

/// A copy of an optional string.
pub fn copy_opt_text(o: &Option<String>) -> (r: Option<String>)
    ensures
        r.deep_view() == o.deep_view(),
{
    match o {
        Some(s) => Some(s.clone()),
        None => None,
    }
}

/// The slice of an optional string.
pub fn opt_as_str(o: &Option<String>) -> (r: Option<&str>)
    ensures
        opt_str_view(r) == o.deep_view(),
{
    match o {
        Some(s) => Some(s.as_str()),
        None => None,
    }
}

impl Series {
    /// A copy of this row.
    pub fn duplicate(&self) -> (r: Series)
        ensures
            r@ == self@,
    {
        Series {
            id: self.id,
            series_id: self.series_id.clone(),
            finished: self.finished,
            start_time_scheduled: copy_opt_text(&self.start_time_scheduled),
            patch: self.patch.clone(),
            team1_id: copy_opt_text(&self.team1_id),
            team1_score: self.team1_score,
            team1_name: copy_opt_text(&self.team1_name),
            team1_logo: copy_opt_text(&self.team1_logo),
            team2_id: copy_opt_text(&self.team2_id),
            team2_score: self.team2_score,
            team2_name: copy_opt_text(&self.team2_name),
            team2_logo: copy_opt_text(&self.team2_logo),
        }
    }
}

/// One player in one game of a series, as the replica stores it.
#[derive(Debug)]
pub struct Participant {
    pub id: i32,
    pub series_id: String,
    pub player_id: String,
    pub player_name: String,
    pub champion_name: String,
    pub stats_json: String,
}

/// The view of a [`Participant`].
pub struct ParticipantView {
    pub id: i32,
    pub series_id: Seq<char>,
    pub player_id: Seq<char>,
    pub player_name: Seq<char>,
    pub champion_name: Seq<char>,
    pub stats_json: Seq<char>,
}

impl View for Participant {
    type V = ParticipantView;

    open spec fn view(&self) -> ParticipantView {
        ParticipantView {
            id: self.id,
            series_id: self.series_id@,
            player_id: self.player_id@,
            player_name: self.player_name@,
            champion_name: self.champion_name@,
            stats_json: self.stats_json@,
        }
    }
}

impl DeepView for Participant {
    type V = ParticipantView;

    open spec fn deep_view(&self) -> ParticipantView {
        self@
    }
}

impl Participant {
    /// A copy of this row.
    pub fn duplicate(&self) -> (r: Participant)
        ensures
            r@ == self@,
    {
        Participant {
            id: self.id,
            series_id: self.series_id.clone(),
            player_id: self.player_id.clone(),
            player_name: self.player_name.clone(),
            champion_name: self.champion_name.clone(),
            stats_json: self.stats_json.clone(),
        }
    }
}

/// A participant that is not stored yet.
#[derive(Debug)]
pub struct NewParticipant {
    pub series_id: String,
    pub player_id: String,
    pub player_name: String,
    pub champion_name: String,
    pub stats_json: String,
}

impl NewParticipant {
    /// The view of the row that this value becomes under the key `id`.
    pub open spec fn row_view(&self, id: i32) -> ParticipantView {
        ParticipantView {
            id,
            series_id: self.series_id@,
            player_id: self.player_id@,
            player_name: self.player_name@,
            champion_name: self.champion_name@,
            stats_json: self.stats_json@,
        }
    }

    /// The row that this value becomes under the key `id`.
    pub fn into_row(self, id: i32) -> (r: Participant)
        ensures
            r@ == self.row_view(id),
    {
        Participant {
            id,
            series_id: self.series_id,
            player_id: self.player_id,
            player_name: self.player_name,
            champion_name: self.champion_name,
            stats_json: self.stats_json,
        }
    }
}

/// The raw event log of one series, as the replica stores it.
#[derive(Debug)]
pub struct EventLog {
    pub id: i32,
    pub series_id: String,
    pub event_log: String,
}

/// The view of an [`EventLog`].
pub struct EventLogView {
    pub id: i32,
    pub series_id: Seq<char>,
    pub event_log: Seq<char>,
}

impl View for EventLog {
    type V = EventLogView;

    open spec fn view(&self) -> EventLogView {
        EventLogView { id: self.id, series_id: self.series_id@, event_log: self.event_log@ }
    }
}

impl DeepView for EventLog {
    type V = EventLogView;

    open spec fn deep_view(&self) -> EventLogView {
        self@
    }
}

/// An event log that is not stored yet.
#[derive(Debug)]
pub struct NewEventLog<'a> {
    pub series_id: &'a str,
    pub event_log: &'a str,
}

impl<'a> NewEventLog<'a> {
    /// The view of the row that this value becomes under the key `id`.
    pub open spec fn row_view(&self, id: i32) -> EventLogView {
        EventLogView { id, series_id: self.series_id@, event_log: self.event_log@ }
    }

    /// The row that this value becomes under the key `id`.
    pub fn into_row(&self, id: i32) -> (r: EventLog)
        ensures
            r@ == self.row_view(id),
    {
        EventLog { id, series_id: self.series_id.to_owned(), event_log: self.event_log.to_owned() }
    }
}

} // verus!
