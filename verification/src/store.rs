//! The replica: three tables of rows, addressed by the remote series
//! identifier.
//!
//! The tables are plain vectors in insertion order. A point read finds the
//! first row with a key; a partial update rewrites every row with the key;
//! an insert appends a row under a fresh row key.

use crate::models::{
    own_opt_str, EventLog, EventLogView, NewEventLog, NewParticipant, NewSeries, Participant,
    ParticipantView, Series, SeriesView,
};
use crate::text::str_eq;
use vstd::prelude::*;

verus! {

/// The three tables of the replica.
#[derive(Debug)]
pub struct Store {
    pub series: Vec<Series>,
    pub participants: Vec<Participant>,
    pub event_logs: Vec<EventLog>,
}

/// The view of a [`Store`].
pub struct StoreView {
    pub series: Seq<SeriesView>,
    pub participants: Seq<ParticipantView>,
    pub event_logs: Seq<EventLogView>,
}

impl View for Store {
    type V = StoreView;

    open spec fn view(&self) -> StoreView {
        StoreView {
            series: self.series.deep_view(),
            participants: self.participants.deep_view(),
            event_logs: self.event_logs.deep_view(),
        }
    }
}

/// The tables of the replica.
#[derive(Debug, PartialEq, Eq, Clone, Copy, Structural)]
pub enum Table {
    Series,
    Participants,
    EventLogs,
}

/// Why the store refused a write.
#[derive(Debug, PartialEq, Eq, Clone, Copy, Structural)]
pub enum StoreError {
    /// The table has no row key left for a new row.
    TableFull,
    /// A bulk clear failed at the table named and was rolled back.
    ClearFailed(Table),
}

/// How an event log was saved.
#[derive(Debug, PartialEq, Eq, Clone, Copy, Structural)]
pub enum Saved {
    /// The series had no event log: a row was inserted.
    Inserted,
    /// The series had an event log: its rows were overwritten.
    Overwritten,
}

/// How many rows a bulk clear removed from each table.
#[derive(Debug, PartialEq, Eq, Clone, Copy, Structural)]
pub struct ClearReport {
    pub participants: usize,
    pub series: usize,
    pub event_logs: usize,
}

/// The largest of the row keys `ids`, and at least zero.
pub open spec fn max_id(ids: Seq<i32>) -> int
    decreases ids.len(),
{
    if ids.len() == 0 {
        0
    } else {
        let rest = max_id(ids.drop_last());
        if ids.last() > rest {
            ids.last() as int
        } else {
            rest
        }
    }
}

/// The row key of the next row of a table whose rows have the keys `ids`:
/// one more than the largest, `None` where that does not fit.
pub open spec fn next_id(ids: Seq<i32>) -> Option<i32> {
    if max_id(ids) < i32::MAX {
        Some((max_id(ids) + 1) as i32)
    } else {
        None
    }
}

/// The first position of `key` in `keys`, or the length of `keys`.
pub open spec fn first_position(keys: Seq<Seq<char>>, key: Seq<char>) -> int
    decreases keys.len(),
{
    if keys.len() == 0 {
        0
    } else if keys[0] == key {
        0
    } else {
        1 + first_position(keys.drop_first(), key)
    }
}

/// What the tables hold, on views.
impl StoreView {
    /// The empty replica.
    pub open spec fn empty() -> StoreView {
        StoreView { series: Seq::empty(), participants: Seq::empty(), event_logs: Seq::empty() }
    }

    /// The remote identifiers of the series rows, in order.
    pub open spec fn series_keys(self) -> Seq<Seq<char>> {
        self.series.map_values(|r: SeriesView| r.series_id)
    }

    /// The row keys of the series rows, in order.
    pub open spec fn series_ids(self) -> Seq<i32> {
        self.series.map_values(|r: SeriesView| r.id)
    }

    /// The first series row with the remote identifier `key`.
    pub open spec fn find_series(self, key: Seq<char>) -> Option<SeriesView> {
        let i = first_position(self.series_keys(), key);
        if i < self.series.len() {
            Some(self.series[i])
        } else {
            None
        }
    }

    /// The store after a series row is appended.
    pub open spec fn with_series(self, row: SeriesView) -> StoreView {
        StoreView { series: self.series.push(row), ..self }
    }

    /// The store after every series row with the identifier `key` has had
    /// `change` applied.
    pub open spec fn map_series(
        self,
        key: Seq<char>,
        change: spec_fn(SeriesView) -> SeriesView,
    ) -> StoreView {
        StoreView {
            series: self.series.map_values(
                |r: SeriesView|
                    if r.series_id == key {
                        change(r)
                    } else {
                        r
                    },
            ),
            ..self
        }
    }

    /// The row keys of the participant rows, in order.
    pub open spec fn participant_ids(self) -> Seq<i32> {
        self.participants.map_values(|r: ParticipantView| r.id)
    }

    /// Whether a participant row exists for a series and a player.
    pub open spec fn has_participant(self, series_id: Seq<char>, player_id: Seq<char>) -> bool {
        exists|i: int|
            0 <= i < self.participants.len() && (#[trigger] self.participants[i]).series_id
                == series_id && self.participants[i].player_id == player_id
    }

    /// The participant rows of a series, in table order.
    pub open spec fn participants_of(self, series_id: Seq<char>) -> Seq<ParticipantView> {
        self.participants.filter(|p: ParticipantView| p.series_id == series_id)
    }

    /// The store after a participant row is appended.
    pub open spec fn with_participant(self, row: ParticipantView) -> StoreView {
        StoreView { participants: self.participants.push(row), ..self }
    }

    /// The remote identifiers of the event-log rows, in order.
    pub open spec fn event_log_keys(self) -> Seq<Seq<char>> {
        self.event_logs.map_values(|r: EventLogView| r.series_id)
    }

    /// The row keys of the event-log rows, in order.
    pub open spec fn event_log_ids(self) -> Seq<i32> {
        self.event_logs.map_values(|r: EventLogView| r.id)
    }

    /// The first event-log row of a series.
    pub open spec fn find_event_log(self, key: Seq<char>) -> Option<EventLogView> {
        let i = first_position(self.event_log_keys(), key);
        if i < self.event_logs.len() {
            Some(self.event_logs[i])
        } else {
            None
        }
    }

    /// The store after an event-log row is appended.
    pub open spec fn with_event_log(self, row: EventLogView) -> StoreView {
        StoreView { event_logs: self.event_logs.push(row), ..self }
    }

    /// The store after every event-log row of the series `key` has had its
    /// text replaced.
    pub open spec fn with_event_text(self, key: Seq<char>, text: Seq<char>) -> StoreView {
        StoreView {
            event_logs: self.event_logs.map_values(
                |r: EventLogView|
                    if r.series_id == key {
                        EventLogView { event_log: text, ..r }
                    } else {
                        r
                    },
            ),
            ..self
        }
    }

    /// Every series row has both scores or neither.
    pub open spec fn scores_paired(self) -> bool {
        forall|i: int| 0 <= i < self.series.len() ==> (#[trigger] self.series[i]).scores_paired()
    }
}

/// `first_position` stays within the sequence; no earlier position holds
/// the key, and the position found does.
pub proof fn lemma_first_position(keys: Seq<Seq<char>>, key: Seq<char>)
    ensures
        0 <= first_position(keys, key) <= keys.len(),
        forall|j: int| 0 <= j < first_position(keys, key) ==> keys[j] != key,
        first_position(keys, key) < keys.len() ==> keys[first_position(keys, key)] == key,
    decreases keys.len(),
{
    if keys.len() > 0 && keys[0] != key {
        let rest = keys.drop_first();
        lemma_first_position(rest, key);
        assert forall|j: int| 0 <= j < first_position(keys, key) implies keys[j] != key by {
            if j > 0 {
                assert(keys[j] == rest[j - 1]);
            }
        }
    }
}

/// A position before which the key does not occur, and which holds the key
/// or is the end, is the one that `first_position` finds.
pub proof fn lemma_first_position_is(keys: Seq<Seq<char>>, key: Seq<char>, k: int)
    requires
        0 <= k <= keys.len(),
        forall|j: int| 0 <= j < k ==> keys[j] != key,
        k < keys.len() ==> keys[k] == key,
    ensures
        first_position(keys, key) == k,
    decreases keys.len(),
{
    if k > 0 {
        let rest = keys.drop_first();
        assert(keys[0] != key);
        assert forall|j: int| 0 <= j < k - 1 implies rest[j] != key by {
            assert(rest[j] == keys[j + 1]);
        }
        lemma_first_position_is(rest, key, k - 1);
    }
}

/// The listing details of a row: what a partial update by series identifier
/// rewrites. The patch and the scores are not among them.
pub open spec fn with_details(row: SeriesView, details: SeriesView) -> SeriesView {
    SeriesView {
        finished: details.finished,
        start_time_scheduled: details.start_time_scheduled,
        team1_id: details.team1_id,
        team1_name: details.team1_name,
        team1_logo: details.team1_logo,
        team2_id: details.team2_id,
        team2_name: details.team2_name,
        team2_logo: details.team2_logo,
        ..row
    }
}

/// A row with both scores and the patch set.
pub open spec fn with_scores(
    row: SeriesView,
    team1_score: i32,
    team2_score: i32,
    patch: Seq<char>,
) -> SeriesView {
    SeriesView { team1_score: Some(team1_score), team2_score: Some(team2_score), patch, ..row }
}

/// What the writes do to the tables, on views.
impl StoreView {
    /// The store after an insert into the series table: the row is appended
    /// under the next row key, whatever row key it came with, or nothing
    /// changes where the table is full.
    pub open spec fn insert_series(self, row: SeriesView) -> StoreView {
        match next_id(self.series_ids()) {
            Some(id) => self.with_series(SeriesView { id, ..row }),
            None => self,
        }
    }

    /// The store after the listing details of every row of the series that
    /// `details` names are rewritten.
    pub open spec fn update_details(self, details: SeriesView) -> StoreView {
        self.map_series(details.series_id, |r: SeriesView| with_details(r, details))
    }

    /// The store after the scores and the patch of every row of a series
    /// are set.
    pub open spec fn update_scores(
        self,
        key: Seq<char>,
        team1_score: i32,
        team2_score: i32,
        patch: Seq<char>,
    ) -> StoreView {
        self.map_series(key, |r: SeriesView| with_scores(r, team1_score, team2_score, patch))
    }

    /// The store after an insert into the participants table: the row is
    /// appended under the next row key, whatever row key it came with, or
    /// nothing changes where the table is full.
    pub open spec fn insert_participant(self, row: ParticipantView) -> StoreView {
        match next_id(self.participant_ids()) {
            Some(id) => self.with_participant(ParticipantView { id, ..row }),
            None => self,
        }
    }

    /// How the event log of a series is saved: overwritten where the series
    /// has one, inserted where it has none, refused where it has none and
    /// the table is full.
    pub open spec fn event_log_saved(self, key: Seq<char>) -> Result<Saved, StoreError> {
        if self.find_event_log(key) is Some {
            Ok(Saved::Overwritten)
        } else if next_id(self.event_log_ids()) is Some {
            Ok(Saved::Inserted)
        } else {
            Err(StoreError::TableFull)
        }
    }

    /// The store after the event log of a series is saved: every row of the
    /// series is overwritten, or one is inserted where there was none.
    pub open spec fn save_event_log(self, key: Seq<char>, text: Seq<char>) -> StoreView {
        if self.find_event_log(key) is Some {
            self.with_event_text(key, text)
        } else {
            match next_id(self.event_log_ids()) {
                Some(id) => self.with_event_log(
                    EventLogView { id, series_id: key, event_log: text },
                ),
                None => self,
            }
        }
    }
}

/// A row of a table: it has a row key.
pub trait Row {
    /// The row key.
    spec fn row_key(&self) -> i32;

    /// The row key.
    fn key(&self) -> (r: i32)
        ensures
            r == self.row_key(),
    ;
}

impl Row for Series {
    open spec fn row_key(&self) -> i32 {
        self.id
    }

    fn key(&self) -> (r: i32) {
        self.id
    }
}

impl Row for Participant {
    open spec fn row_key(&self) -> i32 {
        self.id
    }

    fn key(&self) -> (r: i32) {
        self.id
    }
}

impl Row for EventLog {
    open spec fn row_key(&self) -> i32 {
        self.id
    }

    fn key(&self) -> (r: i32) {
        self.id
    }
}

/// The row keys of the rows of a table, in order.
pub open spec fn row_keys<T: Row>(rows: Seq<T>) -> Seq<i32> {
    rows.map_values(|row: T| row.row_key())
}

/// The row key of the next row of a table.
fn next_key<T: Row>(rows: &Vec<T>) -> (r: Option<i32>)
    ensures
        r == next_id(row_keys(rows@)),
{
    let ghost ids = row_keys(rows@);
    let mut max: i32 = 0;
    let mut i: usize = 0;
    assert(ids.subrange(0, 0) =~= Seq::<i32>::empty());
    while i < rows.len()
        invariant
            i <= rows.len(),
            ids == row_keys(rows@),
            max == max_id(ids.subrange(0, i as int)),
        decreases rows.len() - i,
    {
        assert(ids.subrange(0, i + 1).drop_last() =~= ids.subrange(0, i as int));
        let key = rows[i].key();
        if key > max {
            max = key;
        }
        i += 1;
    }
    assert(ids.subrange(0, i as int) =~= ids);
    if max < i32::MAX {
        Some(max + 1)
    } else {
        None
    }
}

impl Store {
    /// The empty replica.
    pub fn new() -> (r: Store)
        ensures
            r@ == StoreView::empty(),
    {
        let r = Store { series: Vec::new(), participants: Vec::new(), event_logs: Vec::new() };
        assert(r@.series =~= Seq::empty());
        assert(r@.participants =~= Seq::empty());
        assert(r@.event_logs =~= Seq::empty());
        r
    }

    /// Whether the series table has a row key left for a new row.
    pub fn has_room_for_series(&self) -> (r: bool)
        ensures
            r == next_id(self@.series_ids()) is Some,
    {
        assert(row_keys(self.series@) =~= self@.series_ids());
        next_key(&self.series).is_some()
    }

    /// Point read: the first series row with the remote identifier `key`.
    pub fn find_series(&self, key: &str) -> (r: Option<&Series>)
        ensures
            r.deep_view() == self@.find_series(key@),
    {
        let ghost keys = self@.series_keys();
        let mut i: usize = 0;
        while i < self.series.len()
            invariant
                i <= self.series.len(),
                keys == self@.series_keys(),
                forall|j: int| 0 <= j < i ==> keys[j] != key@,
            decreases self.series.len() - i,
        {
            if str_eq(self.series[i].series_id.as_str(), key) {
                proof {
                    lemma_first_position_is(keys, key@, i as int);
                }
                return Some(&self.series[i]);
            }
            i += 1;
        }
        proof {
            lemma_first_position_is(keys, key@, i as int);
        }
        None
    }

    /// Inserts a series row under the next row key. Fails, and changes
    /// nothing, where the table has no row key left.
    pub fn insert_series(&mut self, new: &NewSeries) -> (r: Result<(), StoreError>)
        ensures
            final(self)@ == old(self)@.insert_series(new.row_view(0)),
            r is Ok <==> next_id(old(self)@.series_ids()) is Some,
            r is Err ==> r == Err::<(), StoreError>(StoreError::TableFull),
    {
        assert(row_keys(self.series@) =~= self@.series_ids());
        match next_key(&self.series) {
            Some(id) => {
                let row = new.into_row(id);
                self.series.push(row);
                assert(self@.series =~= old(self)@.series.push(new.row_view(id)));
                Ok(())
            },
            None => Err(StoreError::TableFull),
        }
    }

    /// Partial update by series identifier: rewrites the listing details of
    /// every row of the series that `details` names. Returns the number of
    /// rows rewritten.
    pub fn update_details(&mut self, details: &NewSeries) -> (r: usize)
        ensures
            final(self)@ == old(self)@.update_details(details.row_view(0)),
            r == old(self)@.series.filter(|s: SeriesView| s.series_id == details.series_id@).len(),
    {
        let ghost want = old(self)@.update_details(details.row_view(0)).series;
        let ghost hit = |s: SeriesView| s.series_id == details.series_id@;
        let mut count: usize = 0;
        let mut i: usize = 0;
        assert(old(self)@.series.subrange(0, 0) =~= Seq::<SeriesView>::empty());
        while i < self.series.len()
            invariant
                i <= self.series.len(),
                self.series.len() == old(self).series.len(),
                self.participants == old(self).participants,
                self.event_logs == old(self).event_logs,
                want == old(self)@.update_details(details.row_view(0)).series,
                hit == (|s: SeriesView| s.series_id == details.series_id@),
                forall|j: int| 0 <= j < i ==> self.series@[j]@ == want[j],
                forall|j: int| i <= j < self.series.len() ==> self.series@[j] == old(self).series@[j],
                count == old(self)@.series.subrange(0, i as int).filter(hit).len(),
            decreases self.series.len() - i,
        {
            proof {
                let upto = old(self)@.series.subrange(0, i + 1);
                assert(upto.drop_last() =~= old(self)@.series.subrange(0, i as int));
                lemma_filter_last(upto, hit);
            }
            if str_eq(self.series[i].series_id.as_str(), details.series_id) {
                self.series[i].finished = details.finished;
                self.series[i].start_time_scheduled = own_opt_str(details.start_time_scheduled);
                self.series[i].team1_id = own_opt_str(details.team1_id);
                self.series[i].team1_name = own_opt_str(details.team1_name);
                self.series[i].team1_logo = own_opt_str(details.team1_logo);
                self.series[i].team2_id = own_opt_str(details.team2_id);
                self.series[i].team2_name = own_opt_str(details.team2_name);
                self.series[i].team2_logo = own_opt_str(details.team2_logo);
                count += 1;
            }
            i += 1;
        }
        assert(self@.series =~= want);
        assert(old(self)@.series.subrange(0, i as int) =~= old(self)@.series);
        count
    }

    /// Partial update by series identifier: sets both scores and the patch
    /// of every row of the series.
    pub fn update_scores(&mut self, key: &str, team1_score: i32, team2_score: i32, patch: &str)
        ensures
            final(self)@ == old(self)@.update_scores(key@, team1_score, team2_score, patch@),
    {
        let ghost want = old(self)@.update_scores(key@, team1_score, team2_score, patch@).series;
        let mut i: usize = 0;
        while i < self.series.len()
            invariant
                i <= self.series.len(),
                self.series.len() == old(self).series.len(),
                self.participants == old(self).participants,
                self.event_logs == old(self).event_logs,
                want == old(self)@.update_scores(key@, team1_score, team2_score, patch@).series,
                forall|j: int| 0 <= j < i ==> self.series@[j]@ == want[j],
                forall|j: int| i <= j < self.series.len() ==> self.series@[j] == old(self).series@[j],
            decreases self.series.len() - i,
        {
            if str_eq(self.series[i].series_id.as_str(), key) {
                self.series[i].team1_score = Some(team1_score);
                self.series[i].team2_score = Some(team2_score);
                self.series[i].patch = patch.to_owned();
            }
            i += 1;
        }
        assert(self@.series =~= want);
    }

    /// Whether a participant row exists for a series and a player.
    pub fn has_participant(&self, series_id: &str, player_id: &str) -> (r: bool)
        ensures
            r == self@.has_participant(series_id@, player_id@),
    {
        let mut i: usize = 0;
        while i < self.participants.len()
            invariant
                i <= self.participants.len(),
                forall|j: int|
                    0 <= j < i ==> !((#[trigger] self@.participants[j]).series_id == series_id@
                        && self@.participants[j].player_id == player_id@),
            decreases self.participants.len() - i,
        {
            if str_eq(self.participants[i].series_id.as_str(), series_id) && str_eq(
                self.participants[i].player_id.as_str(),
                player_id,
            ) {
                assert(self@.participants[i as int].series_id == series_id@);
                return true;
            }
            i += 1;
        }
        false
    }

    /// Inserts a participant row under the next row key. Fails, and changes
    /// nothing, where the table has no row key left.
    pub fn insert_participant(&mut self, new: NewParticipant) -> (r: Result<(), StoreError>)
        ensures
            final(self)@ == old(self)@.insert_participant(new.row_view(0)),
            r is Ok <==> next_id(old(self)@.participant_ids()) is Some,
            r is Err ==> r == Err::<(), StoreError>(StoreError::TableFull),
    {
        assert(row_keys(self.participants@) =~= self@.participant_ids());
        match next_key(&self.participants) {
            Some(id) => {
                let row = new.into_row(id);
                self.participants.push(row);
                assert(self@.participants =~= old(self)@.participants.push(new.row_view(id)));
                Ok(())
            },
            None => Err(StoreError::TableFull),
        }
    }

    /// The participant rows of a series, copied in table order.
    pub fn participants_of(&self, series_id: &str) -> (r: Vec<Participant>)
        ensures
            r.deep_view() == self@.participants_of(series_id@),
    {
        let ghost hit = |p: ParticipantView| p.series_id == series_id@;
        let mut out: Vec<Participant> = Vec::new();
        let mut i: usize = 0;
        assert(self@.participants.subrange(0, 0) =~= Seq::<ParticipantView>::empty());
        assert(out.deep_view() =~= Seq::<ParticipantView>::empty());
        while i < self.participants.len()
            invariant
                i <= self.participants.len(),
                hit == (|p: ParticipantView| p.series_id == series_id@),
                out.deep_view() == self@.participants.subrange(0, i as int).filter(hit),
            decreases self.participants.len() - i,
        {
            proof {
                let upto = self@.participants.subrange(0, i + 1);
                assert(upto.drop_last() =~= self@.participants.subrange(0, i as int));
                lemma_filter_last(upto, hit);
            }
            if str_eq(self.participants[i].series_id.as_str(), series_id) {
                let ghost before = out.deep_view();
                let copy = self.participants[i].duplicate();
                out.push(copy);
                assert(out.deep_view() =~= before.push(self@.participants[i as int]));
            }
            i += 1;
        }
        assert(self@.participants.subrange(0, i as int) =~= self@.participants);
        out
    }

    /// Point read: the first event-log row of a series.
    pub fn find_event_log(&self, key: &str) -> (r: Option<&EventLog>)
        ensures
            r.deep_view() == self@.find_event_log(key@),
    {
        let ghost keys = self@.event_log_keys();
        let mut i: usize = 0;
        while i < self.event_logs.len()
            invariant
                i <= self.event_logs.len(),
                keys == self@.event_log_keys(),
                forall|j: int| 0 <= j < i ==> keys[j] != key@,
            decreases self.event_logs.len() - i,
        {
            if str_eq(self.event_logs[i].series_id.as_str(), key) {
                proof {
                    lemma_first_position_is(keys, key@, i as int);
                }
                return Some(&self.event_logs[i]);
            }
            i += 1;
        }
        proof {
            lemma_first_position_is(keys, key@, i as int);
        }
        None
    }

    /// Saves the event log of a series: overwrites every row of the series,
    /// or inserts one where there is none. Fails, and changes nothing, where
    /// a row is needed and the table has no row key left.
    pub fn save_event_log(&mut self, new: &NewEventLog) -> (r: Result<Saved, StoreError>)
        ensures
            final(self)@ == old(self)@.save_event_log(new.series_id@, new.event_log@),
            r == old(self)@.event_log_saved(new.series_id@),
    {
        let found = self.find_event_log(new.series_id).is_some();
        if found {
            let ghost want = old(self)@.with_event_text(new.series_id@, new.event_log@).event_logs;
            let mut i: usize = 0;
            while i < self.event_logs.len()
                invariant
                    i <= self.event_logs.len(),
                    self.event_logs.len() == old(self).event_logs.len(),
                    self.series == old(self).series,
                    self.participants == old(self).participants,
                    want == old(self)@.with_event_text(new.series_id@, new.event_log@).event_logs,
                    forall|j: int| 0 <= j < i ==> self.event_logs@[j]@ == want[j],
                    forall|j: int|
                        i <= j < self.event_logs.len() ==> self.event_logs@[j] == old(
                            self,
                        ).event_logs@[j],
                decreases self.event_logs.len() - i,
            {
                if str_eq(self.event_logs[i].series_id.as_str(), new.series_id) {
                    self.event_logs[i].event_log = new.event_log.to_owned();
                }
                i += 1;
            }
            assert(self@.event_logs =~= want);
            Ok(Saved::Overwritten)
        } else {
            assert(row_keys(self.event_logs@) =~= self@.event_log_ids());
            match next_key(&self.event_logs) {
                Some(id) => {
                    let row = new.into_row(id);
                    self.event_logs.push(row);
                    assert(self@.event_logs =~= old(self)@.event_logs.push(new.row_view(id)));
                    Ok(Saved::Inserted)
                },
                None => Err(StoreError::TableFull),
            }
        }
    }

    /// Bulk clear: empties the three tables as one transaction. `fault`
    /// names the table at which the transaction fails, if it does: nothing
    /// is then removed.
    pub fn clear(&mut self, fault: Option<Table>) -> (r: Result<ClearReport, StoreError>)
        ensures
            match fault {
                None => final(self)@ == StoreView::empty() && r == Ok::<ClearReport, StoreError>(
                    ClearReport {
                        participants: old(self).participants.len(),
                        series: old(self).series.len(),
                        event_logs: old(self).event_logs.len(),
                    },
                ),
                Some(table) => *final(self) == *old(self) && r == Err::<ClearReport, StoreError>(
                    StoreError::ClearFailed(table),
                ),
            },
    {
        match fault {
            Some(table) => Err(StoreError::ClearFailed(table)),
            None => {
                let report = ClearReport {
                    participants: self.participants.len(),
                    series: self.series.len(),
                    event_logs: self.event_logs.len(),
                };
                self.participants.clear();
                self.series.clear();
                self.event_logs.clear();
                assert(self@.series =~= Seq::empty());
                assert(self@.participants =~= Seq::empty());
                assert(self@.event_logs =~= Seq::empty());
                Ok(report)
            },
        }
    }
}

/// Filtering a sequence that ends in `s.last()` filters what stands before
/// the last element, and keeps the last where the predicate holds of it.
pub proof fn lemma_filter_last<A>(s: Seq<A>, pred: spec_fn(A) -> bool)
    requires
        s.len() > 0,
    ensures
        s.filter(pred) == if pred(s.last()) {
            s.drop_last().filter(pred).push(s.last())
        } else {
            s.drop_last().filter(pred)
        },
{
    reveal(Seq::filter);
}

} // verus!
