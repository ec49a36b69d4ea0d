//! The query engine: the series of the replica that pass a filter, each with
//! its participants, newest scheduled first.

use crate::filter::{
    check_bans, check_date, check_outcome, check_patch, check_picks, check_players, check_teams,
    series_passes, FilterConfig, FilterView,
};
use crate::models::{opt_str_view, Participant, ParticipantView, Series, SeriesView};
use crate::store::{lemma_filter_last, Store, StoreView};
use crate::text::{
    lemma_bytes_before_total, lemma_bytes_before_transitive, str_before, text_before,
};
use vstd::prelude::*;
use vstd::utf8::encode_utf8;

verus! {

/// A series of the result, with all of its participants.
#[derive(Debug)]
pub struct SeriesWithParticipants {
    pub series: Series,
    pub participants: Vec<Participant>,
}

/// The view of a [`SeriesWithParticipants`].
pub struct SeriesWithParticipantsView {
    pub series: SeriesView,
    pub participants: Seq<ParticipantView>,
}

impl View for SeriesWithParticipants {
    type V = SeriesWithParticipantsView;

    open spec fn view(&self) -> SeriesWithParticipantsView {
        SeriesWithParticipantsView {
            series: self.series@,
            participants: self.participants.deep_view(),
        }
    }
}

impl DeepView for SeriesWithParticipants {
    type V = SeriesWithParticipantsView;

    open spec fn deep_view(&self) -> SeriesWithParticipantsView {
        self@
    }
}

/// Why a query has no result.
#[derive(Debug, PartialEq, Eq, Clone, Copy, Structural)]
pub enum QueryError {
    /// No series of the replica passes the filter.
    NoSeriesFound,
}

impl QueryError {
    /// The message of the error.
    pub fn message(&self) -> (r: String)
        ensures
            r@ == "No Series Found."@,
    {
        "No Series Found.".to_owned()
    }
}

/// Whether a series scheduled at `a` stands before one scheduled at `b` in
/// a result: the later time first, and a series without a time after every
/// series that has one.
pub open spec fn stands_before(a: Option<Seq<char>>, b: Option<Seq<char>>) -> bool {
    match (a, b) {
        (Some(x), Some(y)) => text_before(y, x),
        (Some(_), None) => true,
        (None, _) => false,
    }
}

/// Whether `order` lists the position `j`.
pub open spec fn lists(order: Seq<int>, j: int) -> bool {
    exists|a: int| 0 <= a < order.len() && #[trigger] order[a] == j
}

/// Whether `order` lists every position of `times` once, so that the times
/// run newest first and positions whose times tie keep their order.
pub open spec fn newest_first(times: Seq<Option<Seq<char>>>, order: Seq<int>) -> bool {
    &&& order.len() == times.len()
    &&& forall|a: int| 0 <= a < order.len() ==> 0 <= #[trigger] order[a] < times.len()
    &&& forall|j: int| 0 <= j < times.len() ==> #[trigger] lists(order, j)
    &&& forall|a: int, b: int|
        0 <= a < b < order.len() ==> !stands_before(
            times[#[trigger] order[b]],
            times[#[trigger] order[a]],
        )
    &&& forall|a: int, b: int|
        0 <= a < b < order.len() && !stands_before(
            times[#[trigger] order[a]],
            times[#[trigger] order[b]],
        ) ==> order[a] < order[b]
}

/// The scheduled times of a sequence of result rows.
pub open spec fn times_of(rows: Seq<SeriesWithParticipantsView>) -> Seq<Option<Seq<char>>> {
    rows.map_values(|r: SeriesWithParticipantsView| r.series.start_time_scheduled)
}

/// The rows at the positions that `order` lists.
pub open spec fn arranged(
    rows: Seq<SeriesWithParticipantsView>,
    order: Seq<int>,
) -> Seq<SeriesWithParticipantsView> {
    order.map_values(|j: int| rows[j])
}

/// If neither of two times stands before a third, and the third does not
/// stand before the second, the first does not stand before the second.
pub proof fn lemma_stands_before_chain(
    a: Option<Seq<char>>,
    b: Option<Seq<char>>,
    c: Option<Seq<char>>,
)
    requires
        !stands_before(a, b),
        !stands_before(b, c),
    ensures
        !stands_before(a, c),
{
    if stands_before(a, c) {
        match (a, b, c) {
            (Some(x), Some(y), Some(z)) => {
                let ex = encode_utf8(x);
                let ey = encode_utf8(y);
                let ez = encode_utf8(z);
                lemma_bytes_before_total(ey, ex);
                lemma_bytes_before_total(ez, ey);
                lemma_bytes_before_total(ez, ex);
                if ey != ex && ez != ey {
                    lemma_bytes_before_transitive(ex, ey, ez);
                }
            },
            _ => {},
        }
    }
}

/// Whether a series scheduled at `a` stands before one scheduled at `b`.
pub fn time_stands_before(a: &Option<String>, b: &Option<String>) -> (r: bool)
    ensures
        r == stands_before(a.deep_view(), b.deep_view()),
{
    match (a, b) {
        (Some(x), Some(y)) => str_before(y.as_str(), x.as_str()),
        (Some(_), None) => true,
        (None, _) => false,
    }
}

/// Arranges rows newest scheduled first. Rows without a scheduled time come
/// last, and rows whose times tie keep their order.
#[verifier::loop_isolation(false)]
pub fn sort_newest_first(rows: Vec<SeriesWithParticipants>) -> (r: Vec<SeriesWithParticipants>)
    ensures
        exists|order: Seq<int>|
            newest_first(times_of(rows.deep_view()), order) && r.deep_view() == arranged(
                rows.deep_view(),
                order,
            ),
{
    let ghost input = rows.deep_view();
    let ghost times = times_of(input);
    let ghost n = input.len() as int;
    let mut rest = rows;
    let mut sorted: Vec<SeriesWithParticipants> = Vec::new();
    let ghost mut order: Seq<int> = Seq::empty();
    assert(sorted.deep_view() =~= arranged(input, order));
    while rest.len() > 0
        invariant
            input == rows.deep_view(),
            times == times_of(input),
            n == input.len(),
            rest.len() <= n,
            rest.deep_view() == input.subrange(0, rest.len() as int),
            order.len() == n - rest.len(),
            sorted.deep_view() == arranged(input, order),
            forall|a: int| 0 <= a < order.len() ==> rest.len() <= #[trigger] order[a] < n,
            forall|j: int| rest.len() <= j < n ==> #[trigger] lists(order, j),
            forall|a: int, b: int|
                0 <= a < b < order.len() ==> !stands_before(
                    times[#[trigger] order[b]],
                    times[#[trigger] order[a]],
                ),
            forall|a: int, b: int|
                0 <= a < b < order.len() && !stands_before(
                    times[#[trigger] order[a]],
                    times[#[trigger] order[b]],
                ) ==> order[a] < order[b],
        decreases rest.len(),
    {
        let ghost before_rest = rest.deep_view();
        let ghost k = rest.len() - 1;
        let row = rest.pop().unwrap();
        assert(rest.deep_view() =~= input.subrange(0, k));
        assert(row@ == input[k]) by {
            assert(before_rest[k] == row@);
        }
        let mut p: usize = 0;
        while p < sorted.len() && time_stands_before(
            &sorted[p].series.start_time_scheduled,
            &row.series.start_time_scheduled,
        )
            invariant
                p <= sorted.len(),
                order.len() == sorted.len(),
                sorted.deep_view() == arranged(input, order),
                times == times_of(input),
                0 <= k < n,
                n == input.len(),
                row@ == input[k],
                forall|a: int| 0 <= a < order.len() ==> k < #[trigger] order[a] < n,
                forall|a: int|
                    0 <= a < p ==> stands_before(times[#[trigger] order[a]], times[k]),
            decreases sorted.len() - p,
        {
            assert(sorted.deep_view()[p as int] == input[order[p as int]]);
            p += 1;
        }
        proof {
            let old_order = order;
            order = old_order.insert(p as int, k);
            if p < old_order.len() {
                assert(sorted.deep_view()[p as int] == input[old_order[p as int]]);
                assert(!stands_before(times[old_order[p as int]], times[k]));
            }
            assert forall|a: int, b: int| 0 <= a < b < order.len() implies !stands_before(
                times[#[trigger] order[b]],
                times[#[trigger] order[a]],
            ) by {
                if a == p {
                    // order[b] is an old entry at or after p, and times[k] does not
                    // come after the old entry at p
                    let ob = b - 1;
                    if ob > p {
                        assert(!stands_before(times[old_order[ob]], times[old_order[p as int]]));
                    }
                    lemma_stands_before_chain(
                        times[old_order[ob]],
                        times[old_order[p as int]],
                        times[k],
                    );
                } else if b == p {
                    assert(order[a] == old_order[a]);
                    assert(stands_before(times[old_order[a]], times[k]));
                    lemma_stands_before_asymmetric(times[old_order[a]], times[k]);
                } else {
                    let oa = if a < p {
                        a
                    } else {
                        a - 1
                    };
                    let ob = if b < p {
                        b
                    } else {
                        b - 1
                    };
                    assert(order[a] == old_order[oa]);
                    assert(order[b] == old_order[ob]);
                }
            }
            assert forall|a: int, b: int|
                0 <= a < b < order.len() && !stands_before(
                    times[#[trigger] order[a]],
                    times[#[trigger] order[b]],
                ) implies order[a] < order[b] by {
                if a == p {
                    assert(order[b] == old_order[b - 1]);
                } else if b == p {
                    assert(order[a] == old_order[a]);
                } else {
                    let oa = if a < p {
                        a
                    } else {
                        a - 1
                    };
                    let ob = if b < p {
                        b
                    } else {
                        b - 1
                    };
                    assert(order[a] == old_order[oa]);
                    assert(order[b] == old_order[ob]);
                }
            }
            assert forall|j: int| k <= j < n implies #[trigger] lists(order, j) by {
                if j == k {
                    assert(order[p as int] == k);
                } else {
                    assert(lists(old_order, j));
                    let a0 = choose|a: int| 0 <= a < old_order.len() && old_order[a] == j;
                    if a0 < p {
                        assert(order[a0] == j);
                    } else {
                        assert(order[a0 + 1] == j);
                    }
                }
            }
            assert forall|a: int| 0 <= a < order.len() implies k <= #[trigger] order[a] < n by {
                if a < p {
                    assert(order[a] == old_order[a]);
                } else if a > p {
                    assert(order[a] == old_order[a - 1]);
                }
            }
        }
        let ghost before_sorted = sorted.deep_view();
        sorted.insert(p, row);
        assert(sorted.deep_view() =~= before_sorted.insert(p as int, input[k]));
        assert(before_sorted.insert(p as int, input[k]) =~= arranged(input, order));
    }
    proof {
        assert(newest_first(times, order));
    }
    sorted
}

/// A time does not stand before one that stands before it.
pub proof fn lemma_stands_before_asymmetric(a: Option<Seq<char>>, b: Option<Seq<char>>)
    requires
        stands_before(a, b),
    ensures
        !stands_before(b, a),
{
    match (a, b) {
        (Some(x), Some(y)) => {
            lemma_bytes_before_total(encode_utf8(x), encode_utf8(y));
        },
        _ => {},
    }
}

/// No time stands before itself.
pub proof fn lemma_stands_before_irreflexive(a: Option<Seq<char>>)
    ensures
        !stands_before(a, a),
{
    match a {
        Some(x) => {
            crate::text::lemma_bytes_before_irreflexive(encode_utf8(x));
        },
        None => {},
    }
}

/// Two orders that are both newest first agree on their first `n`
/// positions.
pub proof fn lemma_orders_agree(
    times: Seq<Option<Seq<char>>>,
    first: Seq<int>,
    second: Seq<int>,
    n: int,
)
    requires
        newest_first(times, first),
        newest_first(times, second),
        0 <= n <= times.len(),
    ensures
        forall|a: int| 0 <= a < n ==> first[a] == second[a],
    decreases n,
{
    if n > 0 {
        lemma_orders_agree(times, first, second, n - 1);
        let a = n - 1;
        let x = first[a];
        let y = second[a];
        if x != y {
            lemma_stands_before_irreflexive(times[x]);
            lemma_stands_before_irreflexive(times[y]);
            assert(lists(first, y));
            let b = choose|b: int| 0 <= b < first.len() && first[b] == y;
            assert(lists(second, x));
            let c = choose|c: int| 0 <= c < second.len() && second[c] == x;
            if b < a {
                assert(second[b] == y);
                assert(second[b] < second[a]);
            }
            if c < a {
                assert(first[c] == x);
                assert(first[c] < first[a]);
            }
            assert(!stands_before(times[first[b]], times[first[a]]));
            assert(!stands_before(times[second[c]], times[second[a]]));
            assert(first[a] < first[b]);
            assert(second[a] < second[c]);
        }
    }
}

/// The order of a result is determined: at most one order of the same rows
/// is newest first.
pub proof fn law_newest_first_is_unique(
    times: Seq<Option<Seq<char>>>,
    first: Seq<int>,
    second: Seq<int>,
)
    requires
        newest_first(times, first),
        newest_first(times, second),
    ensures
        first == second,
{
    lemma_orders_agree(times, first, second, times.len() as int);
    assert(first =~= second);
}

impl StoreView {
    /// The text of the first event-log row of a series.
    pub open spec fn event_text(self, key: Seq<char>) -> Option<Seq<char>> {
        match self.find_event_log(key) {
            Some(row) => Some(row.event_log),
            None => None,
        }
    }

    /// Whether a series row of this store passes a filter, with the
    /// participants and the event log that the store holds for it.
    pub open spec fn passes(
        self,
        series: SeriesView,
        filter: FilterView,
        my_team: Option<Seq<char>>,
    ) -> bool {
        series_passes(
            series,
            self.participants_of(series.series_id),
            self.event_text(series.series_id),
            filter,
            my_team,
        )
    }

    /// The result row of a series row: the row with all participants that
    /// the store holds for it.
    pub open spec fn result_row(self, series: SeriesView) -> SeriesWithParticipantsView {
        SeriesWithParticipantsView {
            series,
            participants: self.participants_of(series.series_id),
        }
    }

    /// The series rows that pass a filter, in table order, each with its
    /// participants.
    pub open spec fn hits(
        self,
        filter: FilterView,
        my_team: Option<Seq<char>>,
    ) -> Seq<SeriesWithParticipantsView> {
        self.series.filter(|s: SeriesView| self.passes(s, filter, my_team)).map_values(
            |s: SeriesView| self.result_row(s),
        )
    }
}

/// The series rows of the replica that pass a filter, in table order, each
/// with its participants.
pub fn matching_series(store: &Store, filters: &FilterConfig, my_team_id: Option<&str>) -> (r:
    Vec<SeriesWithParticipants>)
    ensures
        r.deep_view() == store@.hits(filters@, opt_str_view(my_team_id)),
{
    let ghost me = opt_str_view(my_team_id);
    let ghost pass = |s: SeriesView| store@.passes(s, filters@, me);
    let ghost row = |s: SeriesView| store@.result_row(s);
    let mut results: Vec<SeriesWithParticipants> = Vec::new();
    let mut i: usize = 0;
    assert(store@.series.subrange(0, 0) =~= Seq::<SeriesView>::empty());
    assert(results.deep_view() =~= Seq::<SeriesView>::empty().filter(pass).map_values(row));
    while i < store.series.len()
        invariant
            i <= store.series.len(),
            me == opt_str_view(my_team_id),
            pass == (|s: SeriesView| store@.passes(s, filters@, me)),
            row == (|s: SeriesView| store@.result_row(s)),
            results.deep_view() == store@.series.subrange(0, i as int).filter(pass).map_values(
                row,
            ),
        decreases store.series.len() - i,
    {
        let series_entry = &store.series[i];
        let ghost before = results.deep_view();
        let ghost upto = store@.series.subrange(0, i + 1);
        proof {
            assert(upto.drop_last() =~= store@.series.subrange(0, i as int));
            assert(upto.last() == series_entry@);
            lemma_filter_last(upto, pass);
        }
        let mut keep = check_patch(series_entry, filters) && check_date(series_entry, filters)
            && check_outcome(series_entry, filters, my_team_id) && check_teams(
            series_entry,
            filters,
        );
        if keep {
            let all_participants = store.participants_of(series_entry.series_id.as_str());
            keep = check_picks(&all_participants, filters);
            if keep {
                let log = match store.find_event_log(series_entry.series_id.as_str()) {
                    Some(record) => Some(record.event_log.as_str()),
                    None => None,
                };
                assert(opt_str_view(log) == store@.event_text(series_entry@.series_id));
                keep = check_bans(log, filters) && check_players(&all_participants, filters);
                if keep {
                    assert(pass(series_entry@));
                    results.push(
                        SeriesWithParticipants {
                            series: series_entry.duplicate(),
                            participants: all_participants,
                        },
                    );
                    assert(results.deep_view() =~= before.push(row(series_entry@)));
                    assert(upto.filter(pass).map_values(row) =~= before.push(row(series_entry@)));
                }
            }
        }
        assert(!keep ==> !pass(series_entry@));
        i += 1;
    }
    assert(store@.series.subrange(0, i as int) =~= store@.series);
    results
}

/// All series of the replica that pass the filter, each with all of its
/// participants, newest scheduled first; series without a scheduled time
/// come last. It is an error if no series passes.
///
/// `my_team_id` is the identifier of the team whose wins and losses the
/// outcome predicate asks for, where it could be resolved.
pub fn get_series_with_participants(
    store: &Store,
    filters: &FilterConfig,
    my_team_id: Option<&str>,
) -> (r: Result<Vec<SeriesWithParticipants>, QueryError>)
    ensures
        r is Ok <==> store@.hits(filters@, opt_str_view(my_team_id)).len() > 0,
        r is Err ==> r == Err::<Vec<SeriesWithParticipants>, QueryError>(QueryError::NoSeriesFound),
        r matches Ok(rows) ==> exists|order: Seq<int>|
            newest_first(times_of(store@.hits(filters@, opt_str_view(my_team_id))), order)
                && rows.deep_view() == arranged(
                store@.hits(filters@, opt_str_view(my_team_id)),
                order,
            ),
{
    let results = matching_series(store, filters, my_team_id);
    if results.len() == 0 {
        return Err(QueryError::NoSeriesFound);
    }
    Ok(sort_newest_first(results))
}

} // verus!
