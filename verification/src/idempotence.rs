//! A second pass over an unchanged listing writes nothing.
//!
//! After a pass over an item, the item is settled in the replica: a further
//! pass over it finds nothing to insert, to update or to backfill, and saves
//! an event log that is stored already. A pass over an item with another
//! series identifier leaves a settled item settled. So, over a listing that
//! says the same of a series wherever it names it, a second pass leaves the
//! replica as the first pass left it.

use crate::store::{
    first_position, lemma_first_position, lemma_first_position_is, next_id, StoreView,
};
use crate::remote::GameStatsView;
use crate::sync::{
    add_participant, add_participants, backfill, backfill_ready, change_of, details_same, filled, inserted_count,
    lemma_add_participants_frame, reaches_log, reconciled, run, save_log, step, wants_backfill,
    RemoteSeriesView, SeriesChange, TEAMS_PER_SERIES,
};
use vstd::prelude::*;

verus! {

/// Whether every event-log row of the series `key` holds the text `log`.
pub open spec fn log_stored(s: StoreView, key: Seq<char>, log: Seq<char>) -> bool {
    forall|j: int|
        0 <= j < s.event_logs.len() && (#[trigger] s.event_logs[j]).series_id == key
            ==> s.event_logs[j].event_log == log
}

/// Whether the event log of an item is settled: the item has none; or the
/// replica has rows for the series and each holds the item's log; or it has
/// none and its table is full.
pub open spec fn log_settled(s: StoreView, item: RemoteSeriesView) -> bool {
    match item.event_log {
        Some(log) => if s.find_event_log(item.node.id) is Some {
            log_stored(s, item.node.id, log)
        } else {
            next_id(s.event_log_ids()) is None
        },
        None => true,
    }
}

/// Whether an item is settled in a replica: its node is skipped; or its
/// series is stored with the details that the node lists, is scored or
/// cannot be backfilled, and has its event log settled; or its series is
/// not stored and the table is full.
pub open spec fn settled(s: StoreView, item: RemoteSeriesView) -> bool {
    item.node.teams.len() < TEAMS_PER_SERIES || match s.find_series(item.node.id) {
        Some(row) => {
            &&& details_same(row, item.node)
            &&& row.scored() || !backfill_ready(item)
            &&& log_settled(s, item)
        },
        None => next_id(s.series_ids()) is None,
    }
}

/// Whether a pass over an item writes to the series table: it inserts the
/// row, rewrites its details, or backfills it.
pub open spec fn writes_series(s: StoreView, item: RemoteSeriesView) -> bool {
    ||| change_of(s, item) == SeriesChange::Inserted
    ||| change_of(s, item) == SeriesChange::Updated
    ||| wants_backfill(s, item) && backfill_ready(item)
}

/// How many items of a listing have the series table written to in a pass.
pub open spec fn series_writes(s: StoreView, items: Seq<RemoteSeriesView>) -> nat
    decreases items.len(),
{
    if items.len() == 0 {
        0
    } else {
        series_writes(s, items.drop_last()) + if writes_series(
            run(s, items.drop_last()),
            items.last(),
        ) {
            1nat
        } else {
            0nat
        }
    }
}

/// Whether a listing is coherent: two of its items have different series
/// identifiers, or they are the same item. A listing may name a series
/// twice, as long as it says the same of it both times.
pub open spec fn coherent(items: Seq<RemoteSeriesView>) -> bool {
    forall|i: int, j: int|
        0 <= i < j < items.len() ==> (#[trigger] items[i]).node.id != (
        #[trigger] items[j]).node.id || items[i] == items[j]
}

/// Whether every item of a listing is settled in a replica.
pub open spec fn all_settled(s: StoreView, items: Seq<RemoteSeriesView>) -> bool {
    forall|i: int| 0 <= i < items.len() ==> settled(s, #[trigger] items[i])
}

/// Whether `t` is `s` after writes for the series `key` only: rows are kept
/// in place with their keys, rows of other series are untouched, and at
/// most one row of the series is appended to the series table and to the
/// event-log table, each only if it was not full.
pub open spec fn grown_for(s: StoreView, t: StoreView, key: Seq<char>) -> bool {
    &&& s.series.len() <= t.series.len() <= s.series.len() + 1
    &&& forall|j: int|
        0 <= j < s.series.len() ==> {
            &&& (#[trigger] t.series[j]).series_id == s.series[j].series_id
            &&& t.series[j].id == s.series[j].id
            &&& s.series[j].series_id != key ==> t.series[j] == s.series[j]
        }
    &&& t.series.len() > s.series.len() ==> t.series.last().series_id == key && next_id(
        s.series_ids(),
    ) is Some
    &&& s.event_logs.len() <= t.event_logs.len() <= s.event_logs.len() + 1
    &&& forall|j: int|
        0 <= j < s.event_logs.len() ==> {
            &&& (#[trigger] t.event_logs[j]).series_id == s.event_logs[j].series_id
            &&& t.event_logs[j].id == s.event_logs[j].id
            &&& s.event_logs[j].series_id != key ==> t.event_logs[j] == s.event_logs[j]
        }
    &&& t.event_logs.len() > s.event_logs.len() ==> t.event_logs.last().series_id == key
        && next_id(s.event_log_ids()) is Some
}

/// The store after the row of an item is reconciled and backfilled is the
/// store before, grown for the item's series; the event-log table is as it
/// was.
pub proof fn lemma_filled_shape(s: StoreView, item: RemoteSeriesView)
    ensures
        grown_for(s, filled(s, item), item.node.id),
        filled(s, item).event_logs == s.event_logs,
        filled(s, item).series.len() > s.series.len() <==> change_of(s, item)
            == SeriesChange::Inserted,
{
    let r = reconciled(s, item);
    assert(grown_for(s, r, item.node.id));
    if wants_backfill(s, item) && backfill_ready(item) {
        lemma_add_participants_frame(r, item.node.id, item.summary->0.participants);
    }
    let f = filled(s, item);
    assert(f.series.len() == r.series.len());
    assert forall|j: int| 0 <= j < s.series.len() implies {
        &&& (#[trigger] f.series[j]).series_id == s.series[j].series_id
        &&& f.series[j].id == s.series[j].id
        &&& s.series[j].series_id != item.node.id ==> f.series[j] == s.series[j]
    } by {
        assert(r.series[j].series_id == s.series[j].series_id);
    }
    if f.series.len() > s.series.len() {
        assert(r.series.last().series_id == item.node.id);
        assert(f.series.last().series_id == r.series.last().series_id);
    }
}

/// The store after a pass over an item is the store before, grown for the
/// item's series.
pub proof fn lemma_step_shape(s: StoreView, item: RemoteSeriesView)
    ensures
        grown_for(s, step(s, item), item.node.id),
{
    lemma_filled_shape(s, item);
    let f = filled(s, item);
    let t = step(s, item);
    if reaches_log(s, item) && item.event_log is Some {
        assert(t.series == f.series);
        if t.event_logs.len() > s.event_logs.len() {
            assert(t.event_logs.last().series_id == item.node.id);
        }
    }
}

/// In a store grown for another series, the first row of a series stands
/// where it stood and is what it was; a series without a row has none.
pub proof fn lemma_find_series_in_grown(
    s: StoreView,
    t: StoreView,
    other: Seq<char>,
    key: Seq<char>,
)
    requires
        grown_for(s, t, other),
        other != key,
    ensures
        t.find_series(key) == s.find_series(key),
        s.find_series(key) is None && next_id(s.series_ids()) is None ==> next_id(
            t.series_ids(),
        ) is None,
{
    let sk = s.series_keys();
    let tk = t.series_keys();
    lemma_first_position(sk, key);
    let i = first_position(sk, key);
    if i < sk.len() {
        assert forall|j: int| 0 <= j < i implies tk[j] != key by {
            assert(t.series[j].series_id == s.series[j].series_id);
            assert(sk[j] != key);
        }
        assert(t.series[i].series_id == s.series[i].series_id);
        assert(sk[i] == key);
        lemma_first_position_is(tk, key, i);
    } else {
        assert forall|j: int| 0 <= j < tk.len() implies tk[j] != key by {
            if j < sk.len() {
                assert(t.series[j].series_id == s.series[j].series_id);
                assert(sk[j] != key);
            }
        }
        lemma_first_position_is(tk, key, tk.len() as int);
        if next_id(s.series_ids()) is None {
            assert(t.series_ids() =~= s.series_ids());
        }
    }
}

/// In a store grown for another series, the event log of an item stays
/// settled.
pub proof fn lemma_log_settled_in_grown(
    s: StoreView,
    t: StoreView,
    other: Seq<char>,
    item: RemoteSeriesView,
)
    requires
        grown_for(s, t, other),
        other != item.node.id,
        log_settled(s, item),
    ensures
        log_settled(t, item),
{
    let key = item.node.id;
    let sk = s.event_log_keys();
    let tk = t.event_log_keys();
    lemma_first_position(sk, key);
    let i = first_position(sk, key);
    if item.event_log is Some {
        let log = item.event_log->0;
        if i < sk.len() {
            assert forall|j: int| 0 <= j < i implies tk[j] != key by {
                assert(t.event_logs[j].series_id == s.event_logs[j].series_id);
                assert(sk[j] != key);
            }
            assert(t.event_logs[i].series_id == s.event_logs[i].series_id);
            assert(sk[i] == key);
            lemma_first_position_is(tk, key, i);
            assert forall|j: int|
                0 <= j < t.event_logs.len() && (#[trigger] t.event_logs[j]).series_id
                    == key implies t.event_logs[j].event_log == log by {
                if j < s.event_logs.len() {
                    assert(s.event_logs[j].series_id == key);
                }
            }
        } else {
            assert forall|j: int| 0 <= j < tk.len() implies tk[j] != key by {
                if j < sk.len() {
                    assert(t.event_logs[j].series_id == s.event_logs[j].series_id);
                    assert(sk[j] != key);
                }
            }
            lemma_first_position_is(tk, key, tk.len() as int);
            assert(t.event_log_ids() =~= s.event_log_ids());
        }
    }
}

/// A pass over an item with another series identifier leaves a settled
/// item settled.
pub proof fn lemma_settled_frame(s: StoreView, other: RemoteSeriesView, item: RemoteSeriesView)
    requires
        settled(s, item),
        other.node.id != item.node.id,
    ensures
        settled(step(s, other), item),
{
    let t = step(s, other);
    lemma_step_shape(s, other);
    lemma_find_series_in_grown(s, t, other.node.id, item.node.id);
    if item.node.teams.len() >= TEAMS_PER_SERIES && s.find_series(item.node.id) is Some {
        lemma_log_settled_in_grown(s, t, other.node.id, item);
    }
}

/// After the event log of an item is saved, it is settled.
pub proof fn lemma_save_log_settles(s: StoreView, item: RemoteSeriesView)
    ensures
        log_settled(save_log(s, item), item),
{
    let key = item.node.id;
    if item.event_log is Some {
        let log = item.event_log->0;
        let t = save_log(s, item);
        let sk = s.event_log_keys();
        let tk = t.event_log_keys();
        lemma_first_position(sk, key);
        let i = first_position(sk, key);
        if i < sk.len() {
            assert(tk =~= sk);
        } else if next_id(s.event_log_ids()) is Some {
            assert forall|j: int| 0 <= j < sk.len() implies tk[j] != key by {
                assert(tk[j] == sk[j]);
            }
            assert(tk[sk.len() as int] == key);
            lemma_first_position_is(tk, key, sk.len() as int);
            assert forall|j: int|
                0 <= j < t.event_logs.len() && (#[trigger] t.event_logs[j]).series_id
                    == key implies t.event_logs[j].event_log == log by {
                if j < s.event_logs.len() {
                    assert(sk[j] != key);
                }
            }
        }
    }
}

/// After the row of an item is reconciled and backfilled, the series is
/// stored with the details that the node lists, and is scored or cannot be
/// backfilled; or the node is skipped or the table is full.
pub proof fn lemma_filled_settles_row(s: StoreView, item: RemoteSeriesView)
    requires
        reaches_log(s, item),
    ensures
        filled(s, item).find_series(item.node.id) matches Some(row) && details_same(
            row,
            item.node,
        ) && (row.scored() || !backfill_ready(item)),
{
    let key = item.node.id;
    let r = reconciled(s, item);
    let f = filled(s, item);
    let sk = s.series_keys();
    lemma_first_position(sk, key);
    let i = first_position(sk, key);
    lemma_filled_shape(s, item);
    let fk = f.series_keys();
    if wants_backfill(s, item) && backfill_ready(item) {
        lemma_add_participants_frame(r, item.node.id, item.summary->0.participants);
    }
    assert forall|j: int| 0 <= j < i && j < sk.len() implies fk[j] != key by {
        assert(f.series[j].series_id == s.series[j].series_id);
        assert(sk[j] != key);
    }
    if i < sk.len() {
        assert(f.series[i].series_id == s.series[i].series_id);
        assert(sk[i] == key);
        lemma_first_position_is(fk, key, i);
    } else {
        assert(change_of(s, item) == SeriesChange::Inserted);
        assert(f.series.len() == s.series.len() + 1);
        assert(fk[sk.len() as int] == key);
        lemma_first_position_is(fk, key, sk.len() as int);
    }
}

/// After a pass over an item, the item is settled.
pub proof fn lemma_step_settles(s: StoreView, item: RemoteSeriesView)
    ensures
        settled(step(s, item), item),
{
    if reaches_log(s, item) {
        let f = filled(s, item);
        let t = step(s, item);
        lemma_filled_settles_row(s, item);
        lemma_save_log_settles(f, item);
        assert(t.series == f.series);
        assert(t.series_keys() == f.series_keys());
    }
}

/// A pass over a settled item changes nothing and writes nothing to the
/// series table.
pub proof fn lemma_settled_is_fixed(s: StoreView, item: RemoteSeriesView)
    requires
        settled(s, item),
    ensures
        step(s, item) == s,
        !writes_series(s, item),
{
    if reaches_log(s, item) {
        assert(reconciled(s, item) == s);
        assert(filled(s, item) == s);
        if item.event_log is Some && s.find_event_log(item.node.id) is Some {
            let log = item.event_log->0;
            let t = s.with_event_text(item.node.id, log);
            assert(t.event_logs =~= s.event_logs) by {
                assert forall|j: int| 0 <= j < s.event_logs.len() implies t.event_logs[j]
                    == s.event_logs[j] by {
                    let row = s.event_logs[j];
                    if row.series_id == item.node.id {
                        assert(row.event_log == log);
                    }
                }
            }
        }
    }
}

/// Whether a participant of a summary is stored for a series, or cannot be
/// stored because the table is full.
pub open spec fn participant_settled(s: StoreView, series_id: Seq<char>, stats: GameStatsView) -> bool {
    s.has_participant(series_id, stats.player_id) || next_id(s.participant_ids()) is None
}

/// Storing one participant settles it, and leaves settled what was settled.
pub proof fn lemma_add_participant_settles(
    s: StoreView,
    series_id: Seq<char>,
    stats: GameStatsView,
    other: GameStatsView,
)
    ensures
        participant_settled(add_participant(s, series_id, stats), series_id, stats),
        participant_settled(s, series_id, other) ==> participant_settled(
            add_participant(s, series_id, stats),
            series_id,
            other,
        ),
{
    let t = add_participant(s, series_id, stats);
    if t != s {
        let n = s.participants.len() as int;
        assert(t.participants[n].series_id == series_id);
        assert(t.participants[n].player_id == stats.player_id);
        if s.has_participant(series_id, other.player_id) {
            let i = choose|i: int|
                0 <= i < s.participants.len() && (#[trigger] s.participants[i]).series_id
                    == series_id && s.participants[i].player_id == other.player_id;
            assert(t.participants[i] == s.participants[i]);
        }
    }
}

/// After the participants of a summary are stored, each of them is settled.
pub proof fn lemma_add_participants_settles(
    s: StoreView,
    series_id: Seq<char>,
    stats: Seq<GameStatsView>,
)
    ensures
        forall|k: int|
            0 <= k < stats.len() ==> participant_settled(
                add_participants(s, series_id, stats),
                series_id,
                #[trigger] stats[k],
            ),
    decreases stats.len(),
{
    if stats.len() > 0 {
        let front = stats.drop_last();
        let before = add_participants(s, series_id, front);
        lemma_add_participants_settles(s, series_id, front);
        assert forall|k: int| 0 <= k < stats.len() implies participant_settled(
            add_participants(s, series_id, stats),
            series_id,
            #[trigger] stats[k],
        ) by {
            lemma_add_participant_settles(before, series_id, stats.last(), stats[k]);
            if k < front.len() {
                assert(front[k] == stats[k]);
            }
        }
    }
}

/// Storing participants that are all settled changes nothing.
pub proof fn lemma_settled_participants_are_fixed(
    s: StoreView,
    series_id: Seq<char>,
    stats: Seq<GameStatsView>,
)
    requires
        forall|k: int| 0 <= k < stats.len() ==> participant_settled(s, series_id, #[trigger] stats[k]),
    ensures
        add_participants(s, series_id, stats) == s,
    decreases stats.len(),
{
    if stats.len() > 0 {
        let front = stats.drop_last();
        assert forall|k: int| 0 <= k < front.len() implies participant_settled(
            s,
            series_id,
            #[trigger] front[k],
        ) by {
            assert(front[k] == stats[k]);
        }
        lemma_settled_participants_are_fixed(s, series_id, front);
        assert(participant_settled(s, series_id, stats[stats.len() - 1]));
    }
}

/// Idempotence of the backfill. A backfill that follows the same backfill
/// changes nothing: every participant is stored already, and the scores and
/// the patch are set already.
pub proof fn law_second_backfill_writes_nothing(s: StoreView, item: RemoteSeriesView)
    ensures
        backfill(backfill(s, item), item) == backfill(s, item),
{
    if backfill_ready(item) {
        let scores = item.scores->0;
        let summary = item.summary->0;
        let key = item.node.id;
        let t = add_participants(s, key, summary.participants);
        let u = backfill(s, item);
        lemma_add_participants_settles(s, key, summary.participants);
        assert(u.participants == t.participants);
        assert forall|k: int| 0 <= k < summary.participants.len() implies participant_settled(
            u,
            key,
            #[trigger] summary.participants[k],
        ) by {
            assert(participant_settled(t, key, summary.participants[k]));
            assert(u.participant_ids() == t.participant_ids());
            if t.has_participant(key, summary.participants[k].player_id) {
                let i = choose|i: int|
                    0 <= i < t.participants.len() && (#[trigger] t.participants[i]).series_id
                        == key && t.participants[i].player_id
                        == summary.participants[k].player_id;
                assert(u.participants[i] == t.participants[i]);
            }
        }
        lemma_settled_participants_are_fixed(u, key, summary.participants);
        let v = u.update_scores(key, scores.0, scores.1, summary.game_version);
        assert(v.series =~= u.series);
    }
}

/// A pass that had no event log to save leaves the event logs as they were.
pub proof fn law_missing_event_log_changes_no_log(s: StoreView, item: RemoteSeriesView)
    requires
        item.event_log is None,
    ensures
        step(s, item).event_logs == s.event_logs,
{
    lemma_filled_shape(s, item);
}

/// A settled item whose backfill has its data asks for no backfill: its
/// series is scored, or cannot be stored.
pub proof fn law_settled_asks_no_backfill(s: StoreView, item: RemoteSeriesView)
    requires
        settled(s, item),
        backfill_ready(item),
    ensures
        !wants_backfill(s, item),
{
}

/// After a pass over a coherent listing in which
/// every backfill had its data, no series of the listing asks for a
/// backfill: a second pass asks for no scores and no summary.
pub proof fn law_backfilled_listing_asks_nothing(s: StoreView, items: Seq<RemoteSeriesView>)
    requires
        coherent(items),
        forall|i: int| 0 <= i < items.len() ==> backfill_ready(#[trigger] items[i]),
    ensures
        forall|i: int|
            0 <= i < items.len() ==> !wants_backfill(run(s, items), #[trigger] items[i]),
{
    lemma_run_settles(s, items);
    assert forall|i: int| 0 <= i < items.len() implies !wants_backfill(
        run(s, items),
        #[trigger] items[i],
    ) by {
        law_settled_asks_no_backfill(run(s, items), items[i]);
    }
}

/// After a pass over a coherent listing, every one
/// of its items is settled.
pub proof fn lemma_run_settles(s: StoreView, items: Seq<RemoteSeriesView>)
    requires
        coherent(items),
    ensures
        all_settled(run(s, items), items),
    decreases items.len(),
{
    if items.len() > 0 {
        let front = items.drop_last();
        let last = items.last();
        assert(coherent(front)) by {
            assert forall|i: int, j: int| 0 <= i < j < front.len() implies (#[trigger] front[i]).node.id
                != (#[trigger] front[j]).node.id || front[i] == front[j] by {
                assert(front[i] == items[i]);
                assert(front[j] == items[j]);
            }
        }
        lemma_run_settles(s, front);
        let before = run(s, front);
        assert forall|i: int| 0 <= i < items.len() implies settled(
            run(s, items),
            #[trigger] items[i],
        ) by {
            if i < front.len() {
                assert(front[i] == items[i]);
                assert(settled(before, front[i]));
                assert(items[i].node.id != items[items.len() - 1].node.id || items[i]
                    == items[items.len() - 1]);
                if items[i].node.id != last.node.id {
                    lemma_settled_frame(before, last, items[i]);
                } else {
                    lemma_step_settles(before, last);
                }
            } else {
                lemma_step_settles(before, last);
            }
        }
    }
}

/// A pass over a listing whose items are all settled changes nothing,
/// inserts nothing and writes nothing to the series table.
pub proof fn lemma_settled_run_is_fixed(s: StoreView, items: Seq<RemoteSeriesView>)
    requires
        all_settled(s, items),
    ensures
        run(s, items) == s,
        inserted_count(s, items) == 0,
        series_writes(s, items) == 0,
    decreases items.len(),
{
    if items.len() > 0 {
        let front = items.drop_last();
        assert(all_settled(s, front)) by {
            assert forall|i: int| 0 <= i < front.len() implies settled(s, #[trigger] front[i]) by {
                assert(front[i] == items[i]);
            }
        }
        lemma_settled_run_is_fixed(s, front);
        assert(settled(s, items[items.len() - 1]));
        lemma_settled_is_fixed(s, items.last());
    }
}

/// Whether the series of an item needs no insert: its node is skipped, its
/// series is stored, or the series table is full.
pub open spec fn known(s: StoreView, item: RemoteSeriesView) -> bool {
    ||| item.node.teams.len() < TEAMS_PER_SERIES
    ||| s.find_series(item.node.id) is Some
    ||| next_id(s.series_ids()) is None
}

/// Whether the series of every item of a listing needs no insert.
pub open spec fn all_known(s: StoreView, items: Seq<RemoteSeriesView>) -> bool {
    forall|i: int| 0 <= i < items.len() ==> known(s, #[trigger] items[i])
}

/// A pass over any item leaves known what was known, and makes its own
/// item known.
pub proof fn lemma_step_keeps_known(s: StoreView, other: RemoteSeriesView, item: RemoteSeriesView)
    ensures
        known(step(s, other), other),
        known(s, item) ==> known(step(s, other), item),
{
    lemma_step_settles(s, other);
    let t = step(s, other);
    lemma_step_shape(s, other);
    if known(s, item) && item.node.teams.len() >= TEAMS_PER_SERIES {
        let key = item.node.id;
        let sk = s.series_keys();
        let tk = t.series_keys();
        lemma_first_position(sk, key);
        lemma_first_position(tk, key);
        let i = first_position(sk, key);
        if i < sk.len() {
            assert(t.series[i].series_id == s.series[i].series_id);
            assert(tk[i] == sk[i]);
        } else {
            assert(t.series_ids() =~= s.series_ids());
        }
    }
}

/// A pass over a listing leaves known what was known.
pub proof fn lemma_run_keeps_known(
    s: StoreView,
    passed: Seq<RemoteSeriesView>,
    items: Seq<RemoteSeriesView>,
)
    requires
        all_known(s, items),
    ensures
        all_known(run(s, passed), items),
    decreases passed.len(),
{
    if passed.len() > 0 {
        lemma_run_keeps_known(s, passed.drop_last(), items);
        let before = run(s, passed.drop_last());
        assert forall|i: int| 0 <= i < items.len() implies known(
            run(s, passed),
            #[trigger] items[i],
        ) by {
            lemma_step_keeps_known(before, passed.last(), items[i]);
        }
    }
}

/// After a pass over a listing, every series of the listing is known.
pub proof fn lemma_run_makes_known(s: StoreView, items: Seq<RemoteSeriesView>)
    ensures
        all_known(run(s, items), items),
    decreases items.len(),
{
    if items.len() > 0 {
        let front = items.drop_last();
        lemma_run_makes_known(s, front);
        let before = run(s, front);
        assert forall|i: int| 0 <= i < items.len() implies known(
            run(s, items),
            #[trigger] items[i],
        ) by {
            if i < front.len() {
                assert(front[i] == items[i]);
            }
            lemma_step_keeps_known(before, items.last(), items[i]);
        }
    }
}

/// A pass over a prefix of a listing whose series are all known inserts
/// nothing.
pub proof fn lemma_known_listing_inserts_nothing(
    s: StoreView,
    items: Seq<RemoteSeriesView>,
    n: int,
)
    requires
        all_known(s, items),
        0 <= n <= items.len(),
    ensures
        inserted_count(s, items.subrange(0, n)) == 0,
    decreases n,
{
    if n > 0 {
        let upto = items.subrange(0, n);
        assert(upto.drop_last() =~= items.subrange(0, n - 1));
        assert(upto.last() == items[n - 1]);
        lemma_known_listing_inserts_nothing(s, items, n - 1);
        lemma_run_keeps_known(s, items.subrange(0, n - 1), items);
        assert(known(run(s, items.subrange(0, n - 1)), items[n - 1]));
    }
}

/// A second pass over any listing inserts no series row, whatever the
/// listing holds: whether it repeats a series, and whatever it says of it.
pub proof fn law_second_pass_inserts_nothing(s: StoreView, items: Seq<RemoteSeriesView>)
    ensures
        inserted_count(run(s, items), items) == 0,
{
    lemma_run_makes_known(s, items);
    lemma_known_listing_inserts_nothing(run(s, items), items, items.len() as int);
    assert(items.subrange(0, items.len() as int) =~= items);
}

/// Idempotence. A second pass over an unchanged listing, which is coherent,
/// leaves the replica as the first pass left it:
/// it inserts no series row, rewrites and backfills none, and so stores no
/// participant; the event logs that it saves are those stored already.
pub proof fn law_second_pass_writes_nothing(s: StoreView, items: Seq<RemoteSeriesView>)
    requires
        coherent(items),
    ensures
        run(run(s, items), items) == run(s, items),
        inserted_count(run(s, items), items) == 0,
        series_writes(run(s, items), items) == 0,
{
    lemma_run_settles(s, items);
    lemma_settled_run_is_fixed(run(s, items), items);
}

} // verus!
