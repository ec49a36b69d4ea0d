//! The event log of a series.
//!
//! The replica stores an event log as the JSON text that the remote service
//! sent: an array of edges, each with a node that has a type and a list of
//! sentence chunks. The log is decoded when it is read. Champion bans are
//! taken from the decoded events.

use crate::document::{items_of, member, member_of, text_of};
use crate::json::{field, items, json_field, json_parse, parse, text};
use crate::text::str_eq;
use serde_json::Value;
use vstd::prelude::*;

verus! {

/// The kinds of event that the replica records.
#[derive(Debug, PartialEq, Eq, Clone, Copy, Structural)]
pub enum EventKind {
    TeamBannedCharacter,
    TeamPickedCharacter,
    GridValidatedSeries,
    Other,
}

/// One event: its kind and the texts of its sentence chunks, in order. A
/// chunk without a text is `None`.
#[derive(Debug)]
pub struct Event {
    pub kind: EventKind,
    pub chunks: Vec<Option<String>>,
}

/// The view of an [`Event`].
pub struct EventView {
    pub kind: EventKind,
    pub chunks: Seq<Option<Seq<char>>>,
}

impl View for Event {
    type V = EventView;

    open spec fn view(&self) -> EventView {
        EventView { kind: self.kind, chunks: self.chunks.deep_view() }
    }
}

impl DeepView for Event {
    type V = EventView;

    open spec fn deep_view(&self) -> EventView {
        self@
    }
}

/// The position of the chunk that names the champion of a ban.
pub const BAN_CHAMPION_CHUNK: usize = 2;

/// The kind that a type name denotes.
pub open spec fn kind_of_name(name: Seq<char>) -> EventKind {
    if name == "team-banned-character"@ {
        EventKind::TeamBannedCharacter
    } else if name == "team-picked-character"@ {
        EventKind::TeamPickedCharacter
    } else if name == "grid-validated-series"@ {
        EventKind::GridValidatedSeries
    } else {
        EventKind::Other
    }
}

/// The text of a sentence chunk.
pub open spec fn chunk_text(chunk: Value) -> Option<Seq<char>> {
    text_of(json_field(chunk, "text"@))
}

/// The kind of the event in an edge: that of its node's type, `Other` where
/// there is no node or its type is not a string.
pub open spec fn edge_kind(edge: Value) -> EventKind {
    match text_of(member(json_field(edge, "node"@), "type"@)) {
        Some(name) => kind_of_name(name),
        None => EventKind::Other,
    }
}

/// The chunk texts of the event in an edge: none where there is no node or
/// its chunks are not an array.
pub open spec fn edge_chunks(edge: Value) -> Seq<Option<Seq<char>>> {
    match items_of(member(json_field(edge, "node"@), "sentenceChunks"@)) {
        Some(chunks) => chunks.map_values(|c: Value| chunk_text(c)),
        None => Seq::empty(),
    }
}

/// The event that an edge holds.
pub open spec fn edge_event(edge: Value) -> EventView {
    EventView { kind: edge_kind(edge), chunks: edge_chunks(edge) }
}

/// The events of a document: one for each edge where the document is an
/// array, none otherwise.
pub open spec fn document_events(doc: Option<Value>) -> Seq<EventView> {
    match items_of(doc) {
        Some(edges) => edges.map_values(|e: Value| edge_event(e)),
        None => Seq::empty(),
    }
}

/// The events of an event log, given as text.
pub open spec fn log_events(log: Seq<char>) -> Seq<EventView> {
    document_events(json_parse(log))
}

/// The champion that an event bans: the text of its third chunk, where the
/// event is a ban and has such a text.
pub open spec fn banned_by(event: EventView) -> Option<Seq<char>> {
    if event.kind == EventKind::TeamBannedCharacter && event.chunks.len() > BAN_CHAMPION_CHUNK {
        event.chunks[BAN_CHAMPION_CHUNK as int]
    } else {
        None
    }
}

/// The champions that a sequence of events bans, in the order of the events.
pub open spec fn bans(events: Seq<EventView>) -> Seq<Seq<char>>
    decreases events.len(),
{
    if events.len() == 0 {
        Seq::empty()
    } else {
        match banned_by(events.last()) {
            Some(champion) => bans(events.drop_last()).push(champion),
            None => bans(events.drop_last()),
        }
    }
}

/// The kind that a type name denotes.
pub fn kind_named(name: &str) -> (r: EventKind)
    ensures
        r == kind_of_name(name@),
{
    if str_eq(name, "team-banned-character") {
        EventKind::TeamBannedCharacter
    } else if str_eq(name, "team-picked-character") {
        EventKind::TeamPickedCharacter
    } else if str_eq(name, "grid-validated-series") {
        EventKind::GridValidatedSeries
    } else {
        EventKind::Other
    }
}

/// Decodes the event that an edge holds.
pub fn decode_event(edge: &Value) -> (r: Event)
    ensures
        r@ == edge_event(*edge),
{
    let node = field(edge, "node");
    let kind = match member_of(node, "type") {
        Some(t) => match text(t) {
            Some(name) => kind_named(name),
            None => EventKind::Other,
        },
        None => EventKind::Other,
    };
    let mut chunks: Vec<Option<String>> = Vec::new();
    assert(chunks.deep_view() =~= Seq::empty());
    match member_of(node, "sentenceChunks") {
        Some(list) => match items(list) {
            Some(found) => {
                let mut i: usize = 0;
                while i < found.len()
                    invariant
                        i <= found.len(),
                        chunks.deep_view() == found@.subrange(0, i as int).map_values(
                            |c: Value| chunk_text(c),
                        ),
                    decreases found.len() - i,
                {
                    let ghost before = chunks.deep_view();
                    let t = match field(&found[i], "text") {
                        Some(t) => match text(t) {
                            Some(s) => Some(s.to_owned()),
                            None => None,
                        },
                        None => None,
                    };
                    chunks.push(t);
                    assert(chunks.deep_view() =~= before.push(chunk_text(found@[i as int])));
                    assert(found@.subrange(0, i + 1).map_values(|c: Value| chunk_text(c))
                        =~= before.push(chunk_text(found@[i as int])));
                    i += 1;
                }
                assert(found@.subrange(0, i as int) =~= found@);
            },
            None => {},
        },
        None => {},
    }
    Event { kind, chunks }
}

/// Decodes the events of a document.
pub fn decode_events(doc: &Value) -> (r: Vec<Event>)
    ensures
        r.deep_view() == document_events(Some(*doc)),
{
    let mut events: Vec<Event> = Vec::new();
    assert(events.deep_view() =~= Seq::empty());
    match items(doc) {
        Some(edges) => {
            let mut i: usize = 0;
            while i < edges.len()
                invariant
                    i <= edges.len(),
                    events.deep_view() == edges@.subrange(0, i as int).map_values(
                        |e: Value| edge_event(e),
                    ),
                decreases edges.len() - i,
            {
                let ghost before = events.deep_view();
                let event = decode_event(&edges[i]);
                events.push(event);
                assert(events.deep_view() =~= before.push(edge_event(edges@[i as int])));
                assert(edges@.subrange(0, i + 1).map_values(|e: Value| edge_event(e))
                    =~= before.push(edge_event(edges@[i as int])));
                i += 1;
            }
            assert(edges@.subrange(0, i as int) =~= edges@);
        },
        None => {},
    }
    events
}

/// Decodes an event log from its text. A text that is not JSON, or not an
/// array, holds no events.
pub fn parse_event_log(log: &str) -> (r: Vec<Event>)
    ensures
        r.deep_view() == log_events(log@),
{
    match parse(log) {
        Some(doc) => decode_events(&doc),
        None => {
            let events: Vec<Event> = Vec::new();
            assert(events.deep_view() =~= Seq::empty());
            events
        },
    }
}

/// The champions that a sequence of events bans, in the order of the events.
pub fn banned_champions(events: &Vec<Event>) -> (r: Vec<String>)
    ensures
        r.deep_view() == bans(events.deep_view()),
{
    let mut banned: Vec<String> = Vec::new();
    let mut i: usize = 0;
    assert(banned.deep_view() =~= Seq::empty());
    assert(events.deep_view().subrange(0, 0) =~= Seq::empty());
    while i < events.len()
        invariant
            i <= events.len(),
            banned.deep_view() == bans(events.deep_view().subrange(0, i as int)),
        decreases events.len() - i,
    {
        let ghost before = banned.deep_view();
        let ghost upto = events.deep_view().subrange(0, i + 1);
        assert(upto.drop_last() =~= events.deep_view().subrange(0, i as int));
        assert(upto.last() == events@[i as int]@);
        let event = &events[i];
        if event.kind == EventKind::TeamBannedCharacter && event.chunks.len() > BAN_CHAMPION_CHUNK {
            assert(event@.chunks[BAN_CHAMPION_CHUNK as int] == event.chunks@[BAN_CHAMPION_CHUNK as int].deep_view());
            match &event.chunks[BAN_CHAMPION_CHUNK] {
                Some(champion) => {
                    banned.push(champion.clone());
                    assert(banned.deep_view() =~= before.push(champion@));
                },
                None => {},
            }
        }
        i += 1;
    }
    assert(events.deep_view().subrange(0, i as int) =~= events.deep_view());
    banned
}

/// The champions banned in an event log, given as text.
pub fn extract_banned_champions(event_log_str: &str) -> (r: Vec<String>)
    ensures
        r.deep_view() == bans(log_events(event_log_str@)),
{
    let events = parse_event_log(event_log_str);
    banned_champions(&events)
}

} // verus!
