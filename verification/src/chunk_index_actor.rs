//! The chunk index as its worker keeps it: fragment events from the recorder are
//! applied in order, and a snapshot of the open fragment and of the newest
//! finalized chunk lets a mark be taken without waiting for the worker.
use vstd::prelude::*;

use crate::buffer::{
    chunk_id_from_path, chunk_id_spec, closed_step, paths_match, input_of, mark_outcome, opened_step,
    timeline_mark_at, timeline_mark_spec, unix_now_ms, BufferMark, ChunkIndex,
    OpenFragmentMarkInput,
};
use crate::text::{chars_eq, chars_eq_str, str_chars};

verus! {

/// A fragment notification from the recorder.
#[derive(Debug)]
pub enum FragmentEvent {
    Opened { location: String },
    Closed { location: String, duration_ms: Option<u64> },
}

/// The event a recorder element message stands for: a fragment opened or closed
/// (with its duration in whole milliseconds when reported), else none. A message
/// without a location is ignored.
pub open spec fn fragment_event_spec(
    name: Seq<char>,
    location: Option<String>,
    duration_ns: Option<u64>,
    r: Option<FragmentEvent>,
) -> bool {
    if name == "splitmuxsink-fragment-opened"@ {
        match location {
            Some(l) => r matches Some(FragmentEvent::Opened { location }) && location == l,
            None => r is None,
        }
    } else if name == "splitmuxsink-fragment-closed"@ {
        match location {
            Some(l) => r matches Some(FragmentEvent::Closed { location, duration_ms })
                && location == l && duration_ms == match duration_ns {
                Some(ns) => Some((ns / 1_000_000) as u64),
                None => None,
            },
            None => r is None,
        }
    } else {
        r is None
    }
}

/// Classifies an element message of the recorder by its structure name, its
/// `location` field and its `fragment-duration` field (nanoseconds).
pub fn fragment_event_from_message(name: &str, location: Option<String>, duration_ns: Option<u64>) -> (r: Option<FragmentEvent>)
    ensures
        fragment_event_spec(name@, location, duration_ns, r),
{
    let n = str_chars(name);
    if chars_eq_str(&n, "splitmuxsink-fragment-opened") {
        match location {
            Some(l) => Some(FragmentEvent::Opened { location: l }),
            None => None,
        }
    } else if chars_eq_str(&n, "splitmuxsink-fragment-closed") {
        match location {
            Some(l) => {
                let duration_ms = match duration_ns {
                    Some(ns) => Some(ns / 1_000_000),
                    None => None,
                };
                Some(FragmentEvent::Closed { location: l, duration_ms })
            },
            None => None,
        }
    } else {
        None
    }
}

/// What a mark needs without the index: the open fragment as the recorder
/// reported it, and the id of the newest finalized chunk.
#[derive(Debug)]
pub struct ChunkIndexHandle {
    pub open: Option<OpenFragmentMarkInput>,
    pub last_finalized: Option<String>,
}

/// The text behind an optional string.
pub open spec fn opt_view(s: Option<String>) -> Option<Seq<char>> {
    match s {
        Some(t) => Some(t@),
        None => None,
    }
}

impl ChunkIndexHandle {
    /// The snapshot of an index as the worker starts: no open fragment, and the
    /// newest finalized chunk of the index.
    pub fn for_index(index: &ChunkIndex) -> (r: Self)
        ensures
            r.open is None,
            opt_view(r.last_finalized) == index.last_finalized_id(),
    {
        ChunkIndexHandle { open: None, last_finalized: index.last_entry_id() }
    }

    /// Records that the recorder opened `location` at wall-clock time `now_ms`.
    pub fn note_fragment_opened(&mut self, location: &str, now_ms: i64)
        ensures
            final(self).open matches Some(o) && o.chunk_id@ == chunk_id_spec(location@)
                && o.opened_unix_ms == now_ms,
            final(self).last_finalized == old(self).last_finalized,
    {
        let chunk_id = chunk_id_from_path(location);
        self.open = Some(OpenFragmentMarkInput { chunk_id, opened_unix_ms: now_ms });
    }

    /// The mark at wall-clock time `now_ms`, by the same rule as the index's.
    pub fn snapshot_mark_at(&self, now_ms: i64) -> (r: Result<BufferMark, &'static str>)
        ensures
            mark_outcome(r, timeline_mark_spec(self.open, opt_view(self.last_finalized), now_ms)),
    {
        let last = match &self.last_finalized {
            Some(l) => Some(l.as_str()),
            None => None,
        };
        timeline_mark_at(self.open.as_ref(), last, now_ms)
    }

    /// The mark now (reads the wall clock).
    pub fn snapshot_mark(&self) -> (r: Result<BufferMark, &'static str>)
        ensures
            exists|t: i64|
                mark_outcome(r, #[trigger] timeline_mark_spec(self.open, opt_view(self.last_finalized), t)),
    {
        let now = unix_now_ms();
        self.snapshot_mark_at(now)
    }
}

/// The snapshot's open fragment after `location` was closed: dropped when it is
/// the closed chunk, else kept (the next fragment may already have been noted).
pub open spec fn open_after_close(open: Option<OpenFragmentMarkInput>, location: Seq<char>) -> Option<
    OpenFragmentMarkInput,
> {
    match open {
        Some(o) => if o.chunk_id@ == chunk_id_spec(location) {
            None
        } else {
            open
        },
        None => None,
    }
}

/// Applies a recorder event to the index at wall-clock time `now_ms` and keeps the
/// snapshot in step: a close drops the snapshot's open fragment when it is the
/// closed chunk, and records the newest finalized chunk. Returns the chunk paths
/// retention evicted (to be deleted).
pub fn apply_fragment_event(
    index: &mut ChunkIndex,
    snapshot: &mut ChunkIndexHandle,
    event: FragmentEvent,
    now_ms: i64,
) -> (evicted: Vec<String>)
    requires
        old(index).inv(),
        event matches FragmentEvent::Closed { duration_ms, .. } ==> old(index).close_fits(
            match duration_ms {
                Some(d) => d,
                None => old(index).chunk_ms(),
            },
        ),
    ensures
        final(index).inv(),
        match event {
            FragmentEvent::Opened { location } => {
                &&& opened_step(*old(index), *final(index), location, now_ms)
                &&& evicted@.len() == 0
                &&& final(snapshot).open == old(snapshot).open
                &&& final(snapshot).last_finalized == old(snapshot).last_finalized
            },
            FragmentEvent::Closed { location, duration_ms } => {
                &&& closed_step(*old(index), *final(index), location, duration_ms, now_ms, evicted@)
                &&& final(snapshot).open == open_after_close(old(snapshot).open, location@)
                &&& opt_view(final(snapshot).last_finalized) == final(index).last_finalized_id()
            },
        },
{
    match event {
        FragmentEvent::Opened { location } => {
            index.on_fragment_opened_at(location, now_ms);
            Vec::new()
        },
        FragmentEvent::Closed { location, duration_ms } => {
            let closed_id = str_chars(chunk_id_from_path(location.as_str()).as_str());
            let is_open = match &snapshot.open {
                Some(o) => chars_eq(&str_chars(o.chunk_id.as_str()), &closed_id),
                None => false,
            };
            if is_open {
                snapshot.open = None;
            }
            let evicted = index.on_fragment_closed_at(location, duration_ms, now_ms);
            snapshot.last_finalized = index.last_entry_id();
            evicted
        },
    }
}

/// The chunk id and opening time of an open-fragment input.
pub open spec fn input_view(o: Option<OpenFragmentMarkInput>) -> Option<(Seq<char>, i64)> {
    match o {
        Some(i) => Some((i.chunk_id@, i.opened_unix_ms)),
        None => None,
    }
}

/// The snapshot agrees with the index on the open fragment and on the newest
/// finalized chunk.
pub open spec fn snapshot_in_step(snapshot: ChunkIndexHandle, index: ChunkIndex) -> bool {
    &&& input_view(snapshot.open) == input_view(index.open_mark_input())
    &&& opt_view(snapshot.last_finalized) == index.last_finalized_id()
}

/// A mark taken from a snapshot that agrees with the index is the mark the index
/// itself would take at the same time.
pub proof fn law_snapshot_mark_parity(snapshot: ChunkIndexHandle, index: ChunkIndex, now_ms: i64)
    requires
        snapshot_in_step(snapshot, index),
    ensures
        timeline_mark_spec(snapshot.open, opt_view(snapshot.last_finalized), now_ms)
            == timeline_mark_spec(index.open_mark_input(), index.last_finalized_id(), now_ms),
{
}

/// Noting an opening in the snapshot and applying the same opening to the index,
/// at the same time, keeps the two in step.
pub proof fn law_opening_keeps_snapshot_in_step(
    old_snapshot: ChunkIndexHandle,
    new_snapshot: ChunkIndexHandle,
    old_index: ChunkIndex,
    new_index: ChunkIndex,
    location: String,
    now_ms: i64,
)
    requires
        opt_view(old_snapshot.last_finalized) == old_index.last_finalized_id(),
        new_snapshot.open matches Some(o) && o.chunk_id@ == chunk_id_spec(location@)
            && o.opened_unix_ms == now_ms,
        new_snapshot.last_finalized == old_snapshot.last_finalized,
        opened_step(old_index, new_index, location, now_ms),
    ensures
        snapshot_in_step(new_snapshot, new_index),
{
}

/// Closing the index's open fragment (the same path, as text or as a `Path`),
/// and applying the same close to a snapshot that agreed with the index, keeps
/// the two in step: both drop the open fragment and name the closed chunk as the
/// newest finalized one.
pub proof fn law_closing_keeps_snapshot_in_step(
    old_snapshot: ChunkIndexHandle,
    new_snapshot: ChunkIndexHandle,
    old_index: ChunkIndex,
    new_index: ChunkIndex,
    location: String,
    duration_ms: Option<u64>,
    now_ms: i64,
    evicted: Seq<String>,
)
    requires
        old_index.inv(),
        snapshot_in_step(old_snapshot, old_index),
        old_index.open_fragment_spec() matches Some(o) && (o.path@ == location@ || paths_match(
            o.path@,
            location@,
        )),
        closed_step(old_index, new_index, location, duration_ms, now_ms, evicted),
        new_snapshot.open == open_after_close(old_snapshot.open, location@),
        opt_view(new_snapshot.last_finalized) == new_index.last_finalized_id(),
    ensures
        snapshot_in_step(new_snapshot, new_index),
        new_snapshot.open is None,
{
}

} // verus!
