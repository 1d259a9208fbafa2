//! The playback queue shared by the selection handler and the audio
//! thread: the tracks sent to the audio output, in order, and the cursor of
//! the one playing. The owner guards it with one lock, so that a reader sees
//! the queue and the cursor together.

use std::cmp::Ordering;
use vstd::prelude::*;

use crate::cache::views;
use crate::text::{compare_text, decimal, decimal_text, text_order};
use crate::track::{display_title, num_order, Track, TrackView};

verus! {

/// The queue's length and cursor.
pub struct QueueModel {
    pub len: nat,
    pub cursor: nat,
}

/// What happens to the queue: a selection whose stream did or did not open,
/// or the end of the track playing.
pub enum QueueEvent {
    Selected { opened: bool },
    Completed,
}

/// The effect of one event: an opened selection adds a track, a failed one
/// changes nothing, and a completion moves the cursor one step while it is
/// within the queue.
pub open spec fn step(m: QueueModel, e: QueueEvent) -> QueueModel {
    match e {
        QueueEvent::Selected { opened } => if opened {
            QueueModel { len: m.len + 1, cursor: m.cursor }
        } else {
            m
        },
        QueueEvent::Completed => if m.cursor < m.len {
            QueueModel { len: m.len, cursor: m.cursor + 1 }
        } else {
            m
        },
    }
}

/// The queue after a run of events from the empty queue.
pub open spec fn run(events: Seq<QueueEvent>) -> QueueModel
    decreases events.len(),
{
    if events.len() == 0 {
        QueueModel { len: 0, cursor: 0 }
    } else {
        step(run(events.drop_last()), events.last())
    }
}

/// How many completions a run of events holds.
pub open spec fn completions(events: Seq<QueueEvent>) -> nat
    decreases events.len(),
{
    if events.len() == 0 {
        0
    } else {
        completions(events.drop_last()) + if events.last() is Completed {
            1nat
        } else {
            0nat
        }
    }
}

/// How many selections in a run of events opened their stream.
pub open spec fn opened_selections(events: Seq<QueueEvent>) -> nat
    decreases events.len(),
{
    if events.len() == 0 {
        0
    } else {
        opened_selections(events.drop_last()) + match events.last() {
            QueueEvent::Selected { opened } => if opened {
                1nat
            } else {
                0nat
            },
            QueueEvent::Completed => 0nat,
        }
    }
}

/// Every completion ends a track that was queued before it: at no point
/// have there been more completions than opened selections.
pub open spec fn completions_follow_plays(events: Seq<QueueEvent>) -> bool {
    forall|i: int|
        0 <= i <= events.len() ==> completions(#[trigger] events.take(i)) <= opened_selections(
            events.take(i),
        )
}

/// Starting from the empty queue, after any run of selections and `k`
/// completions, each of which ends a track queued before it, the cursor is
/// `k`, the queue holds one entry per opened selection, and the cursor
/// never passes the end of the queue.
pub proof fn lemma_cursor_counts_completions(events: Seq<QueueEvent>)
    requires
        completions_follow_plays(events),
    ensures
        run(events).cursor == completions(events),
        run(events).len == opened_selections(events),
        run(events).cursor <= run(events).len,
    decreases events.len(),
{
    if events.len() > 0 {
        let pre = events.drop_last();
        assert forall|i: int| 0 <= i <= pre.len() implies completions(#[trigger] pre.take(i))
            <= opened_selections(pre.take(i)) by {
            assert(pre.take(i) =~= events.take(i));
        }
        lemma_cursor_counts_completions(pre);
        assert(events.take(events.len() as int) =~= events);
        assert(completions(events.take(events.len() as int)) <= opened_selections(
            events.take(events.len() as int),
        ));
    }
}

/// Why a selection was not queued.
#[derive(Clone, Copy, Debug, PartialEq, Eq, Structural)]
pub enum PlaybackError {
    /// The selected file could not be opened or decoded.
    OpenFailed,
}

/// The tracks sent to the audio output, in order, and the cursor of the one
/// playing (equal to the length once all have finished).
pub struct PlaybackQueue {
    queue: Vec<Track>,
    index: usize,
}

impl PlaybackQueue {
    /// The cursor lies within the queue or just past its end.
    pub closed spec fn wf(self) -> bool {
        self.index <= self.queue.len()
    }

    /// The queued tracks, in order.
    pub closed spec fn entries(self) -> Seq<TrackView> {
        views(self.queue@)
    }

    /// The position of the track playing.
    pub closed spec fn cursor(self) -> nat {
        self.index as nat
    }

    /// The queue's length and cursor.
    pub open spec fn model(self) -> QueueModel {
        QueueModel { len: self.entries().len(), cursor: self.cursor() }
    }

    /// An empty queue, cursor at zero.
    pub fn new() -> (r: PlaybackQueue)
        ensures
            r.wf(),
            r.entries() == Seq::<TrackView>::empty(),
            r.cursor() == 0,
    {
        let r = PlaybackQueue { queue: Vec::new(), index: 0 };
        assert(r.entries() =~= Seq::<TrackView>::empty());
        r
    }

    /// The number of queued tracks.
    pub fn len(&self) -> (r: usize)
        ensures
            r == self.entries().len(),
    {
        self.queue.len()
    }

    /// The cursor: the position of the track playing.
    pub fn queue_index(&self) -> (r: usize)
        requires
            self.wf(),
        ensures
            r == self.cursor(),
            r <= self.entries().len(),
    {
        self.index
    }

    /// Records a selection. When its stream opened, the track is appended
    /// and its 1-based position returned; when it did not, the queue and
    /// the cursor stay as they were and `OpenFailed` is returned.
    pub fn enqueue_if_opened(&mut self, track: Track, opened: bool) -> (r: Result<
        usize,
        PlaybackError,
    >)
        requires
            old(self).wf(),
        ensures
            final(self).wf(),
            final(self).model() == step(old(self).model(), QueueEvent::Selected { opened }),
            final(self).cursor() <= final(self).entries().len(),
            opened ==> {
                &&& final(self).entries() == old(self).entries().push(track@)
                &&& final(self).cursor() == old(self).cursor()
                &&& r == Ok::<usize, PlaybackError>(final(self).entries().len() as usize)
            },
            !opened ==> {
                &&& final(self).entries() == old(self).entries()
                &&& final(self).cursor() == old(self).cursor()
                &&& r == Err::<usize, PlaybackError>(PlaybackError::OpenFailed)
            },
    {
        if !opened {
            return Err(PlaybackError::OpenFailed);
        }
        let ghost t = track@;
        self.queue.push(track);
        assert(views(self.queue@) =~= views(old(self).queue@).push(t));
        Ok(self.queue.len())
    }

    /// Moves the cursor past the track that finished. Returns whether it
    /// moved: it stays put once every queued track has finished.
    pub fn advance_cursor(&mut self) -> (r: bool)
        requires
            old(self).wf(),
        ensures
            final(self).wf(),
            final(self).model() == step(old(self).model(), QueueEvent::Completed),
            final(self).cursor() <= final(self).entries().len(),
            final(self).entries() == old(self).entries(),
            r == (old(self).cursor() < old(self).entries().len()),
            r ==> final(self).cursor() == old(self).cursor() + 1,
            !r ==> final(self).cursor() == old(self).cursor(),
    {
        if self.index < self.queue.len() {
            self.index = self.index + 1;
            true
        } else {
            false
        }
    }

    /// The track playing, read together with the cursor: `None` once every
    /// queued track has finished.
    pub fn current(&self) -> (r: Option<&Track>)
        ensures
            match r {
                Some(t) => self.cursor() < self.entries().len() && t@ == self.entries()[self.cursor()
                    as int],
                None => self.cursor() >= self.entries().len(),
            },
    {
        if self.index < self.queue.len() {
            Some(&self.queue[self.index])
        } else {
            None
        }
    }
}

/// Fires once when a track's stream runs out, however often the end is
/// seen afterwards.
pub struct TrackEndLatch {
    fired: bool,
}

impl TrackEndLatch {
    /// Whether the end has been seen.
    pub closed spec fn has_fired(self) -> bool {
        self.fired
    }

    /// A latch that has not fired.
    pub fn new() -> (r: TrackEndLatch)
        ensures
            !r.has_fired(),
    {
        TrackEndLatch { fired: false }
    }

    /// Notes one pull from the stream; `exhausted` tells whether it ran
    /// out. Returns true exactly on the first pull that finds it exhausted.
    pub fn observe(&mut self, exhausted: bool) -> (fire: bool)
        ensures
            fire == (exhausted && !old(self).has_fired()),
            final(self).has_fired() == (old(self).has_fired() || exhausted),
    {
        if exhausted && !self.fired {
            self.fired = true;
            true
        } else {
            false
        }
    }
}

/// The columns of the queue list.
#[derive(Clone, Copy, Debug, PartialEq, Eq, Structural, Hash)]
pub enum QueueField {
    Index,
    Track,
}

/// A row of the queue list: the track's 1-based position and the track.
pub struct QueueEntry {
    pub index: usize,
    pub track: Track,
}

/// The text a queue-list column shows.
pub open spec fn entry_text(index: nat, t: TrackView, f: QueueField) -> Seq<char> {
    match f {
        QueueField::Index => decimal(index),
        QueueField::Track => display_title(t),
    }
}

/// How two queue-list rows are ordered in a column: by position, or by the
/// shown title, case included.
pub open spec fn entry_order(
    ai: nat,
    a: TrackView,
    bi: nat,
    b: TrackView,
    f: QueueField,
) -> Ordering {
    match f {
        QueueField::Index => num_order(ai, bi),
        QueueField::Track => text_order(display_title(a), display_title(b)),
    }
}

impl QueueEntry {
    /// A row for `track` at position `index`.
    pub fn new(index: usize, track: Track) -> (r: QueueEntry)
        ensures
            r.index == index,
            r.track == track,
    {
        QueueEntry { index, track }
    }

    /// The text this row shows in column `column`.
    pub fn to_column(&self, column: QueueField) -> (r: String)
        ensures
            r@ == entry_text(self.index as nat, self.track@, column),
    {
        match column {
            QueueField::Index => decimal_text(self.index as u64),
            QueueField::Track => self.track.display_title(),
        }
    }

    /// Orders this row against `other` in column `column`.
    pub fn compare(&self, other: &QueueEntry, column: QueueField) -> (r: Ordering)
        ensures
            r == entry_order(
                self.index as nat,
                self.track@,
                other.index as nat,
                other.track@,
                column,
            ),
    {
        match column {
            QueueField::Index => {
                if self.index < other.index {
                    Ordering::Less
                } else if self.index > other.index {
                    Ordering::Greater
                } else {
                    Ordering::Equal
                }
            },
            QueueField::Track => {
                let a = self.track.display_title();
                let b = other.track.display_title();
                compare_text(a.as_str(), b.as_str())
            },
        }
    }
}

} // verus!
