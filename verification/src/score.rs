//! The score: the timestamped events of a piece, in playing order.

use vstd::prelude::*;

verus! {

/// A span of time or a point on a timeline, in microseconds.
pub type Micros = u64;

/// One millisecond, in microseconds.
pub const MILLISECOND: Micros = 1_000;

/// One second, in microseconds.
pub const SECOND: Micros = 1_000_000;

/// What an event of the score says.
#[derive(Debug, PartialEq, Eq, Clone, Copy, Structural)]
pub enum Message {
    /// A key goes down.
    NoteOn { key: u8, velocity: u8 },
    /// A key goes up.
    NoteOff { key: u8 },
    /// Anything else; playback passes over it.
    Other,
}

/// One event of the score, on the channel that carries it.
#[derive(Debug, PartialEq, Eq, Clone, Copy, Structural)]
pub struct ScoreEvent {
    pub channel: u8,
    /// When the event happens, counted from the start of the piece.
    pub timestamp: Micros,
    pub message: Message,
}

/// Whether `event` presses `key`.
pub open spec fn presses(event: ScoreEvent, key: u8) -> bool {
    event.message matches Message::NoteOn { key: k, .. } && k == key
}

/// The index of the last event before index `before` that presses `key`, if
/// there is one.
pub open spec fn last_press_before(events: Seq<ScoreEvent>, key: u8, before: int) -> Option<int>
    decreases before,
{
    if before <= 0 || before > events.len() {
        None
    } else if presses(events[before - 1], key) {
        Some(before - 1)
    } else {
        last_press_before(events, key, before - 1)
    }
}

/// The index of the first event at index `from` or later that presses a key
/// later than `time`, if there is one.
pub open spec fn next_press_after(events: Seq<ScoreEvent>, time: int, from: int) -> Option<int>
    decreases events.len() - from,
{
    if from < 0 || from >= events.len() {
        None
    } else if events[from].message is NoteOn && events[from].timestamp > time {
        Some(from)
    } else {
        next_press_after(events, time, from + 1)
    }
}

/// No event comes before one that stands earlier in the sequence.
pub open spec fn in_time_order(events: Seq<ScoreEvent>) -> bool {
    forall|i: int, j: int|
        0 <= i <= j < events.len() ==> events[i].timestamp <= events[j].timestamp
}

/// The events of a piece in time order, and how long the piece lasts.
#[derive(Debug)]
pub struct Score {
    events: Vec<ScoreEvent>,
    length: Micros,
}

impl View for Score {
    type V = Seq<ScoreEvent>;

    closed spec fn view(&self) -> Seq<ScoreEvent> {
        self.events@
    }
}

impl Score {
    /// How long the piece lasts.
    pub closed spec fn duration(&self) -> nat {
        self.length as nat
    }

    /// What holds of every score: its events are in time order.
    #[verifier::type_invariant]
    pub open spec fn wf(&self) -> bool {
        in_time_order(self@)
    }

    /// A score of `events` that lasts `length`, if the events are in time
    /// order; `None` if one of them comes before its predecessor.
    pub fn new(events: Vec<ScoreEvent>, length: Micros) -> (score: Option<Self>)
        ensures
            score is Some <==> in_time_order(events@),
            score matches Some(s) ==> s.wf() && s@ == events@ && s.duration() == length,
    {
        let mut i: usize = 1;
        while i < events.len()
            invariant
                1 <= i,
                forall|k: int|
                    0 < k < i && k < events.len() ==> events[k - 1].timestamp <= (
                    #[trigger] events[k]).timestamp,
            decreases events.len() - i,
        {
            if events[i - 1].timestamp > events[i].timestamp {
                return None;
            }
            i = i + 1;
        }
        proof {
            lemma_neighbours_in_order(events@);
        }
        Some(Score { events, length })
    }

    /// The events, in time order.
    pub fn events(&self) -> (events: &[ScoreEvent])
        ensures
            events@ == self@,
            in_time_order(events@),
    {
        proof {
            use_type_invariant(self);
        }
        self.events.as_slice()
    }

    /// The number of events.
    pub fn len(&self) -> (n: usize)
        ensures
            n == self@.len(),
    {
        self.events.len()
    }

    /// The event at `index`, if there is one.
    pub fn get(&self, index: usize) -> (event: Option<ScoreEvent>)
        ensures
            event == if index < self@.len() { Some(self@[index as int]) } else { None },
    {
        if index < self.events.len() {
            Some(self.events[index])
        } else {
            None
        }
    }

    /// The index of the last event before index `before` that presses `key`,
    /// if there is one.
    pub fn last_note_on(&self, key: u8, before: usize) -> (found: Option<usize>)
        ensures
            found.is_some() == last_press_before(self@, key, before as int).is_some(),
            found matches Some(i) ==> last_press_before(self@, key, before as int) == Some(i as int)
                && i < before && i < self@.len() && presses(self@[i as int], key),
    {
        if before > self.events.len() {
            return None;
        }
        let mut i: usize = before;
        while i > 0
            invariant
                i <= before <= self.events@.len(),
                last_press_before(self@, key, before as int) == last_press_before(
                    self@,
                    key,
                    i as int,
                ),
            decreases i,
        {
            i = i - 1;
            let hit = match self.events[i].message {
                Message::NoteOn { key: k, .. } => k == key,
                _ => false,
            };
            if hit {
                return Some(i);
            }
        }
        None
    }

    /// The index of the first event at index `from` or later that presses a
    /// key later than `after`, if there is one.
    pub fn next_note_on(&self, from: usize, after: Micros) -> (found: Option<usize>)
        ensures
            found.is_some() == next_press_after(self@, after as int, from as int).is_some(),
            found matches Some(i) ==> next_press_after(self@, after as int, from as int) == Some(
                i as int,
            ) && from <= i < self@.len() && self@[i as int].message is NoteOn
                && self@[i as int].timestamp > after,
    {
        let mut i: usize = from;
        while i < self.events.len()
            invariant
                from <= i,
                next_press_after(self@, after as int, from as int) == next_press_after(
                    self@,
                    after as int,
                    i as int,
                ),
            decreases self.events@.len() - i,
        {
            let event = self.events[i];
            let hit = match event.message {
                Message::NoteOn { .. } => event.timestamp > after,
                _ => false,
            };
            if hit {
                return Some(i);
            }
            i = i + 1;
        }
        None
    }

    /// How long the piece lasts.
    pub fn length(&self) -> (length: Micros)
        ensures
            length == self.duration(),
    {
        self.length
    }
}

impl Clone for Score {
    fn clone(&self) -> (score: Self)
        ensures
            score.wf(),
            score@ == self@,
            score.duration() == self.duration(),
    {
        proof {
            use_type_invariant(self);
        }
        let events = self.events.clone();
        proof {
            assert(events@ =~= self.events@);
        }
        Score { events, length: self.length }
    }
}

/// A sequence in which each event is no earlier than the one before it is in
/// time order throughout.
pub proof fn lemma_neighbours_in_order(events: Seq<ScoreEvent>)
    requires
        forall|k: int|
            0 < k < events.len() ==> events[k - 1].timestamp <= (#[trigger] events[k]).timestamp,
    ensures
        in_time_order(events),
    decreases events.len(),
{
    if events.len() > 0 {
        let front = events.drop_last();
        assert forall|k: int| 0 < k < front.len() implies front[k - 1].timestamp <= (
        #[trigger] front[k]).timestamp by {
            assert(events[k - 1].timestamp <= events[k].timestamp);
        }
        lemma_neighbours_in_order(front);
        assert forall|i: int, j: int| 0 <= i <= j < events.len() implies events[i].timestamp
            <= events[j].timestamp by {
            if j < events.len() - 1 {
                assert(front[i].timestamp <= front[j].timestamp);
            } else if i < j {
                assert(front[i].timestamp <= front[j - 1].timestamp);
                assert(events[j - 1].timestamp <= events[j].timestamp);
            }
        }
    }
}

} // verus!
