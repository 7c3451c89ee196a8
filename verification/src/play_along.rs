//! The play-along matcher: which notes the score wants held, and how well a
//! key press of the user meets one of them in time.

use std::collections::HashSet;
use vstd::prelude::*;
use vstd::std_specs::hash::*;
use crate::score::Micros;

verus! {

/// A press within this distance of its note is perfect.
pub const PERFECT_WINDOW: Micros = 50_000;

/// A press within this distance of its note is near.
pub const NEAR_WINDOW: Micros = 100_000;

/// A press within this distance of its note is off.
pub const OFF_WINDOW: Micros = 200_000;

/// A press further than this from its note does not belong to it.
pub const MAX_LATENCY: Micros = 300_000;

/// Who pressed or released a key.
#[derive(Debug, PartialEq, Eq, Clone, Copy, Structural)]
pub enum KeyPressSource {
    File,
    User,
}

/// How close in time a press came to its note, the closest first.
#[derive(Debug, PartialEq, Eq, Clone, Copy, Structural)]
pub enum Timing {
    Perfect,
    Near,
    Off,
    Far,
}

/// What the matcher says of one key press of the user.
#[derive(Debug, PartialEq, Eq, Clone, Copy, Structural)]
pub struct Judgement {
    /// How close the press came, if it came close enough to be judged.
    pub timing: Option<Timing>,
    /// Whether the press met its note: the note is then no longer required.
    pub matched: bool,
}

/// The distance between a press and its note, whichever came first.
pub open spec fn distance(delta: int) -> int {
    if delta < 0 {
        -delta
    } else {
        delta
    }
}

/// How close a press is that came `delta` after its note (before it, if
/// negative): the closest class whose window holds it, none beyond the last.
pub open spec fn timing_of(delta: int) -> Option<Timing> {
    let d = distance(delta);
    if d <= PERFECT_WINDOW {
        Some(Timing::Perfect)
    } else if d <= NEAR_WINDOW {
        Some(Timing::Near)
    } else if d <= OFF_WINDOW {
        Some(Timing::Off)
    } else if d <= MAX_LATENCY {
        Some(Timing::Far)
    } else {
        None
    }
}

/// The distance up to which a press counts for its note: `MAX_LATENCY`, or
/// the time from the note to the next note if that is less.
pub open spec fn window_for(time_to_next: Option<Micros>) -> int {
    match time_to_next {
        Some(t) if t < MAX_LATENCY => t as int,
        _ => MAX_LATENCY as int,
    }
}

/// The notes required after a key went down (`active`) or up, in the score or
/// under the hand of the user. The score requires a note by pressing it and
/// lets go of it by releasing it; the user meets a required note by pressing
/// it, and a release of the user changes nothing.
pub open spec fn after_press(required: Set<u8>, src: KeyPressSource, note_id: u8, active: bool) -> Set<
    u8,
> {
    match src {
        KeyPressSource::File => if active {
            required.insert(note_id)
        } else {
            required.remove(note_id)
        },
        KeyPressSource::User => if active {
            required.remove(note_id)
        } else {
            required
        },
    }
}

/// What is said of a press of `key` that came `delta` after its note, where
/// the next note follows `time_to_next` after that note. A key that is not required is
/// not judged. A required one is classed by its distance, and meets its note
/// if the distance is within the window.
pub open spec fn judgement_of(
    required: Set<u8>,
    key: u8,
    delta: int,
    time_to_next: Option<Micros>,
) -> Judgement {
    if required.contains(key) {
        Judgement {
            timing: timing_of(delta),
            matched: distance(delta) <= window_for(time_to_next),
        }
    } else {
        Judgement { timing: None, matched: false }
    }
}

/// How close a press is that came `delta` after its note.
pub fn classify(delta: i64) -> (timing: Option<Timing>)
    ensures
        timing == timing_of(delta as int),
{
    if delta >= 0 {
        classify_distance(delta as u64)
    } else if delta == i64::MIN {
        None
    } else {
        classify_distance((-delta) as u64)
    }
}

/// How close a press is that lies `d` from its note.
fn classify_distance(d: Micros) -> (timing: Option<Timing>)
    ensures
        timing == timing_of(d as int),
        timing == timing_of(-(d as int)),
{
    if d <= PERFECT_WINDOW {
        Some(Timing::Perfect)
    } else if d <= NEAR_WINDOW {
        Some(Timing::Near)
    } else if d <= OFF_WINDOW {
        Some(Timing::Off)
    } else if d <= MAX_LATENCY {
        Some(Timing::Far)
    } else {
        None
    }
}

/// The distance up to which a press counts for its note.
pub fn acceptance_window(time_to_next: Option<Micros>) -> (window: Micros)
    ensures
        window == window_for(time_to_next),
        window <= MAX_LATENCY,
{
    match time_to_next {
        Some(t) => if t < MAX_LATENCY {
            t
        } else {
            MAX_LATENCY
        },
        None => MAX_LATENCY,
    }
}

/// The notes that the score wants held right now.
#[derive(Debug)]
pub struct PlayAlong {
    required_notes: HashSet<u8>,
}

impl View for PlayAlong {
    type V = Set<u8>;

    closed spec fn view(&self) -> Set<u8> {
        self.required_notes@
    }
}

impl PlayAlong {
    /// What holds of every matcher: the notes required are finitely many.
    #[verifier::type_invariant]
    pub open spec fn wf(&self) -> bool {
        self@.finite()
    }

    /// A matcher that requires no note.
    pub fn new() -> (matcher: Self)
        ensures
            matcher.wf(),
            matcher@ == Set::<u8>::empty(),
    {
        PlayAlong { required_notes: HashSet::new() }
    }

    fn user_press_key(&mut self, note_id: u8, active: bool)
        ensures
            final(self).wf(),
            final(self)@ == after_press(old(self)@, KeyPressSource::User, note_id, active),
    {
        broadcast use group_hash_axioms;

        proof {
            use_type_invariant(&*self);
        }
        if active {
            let mut notes: HashSet<u8> = HashSet::new();
            std::mem::swap(&mut notes, &mut self.required_notes);
            notes.remove(&note_id);
            self.required_notes = notes;
        }
    }

    fn file_press_key(&mut self, note_id: u8, active: bool)
        ensures
            final(self).wf(),
            final(self)@ == after_press(old(self)@, KeyPressSource::File, note_id, active),
    {
        broadcast use group_hash_axioms;

        proof {
            use_type_invariant(&*self);
        }
        let mut notes: HashSet<u8> = HashSet::new();
        std::mem::swap(&mut notes, &mut self.required_notes);
        if active {
            notes.insert(note_id);
        } else {
            notes.remove(&note_id);
        }
        self.required_notes = notes;
    }

    /// Takes note of a key that went down (`active`) or up, in the score or
    /// under the hand of the user.
    pub fn press_key(&mut self, src: KeyPressSource, note_id: u8, active: bool)
        ensures
            final(self).wf(),
            final(self)@ == after_press(old(self)@, src, note_id, active),
    {
        match src {
            KeyPressSource::User => self.user_press_key(note_id, active),
            KeyPressSource::File => self.file_press_key(note_id, active),
        }
    }

    /// Whether no note is required.
    pub fn are_required_keys_pressed(&self) -> (done: bool)
        ensures
            done == (self@ == Set::<u8>::empty()),
            done == (self@.len() == 0),
    {
        broadcast use group_hash_axioms;

        proof {
            use_type_invariant(self);
            if self@.len() == 0 {
                self@.lemma_len0_is_empty();
            }
        }
        self.required_notes.is_empty()
    }

    /// Whether `note_id` is required.
    pub fn is_required(&self, note_id: u8) -> (required: bool)
        ensures
            required == self@.contains(note_id),
    {
        broadcast use group_hash_axioms;

        self.required_notes.contains(&note_id)
    }

    /// The number of notes required.
    pub fn required_count(&self) -> (n: usize)
        ensures
            n == self@.len(),
    {
        broadcast use group_hash_axioms;

        self.required_notes.len()
    }

    /// Judges a press of `key` by the user at `user_timestamp`, for the note
    /// that the score played at `note_timestamp`, where the next note follows
    /// `time_to_next` after that note (`None` after the last). A press that
    /// meets its note takes it out of the required notes; any other changes
    /// nothing.
    pub fn judge_press(
        &mut self,
        key: u8,
        note_timestamp: Micros,
        user_timestamp: Micros,
        time_to_next: Option<Micros>,
    ) -> (judgement: Judgement)
        ensures
            final(self).wf(),
            judgement == judgement_of(
                old(self)@,
                key,
                user_timestamp - note_timestamp,
                time_to_next,
            ),
            final(self)@ == if judgement.matched {
                old(self)@.remove(key)
            } else {
                old(self)@
            },
    {
        proof {
            use_type_invariant(&*self);
        }
        if !self.is_required(key) {
            return Judgement { timing: None, matched: false };
        }
        let d: Micros = if user_timestamp >= note_timestamp {
            user_timestamp - note_timestamp
        } else {
            note_timestamp - user_timestamp
        };
        let timing = classify_distance(d);
        let matched = d <= acceptance_window(time_to_next);
        if matched {
            self.user_press_key(key, true);
        }
        Judgement { timing, matched }
    }
}

impl Default for PlayAlong {
    fn default() -> (matcher: Self)
        ensures
            matcher.wf(),
            matcher@ == Set::<u8>::empty(),
    {
        PlayAlong::new()
    }
}

/// Early and late are classed alike, and a press has a class exactly if it
/// lies within `MAX_LATENCY` of its note.
pub proof fn lemma_timing_is_symmetric(delta: int)
    ensures
        timing_of(delta) == timing_of(-delta),
        timing_of(delta) is Some <==> distance(delta) <= MAX_LATENCY,
{
}

/// A press that meets its note is one that is judged: it lies within
/// `MAX_LATENCY` of the note and has a class.
pub proof fn lemma_matched_is_judged(required: Set<u8>, key: u8, delta: int, time_to_next: Option<Micros>)
    ensures
        judgement_of(required, key, delta, time_to_next).matched ==> {
            &&& required.contains(key)
            &&& judgement_of(required, key, delta, time_to_next).timing is Some
            &&& distance(delta) <= MAX_LATENCY
        },
{
}

/// A note that the score has just pressed and the user presses at the same
/// instant is met perfectly, and one note fewer is required after it.
pub proof fn lemma_press_on_time(required: Set<u8>, key: u8, time_to_next: Option<Micros>)
    requires
        required.finite(),
    ensures
        ({
            let wanted = after_press(required, KeyPressSource::File, key, true);
            let judgement = judgement_of(wanted, key, 0, time_to_next);
            &&& judgement == Judgement { timing: Some(Timing::Perfect), matched: true }
            &&& wanted.remove(key).len() == wanted.len() - 1
            &&& !wanted.remove(key).contains(key)
        }),
{
}

/// A press outside the window leaves the required notes as they are, however
/// it is classed: between 200 and 300 milliseconds late it is far, and it
/// does not meet its note if the next note follows the note sooner than
/// that.
pub proof fn lemma_late_press_outside_window(
    required: Set<u8>,
    key: u8,
    delta: int,
    time_to_next: Micros,
)
    requires
        required.contains(key),
        OFF_WINDOW < delta <= MAX_LATENCY,
        time_to_next < delta,
    ensures
        judgement_of(required, key, delta, Some(time_to_next)) == (Judgement {
            timing: Some(Timing::Far),
            matched: false,
        }),
{
}

} // verus!
