//! The player: it owns the clock, the rewind controller and the matcher,
//! runs them tick by tick, and says what is to be sent to the output.

use vstd::prelude::*;
use crate::play_along::{after_press, judgement_of, Judgement, KeyPressSource, PlayAlong};
use crate::playback::{
    due_at, due_between, lemma_filter_none, moved_forward, position_at, progress_at, PlaybackClock,
};
use crate::rewind::{directed, held_for, hold_step, next, Direction, InputEdge, RewindController, SeekRequest};
use crate::score::{last_press_before, next_press_after, Message, Micros, Score, ScoreEvent};

verus! {

/// The silence before the first instant of a score.
pub const LEAD_IN: Micros = 3_000_000;

/// A note that sounds: the channel it is on, and its key.
#[derive(Debug, PartialEq, Eq, Clone, Copy, Structural)]
pub struct ActiveNote {
    pub channel: u8,
    pub key: u8,
}

/// What is sent to the output.
#[derive(Debug, PartialEq, Eq, Clone, Copy, Structural)]
pub enum MidiEvent {
    NoteOn { channel: u8, key: u8, velocity: u8 },
    NoteOff { channel: u8, key: u8 },
}

/// What the output is sent for `event`: a note on or off for a note on or
/// off, nothing for anything else.
pub open spec fn command_of(event: ScoreEvent) -> Option<MidiEvent> {
    match event.message {
        Message::NoteOn { key, velocity } => Some(
            MidiEvent::NoteOn { channel: event.channel, key, velocity },
        ),
        Message::NoteOff { key } => Some(MidiEvent::NoteOff { channel: event.channel, key }),
        Message::Other => None,
    }
}

/// The notes that sound once `note` has begun: it stands in the table once.
pub open spec fn with_note(active: Seq<ActiveNote>, note: ActiveNote) -> Seq<ActiveNote> {
    if active.contains(note) {
        active
    } else {
        active.push(note)
    }
}

/// Whether a note is another one than `note`.
pub open spec fn is_other(note: ActiveNote) -> spec_fn(ActiveNote) -> bool {
    |n: ActiveNote| n != note
}

/// The notes that sound once `note` has ended.
pub open spec fn without_note(active: Seq<ActiveNote>, note: ActiveNote) -> Seq<ActiveNote> {
    active.filter(is_other(note))
}

/// The notes that sound after `event`.
pub open spec fn sounding_after(active: Seq<ActiveNote>, event: ScoreEvent) -> Seq<ActiveNote> {
    match event.message {
        Message::NoteOn { key, .. } => with_note(active, ActiveNote { channel: event.channel, key }),
        Message::NoteOff { key } => without_note(active, ActiveNote { channel: event.channel, key }),
        Message::Other => active,
    }
}

/// The notes required after `event` of the score.
pub open spec fn required_after(required: Set<u8>, event: ScoreEvent) -> Set<u8> {
    match event.message {
        Message::NoteOn { key, .. } => after_press(required, KeyPressSource::File, key, true),
        Message::NoteOff { key } => after_press(required, KeyPressSource::File, key, false),
        Message::Other => required,
    }
}

/// What the output is sent for `events`, in their order.
pub open spec fn commands_for(events: Seq<ScoreEvent>) -> Seq<MidiEvent>
    decreases events.len(),
{
    if events.len() == 0 {
        Seq::empty()
    } else {
        let before = commands_for(events.drop_last());
        match command_of(events.last()) {
            Some(command) => before.push(command),
            None => before,
        }
    }
}

/// The notes that sound after `events`, one after the other.
pub open spec fn sounding_after_all(active: Seq<ActiveNote>, events: Seq<ScoreEvent>) -> Seq<ActiveNote>
    decreases events.len(),
{
    if events.len() == 0 {
        active
    } else {
        sounding_after(sounding_after_all(active, events.drop_last()), events.last())
    }
}

/// The notes required after `events` of the score, one after the other.
pub open spec fn required_after_all(required: Set<u8>, events: Seq<ScoreEvent>) -> Set<u8>
    decreases events.len(),
{
    if events.len() == 0 {
        required
    } else {
        required_after(required_after_all(required, events.drop_last()), events.last())
    }
}

/// A note off for each of `active`, in their order.
pub open spec fn note_offs(active: Seq<ActiveNote>) -> Seq<MidiEvent> {
    Seq::new(
        active.len(),
        |i: int| MidiEvent::NoteOff { channel: active[i].channel, key: active[i].key },
    )
}

/// The time of the score that passes in `delta` of the wall clock at a speed
/// of `speed_tenths` tenths: `delta` times the speed, rounded down to whole
/// microseconds.
pub open spec fn scaled(delta: int, speed_tenths: int) -> int {
    let elapsed = delta * speed_tenths / 10;
    if elapsed > u64::MAX {
        u64::MAX as int
    } else {
        elapsed
    }
}

/// The position `delta` milliseconds from `position`, kept on the timeline.
pub open spec fn rewind_target(position: int, delta: int) -> int {
    let target = position + delta * 1_000;
    if target < 0 {
        0
    } else if target > u64::MAX {
        u64::MAX as int
    } else {
        target
    }
}

/// The time from the event at index `note` to the next press of the score
/// that comes later than it; `None` if no later press follows. Presses at the
/// same instant, as in a chord, do not count as next.
pub open spec fn time_to_next_press(events: Seq<ScoreEvent>, note: int) -> Option<Micros> {
    match next_press_after(events, events[note].timestamp as int, note + 1) {
        Some(j) => Some((events[j].timestamp - events[note].timestamp) as u64),
        None => None,
    }
}

/// The time of the score that passes in `delta` of the wall clock at a speed
/// of `speed_tenths` tenths.
pub fn scale_delta(delta: Micros, speed_tenths: u32) -> (elapsed: Micros)
    ensures
        elapsed == scaled(delta as int, speed_tenths as int),
{
    let time: u128 = delta as u128;
    let speed: u128 = speed_tenths as u128;
    proof {
        assert(time * speed <= 0xffff_ffff_ffff_ffff * 0xffff_ffff) by (nonlinear_arith)
            requires
                0 <= time <= 0xffff_ffff_ffff_ffff,
                0 <= speed <= 0xffff_ffff,
        ;
    }
    let elapsed: u128 = time * speed / 10;
    if elapsed > u64::MAX as u128 {
        u64::MAX
    } else {
        elapsed as u64
    }
}

/// What the output is sent for `event`.
pub fn command_for(event: ScoreEvent) -> (command: Option<MidiEvent>)
    ensures
        command == command_of(event),
{
    match event.message {
        Message::NoteOn { key, velocity } => Some(
            MidiEvent::NoteOn { channel: event.channel, key, velocity },
        ),
        Message::NoteOff { key } => Some(MidiEvent::NoteOff { channel: event.channel, key }),
        Message::Other => None,
    }
}

/// Enters `note` into the table of sounding notes, unless it is there.
fn start_note(active: &mut Vec<ActiveNote>, note: ActiveNote)
    ensures
        final(active)@ == with_note(old(active)@, note),
{
    let mut i: usize = 0;
    while i < active.len()
        invariant
            i <= active@.len(),
            active@ == old(active)@,
            forall|k: int| 0 <= k < i ==> active@[k] != note,
        decreases active@.len() - i,
    {
        let n = active[i];
        if n.channel == note.channel && n.key == note.key {
            return ;
        }
        i = i + 1;
    }
    active.push(note);
}

/// Takes `note` out of the table of sounding notes.
fn end_note(active: &mut Vec<ActiveNote>, note: ActiveNote)
    ensures
        final(active)@ == without_note(old(active)@, note),
{
    let ghost other = is_other(note);
    let mut kept: Vec<ActiveNote> = Vec::new();
    let mut i: usize = 0;
    proof {
        assert(active@.take(0) =~= Seq::<ActiveNote>::empty());
        lemma_filter_none(active@.take(0), other);
    }
    while i < active.len()
        invariant
            i <= active@.len(),
            active@ == old(active)@,
            other == is_other(note),
            kept@ == active@.take(i as int).filter(other),
        decreases active@.len() - i,
    {
        let n = active[i];
        proof {
            assert(active@.take(i + 1) =~= active@.take(i as int).push(n));
            active@.take(i as int).lemma_filter_push(n, other);
        }
        if !(n.channel == note.channel && n.key == note.key) {
            kept.push(n);
        }
        i = i + 1;
    }
    proof {
        assert(active@.take(i as int) =~= active@);
    }
    *active = kept;
}

/// The player of one score.
pub struct MidiPlayer {
    playback: PlaybackClock,
    rewind_controller: RewindController,
    play_along: PlayAlong,
    active_notes: Vec<ActiveNote>,
    wall_clock: Micros,
}

/// The two clocks play the same score with the same lead-in.
pub open spec fn same_score(a: PlaybackClock, b: PlaybackClock) -> bool {
    &&& a.events() == b.events()
    &&& a.duration() == b.duration()
    &&& a.lead_in_time() == b.lead_in_time()
}

/// Between `before` and `after` every sounding note was ended, and `out` is
/// the note offs that end them. The score and the required notes are as they
/// were.
pub open spec fn silenced(before: MidiPlayer, after: MidiPlayer, out: Seq<MidiEvent>) -> bool {
    &&& out == note_offs(before.active())
    &&& after.active() == Seq::<ActiveNote>::empty()
    &&& after.required() == before.required()
    &&& same_score(before.clock(), after.clock())
}

/// Between `before` and `after` neither the rewind controller nor the wall
/// clock changed.
pub open spec fn same_input(before: MidiPlayer, after: MidiPlayer) -> bool {
    &&& after.controller() == before.controller()
    &&& after.now() == before.now()
}

/// Between `before` and `after` the player jumped to `target`: every
/// sounding note was ended by `out`, and the clock stands at `target`,
/// paused or running as it was.
pub open spec fn jumped(before: MidiPlayer, after: MidiPlayer, out: Seq<MidiEvent>, target: int) -> bool {
    &&& silenced(before, after, out)
    &&& after.clock().position() == target
    &&& after.clock().paused() == before.clock().paused()
}

/// Between `before` and `after` neither the clock nor the required notes nor
/// the sounding notes changed.
pub open spec fn untouched(before: MidiPlayer, after: MidiPlayer) -> bool {
    &&& after.active() == before.active()
    &&& after.required() == before.required()
    &&& same_score(before.clock(), after.clock())
    &&& after.clock().position() == before.clock().position()
    &&& after.clock().paused() == before.clock().paused()
}

/// Between `before` and `after` nothing changed but, maybe, whether the clock
/// is paused.
pub open spec fn untouched_but_pause(before: MidiPlayer, after: MidiPlayer) -> bool {
    &&& after.active() == before.active()
    &&& after.required() == before.required()
    &&& same_input(before, after)
    &&& same_score(before.clock(), after.clock())
    &&& after.clock().position() == before.clock().position()
}

/// Between `before` and `after` the score played for `elapsed`: the clock
/// moved, unless it is paused, and `out`, the required notes and the sounding
/// notes follow the events that fell due.
pub open spec fn played(before: MidiPlayer, after: MidiPlayer, out: Seq<MidiEvent>, elapsed: int) -> bool {
    let clock = before.clock();
    let due = due_between(
        clock.events(),
        clock.lead_in_time() as int,
        clock.position() as int,
        after.clock().position() as int,
    );
    &&& same_score(clock, after.clock())
    &&& after.clock().paused() == clock.paused()
    &&& after.clock().position() == if clock.paused() {
        clock.position() as int
    } else {
        moved_forward(clock.position() as int, elapsed)
    }
    &&& out == commands_for(due)
    &&& after.required() == required_after_all(before.required(), due)
    &&& after.active() == sounding_after_all(before.active(), due)
}

/// Between `before` and `after` the player did what `request` asks, and
/// `out` is what it sent.
pub open spec fn served(
    before: MidiPlayer,
    after: MidiPlayer,
    out: Seq<MidiEvent>,
    request: SeekRequest,
) -> bool {
    let clock = before.clock();
    match request {
        SeekRequest::Nothing => untouched(before, after) && out == Seq::<MidiEvent>::empty(),
        SeekRequest::Rewind { delta } => jumped(
            before,
            after,
            out,
            rewind_target(clock.position() as int, delta as int),
        ),
        SeekRequest::SetPercentage { millionths } => jumped(
            before,
            after,
            out,
            position_at(millionths as int, clock.lead_in_time() as int, clock.duration() as int),
        ),
    }
}

/// Between `before` and `after` the user pressed `key` and got `judgement`.
/// The press is held against the last press of `key` that the score has
/// played; without one it is not judged. The press came as long after that
/// note as the clock stands past it, and its window is capped by the time
/// from that note to the next later press of the score, whether that one has
/// been played or not. The clock, the sounding notes and the controller are
/// as they were.
pub open spec fn judged(before: MidiPlayer, after: MidiPlayer, key: u8, judgement: Judgement) -> bool {
    let clock = before.clock();
    let events = clock.events();
    let lead_in = clock.lead_in_time() as int;
    let position = clock.position() as int;
    let cursor = clock.cursor() as int;
    &&& after.active() == before.active()
    &&& same_score(clock, after.clock())
    &&& after.clock().position() == clock.position()
    &&& after.clock().paused() == clock.paused()
    &&& same_input(before, after)
    &&& judgement == match last_press_before(events, key, cursor) {
        Some(i) => judgement_of(
            before.required(),
            key,
            position - due_at(events[i], lead_in),
            time_to_next_press(events, i),
        ),
        None => Judgement { timing: None, matched: false },
    }
    &&& after.required() == if judgement.matched {
        before.required().remove(key)
    } else {
        before.required()
    }
}

impl MidiPlayer {
    /// The clock of the player.
    pub closed spec fn clock(&self) -> PlaybackClock {
        self.playback
    }

    /// The state of the rewind controller.
    pub closed spec fn controller(&self) -> RewindController {
        self.rewind_controller
    }

    /// The notes that the score wants held.
    pub closed spec fn required(&self) -> Set<u8> {
        self.play_along@
    }

    /// The notes that sound, in the order in which they began.
    pub closed spec fn active(&self) -> Seq<ActiveNote> {
        self.active_notes@
    }

    /// The time that has passed on the wall clock since the player was made.
    pub closed spec fn now(&self) -> nat {
        self.wall_clock as nat
    }

    /// A player at the start of `score`, which begins after `LEAD_IN`.
    pub fn new(score: Score) -> (player: Self)
        ensures
            player.fresh(score, LEAD_IN),
    {
        MidiPlayer::with_lead_in(score, LEAD_IN)
    }

    /// A player is fresh for `score` when it runs, stands at the start of the
    /// timeline, and nothing sounds, is required or is held.
    pub open spec fn fresh(&self, score: Score, lead_in: Micros) -> bool {
        &&& self.clock().events() == score@
        &&& self.clock().duration() == score.duration()
        &&& self.clock().lead_in_time() == lead_in
        &&& self.clock().position() == 0
        &&& !self.clock().paused()
        &&& self.controller() == RewindController::Idle
        &&& self.required() == Set::<u8>::empty()
        &&& self.active() == Seq::<ActiveNote>::empty()
        &&& self.now() == 0
    }

    /// A player at the start of `score`, which begins after `lead_in`.
    pub fn with_lead_in(score: Score, lead_in: Micros) -> (player: Self)
        ensures
            player.fresh(score, lead_in),
    {
        MidiPlayer {
            playback: PlaybackClock::new(score, lead_in),
            rewind_controller: RewindController::Idle,
            play_along: PlayAlong::new(),
            active_notes: Vec::new(),
            wall_clock: 0,
        }
    }

    /// One tick of the simulation, after `delta` on the wall clock, at a
    /// speed of `speed_tenths` tenths. While the user holds the position the
    /// score does not play: a held key moves the position, a drag waits for
    /// the pointer. Else the score plays for the scaled time. Returns what is
    /// to be sent to the output, in order.
    pub fn update(&mut self, delta: Micros, speed_tenths: u32) -> (out: Vec<MidiEvent>)
        ensures
            final(self).now() == moved_forward(old(self).now() as int, delta as int),
            final(self).controller() == old(self).controller(),
            match old(self).controller() {
                RewindController::Idle => played(
                    *old(self),
                    *final(self),
                    out@,
                    scaled(delta as int, speed_tenths as int),
                ),
                RewindController::HoldingKey { direction, start_time } => jumped(
                    *old(self),
                    *final(self),
                    out@,
                    rewind_target(
                        old(self).clock().position() as int,
                        directed(
                            direction,
                            hold_step(held_for(start_time as int, final(self).now() as int)),
                        ),
                    ),
                ),
                RewindController::ScrubbingBar { .. } => untouched(*old(self), *final(self)) && out@
                    == Seq::<MidiEvent>::empty(),
            },
    {
        let now: Micros = self.wall_clock.saturating_add(delta);
        self.wall_clock = now;
        let held = self.rewind_controller.is_rewinding();
        let (state, request) = self.rewind_controller.step(InputEdge::Tick, now);
        self.rewind_controller = state;
        if held {
            self.serve(request)
        } else {
            let due = self.playback.advance(scale_delta(delta, speed_tenths));
            self.dispatch(&due)
        }
    }

    /// Takes an edge of the input to the rewind controller and does what the
    /// controller asks. Returns what is to be sent to the output.
    pub fn input(&mut self, edge: InputEdge) -> (out: Vec<MidiEvent>)
        ensures
            final(self).now() == old(self).now(),
            final(self).controller() == next(
                old(self).controller(),
                edge,
                old(self).now() as Micros,
            ).0,
            served(
                *old(self),
                *final(self),
                out@,
                next(old(self).controller(), edge, old(self).now() as Micros).1,
            ),
    {
        let (state, request) = self.rewind_controller.step(edge, self.wall_clock);
        self.rewind_controller = state;
        self.serve(request)
    }

    /// A rewind key went down (`pressed`) or came up.
    pub fn keyboard_input(&mut self, direction: Direction, pressed: bool) -> (out: Vec<MidiEvent>)
        ensures
            final(self).now() == old(self).now(),
            ({
                let edge = if pressed {
                    InputEdge::RewindKeyDown { direction }
                } else {
                    InputEdge::RewindKeyUp
                };
                let step = next(old(self).controller(), edge, old(self).now() as Micros);
                final(self).controller() == step.0 && served(*old(self), *final(self), out@, step.1)
            }),
    {
        if pressed {
            self.input(InputEdge::RewindKeyDown { direction })
        } else {
            self.input(InputEdge::RewindKeyUp)
        }
    }

    /// The pointer went down on the seek bar (`pressed`) at `x` millionths of
    /// its width, or came up.
    pub fn mouse_input(&mut self, pressed: bool, x: i64) -> (out: Vec<MidiEvent>)
        ensures
            final(self).now() == old(self).now(),
            ({
                let edge = if pressed {
                    InputEdge::PointerDown { x }
                } else {
                    InputEdge::PointerUp
                };
                let step = next(old(self).controller(), edge, old(self).now() as Micros);
                final(self).controller() == step.0 && served(*old(self), *final(self), out@, step.1)
            }),
    {
        if pressed {
            self.input(InputEdge::PointerDown { x })
        } else {
            self.input(InputEdge::PointerUp)
        }
    }

    /// The pointer moved to `x` millionths of the width of the seek bar.
    pub fn handle_cursor_moved(&mut self, x: i64) -> (out: Vec<MidiEvent>)
        ensures
            final(self).now() == old(self).now(),
            ({
                let step = next(
                    old(self).controller(),
                    InputEdge::PointerMove { x },
                    old(self).now() as Micros,
                );
                final(self).controller() == step.0 && served(*old(self), *final(self), out@, step.1)
            }),
    {
        self.input(InputEdge::PointerMove { x })
    }

    /// Does what `request` asks.
    fn serve(&mut self, request: SeekRequest) -> (out: Vec<MidiEvent>)
        ensures
            same_input(*old(self), *final(self)),
            served(*old(self), *final(self), out@, request),
    {
        match request {
            SeekRequest::Nothing => Vec::new(),
            SeekRequest::Rewind { delta } => self.rewind(delta),
            SeekRequest::SetPercentage { millionths } => self.set_percentage_time(millionths),
        }
    }

    /// Sends the events that fell due to the output, the matcher and the
    /// table of sounding notes.
    fn dispatch(&mut self, due: &Vec<ScoreEvent>) -> (out: Vec<MidiEvent>)
        ensures
            out@ == commands_for(due@),
            final(self).required() == required_after_all(old(self).required(), due@),
            final(self).active() == sounding_after_all(old(self).active(), due@),
            final(self).clock() == old(self).clock(),
            final(self).controller() == old(self).controller(),
            final(self).now() == old(self).now(),
    {
        let mut out: Vec<MidiEvent> = Vec::new();
        let ghost required = self.play_along@;
        let ghost active = self.active_notes@;
        let mut i: usize = 0;
        proof {
            assert(due@.take(0) =~= Seq::<ScoreEvent>::empty());
        }
        while i < due.len()
            invariant
                i <= due@.len(),
                out@ == commands_for(due@.take(i as int)),
                self.play_along@ == required_after_all(required, due@.take(i as int)),
                self.active_notes@ == sounding_after_all(active, due@.take(i as int)),
                self.playback == old(self).playback,
                self.rewind_controller == old(self).rewind_controller,
                self.wall_clock == old(self).wall_clock,
            decreases due@.len() - i,
        {
            let event = due[i];
            proof {
                assert(due@.take(i + 1).drop_last() =~= due@.take(i as int));
                assert(due@.take(i + 1).last() == event);
            }
            match event.message {
                Message::NoteOn { key, velocity } => {
                    out.push(MidiEvent::NoteOn { channel: event.channel, key, velocity });
                    self.play_along.press_key(KeyPressSource::File, key, true);
                    start_note(&mut self.active_notes, ActiveNote { channel: event.channel, key });
                },
                Message::NoteOff { key } => {
                    out.push(MidiEvent::NoteOff { channel: event.channel, key });
                    self.play_along.press_key(KeyPressSource::File, key, false);
                    end_note(&mut self.active_notes, ActiveNote { channel: event.channel, key });
                },
                Message::Other => {},
            }
            i = i + 1;
        }
        proof {
            assert(due@.take(i as int) =~= due@);
        }
        out
    }

    /// Ends every sounding note: returns a note off for each, and empties the
    /// table.
    pub fn clear(&mut self) -> (out: Vec<MidiEvent>)
        ensures
            silenced(*old(self), *final(self), out@),
            same_input(*old(self), *final(self)),
            final(self).clock() == old(self).clock(),
    {
        let mut out: Vec<MidiEvent> = Vec::new();
        let mut i: usize = 0;
        while i < self.active_notes.len()
            invariant
                i <= self.active_notes@.len(),
                *self == *old(self),
                out@ == note_offs(self.active_notes@.take(i as int)),
            decreases self.active_notes@.len() - i,
        {
            let note = self.active_notes[i];
            out.push(MidiEvent::NoteOff { channel: note.channel, key: note.key });
            i = i + 1;
            proof {
                assert(out@ =~= note_offs(self.active_notes@.take(i as int)));
            }
        }
        proof {
            assert(self.active_notes@.take(i as int) =~= self.active_notes@);
        }
        self.active_notes.clear();
        out
    }

    /// Lets the score play.
    pub fn start(&mut self)
        ensures
            untouched_but_pause(*old(self), *final(self)),
            !final(self).clock().paused(),
    {
        self.resume();
    }

    /// Pauses a running player and lets a paused one run. Pausing ends every
    /// sounding note.
    pub fn pause_resume(&mut self) -> (out: Vec<MidiEvent>)
        ensures
            final(self).clock().paused() == !old(self).clock().paused(),
            final(self).clock().position() == old(self).clock().position(),
            same_input(*old(self), *final(self)),
            if old(self).clock().paused() {
                untouched_but_pause(*old(self), *final(self)) && out@ == Seq::<MidiEvent>::empty()
            } else {
                silenced(*old(self), *final(self), out@)
            },
    {
        if self.playback.is_paused() {
            self.resume();
            Vec::new()
        } else {
            self.pause()
        }
    }

    /// Ends every sounding note and stops the clock where it is.
    pub fn pause(&mut self) -> (out: Vec<MidiEvent>)
        ensures
            silenced(*old(self), *final(self), out@),
            same_input(*old(self), *final(self)),
            final(self).clock().position() == old(self).clock().position(),
            final(self).clock().paused(),
    {
        let out = self.clear();
        self.playback.pause();
        out
    }

    /// Lets the clock run again. Nothing is sent.
    pub fn resume(&mut self)
        ensures
            untouched_but_pause(*old(self), *final(self)),
            !final(self).clock().paused(),
    {
        self.playback.resume();
    }

    /// Ends every sounding note, stops the clock and puts it back to the
    /// start of the timeline.
    pub fn stop(&mut self) -> (out: Vec<MidiEvent>)
        ensures
            silenced(*old(self), *final(self), out@),
            same_input(*old(self), *final(self)),
            final(self).clock().position() == 0,
            final(self).clock().paused(),
    {
        let out = self.clear();
        self.playback.pause();
        self.playback.seek(0);
        out
    }

    /// Ends every sounding note and puts the clock at `time`. The events
    /// before `time` count as played.
    pub fn set_time(&mut self, time: Micros) -> (out: Vec<MidiEvent>)
        ensures
            jumped(*old(self), *final(self), out@, time as int),
            same_input(*old(self), *final(self)),
    {
        let out = self.clear();
        self.playback.seek(time);
        out
    }

    /// Jumps by `delta` milliseconds, backward if negative, and no further
    /// than the ends of the timeline.
    pub fn rewind(&mut self, delta: i64) -> (out: Vec<MidiEvent>)
        ensures
            jumped(
                *old(self),
                *final(self),
                out@,
                rewind_target(old(self).clock().position() as int, delta as int),
            ),
            same_input(*old(self), *final(self)),
    {
        let target: i128 = self.playback.time() as i128 + delta as i128 * 1_000;
        let time: Micros = if target < 0 {
            0
        } else if target > u64::MAX as i128 {
            u64::MAX
        } else {
            target as u64
        };
        self.set_time(time)
    }

    /// Jumps to `millionths` of the piece; a share above the whole counts as
    /// the whole.
    pub fn set_percentage_time(&mut self, millionths: u32) -> (out: Vec<MidiEvent>)
        ensures
            jumped(
                *old(self),
                *final(self),
                out@,
                position_at(
                    millionths as int,
                    old(self).clock().lead_in_time() as int,
                    old(self).clock().duration() as int,
                ),
            ),
            same_input(*old(self), *final(self)),
    {
        let time = self.playback.percentage_to_time(millionths);
        self.set_time(time)
    }

    /// The share of the piece that lies behind the position, in millionths.
    pub fn percentage(&self) -> (millionths: u32)
        ensures
            millionths == progress_at(
                self.clock().position() as int,
                self.clock().lead_in_time() as int,
                self.clock().duration() as int,
            ),
    {
        self.playback.percentage()
    }

    /// The position on the timeline of the score itself: negative during the
    /// lead-in.
    pub fn time_without_lead_in(&self) -> (time: i128)
        ensures
            time == self.clock().position() - self.clock().lead_in_time(),
    {
        self.playback.time_without_lead_in()
    }

    /// Whether the clock stands still.
    pub fn is_paused(&self) -> (paused: bool)
        ensures
            paused == self.clock().paused(),
    {
        self.playback.is_paused()
    }

    /// Whether the user holds the position.
    pub fn is_rewinding(&self) -> (busy: bool)
        ensures
            busy == !(self.controller() is Idle),
    {
        self.rewind_controller.is_rewinding()
    }

    /// The clock.
    pub fn playback(&self) -> (clock: &PlaybackClock)
        ensures
            *clock == self.clock(),
    {
        &self.playback
    }

    /// The state of the rewind controller.
    pub fn rewind_controller(&self) -> (state: RewindController)
        ensures
            state == self.controller(),
    {
        self.rewind_controller
    }

    /// The matcher.
    pub fn play_along(&self) -> (matcher: &PlayAlong)
        ensures
            matcher@ == self.required(),
    {
        &self.play_along
    }

    /// The matcher, to tell it of key presses that are not to be judged in
    /// time.
    pub fn play_along_mut(&mut self) -> (matcher: &mut PlayAlong)
        ensures
            matcher@ == old(self).required(),
            final(self).required() == final(matcher)@,
            final(self).active() == old(self).active(),
            final(self).clock() == old(self).clock(),
            same_input(*old(self), *final(self)),
    {
        &mut self.play_along
    }

    /// The notes that sound, in the order in which they began.
    pub fn active_notes(&self) -> (active: &[ActiveNote])
        ensures
            active@ == self.active(),
    {
        self.active_notes.as_slice()
    }

    /// The user pressed `key`. The press is held against the last press of
    /// `key` that the score has played; if it meets that note, the note is no
    /// longer required. The window of a note is `MAX_LATENCY`, or the time
    /// from the note to the next later press of the score if that is less.
    pub fn key_press(&mut self, key: u8) -> (judgement: Judgement)
        ensures
            judged(*old(self), *final(self), key, judgement),
    {
        let cursor: usize = self.playback.seen_events();
        let position: Micros = self.playback.time();
        let lead_in: Micros = self.playback.lead_in();
        let note = self.playback.score().last_note_on(key, cursor);
        match note {
            Some(i) => {
                let event = self.playback.score().get(i).unwrap();
                let next_note = self.playback.score().next_note_on(i + 1, event.timestamp);
                let time_to_next: Option<Micros> = match next_note {
                    Some(j) => {
                        let next = self.playback.score().get(j).unwrap();
                        Some(next.timestamp - event.timestamp)
                    },
                    None => None,
                };
                let note_due: Micros = event.timestamp + lead_in;
                self.play_along.judge_press(key, note_due, position, time_to_next)
            },
            None => Judgement { timing: None, matched: false },
        }
    }
}

/// Where every sounding note was ended, no note sounds after it, and a note
/// off was sent for each note that sounded before, in the order of the table.
pub proof fn lemma_silenced_leaves_no_note(before: MidiPlayer, after: MidiPlayer, out: Seq<MidiEvent>)
    requires
        silenced(before, after, out),
    ensures
        after.active().len() == 0,
        out.len() == before.active().len(),
        forall|note: ActiveNote| #[trigger]
            before.active().contains(note) ==> out.contains(
                MidiEvent::NoteOff { channel: note.channel, key: note.key },
            ),
        forall|i: int|
            0 <= i < out.len() ==> #[trigger] out[i] == (MidiEvent::NoteOff {
                channel: before.active()[i].channel,
                key: before.active()[i].key,
            }),
{
    assert forall|note: ActiveNote| #[trigger] before.active().contains(note) implies out.contains(
        MidiEvent::NoteOff { channel: note.channel, key: note.key },
    ) by {
        let i = choose|i: int| 0 <= i < before.active().len() && before.active()[i] == note;
        assert(out[i] == MidiEvent::NoteOff { channel: note.channel, key: note.key });
    }
}

/// A jump ends every sounding note, wherever it goes: also one that leaves
/// the clock where it stands.
pub proof fn lemma_jump_leaves_no_note(
    before: MidiPlayer,
    after: MidiPlayer,
    out: Seq<MidiEvent>,
    target: int,
)
    requires
        jumped(before, after, out, target),
    ensures
        after.active().len() == 0,
        out == note_offs(before.active()),
        forall|note: ActiveNote| #[trigger]
            before.active().contains(note) ==> out.contains(
                MidiEvent::NoteOff { channel: note.channel, key: note.key },
            ),
{
    lemma_silenced_leaves_no_note(before, after, out);
}

/// A resume followed by a pause ends every note that sounded before the
/// resume, and leaves the clock paused where it stood.
pub proof fn lemma_resume_then_pause(
    before: MidiPlayer,
    resumed: MidiPlayer,
    after: MidiPlayer,
    out: Seq<MidiEvent>,
)
    requires
        untouched_but_pause(before, resumed),
        silenced(resumed, after, out),
        after.clock().position() == resumed.clock().position(),
    ensures
        silenced(before, after, out),
        after.active().len() == 0,
        out == note_offs(before.active()),
        after.clock().position() == before.clock().position(),
{
}

/// Doing what the rewind controller asks never plays the score: the required
/// notes stay, a request for nothing sends nothing and leaves the clock where
/// it is, and any other request sends just the note offs that end the
/// sounding notes.
pub proof fn lemma_held_position_does_not_play(
    before: MidiPlayer,
    after: MidiPlayer,
    out: Seq<MidiEvent>,
    request: SeekRequest,
)
    requires
        served(before, after, out, request),
    ensures
        after.required() == before.required(),
        request is Nothing ==> out.len() == 0 && after.clock().position()
            == before.clock().position(),
        !(request is Nothing) ==> out == note_offs(before.active()) && after.active().len() == 0,
{
}

} // verus!
