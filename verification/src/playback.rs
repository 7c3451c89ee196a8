//! The playback clock: a position on the timeline of a score, and the events
//! that fall due as the position moves.

use vstd::prelude::*;
use crate::score::{in_time_order, Micros, Score, ScoreEvent};

verus! {

/// The position at which `event` falls due: its timestamp, after the lead-in.
pub open spec fn due_at(event: ScoreEvent, lead_in: int) -> int {
    event.timestamp + lead_in
}

/// The events that fall due at a position in `from <= .. < to`, in the order
/// of the score.
pub open spec fn due_between(events: Seq<ScoreEvent>, lead_in: int, from: int, to: int) -> Seq<
    ScoreEvent,
> {
    events.filter(|e: ScoreEvent| from <= due_at(e, lead_in) < to)
}

/// How many events the playback has passed when it stands at `position`:
/// those due before it.
pub open spec fn passed_count(events: Seq<ScoreEvent>, lead_in: int, position: int) -> nat {
    due_between(events, lead_in, 0, position).len()
}

/// A position moved forward by `elapsed`; it stops at the end of the
/// timeline.
pub open spec fn moved_forward(position: int, elapsed: int) -> int {
    if position + elapsed > u64::MAX {
        u64::MAX as int
    } else {
        position + elapsed
    }
}

/// The share of the piece that lies behind `position`, in millionths: zero
/// during the lead-in, a million from the end of the piece on.
pub open spec fn progress_at(position: int, lead_in: int, length: int) -> int {
    if position <= lead_in {
        0
    } else if position - lead_in >= length {
        1_000_000
    } else {
        (position - lead_in) * 1_000_000 / length
    }
}

/// The position that lies `millionths` of the piece past the lead-in; a
/// share above the whole counts as the whole.
pub open spec fn position_at(millionths: int, lead_in: int, length: int) -> int {
    let share = if millionths > 1_000_000 { 1_000_000 } else { millionths };
    moved_forward(lead_in, length * share / 1_000_000)
}

/// `cursor` parts the events into those due before `position` and the rest.
pub open spec fn parts_at(events: Seq<ScoreEvent>, lead_in: int, position: int, cursor: int) -> bool {
    &&& 0 <= cursor <= events.len()
    &&& forall|i: int| 0 <= i < cursor ==> due_at(#[trigger] events[i], lead_in) < position
    &&& forall|i: int| cursor <= i < events.len() ==> due_at(#[trigger] events[i], lead_in) >= position
}

/// A position, and the number of events that fall due before it.
struct Playhead {
    position: Micros,
    cursor: usize,
}

/// Where the playback of a score stands, and whether it is running.
pub struct PlaybackClock {
    score: Score,
    lead_in: Micros,
    head: Playhead,
    paused: bool,
}

impl PlaybackClock {
    /// The events of the score that is played.
    pub closed spec fn events(&self) -> Seq<ScoreEvent> {
        self.score@
    }

    /// How long the piece lasts.
    pub closed spec fn duration(&self) -> nat {
        self.score.duration()
    }

    /// The silence before the first instant of the score.
    pub closed spec fn lead_in_time(&self) -> nat {
        self.lead_in as nat
    }

    /// The position on the timeline, lead-in included.
    pub closed spec fn position(&self) -> nat {
        self.head.position as nat
    }

    /// Whether the clock stands still.
    pub closed spec fn paused(&self) -> bool {
        self.paused
    }

    /// The index of the next event that has not fallen due.
    pub open spec fn cursor(&self) -> nat {
        passed_count(self.events(), self.lead_in_time() as int, self.position() as int)
    }

    /// What holds of every clock: the score is in time order, and the clock
    /// remembers how many events lie behind its position.
    #[verifier::type_invariant]
    pub closed spec fn wf(&self) -> bool {
        &&& in_time_order(self.score@)
        &&& parts_at(
            self.score@,
            self.lead_in as int,
            self.head.position as int,
            self.head.cursor as int,
        )
    }

    /// A running clock at the start of the timeline of `score`, which begins
    /// to play after `lead_in`.
    pub fn new(score: Score, lead_in: Micros) -> (clock: Self)
        ensures
            clock.wf(),
            clock.events() == score@,
            clock.duration() == score.duration(),
            clock.lead_in_time() == lead_in,
            clock.position() == 0,
            !clock.paused(),
    {
        proof {
            use_type_invariant(&score);
        }
        PlaybackClock { score, lead_in, head: Playhead { position: 0, cursor: 0 }, paused: false }
    }

    /// Moves a running clock forward by `elapsed` and returns the events that
    /// fall due on the way, in the order of the score: those due at the old
    /// position or later, and before the new one. A paused clock stays where
    /// it is and returns nothing.
    pub fn advance(&mut self, elapsed: Micros) -> (due: Vec<ScoreEvent>)
        ensures
            final(self).wf(),
            final(self).events() == old(self).events(),
            final(self).duration() == old(self).duration(),
            final(self).lead_in_time() == old(self).lead_in_time(),
            final(self).paused() == old(self).paused(),
            final(self).position() == if old(self).paused() {
                old(self).position() as int
            } else {
                moved_forward(old(self).position() as int, elapsed as int)
            },
            due@ == due_between(
                old(self).events(),
                old(self).lead_in_time() as int,
                old(self).position() as int,
                final(self).position() as int,
            ),
            due@ == old(self).events().subrange(old(self).cursor() as int, final(self).cursor() as int),
    {
        proof {
            use_type_invariant(&*self);
            lemma_parts_give_count(
                self.score@,
                self.lead_in as int,
                self.head.position as int,
                self.head.cursor as int,
            );
        }
        let mut due: Vec<ScoreEvent> = Vec::new();
        let from: Micros = self.head.position;
        let first: usize = self.head.cursor;
        if self.paused {
            proof {
                lemma_due_between_parts(self.score@, self.lead_in as int, from as int, from as int, first as int, first as int);
                assert(due@ =~= self.score@.subrange(first as int, first as int));
            }
            return due;
        }
        let to: Micros = from.saturating_add(elapsed);
        let mut cursor: usize = first;
        let n: usize = self.score.len();
        while cursor < n && is_before(self.score.get(cursor), self.lead_in, to)
            invariant
                n == self.score@.len(),
                in_time_order(self.score@),
                first <= cursor <= n,
                from <= to,
                parts_at(self.score@, self.lead_in as int, from as int, first as int),
                forall|i: int| first <= i < cursor ==> due_at(#[trigger] self.score@[i], self.lead_in as int) < to,
                due@ == self.score@.subrange(first as int, cursor as int),
            decreases n - cursor,
        {
            let event = self.score.get(cursor).unwrap();
            due.push(event);
            cursor = cursor + 1;
            proof {
                assert(due@ =~= self.score@.subrange(first as int, cursor as int));
            }
        }
        proof {
            let events = self.score@;
            let lead = self.lead_in as int;
            assert forall|i: int| cursor <= i < events.len() implies due_at(#[trigger] events[i], lead) >= to by {
                assert(events[cursor as int].timestamp <= events[i].timestamp);
            }
            lemma_due_between_parts(events, lead, from as int, to as int, first as int, cursor as int);
            lemma_parts_give_count(events, lead, to as int, cursor as int);
        }
        self.head = Playhead { position: to, cursor };
        due
    }

    /// Puts the clock at `position`. The events before it count as played and
    /// are not returned, neither now nor by a later `advance`.
    pub fn seek(&mut self, position: Micros)
        ensures
            final(self).wf(),
            final(self).events() == old(self).events(),
            final(self).duration() == old(self).duration(),
            final(self).lead_in_time() == old(self).lead_in_time(),
            final(self).paused() == old(self).paused(),
            final(self).position() == position,
    {
        proof {
            use_type_invariant(&*self);
        }
        let n: usize = self.score.len();
        let mut cursor: usize = 0;
        while cursor < n && is_before(self.score.get(cursor), self.lead_in, position)
            invariant
                n == self.score@.len(),
                cursor <= n,
                forall|i: int| 0 <= i < cursor ==> due_at(#[trigger] self.score@[i], self.lead_in as int) < position,
            decreases n - cursor,
        {
            cursor = cursor + 1;
        }
        proof {
            let events = self.score@;
            assert forall|i: int| cursor <= i < events.len() implies due_at(
                #[trigger] events[i],
                self.lead_in as int,
            ) >= position by {
                assert(events[cursor as int].timestamp <= events[i].timestamp);
            }
        }
        self.head = Playhead { position, cursor };
    }

    /// Stops the clock: until `resume`, `advance` does nothing.
    pub fn pause(&mut self)
        ensures
            final(self).wf(),
            final(self).events() == old(self).events(),
            final(self).duration() == old(self).duration(),
            final(self).lead_in_time() == old(self).lead_in_time(),
            final(self).position() == old(self).position(),
            final(self).paused(),
    {
        proof {
            use_type_invariant(&*self);
        }
        self.paused = true;
    }

    /// Lets the clock run again.
    pub fn resume(&mut self)
        ensures
            final(self).wf(),
            final(self).events() == old(self).events(),
            final(self).duration() == old(self).duration(),
            final(self).lead_in_time() == old(self).lead_in_time(),
            final(self).position() == old(self).position(),
            !final(self).paused(),
    {
        proof {
            use_type_invariant(&*self);
        }
        self.paused = false;
    }

    /// Whether the clock stands still.
    pub fn is_paused(&self) -> (paused: bool)
        ensures
            paused == self.paused(),
    {
        self.paused
    }

    /// The position on the timeline, lead-in included.
    pub fn time(&self) -> (position: Micros)
        ensures
            position == self.position(),
    {
        self.head.position
    }

    /// The position on the timeline of the score itself: negative during the
    /// lead-in.
    pub fn time_without_lead_in(&self) -> (time: i128)
        ensures
            time == self.position() - self.lead_in_time(),
    {
        self.head.position as i128 - self.lead_in as i128
    }

    /// The silence before the first instant of the score.
    pub fn lead_in(&self) -> (lead_in: Micros)
        ensures
            lead_in == self.lead_in_time(),
    {
        self.lead_in
    }

    /// How long the piece lasts.
    pub fn length(&self) -> (length: Micros)
        ensures
            length == self.duration(),
    {
        self.score.length()
    }

    /// The score that is played.
    pub fn score(&self) -> (score: &Score)
        ensures
            score@ == self.events(),
            score.duration() == self.duration(),
            in_time_order(score@),
    {
        proof {
            use_type_invariant(self);
        }
        &self.score
    }

    /// The number of events that lie behind the position.
    pub fn seen_events(&self) -> (cursor: usize)
        ensures
            cursor == self.cursor(),
            parts_at(self.events(), self.lead_in_time() as int, self.position() as int, cursor as int),
    {
        proof {
            use_type_invariant(self);
            lemma_parts_give_count(
                self.score@,
                self.lead_in as int,
                self.head.position as int,
                self.head.cursor as int,
            );
        }
        self.head.cursor
    }

    /// The share of the piece that lies behind the position, in millionths,
    /// from 0 to 1 000 000.
    pub fn percentage(&self) -> (millionths: u32)
        ensures
            millionths == progress_at(
                self.position() as int,
                self.lead_in_time() as int,
                self.duration() as int,
            ),
            millionths <= 1_000_000,
    {
        let length: Micros = self.score.length();
        let position: Micros = self.head.position;
        if position <= self.lead_in {
            0
        } else if position - self.lead_in >= length {
            1_000_000
        } else {
            let played: u128 = (position - self.lead_in) as u128;
            let share: u128 = played * 1_000_000 / (length as u128);
            proof {
                assert(played * 1_000_000 / (length as int) < 1_000_000) by (nonlinear_arith)
                    requires
                        0 <= played < length,
                ;
            }
            share as u32
        }
    }

    /// The position that lies `millionths` of the piece past the lead-in; a
    /// share above the whole counts as the whole.
    pub fn percentage_to_time(&self, millionths: u32) -> (position: Micros)
        ensures
            position == position_at(
                millionths as int,
                self.lead_in_time() as int,
                self.duration() as int,
            ),
    {
        let share: u128 = if millionths > 1_000_000 { 1_000_000 } else { millionths as u128 };
        let length: u128 = self.score.length() as u128;
        proof {
            assert(length * share <= length * 1_000_000) by (nonlinear_arith)
                requires
                    0 <= length,
                    0 <= share <= 1_000_000,
            ;
            assert(length * share / 1_000_000 <= length) by (nonlinear_arith)
                requires
                    0 <= length * share <= length * 1_000_000,
            ;
        }
        let offset: u128 = length * share / 1_000_000;
        self.lead_in.saturating_add(offset as u64)
    }
}

/// Whether `event` is there and falls due before `position`.
fn is_before(event: Option<ScoreEvent>, lead_in: Micros, position: Micros) -> (before: bool)
    ensures
        before == (event matches Some(e) && due_at(e, lead_in as int) < position),
{
    match event {
        Some(e) => position > lead_in && e.timestamp < position - lead_in,
        None => false,
    }
}

/// A filter that no element passes leaves nothing.
pub proof fn lemma_filter_none<A>(s: Seq<A>, pred: spec_fn(A) -> bool)
    requires
        forall|i: int| 0 <= i < s.len() ==> !pred(#[trigger] s[i]),
    ensures
        s.filter(pred) == Seq::<A>::empty(),
    decreases s.len(),
{
    reveal(Seq::filter);
    if s.len() > 0 {
        lemma_filter_none(s.drop_last(), pred);
    }
}

/// A filter that every element passes leaves the sequence as it is.
pub proof fn lemma_filter_all<A>(s: Seq<A>, pred: spec_fn(A) -> bool)
    requires
        forall|i: int| 0 <= i < s.len() ==> pred(#[trigger] s[i]),
    ensures
        s.filter(pred) == s,
    decreases s.len(),
{
    reveal(Seq::filter);
    if s.len() > 0 {
        lemma_filter_all(s.drop_last(), pred);
        assert(s.drop_last().push(s.last()) =~= s);
    }
}

/// Where two cursors part the events at `from` and at `to`, the events due
/// in between are those that stand between the cursors.
pub proof fn lemma_due_between_parts(
    events: Seq<ScoreEvent>,
    lead_in: int,
    from: int,
    to: int,
    a: int,
    b: int,
)
    requires
        0 <= a <= b <= events.len(),
        forall|i: int| 0 <= i < a ==> due_at(#[trigger] events[i], lead_in) < from,
        forall|i: int| a <= i < b ==> from <= due_at(#[trigger] events[i], lead_in) < to,
        forall|i: int| b <= i < events.len() ==> due_at(#[trigger] events[i], lead_in) >= to,
    ensures
        due_between(events, lead_in, from, to) == events.subrange(a, b),
{
    let pred = |e: ScoreEvent| from <= due_at(e, lead_in) < to;
    let head = events.subrange(0, a);
    let body = events.subrange(a, b);
    let tail = events.subrange(b, events.len() as int);
    assert(events =~= head + body + tail);
    Seq::filter_distributes_over_add(head + body, tail, pred);
    Seq::filter_distributes_over_add(head, body, pred);
    lemma_filter_none(head, pred);
    lemma_filter_all(body, pred);
    lemma_filter_none(tail, pred);
    assert(head.filter(pred) + body.filter(pred) + tail.filter(pred) =~= body);
}

/// A cursor that parts the events at `position` counts the events passed.
pub proof fn lemma_parts_give_count(events: Seq<ScoreEvent>, lead_in: int, position: int, cursor: int)
    requires
        lead_in >= 0,
        parts_at(events, lead_in, position, cursor),
    ensures
        passed_count(events, lead_in, position) == cursor,
{
    lemma_due_between_parts(events, lead_in, 0, position, 0, cursor);
}

/// The position that a clock reaches from `start` when it is advanced by
/// each of `steps` in turn.
pub open spec fn position_after(start: int, steps: Seq<Micros>) -> int
    decreases steps.len(),
{
    if steps.len() == 0 {
        start
    } else {
        moved_forward(position_after(start, steps.drop_last()), steps.last() as int)
    }
}

/// What a running clock returns, one result after the other, when it is
/// advanced from `start` by each of `steps` in turn.
pub open spec fn events_over(events: Seq<ScoreEvent>, lead_in: int, start: int, steps: Seq<Micros>) -> Seq<
    ScoreEvent,
>
    decreases steps.len(),
{
    if steps.len() == 0 {
        Seq::empty()
    } else {
        events_over(events, lead_in, start, steps.drop_last()) + due_between(
            events,
            lead_in,
            position_after(start, steps.drop_last()),
            position_after(start, steps),
        )
    }
}

/// In a score in time order, the events due between `from` and `to` are
/// those due up to any position in between, followed by those due from
/// there on.
pub proof fn lemma_due_between_joins(events: Seq<ScoreEvent>, lead_in: int, from: int, mid: int, to: int)
    requires
        in_time_order(events),
        from <= mid <= to,
    ensures
        due_between(events, lead_in, from, to) == due_between(events, lead_in, from, mid)
            + due_between(events, lead_in, mid, to),
    decreases events.len(),
{
    let whole = |e: ScoreEvent| from <= due_at(e, lead_in) < to;
    let left = |e: ScoreEvent| from <= due_at(e, lead_in) < mid;
    let right = |e: ScoreEvent| mid <= due_at(e, lead_in) < to;
    if events.len() == 0 {
        lemma_filter_none(events, whole);
        lemma_filter_none(events, left);
        lemma_filter_none(events, right);
    } else {
        let front = events.drop_last();
        let e = events.last();
        assert(events =~= front.push(e));
        assert forall|i: int, j: int| 0 <= i <= j < front.len() implies front[i].timestamp
            <= front[j].timestamp by {
            assert(events[i].timestamp <= events[j].timestamp);
        }
        lemma_due_between_joins(front, lead_in, from, mid, to);
        front.lemma_filter_push(e, whole);
        front.lemma_filter_push(e, left);
        front.lemma_filter_push(e, right);
        if left(e) {
            assert forall|i: int| 0 <= i < front.len() implies !right(#[trigger] front[i]) by {
                assert(events[i].timestamp <= events[events.len() - 1].timestamp);
            }
            lemma_filter_none(front, right);
            assert(front.filter(left).push(e) + Seq::<ScoreEvent>::empty() =~= (front.filter(left)
                + Seq::<ScoreEvent>::empty()).push(e));
        } else if right(e) {
            assert(front.filter(left) + front.filter(right).push(e) =~= (front.filter(left)
                + front.filter(right)).push(e));
        }
    }
}

/// The events of a score in time order that are due between two positions
/// are in time order themselves.
pub proof fn lemma_due_between_in_order(events: Seq<ScoreEvent>, lead_in: int, from: int, to: int)
    requires
        in_time_order(events),
    ensures
        in_time_order(due_between(events, lead_in, from, to)),
    decreases events.len(),
{
    let pred = |e: ScoreEvent| from <= due_at(e, lead_in) < to;
    reveal(Seq::filter);
    if events.len() > 0 {
        let front = events.drop_last();
        let e = events.last();
        assert forall|i: int, j: int| 0 <= i <= j < front.len() implies front[i].timestamp
            <= front[j].timestamp by {
            assert(events[i].timestamp <= events[j].timestamp);
        }
        lemma_due_between_in_order(front, lead_in, from, to);
        let kept = front.filter(pred);
        if pred(e) {
            assert forall|i: int| 0 <= i < kept.len() implies (#[trigger] kept[i]).timestamp
                <= e.timestamp by {
                front.lemma_filter_contains_rev(pred, kept[i]);
                let k = choose|k: int| 0 <= k < front.len() && front[k] == kept[i];
                assert(events[k].timestamp <= events[events.len() - 1].timestamp);
            }
            let all = kept.push(e);
            assert forall|i: int, j: int| 0 <= i <= j < all.len() implies all[i].timestamp
                <= all[j].timestamp by {
                if j < kept.len() {
                    assert(kept[i].timestamp <= kept[j].timestamp);
                } else if i < kept.len() {
                    assert(kept[i].timestamp <= e.timestamp);
                }
            }
        }
    }
}

/// However a stretch of time is cut into steps, a running clock returns over
/// the steps exactly the events due in the stretch: each once, none left out,
/// in time order.
pub proof fn lemma_advances_cover_stretch(
    events: Seq<ScoreEvent>,
    lead_in: nat,
    start: Micros,
    steps: Seq<Micros>,
)
    requires
        in_time_order(events),
    ensures
        start <= position_after(start as int, steps) <= u64::MAX,
        events_over(events, lead_in as int, start as int, steps) == due_between(
            events,
            lead_in as int,
            start as int,
            position_after(start as int, steps),
        ),
        in_time_order(events_over(events, lead_in as int, start as int, steps)),
    decreases steps.len(),
{
    let lead = lead_in as int;
    if steps.len() == 0 {
        lemma_filter_none(events, |e: ScoreEvent| start <= due_at(e, lead) < start);
    } else {
        let before = steps.drop_last();
        lemma_advances_cover_stretch(events, lead_in, start, before);
        lemma_due_between_joins(
            events,
            lead,
            start as int,
            position_after(start as int, before),
            position_after(start as int, steps),
        );
    }
    lemma_due_between_in_order(events, lead, start as int, position_after(start as int, steps));
}

/// From the start of the timeline, a running clock has returned after any
/// run of steps exactly the events due before the position it has reached.
pub proof fn lemma_advances_from_start(events: Seq<ScoreEvent>, lead_in: nat, steps: Seq<Micros>)
    requires
        in_time_order(events),
    ensures
        events_over(events, lead_in as int, 0, steps) == events.filter(
            |e: ScoreEvent| 0 <= due_at(e, lead_in as int) < position_after(0, steps),
        ),
        events_over(events, lead_in as int, 0, steps).len() == passed_count(
            events,
            lead_in as int,
            position_after(0, steps),
        ),
{
    lemma_advances_cover_stretch(events, lead_in, 0, steps);
}

/// Two ways to cut the same stretch of time into steps give the same events.
pub proof fn lemma_rechunking(
    events: Seq<ScoreEvent>,
    lead_in: nat,
    start: Micros,
    steps: Seq<Micros>,
    other_steps: Seq<Micros>,
)
    requires
        in_time_order(events),
        position_after(start as int, steps) == position_after(start as int, other_steps),
    ensures
        events_over(events, lead_in as int, start as int, steps) == events_over(
            events,
            lead_in as int,
            start as int,
            other_steps,
        ),
{
    lemma_advances_cover_stretch(events, lead_in, start, steps);
    lemma_advances_cover_stretch(events, lead_in, start, other_steps);
}

/// A clock that was put at a position and is then advanced by nothing
/// returns no event.
pub proof fn lemma_no_replay_after_seek(events: Seq<ScoreEvent>, lead_in: nat, position: Micros)
    ensures
        moved_forward(position as int, 0) == position,
        due_between(events, lead_in as int, position as int, moved_forward(position as int, 0)) == Seq::<
            ScoreEvent,
        >::empty(),
{
    lemma_filter_none(events, |e: ScoreEvent| position <= due_at(e, lead_in as int) < position);
}

} // verus!
