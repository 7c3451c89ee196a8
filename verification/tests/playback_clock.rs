use neothesia::playback::PlaybackClock;
use neothesia::score::{Message, Score, ScoreEvent, MILLISECOND, SECOND};

fn on(ms: u64, key: u8) -> ScoreEvent {
    ScoreEvent { channel: 0, timestamp: ms * MILLISECOND, message: Message::NoteOn { key, velocity: 90 } }
}

fn off(ms: u64, key: u8) -> ScoreEvent {
    ScoreEvent { channel: 0, timestamp: ms * MILLISECOND, message: Message::NoteOff { key } }
}

fn two_event_score() -> Score {
    Score::new(vec![on(0, 60), off(500, 60)], 500 * MILLISECOND).unwrap()
}

fn scale_score() -> Score {
    let mut events = Vec::new();
    for i in 0..20u64 {
        events.push(on(i * 50, 60 + i as u8));
        events.push(off(i * 50 + 25, 60 + i as u8));
    }
    Score::new(events, SECOND).unwrap()
}

#[test]
fn note_on_then_note_off_then_clean_seek() {
    let mut clock = PlaybackClock::new(two_event_score(), 0);
    assert_eq!(clock.advance(200 * MILLISECOND), vec![on(0, 60)]);
    assert_eq!(clock.advance(400 * MILLISECOND), vec![off(500, 60)]);
    assert_eq!(clock.time(), 600 * MILLISECOND);
    clock.seek(100 * MILLISECOND);
    assert_eq!(clock.time(), 100 * MILLISECOND);
    assert_eq!(clock.seen_events(), 1);
    assert_eq!(clock.advance(0), vec![]);
}

#[test]
fn ten_short_steps_give_what_one_long_step_gives() {
    let mut whole = PlaybackClock::new(scale_score(), 0);
    let at_once = whole.advance(SECOND);
    let mut chunked = PlaybackClock::new(scale_score(), 0);
    let mut in_steps = Vec::new();
    for _ in 0..10 {
        in_steps.extend(chunked.advance(100 * MILLISECOND));
    }
    assert_eq!(at_once.len(), 40);
    assert_eq!(in_steps, at_once);
    assert_eq!(chunked.time(), whole.time());
}

#[test]
fn steps_return_each_event_once_in_time_order() {
    let score = scale_score();
    let all: Vec<ScoreEvent> = score.events().to_vec();
    let mut clock = PlaybackClock::new(score, 0);
    let mut seen = Vec::new();
    for step in [1u64, 49, 0, 25, 130, 7, 400, 1000] {
        seen.extend(clock.advance(step * MILLISECOND));
    }
    let position = clock.time();
    let expected: Vec<ScoreEvent> = all.into_iter().filter(|e| e.timestamp < position).collect();
    assert_eq!(seen, expected);
    assert!(seen.windows(2).all(|w| w[0].timestamp <= w[1].timestamp));
}

#[test]
fn an_event_falls_due_once_the_position_has_passed_it() {
    let mut clock = PlaybackClock::new(two_event_score(), 0);
    assert_eq!(clock.advance(0), vec![]);
    assert_eq!(clock.advance(1), vec![on(0, 60)]);
    assert_eq!(clock.advance(500 * MILLISECOND - 1), vec![]);
    assert_eq!(clock.time(), 500 * MILLISECOND);
    assert_eq!(clock.advance(1), vec![off(500, 60)]);
}

#[test]
fn seek_then_advance_by_nothing_returns_nothing() {
    for target in [0u64, 1, 100, 500, 501, 10_000] {
        let mut clock = PlaybackClock::new(two_event_score(), 0);
        clock.advance(300 * MILLISECOND);
        clock.seek(target * MILLISECOND);
        assert_eq!(clock.advance(0), vec![]);
        assert_eq!(clock.time(), target * MILLISECOND);
    }
}

#[test]
fn seek_discards_what_lies_before_and_keeps_what_lies_ahead() {
    let mut clock = PlaybackClock::new(two_event_score(), 0);
    clock.seek(500 * MILLISECOND);
    assert_eq!(clock.seen_events(), 1);
    assert_eq!(clock.advance(MILLISECOND), vec![off(500, 60)]);
    clock.seek(0);
    assert_eq!(clock.seen_events(), 0);
    assert_eq!(clock.advance(SECOND), vec![on(0, 60), off(500, 60)]);
}

#[test]
fn a_paused_clock_does_not_move() {
    let mut clock = PlaybackClock::new(two_event_score(), 0);
    assert!(!clock.is_paused());
    clock.pause();
    assert!(clock.is_paused());
    assert_eq!(clock.advance(SECOND), vec![]);
    assert_eq!(clock.time(), 0);
    clock.resume();
    assert!(!clock.is_paused());
    assert_eq!(clock.advance(SECOND), vec![on(0, 60), off(500, 60)]);
    assert_eq!(clock.time(), SECOND);
}

#[test]
fn the_lead_in_delays_every_event() {
    let mut clock = PlaybackClock::new(two_event_score(), 3 * SECOND);
    assert_eq!(clock.lead_in(), 3 * SECOND);
    assert_eq!(clock.advance(3 * SECOND), vec![]);
    assert_eq!(clock.time_without_lead_in(), 0);
    assert_eq!(clock.advance(MILLISECOND), vec![on(0, 60)]);
    assert_eq!(clock.advance(SECOND), vec![off(500, 60)]);
    assert_eq!(clock.time_without_lead_in(), 1_001_000);
    clock.seek(SECOND);
    assert_eq!(clock.time_without_lead_in(), -2_000_000);
    assert_eq!(clock.seen_events(), 0);
}

#[test]
fn past_the_end_nothing_is_returned() {
    let mut clock = PlaybackClock::new(two_event_score(), 0);
    assert_eq!(clock.advance(10 * SECOND).len(), 2);
    assert_eq!(clock.advance(10 * SECOND), vec![]);
    assert_eq!(clock.advance(u64::MAX), vec![]);
    assert_eq!(clock.time(), u64::MAX);
    assert_eq!(clock.advance(5), vec![]);
    assert_eq!(clock.time(), u64::MAX);
    assert_eq!(clock.percentage(), 1_000_000);
}

#[test]
fn percentage_is_the_share_of_the_piece_behind_the_position() {
    let score = Score::new(vec![on(0, 60)], 10 * SECOND).unwrap();
    let mut clock = PlaybackClock::new(score, 3 * SECOND);
    assert_eq!(clock.length(), 10 * SECOND);
    assert_eq!(clock.percentage(), 0);
    clock.seek(3 * SECOND);
    assert_eq!(clock.percentage(), 0);
    clock.seek(8 * SECOND);
    assert_eq!(clock.percentage(), 500_000);
    clock.seek(3 * SECOND + 1);
    assert_eq!(clock.percentage(), 0);
    clock.seek(3 * SECOND + 3_333_333);
    assert_eq!(clock.percentage(), 333_333);
    clock.seek(13 * SECOND - 1);
    assert_eq!(clock.percentage(), 999_999);
    clock.seek(13 * SECOND);
    assert_eq!(clock.percentage(), 1_000_000);
    clock.seek(60 * SECOND);
    assert_eq!(clock.percentage(), 1_000_000);
}

#[test]
fn percentage_of_a_piece_without_length() {
    let score = Score::new(vec![], 0).unwrap();
    let mut clock = PlaybackClock::new(score, SECOND);
    assert_eq!(clock.percentage(), 0);
    clock.seek(SECOND);
    assert_eq!(clock.percentage(), 0);
    clock.seek(SECOND + 1);
    assert_eq!(clock.percentage(), 1_000_000);
}

#[test]
fn percentage_to_time_is_clamped_to_the_piece() {
    let score = Score::new(vec![on(0, 60)], 10 * SECOND).unwrap();
    let clock = PlaybackClock::new(score, 3 * SECOND);
    assert_eq!(clock.percentage_to_time(0), 3 * SECOND);
    assert_eq!(clock.percentage_to_time(250_000), 5_500_000);
    assert_eq!(clock.percentage_to_time(1), 3 * SECOND + 10);
    assert_eq!(clock.percentage_to_time(1_000_000), 13 * SECOND);
    assert_eq!(clock.percentage_to_time(2_000_000), 13 * SECOND);
    assert_eq!(clock.percentage_to_time(u32::MAX), 13 * SECOND);
}

#[test]
fn a_score_must_be_in_time_order() {
    assert!(Score::new(vec![on(10, 60), on(5, 61)], SECOND).is_none());
    assert!(Score::new(vec![on(0, 60), on(10, 61), on(9, 62)], SECOND).is_none());
    assert!(Score::new(vec![on(5, 60), on(5, 61), on(5, 62)], SECOND).is_some());
    assert!(Score::new(vec![], 0).is_some());
    let score = Score::new(vec![on(1, 60), off(2, 60)], 7).unwrap();
    assert_eq!(score.len(), 2);
    assert_eq!(score.length(), 7);
    assert_eq!(score.get(1), Some(off(2, 60)));
    assert_eq!(score.get(2), None);
    assert_eq!(score.events(), &[on(1, 60), off(2, 60)]);
    let copy = score.clone();
    assert_eq!(copy.events(), score.events());
    assert_eq!(copy.length(), 7);
}

#[test]
fn events_at_the_same_instant_keep_their_order() {
    let events = vec![off(100, 60), on(100, 62), on(100, 64)];
    let score = Score::new(events.clone(), SECOND).unwrap();
    let mut clock = PlaybackClock::new(score, 0);
    assert_eq!(clock.advance(100 * MILLISECOND), vec![]);
    assert_eq!(clock.advance(1), events);
}

#[test]
fn the_score_finds_presses_around_an_index() {
    let other = ScoreEvent { channel: 0, timestamp: 30 * MILLISECOND, message: Message::Other };
    let score = Score::new(vec![on(0, 60), on(10, 62), off(20, 60), other, on(40, 60)], SECOND).unwrap();
    assert_eq!(score.last_note_on(60, 0), None);
    assert_eq!(score.last_note_on(60, 1), Some(0));
    assert_eq!(score.last_note_on(60, 4), Some(0));
    assert_eq!(score.last_note_on(60, 5), Some(4));
    assert_eq!(score.last_note_on(62, 5), Some(1));
    assert_eq!(score.last_note_on(61, 5), None);
    assert_eq!(score.last_note_on(60, 6), None);
    assert_eq!(score.next_note_on(0, 0), Some(1));
    assert_eq!(score.next_note_on(1, 0), Some(1));
    assert_eq!(score.next_note_on(1, 10 * MILLISECOND), Some(4));
    assert_eq!(score.next_note_on(1, 10 * MILLISECOND - 1), Some(1));
    assert_eq!(score.next_note_on(2, 0), Some(4));
    assert_eq!(score.next_note_on(0, 40 * MILLISECOND), None);
    assert_eq!(score.next_note_on(5, 0), None);
    assert_eq!(score.next_note_on(99, 0), None);
}
