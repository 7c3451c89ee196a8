use neothesia::midi_player::{command_for, scale_delta, ActiveNote, MidiEvent, MidiPlayer, LEAD_IN};
use neothesia::play_along::{Judgement, Timing};
use neothesia::rewind::{Direction, InputEdge, RewindController};
use neothesia::score::{Message, Score, ScoreEvent, MILLISECOND, SECOND};

fn on(channel: u8, ms: u64, key: u8) -> ScoreEvent {
    ScoreEvent { channel, timestamp: ms * MILLISECOND, message: Message::NoteOn { key, velocity: 70 } }
}

fn off(channel: u8, ms: u64, key: u8) -> ScoreEvent {
    ScoreEvent { channel, timestamp: ms * MILLISECOND, message: Message::NoteOff { key } }
}

fn other(ms: u64) -> ScoreEvent {
    ScoreEvent { channel: 0, timestamp: ms * MILLISECOND, message: Message::Other }
}

fn note_on(channel: u8, key: u8) -> MidiEvent {
    MidiEvent::NoteOn { channel, key, velocity: 70 }
}

fn note_off(channel: u8, key: u8) -> MidiEvent {
    MidiEvent::NoteOff { channel, key }
}

fn chord_score() -> Score {
    Score::new(
        vec![on(0, 0, 60), on(1, 0, 64), other(100), on(0, 200, 67), off(0, 500, 60), off(1, 900, 64), off(0, 900, 67)],
        SECOND,
    )
    .unwrap()
}

fn player() -> MidiPlayer {
    MidiPlayer::with_lead_in(chord_score(), 0)
}

#[test]
fn a_new_player_waits_for_the_lead_in() {
    let mut player = MidiPlayer::new(chord_score());
    assert_eq!(LEAD_IN, 3 * SECOND);
    assert!(!player.is_paused());
    assert!(!player.is_rewinding());
    assert_eq!(player.percentage(), 0);
    assert_eq!(player.time_without_lead_in(), -3_000_000);
    assert_eq!(player.update(3 * SECOND, 10), vec![]);
    assert_eq!(player.update(MILLISECOND, 10), vec![note_on(0, 60), note_on(1, 64)]);
}

#[test]
fn a_tick_sends_what_fell_due_and_keeps_the_books() {
    let mut player = player();
    let out = player.update(300 * MILLISECOND, 10);
    assert_eq!(out, vec![note_on(0, 60), note_on(1, 64), note_on(0, 67)]);
    assert_eq!(
        player.active_notes(),
        &[ActiveNote { channel: 0, key: 60 }, ActiveNote { channel: 1, key: 64 }, ActiveNote { channel: 0, key: 67 }]
    );
    assert_eq!(player.play_along().required_count(), 3);
    let out = player.update(300 * MILLISECOND, 10);
    assert_eq!(out, vec![note_off(0, 60)]);
    assert_eq!(player.active_notes(), &[ActiveNote { channel: 1, key: 64 }, ActiveNote { channel: 0, key: 67 }]);
    assert!(!player.play_along().is_required(60));
    let out = player.update(SECOND, 10);
    assert_eq!(out, vec![note_off(1, 64), note_off(0, 67)]);
    assert!(player.active_notes().is_empty());
    assert!(player.play_along().are_required_keys_pressed());
    assert_eq!(player.update(SECOND, 10), vec![]);
    assert_eq!(player.percentage(), 1_000_000);
}

#[test]
fn the_speed_scales_the_time_that_passes() {
    assert_eq!(scale_delta(16_667, 10), 16_667);
    assert_eq!(scale_delta(16_667, 12), 20_000);
    assert_eq!(scale_delta(16_667, 5), 8_333);
    assert_eq!(scale_delta(9, 10), 9);
    assert_eq!(scale_delta(7, 15), 10);
    assert_eq!(scale_delta(1, 9), 0);
    assert_eq!(scale_delta(1_000, 0), 0);
    assert_eq!(scale_delta(u64::MAX, 10), u64::MAX);
    assert_eq!(scale_delta(u64::MAX, 9), 16_602_069_666_338_596_453);
    assert_eq!(scale_delta(u64::MAX, 11), u64::MAX);
    assert_eq!(scale_delta(u64::MAX, u32::MAX), u64::MAX);
    let mut slow = player();
    assert_eq!(slow.update(300 * MILLISECOND, 5), vec![note_on(0, 60), note_on(1, 64)]);
    assert_eq!(slow.playback().time(), 150 * MILLISECOND);
    let mut fast = player();
    assert_eq!(fast.update(300 * MILLISECOND, 20).len(), 4);
    assert_eq!(fast.playback().time(), 600 * MILLISECOND);
}

#[test]
fn events_become_commands() {
    assert_eq!(command_for(on(3, 0, 60)), Some(note_on(3, 60)));
    assert_eq!(command_for(off(4, 0, 61)), Some(note_off(4, 61)));
    assert_eq!(command_for(other(0)), None);
}

#[test]
fn a_pause_ends_every_sounding_note() {
    let mut player = player();
    player.update(300 * MILLISECOND, 10);
    let out = player.pause();
    assert_eq!(out, vec![note_off(0, 60), note_off(1, 64), note_off(0, 67)]);
    assert!(player.active_notes().is_empty());
    assert!(player.is_paused());
    assert_eq!(player.playback().time(), 300 * MILLISECOND);
    assert_eq!(player.update(SECOND, 10), vec![]);
    assert_eq!(player.playback().time(), 300 * MILLISECOND);
    assert_eq!(player.pause(), vec![]);
}

#[test]
fn resume_then_pause_ends_every_sounding_note() {
    let mut player = player();
    player.update(100 * MILLISECOND, 10);
    player.resume();
    assert_eq!(player.active_notes().len(), 2);
    let out = player.pause();
    assert_eq!(out, vec![note_off(0, 60), note_off(1, 64)]);
    assert!(player.active_notes().is_empty());
    player.start();
    assert!(!player.is_paused());
    assert_eq!(player.update(200 * MILLISECOND, 10), vec![note_on(0, 67)]);
    assert_eq!(player.pause_resume(), vec![note_off(0, 67)]);
    assert!(player.is_paused());
    assert_eq!(player.pause_resume(), vec![]);
    assert!(!player.is_paused());
}

#[test]
fn a_jump_ends_every_sounding_note_even_on_the_spot() {
    let mut player = player();
    player.update(300 * MILLISECOND, 10);
    let out = player.set_time(300 * MILLISECOND);
    assert_eq!(out, vec![note_off(0, 60), note_off(1, 64), note_off(0, 67)]);
    assert!(player.active_notes().is_empty());
    assert_eq!(player.playback().time(), 300 * MILLISECOND);
    assert_eq!(player.update(0, 10), vec![]);
    assert_eq!(player.set_time(300 * MILLISECOND), vec![]);
}

#[test]
fn a_jump_does_not_replay_what_lies_before() {
    let mut player = player();
    assert_eq!(player.set_time(400 * MILLISECOND), vec![]);
    assert_eq!(player.update(0, 10), vec![]);
    assert_eq!(player.update(200 * MILLISECOND, 10), vec![note_off(0, 60)]);
    assert!(player.active_notes().is_empty());
}

#[test]
fn stop_ends_every_note_and_returns_to_the_start() {
    let mut player = player();
    player.update(300 * MILLISECOND, 10);
    let out = player.stop();
    assert_eq!(out.len(), 3);
    assert!(player.is_paused());
    assert_eq!(player.playback().time(), 0);
    assert!(player.active_notes().is_empty());
    player.start();
    assert_eq!(player.update(MILLISECOND, 10), vec![note_on(0, 60), note_on(1, 64)]);
}

#[test]
fn rewind_moves_by_milliseconds_and_stays_on_the_timeline() {
    let mut player = player();
    player.update(600 * MILLISECOND, 10);
    assert_eq!(player.rewind(-100), vec![note_off(1, 64), note_off(0, 67)]);
    assert_eq!(player.playback().time(), 500 * MILLISECOND);
    player.rewind(250);
    assert_eq!(player.playback().time(), 750 * MILLISECOND);
    player.rewind(-5_000);
    assert_eq!(player.playback().time(), 0);
    player.rewind(i64::MAX);
    assert_eq!(player.playback().time(), u64::MAX);
    player.rewind(i64::MIN);
    assert_eq!(player.playback().time(), 0);
}

#[test]
fn set_percentage_time_jumps_into_the_piece() {
    let mut player = MidiPlayer::new(chord_score());
    player.set_percentage_time(500_000);
    assert_eq!(player.playback().time(), 3_500_000);
    assert_eq!(player.percentage(), 500_000);
    player.set_percentage_time(3_000_000);
    assert_eq!(player.playback().time(), 4 * SECOND);
    player.set_percentage_time(0);
    assert_eq!(player.time_without_lead_in(), 0);
}

#[test]
fn a_held_key_moves_the_position_instead_of_playing() {
    let mut player = player();
    player.update(600 * MILLISECOND, 10);
    assert_eq!(player.keyboard_input(Direction::Backward, true), vec![]);
    assert!(player.is_rewinding());
    assert_eq!(
        player.rewind_controller(),
        RewindController::HoldingKey { direction: Direction::Backward, start_time: 600 * MILLISECOND }
    );
    let out = player.update(16 * MILLISECOND, 10);
    assert_eq!(out, vec![note_off(1, 64), note_off(0, 67)]);
    assert_eq!(player.playback().time(), 500 * MILLISECOND);
    assert_eq!(player.update(16 * MILLISECOND, 10), vec![]);
    assert_eq!(player.playback().time(), 400 * MILLISECOND);
    assert_eq!(player.update(SECOND, 10), vec![]);
    assert_eq!(player.playback().time(), 200 * MILLISECOND);
    assert_eq!(player.keyboard_input(Direction::Backward, false), vec![]);
    assert!(!player.is_rewinding());
    assert_eq!(player.update(MILLISECOND, 10), vec![note_on(0, 67)]);
}

#[test]
fn a_drag_holds_the_position_until_the_pointer_comes_up() {
    let mut player = player();
    player.update(300 * MILLISECOND, 10);
    assert_eq!(player.mouse_input(true, 100_000), vec![]);
    assert_eq!(player.rewind_controller(), RewindController::ScrubbingBar { origin_x: 100_000 });
    assert_eq!(player.update(SECOND, 10), vec![]);
    assert_eq!(player.playback().time(), 300 * MILLISECOND);
    assert_eq!(player.active_notes().len(), 3);
    let out = player.handle_cursor_moved(950_000);
    assert_eq!(out, vec![note_off(0, 60), note_off(1, 64), note_off(0, 67)]);
    assert_eq!(player.playback().time(), 950 * MILLISECOND);
    assert_eq!(player.handle_cursor_moved(-40), vec![]);
    assert_eq!(player.playback().time(), 0);
    assert_eq!(player.mouse_input(false, 0), vec![]);
    assert!(!player.is_rewinding());
    assert_eq!(player.input(InputEdge::Tick), vec![]);
    assert_eq!(player.update(MILLISECOND, 10), vec![note_on(0, 60), note_on(1, 64)]);
}

#[test]
fn a_user_press_is_held_against_the_note_of_the_score() {
    let mut player = player();
    player.update(20 * MILLISECOND, 10);
    assert_eq!(player.key_press(60), Judgement { timing: Some(Timing::Perfect), matched: true });
    assert!(!player.play_along().is_required(60));
    assert!(player.play_along().is_required(64));
    assert_eq!(player.key_press(60), Judgement { timing: None, matched: false });
    assert_eq!(player.key_press(61), Judgement { timing: None, matched: false });
    player.update(70 * MILLISECOND, 10);
    assert_eq!(player.key_press(64), Judgement { timing: Some(Timing::Near), matched: true });
    assert!(player.play_along().are_required_keys_pressed());
}

#[test]
fn the_window_of_a_note_ends_where_the_next_note_begins() {
    let score = Score::new(vec![on(0, 0, 60), on(0, 100, 62)], SECOND).unwrap();
    let mut player = MidiPlayer::with_lead_in(score, 0);
    player.update(250 * MILLISECOND, 10);
    assert_eq!(player.key_press(60), Judgement { timing: Some(Timing::Far), matched: false });
    assert!(player.play_along().is_required(60));
    assert_eq!(player.key_press(62), Judgement { timing: Some(Timing::Off), matched: true });
    assert!(!player.play_along().is_required(62));
    player.update(SECOND, 10);
    assert_eq!(player.key_press(60), Judgement { timing: None, matched: false });
    assert!(player.play_along().is_required(60));
}

#[test]
fn the_window_does_not_open_again_once_the_next_note_has_passed() {
    let score = Score::new(vec![on(0, 0, 60), on(0, 100, 62)], SECOND).unwrap();
    let mut early = MidiPlayer::with_lead_in(score.clone(), 0);
    early.update(80 * MILLISECOND, 10);
    assert_eq!(early.key_press(60), Judgement { timing: Some(Timing::Near), matched: true });
    let mut at_the_edge = MidiPlayer::with_lead_in(score.clone(), 0);
    at_the_edge.update(100 * MILLISECOND, 10);
    assert_eq!(at_the_edge.key_press(60), Judgement { timing: Some(Timing::Near), matched: true });
    let mut late = MidiPlayer::with_lead_in(score.clone(), 0);
    late.update(150 * MILLISECOND, 10);
    assert_eq!(late.key_press(60), Judgement { timing: Some(Timing::Off), matched: false });
    let mut later = MidiPlayer::with_lead_in(score, 0);
    later.update(250 * MILLISECOND, 10);
    assert_eq!(later.key_press(60), Judgement { timing: Some(Timing::Far), matched: false });
}

#[test]
fn the_notes_of_a_chord_do_not_cut_the_window_of_one_another() {
    let mut player = player();
    player.update(150 * MILLISECOND, 10);
    assert_eq!(player.key_press(60), Judgement { timing: Some(Timing::Off), matched: true });
    assert_eq!(player.key_press(64), Judgement { timing: Some(Timing::Off), matched: true });
    player.update(100 * MILLISECOND, 10);
    assert_eq!(player.key_press(67), Judgement { timing: Some(Timing::Perfect), matched: true });
}

#[test]
fn a_note_on_twice_sounds_once() {
    let score = Score::new(vec![on(0, 0, 60), on(0, 10, 60), on(1, 10, 60), off(0, 20, 60)], SECOND).unwrap();
    let mut player = MidiPlayer::with_lead_in(score, 0);
    assert_eq!(player.update(15 * MILLISECOND, 10).len(), 3);
    assert_eq!(player.active_notes(), &[ActiveNote { channel: 0, key: 60 }, ActiveNote { channel: 1, key: 60 }]);
    assert_eq!(player.play_along().required_count(), 1);
    assert_eq!(player.update(15 * MILLISECOND, 10), vec![note_off(0, 60)]);
    assert_eq!(player.active_notes(), &[ActiveNote { channel: 1, key: 60 }]);
    assert_eq!(player.clear(), vec![note_off(1, 60)]);
    assert_eq!(player.clear(), vec![]);
}

#[test]
fn the_matcher_can_be_told_of_a_press_without_timing() {
    let mut player = player();
    player.update(20 * MILLISECOND, 10);
    assert!(player.play_along().is_required(60));
    player.play_along_mut().press_key(neothesia::play_along::KeyPressSource::User, 60, true);
    assert!(!player.play_along().is_required(60));
    assert!(player.play_along().is_required(64));
    assert_eq!(player.active_notes().len(), 2);
    assert_eq!(player.playback().time(), 20 * MILLISECOND);
}
