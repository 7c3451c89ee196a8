use neothesia::play_along::{acceptance_window, classify, Judgement, KeyPressSource, PlayAlong, Timing, MAX_LATENCY};
use neothesia::score::MILLISECOND;

#[test]
fn the_score_requires_and_releases_notes() {
    let mut matcher = PlayAlong::new();
    assert!(matcher.are_required_keys_pressed());
    matcher.press_key(KeyPressSource::File, 60, true);
    matcher.press_key(KeyPressSource::File, 64, true);
    matcher.press_key(KeyPressSource::File, 60, true);
    assert!(!matcher.are_required_keys_pressed());
    assert_eq!(matcher.required_count(), 2);
    assert!(matcher.is_required(60));
    assert!(matcher.is_required(64));
    assert!(!matcher.is_required(61));
    matcher.press_key(KeyPressSource::File, 60, false);
    assert_eq!(matcher.required_count(), 1);
    matcher.press_key(KeyPressSource::File, 64, false);
    assert!(matcher.are_required_keys_pressed());
}

#[test]
fn a_user_press_meets_a_required_note() {
    let mut matcher = PlayAlong::default();
    matcher.press_key(KeyPressSource::File, 60, true);
    matcher.press_key(KeyPressSource::User, 60, true);
    assert!(matcher.are_required_keys_pressed());
    assert_eq!(matcher.required_count(), 0);
}

#[test]
fn a_user_release_and_a_wrong_key_change_nothing() {
    let mut matcher = PlayAlong::new();
    matcher.press_key(KeyPressSource::User, 60, true);
    assert!(matcher.are_required_keys_pressed());
    matcher.press_key(KeyPressSource::File, 60, true);
    matcher.press_key(KeyPressSource::User, 60, false);
    assert!(matcher.is_required(60));
    matcher.press_key(KeyPressSource::User, 61, true);
    assert!(matcher.is_required(60));
    assert_eq!(matcher.required_count(), 1);
}

#[test]
fn classes_have_their_windows_on_both_sides() {
    let ms = MILLISECOND as i64;
    assert_eq!(classify(0), Some(Timing::Perfect));
    assert_eq!(classify(50 * ms), Some(Timing::Perfect));
    assert_eq!(classify(50 * ms + 1), Some(Timing::Near));
    assert_eq!(classify(100 * ms), Some(Timing::Near));
    assert_eq!(classify(100 * ms + 1), Some(Timing::Off));
    assert_eq!(classify(200 * ms), Some(Timing::Off));
    assert_eq!(classify(200 * ms + 1), Some(Timing::Far));
    assert_eq!(classify(250 * ms), Some(Timing::Far));
    assert_eq!(classify(300 * ms), Some(Timing::Far));
    assert_eq!(classify(300 * ms + 1), None);
    assert_eq!(classify(-50 * ms), Some(Timing::Perfect));
    assert_eq!(classify(-50 * ms - 1), Some(Timing::Near));
    assert_eq!(classify(-100 * ms), Some(Timing::Near));
    assert_eq!(classify(-200 * ms), Some(Timing::Off));
    assert_eq!(classify(-300 * ms), Some(Timing::Far));
    assert_eq!(classify(-300 * ms - 1), None);
    assert_eq!(classify(i64::MAX), None);
    assert_eq!(classify(i64::MIN), None);
}

#[test]
fn the_window_is_capped_by_the_time_to_the_next_note() {
    assert_eq!(MAX_LATENCY, 300 * MILLISECOND);
    assert_eq!(acceptance_window(None), 300 * MILLISECOND);
    assert_eq!(acceptance_window(Some(u64::MAX)), 300 * MILLISECOND);
    assert_eq!(acceptance_window(Some(300 * MILLISECOND)), 300 * MILLISECOND);
    assert_eq!(acceptance_window(Some(120 * MILLISECOND)), 120 * MILLISECOND);
    assert_eq!(acceptance_window(Some(0)), 0);
}

#[test]
fn a_press_on_time_is_perfect_and_meets_its_note() {
    let mut matcher = PlayAlong::new();
    matcher.press_key(KeyPressSource::File, 60, true);
    matcher.press_key(KeyPressSource::File, 62, true);
    let judgement = matcher.judge_press(60, 4_000_000, 4_000_000, Some(500 * MILLISECOND));
    assert_eq!(judgement, Judgement { timing: Some(Timing::Perfect), matched: true });
    assert_eq!(matcher.required_count(), 1);
    assert!(!matcher.is_required(60));
    assert!(matcher.is_required(62));
}

#[test]
fn a_late_press_outside_the_window_is_far_and_leaves_the_note() {
    let mut matcher = PlayAlong::new();
    matcher.press_key(KeyPressSource::File, 60, true);
    let late = 4_000_000 + 250 * MILLISECOND;
    let judgement = matcher.judge_press(60, 4_000_000, late, Some(100 * MILLISECOND));
    assert_eq!(judgement, Judgement { timing: Some(Timing::Far), matched: false });
    assert!(matcher.is_required(60));
    let judgement = matcher.judge_press(60, 4_000_000, late, Some(400 * MILLISECOND));
    assert_eq!(judgement, Judgement { timing: Some(Timing::Far), matched: true });
    assert!(!matcher.is_required(60));
}

#[test]
fn an_early_press_is_judged_like_a_late_one() {
    let mut matcher = PlayAlong::new();
    matcher.press_key(KeyPressSource::File, 60, true);
    let judgement = matcher.judge_press(60, 4_000_000, 4_000_000 - 80 * MILLISECOND, None);
    assert_eq!(judgement, Judgement { timing: Some(Timing::Near), matched: true });
    assert!(matcher.are_required_keys_pressed());
}

#[test]
fn a_press_too_far_from_its_note_has_no_class() {
    let mut matcher = PlayAlong::new();
    matcher.press_key(KeyPressSource::File, 60, true);
    let judgement = matcher.judge_press(60, 0, 301 * MILLISECOND, None);
    assert_eq!(judgement, Judgement { timing: None, matched: false });
    assert!(matcher.is_required(60));
    let judgement = matcher.judge_press(60, 0, 300 * MILLISECOND, None);
    assert_eq!(judgement, Judgement { timing: Some(Timing::Far), matched: true });
}

#[test]
fn a_key_that_is_not_required_is_not_judged() {
    let mut matcher = PlayAlong::new();
    let judgement = matcher.judge_press(60, 1_000, 1_000, None);
    assert_eq!(judgement, Judgement { timing: None, matched: false });
    matcher.press_key(KeyPressSource::File, 62, true);
    let judgement = matcher.judge_press(60, 1_000, 1_000, None);
    assert_eq!(judgement, Judgement { timing: None, matched: false });
    assert_eq!(matcher.required_count(), 1);
}
