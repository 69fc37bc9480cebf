use quizpal::schedule::{next_schedule, DEFAULT_MAX_INTERVAL_DAYS};

#[test]
fn correct_answer_doubles_interval() {
    let s = next_schedule(1, true, 100, 180);
    assert_eq!(s.interval_days, 2);
    assert_eq!(s.next_review_date, 102);
    let s = next_schedule(16, true, 100, 180);
    assert_eq!(s.interval_days, 32);
    assert_eq!(s.next_review_date, 132);
}

#[test]
fn interval_is_capped() {
    assert_eq!(next_schedule(90, true, 0, 180).interval_days, 180);
    assert_eq!(next_schedule(91, true, 0, 180).interval_days, 180);
    assert_eq!(next_schedule(u64::MAX, true, 0, 180).interval_days, 180);
    assert_eq!(next_schedule(100, true, 0, DEFAULT_MAX_INTERVAL_DAYS).interval_days, 180);
}

#[test]
fn wrong_answer_resets_interval() {
    let s = next_schedule(64, false, 7, 180);
    assert_eq!(s.interval_days, 1);
    assert_eq!(s.next_review_date, 8);
}

#[test]
fn zero_interval_becomes_one_day() {
    assert_eq!(next_schedule(0, true, 0, 180).interval_days, 1);
}

#[test]
fn two_correct_answers_grow_interval() {
    let first = next_schedule(3, true, 0, 180).interval_days;
    let second = next_schedule(first, true, 0, 180).interval_days;
    assert!(second > first);
    assert_eq!(next_schedule(second, false, 0, 180).interval_days, 1);
}

#[test]
fn due_day_saturates() {
    assert_eq!(next_schedule(4, true, u64::MAX - 3, 180).next_review_date, u64::MAX);
}

#[test]
fn zero_cap_still_gives_one_day() {
    assert_eq!(next_schedule(10, true, 5, 0).interval_days, 1);
    assert_eq!(next_schedule(10, true, 5, 1).interval_days, 1);
    assert_eq!(next_schedule(10, false, 5, 0).next_review_date, 6);
}
