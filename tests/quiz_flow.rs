use quizpal::error::QuizError;
use quizpal::registry::{AnswerOutcome, SessionRegistry};
use quizpal::session::{FlashCardData, QuizData, QuizManager, SessionState};
use quizpal::store::{FlashcardStore, User};

const U1: u64 = 1;
const DAY: u64 = 20_000;

fn store_with(cards: &[(&str, &str, &str, i64)]) -> FlashcardStore {
    let mut store = FlashcardStore::new();
    assert!(store.register_user(User { id: U1, name: "u1".to_string(), joined_on: DAY }));
    for (q, a, topic, d) in cards {
        store
            .create_flashcard(U1, q.to_string(), a.to_string(), topic.to_string(), *d, DAY)
            .unwrap();
    }
    store
}

fn card(id: u64, q: &str, a: &str) -> FlashCardData {
    FlashCardData {
        card_id: id,
        difficulty: 0,
        answer: a.to_string(),
        question: q.to_string(),
        interval_days: 1,
        times_reviewed: 0,
    }
}

fn five_card_store() -> FlashcardStore {
    store_with(&[
        ("Q1", "A1", "chem", 1),
        ("Q2", "A2", "chem", 2),
        ("Q3", "A3", "chem", 3),
        ("Q4", "A4", "chem", 4),
        ("Q5", "A5", "chem", 5),
    ])
}

#[test]
fn two_card_quiz_finishes_with_report() {
    let mut store = store_with(&[("Q1", "A1", "bio", 0), ("Q2", "A2", "bio", 0)]);
    let mut reg = SessionRegistry::with_default_cap();
    let view = reg.start_topic(&store, U1, "bio".to_string()).unwrap();
    assert_eq!(view.question, "Q1");
    assert_eq!(view.total, 2);

    match reg.submit_answer(U1, "A1", DAY).unwrap() {
        AnswerOutcome::Feedback { correct, next_question, review, .. } => {
            assert!(correct);
            assert_eq!(next_question, "Q2");
            assert_eq!(review.interval_days, 2);
            store.record_review(review).unwrap();
        }
        AnswerOutcome::Finished { .. } => panic!("quiz ended early"),
    }
    match reg.submit_answer(U1, "wrong", DAY).unwrap() {
        AnswerOutcome::Finished { correct, score, total, review, report } => {
            assert!(!correct);
            assert_eq!(score, 1);
            assert_eq!(total, 2);
            assert_eq!(review.interval_days, 1);
            store.record_review(review).unwrap();
            store.append_quiz_report(report);
        }
        AnswerOutcome::Feedback { .. } => panic!("quiz did not end"),
    }
    assert!(reg.report_saved(U1));
    let reports = store.reports();
    assert_eq!(reports.len(), 1);
    assert_eq!(reports[0].score, 1);
    assert_eq!(reports[0].total_questions, 2);
    assert_eq!(reports[0].answered_questions, 2);
    assert!(reports[0].completed);
    assert_eq!(reports[0].topic, "bio");
    assert!(!reg.has_session(U1));
    let first = store.card(1).unwrap();
    assert_eq!(first.times_reviewed, 1);
    assert_eq!(first.interval_days, 2);
    assert_eq!(first.next_review_date, DAY + 2);
    assert_eq!(first.last_reviewed, Some(DAY));
}

#[test]
fn stop_mid_quiz_reports_partial_progress() {
    let mut store = five_card_store();
    let mut reg = SessionRegistry::with_default_cap();
    reg.start_topic(&store, U1, "chem".to_string()).unwrap();
    assert!(matches!(
        reg.submit_answer(U1, "A1", DAY),
        Ok(AnswerOutcome::Feedback { correct: true, .. })
    ));
    assert!(matches!(
        reg.submit_answer(U1, "nope", DAY),
        Ok(AnswerOutcome::Feedback { correct: false, .. })
    ));
    let report = reg.stop(U1, DAY + 1).unwrap();
    assert_eq!(report.score, 1);
    assert_eq!(report.total_questions, 5);
    assert_eq!(report.answered_questions, 2);
    assert!(!report.completed);
    assert_eq!(report.taken_on, DAY + 1);
    // until the report is saved the closed session refuses answers
    assert!(matches!(reg.submit_answer(U1, "A3", DAY), Err(QuizError::SessionClosed)));
    store.append_quiz_report(report);
    assert!(reg.report_saved(U1));
    assert!(matches!(reg.submit_answer(U1, "A3", DAY), Err(QuizError::NoActiveSession)));
    assert_eq!(store.reports().len(), 1);
}

#[test]
fn answer_without_session_is_refused() {
    let mut reg = SessionRegistry::with_default_cap();
    assert!(matches!(reg.submit_answer(U1, "A1", DAY), Err(QuizError::NoActiveSession)));
    assert!(!reg.has_session(U1));
    assert!(reg.pending_report(U1).is_none());
    assert!(matches!(reg.stop(U1, DAY), Err(QuizError::NoActiveSession)));
}

#[test]
fn empty_topic_creates_no_session() {
    let store = store_with(&[("Q1", "A1", "bio", 0)]);
    let mut reg = SessionRegistry::with_default_cap();
    assert!(matches!(
        reg.start_topic(&store, U1, "history".to_string()),
        Err(QuizError::NoCardsForTopic)
    ));
    assert!(!reg.has_session(U1));
    assert!(reg.pending_report(U1).is_none());
    let info = QuizData { user_id: U1, topic: "x".to_string() };
    assert!(matches!(reg.start(info, Vec::new()), Err(QuizError::NoCardsForTopic)));
    assert!(!reg.has_session(U1));
}

#[test]
fn topic_match_is_case_sensitive() {
    let store = store_with(&[("Q1", "A1", "bio", 0)]);
    let mut reg = SessionRegistry::with_default_cap();
    assert!(reg.start_topic(&store, U1, "Bio".to_string()).is_err());
}

#[test]
fn single_card_completes_after_one_answer() {
    let info = QuizData { user_id: U1, topic: "t".to_string() };
    let mut q = QuizManager::new(info, vec![card(7, "Capital of France?", "Paris")]).unwrap();
    assert!(q.save_quiz_result().is_none());
    let step = q.check_answer("  PARIS ", DAY, 180).unwrap();
    assert!(step.correct);
    assert_eq!(step.review.card_id, 7);
    assert_eq!(q.state(), SessionState::Completed);
    assert!(q.get_question().is_none());
    let report = q.save_quiz_result().unwrap();
    assert!(report.completed);
    assert_eq!(report.score, 1);
    assert_eq!(report.answered_questions, 1);
    assert!(matches!(q.check_answer("Paris", DAY, 180), Err(QuizError::SessionClosed)));
    assert!(matches!(q.cancel(DAY), Err(QuizError::SessionClosed)));
    assert_eq!(q.get_score(), 1);
    assert_eq!(q.get_answered(), 1);
}

#[test]
fn counts_stay_ordered_over_mixed_answers() {
    let cards = (1..=4).map(|i| card(i, "q", "yes")).collect::<Vec<_>>();
    let info = QuizData { user_id: U1, topic: "t".to_string() };
    let mut q = QuizManager::new(info, cards).unwrap();
    for answer in ["yes", "no", "YES", "no"] {
        q.check_answer(answer, DAY, 180).unwrap();
        assert!(q.get_score() <= q.get_answered());
        assert!(q.get_answered() <= q.total());
    }
    assert_eq!(q.get_score(), 2);
    assert_eq!(q.state(), SessionState::Completed);
}

#[test]
fn report_written_once_per_session() {
    let store = five_card_store();
    let mut reg = SessionRegistry::with_default_cap();
    reg.start_topic(&store, U1, "chem".to_string()).unwrap();
    let mut finished = 0;
    for a in ["A1", "A2", "A3", "A4", "A5"] {
        if let Ok(AnswerOutcome::Finished { .. }) = reg.submit_answer(U1, a, DAY) {
            finished += 1;
        }
    }
    assert_eq!(finished, 1);
    // a failed write leaves the report available for a retry
    let again = reg.pending_report(U1).unwrap();
    assert_eq!(again.score, 5);
    assert!(matches!(reg.stop(U1, DAY), Err(QuizError::SessionClosed)));
    assert!(reg.report_saved(U1));
    assert!(!reg.report_saved(U1));
}

#[test]
fn two_answers_advance_two_cards() {
    let store = store_with(&[("Q1", "A1", "bio", 0), ("Q2", "A2", "bio", 0), ("Q3", "A3", "bio", 0)]);
    let mut reg = SessionRegistry::with_default_cap();
    reg.start_topic(&store, U1, "bio".to_string()).unwrap();
    let first = reg.submit_answer(U1, "A1", DAY).unwrap();
    let second = reg.submit_answer(U1, "A1", DAY).unwrap();
    match (first, second) {
        (
            AnswerOutcome::Feedback { review: r1, correct: c1, .. },
            AnswerOutcome::Feedback { review: r2, correct: c2, next_question, .. },
        ) => {
            assert_ne!(r1.card_id, r2.card_id);
            assert!(c1);
            assert!(!c2);
            assert_eq!(next_question, "Q3");
        }
        _ => panic!("unexpected outcome"),
    }
    assert_eq!(reg.session(U1).unwrap().get_answered(), 2);
    assert_eq!(reg.session(U1).unwrap().get_score(), 1);
}

#[test]
fn restart_discards_session_without_report() {
    let store = store_with(&[("Q1", "A1", "bio", 0), ("Q2", "A2", "bio", 0), ("C1", "X", "chem", 0)]);
    let mut reg = SessionRegistry::with_default_cap();
    reg.start_topic(&store, U1, "bio".to_string()).unwrap();
    reg.submit_answer(U1, "A1", DAY).unwrap();
    let view = reg.start_topic(&store, U1, "chem".to_string()).unwrap();
    assert_eq!(view.question, "C1");
    assert_eq!(view.total, 1);
    assert!(reg.pending_report(U1).is_none());
    assert_eq!(reg.session(U1).unwrap().get_answered(), 0);
}

#[test]
fn is_new_is_true_once() {
    let info = QuizData { user_id: U1, topic: "t".to_string() };
    let mut q = QuizManager::new(info, vec![card(1, "q", "a")]).unwrap();
    assert!(q.is_new());
    assert!(!q.is_new());
    assert_eq!(q.get_question().unwrap().question, "q");
}

#[test]
fn unsaved_report_blocks_new_quiz() {
    let store = store_with(&[("Q1", "A1", "bio", 0)]);
    let mut reg = SessionRegistry::with_default_cap();
    reg.start_topic(&store, U1, "bio".to_string()).unwrap();
    assert!(matches!(reg.submit_answer(U1, "A1", DAY), Ok(AnswerOutcome::Finished { .. })));
    // the report write failed: the closed session must not be replaced
    assert!(matches!(
        reg.start_topic(&store, U1, "bio".to_string()),
        Err(QuizError::SessionClosed)
    ));
    let info = QuizData { user_id: U1, topic: "bio".to_string() };
    assert!(matches!(reg.start(info, vec![card(1, "Q1", "A1")]), Err(QuizError::SessionClosed)));
    assert_eq!(reg.pending_report(U1).unwrap().score, 1);
    assert!(reg.report_saved(U1));
    assert_eq!(reg.start_topic(&store, U1, "bio".to_string()).unwrap().question, "Q1");
}

#[test]
fn no_session_reply_text() {
    let mut reg = SessionRegistry::with_default_cap();
    match reg.submit_answer(U1, "hello", DAY) {
        Err(e) => assert_eq!(e.message(), "No active quiz. Type /quiz to begin."),
        Ok(_) => panic!("answer accepted without a session"),
    }
}
