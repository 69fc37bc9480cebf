//! The per-user table of live quiz sessions.
//!
//! The registry decides; it performs no I/O. Each operation returns the
//! writes that the caller must make durable (a card's new schedule, a
//! session's report), and a closed session stays in the table until the
//! caller reports that its report was saved.
use std::collections::HashMap;
use vstd::prelude::*;

use crate::error::QuizError;
use crate::schedule::DEFAULT_MAX_INTERVAL_DAYS;
use crate::session::{
    answer_step, fresh_session, report_of, review_of, stop_step, FlashCardData, QuizData,
    QuizManager, QuizReport, ReviewUpdate, SessionModel, SessionState,
};
use crate::store::{in_topic, is_topic_selection, FlashcardStore};
use crate::text::answers_match_spec;

verus! {

broadcast use vstd::std_specs::hash::group_hash_axioms;

/// What a user sees when a quiz starts.
#[derive(Clone, Debug)]
pub struct SessionView {
    pub question: String,
    pub difficulty: i64,
    pub total: usize,
}

/// The result of an accepted answer.
#[derive(Clone, Debug)]
pub enum AnswerOutcome {
    /// The quiz goes on with the card whose question is `next_question`.
    Feedback { correct: bool, next_question: String, next_difficulty: i64, review: ReviewUpdate },
    /// That was the last card; `report` is to be saved.
    Finished {
        correct: bool,
        score: usize,
        total: usize,
        review: ReviewUpdate,
        report: QuizReport,
    },
}

/// At most one session per user, keyed by user id.
pub struct SessionRegistry {
    sessions: HashMap<u64, QuizManager>,
    max_interval_days: u64,
}

impl View for SessionRegistry {
    type V = Map<u64, SessionModel>;

    closed spec fn view(&self) -> Map<u64, SessionModel> {
        Map::new(|k: u64| self.sessions@.contains_key(k), |k: u64| self.sessions@[k]@)
    }
}

impl SessionRegistry {
    /// The cap on review intervals that answers are scheduled with.
    pub closed spec fn max_interval(&self) -> u64 {
        self.max_interval_days
    }

    /// Whether `user_id` has a closed session whose report is not saved yet.
    pub open spec fn awaits_report(&self, user_id: u64) -> bool {
        self@.contains_key(user_id) && !self@[user_id].is_open()
    }

    /// Every stored session is well formed and filed under its own user.
    pub closed spec fn entries_wf(&self) -> bool {
        forall|k: u64| #[trigger]
            self.sessions@.contains_key(k) ==> self.sessions@[k].wf()
                && self.sessions@[k]@.info.user_id == k
    }

    /// The registry's invariant: every session is well formed and filed
    /// under its own user.
    pub open spec fn wf(&self) -> bool {
        &&& self.entries_wf()
        &&& forall|k: u64| #[trigger]
            self@.contains_key(k) ==> self@[k].wf() && self@[k].info.user_id == k
    }

    /// An empty registry whose answers schedule cards with intervals capped
    /// at `max_interval_days` (and never below one day).
    pub fn new(max_interval_days: u64) -> (r: SessionRegistry)
        ensures
            r.wf(),
            r@ == Map::<u64, SessionModel>::empty(),
            r.max_interval() == max_interval_days,
    {
        let r = SessionRegistry { sessions: HashMap::new(), max_interval_days };
        assert(r@ =~= Map::<u64, SessionModel>::empty());
        r
    }

    /// An empty registry with the default interval cap.
    pub fn with_default_cap() -> (r: SessionRegistry)
        ensures
            r.wf(),
            r@ == Map::<u64, SessionModel>::empty(),
            r.max_interval() == DEFAULT_MAX_INTERVAL_DAYS,
    {
        SessionRegistry::new(DEFAULT_MAX_INTERVAL_DAYS)
    }

    /// Whether `user_id` has a session, open or awaiting its report.
    pub fn has_session(&self, user_id: u64) -> (r: bool)
        ensures
            r == self@.contains_key(user_id),
    {
        self.sessions.contains_key(&user_id)
    }

    /// The session of `user_id`, if any.
    pub fn session(&self, user_id: u64) -> (r: Option<&QuizManager>)
        ensures
            r is Some <==> self@.contains_key(user_id),
            r matches Some(q) ==> q@ == self@[user_id],
    {
        self.sessions.get(&user_id)
    }

    /// Starts a quiz for `info.user_id` over `cards`, the topic's snapshot in
    /// quiz order. An open session the user had is dropped without a report.
    /// A closed session whose report is not saved yet blocks the start with
    /// `SessionClosed`; with no card, `NoCardsForTopic` comes back. Either
    /// way nothing changes.
    pub fn start(&mut self, info: QuizData, cards: Vec<FlashCardData>) -> (r: Result<
        SessionView,
        QuizError,
    >)
        requires
            old(self).wf(),
        ensures
            final(self).wf(),
            final(self).max_interval() == old(self).max_interval(),
            old(self).awaits_report(info.user_id) ==> r == Err::<SessionView, QuizError>(
                QuizError::SessionClosed,
            ) && final(self)@ == old(self)@,
            !old(self).awaits_report(info.user_id) && cards@.len() == 0 ==> r == Err::<
                SessionView,
                QuizError,
            >(QuizError::NoCardsForTopic) && final(self)@ == old(self)@,
            !old(self).awaits_report(info.user_id) && cards@.len() > 0 ==> (r matches Ok(v)
                && v.question@ == cards@[0].question@ && v.difficulty == cards@[0].difficulty
                && v.total == cards@.len() && final(self)@ == old(self)@.insert(
                info.user_id,
                fresh_session(info, cards@),
            )),
    {
        let ghost snapshot = cards@;
        let ghost given = info;
        let user_id = info.user_id;
        let blocked = match self.sessions.get(&user_id) {
            Some(existing) => existing.state() != SessionState::InProgress,
            None => false,
        };
        if blocked {
            return Err(QuizError::SessionClosed);
        }
        let q = match QuizManager::new(info, cards) {
            Ok(q) => q,
            Err(e) => {
                return Err(e);
            },
        };
        let card = q.current_question();
        let view = SessionView {
            question: card.question.clone(),
            difficulty: card.difficulty,
            total: q.total(),
        };
        self.sessions.insert(user_id, q);
        assert(self@ =~= old(self)@.insert(user_id, fresh_session(given, snapshot)));
        Ok(view)
    }

    /// Starts a quiz for `user_id` on `topic` over `store`'s snapshot of that
    /// topic, in quiz order, refusing as `start` does.
    pub fn start_topic(&mut self, store: &FlashcardStore, user_id: u64, topic: String) -> (r: Result<
        SessionView,
        QuizError,
    >)
        requires
            old(self).wf(),
            store.wf(),
        ensures
            final(self).wf(),
            final(self).max_interval() == old(self).max_interval(),
            old(self).awaits_report(user_id) ==> r == Err::<SessionView, QuizError>(
                QuizError::SessionClosed,
            ) && final(self)@ == old(self)@,
            !old(self).awaits_report(user_id) ==> (r is Err <==> !exists|j: int|
                0 <= j < store@.cards.len() && in_topic(
                    #[trigger] store@.cards[j],
                    user_id,
                    topic@,
                )),
            !old(self).awaits_report(user_id) && r is Err ==> r == Err::<SessionView, QuizError>(
                QuizError::NoCardsForTopic,
            ) && final(self)@ == old(self)@,
            r is Ok ==> ({
                let s = final(self)@[user_id];
                &&& final(self)@ == old(self)@.insert(user_id, s)
                &&& is_topic_selection(s.cards, store@.cards, user_id, topic@)
                &&& s == fresh_session(QuizData { user_id, topic }, s.cards)
            }),
    {
        let cards = store.load_cards_for_topic(user_id, topic.as_str());
        let ghost snapshot = cards@;
        let ghost t = topic;
        proof {
            if snapshot.len() == 0 {
                assert forall|j: int|
                    0 <= j < store@.cards.len() implies !in_topic(
                    #[trigger] store@.cards[j],
                    user_id,
                    topic@,
                ) by {
                    if in_topic(store@.cards[j], user_id, topic@) {
                        assert(snapshot.contains(crate::store::snapshot_of(store@.cards[j])));
                    }
                }
            } else {
                assert(crate::store::taken_from(snapshot[0], store@.cards, user_id, topic@));
            }
        }
        let r = self.start(QuizData { user_id, topic }, cards);
        proof {
            if r is Ok {
                assert(self@[user_id] == fresh_session(QuizData { user_id, topic: t }, snapshot));
            }
        }
        r
    }

    /// Takes `text` as the answer of `user_id` on day `today`.
    ///
    /// Without a session this is `NoActiveSession`, and with a closed one
    /// `SessionClosed`; either way nothing changes. Otherwise the answer is
    /// judged, the card's new schedule is returned for saving, and the
    /// outcome is `Finished`, with the report to save, exactly when that was
    /// the last card. The session then stays until `report_saved`.
    pub fn submit_answer(&mut self, user_id: u64, text: &str, today: u64) -> (r: Result<
        AnswerOutcome,
        QuizError,
    >)
        requires
            old(self).wf(),
        ensures
            final(self).wf(),
            final(self).max_interval() == old(self).max_interval(),
            !old(self)@.contains_key(user_id) ==> r == Err::<AnswerOutcome, QuizError>(
                QuizError::NoActiveSession,
            ) && final(self)@ == old(self)@,
            old(self)@.contains_key(user_id) && !old(self)@[user_id].is_open() ==> r == Err::<
                AnswerOutcome,
                QuizError,
            >(QuizError::SessionClosed) && final(self)@ == old(self)@,
            old(self)@.contains_key(user_id) && old(self)@[user_id].is_open() ==> ({
                let s = old(self)@[user_id];
                let card = s.current_card();
                let correct = answers_match_spec(text@, card.answer@);
                let after = answer_step(s, correct, today);
                let review = review_of(card, correct, today, old(self).max_interval());
                &&& final(self)@ == old(self)@.insert(user_id, after)
                &&& after.is_open() ==> (r matches Ok(
                    AnswerOutcome::Feedback { correct: c, next_question, next_difficulty, review: rv },
                ) && c == correct && next_question@ == after.current_card().question@
                    && next_difficulty == after.current_card().difficulty && rv == review)
                &&& !after.is_open() ==> (r matches Ok(
                    AnswerOutcome::Finished { correct: c, score, total, review: rv, report },
                ) && c == correct && score == after.score && total == after.total() && rv
                    == review && report == report_of(after))
            }),
    {
        let mut q = match self.sessions.remove(&user_id) {
            Some(q) => q,
            None => {
                return Err(QuizError::NoActiveSession);
            },
        };
        assert(old(self).sessions@.contains_key(user_id));
        let step = match q.check_answer(text, today, self.max_interval_days) {
            Ok(step) => step,
            Err(e) => {
                self.sessions.insert(user_id, q);
                assert(self@ =~= old(self)@);
                return Err(e);
            },
        };
        let outcome = if q.state() == SessionState::InProgress {
            let card = q.current_question();
            AnswerOutcome::Feedback {
                correct: step.correct,
                next_question: card.question.clone(),
                next_difficulty: card.difficulty,
                review: step.review,
            }
        } else {
            AnswerOutcome::Finished {
                correct: step.correct,
                score: q.get_score(),
                total: q.total(),
                review: step.review,
                report: q.make_report(),
            }
        };
        let ghost after = q@;
        self.sessions.insert(user_id, q);
        assert(self@ =~= old(self)@.insert(user_id, after));
        Ok(outcome)
    }

    /// Stops the quiz of `user_id` on day `today` and returns the report to
    /// save, flagged as not completed. Without a session this is
    /// `NoActiveSession`, with a closed one `SessionClosed`, and nothing
    /// changes.
    pub fn stop(&mut self, user_id: u64, today: u64) -> (r: Result<QuizReport, QuizError>)
        requires
            old(self).wf(),
        ensures
            final(self).wf(),
            final(self).max_interval() == old(self).max_interval(),
            !old(self)@.contains_key(user_id) ==> r == Err::<QuizReport, QuizError>(
                QuizError::NoActiveSession,
            ) && final(self)@ == old(self)@,
            old(self)@.contains_key(user_id) && !old(self)@[user_id].is_open() ==> r == Err::<
                QuizReport,
                QuizError,
            >(QuizError::SessionClosed) && final(self)@ == old(self)@,
            old(self)@.contains_key(user_id) && old(self)@[user_id].is_open() ==> ({
                let after = stop_step(old(self)@[user_id], today);
                &&& final(self)@ == old(self)@.insert(user_id, after)
                &&& r == Ok::<QuizReport, QuizError>(report_of(after))
            }),
    {
        let mut q = match self.sessions.remove(&user_id) {
            Some(q) => q,
            None => {
                return Err(QuizError::NoActiveSession);
            },
        };
        let r = q.cancel(today);
        let ghost after = q@;
        self.sessions.insert(user_id, q);
        assert(self@ =~= old(self)@.insert(user_id, after));
        r
    }

    /// The report of the closed session of `user_id`, for saving again after
    /// a failed write.
    pub fn pending_report(&self, user_id: u64) -> (r: Option<QuizReport>)
        requires
            self.wf(),
        ensures
            r is Some <==> self@.contains_key(user_id) && !self@[user_id].is_open(),
            r matches Some(rep) ==> rep == report_of(self@[user_id]),
    {
        match self.sessions.get(&user_id) {
            Some(q) => q.save_quiz_result(),
            None => None,
        }
    }

    /// Records that the report of `user_id`'s closed session is saved, and
    /// removes that session. An open session, or none, is left as it is and
    /// `false` comes back.
    pub fn report_saved(&mut self, user_id: u64) -> (r: bool)
        requires
            old(self).wf(),
        ensures
            final(self).wf(),
            final(self).max_interval() == old(self).max_interval(),
            r == (old(self)@.contains_key(user_id) && !old(self)@[user_id].is_open()),
            r ==> final(self)@ == old(self)@.remove(user_id),
            !r ==> final(self)@ == old(self)@,
    {
        let closed = match self.sessions.get(&user_id) {
            Some(q) => q.state() != SessionState::InProgress,
            None => false,
        };
        if closed {
            self.sessions.remove(&user_id);
            assert(self@ =~= old(self)@.remove(user_id));
        }
        closed
    }
}

} // verus!
