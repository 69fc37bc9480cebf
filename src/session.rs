//! One user's quiz over a fixed snapshot of cards.
use vstd::prelude::*;

use crate::error::QuizError;
use crate::schedule::{due_day, next_interval_spec, next_schedule};
use crate::text::{answers_match, answers_match_spec};

verus! {

/// A card as a quiz sees it: what is asked, what is expected, and the
/// scheduling state that an answer updates.
#[derive(Clone, Debug)]
pub struct FlashCardData {
    pub card_id: u64,
    pub difficulty: i64,
    pub answer: String,
    pub question: String,
    pub interval_days: u64,
    pub times_reviewed: u64,
}

/// Whose quiz it is and on which topic.
#[derive(Clone, Debug)]
pub struct QuizData {
    pub user_id: u64,
    pub topic: String,
}

/// Where a session stands. `Completed` and `Cancelled` are terminal.
#[derive(Clone, Copy, Debug, PartialEq, Eq, Structural)]
pub enum SessionState {
    InProgress,
    Completed,
    Cancelled,
}

/// The durable record of a closed session.
#[derive(Clone, Debug)]
pub struct QuizReport {
    pub user_id: u64,
    pub topic: String,
    pub score: usize,
    pub total_questions: usize,
    pub answered_questions: usize,
    /// True when every card was answered, false when the quiz was stopped.
    pub completed: bool,
    /// Day number on which the session closed.
    pub taken_on: u64,
}

/// The new scheduling state of one card after it was answered.
#[derive(Clone, Copy, Debug, PartialEq, Eq, Structural)]
pub struct ReviewUpdate {
    pub card_id: u64,
    pub was_correct: bool,
    pub interval_days: u64,
    pub next_review_date: u64,
    pub reviewed_on: u64,
}

/// What one accepted answer produced.
#[derive(Clone, Copy, Debug, PartialEq, Eq, Structural)]
pub struct AnswerStep {
    pub correct: bool,
    pub review: ReviewUpdate,
}

/// The mathematical state of a session.
pub struct SessionModel {
    pub info: QuizData,
    pub cards: Seq<FlashCardData>,
    pub cursor: nat,
    pub score: nat,
    pub answered: nat,
    pub state: SessionState,
    pub fresh: bool,
    pub closed_on: u64,
}

/// Something that happens to a session.
pub enum SessionEvent {
    /// An answer, judged correct or not, submitted on day `today`.
    Answer { correct: bool, today: u64 },
    /// An explicit stop on day `today`.
    Stop { today: u64 },
}

impl SessionModel {
    /// The session's invariant.
    pub open spec fn wf(self) -> bool {
        &&& self.cards.len() > 0
        &&& self.cursor == self.answered
        &&& self.score <= self.answered
        &&& self.answered <= self.cards.len()
        &&& (self.state == SessionState::InProgress ==> self.cursor < self.cards.len())
        &&& (self.state == SessionState::Completed ==> self.cursor == self.cards.len())
        &&& (self.state == SessionState::Cancelled ==> self.cursor < self.cards.len())
    }

    pub open spec fn is_open(self) -> bool {
        self.state == SessionState::InProgress
    }

    pub open spec fn total(self) -> nat {
        self.cards.len()
    }

    /// The card that the next answer is judged against.
    pub open spec fn current_card(self) -> FlashCardData {
        self.cards[self.cursor as int]
    }
}

/// A new session over `cards`.
pub open spec fn fresh_session(info: QuizData, cards: Seq<FlashCardData>) -> SessionModel {
    SessionModel {
        info,
        cards,
        cursor: 0,
        score: 0,
        answered: 0,
        state: SessionState::InProgress,
        fresh: true,
        closed_on: 0,
    }
}

/// The session after an answer judged `correct` on day `today`.
pub open spec fn answer_step(m: SessionModel, correct: bool, today: u64) -> SessionModel {
    let cursor = m.cursor + 1;
    let done = cursor == m.cards.len();
    SessionModel {
        cursor,
        answered: m.answered + 1,
        score: if correct {
            m.score + 1
        } else {
            m.score
        },
        state: if done {
            SessionState::Completed
        } else {
            SessionState::InProgress
        },
        closed_on: if done {
            today
        } else {
            m.closed_on
        },
        ..m
    }
}

/// The session after a stop on day `today`.
pub open spec fn stop_step(m: SessionModel, today: u64) -> SessionModel {
    SessionModel { state: SessionState::Cancelled, closed_on: today, ..m }
}

/// The session after `e`; a closed session ignores every event.
pub open spec fn apply_event(m: SessionModel, e: SessionEvent) -> SessionModel {
    if !m.is_open() {
        m
    } else {
        match e {
            SessionEvent::Answer { correct, today } => answer_step(m, correct, today),
            SessionEvent::Stop { today } => stop_step(m, today),
        }
    }
}

/// Whether `e` closes the session, which is when its report is written.
pub open spec fn emits_report(m: SessionModel, e: SessionEvent) -> bool {
    m.is_open() && !apply_event(m, e).is_open()
}

/// The session after the events `evs`, in order.
pub open spec fn replay(m: SessionModel, evs: Seq<SessionEvent>) -> SessionModel
    decreases evs.len(),
{
    if evs.len() == 0 {
        m
    } else {
        apply_event(replay(m, evs.drop_last()), evs.last())
    }
}

/// How many of `evs` emit a report.
pub open spec fn reports_during(m: SessionModel, evs: Seq<SessionEvent>) -> nat
    decreases evs.len(),
{
    if evs.len() == 0 {
        0
    } else {
        reports_during(m, evs.drop_last()) + if emits_report(
            replay(m, evs.drop_last()),
            evs.last(),
        ) {
            1nat
        } else {
            0nat
        }
    }
}

/// How many of `evs` move the session into `Completed`.
pub open spec fn completions_during(m: SessionModel, evs: Seq<SessionEvent>) -> nat
    decreases evs.len(),
{
    if evs.len() == 0 {
        0
    } else {
        let before = replay(m, evs.drop_last());
        completions_during(m, evs.drop_last()) + if before.state != SessionState::Completed
            && apply_event(before, evs.last()).state == SessionState::Completed {
            1nat
        } else {
            0nat
        }
    }
}

/// How many of `evs` are answers that the session took.
pub open spec fn answers_accepted(m: SessionModel, evs: Seq<SessionEvent>) -> nat
    decreases evs.len(),
{
    if evs.len() == 0 {
        0
    } else {
        answers_accepted(m, evs.drop_last()) + if replay(m, evs.drop_last()).is_open()
            && evs.last() is Answer {
            1nat
        } else {
            0nat
        }
    }
}

/// The report of a closed session.
pub open spec fn report_of(m: SessionModel) -> QuizReport {
    QuizReport {
        user_id: m.info.user_id,
        topic: m.info.topic,
        score: m.score as usize,
        total_questions: m.cards.len() as usize,
        answered_questions: m.answered as usize,
        completed: m.state == SessionState::Completed,
        taken_on: m.closed_on,
    }
}

/// The review that answering `card` with verdict `correct` on day `today`
/// records.
pub open spec fn review_of(card: FlashCardData, correct: bool, today: u64, max_interval: u64) -> ReviewUpdate {
    let interval = next_interval_spec(card.interval_days as int, correct, max_interval as int);
    ReviewUpdate {
        card_id: card.card_id,
        was_correct: correct,
        interval_days: interval as u64,
        next_review_date: due_day(today as int, interval) as u64,
        reviewed_on: today,
    }
}

/// A running quiz: a snapshot of cards, a cursor into it and a score.
pub struct QuizManager {
    info: QuizData,
    current: usize,
    score: usize,
    answered_questions: usize,
    cards: Vec<FlashCardData>,
    new: bool,
    state: SessionState,
    closed_on: u64,
}

impl View for QuizManager {
    type V = SessionModel;

    closed spec fn view(&self) -> SessionModel {
        SessionModel {
            info: self.info,
            cards: self.cards@,
            cursor: self.current as nat,
            score: self.score as nat,
            answered: self.answered_questions as nat,
            state: self.state,
            fresh: self.new,
            closed_on: self.closed_on,
        }
    }
}

impl QuizManager {
    pub open spec fn wf(&self) -> bool {
        self@.wf()
    }

    /// Starts a quiz over `cards`, taken in the order given; fails with
    /// `NoCardsForTopic` when there is none.
    pub fn new(info: QuizData, cards: Vec<FlashCardData>) -> (r: Result<QuizManager, QuizError>)
        ensures
            cards@.len() == 0 ==> r == Err::<QuizManager, QuizError>(QuizError::NoCardsForTopic),
            cards@.len() > 0 ==> r is Ok,
            r matches Ok(q) ==> q@ == fresh_session(info, cards@) && q.wf(),
    {
        if cards.len() == 0 {
            return Err(QuizError::NoCardsForTopic);
        }
        Ok(QuizManager {
            info,
            current: 0,
            score: 0,
            answered_questions: 0,
            cards,
            new: true,
            state: SessionState::InProgress,
            closed_on: 0,
        })
    }

    /// The card awaiting an answer, while the session is in progress.
    pub fn get_question(&self) -> (r: Option<&FlashCardData>)
        requires
            self.wf(),
        ensures
            r is Some <==> self@.is_open(),
            r matches Some(c) ==> *c == self@.current_card(),
    {
        if self.state == SessionState::InProgress {
            Some(&self.cards[self.current])
        } else {
            None
        }
    }

    /// The card awaiting an answer in an open session.
    pub fn current_question(&self) -> (r: &FlashCardData)
        requires
            self.wf(),
            self@.is_open(),
        ensures
            *r == self@.current_card(),
    {
        &self.cards[self.current]
    }

    /// Judges `input` against the current card on day `today` and moves on.
    ///
    /// The score rises when the answer matches once both are trimmed and
    /// lower-cased; the session completes when the last card is answered.
    /// A closed session refuses with `SessionClosed` and stays as it was.
    pub fn check_answer(&mut self, input: &str, today: u64, max_interval: u64) -> (r: Result<
        AnswerStep,
        QuizError,
    >)
        requires
            old(self).wf(),
        ensures
            final(self).wf(),
            !old(self)@.is_open() ==> r == Err::<AnswerStep, QuizError>(QuizError::SessionClosed)
                && final(self)@ == old(self)@,
            old(self)@.is_open() ==> (r matches Ok(step) && step.correct == answers_match_spec(
                input@,
                old(self)@.current_card().answer@,
            ) && step.review == review_of(
                old(self)@.current_card(),
                step.correct,
                today,
                max_interval,
            ) && final(self)@ == answer_step(old(self)@, step.correct, today)),
    {
        if self.state != SessionState::InProgress {
            return Err(QuizError::SessionClosed);
        }
        let n = self.cards.len();
        let card = &self.cards[self.current];
        let correct = answers_match(input, card.answer.as_str());
        let next = next_schedule(card.interval_days, correct, today, max_interval);
        let review = ReviewUpdate {
            card_id: card.card_id,
            was_correct: correct,
            interval_days: next.interval_days,
            next_review_date: next.next_review_date,
            reviewed_on: today,
        };
        self.answered_questions = self.answered_questions + 1;
        if correct {
            self.score = self.score + 1;
        }
        self.current = self.current + 1;
        if self.current == n {
            self.state = SessionState::Completed;
            self.closed_on = today;
        }
        Ok(AnswerStep { correct, review })
    }

    /// Stops the session on day `today` and returns its report, flagged as
    /// not completed. A closed session refuses with `SessionClosed`.
    pub fn cancel(&mut self, today: u64) -> (r: Result<QuizReport, QuizError>)
        requires
            old(self).wf(),
        ensures
            final(self).wf(),
            !old(self)@.is_open() ==> r == Err::<QuizReport, QuizError>(QuizError::SessionClosed)
                && final(self)@ == old(self)@,
            old(self)@.is_open() ==> final(self)@ == stop_step(old(self)@, today) && r == Ok::<
                QuizReport,
                QuizError,
            >(report_of(final(self)@)),
    {
        if self.state != SessionState::InProgress {
            return Err(QuizError::SessionClosed);
        }
        self.state = SessionState::Cancelled;
        self.closed_on = today;
        Ok(self.make_report())
    }

    /// The report of this session as it stands.
    pub(crate) fn make_report(&self) -> (r: QuizReport)
        requires
            self.wf(),
        ensures
            r == report_of(self@),
    {
        QuizReport {
            user_id: self.info.user_id,
            topic: self.info.topic.clone(),
            score: self.score,
            total_questions: self.cards.len(),
            answered_questions: self.answered_questions,
            completed: self.state == SessionState::Completed,
            taken_on: self.closed_on,
        }
    }

    /// The report to be saved for this session: present once it has closed.
    pub fn save_quiz_result(&self) -> (r: Option<QuizReport>)
        requires
            self.wf(),
        ensures
            self@.is_open() ==> r is None,
            !self@.is_open() ==> r == Some(report_of(self@)),
    {
        if self.state == SessionState::InProgress {
            None
        } else {
            Some(self.make_report())
        }
    }

    /// Correct answers so far.
    pub fn get_score(&self) -> (r: usize)
        ensures
            r == self@.score,
    {
        self.score
    }

    /// Answers submitted so far.
    pub fn get_answered(&self) -> (r: usize)
        ensures
            r == self@.answered,
    {
        self.answered_questions
    }

    /// Number of cards in the snapshot.
    pub fn total(&self) -> (r: usize)
        ensures
            r == self@.total(),
    {
        self.cards.len()
    }

    pub fn state(&self) -> (r: SessionState)
        ensures
            r == self@.state,
    {
        self.state
    }

    pub fn info(&self) -> (r: &QuizData)
        ensures
            *r == self@.info,
    {
        &self.info
    }

    /// True on the first call only: whether the opening question is still to
    /// be shown.
    pub fn is_new(&mut self) -> (r: bool)
        ensures
            r == old(self)@.fresh,
            final(self)@ == (SessionModel { fresh: false, ..old(self)@ }),
    {
        let prev = self.new;
        if prev {
            self.new = false;
        }
        prev
    }
}


/// Every event keeps a session well formed and leaves its cards alone.
pub proof fn lemma_event_keeps_wf(m: SessionModel, e: SessionEvent)
    requires
        m.wf(),
    ensures
        apply_event(m, e).wf(),
        apply_event(m, e).cards == m.cards,
        apply_event(m, e).info == m.info,
{
}

proof fn lemma_run_facts(m: SessionModel, evs: Seq<SessionEvent>)
    requires
        m.wf(),
        m.is_open(),
    ensures
        replay(m, evs).wf(),
        replay(m, evs).cards == m.cards,
        reports_during(m, evs) == if replay(m, evs).is_open() {
            0nat
        } else {
            1nat
        },
        completions_during(m, evs) == if replay(m, evs).state == SessionState::Completed {
            1nat
        } else {
            0nat
        },
        replay(m, evs).answered == m.answered + answers_accepted(m, evs),
    decreases evs.len(),
{
    if evs.len() > 0 {
        lemma_run_facts(m, evs.drop_last());
        lemma_event_keeps_wf(replay(m, evs.drop_last()), evs.last());
    }
}

/// Whatever sequence of answers (and stops) a session receives, after every
/// step its score is at most the number of answers taken, and that number is
/// at most the number of cards.
pub proof fn lemma_counts_stay_ordered(m: SessionModel, evs: Seq<SessionEvent>)
    requires
        m.wf(),
    ensures
        forall|i: int|
            0 <= i <= evs.len() ==> {
                let s = #[trigger] replay(m, evs.take(i));
                s.score <= s.answered <= m.total()
            },
{
    assert forall|i: int| 0 <= i <= evs.len() implies {
        let s = #[trigger] replay(m, evs.take(i));
        s.score <= s.answered <= m.total()
    } by {
        lemma_replay_keeps_wf(m, evs.take(i));
    }
}

/// Replaying events keeps a session well formed and leaves its cards alone.
pub proof fn lemma_replay_keeps_wf(m: SessionModel, evs: Seq<SessionEvent>)
    requires
        m.wf(),
    ensures
        replay(m, evs).wf(),
        replay(m, evs).cards == m.cards,
    decreases evs.len(),
{
    if evs.len() > 0 {
        lemma_replay_keeps_wf(m, evs.drop_last());
        lemma_event_keeps_wf(replay(m, evs.drop_last()), evs.last());
    }
}

/// A session started over `cards` closes at most once: it completes exactly
/// when it has taken one answer per card, it enters `Completed` at most once,
/// and it emits exactly one report if it has closed (completed or cancelled)
/// and none while it is still open.
pub proof fn lemma_single_closure(info: QuizData, cards: Seq<FlashCardData>, evs: Seq<SessionEvent>)
    requires
        cards.len() > 0,
    ensures
        ({
            let start = fresh_session(info, cards);
            let end = replay(start, evs);
            &&& reports_during(start, evs) == if end.is_open() {
                0nat
            } else {
                1nat
            }
            &&& completions_during(start, evs) <= 1
            &&& (end.state == SessionState::Completed <==> answers_accepted(start, evs)
                == cards.len())
        }),
{
    lemma_run_facts(fresh_session(info, cards), evs);
}

/// Two answers to the same session take effect one after the other: each
/// moves the cursor by exactly one, so the second is judged against the card
/// after the first one's, and each credits at most one point.
pub proof fn lemma_answers_never_share_a_card(
    m: SessionModel,
    first: bool,
    second: bool,
    day1: u64,
    day2: u64,
)
    requires
        m.wf(),
        m.is_open(),
        answer_step(m, first, day1).is_open(),
    ensures
        ({
            let m1 = answer_step(m, first, day1);
            let m2 = answer_step(m1, second, day2);
            &&& m1.cursor == m.cursor + 1
            &&& m2.cursor == m.cursor + 2
            &&& m1.current_card() == m.cards[m.cursor + 1int]
            &&& m2.score == m.score + (if first {
                1nat
            } else {
                0nat
            }) + (if second {
                1nat
            } else {
                0nat
            })
        }),
{
}

} // verus!
