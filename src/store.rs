//! Flashcards, users and quiz reports, and the order in which a topic's cards
//! are quizzed.
use vstd::prelude::*;

use crate::error::QuizError;
use crate::session::{FlashCardData, QuizReport, ReviewUpdate};

verus! {

/// A registered user.
#[derive(Clone, Debug)]
pub struct User {
    pub id: u64,
    pub name: String,
    /// Day number of registration.
    pub joined_on: u64,
}

/// A stored flashcard with its spaced-repetition state.
#[derive(Clone, Debug)]
pub struct Flashcard {
    pub card_id: u64,
    pub owner_id: u64,
    pub question: String,
    pub answer: String,
    pub topic: String,
    pub difficulty: i64,
    pub interval_days: u64,
    pub next_review_date: u64,
    pub times_reviewed: u64,
    pub last_reviewed: Option<u64>,
}

/// Whether `c` belongs to `owner`'s quiz on `topic` (matched exactly).
pub open spec fn in_topic(c: Flashcard, owner: u64, topic: Seq<char>) -> bool {
    c.owner_id == owner && c.topic@ == topic
}

/// What a quiz keeps of a stored card.
pub open spec fn snapshot_of(c: Flashcard) -> FlashCardData {
    FlashCardData {
        card_id: c.card_id,
        difficulty: c.difficulty,
        answer: c.answer,
        question: c.question,
        interval_days: c.interval_days,
        times_reviewed: c.times_reviewed,
    }
}

/// Quiz order: by difficulty, then by card id (that is, by creation).
pub open spec fn comes_before(a: FlashCardData, b: FlashCardData) -> bool {
    a.difficulty < b.difficulty || (a.difficulty == b.difficulty && a.card_id < b.card_id)
}

/// Whether the card ids of `cards` are pairwise distinct.
pub open spec fn distinct_ids(cards: Seq<Flashcard>) -> bool {
    forall|a: int, b: int|
        0 <= a < b < cards.len() ==> #[trigger] cards[a].card_id != #[trigger] cards[b].card_id
}

/// Whether `s` is strictly increasing in quiz order.
pub open spec fn in_quiz_order(s: Seq<FlashCardData>) -> bool {
    forall|a: int, b: int| 0 <= a < b < s.len() ==> comes_before(#[trigger] s[a], #[trigger] s[b])
}

/// Whether `k` is the snapshot of one of `owner`'s cards on `topic`.
pub open spec fn taken_from(k: FlashCardData, cards: Seq<Flashcard>, owner: u64, topic: Seq<char>) -> bool {
    exists|j: int| 0 <= j < cards.len() && in_topic(cards[j], owner, topic) && k == snapshot_of(#[trigger] cards[j])
}

/// `r` holds exactly the snapshots of `owner`'s cards on `topic`, each once,
/// in quiz order.
pub open spec fn is_topic_selection(
    r: Seq<FlashCardData>,
    cards: Seq<Flashcard>,
    owner: u64,
    topic: Seq<char>,
) -> bool {
    &&& in_quiz_order(r)
    &&& forall|j: int|
        0 <= j < cards.len() && in_topic(cards[j], owner, topic) ==> r.contains(
            #[trigger] snapshot_of(cards[j]),
        )
    &&& forall|m: int| 0 <= m < r.len() ==> taken_from(#[trigger] r[m], cards, owner, topic)
}

proof fn lemma_sorted_with_same_elements_equal(a: Seq<FlashCardData>, b: Seq<FlashCardData>)
    requires
        in_quiz_order(a),
        in_quiz_order(b),
        forall|x: FlashCardData| a.contains(x) <==> b.contains(x),
    ensures
        a == b,
    decreases a.len(),
{
    if a.len() == 0 {
        if b.len() > 0 {
            assert(b.contains(b[0]));
        }
        assert(a =~= b);
    } else {
        assert(a.contains(a[0]));
        assert(b.len() > 0);
        assert(b.contains(b[0]));
        let k = choose|k: int| 0 <= k < b.len() && b[k] == a[0];
        let m = choose|m: int| 0 <= m < a.len() && a[m] == b[0];
        if k > 0 {
            assert(comes_before(b[0], b[k]));
            if m > 0 {
                assert(comes_before(a[0], a[m]));
            }
        }
        assert(a[0] == b[0]);
        let (ta, tb) = (a.drop_first(), b.drop_first());
        assert forall|x: FlashCardData| ta.contains(x) implies tb.contains(x) by {
            let i = choose|i: int| 0 <= i < ta.len() && ta[i] == x;
            assert(comes_before(a[0], a[i + 1]));
            assert(b.contains(x));
            let j = choose|j: int| 0 <= j < b.len() && b[j] == x;
            assert(j != 0);
            assert(tb[j - 1] == x);
        }
        assert forall|x: FlashCardData| tb.contains(x) implies ta.contains(x) by {
            let i = choose|i: int| 0 <= i < tb.len() && tb[i] == x;
            assert(comes_before(b[0], b[i + 1]));
            assert(a.contains(x));
            let j = choose|j: int| 0 <= j < a.len() && a[j] == x;
            assert(j != 0);
            assert(ta[j - 1] == x);
        }
        lemma_sorted_with_same_elements_equal(ta, tb);
        assert(a =~= seq![a[0]] + ta);
        assert(b =~= seq![b[0]] + tb);
    }
}

/// A topic's quiz snapshot is determined by the stored cards: two sequences
/// that both hold exactly the topic's cards in quiz order are equal.
pub proof fn lemma_topic_selection_unique(
    r1: Seq<FlashCardData>,
    r2: Seq<FlashCardData>,
    cards: Seq<Flashcard>,
    owner: u64,
    topic: Seq<char>,
)
    requires
        distinct_ids(cards),
        is_topic_selection(r1, cards, owner, topic),
        is_topic_selection(r2, cards, owner, topic),
    ensures
        r1 == r2,
{
    assert forall|x: FlashCardData| r1.contains(x) <==> r2.contains(x) by {
        if r1.contains(x) {
            let i = choose|i: int| 0 <= i < r1.len() && r1[i] == x;
            assert(taken_from(r1[i], cards, owner, topic));
        }
        if r2.contains(x) {
            let i = choose|i: int| 0 <= i < r2.len() && r2[i] == x;
            assert(taken_from(r2[i], cards, owner, topic));
        }
    }
    lemma_sorted_with_same_elements_equal(r1, r2);
}

fn before(a: &FlashCardData, b: &FlashCardData) -> (r: bool)
    ensures
        r == comes_before(*a, *b),
{
    a.difficulty < b.difficulty || (a.difficulty == b.difficulty && a.card_id < b.card_id)
}

fn snapshot(c: &Flashcard) -> (r: FlashCardData)
    ensures
        r == snapshot_of(*c),
{
    FlashCardData {
        card_id: c.card_id,
        difficulty: c.difficulty,
        answer: c.answer.clone(),
        question: c.question.clone(),
        interval_days: c.interval_days,
        times_reviewed: c.times_reviewed,
    }
}

/// The snapshot of `owner_id`'s cards on `topic`, in quiz order. No match
/// gives an empty snapshot.
pub fn select_topic_cards(cards: &Vec<Flashcard>, owner_id: u64, topic: &str) -> (r: Vec<
    FlashCardData,
>)
    requires
        distinct_ids(cards@),
    ensures
        is_topic_selection(r@, cards@, owner_id, topic@),
{
    let wanted = topic.to_owned();
    let mut out: Vec<FlashCardData> = Vec::new();
    // for each position of `out`, the index of the card it was taken from
    let ghost mut src: Seq<int> = Seq::empty();
    let n = cards.len();
    let mut i: usize = 0;
    while i < n
        invariant
            n == cards@.len(),
            i <= n,
            wanted@ == topic@,
            distinct_ids(cards@),
            src.len() == out@.len(),
            forall|a: int, b: int|
                0 <= a < b < out@.len() ==> comes_before(#[trigger] out@[a], #[trigger] out@[b]),
            forall|j: int|
                0 <= j < i && in_topic(cards@[j], owner_id, topic@) ==> out@.contains(
                    #[trigger] snapshot_of(cards@[j]),
                ),
            forall|m: int|
                0 <= m < out@.len() ==> 0 <= #[trigger] src[m] < i && in_topic(
                    cards@[src[m]],
                    owner_id,
                    topic@,
                ) && out@[m] == snapshot_of(cards@[src[m]]),
        decreases n - i,
    {
        let c = &cards[i];
        if c.owner_id == owner_id && c.topic.eq(&wanted) {
            let snap = snapshot(c);
            let mut p: usize = 0;
            while p < out.len() && before(&out[p], &snap)
                invariant
                    p <= out@.len(),
                    forall|m: int| 0 <= m < p ==> comes_before(#[trigger] out@[m], snap),
                decreases out@.len() - p,
            {
                p = p + 1;
            }
            let ghost old_out = out@;
            let ghost old_src = src;
            proof {
                // every card already taken has another id, so `snap` goes
                // strictly before all from `p` on
                assert forall|m: int| p <= m < old_out.len() implies comes_before(
                    snap,
                    #[trigger] old_out[m],
                ) by {
                    assert(cards@[old_src[m]].card_id != cards@[i as int].card_id);
                    assert(cards@[old_src[p as int]].card_id != cards@[i as int].card_id);
                    if m > p {
                        assert(comes_before(old_out[p as int], old_out[m]));
                    }
                }
            }
            out.insert(p, snap);
            proof {
                src = old_src.insert(p as int, i as int);
                old_out.insert_ensures(p as int, snap);
                old_src.insert_ensures(p as int, i as int);
                assert forall|j: int|
                    0 <= j < i + 1 && in_topic(cards@[j], owner_id, topic@) implies out@.contains(
                    #[trigger] snapshot_of(cards@[j]),
                ) by {
                    if j < i {
                        let k = choose|k: int|
                            0 <= k < old_out.len() && old_out[k] == snapshot_of(cards@[j]);
                        if k < p {
                            assert(out@[k] == snapshot_of(cards@[j]));
                        } else {
                            assert(out@[k + 1] == snapshot_of(cards@[j]));
                        }
                    } else {
                        assert(out@[p as int] == snapshot_of(cards@[j]));
                    }
                }
                assert forall|m: int| 0 <= m < out@.len() implies 0 <= #[trigger] src[m] < i + 1
                    && in_topic(cards@[src[m]], owner_id, topic@) && out@[m] == snapshot_of(
                    cards@[src[m]],
                ) by {
                    if m > p {
                        assert(src[m] == old_src[m - 1]);
                        assert(out@[m] == old_out[m - 1]);
                    }
                }
            }
        }
        i = i + 1;
    }
    assert forall|m: int| 0 <= m < out@.len() implies taken_from(
        #[trigger] out@[m],
        cards@,
        owner_id,
        topic@,
    ) by {
        let j = src[m];
        assert(0 <= j < i);
        assert(in_topic(cards@[j], owner_id, topic@));
        assert(out@[m] == snapshot_of(cards@[j]));
        assert(0 <= j < cards@.len());
    }
    out
}


/// Whether a user with id `id` is among `users`.
pub open spec fn registered(users: Seq<User>, id: u64) -> bool {
    exists|i: int| 0 <= i < users.len() && (#[trigger] users[i]).id == id
}

/// The card that `create_flashcard` stores: one day's interval, due on the
/// day of creation, never reviewed.
pub open spec fn new_card(
    card_id: u64,
    owner_id: u64,
    question: String,
    answer: String,
    topic: String,
    difficulty: i64,
    today: u64,
) -> Flashcard {
    Flashcard {
        card_id,
        owner_id,
        question,
        answer,
        topic,
        difficulty,
        interval_days: 1,
        next_review_date: today,
        times_reviewed: 0,
        last_reviewed: None,
    }
}

/// `c` after the review `u`: one more review, reviewed on `u.reviewed_on`,
/// with the new interval and due day.
pub open spec fn reviewed(c: Flashcard, u: ReviewUpdate) -> Flashcard {
    Flashcard {
        times_reviewed: if c.times_reviewed == u64::MAX {
            c.times_reviewed
        } else {
            (c.times_reviewed + 1) as u64
        },
        last_reviewed: Some(u.reviewed_on),
        interval_days: u.interval_days,
        next_review_date: u.next_review_date,
        ..c
    }
}

/// The card to store for a new flashcard. An owner who has not registered
/// gets `UserNotFound`.
pub fn new_flashcard(
    owner_registered: bool,
    card_id: u64,
    owner_id: u64,
    question: String,
    answer: String,
    topic: String,
    difficulty: i64,
    today: u64,
) -> (r: Result<Flashcard, QuizError>)
    ensures
        !owner_registered ==> r == Err::<Flashcard, QuizError>(QuizError::UserNotFound),
        owner_registered ==> r == Ok::<Flashcard, QuizError>(
            new_card(card_id, owner_id, question, answer, topic, difficulty, today),
        ),
{
    if !owner_registered {
        return Err(QuizError::UserNotFound);
    }
    Ok(
        Flashcard {
            card_id,
            owner_id,
            question,
            answer,
            topic,
            difficulty,
            interval_days: 1,
            next_review_date: today,
            times_reviewed: 0,
            last_reviewed: None,
        },
    )
}

/// The card `card` after the review `update`. No card, or another card than
/// the one reviewed, gets `CardNotFound`.
pub fn review_card(card: Option<&Flashcard>, update: &ReviewUpdate) -> (r: Result<
    Flashcard,
    QuizError,
>)
    ensures
        match card {
            Some(c) => if c.card_id == update.card_id {
                r == Ok::<Flashcard, QuizError>(reviewed(*c, *update))
            } else {
                r == Err::<Flashcard, QuizError>(QuizError::CardNotFound)
            },
            None => r == Err::<Flashcard, QuizError>(QuizError::CardNotFound),
        },
{
    let c = match card {
        Some(c) => c,
        None => {
            return Err(QuizError::CardNotFound);
        },
    };
    if c.card_id != update.card_id {
        return Err(QuizError::CardNotFound);
    }
    let times = if c.times_reviewed == u64::MAX {
        c.times_reviewed
    } else {
        c.times_reviewed + 1
    };
    Ok(
        Flashcard {
            card_id: c.card_id,
            owner_id: c.owner_id,
            question: c.question.clone(),
            answer: c.answer.clone(),
            topic: c.topic.clone(),
            difficulty: c.difficulty,
            interval_days: update.interval_days,
            next_review_date: update.next_review_date,
            times_reviewed: times,
            last_reviewed: Some(update.reviewed_on),
        },
    )
}

/// The mathematical state of a store.
pub struct StoreModel {
    pub users: Seq<User>,
    pub cards: Seq<Flashcard>,
    pub reports: Seq<QuizReport>,
}

impl StoreModel {
    /// Whether `card_id` names a stored card.
    pub open spec fn has_card(self, card_id: u64) -> bool {
        1 <= card_id <= self.cards.len()
    }

    /// Whether another card can be numbered.
    pub open spec fn has_room(self) -> bool {
        self.cards.len() < u64::MAX && self.cards.len() < usize::MAX
    }

    /// The card named `card_id`.
    pub open spec fn card(self, card_id: u64) -> Flashcard {
        self.cards[card_id - 1]
    }

    /// The store's invariant: cards are numbered from one in creation order,
    /// every owner is registered, every schedule is sound, user ids are
    /// distinct.
    pub open spec fn wf(self) -> bool {
        &&& forall|i: int| 0 <= i < self.cards.len() ==> (#[trigger] self.cards[i]).card_id == i + 1
        &&& forall|i: int|
            0 <= i < self.cards.len() ==> registered(self.users, (#[trigger] self.cards[i]).owner_id)
        &&& forall|i: int| 0 <= i < self.cards.len() ==> (#[trigger] self.cards[i]).interval_days >= 1
        &&& forall|i: int|
            0 <= i < self.cards.len() ==> ((#[trigger] self.cards[i]).last_reviewed matches Some(d)
                ==> self.cards[i].next_review_date >= d)
        &&& forall|a: int, b: int|
            0 <= a < b < self.users.len() ==> (#[trigger] self.users[a]).id != (
            #[trigger] self.users[b]).id
    }
}

/// Users, flashcards and quiz reports, held in memory.
pub struct FlashcardStore {
    users: Vec<User>,
    cards: Vec<Flashcard>,
    reports: Vec<QuizReport>,
}

impl View for FlashcardStore {
    type V = StoreModel;

    closed spec fn view(&self) -> StoreModel {
        StoreModel { users: self.users@, cards: self.cards@, reports: self.reports@ }
    }
}

impl FlashcardStore {
    pub open spec fn wf(&self) -> bool {
        self@.wf()
    }

    /// An empty store.
    pub fn new() -> (r: FlashcardStore)
        ensures
            r.wf(),
            r@.users.len() == 0,
            r@.cards.len() == 0,
            r@.reports.len() == 0,
    {
        FlashcardStore { users: Vec::new(), cards: Vec::new(), reports: Vec::new() }
    }

    /// Whether `user_id` has registered.
    pub fn is_registered(&self, user_id: u64) -> (r: bool)
        ensures
            r == registered(self@.users, user_id),
    {
        let mut i: usize = 0;
        while i < self.users.len()
            invariant
                i <= self.users@.len(),
                forall|k: int| 0 <= k < i ==> (#[trigger] self.users@[k]).id != user_id,
            decreases self.users@.len() - i,
        {
            if self.users[i].id == user_id {
                assert(self.users@[i as int].id == user_id);
                return true;
            }
            i = i + 1;
        }
        false
    }

    /// Registers `user`; an id already registered is left as it is and
    /// `false` comes back.
    pub fn register_user(&mut self, user: User) -> (r: bool)
        requires
            old(self).wf(),
        ensures
            final(self).wf(),
            r == !registered(old(self)@.users, user.id),
            r ==> final(self)@ == (StoreModel { users: old(self)@.users.push(user), ..old(self)@ }),
            !r ==> final(self)@ == old(self)@,
    {
        if self.is_registered(user.id) {
            return false;
        }
        let ghost id = user.id;
        self.users.push(user);
        assert forall|i: int| 0 <= i < self@.cards.len() implies registered(
            self@.users,
            (#[trigger] self@.cards[i]).owner_id,
        ) by {
            let k = choose|k: int|
                0 <= k < old(self)@.users.len() && (#[trigger] old(self)@.users[k]).id
                    == self@.cards[i].owner_id;
            assert(self@.users[k] == old(self)@.users[k]);
        }
        assert forall|a: int, b: int| 0 <= a < b < self@.users.len() implies (
        #[trigger] self@.users[a]).id != (#[trigger] self@.users[b]).id by {
            if b == self@.users.len() - 1 {
                assert(old(self)@.users[a] == self@.users[a]);
            }
        }
        true
    }

    /// Stores a new card owned by `owner_id` and returns its id. An owner
    /// who has not registered gets `UserNotFound` and nothing is stored;
    /// `PersistenceFailure` comes back only when card ids are exhausted.
    pub fn create_flashcard(
        &mut self,
        owner_id: u64,
        question: String,
        answer: String,
        topic: String,
        difficulty: i64,
        today: u64,
    ) -> (r: Result<u64, QuizError>)
        requires
            old(self).wf(),
        ensures
            final(self).wf(),
            !registered(old(self)@.users, owner_id) ==> r == Err::<u64, QuizError>(
                QuizError::UserNotFound,
            ) && final(self)@ == old(self)@,
            registered(old(self)@.users, owner_id) && old(self)@.has_room() ==> ({
                let id = (old(self)@.cards.len() + 1) as u64;
                &&& r == Ok::<u64, QuizError>(id)
                &&& final(self)@ == (StoreModel {
                    cards: old(self)@.cards.push(
                        new_card(id, owner_id, question, answer, topic, difficulty, today),
                    ),
                    ..old(self)@
                })
            }),
            registered(old(self)@.users, owner_id) && !old(self)@.has_room() ==> r
                == Err::<u64, QuizError>(QuizError::PersistenceFailure) && final(self)@ == old(
                self,
            )@,
    {
        let known = self.is_registered(owner_id);
        let n = self.cards.len();
        let room = (n as u64) < u64::MAX && n < usize::MAX;
        let id: u64 = if room {
            n as u64 + 1
        } else {
            0
        };
        let card = match new_flashcard(
            known,
            id,
            owner_id,
            question,
            answer,
            topic,
            difficulty,
            today,
        ) {
            Ok(card) => card,
            Err(e) => {
                return Err(e);
            },
        };
        if !room {
            return Err(QuizError::PersistenceFailure);
        }
        self.cards.push(card);
        assert forall|i: int| 0 <= i < self@.cards.len() implies registered(
            self@.users,
            (#[trigger] self@.cards[i]).owner_id,
        ) by {
            if i < n {
                assert(self@.cards[i] == old(self)@.cards[i]);
            }
        }
        Ok(id)
    }

    /// The card named `card_id`, if stored.
    pub fn card(&self, card_id: u64) -> (r: Option<&Flashcard>)
        requires
            self.wf(),
        ensures
            r is Some <==> self@.has_card(card_id),
            r matches Some(c) ==> *c == self@.card(card_id),
    {
        if card_id >= 1 && card_id - 1 < self.cards.len() as u64 {
            Some(&self.cards[(card_id - 1) as usize])
        } else {
            None
        }
    }

    /// The snapshot of `owner_id`'s cards on `topic`, in quiz order.
    pub fn load_cards_for_topic(&self, owner_id: u64, topic: &str) -> (r: Vec<FlashCardData>)
        requires
            self.wf(),
        ensures
            is_topic_selection(r@, self@.cards, owner_id, topic@),
    {
        assert(distinct_ids(self.cards@)) by {
            assert forall|a: int, b: int| 0 <= a < b < self.cards@.len() implies #[trigger] self.cards@[a].card_id
                != #[trigger] self.cards@[b].card_id by {
                assert(self@.cards[a].card_id == a + 1);
                assert(self@.cards[b].card_id == b + 1);
            }
        }
        select_topic_cards(&self.cards, owner_id, topic)
    }

    /// Records the review `update` of a card. A stale id gets `CardNotFound`
    /// and nothing changes.
    pub fn record_review(&mut self, update: ReviewUpdate) -> (r: Result<(), QuizError>)
        requires
            old(self).wf(),
            update.interval_days >= 1,
            update.next_review_date >= update.reviewed_on,
        ensures
            final(self).wf(),
            !old(self)@.has_card(update.card_id) ==> r == Err::<(), QuizError>(
                QuizError::CardNotFound,
            ) && final(self)@ == old(self)@,
            old(self)@.has_card(update.card_id) ==> r == Ok::<(), QuizError>(()) && final(self)@
                == (StoreModel {
                cards: old(self)@.cards.update(
                    update.card_id - 1,
                    reviewed(old(self)@.card(update.card_id), update),
                ),
                ..old(self)@
            }),
    {
        let n = self.cards.len();
        if update.card_id == 0 || update.card_id - 1 >= n as u64 {
            return Err(QuizError::CardNotFound);
        }
        let idx = (update.card_id - 1) as usize;
        let card = match review_card(Some(&self.cards[idx]), &update) {
            Ok(card) => card,
            Err(e) => {
                return Err(e);
            },
        };
        self.cards[idx] = card;
        Ok(())
    }

    /// Appends `report` to the report log.
    pub fn append_quiz_report(&mut self, report: QuizReport)
        requires
            old(self).wf(),
        ensures
            final(self).wf(),
            final(self)@ == (StoreModel { reports: old(self)@.reports.push(report), ..old(self)@ }),
    {
        self.reports.push(report);
    }

    /// The reports saved so far, oldest first.
    pub fn reports(&self) -> (r: &Vec<QuizReport>)
        ensures
            r@ == self@.reports,
    {
        &self.reports
    }
}

} // verus!
