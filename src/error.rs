//! Errors of the quiz engine.
use vstd::prelude::*;

verus! {

/// Why an engine operation was refused.
#[derive(Clone, Copy, Debug, PartialEq, Eq, Structural)]
pub enum QuizError {
    /// The owner of a new card has not registered.
    UserNotFound,
    /// A quiz was asked for a topic that holds no card.
    NoCardsForTopic,
    /// A review was recorded for a card id that the store does not hold.
    CardNotFound,
    /// The user has no session to answer in or to stop.
    NoActiveSession,
    /// The session has completed or been cancelled and takes no more input.
    SessionClosed,
    /// The store could not take the write.
    PersistenceFailure,
}

/// The plain-language message shown to the user for `e`.
pub open spec fn message_spec(e: QuizError) -> &'static str {
    match e {
        QuizError::UserNotFound => "Please register first with /register.",
        QuizError::NoCardsForTopic => "No flashcards found for this topic.",
        QuizError::CardNotFound => "That flashcard no longer exists.",
        QuizError::NoActiveSession => "No active quiz. Type /quiz to begin.",
        QuizError::SessionClosed => "This quiz is over. Type /quiz to start a new one.",
        QuizError::PersistenceFailure => "Your data could not be saved. Please try again.",
    }
}

impl QuizError {
    /// A short plain-language message for the user.
    pub fn message(&self) -> (r: &'static str)
        ensures
            r == message_spec(*self),
    {
        match self {
            QuizError::UserNotFound => "Please register first with /register.",
            QuizError::NoCardsForTopic => "No flashcards found for this topic.",
            QuizError::CardNotFound => "That flashcard no longer exists.",
            QuizError::NoActiveSession => "No active quiz. Type /quiz to begin.",
            QuizError::SessionClosed => "This quiz is over. Type /quiz to start a new one.",
            QuizError::PersistenceFailure => "Your data could not be saved. Please try again.",
        }
    }
}

} // verus!
