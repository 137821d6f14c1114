//! How a turn ends: its outcome, its failure, and what a failed turn may keep.

use crate::session::messages::{said, Message, MessageView};
use crate::text::opt_text;
use vstd::prelude::*;

verus! {

/// Why a turn failed.
#[derive(Debug, PartialEq, Eq)]
pub enum DriverError {
    /// A failure reported in words.
    Message(String),
    /// The provider answered with neither text nor a tool call.
    EmptyProviderResponse { iteration: usize },
}

/// What a [`DriverError`] says.
pub enum DriverErrorView {
    Message(Seq<char>),
    EmptyProviderResponse { iteration: nat },
}

impl View for DriverError {
    type V = DriverErrorView;

    open spec fn view(&self) -> DriverErrorView {
        match self {
            DriverError::Message(text) => DriverErrorView::Message(text@),
            DriverError::EmptyProviderResponse { iteration } =>
                DriverErrorView::EmptyProviderResponse { iteration: *iteration as nat },
        }
    }
}

/// What a turn hands to the session: the durable history, the reply, a display-only partial,
/// and whether the turn stopped early.
#[derive(Debug, PartialEq, Eq)]
pub struct DriverOutcome {
    pub history: Vec<Message>,
    pub output: Option<String>,
    pub partial: Option<String>,
    pub interrupted: bool,
}

/// What a [`DriverOutcome`] says.
pub struct DriverOutcomeView {
    pub history: Seq<MessageView>,
    pub output: Option<Seq<char>>,
    pub partial: Option<Seq<char>>,
    pub interrupted: bool,
}

impl View for DriverOutcome {
    type V = DriverOutcomeView;

    open spec fn view(&self) -> DriverOutcomeView {
        DriverOutcomeView {
            history: said(self.history@),
            output: opt_text(self.output),
            partial: opt_text(self.partial),
            interrupted: self.interrupted,
        }
    }
}

/// A failed turn, with what of it may still be kept.
#[derive(Debug, PartialEq, Eq)]
pub struct DriverFailure {
    pub error: DriverError,
    pub partial: Option<DriverOutcome>,
}

/// What a [`DriverFailure`] says.
pub struct DriverFailureView {
    pub error: DriverErrorView,
    pub partial: Option<DriverOutcomeView>,
}

impl View for DriverFailure {
    type V = DriverFailureView;

    open spec fn view(&self) -> DriverFailureView {
        DriverFailureView {
            error: self.error@,
            partial: match self.partial {
                Some(outcome) => Some(outcome@),
                None => None,
            },
        }
    }
}

/// A failure that keeps nothing.
pub open spec fn bare_failure(error: DriverErrorView) -> DriverFailureView {
    DriverFailureView { error, partial: None }
}

/// A failure in words that keeps nothing.
pub open spec fn failure_of(message: Seq<char>) -> DriverFailureView {
    bare_failure(DriverErrorView::Message(message))
}

/// A failure in words that keeps nothing.
pub fn driver_failure(message: &str) -> (r: DriverFailure)
    ensures
        r@ == failure_of(message@),
{
    DriverFailure { error: DriverError::Message(message.to_owned()), partial: None }
}

/// What a turn hands over, and what a failed one keeps, is what is seen of it.
pub proof fn law_what_is_handed_over_is_what_is_seen(outcome: DriverOutcome, failure: DriverFailure)
    ensures
        outcome@.history == said(outcome.history@),
        outcome@.interrupted == outcome.interrupted,
        outcome.output is Some <==> outcome@.output is Some,
        outcome.output is Some ==> outcome@.output->0 == outcome.output->0@,
        outcome.partial is Some <==> outcome@.partial is Some,
        outcome.partial is Some ==> outcome@.partial->0 == outcome.partial->0@,
        failure.partial is Some <==> failure@.partial is Some,
        failure.partial is Some ==> failure@.partial->0 == failure.partial->0@,
        failure.error is Message <==> failure@.error is Message,
        failure.error is Message ==> failure@.error->Message_0 == failure.error->Message_0@,
        failure.error is EmptyProviderResponse ==> failure@.error->iteration
            == failure.error->iteration,
{
}

/// A failure in words holds those words and keeps nothing.
pub proof fn law_a_failure_in_words_keeps_nothing(message: Seq<char>)
    ensures
        failure_of(message).error == DriverErrorView::Message(message),
        failure_of(message).partial is None,
{
}

} // verus!
