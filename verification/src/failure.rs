//! Why a piece of work did not come to its end.
use crate::error::{Error, ErrorView};
use crate::json::{Json, JsonView};
use crate::os::monitor::{retry_text, RetryAfter};
use crate::text::numeral;
use vstd::prelude::*;

verus! {

/// Why a piece of work did not come to its end.
#[derive(Debug)]
pub enum Failure {
    /// The day's model calls are used up.
    Budget,
    /// A person has to look at it.
    Review(String),
    /// A service asks to be left alone.
    Later(RetryAfter),
    /// A rule of this library stands against it.
    Refused(Error),
    /// The machine or a service reports this.
    Outside(String),
}

pub enum FailureView {
    Budget,
    Review(Seq<char>),
    Later(u64),
    Refused(ErrorView),
    Outside(Seq<char>),
}

impl View for Failure {
    type V = FailureView;

    open spec fn view(&self) -> FailureView {
        match self {
            Failure::Budget => FailureView::Budget,
            Failure::Review(reason) => FailureView::Review(reason@),
            Failure::Later(retry) => FailureView::Later(retry.0),
            Failure::Refused(error) => FailureView::Refused(error@),
            Failure::Outside(words) => FailureView::Outside(words@),
        }
    }
}

impl FailureView {
    /// The message for a reader.
    pub open spec fn text(self) -> Seq<char> {
        match self {
            FailureView::Budget => "daily model budget exhausted"@,
            FailureView::Review(reason) => reason,
            FailureView::Later(seconds) => retry_text(seconds),
            FailureView::Refused(error) => error.text(),
            FailureView::Outside(words) => words,
        }
    }
}

impl Failure {
    /// The message for a reader.
    pub fn message(&self) -> (res: String)
        ensures
            res@ == self@.text(),
    {
        match self {
            Failure::Budget => "daily model budget exhausted".to_owned(),
            Failure::Review(reason) => reason.clone(),
            Failure::Later(retry) => retry.message(),
            Failure::Refused(error) => error.message(),
            Failure::Outside(words) => words.clone(),
        }
    }
}

/// A result, with what a failure says in its place.
pub open spec fn told<T>(res: Result<T, Failure>) -> Result<T, FailureView> {
    match res {
        Ok(value) => Ok(value),
        Err(failure) => Err(failure@),
    }
}

/// A document or a failure, by what they say.
pub open spec fn reported(res: Result<Json, Failure>) -> Result<JsonView, FailureView> {
    match res {
        Ok(value) => Ok(value.view()),
        Err(failure) => Err(failure@),
    }
}

/// A value that was read from a text, by its view, or the words for why it was not.
pub open spec fn read_as<T: View>(res: Result<T, String>) -> Result<T::V, Seq<char>> {
    match res {
        Ok(value) => Ok(value@),
        Err(words) => Err(words@),
    }
}

/// A failure as an answer.
pub open spec fn error_json(failure: FailureView) -> JsonView {
    JsonView::object().with("error"@, JsonView::Text(failure.text()))
}

/// A failure as an answer.
pub fn error_document(failure: &Failure) -> (res: Json)
    ensures
        res@ == error_json(failure@),
{
    Json::object().with("error", Json::Text(failure.message()))
}

/// A reader is told why the work did not come to its end: each reason in words of its own, and the
/// answer to a request holds the same words.
pub proof fn law_failures_are_told(failure: FailureView, seconds: u64, words: Seq<char>)
    ensures
        FailureView::Budget.text() == "daily model budget exhausted"@,
        FailureView::Review(words).text() == words,
        FailureView::Outside(words).text() == words,
        FailureView::Later(seconds).text() == "service rate limited; retry after "@ + numeral(
            seconds as nat,
        ) + " seconds"@,
        error_json(failure).get("error"@) == Some(JsonView::Text(failure.text())),
{
    crate::json::lemma_documents();
}

} // verus!
