//! When a request to Spotify fails: which answers count as a client error,
//! and whether to try again.
use vstd::prelude::*;

verus! {

/// The statuses that count as a client error: 400 and 404.
pub open spec fn is_client_error(status: u16) -> bool {
    status == 400 || status == 404
}

/// Whether an answer with `status` counts as a client error.
pub fn is_client_error_status(status: u16) -> (r: bool)
    ensures
        r == is_client_error(status),
        r <==> (status == 400 || status == 404),
{
    status == 400 || status == 404
}

/// What to do when the request failed.
#[derive(PartialEq, Eq, Structural, Clone, Copy, Debug)]
pub enum AfterError {
    /// Report the error.
    GiveUp,
    /// Make the request again.
    Retry,
}

/// The decision after an error, when `count` retries were made so far (0
/// or 1) and the error was a client error or not: a client error after a
/// retry is reported; anything else is tried again.
pub open spec fn decide_after_error(count: u8, client_error: bool) -> AfterError {
    if client_error && count == 1 {
        AfterError::GiveUp
    } else {
        AfterError::Retry
    }
}

/// How many times a request was made again.
pub struct RetryState {
    count: u8,
}

impl RetryState {
    pub closed spec fn spec_count(&self) -> u8 {
        self.count
    }

    /// No retry yet.
    pub fn new() -> (s: Self)
        ensures
            s.spec_count() == 0,
    {
        RetryState { count: 0 }
    }

    /// The number of retries so far, 0 or 1.
    pub fn count(&self) -> (c: u8)
        ensures
            c == self.spec_count(),
    {
        self.count
    }

    /// The request failed; `client_error` tells whether with a client
    /// error. A retry sets the count to 1.
    pub fn on_error(&mut self, client_error: bool) -> (r: AfterError)
        ensures
            r == decide_after_error(old(self).spec_count(), client_error),
            final(self).spec_count() == (if r == AfterError::Retry {
                1
            } else {
                old(self).spec_count()
            }),
    {
        if client_error && self.count == 1 {
            return AfterError::GiveUp;
        }
        self.count = 1;
        AfterError::Retry
    }
}

/// Law: whatever came before, two client errors in a row end in an error
/// report: a client error is retried at most once.
pub proof fn law_client_error_retried_at_most_once(count: u8)
    ensures
        ({
            let first = decide_after_error(count, true);
            let count2: u8 = if first == AfterError::Retry { 1 } else { count };
            first == AfterError::GiveUp || decide_after_error(count2, true) == AfterError::GiveUp
        }),
{
}

/// Law: exactly the statuses 400 (bad request) and 404 (not found) count as
/// client errors; every other status, 403 and 500 among them, does not.
pub proof fn law_client_errors_are_400_and_404(status: u16)
    ensures
        is_client_error(status) <==> (status == 400 || status == 404),
{
}

/// Law: an error that is not a client error is always retried.
pub proof fn law_other_errors_retried(count: u8)
    ensures
        decide_after_error(count, false) == AfterError::Retry,
{
}

} // verus!
