//! The decisions of fetching from a list of mirrors: which mirror to try
//! next, whether to pause first, and which failure to report once all have
//! failed. Performing a request is left to the caller.

use vstd::prelude::*;

verus! {

/// Why fetching failed, as reported once every mirror has been tried.
#[derive(Clone, Debug, PartialEq, Eq)]
pub enum FetchFailure {
    /// No mirror was tried.
    NoUrlsTried,
    /// The request could not be performed.
    Network(String),
    /// The server answered with a status other than success.
    Status(u16),
    /// The answer carried an error of the API.
    Api { description: String, code: String },
}

/// How one attempt that did not produce data ended.
#[derive(Clone, Debug)]
pub enum AttemptResult {
    NetworkError(String),
    BadStatus(u16),
    ApiError { description: String, code: String },
    /// A successful answer with neither data nor an error.
    NoResult,
}

/// What to do next.
#[derive(Clone, Copy, Debug, PartialEq, Eq, Structural)]
pub enum RetryAction {
    /// Try this mirror, pausing for a second first where it is not the first.
    Attempt { mirror: usize, pause_first: bool },
    /// Every mirror has been tried: report the last failure.
    GiveUp,
}

/// Progress through the mirrors.
#[derive(Clone, Debug)]
pub struct MirrorRetry {
    pub next: usize,
    pub mirrors: usize,
    pub last_error: FetchFailure,
}

/// The failure remembered after an attempt: the attempt's own, except that
/// an answer with neither data nor error keeps the earlier one.
pub open spec fn failure_after(prev: FetchFailure, result: AttemptResult) -> FetchFailure {
    match result {
        AttemptResult::NetworkError(e) => FetchFailure::Network(e),
        AttemptResult::BadStatus(s) => FetchFailure::Status(s),
        AttemptResult::ApiError { description, code } => FetchFailure::Api { description, code },
        AttemptResult::NoResult => prev,
    }
}

impl MirrorRetry {
    /// Nothing tried yet among `mirrors` mirrors.
    pub fn new(mirrors: usize) -> (r: MirrorRetry)
        ensures
            r.next == 0,
            r.mirrors == mirrors,
            r.last_error == FetchFailure::NoUrlsTried,
    {
        MirrorRetry { next: 0, mirrors, last_error: FetchFailure::NoUrlsTried }
    }

    /// The next step: the next untried mirror in order, or giving up.
    pub fn next_action(&self) -> (r: RetryAction)
        ensures
            r == if self.next < self.mirrors {
                RetryAction::Attempt { mirror: self.next, pause_first: self.next > 0 }
            } else {
                RetryAction::GiveUp
            },
    {
        if self.next < self.mirrors {
            RetryAction::Attempt { mirror: self.next, pause_first: self.next > 0 }
        } else {
            RetryAction::GiveUp
        }
    }

    /// Records how the attempt at the next mirror ended.
    pub fn record(&mut self, result: AttemptResult)
        requires
            old(self).next < old(self).mirrors,
        ensures
            final(self).next == old(self).next + 1,
            final(self).mirrors == old(self).mirrors,
            final(self).last_error == failure_after(old(self).last_error, result),
    {
        self.next = self.next + 1;
        match result {
            AttemptResult::NetworkError(e) => self.last_error = FetchFailure::Network(e),
            AttemptResult::BadStatus(s) => self.last_error = FetchFailure::Status(s),
            AttemptResult::ApiError { description, code } => {
                self.last_error = FetchFailure::Api { description, code };
            },
            AttemptResult::NoResult => {},
        }
    }
}

} // verus!
