//! The decisions of the client's two helpers that loop: polling the health
//! endpoint until a deadline, and walking the pages of the validator set.
//! Each is a step from the state and what came back to the next action;
//! the caller sends the requests and sleeps.

use crate::error::{Code, Error};
use crate::text::{decimal, push_decimal};
use vstd::prelude::*;
use vstd::string::StringExecFns;

verus! {

/// The pause between two probes of the health endpoint, in milliseconds.
pub const POLL_INTERVAL_MILLIS: u128 = 200;

/// The number of pages after which a walk gives up on a peer whose total
/// is never reached.
pub const MAX_PAGES: u64 = 10_000;

/// The message of the error for a health poll that ran out of time.
pub open spec fn timed_out_message(timeout_millis: nat) -> Seq<char> {
    "timed out waiting for healthy response after "@ + decimal(timeout_millis) + "ms"@
}

/// The message of the error for a walk that reached the page cap.
pub open spec fn page_cap_message() -> Seq<char> {
    "gave up fetching pages: the reported total was never reached"@
}

/// What to do after a probe of the health endpoint.
#[derive(Debug, Clone, PartialEq, Eq)]
pub enum PollStep {
    /// The probe succeeded: the wait is over.
    Healthy,
    /// Sleep for one interval, then probe again.
    Retry,
    /// The deadline has passed: fail with this error.
    TimedOut(Error),
}

/// A wait for a healthy peer: the deadline and the probes still allowed
/// after a failed one.
#[derive(Debug, Clone, PartialEq, Eq)]
pub struct HealthPoll {
    timeout_millis: u128,
    attempts_remaining: u128,
}

impl HealthPoll {
    /// The deadline, in contracts.
    pub closed spec fn spec_timeout_millis(&self) -> nat {
        self.timeout_millis as nat
    }

    /// The retries left, in contracts.
    pub closed spec fn spec_attempts_remaining(&self) -> nat {
        self.attempts_remaining as nat
    }

    /// A wait of at most `timeout_millis`: one retry for each whole
    /// interval that fits in it.
    pub fn new(timeout_millis: u128) -> (p: HealthPoll)
        ensures
            p.spec_timeout_millis() == timeout_millis,
            p.spec_attempts_remaining() == timeout_millis as nat / (POLL_INTERVAL_MILLIS as nat),
    {
        HealthPoll { timeout_millis, attempts_remaining: timeout_millis / POLL_INTERVAL_MILLIS }
    }

    /// The retries left.
    pub fn attempts_remaining(&self) -> (n: u128)
        ensures
            n == self.spec_attempts_remaining(),
    {
        self.attempts_remaining
    }

    /// Decides what follows a probe. A healthy answer ends the wait. A
    /// failed one uses up a retry, and with none left the wait fails with a
    /// `ClientInternalError` that names the deadline.
    pub fn step(&mut self, healthy: bool) -> (r: PollStep)
        ensures
            final(self).spec_timeout_millis() == old(self).spec_timeout_millis(),
            healthy ==> r == PollStep::Healthy && *final(self) == *old(self),
            !healthy && old(self).spec_attempts_remaining() > 0 ==> r == PollStep::Retry
                && final(self).spec_attempts_remaining() == old(self).spec_attempts_remaining() - 1,
            !healthy && old(self).spec_attempts_remaining() == 0 ==> *final(self) == *old(self)
                && r is TimedOut && r->TimedOut_0.spec_code() == Code::ClientInternalError
                && r->TimedOut_0.spec_message() == timed_out_message(
                old(self).spec_timeout_millis(),
            ),
    {
        if healthy {
            PollStep::Healthy
        } else if self.attempts_remaining == 0 {
            let mut message = String::from_str("timed out waiting for healthy response after ");
            push_decimal(&mut message, self.timeout_millis);
            message.append("ms");
            PollStep::TimedOut(Error::client_internal_error(message.as_str()))
        } else {
            self.attempts_remaining = self.attempts_remaining - 1;
            PollStep::Retry
        }
    }
}

/// Which part of a paged answer to ask for.
#[derive(Debug, Clone, Copy, PartialEq, Eq, Structural)]
pub enum Paging {
    /// What the peer gives when asked for no page in particular.
    Default,
    /// One page of a given size.
    Specific { page_number: u64, per_page: u8 },
    /// Every item, page after page.
    All,
}

/// The validators that one page holds when all pages are walked.
pub const DEFAULT_VALIDATORS_PER_PAGE: u8 = 30;

/// The page parameters of a request.
#[derive(Debug, Clone, Copy, PartialEq, Eq, Structural)]
pub struct PageRequest {
    pub page_number: Option<u64>,
    pub per_page: Option<u8>,
}

impl Paging {
    /// The page parameters of the first request: none by default, the given
    /// ones for a specific page, and page one of the default size when
    /// every page is walked.
    pub fn first_request(&self) -> (r: PageRequest)
        ensures
            r == (match *self {
                Paging::Default => PageRequest { page_number: None, per_page: None },
                Paging::Specific { page_number, per_page } => PageRequest {
                    page_number: Some(page_number),
                    per_page: Some(per_page),
                },
                Paging::All => PageRequest {
                    page_number: Some(1),
                    per_page: Some(DEFAULT_VALIDATORS_PER_PAGE),
                },
            }),
    {
        match *self {
            Paging::Default => PageRequest { page_number: None, per_page: None },
            Paging::Specific { page_number, per_page } => PageRequest {
                page_number: Some(page_number),
                per_page: Some(per_page),
            },
            Paging::All => PageRequest {
                page_number: Some(1),
                per_page: Some(DEFAULT_VALIDATORS_PER_PAGE),
            },
        }
    }
}

/// What to do after a page has come in.
#[derive(Debug, Clone, PartialEq, Eq)]
pub enum PageStep {
    /// As many items are in hand as the peer says there are.
    Done,
    /// Ask for this page next.
    Fetch(PageRequest),
    /// The page cap is reached: fail with this error.
    GiveUp(Error),
}

/// A walk over all pages: the page last asked for and the number of items
/// in hand.
#[derive(Debug, Clone, Copy, PartialEq, Eq, Structural)]
pub struct PageWalk {
    page: u64,
    collected: u64,
}

impl PageWalk {
    /// The page last asked for, in contracts.
    pub closed spec fn spec_page(&self) -> nat {
        self.page as nat
    }

    /// The number of items in hand, in contracts.
    pub closed spec fn spec_collected(&self) -> nat {
        self.collected as nat
    }

    /// A walk that has asked for page one and holds nothing yet.
    pub fn new() -> (w: PageWalk)
        ensures
            w.spec_page() == 1,
            w.spec_collected() == 0,
    {
        PageWalk { page: 1, collected: 0 }
    }

    /// The page last asked for.
    pub fn page(&self) -> (p: u64)
        ensures
            p == self.spec_page(),
    {
        self.page
    }

    /// The number of items in hand.
    pub fn collected(&self) -> (n: u64)
        ensures
            n == self.spec_collected(),
    {
        self.collected
    }

    /// Decides what follows a page of `received` items from a peer that
    /// reports `total` items in all. The items are added to those in hand;
    /// the walk is done when their number equals the total. Otherwise the
    /// next page is asked for, unless the cap on pages is reached or the
    /// count would no longer fit.
    pub fn step(&mut self, received: u64, total: i32) -> (r: PageStep)
        ensures
            ({
                let sum = old(self).spec_collected() + received;
                let page = old(self).spec_page();
                if sum == total {
                    &&& r == PageStep::Done
                    &&& final(self).spec_collected() == sum
                    &&& final(self).spec_page() == page
                } else if page >= MAX_PAGES || sum > u64::MAX {
                    &&& *final(self) == *old(self)
                    &&& r is GiveUp
                    &&& r->GiveUp_0.spec_code() == Code::ClientInternalError
                    &&& r->GiveUp_0.spec_message() == page_cap_message()
                } else {
                    &&& final(self).spec_collected() == sum
                    &&& final(self).spec_page() == page + 1
                    &&& r == PageStep::Fetch(
                        PageRequest {
                            page_number: Some((page + 1) as u64),
                            per_page: Some(DEFAULT_VALIDATORS_PER_PAGE),
                        },
                    )
                }
            }),
    {
        let sum = self.collected.checked_add(received);
        match sum {
            Some(sum) => {
                if total >= 0 && sum == total as u64 {
                    self.collected = sum;
                    PageStep::Done
                } else if self.page >= MAX_PAGES {
                    PageStep::GiveUp(PageWalk::cap_error())
                } else {
                    self.collected = sum;
                    self.page = self.page + 1;
                    PageStep::Fetch(
                        PageRequest {
                            page_number: Some(self.page),
                            per_page: Some(DEFAULT_VALIDATORS_PER_PAGE),
                        },
                    )
                }
            },
            None => PageStep::GiveUp(PageWalk::cap_error()),
        }
    }

    fn cap_error() -> (e: Error)
        ensures
            e.spec_code() == Code::ClientInternalError,
            e.spec_message() == page_cap_message(),
    {
        Error::client_internal_error("gave up fetching pages: the reported total was never reached")
    }
}

} // verus!
