//! Counting the requests that were served, and answering the request for
//! the count.

use crate::statement::{decimal, render_decimal};
use vstd::prelude::*;

verus! {

/// The path under which the count is served.
pub const COUNT_PATH: &'static str = "/count";

/// The parts of the answer around the two names and the count.
pub const COUNT_HEAD: &'static str = "Requests served from ";

pub const COUNT_NODE: &'static str = " on node ";

pub const COUNT_SEP: &'static str = ": ";

pub const LINE_END: &'static str = "\n";

/// Counts requests. The count wraps around at the largest `usize`.
#[derive(Debug)]
pub struct Counter {
    requests_served: usize,
}

impl View for Counter {
    type V = usize;

    closed spec fn view(&self) -> usize {
        self.requests_served
    }
}

/// The count after one more request.
pub open spec fn count_after(count: usize) -> usize {
    if count == usize::MAX {
        0
    } else {
        (count + 1) as usize
    }
}

/// Whether a response is replaced by the count: only one that found
/// nothing, to a GET of the count's path.
pub open spec fn answers_count(not_found: bool, is_get: bool, path: Seq<char>) -> bool {
    not_found && is_get && path == COUNT_PATH@
}

/// The text that reports `count` requests served by `hostname` on
/// `nodename`.
pub open spec fn count_body(hostname: Seq<char>, nodename: Seq<char>, count: usize) -> Seq<char> {
    COUNT_HEAD@ + hostname + COUNT_NODE@ + nodename + COUNT_SEP@ + decimal(count as nat)
        + LINE_END@
}

impl Default for Counter {
    fn default() -> (c: Counter)
        ensures
            c@ == 0,
    {
        Counter { requests_served: 0 }
    }
}

impl Counter {
    /// The number of requests counted so far.
    pub fn count(&self) -> (n: usize)
        ensures
            n == self@,
    {
        self.requests_served
    }

    /// Counts one request.
    pub fn on_request(&mut self)
        ensures
            final(self)@ == count_after(old(self)@),
    {
        if self.requests_served == usize::MAX {
            self.requests_served = 0;
        } else {
            self.requests_served = self.requests_served + 1;
        }
    }

    /// The body that takes the place of a response, if it is to be
    /// replaced: the report of the count for a GET of the count's path
    /// that found nothing. The count itself is left as it is.
    pub fn on_response(
        &self,
        not_found: bool,
        is_get: bool,
        path: &str,
        hostname: &str,
        nodename: &str,
    ) -> (body: Option<String>)
        ensures
            body is Some <==> answers_count(not_found, is_get, path@),
            body matches Some(text) ==> text@ == count_body(hostname@, nodename@, self@),
    {
        if !not_found {
            return None;
        }
        if is_get && path.to_owned() == String::from_str(COUNT_PATH) {
            let mut text = String::from_str(COUNT_HEAD);
            text.append(hostname);
            text.append(COUNT_NODE);
            text.append(nodename);
            text.append(COUNT_SEP);
            let number = render_decimal(self.requests_served as u64);
            text.append(number.as_str());
            text.append(LINE_END);
            Some(text)
        } else {
            None
        }
    }
}

} // verus!
