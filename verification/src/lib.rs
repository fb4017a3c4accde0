pub mod bootstrap;
pub mod classify;
pub mod comment;
pub mod json;
pub mod text;
pub mod walker;

use vstd::prelude::*;

verus! {

/// The ways a crawl can fail outright. Node-level defects are recovered
/// locally (the node contributes nothing) and never surface here.
#[derive(Clone, Copy, Debug, PartialEq, Eq, Structural)]
pub enum CrawlError {
    /// The bootstrap document yielded no starting continuation token.
    TokenNotFound,
    /// A page request failed in transport or its body was not JSON.
    FetchFailed,
}

impl CrawlError {
    /// A short description for operator-facing messages.
    pub fn describe(&self) -> (r: String)
        ensures
            r@.len() > 0,
            self is TokenNotFound ==> r@ == "no continuation token found in the page"@,
            self is FetchFailed ==> r@ == "a page fetch or its JSON decode failed"@,
    {
        let r = match self {
            CrawlError::TokenNotFound => String::from_str("no continuation token found in the page"),
            CrawlError::FetchFailed => String::from_str("a page fetch or its JSON decode failed"),
        };
        proof {
            reveal_strlit("no continuation token found in the page");
            reveal_strlit("a page fetch or its JSON decode failed");
        }
        r
    }
}

} // verus!
