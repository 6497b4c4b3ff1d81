//! An uncaught page error surfaced on a browsing context: the page it came
//! from, when that page is still live, and its printable text.

use vstd::prelude::*;

verus! {

/// One uncaught error, with the guid of the page it came from when known.
pub struct WebError {
    pub page: Option<String>,
    pub error: String,
}

impl WebError {
    /// Wrap an error with its page.
    pub fn new(page: Option<String>, error: String) -> (r: WebError)
        ensures
            r.page == page,
            r.error == error,
    {
        WebError { page, error }
    }

    /// The guid of the page the error came from, when it was still live.
    pub fn page(&self) -> (r: &Option<String>)
        ensures
            r == self.page,
    {
        &self.page
    }

    /// The error's printable text.
    pub fn error(&self) -> (r: &String)
        ensures
            r == self.error,
    {
        &self.error
    }
}

} // verus!
