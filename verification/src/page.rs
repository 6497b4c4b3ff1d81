//! Events surfaced on a page node.

use vstd::prelude::*;

verus! {

/// An event delivered to subscribers of one page node.
pub enum PageEvent {
    /// An uncaught error was reported for the page.
    PageError(String),
}

} // verus!
