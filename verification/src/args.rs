//! The command line of the browser.

use vstd::prelude::*;

verus! {

/// Browse and vote on images and videos from e621.
pub struct Args {
    /// The configuration profile to use.
    pub profile: String,
    /// Additional tags to add to the search query.
    pub append: Option<String>,
}

} // verus!
