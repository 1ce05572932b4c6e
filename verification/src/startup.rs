//! Values the application shares with its request handlers.

use vstd::prelude::*;

verus! {

/// The application's public base url, wrapped in its own type so that it
/// cannot be confused with any other string in shared state.
#[derive(Debug)]
pub struct ApplicationBaseUrl(pub String);

impl View for ApplicationBaseUrl {
    type V = Seq<char>;

    open spec fn view(&self) -> Seq<char> {
        self.0@
    }
}

impl ApplicationBaseUrl {
    /// The url's characters.
    pub fn as_ref(&self) -> (r: &str)
        ensures
            r@ == self@,
    {
        self.0.as_str()
    }
}

} // verus!
