//! The validated email address of a subscriber.

use vstd::prelude::*;

verus! {

/// What `validator::validate_email` holds of a string: whether it is a
/// valid email address under the HTML5 rule. The verdict depends on the
/// string's characters alone.
pub uninterp spec fn email_is_valid(s: Seq<char>) -> bool;

/// Relies on validator::validate_email, a pure check of the characters
/// against the HTML5 email rule. Its source rejects the empty string and
/// any string without an '@' outright.
#[verifier::external_body]
fn validate_email_str(s: &str) -> (r: bool)
    ensures
        r == email_is_valid(s@),
        s@.len() == 0 ==> !r,
        (forall|i: int| 0 <= i < s@.len() ==> s@[i] != '@') ==> !r,
{
    validator::validate_email(s)
}

/// An email address that passed validation. Immutable once constructed.
#[derive(Debug)]
pub struct SubscriberEmail(String);

impl View for SubscriberEmail {
    type V = Seq<char>;

    closed spec fn view(&self) -> Seq<char> {
        self.0@
    }
}

impl SubscriberEmail {
    /// Validates and wraps an email address. Returns the wrapped address
    /// exactly when the string is a valid email, and otherwise an error
    /// message naming the rejected string.
    pub fn parse(s: String) -> (r: Result<SubscriberEmail, String>)
        ensures
            r is Ok <==> email_is_valid(s@),
            r is Ok ==> r->Ok_0@ == s@,
            r is Err ==> r->Err_0@ == s@ + " is not a valid subscriber email."@,
    {
        if validate_email_str(s.as_str()) {
            Ok(SubscriberEmail(s))
        } else {
            Err(s.concat(" is not a valid subscriber email."))
        }
    }

    /// The address's characters.
    pub fn as_ref(&self) -> (r: &str)
        ensures
            r@ == self@,
    {
        self.0.as_str()
    }
}

} // verus!
