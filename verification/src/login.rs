//! Login failures and the tamper-evident redirect built for them: the
//! error page location carries the url-encoded message and an HMAC tag
//! over the query string, so the login page can tell a genuine error
//! message from a forged one.

use hmac::Mac;
use vstd::prelude::*;
use vstd::utf8::encode_utf8;

verus! {

/// What urlencoding::encode returns: the percent-encoding of the string's
/// UTF-8 bytes, a function of the characters alone.
pub uninterp spec fn url_encoded_of(s: Seq<char>) -> Seq<char>;

/// Relies on urlencoding::encode: pure percent-encoding that escapes every
/// byte except ASCII alphanumerics and '-', '_', '.', '~'. Its source
/// leaves an empty string empty.
#[verifier::external_body]
fn url_encode(s: &str) -> (r: String)
    ensures
        r@ == url_encoded_of(s@),
        s@.len() == 0 ==> r@.len() == 0,
{
    urlencoding::encode(s).into_owned()
}

/// What HMAC-SHA-256 produces over a key and a message, written as
/// lowercase hex: a function of the two byte strings alone.
pub uninterp spec fn hmac_sha256_hex_of(key: Seq<u8>, message: Seq<u8>) -> Seq<char>;

/// Relies on hmac::Hmac over sha2::Sha256: the authentication tag of key
/// and message, a pure function of both. Hmac accepts keys of any length,
/// so new_from_slice cannot fail; the 32-byte tag prints as exactly 64
/// lowercase hex digits, two per byte.
#[verifier::external_body]
fn hmac_sha256_hex(key: &[u8], message: &[u8]) -> (r: String)
    ensures
        r@ == hmac_sha256_hex_of(key@, message@),
        r@.len() == 64,
{
    let mut mac: hmac::Hmac<sha2::Sha256> = hmac::Hmac::new_from_slice(key).unwrap();
    mac.update(message);
    let tag = mac.finalize().into_bytes();
    format!("{:x}", tag)
}

/// Why a login attempt failed.
#[derive(Clone, Copy, Debug, PartialEq, Eq, Structural)]
pub enum LoginError {
    /// The credentials were wrong.
    AuthError,
    /// Anything else went wrong while checking them.
    UnexpectedError,
}

impl LoginError {
    /// The user-facing message of this failure.
    pub open spec fn spec_message(self) -> Seq<char> {
        if self is AuthError {
            "Authentication failed"@
        } else {
            "Something went wrong"@
        }
    }

    /// The user-facing message of this failure.
    pub fn message(&self) -> (r: &'static str)
        ensures
            r@ == self.spec_message(),
    {
        match self {
            LoginError::AuthError => "Authentication failed",
            LoginError::UnexpectedError => "Something went wrong",
        }
    }

    /// The status code of the login-error response: a see-other redirect
    /// back to the login page.
    pub fn status_code(&self) -> (r: u16)
        ensures
            r == 303,
    {
        303
    }
}

/// The query string carrying a login error: the url-encoded message under
/// the `error` parameter.
pub open spec fn login_error_query_string(e: LoginError) -> Seq<char> {
    "error="@ + url_encoded_of(e.spec_message())
}

/// The Location of the redirect built for a login failure: the login page
/// with the error query string and an HMAC-SHA-256 tag over it under the
/// given secret, so the page can verify the message was not tampered with.
pub open spec fn login_error_location(e: LoginError, secret: Seq<u8>) -> Seq<char> {
    "/login?error="@ + login_error_query_string(e) + "&tag="@ + hmac_sha256_hex_of(
        secret,
        encode_utf8(login_error_query_string(e)),
    )
}

impl LoginError {
    /// Builds the Location header value of this failure's redirect: the
    /// login page with the url-encoded message and the HMAC tag computed
    /// over the query string with `secret`.
    pub fn error_redirect_location(&self, secret: &[u8]) -> (r: String)
        ensures
            r@ == login_error_location(*self, secret@),
    {
        let message = self.message();
        let encoded = url_encode(message);
        let mut query_string = String::from_str("error=");
        query_string.append(encoded.as_str());
        let tag = hmac_sha256_hex(secret, query_string.as_str().as_bytes());
        let mut location = String::from_str("/login?error=");
        location.append(query_string.as_str());
        location.append("&tag=");
        location.append(tag.as_str());
        proof {
            assert(location@ =~= login_error_location(*self, secret@));
        }
        location
    }
}

} // verus!
