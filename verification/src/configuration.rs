//! The runtime environment the application can be configured for.

use vstd::prelude::*;

verus! {

/// What str::to_lowercase returns: the Unicode lowercase equivalent of the
/// string, a function of its characters alone.
pub uninterp spec fn lowercase_of(s: Seq<char>) -> Seq<char>;

/// Relies on str::to_lowercase: the lowercase equivalent of the string,
/// per the Unicode Lowercase property, depending on the characters alone.
#[verifier::external_body]
fn lowercase(s: &str) -> (r: String)
    ensures
        r@ == lowercase_of(s@),
{
    s.to_lowercase()
}

/// The possible runtime environments of the application.
#[derive(Clone, Copy, Debug, PartialEq, Eq, Structural)]
pub enum Environment {
    Local,
    Dev,
    Production,
}

impl Environment {
    /// The environment's name, as it appears in configuration file names.
    pub fn as_str(&self) -> (r: &'static str)
        ensures
            self is Local ==> r@ == "local"@,
            self is Dev ==> r@ == "dev"@,
            self is Production ==> r@ == "production"@,
    {
        match self {
            Environment::Local => "local",
            Environment::Dev => "dev",
            Environment::Production => "production",
        }
    }

    /// Parses an environment name, ignoring case: exactly the lowercase
    /// forms "local", "dev" and "production" are accepted; anything else
    /// is rejected with a message naming the unsupported value.
    pub fn try_from(value: &str) -> (r: Result<Environment, String>)
        ensures
            lowercase_of(value@) == "local"@ ==> r == Ok::<Environment, String>(
                Environment::Local,
            ),
            lowercase_of(value@) == "dev"@ ==> r == Ok::<Environment, String>(Environment::Dev),
            lowercase_of(value@) == "production"@ ==> r == Ok::<Environment, String>(
                Environment::Production,
            ),
            lowercase_of(value@) != "local"@ && lowercase_of(value@) != "dev"@ && lowercase_of(
                value@,
            ) != "production"@ ==> r is Err && r->Err_0@ == lowercase_of(value@)
                + " is not a supported environment. Use either 'local' or 'dev' or 'production'."@,
    {
        proof {
            reveal_strlit("local");
            reveal_strlit("dev");
            reveal_strlit("production");
            assert("local"@.len() == 5);
            assert("dev"@.len() == 3);
            assert("production"@.len() == 10);
            assert("local"@ != "dev"@ && "local"@ != "production"@ && "dev"@
                != "production"@);
        }
        let lower = lowercase(value);
        if lower == String::from_str("local") {
            Ok(Environment::Local)
        } else if lower == String::from_str("dev") {
            Ok(Environment::Dev)
        } else if lower == String::from_str("production") {
            Ok(Environment::Production)
        } else {
            Err(
                lower.concat(
                    " is not a supported environment. Use either 'local' or 'dev' or 'production'.",
                ),
            )
        }
    }
}

} // verus!
