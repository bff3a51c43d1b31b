//! CAPTCHA configuration: a verifier holds the shared secret, or none
//! at all, in which case verification is disabled. The network call
//! itself belongs to the surrounding layer.

use vstd::prelude::*;

verus! {

/// What `str::trim` returns for the given characters.
pub uninterp spec fn trimmed_of(s: Seq<char>) -> Seq<char>;

/// Relies on str::trim: the result depends on the characters alone.
#[verifier::external_body]
fn trim(s: &str) -> (r: &str)
    ensures
        r@ == trimmed_of(s@),
{
    s.trim()
}

/// Holds the CAPTCHA service's shared secret, where one is configured.
#[derive(Debug, Clone)]
pub struct CaptchaVerifier {
    secret: Option<String>,
}

impl CaptchaVerifier {
    /// The configured secret: `None` disables verification.
    pub closed spec fn secret_view(self) -> Option<Seq<char>> {
        match self.secret {
            Some(s) => Some(s@),
            None => None,
        }
    }

    /// A verifier with no secret: verification disabled.
    pub fn new() -> (r: CaptchaVerifier)
        ensures
            r.secret_view() is None,
    {
        CaptchaVerifier { secret: None }
    }

    /// A verifier from a configured secret. A secret that is blank
    /// once trimmed counts as absent, disabling verification.
    pub fn new_with_secret(secret: String) -> (r: CaptchaVerifier)
        ensures
            trimmed_of(secret@).len() == 0 ==> r.secret_view() is None,
            trimmed_of(secret@).len() != 0 ==> (r.secret_view() matches Some(s) && s == secret@),
    {
        if trim(secret.as_str()).is_empty() {
            CaptchaVerifier { secret: None }
        } else {
            CaptchaVerifier { secret: Some(secret) }
        }
    }

    /// The configured secret, for the layer that makes the
    /// verification call.
    pub fn secret(&self) -> (r: &Option<String>)
        ensures
            r matches Some(s) ==> self.secret_view() matches Some(v) && v == s@,
            r is None <==> self.secret_view() is None,
    {
        &self.secret
    }
}

} // verus!
