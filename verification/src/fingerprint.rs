//! Privacy-preserving user fingerprints: a SHA-256 digest of the
//! client's identifying strings, rendered URL-safe for transport.

use vstd::prelude::*;
use vstd::string::{StrSliceExecFns, StringExecFns, StringSliceAdditionalSpecFns};

verus! {

/// What SHA-256 digests the given bytes to.
pub uninterp spec fn sha256_of(bytes: Seq<u8>) -> Seq<u8>;

/// Relies on sha2's `Sha256`: the digest depends on the input bytes
/// alone, and is 32 bytes long.
#[verifier::external_body]
fn sha256(bytes: &Vec<u8>) -> (r: Vec<u8>)
    ensures
        r@ == sha256_of(bytes@),
        r@.len() == 32,
{
    <sha2::Sha256 as sha2::Digest>::digest(bytes.as_slice()).to_vec()
}

/// What base64's URL-safe alphabet (with padding) encodes the given
/// bytes to.
pub uninterp spec fn base64_url_of(bytes: Seq<u8>) -> Seq<char>;

/// Relies on base64's `URL_SAFE` engine: the encoding depends on the
/// bytes alone.
#[verifier::external_body]
fn base64_url(bytes: &Vec<u8>) -> (r: String)
    ensures
        r@ == base64_url_of(bytes@),
{
    base64::Engine::encode(&base64::engine::general_purpose::URL_SAFE, bytes.as_slice())
}

/// A server-side fingerprint: the URL-safe encoding of the SHA-256
/// digest of the client address's bytes followed by the user agent's
/// bytes, when one is known.
pub fn generate_server_fingerprint(ip: &str, user_agent: Option<&str>) -> (r: String)
    ensures
        user_agent matches Some(ua) ==> r@ == base64_url_of(
            sha256_of(ip.spec_bytes() + ua.spec_bytes()),
        ),
        user_agent is None ==> r@ == base64_url_of(sha256_of(ip.spec_bytes())),
{
    let mut bytes = ip.as_bytes_vec();
    match user_agent {
        Some(ua) => {
            let mut more = ua.as_bytes_vec();
            bytes.append(&mut more);
        }
        None => {}
    }
    let digest = sha256(&bytes);
    base64_url(&digest)
}

/// A browser-side fingerprint: the same digest-and-encode pipeline
/// over the user agent, platform and language strings, joined with a
/// dash between each.
pub fn generate_browser_fingerprint(user_agent: &str, platform: &str, language: &str) -> (r:
    String)
    ensures
        r@ == base64_url_of(
            sha256_of(
                vstd::utf8::encode_utf8(
                    user_agent@ + "-"@ + platform@ + "-"@ + language@,
                ),
            ),
        ),
{
    let mut joined = user_agent.to_owned();
    joined.append("-");
    joined.append(platform);
    joined.append("-");
    joined.append(language);
    let bytes = joined.as_str().as_bytes_vec();
    let digest = sha256(&bytes);
    base64_url(&digest)
}

} // verus!
