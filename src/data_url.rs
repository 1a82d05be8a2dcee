//! `data:` URLs that carry a payload in base64, as the chart images are
//! embedded in reports.

use vstd::prelude::*;
use vstd::string::StringExecFns;

verus! {

/// The padded standard base64 encoding of a byte string.
pub uninterp spec fn base64_of(b: Seq<u8>) -> Seq<char>;

/// Length of the padded encoding of `n` bytes: four characters for every
/// three bytes begun.
pub open spec fn base64_len(n: nat) -> nat {
    4 * ((n + 2) / 3)
}

/// Relies on base64's `Engine::encode` with the `STANDARD` engine: the
/// padded encoding, which depends on the bytes alone, of the length that
/// `encoded_len` gives; it panics only where that length overflows `usize`.
#[verifier::external_body]
fn encode_base64(bytes: &[u8]) -> (r: String)
    requires
        base64_len(bytes@.len()) <= usize::MAX,
    ensures
        r@ == base64_of(bytes@),
        r@.len() == base64_len(bytes@.len()),
{
    base64::Engine::encode(&base64::engine::general_purpose::STANDARD, bytes)
}

pub open spec fn data_url_of(mime: Seq<char>, payload: Seq<u8>) -> Seq<char> {
    "data:"@ + mime + ";base64,"@ + base64_of(payload)
}

/// The `data:` URL of `payload` with media type `mime`, in base64.
pub fn data_url(mime: &str, payload: &[u8]) -> (r: String)
    requires
        base64_len(payload@.len()) <= usize::MAX,
    ensures
        r@ == data_url_of(mime@, payload@),
        r@.len() == 13 + mime@.len() + base64_len(payload@.len()),
{
    let encoded = encode_base64(payload);
    let mut url = String::from_str("data:");
    url.append(mime);
    url.append(";base64,");
    url.append(encoded.as_str());
    proof {
        reveal_strlit("data:");
        reveal_strlit(";base64,");
    }
    url
}

} // verus!
