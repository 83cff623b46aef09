//! The request signature: HMAC-SHA256 over timestamp, method, path, query
//! and receive window, in lower-case hexadecimal.
use crate::text::{decimal_of, hex_lower, lower_hex_of, push_i64};
use crate::types::{BybitTradeHistoryFetcher, FetchError};
use vstd::prelude::*;
use vstd::utf8::encode_utf8;

verus! {

/// The HMAC-SHA256 tag of `msg` under `key`.
pub uninterp spec fn hmac_sha256_of(key: Seq<u8>, msg: Seq<u8>) -> Seq<u8>;

/// Relies on hmac's `Hmac<Sha256>` over sha2's SHA-256: `new_from_slice`,
/// which takes a key of any length, then `update` with `msg` and `finalize`,
/// whose tag is 32 bytes.
#[verifier::external_body]
fn hmac_sha256(key: &[u8], msg: &[u8]) -> (r: Option<Vec<u8>>)
    ensures
        r is Some,
        r matches Some(t) ==> t@ == hmac_sha256_of(key@, msg@) && t@.len() == 32,
{
    let mut mac = <hmac::Hmac<sha2::Sha256> as hmac::Mac>::new_from_slice(key).ok()?;
    hmac::Mac::update(&mut mac, msg);
    Some(hmac::Mac::finalize(mac).into_bytes().to_vec())
}

/// The endpoint that is signed and requested.
pub open spec fn trades_path() -> Seq<char> {
    "/v5/market/trades"@
}

/// The text that is signed: timestamp, `GET`, path, query string and the
/// receive window, with nothing between them.
pub open spec fn signing_payload(query: Seq<char>, timestamp: int) -> Seq<char> {
    decimal_of(timestamp) + "GET"@ + trades_path() + query + "5000"@
}

/// The signature for `query` at `timestamp` under `secret`.
pub open spec fn signature_of(secret: Seq<char>, query: Seq<char>, timestamp: int) -> Seq<char> {
    lower_hex_of(hmac_sha256_of(encode_utf8(secret), encode_utf8(signing_payload(query, timestamp))))
}

impl BybitTradeHistoryFetcher {
    /// Signs a query string at a timestamp (milliseconds) with this
    /// fetcher's secret. The result depends on these three alone.
    pub fn sign_request(&self, query_string: &str, timestamp: i64) -> (r: Result<String, FetchError>)
        ensures
            r matches Ok(sig) && sig@ == signature_of(self.secret@, query_string@, timestamp as int),
            r matches Ok(sig) && sig@.len() == 64,
    {
        let mut payload = String::new();
        push_i64(&mut payload, timestamp);
        payload.append("GET");
        payload.append("/v5/market/trades");
        payload.append(query_string);
        payload.append("5000");
        assert(payload@ =~= signing_payload(query_string@, timestamp as int));
        match hmac_sha256(self.secret.as_str().as_bytes(), payload.as_str().as_bytes()) {
            Some(tag) => Ok(hex_lower(tag.as_slice())),
            None => Err(FetchError::Signing),
        }
    }
}

} // verus!
