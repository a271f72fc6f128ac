use vstd::prelude::*;

use crate::config::ChainlinkConfig;
use crate::crypto::{default_str_hash, hash_str, hmac_sha256, hmac_sha256_tag};
use crate::json::{json_string_list, string_views, to_json_string_list};
use crate::text::{all_ascii, ascii_chars, string_from_ascii};

verus! {

/// The ASCII code of a lower-case hexadecimal digit.
pub open spec fn hex_digit(v: nat) -> u8 {
    if v < 10 {
        (48 + v) as u8
    } else {
        (87 + v) as u8
    }
}

/// Lower-case hexadecimal encoding, two digits per byte, as ASCII codes.
pub open spec fn hex_bytes(data: Seq<u8>) -> Seq<u8>
    decreases data.len(),
{
    if data.len() == 0 {
        seq![]
    } else {
        hex_bytes(data.drop_last()) + seq![
            hex_digit((data.last() / 16) as nat),
            hex_digit((data.last() % 16) as nat),
        ]
    }
}

proof fn lemma_hex_bytes_len(data: Seq<u8>)
    ensures
        hex_bytes(data).len() == 2 * data.len(),
        all_ascii(hex_bytes(data)),
    decreases data.len(),
{
    if data.len() > 0 {
        lemma_hex_bytes_len(data.drop_last());
    }
}

fn hex_digit_code(v: u8) -> (c: u8)
    requires
        v < 16,
    ensures
        c == hex_digit(v as nat),
{
    if v < 10 {
        48 + v
    } else {
        87 + v
    }
}

/// Lower-case hexadecimal text of `bytes`, two digits per byte.
pub fn hex_encode(bytes: &[u8]) -> (s: String)
    ensures
        s@ == ascii_chars(hex_bytes(bytes@)),
        s@.len() == 2 * bytes@.len(),
{
    let mut out: Vec<u8> = Vec::new();
    let mut i: usize = 0;
    while i < bytes.len()
        invariant
            i <= bytes@.len(),
            out@ == hex_bytes(bytes@.take(i as int)),
        decreases bytes@.len() - i,
    {
        let b = bytes[i];
        out.push(hex_digit_code(b / 16));
        out.push(hex_digit_code(b % 16));
        proof {
            assert(bytes@.take(i + 1).drop_last() =~= bytes@.take(i as int));
        }
        i = i + 1;
    }
    proof {
        assert(bytes@.take(bytes@.len() as int) =~= bytes@);
        lemma_hex_bytes_len(bytes@);
    }
    string_from_ascii(out)
}

/// Feed identifier of a Chainlink feed name.
pub fn hash_feed_id(feed_id: &str) -> (h: u64)
    ensures
        h == default_str_hash(feed_id@),
{
    hash_str(feed_id)
}

/// The signature a Chainlink connection request carries: the HMAC-SHA256
/// of the API key followed by the timestamp, under the HMAC secret, in
/// lower-case hex.
pub open spec fn auth_signature_text(config: ChainlinkConfig, timestamp: Seq<char>) -> Seq<char> {
    ascii_chars(
        hex_bytes(
            hmac_sha256_tag(
                vstd::utf8::encode_utf8(config.hmac_secret@),
                vstd::utf8::encode_utf8(config.api_key@ + timestamp),
            ),
        ),
    )
}

/// The subscription message for the configured feeds.
pub open spec fn subscribe_text(feeds: Seq<String>) -> Seq<char> {
    "{\"feedIDs\":"@ + json_string_list(string_views(feeds)) + ",\"type\":\"subscribe\"}"@
}

/// A Data Streams report as it arrives: the benchmark price stays
/// decimal text.
#[derive(Debug, Clone)]
pub struct ChainlinkReport {
    pub feed_id: String,
    /// Observation time, in seconds since the Unix epoch.
    pub observations_ts: u64,
    pub benchmark_price: String,
}

/// Seconds as microseconds, when that fits a `u64`.
pub open spec fn secs_to_us(secs: u64) -> Option<u64> {
    if secs * 1_000_000 <= u64::MAX {
        Some((secs * 1_000_000) as u64)
    } else {
        None
    }
}

/// The feed identifier and the observation time in microseconds of a
/// report; `None` when the time does not fit in microseconds.
pub fn report_ids(report: &ChainlinkReport) -> (r: Option<(u64, u64)>)
    ensures
        match secs_to_us(report.observations_ts) {
            Some(us) => r == Some((default_str_hash(report.feed_id@), us)),
            None => r is None,
        },
{
    let us = match report.observations_ts.checked_mul(1_000_000) {
        Some(us) => us,
        None => return None,
    };
    Some((hash_feed_id(report.feed_id.as_str()), us))
}

/// Client of the Chainlink Data Streams websocket.
pub struct ChainlinkClient {
    config: ChainlinkConfig,
}

impl ChainlinkClient {
    /// The configuration the client was made with.
    pub closed spec fn config(&self) -> ChainlinkConfig {
        self.config
    }

    pub fn new(config: ChainlinkConfig) -> (c: Self)
        ensures
            c.config() == config,
    {
        ChainlinkClient { config }
    }

    /// The configuration the client was made with.
    pub fn config_ref(&self) -> (c: &ChainlinkConfig)
        ensures
            *c == self.config(),
    {
        &self.config
    }

    /// HMAC-SHA256 of `payload` under the configured secret.
    pub fn compute_hmac(&self, payload: &[u8]) -> (tag: Vec<u8>)
        ensures
            tag@ == hmac_sha256_tag(vstd::utf8::encode_utf8(self.config().hmac_secret@), payload@),
            tag@.len() == 32,
    {
        hmac_sha256(self.config.hmac_secret.as_str().as_bytes(), payload)
    }

    /// Signature of a connection request made at `timestamp` (decimal
    /// seconds since the Unix epoch).
    pub fn auth_signature(&self, timestamp: &str) -> (sig: String)
        ensures
            sig@ == auth_signature_text(self.config(), timestamp@),
    {
        let mut body = self.config.api_key.clone();
        body.append(timestamp);
        let tag = self.compute_hmac(body.as_str().as_bytes());
        hex_encode(tag.as_slice())
    }

    /// The headers of a connection request made at `timestamp`: the API
    /// key, the timestamp and the signature, in that order.
    pub fn auth_headers(&self, timestamp: &str) -> (h: Vec<(&'static str, String)>)
        ensures
            h@.len() == 3,
            h@[0].0@ == "Authorization"@ && h@[0].1@ == self.config().api_key@,
            h@[1].0@ == "X-Authorization-Timestamp"@ && h@[1].1@ == timestamp@,
            h@[2].0@ == "X-Authorization-Signature-SHA256"@ && h@[2].1@ == auth_signature_text(
                self.config(),
                timestamp@,
            ),
    {
        let sig = self.auth_signature(timestamp);
        let mut h: Vec<(&'static str, String)> = Vec::new();
        h.push(("Authorization", self.config.api_key.clone()));
        h.push(("X-Authorization-Timestamp", String::from_str(timestamp)));
        h.push(("X-Authorization-Signature-SHA256", sig));
        h
    }

    /// The message that subscribes to the configured feeds.
    pub fn subscribe_message(&self) -> (msg: String)
        ensures
            msg@ == subscribe_text(self.config().feeds@),
    {
        let mut msg = String::from_str("{\"feedIDs\":");
        let list = to_json_string_list(&self.config.feeds);
        msg.append(list.as_str());
        msg.append(",\"type\":\"subscribe\"}");
        msg
    }
}

} // verus!
