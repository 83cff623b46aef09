//! The exchange's trade records as they arrive, the rows they become, and
//! the ways a fetch can fail.
use crate::text::{decimal_of, push_i64};
use vstd::prelude::*;

verus! {

/// One entry of a trades page, with the exchange's textual fields.
#[derive(Debug, Clone)]
pub struct BybitTrade {
    pub exec_id: String,
    pub symbol: String,
    pub price: String,
    pub size: String,
    pub side: String,
    pub time: String,
    pub is_block_trade: bool,
}

/// The `result` object of a trades page.
#[derive(Debug, Clone)]
pub struct TradeResult {
    pub list: Vec<BybitTrade>,
    pub next_page_cursor: Option<String>,
}

/// The envelope of a trades page: the application return code and message,
/// and the page itself.
#[derive(Debug, Clone)]
pub struct BybitTradeResponse {
    pub ret_code: i32,
    pub ret_msg: String,
    pub result: TradeResult,
}

/// A normalised trade. `size` and `price` are decimal texts that `f64`'s
/// `from_str` reads (see `float_syntax`), kept as the exchange wrote them.
#[derive(Debug, Clone, PartialEq)]
pub struct TradeRow {
    pub timestamp: i64,
    pub symbol: String,
    pub side: String,
    pub size: String,
    pub price: String,
}

/// The numeric fields of a trade entry that are parsed.
#[derive(Debug, Clone, Copy, PartialEq, Eq, Structural)]
pub enum TradeField {
    Timestamp,
    Size,
    Price,
}

/// Why a fetch stopped without its trades.
#[derive(Debug, Clone, PartialEq)]
pub enum FetchError {
    /// The secret could not key the HMAC.
    Signing,
    /// The request could not be sent or its reply not received.
    Transport(String),
    /// HTTP 429 came back more often than the retry budget allows.
    RateLimitExhausted,
    /// Any other status outside `200..=299`.
    Http(u16),
    /// A 2xx body that is not a trades envelope.
    Decode(String),
    /// A 2xx envelope with a non-zero return code.
    Api { code: i32, message: String },
    /// A numeric field of a trade entry that does not parse.
    Parse { field: TradeField, value: String },
}

/// The human-readable text of an error.
pub open spec fn message_of(e: FetchError) -> Seq<char> {
    match e {
        FetchError::Signing => "Failed to create HMAC"@,
        FetchError::Transport(m) => "Request failed: "@ + m@,
        FetchError::RateLimitExhausted => "Rate limited: max retries exceeded"@,
        FetchError::Http(status) => "HTTP error: "@ + decimal_of(status as int),
        FetchError::Decode(m) => "Failed to parse response: "@ + m@,
        FetchError::Api { code, message } => "API error: "@ + decimal_of(code as int) + " - "@
            + message@,
        FetchError::Parse { field, value } => match field {
            TradeField::Timestamp => "Failed to parse timestamp: "@ + value@,
            TradeField::Size => "Failed to parse size: "@ + value@,
            TradeField::Price => "Failed to parse price: "@ + value@,
        },
    }
}

impl FetchError {
    /// The error as a sentence for the caller.
    pub fn message(&self) -> (r: String)
        ensures
            r@ == message_of(*self),
    {
        let mut s = String::new();
        match self {
            FetchError::Signing => s.append("Failed to create HMAC"),
            FetchError::Transport(m) => {
                s.append("Request failed: ");
                s.append(m.as_str());
            },
            FetchError::RateLimitExhausted => s.append("Rate limited: max retries exceeded"),
            FetchError::Http(status) => {
                s.append("HTTP error: ");
                push_i64(&mut s, *status as i64);
            },
            FetchError::Decode(m) => {
                s.append("Failed to parse response: ");
                s.append(m.as_str());
            },
            FetchError::Api { code, message } => {
                s.append("API error: ");
                push_i64(&mut s, *code as i64);
                s.append(" - ");
                s.append(message.as_str());
            },
            FetchError::Parse { field, value } => {
                match field {
                    TradeField::Timestamp => s.append("Failed to parse timestamp: "),
                    TradeField::Size => s.append("Failed to parse size: "),
                    TradeField::Price => s.append("Failed to parse price: "),
                }
                s.append(value.as_str());
            },
        }
        assert(s@ =~= message_of(*self));
        s
    }
}

/// Base URL and credentials for the exchange's REST API.
#[derive(Debug, Clone)]
pub struct BybitTradeHistoryFetcher {
    pub base_url: String,
    pub api_key: String,
    pub secret: String,
}

impl BybitTradeHistoryFetcher {
    pub fn new(base_url: String, api_key: String, secret: String) -> (r: Self)
        ensures
            r.base_url == base_url,
            r.api_key == api_key,
            r.secret == secret,
    {
        BybitTradeHistoryFetcher { base_url, api_key, secret }
    }
}

} // verus!
