//! Historical public trades from Bybit's v5 REST API: request signing,
//! pagination and rate-limit retry as a state machine, and normalisation of
//! the exchange's textual trade fields into typed rows.
mod fetch;
mod laws;
mod normalize;
mod signer;
mod text;
mod types;

pub use fetch::{
    backoff_ms, backoff_of, handle_spec, initial_state, page_spec, pow2, query_string_of, status_spec,
    step_of, with_phase, Event, FetchState, Phase, SignedRequest, Step, TradeFetch, TradeQuery,
    MAX_RETRIES, PAGE_DELAY_MS, RATE_LIMIT_BACKOFF_MS, REQUEST_TIMEOUT_SECS,
};
pub use laws::{
    answers_request, clean_page, lemma_api_error_is_final, lemma_finished_is_final,
    lemma_rate_limit_exhausted, lemma_rate_limit_recovers, lemma_retry_prefix, lemma_rows_of_entries, lemma_run_one, lemma_run_page,
    lemma_run_append, lemma_pages_concatenate, lemma_pages_prefix, lemma_single_page, cursor_chain, page_events, pages_events, pages_rows, rate_limited, requests, run,
};
pub use normalize::{normalize_trade, normalize_trades, row_of, rows_of};
pub use signer::{hmac_sha256_of, signature_of, signing_payload, trades_path};
pub use text::{
    all_digits, ascii_lower, decimal_of, float_run, float_step, float_syntax, is_float_text, spells, unsigned_part, digits_of, digits_value, format_i64, hex_digit, hex_lower, is_digit,
    lower_hex_of, parse_i64, parsed_i64,
};
pub use types::{
    message_of,
    BybitTrade, BybitTradeHistoryFetcher, BybitTradeResponse, FetchError, TradeField, TradeResult,
    TradeRow,
};
