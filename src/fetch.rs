//! One fetch of a trade window as a state machine: the caller sends the
//! requests, reads the replies and sleeps; the machine decides what comes
//! next from each reply.
use crate::normalize::{normalize_trades, rows_of};
use crate::signer::{signature_of, trades_path};
use crate::text::{decimal_of, push_i64};
use crate::types::{
    BybitTradeHistoryFetcher, BybitTradeResponse, FetchError, TradeRow,
};
use vstd::prelude::*;

verus! {

/// How many times one page is asked for again after HTTP 429.
pub const MAX_RETRIES: u32 = 5;

/// The wait before the first retry of a page; each further retry doubles it.
pub const RATE_LIMIT_BACKOFF_MS: u64 = 50;

/// The wait before the request for the next page.
pub const PAGE_DELAY_MS: u64 = 50;

/// How long one request may take before it counts as a transport failure.
pub const REQUEST_TIMEOUT_SECS: u64 = 10;

pub open spec fn pow2(n: nat) -> nat
    decreases n,
{
    if n == 0 {
        1
    } else {
        2 * pow2((n - 1) as nat)
    }
}

/// The wait before retry number `retry` (from 1): 50, 100, 200, 400, 800 ms.
pub open spec fn backoff_of(retry: nat) -> nat {
    (RATE_LIMIT_BACKOFF_MS * pow2((retry - 1) as nat)) as nat
}

/// The wait in milliseconds before retry number `retry`.
pub fn backoff_ms(retry: u32) -> (r: u64)
    requires
        1 <= retry <= MAX_RETRIES,
    ensures
        r == backoff_of(retry as nat),
{
    proof {
        reveal_with_fuel(pow2, 5);
    }
    if retry == 1 {
        50
    } else if retry == 2 {
        100
    } else if retry == 3 {
        200
    } else if retry == 4 {
        400
    } else {
        800
    }
}

/// What the caller does next.
#[derive(Debug, Clone, Copy, PartialEq, Eq, Structural)]
pub enum Step {
    /// Wait `delay_ms`, then send the request for the current page and
    /// report its status (or its transport failure).
    Send { delay_ms: u64 },
    /// Read the reply's body and report it, decoded or not.
    ReadBody,
    /// Finished: the trades are complete.
    Done,
    /// Finished: the fetch failed.
    Failed,
}

/// Where a fetch stands.
#[derive(Debug, Clone, PartialEq)]
pub enum Phase {
    Sending { delay_ms: u64 },
    ReadingBody,
    Done,
    Failed(FetchError),
}

/// What the caller reports back.
#[derive(Debug)]
pub enum Event {
    /// The HTTP status of the reply to the request just sent.
    Status(u16),
    /// The request could not be sent or timed out.
    Transport(String),
    /// The reply's body, decoded as a trades envelope, or why it was not.
    Body(Result<BybitTradeResponse, String>),
}

/// The window and page size that a fetch asks for.
#[derive(Debug, Clone)]
pub struct TradeQuery {
    pub symbol: String,
    pub start_time: i64,
    pub end_time: i64,
    pub limit: i32,
}

/// The changing part of a fetch: the page cursor, the retries spent on the
/// current page, the trades gathered so far and the phase.
pub struct FetchState {
    pub cursor: Option<String>,
    pub retries: u32,
    pub trades: Seq<TradeRow>,
    pub phase: Phase,
}

pub open spec fn step_of(p: Phase) -> Step {
    match p {
        Phase::Sending { delay_ms } => Step::Send { delay_ms },
        Phase::ReadingBody => Step::ReadBody,
        Phase::Done => Step::Done,
        Phase::Failed(_) => Step::Failed,
    }
}

/// A fresh fetch: no cursor, no retries, no trades, first request due now.
pub open spec fn initial_state() -> FetchState {
    FetchState { cursor: None, retries: 0, trades: Seq::empty(), phase: Phase::Sending { delay_ms: 0 } }
}

pub open spec fn with_phase(s: FetchState, phase: Phase) -> FetchState {
    FetchState { cursor: s.cursor, retries: s.retries, trades: s.trades, phase }
}

/// A decoded 2xx page: an application error fails the fetch; else its
/// rows are appended, and a cursor leads to the next page after a pause,
/// with the retry count back at zero; no cursor ends the fetch.
pub open spec fn page_spec(s: FetchState, resp: BybitTradeResponse) -> FetchState {
    if resp.ret_code != 0 {
        with_phase(s, Phase::Failed(FetchError::Api { code: resp.ret_code, message: resp.ret_msg }))
    } else {
        match rows_of(resp.result.list@) {
            Err(e) => with_phase(s, Phase::Failed(e)),
            Ok(rows) => match resp.result.next_page_cursor {
                Some(c) => FetchState {
                    cursor: Some(c),
                    retries: 0,
                    trades: s.trades + rows,
                    phase: Phase::Sending { delay_ms: PAGE_DELAY_MS },
                },
                None => FetchState {
                    cursor: s.cursor,
                    retries: s.retries,
                    trades: s.trades + rows,
                    phase: Phase::Done,
                },
            },
        }
    }
}

/// The status of a reply: 429 retries the same page while the budget
/// lasts, any other status outside `200..=299` fails, a 2xx asks for the
/// body.
pub open spec fn status_spec(s: FetchState, code: u16) -> FetchState {
    if code == 429 {
        if s.retries < MAX_RETRIES {
            FetchState {
                cursor: s.cursor,
                retries: (s.retries + 1) as u32,
                trades: s.trades,
                phase: Phase::Sending { delay_ms: backoff_of((s.retries + 1) as nat) as u64 },
            }
        } else {
            with_phase(s, Phase::Failed(FetchError::RateLimitExhausted))
        }
    } else if 200 <= code && code <= 299 {
        with_phase(s, Phase::ReadingBody)
    } else {
        with_phase(s, Phase::Failed(FetchError::Http(code)))
    }
}

/// The next state after `ev`. An event that does not fit the phase (and
/// every event once the fetch has finished) changes nothing.
pub open spec fn handle_spec(s: FetchState, ev: Event) -> FetchState {
    match s.phase {
        Phase::Sending { .. } => match ev {
            Event::Status(code) => status_spec(s, code),
            Event::Transport(m) => with_phase(s, Phase::Failed(FetchError::Transport(m))),
            Event::Body(_) => s,
        },
        Phase::ReadingBody => match ev {
            Event::Body(Ok(resp)) => page_spec(s, resp),
            Event::Body(Err(m)) => with_phase(s, Phase::Failed(FetchError::Decode(m))),
            _ => s,
        },
        _ => s,
    }
}

/// The query string for a page: the window, the limit, then the cursor if
/// there is one.
pub open spec fn query_string_of(q: TradeQuery, cursor: Option<String>) -> Seq<char> {
    "symbol="@ + q.symbol@ + "&startTime="@ + decimal_of(q.start_time as int) + "&endTime="@
        + decimal_of(q.end_time as int) + "&limit="@ + decimal_of(q.limit as int) + match cursor {
        Some(c) => "&cursor="@ + c@,
        None => Seq::empty(),
    }
}

/// A request ready to send: `GET url` with the headers `X-BAPI-SIGN`
/// (`signature`), `X-BAPI-API-KEY` (`api_key`), `X-BAPI-TIMESTAMP`
/// (`timestamp`) and `X-BAPI-RECV-WINDOW` (`5000`).
#[derive(Debug, Clone)]
pub struct SignedRequest {
    pub url: String,
    pub timestamp: i64,
    pub signature: String,
    pub api_key: String,
}

/// Relies on chrono's `Utc::now().timestamp_millis()`: the wall clock in
/// milliseconds since the Unix epoch.
#[verifier::external_body]
fn now_millis() -> (r: i64) {
    chrono::Utc::now().timestamp_millis()
}

/// One fetch of a trade window, page by page.
pub struct TradeFetch {
    fetcher: BybitTradeHistoryFetcher,
    query: TradeQuery,
    cursor: Option<String>,
    retries: u32,
    trades: Vec<TradeRow>,
    phase: Phase,
}

impl View for TradeFetch {
    type V = FetchState;

    closed spec fn view(&self) -> FetchState {
        FetchState {
            cursor: self.cursor,
            retries: self.retries,
            trades: self.trades@,
            phase: self.phase,
        }
    }
}

impl TradeFetch {
    /// The endpoint and credentials this fetch uses.
    pub closed spec fn spec_fetcher(&self) -> BybitTradeHistoryFetcher {
        self.fetcher
    }

    /// The window and limit this fetch asks for.
    pub closed spec fn spec_query(&self) -> TradeQuery {
        self.query
    }

    /// What the caller does next.
    pub fn step(&self) -> (r: Step)
        ensures
            r == step_of(self@.phase),
    {
        match &self.phase {
            Phase::Sending { delay_ms } => Step::Send { delay_ms: *delay_ms },
            Phase::ReadingBody => Step::ReadBody,
            Phase::Done => Step::Done,
            Phase::Failed(_) => Step::Failed,
        }
    }

    /// The query string of the current page's request.
    pub fn query_string(&self) -> (r: String)
        ensures
            r@ == query_string_of(self.spec_query(), self@.cursor),
    {
        let mut s = String::new();
        s.append("symbol=");
        s.append(self.query.symbol.as_str());
        s.append("&startTime=");
        push_i64(&mut s, self.query.start_time);
        s.append("&endTime=");
        push_i64(&mut s, self.query.end_time);
        s.append("&limit=");
        push_i64(&mut s, self.query.limit as i64);
        match &self.cursor {
            Some(c) => {
                s.append("&cursor=");
                s.append(c.as_str());
            },
            None => {},
        }
        assert(s@ =~= query_string_of(self.spec_query(), self@.cursor));
        s
    }

    /// The current page's request, signed at `timestamp` (milliseconds).
    pub fn request_at(&self, timestamp: i64) -> (r: Result<SignedRequest, FetchError>)
        ensures
            r matches Ok(q) && {
                let query = query_string_of(self.spec_query(), self@.cursor);
                &&& q.url@ == self.spec_fetcher().base_url@ + trades_path() + "?"@ + query
                &&& q.timestamp == timestamp
                &&& q.signature@ == signature_of(self.spec_fetcher().secret@, query, timestamp as int)
                &&& q.api_key@ == self.spec_fetcher().api_key@
            },
    {
        let query = self.query_string();
        let signature = match self.fetcher.sign_request(query.as_str(), timestamp) {
            Ok(sig) => sig,
            Err(e) => {
                return Err(e);
            },
        };
        let mut url = self.fetcher.base_url.clone();
        url.append("/v5/market/trades");
        url.append("?");
        url.append(query.as_str());
        Ok(SignedRequest { url, timestamp, signature, api_key: self.fetcher.api_key.clone() })
    }

    /// The current page's request, signed at the wall-clock time.
    pub fn request(&self) -> (r: Result<SignedRequest, FetchError>)
        ensures
            r matches Ok(q) && {
                let query = query_string_of(self.spec_query(), self@.cursor);
                &&& q.url@ == self.spec_fetcher().base_url@ + trades_path() + "?"@ + query
                &&& q.signature@ == signature_of(self.spec_fetcher().secret@, query, q.timestamp as int)
                &&& q.api_key@ == self.spec_fetcher().api_key@
            },
    {
        self.request_at(now_millis())
    }

    /// Takes the caller's report and says what to do next.
    pub fn handle(&mut self, ev: Event) -> (r: Step)
        ensures
            final(self)@ == handle_spec(old(self)@, ev),
            final(self).spec_fetcher() == old(self).spec_fetcher(),
            final(self).spec_query() == old(self).spec_query(),
            r == step_of(final(self)@.phase),
    {
        match self.phase {
            Phase::Sending { .. } => match ev {
                Event::Status(code) => {
                    if code == 429 {
                        if self.retries < MAX_RETRIES {
                            self.retries = self.retries + 1;
                            self.phase = Phase::Sending { delay_ms: backoff_ms(self.retries) };
                        } else {
                            self.phase = Phase::Failed(FetchError::RateLimitExhausted);
                        }
                    } else if 200 <= code && code <= 299 {
                        self.phase = Phase::ReadingBody;
                    } else {
                        self.phase = Phase::Failed(FetchError::Http(code));
                    }
                },
                Event::Transport(m) => {
                    self.phase = Phase::Failed(FetchError::Transport(m));
                },
                Event::Body(_) => {},
            },
            Phase::ReadingBody => match ev {
                Event::Body(Ok(resp)) => {
                    self.take_page(resp);
                },
                Event::Body(Err(m)) => {
                    self.phase = Phase::Failed(FetchError::Decode(m));
                },
                _ => {},
            },
            _ => {},
        }
        self.step()
    }

    fn take_page(&mut self, resp: BybitTradeResponse)
        ensures
            final(self)@ == page_spec(old(self)@, resp),
            final(self).spec_fetcher() == old(self).spec_fetcher(),
            final(self).spec_query() == old(self).spec_query(),
    {
        if resp.ret_code != 0 {
            self.phase = Phase::Failed(FetchError::Api { code: resp.ret_code, message: resp.ret_msg });
            return;
        }
        match normalize_trades(&resp.result.list) {
            Err(e) => {
                self.phase = Phase::Failed(e);
            },
            Ok(rows) => {
                let mut rows = rows;
                self.trades.append(&mut rows);
                match resp.result.next_page_cursor {
                    Some(c) => {
                        self.cursor = Some(c);
                        self.retries = 0;
                        self.phase = Phase::Sending { delay_ms: PAGE_DELAY_MS };
                    },
                    None => {
                        self.phase = Phase::Done;
                    },
                }
            },
        }
    }

    /// The trades once the fetch is done, the error once it failed,
    /// nothing while it runs.
    pub fn outcome(self) -> (r: Option<Result<Vec<TradeRow>, FetchError>>)
        ensures
            self@.phase == Phase::Done ==> (r matches Some(Ok(v)) && v@ == self@.trades),
            self@.phase matches Phase::Failed(e) ==> r == Some(Err::<Vec<TradeRow>, FetchError>(e)),
            (self@.phase is Sending || self@.phase is ReadingBody) ==> r is None,
    {
        match self.phase {
            Phase::Done => Some(Ok(self.trades)),
            Phase::Failed(e) => Some(Err(e)),
            _ => None,
        }
    }
}

impl BybitTradeHistoryFetcher {
    /// Starts a fetch of `symbol`'s trades between `start_time` and
    /// `end_time` (milliseconds), `limit` per page.
    pub fn fetch_trades(&self, symbol: &str, start_time: i64, end_time: i64, limit: i32) -> (r:
        TradeFetch)
        ensures
            r@ == initial_state(),
            r.spec_fetcher() == *self,
            r.spec_query().symbol@ == symbol@,
            r.spec_query().start_time == start_time,
            r.spec_query().end_time == end_time,
            r.spec_query().limit == limit,
    {
        let fetcher = BybitTradeHistoryFetcher {
            base_url: self.base_url.clone(),
            api_key: self.api_key.clone(),
            secret: self.secret.clone(),
        };
        let query = TradeQuery { symbol: symbol.to_owned(), start_time, end_time, limit };
        let r = TradeFetch {
            fetcher,
            query,
            cursor: None,
            retries: 0,
            trades: Vec::new(),
            phase: Phase::Sending { delay_ms: 0 },
        };
        assert(r@.trades =~= Seq::<TradeRow>::empty());
        r
    }
}

} // verus!
