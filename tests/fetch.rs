use bybit_trades::{
    backoff_ms, normalize_trade, normalize_trades, BybitTrade, BybitTradeHistoryFetcher,
    BybitTradeResponse, Event, FetchError, Step, TradeFetch, TradeField, TradeResult, TradeRow,
    MAX_RETRIES, PAGE_DELAY_MS,
};

fn trade(id: &str, time: &str, size: &str, price: &str, side: &str) -> BybitTrade {
    BybitTrade {
        exec_id: id.to_string(),
        symbol: "BTCUSDT".to_string(),
        price: price.to_string(),
        size: size.to_string(),
        side: side.to_string(),
        time: time.to_string(),
        is_block_trade: false,
    }
}

fn page(list: Vec<BybitTrade>, cursor: Option<&str>) -> BybitTradeResponse {
    BybitTradeResponse {
        ret_code: 0,
        ret_msg: "OK".to_string(),
        result: TradeResult { list, next_page_cursor: cursor.map(|c| c.to_string()) },
    }
}

fn fetcher() -> BybitTradeHistoryFetcher {
    BybitTradeHistoryFetcher::new(
        "https://api.bybit.com".to_string(),
        "key".to_string(),
        "my-secret".to_string(),
    )
}

fn start() -> TradeFetch {
    fetcher().fetch_trades("BTCUSDT", 1700000000000, 1700000600000, 1000)
}

/// One scripted reply: a transport failure, or a status with a body that
/// decodes (`Some`) or does not (`None`).
enum Reply {
    Transport(&'static str),
    Http(u16, Option<BybitTradeResponse>),
}

struct Trace {
    requests: usize,
    delays: Vec<u64>,
    urls: Vec<String>,
    last: Step,
}

fn drive(fetch: &mut TradeFetch, replies: Vec<Reply>) -> Trace {
    let mut replies = replies.into_iter();
    let mut trace = Trace { requests: 0, delays: Vec::new(), urls: Vec::new(), last: fetch.step() };
    loop {
        match trace.last {
            Step::Send { delay_ms } => {
                trace.delays.push(delay_ms);
                trace.urls.push(fetch.request_at(1700000000123).unwrap().url);
                trace.requests += 1;
                trace.last = match replies.next().expect("a reply for every request") {
                    Reply::Transport(m) => fetch.handle(Event::Transport(m.to_string())),
                    Reply::Http(status, body) => {
                        let step = fetch.handle(Event::Status(status));
                        if step == Step::ReadBody {
                            fetch.handle(Event::Body(body.ok_or_else(|| "expected value".to_string())))
                        } else {
                            step
                        }
                    }
                };
            }
            Step::ReadBody => panic!("the driver reads every body it is asked for"),
            Step::Done | Step::Failed => return trace,
        }
    }
}

fn row(time: i64, size: &str, price: &str, side: &str) -> TradeRow {
    TradeRow {
        timestamp: time,
        symbol: "BTCUSDT".to_string(),
        side: side.to_string(),
        size: size.to_string(),
        price: price.to_string(),
    }
}

#[test]
fn first_request_has_window_and_signature() {
    let f = start();
    assert_eq!(f.step(), Step::Send { delay_ms: 0 });
    assert_eq!(
        f.query_string(),
        "symbol=BTCUSDT&startTime=1700000000000&endTime=1700000600000&limit=1000"
    );
    let req = f.request_at(1700000000123).unwrap();
    assert_eq!(
        req.url,
        "https://api.bybit.com/v5/market/trades?symbol=BTCUSDT&startTime=1700000000000&endTime=1700000600000&limit=1000"
    );
    assert_eq!(req.timestamp, 1700000000123);
    assert_eq!(req.api_key, "key");
    assert_eq!(req.signature, "1628a782693020575696706ecf78ebda942ebd7def91c40d798e09d54b03f913");
}

#[test]
fn request_with_wall_clock_is_signed() {
    let f = start();
    let req = f.request().unwrap();
    assert!(req.timestamp > 1600000000000);
    assert_eq!(req.signature, fetcher().sign_request(&f.query_string(), req.timestamp).unwrap());
}

#[test]
fn single_page_returns_its_rows_in_order() {
    let mut f = start();
    let list = vec![
        trade("a", "1700000000001", "0.001", "65000.5", "Buy"),
        trade("b", "1700000000002", "1.25", "64999", "Sell"),
        trade("c", "1700000000002", "3", "0.1", "Buy"),
    ];
    let trace = drive(&mut f, vec![Reply::Http(200, Some(page(list, None)))]);
    assert_eq!(trace.requests, 1);
    assert_eq!(trace.last, Step::Done);
    let rows = f.outcome().unwrap().unwrap();
    assert_eq!(
        rows,
        vec![
            row(1700000000001, "0.001", "65000.5", "Buy"),
            row(1700000000002, "1.25", "64999", "Sell"),
            row(1700000000002, "3", "0.1", "Buy"),
        ]
    );
    for r in &rows {
        let size: f64 = r.size.parse().unwrap();
        let price: f64 = r.price.parse().unwrap();
        assert_eq!(size.to_string().parse::<f64>().unwrap(), size);
        assert_eq!(price.to_string().parse::<f64>().unwrap(), price);
    }
    assert_eq!(rows[0].size.parse::<f64>().unwrap(), 0.001);
    assert_eq!(rows[0].price.parse::<f64>().unwrap(), 65000.5);
}

#[test]
fn pages_are_concatenated_in_order() {
    let mut f = start();
    let trace = drive(
        &mut f,
        vec![
            Reply::Http(200, Some(page(vec![trade("a", "1", "1", "10", "Buy")], Some("abc")))),
            Reply::Http(
                200,
                Some(page(
                    vec![trade("b", "2", "2", "20", "Sell"), trade("c", "3", "3", "30", "Buy")],
                    Some("def"),
                )),
            ),
            Reply::Http(200, Some(page(vec![trade("d", "4", "4", "40", "Sell")], None))),
        ],
    );
    assert_eq!(trace.requests, 3);
    assert_eq!(trace.delays, vec![0, PAGE_DELAY_MS, PAGE_DELAY_MS]);
    assert!(trace.urls[1].ends_with("&limit=1000&cursor=abc"));
    assert!(trace.urls[2].ends_with("&limit=1000&cursor=def"));
    let rows = f.outcome().unwrap().unwrap();
    let times: Vec<i64> = rows.iter().map(|r| r.timestamp).collect();
    assert_eq!(times, vec![1, 2, 3, 4]);
    assert_eq!(rows[2].side, "Buy");
}

#[test]
fn cursor_request_is_signed_over_cursor() {
    let mut f = start();
    f.handle(Event::Status(200));
    let step = f.handle(Event::Body(Ok(page(vec![], Some("abc")))));
    assert_eq!(step, Step::Send { delay_ms: PAGE_DELAY_MS });
    let req = f.request_at(1700000000123).unwrap();
    assert_eq!(req.signature, "4415396adb2dbde16a259d35a0c4ec0a7f66ef9838a87d79fc73186aef9b471b");
}

#[test]
fn rate_limit_retries_back_off_then_succeed() {
    let mut f = start();
    let trace = drive(
        &mut f,
        vec![
            Reply::Http(429, None),
            Reply::Http(429, None),
            Reply::Http(429, None),
            Reply::Http(200, Some(page(vec![trade("a", "1", "1", "10", "Buy")], None))),
        ],
    );
    assert_eq!(trace.requests, 4);
    assert_eq!(trace.delays, vec![0, 50, 100, 200]);
    assert_eq!(trace.urls[0], trace.urls[3]);
    assert_eq!(f.outcome().unwrap().unwrap().len(), 1);
}

#[test]
fn retry_count_resets_after_a_page() {
    let mut f = start();
    let mut replies = Vec::new();
    for _ in 0..4 {
        replies.push(Reply::Http(429, None));
    }
    replies.push(Reply::Http(200, Some(page(vec![], Some("next")))));
    for _ in 0..4 {
        replies.push(Reply::Http(429, None));
    }
    replies.push(Reply::Http(200, Some(page(vec![], None))));
    let trace = drive(&mut f, replies);
    assert_eq!(trace.last, Step::Done);
    assert_eq!(trace.requests, 10);
    assert_eq!(trace.delays, vec![0, 50, 100, 200, 400, 50, 50, 100, 200, 400]);
}

#[test]
fn rate_limit_exhausted_after_six_requests() {
    let mut f = start();
    let replies = (0..10).map(|_| Reply::Http(429, None)).collect();
    let trace = drive(&mut f, replies);
    assert_eq!(trace.requests, 6);
    assert_eq!(trace.delays, vec![0, 50, 100, 200, 400, 800]);
    assert_eq!(trace.last, Step::Failed);
    assert_eq!(f.handle(Event::Status(200)), Step::Failed);
    assert_eq!(f.outcome(), Some(Err(FetchError::RateLimitExhausted)));
}

#[test]
fn api_error_stops_the_fetch() {
    let mut f = start();
    let mut bad = page(vec![trade("a", "1", "1", "10", "Buy")], Some("abc"));
    bad.ret_code = 10001;
    bad.ret_msg = "params error".to_string();
    let trace = drive(&mut f, vec![Reply::Http(200, Some(bad)), Reply::Http(200, None)]);
    assert_eq!(trace.requests, 1);
    let err = f.outcome().unwrap().unwrap_err();
    assert_eq!(err, FetchError::Api { code: 10001, message: "params error".to_string() });
    assert_eq!(err.message(), "API error: 10001 - params error");
}

#[test]
fn other_http_status_fails_with_it() {
    let mut f = start();
    let trace = drive(&mut f, vec![Reply::Http(503, None)]);
    assert_eq!(trace.requests, 1);
    let err = f.outcome().unwrap().unwrap_err();
    assert_eq!(err, FetchError::Http(503));
    assert_eq!(err.message(), "HTTP error: 503");
}

#[test]
fn transport_failure_is_not_retried() {
    let mut f = start();
    let trace = drive(&mut f, vec![Reply::Transport("timed out"), Reply::Http(200, None)]);
    assert_eq!(trace.requests, 1);
    let err = f.outcome().unwrap().unwrap_err();
    assert_eq!(err.message(), "Request failed: timed out");
}

#[test]
fn undecodable_body_fails() {
    let mut f = start();
    drive(&mut f, vec![Reply::Http(200, None)]);
    let err = f.outcome().unwrap().unwrap_err();
    assert_eq!(err, FetchError::Decode("expected value".to_string()));
    assert_eq!(err.message(), "Failed to parse response: expected value");
}

#[test]
fn bad_size_fails_the_whole_page() {
    let list = vec![
        trade("a", "1", "1", "10", "Buy"),
        trade("b", "2", "abc", "20", "Sell"),
        trade("c", "3", "3", "30", "Buy"),
    ];
    let err = normalize_trades(&list).unwrap_err();
    assert_eq!(err, FetchError::Parse { field: TradeField::Size, value: "abc".to_string() });
    assert_eq!(err.message(), "Failed to parse size: abc");

    let mut f = start();
    let trace = drive(
        &mut f,
        vec![
            Reply::Http(200, Some(page(vec![trade("z", "0", "1", "1", "Buy")], Some("abc")))),
            Reply::Http(200, Some(page(list, None))),
        ],
    );
    assert_eq!(trace.requests, 2);
    assert_eq!(
        f.outcome(),
        Some(Err(FetchError::Parse { field: TradeField::Size, value: "abc".to_string() }))
    );
}

#[test]
fn bad_time_and_price_are_named() {
    let err = normalize_trade(&trade("a", "12x", "abc", "1", "Buy")).unwrap_err();
    assert_eq!(err, FetchError::Parse { field: TradeField::Timestamp, value: "12x".to_string() });
    assert_eq!(err.message(), "Failed to parse timestamp: 12x");
    let err = normalize_trade(&trade("a", "12", "1", "", "Buy")).unwrap_err();
    assert_eq!(err, FetchError::Parse { field: TradeField::Price, value: "".to_string() });
    assert_eq!(err.message(), "Failed to parse price: ");
}

#[test]
fn empty_page_is_done_with_no_rows() {
    let mut f = start();
    drive(&mut f, vec![Reply::Http(200, Some(page(vec![], None)))]);
    assert_eq!(f.outcome(), Some(Ok(vec![])));
}

#[test]
fn unfinished_fetch_has_no_outcome() {
    let f = start();
    assert_eq!(f.outcome(), None);
    let mut f = start();
    assert_eq!(f.handle(Event::Status(204)), Step::ReadBody);
    assert_eq!(f.handle(Event::Status(429)), Step::ReadBody);
    assert_eq!(f.outcome(), None);
}

#[test]
fn backoff_doubles_from_fifty() {
    let waits: Vec<u64> = (1..=MAX_RETRIES).map(backoff_ms).collect();
    assert_eq!(waits, vec![50, 100, 200, 400, 800]);
}

#[test]
fn messages_of_fixed_errors() {
    assert_eq!(FetchError::Signing.message(), "Failed to create HMAC");
    assert_eq!(FetchError::RateLimitExhausted.message(), "Rate limited: max retries exceeded");
    let e = FetchError::Api { code: -1, message: "x".to_string() };
    assert_eq!(e.message(), "API error: -1 - x");
}
