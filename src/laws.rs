//! What holds of whole runs of a fetch: a run feeds the machine one
//! report after another, and every report of a status or of a transport
//! failure answers one request.
use crate::fetch::{
    backoff_of, handle_spec, page_spec, with_phase, Event, FetchState, Phase,
    MAX_RETRIES, PAGE_DELAY_MS,
};
use crate::normalize::{row_of, rows_of};
use crate::types::{BybitTrade, BybitTradeResponse, FetchError, TradeRow};
use vstd::prelude::*;

verus! {

/// The state after feeding `evs` in order.
pub open spec fn run(s: FetchState, evs: Seq<Event>) -> FetchState
    decreases evs.len(),
{
    if evs.len() == 0 {
        s
    } else {
        run(handle_spec(s, evs[0]), evs.subrange(1, evs.len() as int))
    }
}

/// A report that answers a request: a status or a transport failure.
pub open spec fn answers_request(ev: Event) -> bool {
    ev is Status || ev is Transport
}

/// How many requests a run issues: one for each report that answers a
/// request while the machine is waiting for one.
pub open spec fn requests(s: FetchState, evs: Seq<Event>) -> nat
    decreases evs.len(),
{
    if evs.len() == 0 {
        0
    } else {
        (if s.phase is Sending && answers_request(evs[0]) { 1nat } else { 0nat }) + requests(
            handle_spec(s, evs[0]),
            evs.subrange(1, evs.len() as int),
        )
    }
}

/// `n` replies with HTTP 429.
pub open spec fn rate_limited(n: nat) -> Seq<Event> {
    Seq::new(n, |i: int| Event::Status(429))
}

/// The reports for a page that arrives whole: status 200, then its body.
pub open spec fn page_events(resp: BybitTradeResponse) -> Seq<Event> {
    seq![Event::Status(200), Event::Body(Ok(resp))]
}

/// The reports for a chain of pages, in order.
pub open spec fn pages_events(pages: Seq<BybitTradeResponse>) -> Seq<Event>
    decreases pages.len(),
{
    if pages.len() == 0 {
        Seq::empty()
    } else {
        pages_events(pages.drop_last()) + page_events(pages.last())
    }
}

/// The rows of a chain of pages, page after page.
pub open spec fn pages_rows(pages: Seq<BybitTradeResponse>) -> Seq<TradeRow>
    decreases pages.len(),
{
    if pages.len() == 0 {
        Seq::empty()
    } else {
        pages_rows(pages.drop_last()) + rows_of(pages.last().result.list@)->Ok_0
    }
}

/// A page that the exchange accepted and whose entries all parse.
pub open spec fn clean_page(p: BybitTradeResponse) -> bool {
    p.ret_code == 0 && rows_of(p.result.list@) is Ok
}

/// Feeding two runs one after the other is feeding their concatenation.
pub proof fn lemma_run_append(s: FetchState, a: Seq<Event>, b: Seq<Event>)
    ensures
        run(s, a + b) == run(run(s, a), b),
        requests(s, a + b) == requests(s, a) + requests(run(s, a), b),
    decreases a.len(),
{
    if a.len() > 0 {
        assert((a + b).subrange(1, (a + b).len() as int) =~= a.subrange(1, a.len() as int) + b);
        assert((a + b)[0] == a[0]);
        lemma_run_append(handle_spec(s, a[0]), a.subrange(1, a.len() as int), b);
    } else {
        assert(a + b =~= b);
    }
}

/// Feeding one report is one step of the machine.
pub proof fn lemma_run_one(s: FetchState, ev: Event)
    ensures
        run(s, seq![ev]) == handle_spec(s, ev),
        requests(s, seq![ev]) == (if s.phase is Sending && answers_request(ev) { 1nat } else { 0nat }),
{
    assert(seq![ev].subrange(1, 1) =~= Seq::<Event>::empty());
    assert(seq![ev][0] == ev);
    assert(run(handle_spec(s, ev), Seq::<Event>::empty()) == handle_spec(s, ev));
    assert(requests(handle_spec(s, ev), Seq::<Event>::empty()) == 0);
}

/// A page that arrives whole is a 2xx status, then its envelope.
pub proof fn lemma_run_page(s: FetchState, resp: BybitTradeResponse)
    requires
        s.phase is Sending,
    ensures
        run(s, page_events(resp)) == page_spec(with_phase(s, Phase::ReadingBody), resp),
        requests(s, page_events(resp)) == 1,
{
    assert(page_events(resp) =~= seq![Event::Status(200)] + seq![Event::Body(Ok(resp))]);
    lemma_run_append(s, seq![Event::Status(200)], seq![Event::Body(Ok(resp))]);
    lemma_run_one(s, Event::Status(200));
    lemma_run_one(with_phase(s, Phase::ReadingBody), Event::Body(Ok(resp)));
}

/// A finished fetch stays as it is and issues no request, whatever
/// is reported after.
pub proof fn lemma_finished_is_final(s: FetchState, evs: Seq<Event>)
    requires
        s.phase is Done || s.phase is Failed,
    ensures
        run(s, evs) == s,
        requests(s, evs) == 0,
    decreases evs.len(),
{
    if evs.len() > 0 {
        lemma_finished_is_final(s, evs.subrange(1, evs.len() as int));
    }
}

/// Which entries a page's rows come from: the page parses exactly when
/// every entry does, and then row `i` is entry `i`'s row. A page with an
/// entry that fails gives no rows at all.
pub proof fn lemma_rows_of_entries(list: Seq<BybitTrade>)
    ensures
        rows_of(list) is Ok <==> forall|i: int| 0 <= i < list.len() ==> #[trigger] row_of(list[i]) is Ok,
        rows_of(list) is Ok ==> {
            &&& rows_of(list)->Ok_0.len() == list.len()
            &&& forall|i: int|
                0 <= i < list.len() ==> rows_of(list)->Ok_0[i] == #[trigger] row_of(list[i])->Ok_0
        },
    decreases list.len(),
{
    if list.len() > 0 {
        let init = list.drop_last();
        lemma_rows_of_entries(init);
        assert forall|i: int| 0 <= i < init.len() implies init[i] == list[i] by {}
        if rows_of(list) is Ok {
            assert forall|i: int| 0 <= i < list.len() implies #[trigger] row_of(list[i]) is Ok by {
                if i < init.len() {
                    assert(row_of(init[i]) is Ok);
                }
            }
        }
        if forall|i: int| 0 <= i < list.len() ==> #[trigger] row_of(list[i]) is Ok {
            assert forall|i: int| 0 <= i < init.len() implies #[trigger] row_of(init[i]) is Ok by {
                assert(row_of(list[i]) is Ok);
            }
            assert(row_of(list[list.len() - 1]) is Ok);
        }
    }
}

/// Retries of one page: after `i` replies with 429 (at most the budget),
/// the same page is asked for again after `backoff_of(i)` ms, nothing else
/// has changed, and `i` requests have gone out.
pub proof fn lemma_retry_prefix(s: FetchState, i: nat)
    requires
        s.phase is Sending,
        s.retries == 0,
        1 <= i <= MAX_RETRIES,
    ensures
        run(s, rate_limited(i)) == (FetchState {
            cursor: s.cursor,
            retries: i as u32,
            trades: s.trades,
            phase: Phase::Sending { delay_ms: backoff_of(i) as u64 },
        }),
        requests(s, rate_limited(i)) == i,
    decreases i,
{
    reveal_with_fuel(crate::fetch::pow2, 5);
    assert(rate_limited(1) =~= seq![Event::Status(429)]);
    if i == 1 {
        lemma_run_one(s, Event::Status(429));
    } else {
        let j = (i - 1) as nat;
        lemma_retry_prefix(s, j);
        assert(rate_limited(i) =~= rate_limited(j) + rate_limited(1));
        lemma_run_append(s, rate_limited(j), rate_limited(1));
        lemma_run_one(run(s, rate_limited(j)), Event::Status(429));
    }
}

/// Fewer than the budget of 429 replies on one page, then success: the
/// page is asked for `r + 1` times, the waits before the retries are
/// `backoff_of(1)`, ..., `backoff_of(r)` and grow strictly, and the page's
/// rows are appended.
pub proof fn lemma_rate_limit_recovers(s: FetchState, r: nat, resp: BybitTradeResponse)
    requires
        s.phase is Sending,
        s.retries == 0,
        r < MAX_RETRIES,
        clean_page(resp),
    ensures
        forall|i: nat|
            1 <= i <= r ==> (#[trigger] run(s, rate_limited(i))).phase == (Phase::Sending {
                delay_ms: backoff_of(i) as u64,
            }),
        forall|i: nat, j: nat| 1 <= i < j <= r ==> backoff_of(i) < backoff_of(j),
        requests(s, rate_limited(r) + page_events(resp)) == r + 1,
        run(s, rate_limited(r) + page_events(resp)).trades == s.trades + rows_of(
            resp.result.list@,
        )->Ok_0,
        !(run(s, rate_limited(r) + page_events(resp)).phase is Failed),
{
    assert forall|i: nat| 1 <= i <= r implies (#[trigger] run(s, rate_limited(i))).phase == (
    Phase::Sending { delay_ms: backoff_of(i) as u64 }) by {
        lemma_retry_prefix(s, i);
    }
    assert forall|i: nat, j: nat| 1 <= i < j <= r implies backoff_of(i) < backoff_of(j) by {
        reveal_with_fuel(crate::fetch::pow2, 5);
    }
    let t = run(s, rate_limited(r));
    if r == 0 {
        assert(rate_limited(0) =~= Seq::<Event>::empty());
    } else {
        lemma_retry_prefix(s, r);
    }
    lemma_run_append(s, rate_limited(r), page_events(resp));
    lemma_run_page(t, resp);
}

/// 429 on every attempt: the sixth reply ends the fetch with
/// `RateLimitExhausted` after six requests, and no request follows.
pub proof fn lemma_rate_limit_exhausted(s: FetchState, more: Seq<Event>)
    requires
        s.phase is Sending,
        s.retries == 0,
    ensures
        run(s, rate_limited(6)).phase == Phase::Failed(FetchError::RateLimitExhausted),
        requests(s, rate_limited(6)) == 6,
        run(s, rate_limited(6) + more) == run(s, rate_limited(6)),
        requests(s, rate_limited(6) + more) == 6,
{
    lemma_retry_prefix(s, 5);
    assert(rate_limited(6) =~= rate_limited(5) + rate_limited(1));
    assert(rate_limited(1) =~= seq![Event::Status(429)]);
    lemma_run_append(s, rate_limited(5), rate_limited(1));
    lemma_run_one(run(s, rate_limited(5)), Event::Status(429));
    lemma_run_append(s, rate_limited(6), more);
    lemma_finished_is_final(run(s, rate_limited(6)), more);
}

/// A 2xx envelope with a non-zero return code ends the fetch with that
/// code and message, and no request follows.
pub proof fn lemma_api_error_is_final(s: FetchState, resp: BybitTradeResponse, more: Seq<Event>)
    requires
        s.phase is ReadingBody,
        resp.ret_code != 0,
    ensures
        run(s, seq![Event::Body(Ok(resp))]).phase == Phase::Failed(
            FetchError::Api { code: resp.ret_code, message: resp.ret_msg },
        ),
        run(s, seq![Event::Body(Ok(resp))] + more) == run(s, seq![Event::Body(Ok(resp))]),
        requests(s, seq![Event::Body(Ok(resp))] + more) == 0,
{
    let one = seq![Event::Body(Ok(resp))];
    lemma_run_one(s, Event::Body(Ok(resp)));
    lemma_run_append(s, one, more);
    lemma_finished_is_final(run(s, one), more);
}

/// A chain of clean pages where every page but the last hands out a cursor.
pub open spec fn cursor_chain(pages: Seq<BybitTradeResponse>) -> bool {
    &&& pages.len() >= 1
    &&& forall|k: int| 0 <= k < pages.len() ==> clean_page(#[trigger] pages[k])
    &&& forall|k: int| 0 <= k < pages.len() - 1 ==> (#[trigger] pages[k]).result.next_page_cursor is Some
    &&& pages.last().result.next_page_cursor is None
}

/// The state after the first `k` pages of a cursor chain.
pub proof fn lemma_pages_prefix(s: FetchState, pages: Seq<BybitTradeResponse>, k: int)
    requires
        s.phase is Sending,
        cursor_chain(pages),
        1 <= k <= pages.len(),
    ensures
        ({
            let t = run(s, pages_events(pages.subrange(0, k)));
            &&& t.trades == s.trades + pages_rows(pages.subrange(0, k))
            &&& requests(s, pages_events(pages.subrange(0, k))) == k
            &&& k < pages.len() ==> {
                &&& t.phase == Phase::Sending { delay_ms: PAGE_DELAY_MS }
                &&& t.retries == 0
                &&& t.cursor == pages[k - 1].result.next_page_cursor
            }
            &&& k == pages.len() ==> t.phase == Phase::Done
        }),
    decreases k,
{
    let pre = pages.subrange(0, k);
    let p = pages[k - 1];
    assert(pre.drop_last() =~= pages.subrange(0, k - 1));
    assert(pre.last() == p);
    assert(clean_page(p));
    if k == 1 {
        assert(pages.subrange(0, 0) =~= Seq::<BybitTradeResponse>::empty());
        assert(pages_events(pre) =~= page_events(p));
        assert(pages_rows(pre) =~= rows_of(p.result.list@)->Ok_0);
        lemma_run_page(s, p);
        if k == pages.len() {
            assert(pages.last() == p);
        }
    } else {
        lemma_pages_prefix(s, pages, k - 1);
        let before = pages_events(pages.subrange(0, k - 1));
        assert(pages_events(pre) == before + page_events(p));
        lemma_run_append(s, before, page_events(p));
        lemma_run_page(run(s, before), p);
        assert(s.trades + pages_rows(pages.subrange(0, k - 1)) + rows_of(p.result.list@)->Ok_0
            =~= s.trades + pages_rows(pre));
        if k == pages.len() {
            assert(pages.last() == p);
        }
    }
}

/// A chain of `K` pages: the fetch ends with every page's rows in page
/// order after exactly `K` requests, and after each page but the last the
/// retry count is back at zero and the next request waits `PAGE_DELAY_MS`.
pub proof fn lemma_pages_concatenate(s: FetchState, pages: Seq<BybitTradeResponse>)
    requires
        s.phase is Sending,
        cursor_chain(pages),
    ensures
        run(s, pages_events(pages)).phase == Phase::Done,
        run(s, pages_events(pages)).trades == s.trades + pages_rows(pages),
        requests(s, pages_events(pages)) == pages.len(),
        forall|k: int|
            1 <= k < pages.len() ==> {
                let t = #[trigger] run(s, pages_events(pages.subrange(0, k)));
                &&& t.retries == 0
                &&& t.phase == Phase::Sending { delay_ms: PAGE_DELAY_MS }
                &&& t.cursor == pages[k - 1].result.next_page_cursor
            },
{
    lemma_pages_prefix(s, pages, pages.len() as int);
    assert(pages.subrange(0, pages.len() as int) =~= pages);
    assert forall|k: int| 1 <= k < pages.len() implies {
        let t = #[trigger] run(s, pages_events(pages.subrange(0, k)));
        &&& t.retries == 0
        &&& t.phase == Phase::Sending { delay_ms: PAGE_DELAY_MS }
        &&& t.cursor == pages[k - 1].result.next_page_cursor
    } by {
        lemma_pages_prefix(s, pages, k);
    }
}

/// A single page without a cursor: the fetch ends with exactly that
/// page's entries, in order, each as its row, after one request.
pub proof fn lemma_single_page(s: FetchState, resp: BybitTradeResponse)
    requires
        s.phase is Sending,
        clean_page(resp),
        resp.result.next_page_cursor is None,
    ensures
        ({
            let t = run(s, page_events(resp));
            let list = resp.result.list@;
            &&& t.phase == Phase::Done
            &&& requests(s, page_events(resp)) == 1
            &&& t.trades.len() == s.trades.len() + list.len()
            &&& t.trades.subrange(0, s.trades.len() as int) == s.trades
            &&& forall|i: int|
                0 <= i < list.len() ==> t.trades[s.trades.len() + i] == #[trigger] row_of(
                    list[i],
                )->Ok_0
        }),
{
    lemma_run_page(s, resp);
    lemma_rows_of_entries(resp.result.list@);
    let t = run(s, page_events(resp));
    assert(t.trades.subrange(0, s.trades.len() as int) =~= s.trades);
}

} // verus!
