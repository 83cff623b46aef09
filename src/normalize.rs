//! Turning a page's textual trade entries into rows.
use crate::text::{float_syntax, is_float_text, parse_i64, parsed_i64};
use crate::types::{BybitTrade, FetchError, TradeField, TradeRow};
use vstd::prelude::*;

verus! {

/// The row for one entry: `time`, then `size`, then `price` are parsed,
/// and the first that fails names itself and its text.
pub open spec fn row_of(t: BybitTrade) -> Result<TradeRow, FetchError> {
    match parsed_i64(t.time@) {
        None => Err(FetchError::Parse { field: TradeField::Timestamp, value: t.time }),
        Some(timestamp) => if !float_syntax(t.size@) {
            Err(FetchError::Parse { field: TradeField::Size, value: t.size })
        } else if !float_syntax(t.price@) {
            Err(FetchError::Parse { field: TradeField::Price, value: t.price })
        } else {
            Ok(TradeRow { timestamp, symbol: t.symbol, side: t.side, size: t.size, price: t.price })
        },
    }
}

/// The rows of a page, in entry order; the first entry that fails fails
/// the whole page.
pub open spec fn rows_of(list: Seq<BybitTrade>) -> Result<Seq<TradeRow>, FetchError>
    decreases list.len(),
{
    if list.len() == 0 {
        Ok(Seq::empty())
    } else {
        match rows_of(list.drop_last()) {
            Err(e) => Err(e),
            Ok(rows) => match row_of(list.last()) {
                Err(e) => Err(e),
                Ok(row) => Ok(rows.push(row)),
            },
        }
    }
}

/// Parses the numeric fields of one entry and carries symbol and side over.
pub fn normalize_trade(t: &BybitTrade) -> (r: Result<TradeRow, FetchError>)
    ensures
        r == row_of(*t),
{
    let timestamp = match parse_i64(t.time.as_str()) {
        Some(v) => v,
        None => {
            return Err(FetchError::Parse { field: TradeField::Timestamp, value: t.time.clone() });
        },
    };
    if !is_float_text(t.size.as_str()) {
        return Err(FetchError::Parse { field: TradeField::Size, value: t.size.clone() });
    }
    if !is_float_text(t.price.as_str()) {
        return Err(FetchError::Parse { field: TradeField::Price, value: t.price.clone() });
    }
    Ok(
        TradeRow {
            timestamp,
            symbol: t.symbol.clone(),
            side: t.side.clone(),
            size: t.size.clone(),
            price: t.price.clone(),
        },
    )
}

/// Normalises every entry of a page, in order, or fails with the first
/// entry's error and no rows.
pub fn normalize_trades(list: &Vec<BybitTrade>) -> (r: Result<Vec<TradeRow>, FetchError>)
    ensures
        r matches Ok(rows) ==> rows_of(list@) == Ok::<Seq<TradeRow>, FetchError>(rows@),
        r matches Err(e) ==> rows_of(list@) == Err::<Seq<TradeRow>, FetchError>(e),
{
    let mut rows: Vec<TradeRow> = Vec::new();
    let mut i: usize = 0;
    while i < list.len()
        invariant
            i <= list@.len(),
            rows_of(list@.subrange(0, i as int)) == Ok::<Seq<TradeRow>, FetchError>(rows@),
        decreases list@.len() - i,
    {
        assert(list@.subrange(0, i + 1).drop_last() =~= list@.subrange(0, i as int));
        match normalize_trade(&list[i]) {
            Ok(row) => {
                rows.push(row);
            },
            Err(e) => {
                proof {
                    lemma_error_persists(list@, i as int + 1);
                }
                return Err(e);
            },
        }
        i = i + 1;
    }
    assert(list@.subrange(0, i as int) =~= list@);
    Ok(rows)
}

/// Once a prefix of a page fails, the page fails with the same error.
proof fn lemma_error_persists(list: Seq<BybitTrade>, i: int)
    requires
        0 <= i <= list.len(),
        rows_of(list.subrange(0, i)) is Err,
    ensures
        rows_of(list) == rows_of(list.subrange(0, i)),
    decreases list.len() - i,
{
    if i < list.len() {
        assert(list.subrange(0, i + 1).drop_last() =~= list.subrange(0, i));
        lemma_error_persists(list, i + 1);
    } else {
        assert(list.subrange(0, i) =~= list);
    }
}

} // verus!
