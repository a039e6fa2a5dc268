//! The stored history put in order for the export: the executions that
//! were buys or sells, by ascending id.

use crate::body::{
    decode_execution, each_of, execution_of, lemma_each_of_fails, ExchangeHistory,
    ExchangeHistoryView,
};
use crate::error::Error;
use crate::json::same_text;
use crate::table::Side;
use crate::window::{rows_of, window_rows, RowPlan, Trade};
use vstd::prelude::*;

verus! {

/// Whether the text at `index` is the first of the stored texts that holds
/// no execution.
pub open spec fn first_bad(texts: Seq<Seq<char>>, index: int) -> bool {
    &&& 0 <= index < texts.len()
    &&& execution_of(texts[index]) is None
    &&& forall|j: int| 0 <= j < index ==> execution_of(#[trigger] texts[j]) is Some
}

/// Decodes the stored history: one execution for each text, in the order
/// of the texts. If a text holds no execution the whole history is refused,
/// with a decoding failure that carries the first such text.
pub fn load_history(texts: &Vec<String>) -> (r: Result<Vec<ExchangeHistory>, Error>)
    ensures
        match r {
            Ok(history) => each_of(texts.deep_view(), |text: Seq<char>| execution_of(text))
                == Some(history.deep_view()),
            Err(e) => {
                &&& each_of(texts.deep_view(), |text: Seq<char>| execution_of(text)) is None
                &&& e.is_parse()
                &&& exists|index: int|
                    first_bad(texts.deep_view(), index) && e.content() == #[trigger] texts.deep_view()[index]
            },
        },
{
    let ghost all = texts.deep_view();
    let ghost one = |text: Seq<char>| execution_of(text);
    let mut history: Vec<ExchangeHistory> = Vec::new();
    let mut i: usize = 0;
    assert(all.take(0) =~= Seq::empty());
    assert(history.deep_view() =~= Seq::empty());
    while i < texts.len()
        invariant
            i <= texts.len(),
            all == texts.deep_view(),
            one == (|text: Seq<char>| execution_of(text)),
            each_of(all.take(i as int), one) == Some(history.deep_view()),
            forall|j: int| 0 <= j < i ==> execution_of(#[trigger] all[j]) is Some,
        decreases texts.len() - i,
    {
        let ghost before = history.deep_view();
        assert(all.take(i + 1).drop_last() =~= all.take(i as int));
        assert(all.take(i + 1).last() == texts[i as int]@);
        match decode_execution(texts[i].as_str()) {
            Ok(execution) => {
                history.push(execution);
                assert(history.deep_view() =~= before.push(execution@));
            },
            Err(e) => {
                proof {
                    lemma_each_of_fails(all, one, i as int);
                    assert(first_bad(all, i as int));
                }
                return Err(e);
            },
        }
        i += 1;
    }
    assert(all.take(texts.len() as int) =~= all);
    Ok(history)
}

/// The side that a side text names: `BUY` and `SELL`, and no other text.
pub open spec fn side_named(text: Seq<char>) -> Option<Side> {
    if text == "SELL"@ {
        Some(Side::SELL)
    } else if text == "BUY"@ {
        Some(Side::BUY)
    } else {
        None
    }
}

/// Reads a side text.
pub fn side_of(text: &str) -> (side: Option<Side>)
    ensures
        side == side_named(text@),
{
    if same_text(text, "SELL") {
        Some(Side::SELL)
    } else if same_text(text, "BUY") {
        Some(Side::BUY)
    } else {
        None
    }
}

/// Whether `a` comes before `b`, or is `b`: by the first number, then by
/// the second.
pub open spec fn pair_le(a: (i64, usize), b: (i64, usize)) -> bool {
    a.0 < b.0 || (a.0 == b.0 && a.1 <= b.1)
}

/// The sort of a slice of `std`, on pairs of integers. Claimed, as its
/// documentation says: the pairs are the same ones, each as often as
/// before, and they stand in ascending order, which for pairs is the order
/// of the first numbers and, where they agree, of the second.
#[verifier::external_body]
fn sort_pairs(pairs: &mut Vec<(i64, usize)>)
    ensures
        final(pairs)@.to_multiset() == old(pairs)@.to_multiset(),
        forall|i: int, j: int|
            0 <= i < j < final(pairs)@.len() ==> pair_le(
                #[trigger] final(pairs)@[i],
                #[trigger] final(pairs)@[j],
            ),
{
    pairs.sort();
}

/// Whether the execution at `index` takes part in the export.
pub open spec fn takes_part(history: Seq<ExchangeHistoryView>, index: int) -> bool {
    0 <= index < history.len() && side_named(history[index].side) is Some
}

/// Whether `trades` is the history in the order of the export: each trade
/// is an execution that was a buy or a sell, with its id and its side; each
/// such execution is there; and the trades stand by ascending id, those of
/// one id in the order in which the history holds them.
pub open spec fn is_order(history: Seq<ExchangeHistoryView>, trades: Seq<Trade>) -> bool {
    &&& forall|k: int|
        0 <= k < trades.len() ==> {
            &&& takes_part(history, (#[trigger] trades[k]).index as int)
            &&& trades[k].id == history[trades[k].index as int].id
            &&& Some(trades[k].side) == side_named(history[trades[k].index as int].side)
        }
    &&& forall|i: int|
        takes_part(history, i) ==> exists|k: int|
            0 <= k < trades.len() && (#[trigger] trades[k]).index == i
    &&& ascending(trades)
}

/// Whether each trade stands before all the later ones: by its id, and
/// among those of one id by its position in the history.
pub open spec fn ascending(trades: Seq<Trade>) -> bool {
    forall|j: int, k: int|
        0 <= j < k < trades.len() ==> {
            let a = #[trigger] trades[j];
            let b = #[trigger] trades[k];
            a.id < b.id || (a.id == b.id && a.index < b.index)
        }
}

proof fn lemma_same_members_same_order(a: Seq<Trade>, b: Seq<Trade>)
    requires
        ascending(a),
        ascending(b),
        forall|i: int| 0 <= i < a.len() ==> b.contains(#[trigger] a[i]),
        forall|i: int| 0 <= i < b.len() ==> a.contains(#[trigger] b[i]),
    ensures
        a =~= b,
    decreases a.len(),
{
    if a.len() == 0 {
        if b.len() > 0 {
            assert(a.contains(b[0]));
        }
    } else if b.len() == 0 {
        assert(b.contains(a[0]));
    } else {
        assert(a.contains(b[0]));
        assert(b.contains(a[0]));
        let i = choose|i: int| 0 <= i < a.len() && a[i] == b[0];
        let j = choose|j: int| 0 <= j < b.len() && b[j] == a[0];
        assert(a[0] == b[0]);
        let rest_a = a.drop_first();
        let rest_b = b.drop_first();
        assert forall|m: int| 0 <= m < rest_a.len() implies rest_b.contains(
            #[trigger] rest_a[m],
        ) by {
            assert(b.contains(a[m + 1]));
            let n = choose|n: int| 0 <= n < b.len() && b[n] == a[m + 1];
            assert(n > 0);
            assert(rest_b[n - 1] == rest_a[m]);
        }
        assert forall|m: int| 0 <= m < rest_b.len() implies rest_a.contains(
            #[trigger] rest_b[m],
        ) by {
            assert(a.contains(b[m + 1]));
            let n = choose|n: int| 0 <= n < a.len() && a[n] == b[m + 1];
            assert(n > 0);
            assert(rest_a[n - 1] == rest_b[m]);
        }
        assert(ascending(rest_a)) by {
            assert forall|j: int, k: int| 0 <= j < k < rest_a.len() implies ({
                let x = #[trigger] rest_a[j];
                let y = #[trigger] rest_a[k];
                x.id < y.id || (x.id == y.id && x.index < y.index)
            }) by {
                assert(rest_a[j] == a[j + 1] && rest_a[k] == a[k + 1]);
            }
        }
        assert(ascending(rest_b)) by {
            assert forall|j: int, k: int| 0 <= j < k < rest_b.len() implies ({
                let x = #[trigger] rest_b[j];
                let y = #[trigger] rest_b[k];
                x.id < y.id || (x.id == y.id && x.index < y.index)
            }) by {
                assert(rest_b[j] == b[j + 1] && rest_b[k] == b[k + 1]);
            }
        }
        lemma_same_members_same_order(rest_a, rest_b);
        assert(a =~= seq![a[0]] + rest_a);
        assert(b =~= seq![b[0]] + rest_b);
    }
}

/// A history has one order of the export and no other.
pub proof fn lemma_order_is_unique(
    history: Seq<ExchangeHistoryView>,
    a: Seq<Trade>,
    b: Seq<Trade>,
)
    requires
        is_order(history, a),
        is_order(history, b),
    ensures
        a == b,
{
    assert forall|i: int| 0 <= i < a.len() implies b.contains(#[trigger] a[i]) by {
        let trade = a[i];
        assert(takes_part(history, trade.index as int));
        let k = choose|k: int| 0 <= k < b.len() && (#[trigger] b[k]).index == trade.index;
        assert(b[k] == trade);
    }
    assert forall|i: int| 0 <= i < b.len() implies a.contains(#[trigger] b[i]) by {
        let trade = b[i];
        assert(takes_part(history, trade.index as int));
        let k = choose|k: int| 0 <= k < a.len() && (#[trigger] a[k]).index == trade.index;
        assert(a[k] == trade);
    }
    lemma_same_members_same_order(a, b);
}

/// What the sort keeps: the sorted pairs are the pairs from before, none of
/// them twice, so that they stand in strictly ascending order.
proof fn lemma_sorted_pairs(before: Seq<(i64, usize)>, sorted: Seq<(i64, usize)>)
    requires
        before.no_duplicates(),
        sorted.to_multiset() == before.to_multiset(),
        forall|i: int, j: int|
            0 <= i < j < sorted.len() ==> pair_le(#[trigger] sorted[i], #[trigger] sorted[j]),
    ensures
        forall|k: int| 0 <= k < sorted.len() ==> before.contains(#[trigger] sorted[k]),
        forall|k: int| 0 <= k < before.len() ==> sorted.contains(#[trigger] before[k]),
        forall|i: int, j: int|
            0 <= i < j < sorted.len() ==> {
                let a = #[trigger] sorted[i];
                let b = #[trigger] sorted[j];
                a.0 < b.0 || (a.0 == b.0 && a.1 < b.1)
            },
{
    broadcast use vstd::seq_lib::group_to_multiset_ensures;

    before.lemma_multiset_has_no_duplicates();
    sorted.lemma_multiset_has_no_duplicates_conv();
    assert forall|k: int| 0 <= k < sorted.len() implies before.contains(#[trigger] sorted[k]) by {
        assert(sorted.contains(sorted[k]));
        assert(sorted.to_multiset().count(sorted[k]) > 0);
    }
    assert forall|k: int| 0 <= k < before.len() implies sorted.contains(#[trigger] before[k]) by {
        assert(before.contains(before[k]));
        assert(before.to_multiset().count(before[k]) > 0);
    }
}

/// Puts the history in the order of the export: the executions whose side
/// is `BUY` or `SELL`, by ascending id, each with its position in the
/// history. Executions of one id keep the order of the history.
pub fn sorted_trades(history: &Vec<ExchangeHistory>) -> (trades: Vec<Trade>)
    ensures
        is_order(history.deep_view(), trades@),
{
    let ghost h = history.deep_view();
    let mut pairs: Vec<(i64, usize)> = Vec::new();
    let mut sides: Vec<Option<Side>> = Vec::new();
    let mut i: usize = 0;
    while i < history.len()
        invariant
            i <= history.len(),
            h == history.deep_view(),
            sides.len() == i,
            forall|j: int| 0 <= j < i ==> #[trigger] sides[j] == side_named(h[j].side),
            forall|k: int|
                0 <= k < pairs.len() ==> {
                    let pair = #[trigger] pairs[k];
                    pair.1 < i && takes_part(h, pair.1 as int) && pair.0 == h[pair.1 as int].id
                },
            forall|j: int|
                0 <= j < i && takes_part(h, j) ==> pairs@.contains((#[trigger] h[j].id, j as usize)),
            forall|a: int, b: int|
                0 <= a < b < pairs.len() ==> (#[trigger] pairs[a]).1 < (#[trigger] pairs[b]).1,
        decreases history.len() - i,
    {
        assert(h[i as int] == history[i as int]@);
        let side = side_of(history[i].side.as_str());
        let ghost found = pairs@;
        if side.is_some() {
            pairs.push((history[i].id, i));
            assert(pairs@.last() == (h[i as int].id, i));
            assert forall|j: int| 0 <= j < i + 1 && takes_part(h, j) implies pairs@.contains(
                (#[trigger] h[j].id, j as usize),
            ) by {
                if j < i {
                    let k = choose|k: int| 0 <= k < found.len() && found[k] == (h[j].id, j as usize);
                    assert(pairs@[k] == (h[j].id, j as usize));
                } else {
                    assert(pairs@[pairs.len() - 1] == (h[j].id, j as usize));
                }
            }
        }
        sides.push(side);
        i += 1;
    }
    let ghost before = pairs@;
    sort_pairs(&mut pairs);
    proof {
        assert(before.no_duplicates());
        lemma_sorted_pairs(before, pairs@);
    }
    let mut trades: Vec<Trade> = Vec::new();
    let mut k: usize = 0;
    while k < pairs.len()
        invariant
            k <= pairs.len(),
            trades.len() == k,
            h == history.deep_view(),
            sides.len() == history.len(),
            forall|j: int| 0 <= j < sides.len() ==> #[trigger] sides[j] == side_named(h[j].side),
            forall|n: int|
                0 <= n < pairs.len() ==> {
                    let pair = #[trigger] pairs[n];
                    pair.1 < history.len() && takes_part(h, pair.1 as int) && pair.0 == h[pair.1 as int].id
                },
            forall|n: int|
                0 <= n < k ==> {
                    let trade = #[trigger] trades[n];
                    trade.id == pairs[n].0 && trade.index == pairs[n].1 && Some(trade.side)
                        == side_named(h[trade.index as int].side)
                },
        decreases pairs.len() - k,
    {
        let pair = pairs[k];
        let side = match sides[pair.1] {
            Some(side) => side,
            None => {
                assert(false);
                Side::BUY
            },
        };
        trades.push(Trade { id: pair.0, index: pair.1, side });
        k += 1;
    }
    proof {
        assert forall|j: int| takes_part(h, j) implies exists|n: int|
            0 <= n < trades.len() && (#[trigger] trades[n]).index == j by {
            assert(before.contains((h[j].id, j as usize)));
            let m = choose|m: int| 0 <= m < before.len() && before[m] == (h[j].id, j as usize);
            assert(pairs@.contains(before[m]));
            let n = choose|n: int| 0 <= n < pairs.len() && pairs[n] == (h[j].id, j as usize);
            assert(trades[n].index == j);
        }
        assert forall|a: int, b: int| 0 <= a < b < trades.len() implies ({
            let x = #[trigger] trades[a];
            let y = #[trigger] trades[b];
            x.id < y.id || (x.id == y.id && x.index < y.index)
        }) by {
            assert(trades[a].index == pairs[a].1 && trades[b].index == pairs[b].1);
        }
    }
    trades
}

/// Plans the lines of the export for a stored history: the executions that
/// were buys or sells are put in ascending order of their ids, and each of
/// them that finds both windows full gets a line, in that order.
pub fn plan_rows(history: &Vec<ExchangeHistory>) -> (rows: Vec<RowPlan>)
    ensures
        exists|trades: Seq<Trade>|
            is_order(history.deep_view(), trades) && rows.deep_view() == #[trigger] rows_of(trades),
{
    let trades = sorted_trades(history);
    window_rows(&trades)
}

} // verus!
