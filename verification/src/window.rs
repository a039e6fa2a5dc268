//! Which executions each line of the export looks at.
//!
//! The export walks the executions in ascending order of their ids and
//! keeps, for each side, the most recent `COLUMN_NUM` of them. An execution
//! gets a line as soon as both windows are full when it comes up. This
//! module works on positions only: a row names the executions it looks at
//! by their index in the history, and the prices are the caller's business.

use crate::table::{Side, COLUMN_NUM};
use std::collections::VecDeque;
use vstd::prelude::*;

verus! {

/// One execution that takes part in the export: where it stands in the
/// history, its id and its side.
#[derive(Clone, Copy, Debug, PartialEq, Eq)]
pub struct Trade {
    pub id: i64,
    pub index: usize,
    pub side: Side,
}

/// The positions that one line of the table looks at: the recent sells and
/// the recent buys, oldest first, and the execution that the line is about.
#[derive(Clone, Debug, PartialEq, Eq)]
pub struct RowPlan {
    pub sell: Vec<usize>,
    pub buy: Vec<usize>,
    pub current: usize,
    pub side: Side,
}

/// A `RowPlan` as plain values.
pub struct RowPlanView {
    pub sell: Seq<usize>,
    pub buy: Seq<usize>,
    pub current: usize,
    pub side: Side,
}

impl View for RowPlan {
    type V = RowPlanView;

    open spec fn view(&self) -> RowPlanView {
        RowPlanView { sell: self.sell@, buy: self.buy@, current: self.current, side: self.side }
    }
}

impl DeepView for RowPlan {
    type V = RowPlanView;

    open spec fn deep_view(&self) -> RowPlanView {
        self@
    }
}

/// The positions of the trades of one side, in the order of the trades.
pub open spec fn picked(trades: Seq<Trade>, side: Side) -> Seq<usize>
    decreases trades.len(),
{
    if trades.len() == 0 {
        Seq::empty()
    } else if trades.last().side == side {
        picked(trades.drop_last(), side).push(trades.last().index)
    } else {
        picked(trades.drop_last(), side)
    }
}

/// The last `n` of the positions, or all of them if there are no more.
pub open spec fn recent(positions: Seq<usize>, n: nat) -> Seq<usize> {
    if positions.len() <= n {
        positions
    } else {
        positions.subrange(positions.len() - n, positions.len() as int)
    }
}

/// The window of one side when the trade at `k` comes up: the most recent
/// `COLUMN_NUM` trades of that side among those before `k`.
pub open spec fn window(trades: Seq<Trade>, k: int, side: Side) -> Seq<usize> {
    recent(picked(trades.take(k), side), COLUMN_NUM as nat)
}

/// Whether the trade at `k` gets a line: both windows are full.
pub open spec fn emits(trades: Seq<Trade>, k: int) -> bool {
    window(trades, k, Side::SELL).len() == COLUMN_NUM && window(trades, k, Side::BUY).len()
        == COLUMN_NUM
}

/// The line of the trade at `k`.
pub open spec fn row_at(trades: Seq<Trade>, k: int) -> RowPlanView {
    RowPlanView {
        sell: window(trades, k, Side::SELL),
        buy: window(trades, k, Side::BUY),
        current: trades[k].index,
        side: trades[k].side,
    }
}

/// The lines of the first `k` trades, in their order.
pub open spec fn rows_upto(trades: Seq<Trade>, k: nat) -> Seq<RowPlanView>
    decreases k,
{
    if k == 0 {
        Seq::empty()
    } else if emits(trades, k - 1) {
        rows_upto(trades, (k - 1) as nat).push(row_at(trades, k - 1))
    } else {
        rows_upto(trades, (k - 1) as nat)
    }
}

/// The lines of all the trades.
pub open spec fn rows_of(trades: Seq<Trade>) -> Seq<RowPlanView> {
    rows_upto(trades, trades.len())
}

/// How the positions of one side grow with one more trade.
pub proof fn lemma_picked_step(trades: Seq<Trade>, k: int, side: Side)
    requires
        0 <= k < trades.len(),
    ensures
        picked(trades.take(k + 1), side) == if trades[k].side == side {
            picked(trades.take(k), side).push(trades[k].index)
        } else {
            picked(trades.take(k), side)
        },
{
    assert(trades.take(k + 1).drop_last() =~= trades.take(k));
    assert(trades.take(k + 1).last() == trades[k]);
}

/// How the window moves when one more position comes in: it is added at the
/// end, and the oldest one leaves if the window was full.
pub proof fn lemma_recent_push(positions: Seq<usize>, position: usize, n: nat)
    requires
        n > 0,
    ensures
        recent(positions.push(position), n) == if recent(positions, n).len() < n {
            recent(positions, n).push(position)
        } else {
            recent(positions, n).push(position).drop_first()
        },
{
    if recent(positions, n).len() < n {
        assert(recent(positions.push(position), n) =~= recent(positions, n).push(position));
    } else {
        assert(recent(positions.push(position), n) =~= recent(positions, n).push(
            position,
        ).drop_first());
    }
}

/// Every trade is a sell or a buy: the two sides share the trades.
pub proof fn lemma_picked_total(trades: Seq<Trade>)
    ensures
        picked(trades, Side::SELL).len() + picked(trades, Side::BUY).len() == trades.len(),
    decreases trades.len(),
{
    if trades.len() > 0 {
        lemma_picked_total(trades.drop_last());
    }
}

/// A longer start of the trades holds no fewer trades of a side.
pub proof fn lemma_picked_grows(trades: Seq<Trade>, j: int, k: int, side: Side)
    requires
        0 <= j <= k <= trades.len(),
    ensures
        picked(trades.take(j), side).len() <= picked(trades.take(k), side).len(),
    decreases k - j,
{
    if j < k {
        lemma_picked_grows(trades, j, k - 1, side);
        lemma_picked_step(trades, k - 1, side);
    }
}

/// Where no trade among the first `k` finds both windows full, they have
/// no line.
pub proof fn lemma_rows_upto_empty(trades: Seq<Trade>, k: nat)
    requires
        forall|j: int| 0 <= j < k ==> !emits(trades, j),
    ensures
        rows_upto(trades, k) == Seq::<RowPlanView>::empty(),
    decreases k,
{
    if k > 0 {
        lemma_rows_upto_empty(trades, (k - 1) as nat);
    }
}

/// If there are fewer than `COLUMN_NUM` sells or fewer than `COLUMN_NUM`
/// buys in all, there is no line at all.
pub proof fn lemma_no_rows_while_a_side_is_short(trades: Seq<Trade>)
    requires
        picked(trades, Side::SELL).len() < COLUMN_NUM || picked(trades, Side::BUY).len()
            < COLUMN_NUM,
    ensures
        rows_of(trades).len() == 0,
{
    assert(trades.take(trades.len() as int) =~= trades);
    assert forall|j: int| 0 <= j < trades.len() implies !emits(trades, j) by {
        lemma_picked_grows(trades, j, trades.len() as int, Side::SELL);
        lemma_picked_grows(trades, j, trades.len() as int, Side::BUY);
    }
    lemma_rows_upto_empty(trades, trades.len());
}

/// If there are no more than `COLUMN_NUM` trades of each side, there is no
/// line at all: a trade finds both windows full only if it comes on top of
/// `COLUMN_NUM` of each.
pub proof fn lemma_no_rows_up_to_capacity(trades: Seq<Trade>)
    requires
        picked(trades, Side::SELL).len() <= COLUMN_NUM,
        picked(trades, Side::BUY).len() <= COLUMN_NUM,
    ensures
        rows_of(trades).len() == 0,
{
    lemma_picked_total(trades);
    assert forall|j: int| 0 <= j < trades.len() implies !emits(trades, j) by {
        lemma_picked_total(trades.take(j));
    }
    lemma_rows_upto_empty(trades, trades.len());
}

/// With exactly `COLUMN_NUM` sells and `COLUMN_NUM` buys and then one more
/// trade, there is exactly one line: that of the last trade, with its side,
/// which looks at all the sells and all the buys before it.
pub proof fn lemma_first_row(trades: Seq<Trade>)
    requires
        trades.len() > 0,
        picked(trades.drop_last(), Side::SELL).len() == COLUMN_NUM,
        picked(trades.drop_last(), Side::BUY).len() == COLUMN_NUM,
    ensures
        rows_of(trades) == seq![row_at(trades, trades.len() - 1)],
        rows_of(trades)[0].side == trades.last().side,
        rows_of(trades)[0].current == trades.last().index,
        rows_of(trades)[0].sell == picked(trades.drop_last(), Side::SELL),
        rows_of(trades)[0].buy == picked(trades.drop_last(), Side::BUY),
{
    let last = trades.len() - 1;
    assert(trades.take(last) =~= trades.drop_last());
    lemma_picked_total(trades.drop_last());
    assert forall|j: int| 0 <= j < last implies !emits(trades, j) by {
        lemma_picked_total(trades.take(j));
    }
    lemma_rows_upto_empty(trades, last as nat);
    assert(emits(trades, last));
    assert(rows_of(trades) =~= seq![row_at(trades, last)]);
}

fn copy_window(queue: &VecDeque<usize>) -> (positions: Vec<usize>)
    ensures
        positions@ == queue@,
{
    let mut positions: Vec<usize> = Vec::new();
    let mut i: usize = 0;
    while i < queue.len()
        invariant
            i <= queue.len(),
            positions@ == queue@.take(i as int),
        decreases queue.len() - i,
    {
        positions.push(queue[i]);
        assert(positions@ =~= queue@.take(i + 1));
        i += 1;
    }
    assert(queue@.take(queue.len() as int) =~= queue@);
    positions
}

fn slide(queue: &mut VecDeque<usize>, position: usize, Ghost(before): Ghost<Seq<usize>>)
    requires
        old(queue)@ == recent(before, COLUMN_NUM as nat),
    ensures
        final(queue)@ == recent(before.push(position), COLUMN_NUM as nat),
{
    proof {
        lemma_recent_push(before, position, COLUMN_NUM as nat);
    }
    queue.push_back(position);
    if queue.len() > COLUMN_NUM {
        queue.pop_front();
        assert(queue@ =~= recent(before, COLUMN_NUM as nat).push(position).drop_first());
    }
}

/// Walks the trades in the order given and plans one line for each trade
/// that finds both windows full, in the order of the trades. A line looks
/// at the `COLUMN_NUM` most recent sells and buys before its trade, oldest
/// first; the trade itself enters its window only after its line is planned.
pub fn window_rows(trades: &Vec<Trade>) -> (rows: Vec<RowPlan>)
    ensures
        rows.deep_view() == rows_of(trades@),
{
    let mut sell: VecDeque<usize> = VecDeque::new();
    let mut buy: VecDeque<usize> = VecDeque::new();
    let mut rows: Vec<RowPlan> = Vec::new();
    let mut k: usize = 0;
    assert(trades@.take(0) =~= Seq::empty());
    assert(rows.deep_view() =~= Seq::empty());
    while k < trades.len()
        invariant
            k <= trades.len(),
            sell@ == window(trades@, k as int, Side::SELL),
            buy@ == window(trades@, k as int, Side::BUY),
            rows.deep_view() == rows_upto(trades@, k as nat),
        decreases trades.len() - k,
    {
        let trade = trades[k];
        let ghost planned = rows.deep_view();
        if sell.len() == COLUMN_NUM && buy.len() == COLUMN_NUM {
            let row = RowPlan {
                sell: copy_window(&sell),
                buy: copy_window(&buy),
                current: trade.index,
                side: trade.side,
            };
            assert(row@ == row_at(trades@, k as int));
            rows.push(row);
            assert(rows.deep_view() =~= planned.push(row@));
        }
        proof {
            lemma_picked_step(trades@, k as int, Side::SELL);
            lemma_picked_step(trades@, k as int, Side::BUY);
        }
        match trade.side {
            Side::SELL => {
                slide(&mut sell, trade.index, Ghost(picked(trades@.take(k as int), Side::SELL)));
            },
            Side::BUY => {
                slide(&mut buy, trade.index, Ghost(picked(trades@.take(k as int), Side::BUY)));
            },
        }
        k += 1;
    }
    rows
}

} // verus!
