//! Walking the history backwards, page by page.
//!
//! A poller decides; its owner acts. The owner asks for a page, stores it,
//! sleeps or stops as the poller says, and tells the poller what happened.
//! The cursor is the id below which the next page is asked for.

use crate::client::PAGE_SIZE;
use vstd::prelude::*;

verus! {

/// How many pages a bounded run fetches.
pub const BOUNDED_ROUNDS: u32 = 3;

/// How long an unbounded run waits after a fetch that failed, in seconds.
pub const RETRY_SECONDS: u64 = 1;

/// What a poller waits for.
#[derive(Clone, Copy, Debug, PartialEq, Eq, Structural)]
pub enum Phase {
    /// A page was asked for.
    Fetching,
    /// A page was handed over to be stored.
    Storing,
    /// A fetch failed; the owner sleeps before the next try.
    Sleeping,
    /// The run is over: all its rounds are done.
    Done,
    /// The run is over: an error ended it.
    Failed,
}

/// What the owner tells the poller.
#[derive(Clone, Debug, PartialEq, Eq)]
pub enum Event {
    /// The page arrived.
    Fetched,
    /// The page did not arrive, or could not be decoded.
    FetchFailed,
    /// The page was stored; these are the ids of its executions.
    Stored(Vec<i64>),
    /// The page could not be stored.
    StoreFailed,
    /// The sleep is over.
    Woke,
}

/// What the poller tells the owner to do.
#[derive(Clone, Copy, Debug, PartialEq, Eq, Structural)]
pub enum Action {
    /// Ask for the page below this cursor.
    Fetch(Option<i64>),
    /// Store the page that was fetched: in one transaction, all of it or
    /// nothing, or row by row.
    Store { transaction: bool },
    /// Sleep this many seconds, then say so.
    Sleep(u64),
    /// Stop: the run is done.
    Stop,
    /// Give up with the error that was just met.
    Abort,
}

/// The state of one run.
#[derive(Clone, Copy, Debug, PartialEq, Eq, Structural)]
pub struct Poller {
    /// The id below which the next page is asked for; `None` asks for the
    /// most recent executions.
    pub cursor: Option<i64>,
    /// The rounds that a bounded run has left; `None` for a run that never
    /// ends by itself.
    pub remaining: Option<u32>,
    /// What the poller waits for.
    pub phase: Phase,
}

/// The smallest of the ids.
pub open spec fn min_id(ids: Seq<i64>) -> int
    recommends
        ids.len() > 0,
    decreases ids.len(),
{
    if ids.len() <= 1 {
        ids[0] as int
    } else if ids.last() < min_id(ids.drop_last()) {
        ids.last() as int
    } else {
        min_id(ids.drop_last())
    }
}

/// The smallest id is one of the ids, and none is smaller.
pub proof fn lemma_min_id(ids: Seq<i64>)
    requires
        ids.len() > 0,
    ensures
        forall|i: int| 0 <= i < ids.len() ==> min_id(ids) <= #[trigger] ids[i],
        exists|i: int| 0 <= i < ids.len() && min_id(ids) == #[trigger] ids[i],
    decreases ids.len(),
{
    if ids.len() > 1 {
        let rest = ids.drop_last();
        lemma_min_id(rest);
        let at = choose|i: int| 0 <= i < rest.len() && min_id(rest) == #[trigger] rest[i];
        assert(ids[at] == rest[at]);
        assert forall|i: int| 0 <= i < ids.len() implies min_id(ids) <= #[trigger] ids[i] by {
            if i < rest.len() {
                assert(ids[i] == rest[i]);
            }
        }
        if ids.last() < min_id(rest) {
            assert(min_id(ids) == ids[ids.len() - 1]);
        } else {
            assert(min_id(ids) == ids[at]);
        }
    } else {
        assert(min_id(ids) == ids[0]);
    }
}

/// The cursor that follows a page: one below its smallest id.
pub open spec fn cursor_after(ids: Seq<i64>) -> int {
    min_id(ids) - 1
}

/// Whether a page can be taken: it holds an execution, and the cursor that
/// follows it is a number that the cursor can hold.
pub open spec fn page_fits(ids: Seq<i64>) -> bool {
    ids.len() > 0 && cursor_after(ids) >= i64::MIN
}

/// Whether a page can be taken.
pub fn fits(ids: &Vec<i64>) -> (fit: bool)
    ensures
        fit == page_fits(ids@),
{
    let mut i: usize = 0;
    while i < ids.len()
        invariant
            i <= ids.len(),
            forall|j: int| 0 <= j < i ==> ids[j] > i64::MIN,
        decreases ids.len() - i,
    {
        if ids[i] == i64::MIN {
            proof {
                lemma_min_id(ids@);
            }
            return false;
        }
        i += 1;
    }
    proof {
        if ids.len() > 0 {
            lemma_min_id(ids@);
        }
    }
    ids.len() > 0
}

/// The cursor that follows a page.
pub fn next_cursor(ids: &Vec<i64>) -> (cursor: i64)
    requires
        page_fits(ids@),
    ensures
        cursor == cursor_after(ids@),
{
    let mut least: i64 = ids[0];
    let mut i: usize = 1;
    assert(ids@.take(1) =~= seq![ids@[0]]);
    while i < ids.len()
        invariant
            1 <= i <= ids.len(),
            least == min_id(ids@.take(i as int)),
        decreases ids.len() - i,
    {
        assert(ids@.take(i + 1).drop_last() =~= ids@.take(i as int));
        if ids[i] < least {
            least = ids[i];
        }
        i += 1;
    }
    assert(ids@.take(ids.len() as int) =~= ids@);
    least - 1
}

/// Whether the poller can take the event: a page that was stored while
/// that was waited for must fit.
pub open spec fn takes(poller: Poller, event: Event) -> bool {
    poller.phase == Phase::Storing && event is Stored ==> page_fits(event->Stored_0@)
}

/// What the owner is to do in a phase when nothing new has happened.
pub open spec fn standing_action(poller: Poller) -> Action {
    match poller.phase {
        Phase::Fetching => Action::Fetch(poller.cursor),
        Phase::Storing => Action::Store { transaction: poller.remaining is None },
        Phase::Sleeping => Action::Sleep(RETRY_SECONDS),
        Phase::Done => Action::Stop,
        Phase::Failed => Action::Abort,
    }
}

/// The rounds that are left after one more.
pub open spec fn rounds_after(remaining: Option<u32>) -> Option<u32> {
    match remaining {
        Some(rounds) => Some(if rounds > 0 {
            (rounds - 1) as u32
        } else {
            0
        }),
        None => None,
    }
}

/// The state that follows an event.
///
/// While a page is waited for: a page that arrives is handed over to be
/// stored; a failure makes a run without end sleep, and ends a bounded run.
/// While a page is being stored: once it is stored the cursor moves below
/// it and a round is done, which ends a bounded run if it was its last; a
/// failure ends the run and leaves the cursor. After the sleep the same
/// page is asked for again. Any other event changes nothing.
pub open spec fn next_state(poller: Poller, event: Event) -> Poller {
    match (poller.phase, event) {
        (Phase::Fetching, Event::Fetched) => Poller { phase: Phase::Storing, ..poller },
        (Phase::Fetching, Event::FetchFailed) => Poller {
            phase: if poller.remaining is None {
                Phase::Sleeping
            } else {
                Phase::Failed
            },
            ..poller
        },
        (Phase::Storing, Event::Stored(ids)) => Poller {
            cursor: Some(cursor_after(ids@) as i64),
            remaining: rounds_after(poller.remaining),
            phase: if rounds_after(poller.remaining) == Some(0u32) {
                Phase::Done
            } else {
                Phase::Fetching
            },
        },
        (Phase::Storing, Event::StoreFailed) => Poller { phase: Phase::Failed, ..poller },
        (Phase::Sleeping, Event::Woke) => Poller { phase: Phase::Fetching, ..poller },
        _ => poller,
    }
}

/// Whether a page is what a request with the cursor `before` asks for: no
/// more than `PAGE_SIZE` executions, most recent first, and, where the
/// cursor is an id, all of them below it.
pub open spec fn answers(before: Option<i64>, ids: Seq<i64>) -> bool {
    &&& ids.len() <= PAGE_SIZE
    &&& forall|i: int, j: int| 0 <= i < j < ids.len() ==> ids[i] > ids[j]
    &&& forall|i: int|
        0 <= i < ids.len() && before is Some && before->Some_0 > 0 ==> #[trigger] ids[i]
            < before->Some_0
}

/// The state after one round that went well: the page arrived and was
/// stored.
pub open spec fn after_round(poller: Poller, page: Vec<i64>) -> Poller {
    next_state(next_state(poller, Event::Fetched), Event::Stored(page))
}

/// The state after several rounds that went well, one for each page.
pub open spec fn after_rounds(poller: Poller, pages: Seq<Vec<i64>>) -> Poller
    decreases pages.len(),
{
    if pages.len() == 0 {
        poller
    } else {
        after_round(after_rounds(poller, pages.drop_last()), pages.last())
    }
}

/// Whether the rounds of a run suffice for `n` more pages, with at least
/// `spare` rounds left after them.
pub open spec fn has_rounds(poller: Poller, n: nat, spare: nat) -> bool {
    poller.remaining is Some ==> n + spare <= poller.remaining->Some_0
}

/// The cursor that follows a page lies below every id of the page, by one
/// below the smallest.
pub proof fn lemma_cursor_below_page(ids: Seq<i64>)
    requires
        ids.len() > 0,
    ensures
        forall|i: int| 0 <= i < ids.len() ==> cursor_after(ids) < #[trigger] ids[i],
        exists|i: int| 0 <= i < ids.len() && cursor_after(ids) + 1 == #[trigger] ids[i],
{
    lemma_min_id(ids);
    let at = choose|i: int| 0 <= i < ids.len() && min_id(ids) == #[trigger] ids[i];
    assert(cursor_after(ids) + 1 == ids[at]);
}

/// A run that waits for a page, and has rounds for more pages than it is
/// given, waits for a page again after them, with so many rounds fewer, and
/// with the cursor below the last of the pages.
pub proof fn lemma_after_rounds(poller: Poller, pages: Seq<Vec<i64>>)
    requires
        poller.phase == Phase::Fetching,
        has_rounds(poller, pages.len(), 1),
        forall|i: int| 0 <= i < pages.len() ==> page_fits(#[trigger] pages[i]@),
    ensures
        after_rounds(poller, pages).phase == Phase::Fetching,
        poller.remaining is None ==> after_rounds(poller, pages).remaining is None,
        poller.remaining is Some ==> after_rounds(poller, pages).remaining == Some(
            (poller.remaining->Some_0 - pages.len()) as u32,
        ),
        pages.len() > 0 ==> after_rounds(poller, pages).cursor == Some(
            cursor_after(pages.last()@) as i64,
        ),
        pages.len() == 0 ==> after_rounds(poller, pages) == poller,
    decreases pages.len(),
{
    if pages.len() > 0 {
        let earlier = pages.drop_last();
        assert forall|i: int| 0 <= i < earlier.len() implies page_fits(#[trigger] earlier[i]@) by {
            assert(earlier[i] == pages[i]);
        }
        lemma_after_rounds(poller, earlier);
        assert(page_fits(pages[pages.len() - 1]@));
    }
}

/// The cursor moves down with every round that goes well.
///
/// Take a run that waits for a page and has rounds for all the pages given.
/// After the round of the page at `i` the cursor is one below the smallest
/// id of that page, so below every id that was just stored. Where the
/// cursor before that round was an id and the page answers it, the new
/// cursor is below the old one.
pub proof fn lemma_cursor_moves_down(poller: Poller, pages: Seq<Vec<i64>>, i: int)
    requires
        poller.phase == Phase::Fetching,
        has_rounds(poller, pages.len(), 0),
        forall|j: int| 0 <= j < pages.len() ==> page_fits(#[trigger] pages[j]@),
        0 <= i < pages.len(),
    ensures
        ({
            let before = after_rounds(poller, pages.take(i)).cursor;
            let after = after_rounds(poller, pages.take(i + 1)).cursor;
            &&& after == Some(cursor_after(pages[i]@) as i64)
            &&& forall|j: int| 0 <= j < pages[i]@.len() ==> after->Some_0 < #[trigger] pages[i]@[j]
            &&& before is Some && before->Some_0 > 0 && answers(before, pages[i]@)
                ==> after->Some_0 < before->Some_0
        }),
{
    let earlier = pages.take(i);
    assert(pages.take(i + 1).drop_last() =~= earlier);
    assert(pages.take(i + 1).last() == pages[i]);
    assert forall|j: int| 0 <= j < earlier.len() implies page_fits(#[trigger] earlier[j]@) by {
        assert(earlier[j] == pages[j]);
    }
    lemma_after_rounds(poller, earlier);
    assert(page_fits(pages[i]@));
    lemma_cursor_below_page(pages[i]@);
    let before = after_rounds(poller, earlier).cursor;
    if before is Some && before->Some_0 > 0 && answers(before, pages[i]@) {
        assert(pages[i]@[0] < before->Some_0);
    }
}

/// A page that cannot be stored ends the run and leaves the cursor where it
/// was; whatever is told to the poller after that changes nothing.
pub proof fn lemma_failed_store_ends_the_run(poller: Poller, later: Event)
    requires
        poller.phase == Phase::Storing,
    ensures
        next_state(poller, Event::StoreFailed).phase == Phase::Failed,
        next_state(poller, Event::StoreFailed).cursor == poller.cursor,
        next_state(next_state(poller, Event::StoreFailed), later) == next_state(
            poller,
            Event::StoreFailed,
        ),
        standing_action(next_state(poller, Event::StoreFailed)) == Action::Abort,
{
}

/// A fetch that fails leaves the cursor where it was: a run without end
/// sleeps and then asks for the same page again, a bounded run gives up.
pub proof fn lemma_failed_fetch_keeps_the_cursor(poller: Poller)
    requires
        poller.phase == Phase::Fetching,
    ensures
        next_state(poller, Event::FetchFailed).cursor == poller.cursor,
        poller.remaining is None ==> {
            &&& standing_action(next_state(poller, Event::FetchFailed)) == Action::Sleep(
                RETRY_SECONDS,
            )
            &&& next_state(next_state(poller, Event::FetchFailed), Event::Woke) == poller
        },
        poller.remaining is Some ==> standing_action(next_state(poller, Event::FetchFailed))
            == Action::Abort,
{
}

/// A run without end is never done, whatever happens.
pub proof fn lemma_unbounded_is_never_done(poller: Poller, event: Event)
    requires
        poller.remaining is None,
        poller.phase != Phase::Done,
    ensures
        next_state(poller, event).remaining is None,
        next_state(poller, event).phase != Phase::Done,
{
}

/// A bounded run is done after `BOUNDED_ROUNDS` rounds that went well, and
/// not before.
pub proof fn lemma_bounded_run_ends(stored_minimum: Option<i64>, pages: Seq<Vec<i64>>)
    requires
        pages.len() <= BOUNDED_ROUNDS,
        forall|i: int| 0 <= i < pages.len() ==> page_fits(#[trigger] pages[i]@),
    ensures
        after_rounds(Poller::initial(stored_minimum, Some(BOUNDED_ROUNDS)), pages).phase == (if pages.len()
            == BOUNDED_ROUNDS {
            Phase::Done
        } else {
            Phase::Fetching
        }),
{
    let start = Poller::initial(stored_minimum, Some(BOUNDED_ROUNDS));
    if pages.len() == BOUNDED_ROUNDS {
        let earlier = pages.drop_last();
        assert forall|i: int| 0 <= i < earlier.len() implies page_fits(#[trigger] earlier[i]@) by {
            assert(earlier[i] == pages[i]);
        }
        lemma_after_rounds(start, earlier);
    } else {
        lemma_after_rounds(start, pages);
    }
}

impl Poller {
    /// The state in which a run starts: the cursor is the smallest id that
    /// is stored already, if there is one; a bounded run has `rounds` rounds
    /// before it, a run with `None` never ends by itself. A bounded run of
    /// no rounds is done at once.
    pub open spec fn initial(stored_minimum: Option<i64>, rounds: Option<u32>) -> Poller {
        Poller {
            cursor: stored_minimum,
            remaining: rounds,
            phase: if rounds == Some(0u32) {
                Phase::Done
            } else {
                Phase::Fetching
            },
        }
    }

    /// Starts a run.
    pub fn start(stored_minimum: Option<i64>, rounds: Option<u32>) -> (poller: Poller)
        ensures
            poller == Poller::initial(stored_minimum, rounds),
    {
        let phase = match rounds {
            Some(0) => Phase::Done,
            _ => Phase::Fetching,
        };
        Poller { cursor: stored_minimum, remaining: rounds, phase }
    }

    /// Starts a run of `BOUNDED_ROUNDS` pages.
    pub fn bounded(stored_minimum: Option<i64>) -> (poller: Poller)
        ensures
            poller == Poller::initial(stored_minimum, Some(BOUNDED_ROUNDS)),
    {
        Poller::start(stored_minimum, Some(BOUNDED_ROUNDS))
    }

    /// Starts a run that never ends by itself.
    pub fn unbounded(stored_minimum: Option<i64>) -> (poller: Poller)
        ensures
            poller == Poller::initial(stored_minimum, None),
    {
        Poller::start(stored_minimum, None)
    }

    /// What the owner is to do now.
    pub fn action(&self) -> (action: Action)
        ensures
            action == standing_action(*self),
    {
        match self.phase {
            Phase::Fetching => Action::Fetch(self.cursor),
            Phase::Storing => Action::Store { transaction: self.remaining.is_none() },
            Phase::Sleeping => Action::Sleep(RETRY_SECONDS),
            Phase::Done => Action::Stop,
            Phase::Failed => Action::Abort,
        }
    }

    /// Takes what happened and says what to do next.
    pub fn step(&mut self, event: &Event) -> (action: Action)
        requires
            takes(*old(self), *event),
        ensures
            *final(self) == next_state(*old(self), *event),
            action == standing_action(*final(self)),
    {
        match (self.phase, event) {
            (Phase::Fetching, Event::Fetched) => {
                self.phase = Phase::Storing;
            },
            (Phase::Fetching, Event::FetchFailed) => {
                if self.remaining.is_none() {
                    self.phase = Phase::Sleeping;
                } else {
                    self.phase = Phase::Failed;
                }
            },
            (Phase::Storing, Event::Stored(ids)) => {
                self.cursor = Some(next_cursor(ids));
                match self.remaining {
                    Some(rounds) => {
                        let left: u32 = if rounds > 0 {
                            rounds - 1
                        } else {
                            0
                        };
                        self.remaining = Some(left);
                        if left == 0 {
                            self.phase = Phase::Done;
                        } else {
                            self.phase = Phase::Fetching;
                        }
                    },
                    None => {
                        self.phase = Phase::Fetching;
                    },
                }
            },
            (Phase::Storing, Event::StoreFailed) => {
                self.phase = Phase::Failed;
            },
            (Phase::Sleeping, Event::Woke) => {
                self.phase = Phase::Fetching;
            },
            _ => {},
        }
        self.action()
    }
}

} // verus!
