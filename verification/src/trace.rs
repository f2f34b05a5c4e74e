//! Runs of the protocol: what holds of every sequence of requests that a
//! server can hear, in whatever order the requests of different clients
//! arrive.

use crate::message::{Event, ProtocolError, Reply};
use crate::protocol::{
    answered, lemma_step_ids, lemma_step_isolated, lemma_step_keeps_wf, verdict,
};
use crate::scan::{lemma_advance_shrinks, lemma_fold_shrinks, OpType, Scan};
use crate::store::Store;
use vstd::prelude::*;

verus! {

impl Store {
    /// The store after a sequence of requests, first to last.
    pub open spec fn run(self, events: Seq<Event>) -> Store
        decreases events.len(),
    {
        if events.len() == 0 {
            self
        } else {
            self.run(events.drop_last()).step(events.last()).0
        }
    }

    /// The reply to the request at position `i` of a run.
    pub open spec fn reply(self, events: Seq<Event>, i: int) -> Reply {
        self.run(events.take(i)).step(events[i]).1
    }
}

/// The answers that a run addresses to the search `id`, in order.
pub open spec fn answers_to(events: Seq<Event>, id: nat) -> Seq<bool>
    decreases events.len(),
{
    if events.len() == 0 {
        Seq::empty()
    } else {
        let earlier = answers_to(events.drop_last(), id);
        match events.last() {
            Event::Answer { id: to, answer } if to == id => earlier.push(answer),
            _ => earlier,
        }
    }
}

/// What a sequence of answers does to a search, seen on its own.
pub open spec fn answered_all(slot: Option<Scan>, answers: Seq<bool>) -> Option<Scan>
    decreases answers.len(),
{
    if answers.len() == 0 {
        slot
    } else {
        answered(answered_all(slot, answers.drop_last()), answers.last())
    }
}

/// A run can be cut in two at any position.
pub proof fn lemma_run_split(store: Store, events: Seq<Event>, k: int)
    requires
        0 <= k <= events.len(),
    ensures
        store.run(events) == store.run(events.take(k)).run(events.skip(k)),
    decreases events.len(),
{
    if k == events.len() {
        assert(events.take(k) =~= events);
        assert(events.skip(k).len() == 0);
    } else {
        lemma_run_split(store, events.drop_last(), k);
        assert(events.drop_last().take(k) =~= events.take(k));
        assert(events.drop_last().skip(k) =~= events.skip(k).drop_last());
        assert(events.skip(k).last() == events.last());
    }
}

/// No run breaks the store's invariant.
pub proof fn lemma_run_keeps_wf(store: Store, events: Seq<Event>)
    requires
        store.wf(),
    ensures
        store.run(events).wf(),
    decreases events.len(),
{
    if events.len() > 0 {
        lemma_run_keeps_wf(store, events.drop_last());
        lemma_step_keeps_wf(store.run(events.drop_last()), events.last());
    }
}

/// The last id handed out never goes down in a run.
pub proof fn lemma_run_ids(store: Store, events: Seq<Event>)
    ensures
        store.last_id <= store.run(events).last_id,
    decreases events.len(),
{
    if events.len() > 0 {
        lemma_run_ids(store, events.drop_last());
        lemma_step_ids(store.run(events.drop_last()), events.last());
    }
}

/// Ids are handed out in strictly increasing order: of two searches started
/// in one run, the later gets the greater id, whatever was started, answered
/// or completed in between.
pub proof fn lemma_ids_increase(store: Store, events: Seq<Event>, i: int, j: int)
    requires
        0 <= i < j < events.len(),
        events[i] is Start,
        events[j] is Start,
        store.reply(events, i) is Compare,
        store.reply(events, j) is Compare,
    ensures
        store.reply(events, i)->id < store.reply(events, j)->id,
{
    let before_i = store.run(events.take(i));
    let after_i = store.run(events.take(i + 1));
    let before_j = store.run(events.take(j));
    lemma_step_ids(before_i, events[i]);
    lemma_step_ids(before_j, events[j]);
    assert(after_i == before_i.step(events[i]).0) by {
        assert(events.take(i + 1).drop_last() =~= events.take(i));
        assert(events.take(i + 1).last() == events[i]);
    }
    assert(after_i.last_id <= before_j.last_id) by {
        lemma_run_split(store, events.take(j), i + 1);
        assert(events.take(j).take(i + 1) =~= events.take(i + 1));
        lemma_run_ids(after_i, events.take(j).skip(i + 1));
    }
}

/// On its own, a search that is scanning follows its answers until they are
/// as many as the comparisons that remained, and is gone from then on.
pub proof fn lemma_answered_all(scan: Scan, answers: Seq<bool>)
    requires
        scan.scanning(),
    ensures
        answers.len() < scan.remaining() ==> answered_all(Some(scan), answers) == Some(
            scan.fold(answers),
        ),
        answers.len() >= scan.remaining() ==> answered_all(Some(scan), answers) is None,
    decreases answers.len(),
{
    if answers.len() > 0 {
        let earlier = answers.drop_last();
        lemma_answered_all(scan, earlier);
        if earlier.len() < scan.remaining() {
            lemma_fold_shrinks(scan, earlier);
            lemma_advance_shrinks(scan.fold(earlier), answers.last());
        }
    }
}

/// Searches are isolated from each other. After any run, the search under
/// an id that had been handed out before the run is where the answers
/// addressed to it alone would have taken it: nothing that the server heard
/// in between, for other searches, makes a difference.
pub proof fn lemma_run_isolated(store: Store, events: Seq<Event>, id: nat)
    requires
        id <= store.last_id,
    ensures
        store.run(events).probe(id) == answered_all(store.probe(id), answers_to(events, id)),
    decreases events.len(),
{
    if events.len() > 0 {
        let before = store.run(events.drop_last());
        lemma_run_isolated(store, events.drop_last(), id);
        lemma_run_ids(store, events.drop_last());
        lemma_step_isolated(before, events.last(), id);
        let earlier = answers_to(events.drop_last(), id);
        match events.last() {
            Event::Answer { id: to, answer } => {
                if to == id {
                    assert(earlier.push(answer).drop_last() =~= earlier);
                }
            },
            Event::Start { .. } => {},
        }
    }
}

/// The reply to an answer in a run depends only on the search it is
/// addressed to, and on the answers which that search has heard before.
pub proof fn lemma_reply_isolated(store: Store, events: Seq<Event>, i: int, id: nat)
    requires
        id <= store.last_id,
        0 <= i < events.len(),
        events[i] is Answer,
        events[i]->Answer_id == id,
    ensures
        store.reply(events, i) == verdict(
            answered_all(store.probe(id), answers_to(events.take(i), id)),
            id,
            events[i]->answer,
        ),
{
    lemma_run_isolated(store, events.take(i), id);
    lemma_run_ids(store, events.take(i));
    lemma_step_isolated(store.run(events.take(i)), events[i], id);
}

/// A search over `n >= 2` elements that is started in a well-formed store
/// gets the next id and a window over the whole list. From then on, whatever
/// else the server hears, it follows the answers addressed to it: it is in
/// flight while it has heard fewer than `n - 1` of them, and gone once it has
/// heard that many.
pub proof fn lemma_search_progress(store: Store, op: OpType, n: nat, events: Seq<Event>)
    requires
        store.wf(),
        store.last_id < u32::MAX,
        n >= 2,
    ensures
        ({
            let id = store.last_id + 1;
            let (started, first) = store.start(op, n);
            let heard = answers_to(events, id);
            &&& first == Reply::Compare { left: 0, right: (n - 1) as nat, id }
            &&& started.probe(id) == Some(Scan::fresh(op, n))
            &&& heard.len() < n - 1 ==> started.run(events).probe(id) == Some(
                Scan::fresh(op, n).fold(heard),
            )
            &&& heard.len() >= n - 1 ==> started.run(events).probe(id) is None
        }),
{
    let id = store.last_id + 1;
    let started = store.start(op, n).0;
    lemma_run_isolated(started, events, id);
    lemma_answered_all(Scan::fresh(op, n), answers_to(events, id));
}

/// Termination. A search over `n >= 2` elements that is started in a
/// well-formed store ends with its `(n - 1)`-th answer, whatever the answers
/// are and whatever else the server hears in between. Each earlier answer is
/// replied to with the next comparison, the `(n - 1)`-th with a result that
/// is a position of the list, and any later one is turned down.
pub proof fn lemma_search_terminates(
    store: Store,
    op: OpType,
    n: nat,
    events: Seq<Event>,
    i: int,
)
    requires
        store.wf(),
        store.last_id < u32::MAX,
        n >= 2,
        0 <= i < events.len(),
        events[i] is Answer,
        events[i]->Answer_id == store.last_id + 1,
    ensures
        ({
            let id = store.last_id + 1;
            let started = store.start(op, n).0;
            let heard = answers_to(events.take(i + 1), id);
            let window = Scan::fresh(op, n).fold(heard);
            let reply = started.reply(events, i);
            &&& heard.len() >= 1
            &&& heard.len() < n - 1 ==> reply == Reply::Compare {
                left: window.left,
                right: window.right,
                id,
            }
            &&& heard.len() == n - 1 ==> reply == Reply::Done { result: window.left }
                && window.left <= n - 1
            &&& heard.len() > n - 1 ==> reply == Reply::Error {
                reason: ProtocolError::UnknownComputation,
            }
        }),
{
    let id = store.last_id + 1;
    let started = store.start(op, n).0;
    let fresh = Scan::fresh(op, n);
    let earlier = answers_to(events.take(i), id);
    let heard = answers_to(events.take(i + 1), id);
    assert(heard == earlier.push(events[i]->answer)) by {
        assert(events.take(i + 1).drop_last() =~= events.take(i));
        assert(events.take(i + 1).last() == events[i]);
    }
    assert(heard.drop_last() =~= earlier);
    lemma_reply_isolated(started, events, i, id);
    lemma_answered_all(fresh, earlier);
    if earlier.len() < n - 1 {
        lemma_fold_shrinks(fresh, earlier);
        lemma_advance_shrinks(fresh.fold(earlier), events[i]->answer);
    }
}

/// Once a search has delivered its result, its id is dead: every later
/// answer under that id is turned down, and leaves the store as it was.
pub proof fn lemma_done_is_final(store: Store, events: Seq<Event>, i: int, j: int)
    requires
        store.wf(),
        0 <= i < j < events.len(),
        events[i] is Answer,
        events[j] is Answer,
        events[i]->Answer_id == events[j]->Answer_id,
        store.reply(events, i) is Done,
    ensures
        store.reply(events, j) == (Reply::Error { reason: ProtocolError::UnknownComputation }),
        store.run(events.take(j + 1)) == store.run(events.take(j)),
{
    let id = events[i]->Answer_id;
    let before = store.run(events.take(i));
    let after = store.run(events.take(i + 1));
    lemma_run_keeps_wf(store, events.take(i));
    assert(after == before.step(events[i]).0) by {
        assert(events.take(i + 1).drop_last() =~= events.take(i));
        assert(events.take(i + 1).last() == events[i]);
    }
    assert(after.probe(id) is None && id <= after.last_id);
    let between = events.take(j).skip(i + 1);
    assert(store.run(events.take(j)) == after.run(between)) by {
        lemma_run_split(store, events.take(j), i + 1);
        assert(events.take(j).take(i + 1) =~= events.take(i + 1));
    }
    lemma_run_isolated(after, between, id);
    lemma_gone_stays_gone(answers_to(between, id));
    assert(store.run(events.take(j + 1)) == store.run(events.take(j)).step(events[j]).0) by {
        assert(events.take(j + 1).drop_last() =~= events.take(j));
        assert(events.take(j + 1).last() == events[j]);
    }
}

/// No answer brings back a search that is gone.
pub proof fn lemma_gone_stays_gone(answers: Seq<bool>)
    ensures
        answered_all(None, answers) is None,
    decreases answers.len(),
{
    if answers.len() > 0 {
        lemma_gone_stays_gone(answers.drop_last());
    }
}

} // verus!
