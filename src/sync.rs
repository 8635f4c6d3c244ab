//! The sync poller's decisions: how long to wait after each listing, and the
//! walk through one batch of directives with its acknowledgements.
use vstd::prelude::*;
use crate::fetcher::{FetchError, FetchOutcome};

verus! {

/// Seconds between two listings in the normal course.
pub const POLL_SECS: u64 = 30;

/// Seconds before listing again after a response that did not parse.
pub const MALFORMED_RETRY_SECS: u64 = 10;

/// One file to bring into the workspace.
#[derive(Clone, Debug)]
pub struct SyncDirective {
    /// The control API's id, present only for directives that it listed.
    pub id: Option<u64>,
    pub url: String,
    /// Workspace-relative destination.
    pub path: String,
}

impl SyncDirective {
    pub fn new(id: Option<u64>, url: String, path: String) -> (r: Self)
        ensures
            r.id == id,
            r.url@ == url@,
            r.path@ == path@,
    {
        SyncDirective { id, url, path }
    }
}

/// What asking the control API for pending directives gave.
#[derive(Debug)]
pub enum ListOutcome {
    /// The API could not be reached.
    Unreachable,
    /// The API answered with a body that is not a list of directives.
    Malformed,
    /// The pending directives, in the API's order.
    Listed(Vec<SyncDirective>),
}

/// The wait after a listing.
pub open spec fn spec_wait_after(outcome: ListOutcome) -> u64 {
    match outcome {
        ListOutcome::Malformed => MALFORMED_RETRY_SECS,
        _ => POLL_SECS,
    }
}

/// Seconds to wait before the next listing: shorter after a malformed body.
pub fn wait_after(outcome: &ListOutcome) -> (r: u64)
    ensures
        r == spec_wait_after(*outcome),
{
    match outcome {
        ListOutcome::Malformed => MALFORMED_RETRY_SECS,
        _ => POLL_SECS,
    }
}

/// The ids that a batch acknowledges, in order: those of the directives whose
/// fetch succeeded (`oks`) and that carry an id.
pub open spec fn batch_acks(ids: Seq<Option<u64>>, oks: Seq<bool>) -> Seq<u64>
    decreases oks.len(),
{
    if oks.len() == 0 || ids.len() == 0 {
        Seq::empty()
    } else {
        batch_acks(ids.drop_last(), oks.drop_last()) + if oks.last() && ids.last() is Some {
            seq![ids.last()->Some_0]
        } else {
            Seq::empty()
        }
    }
}

/// The ids of a sequence of directives.
pub open spec fn ids_of(ds: Seq<SyncDirective>) -> Seq<Option<u64>> {
    ds.map_values(|d: SyncDirective| d.id)
}

/// A directive whose fetch succeeded is acknowledged whatever happened to the
/// other directives of its batch.
pub proof fn lemma_failure_isolation(ids: Seq<Option<u64>>, oks: Seq<bool>, i: int)
    requires
        ids.len() == oks.len(),
        0 <= i < oks.len(),
        oks[i],
        ids[i] is Some,
    ensures
        batch_acks(ids, oks).contains(ids[i]->Some_0),
    decreases oks.len(),
{
    let n = oks.len();
    let tail = if oks.last() && ids.last() is Some {
        seq![ids.last()->Some_0]
    } else {
        Seq::<u64>::empty()
    };
    assert(batch_acks(ids, oks) == batch_acks(ids.drop_last(), oks.drop_last()) + tail);
    if i == n - 1 {
        assert(batch_acks(ids, oks)[batch_acks(ids, oks).len() - 1] == ids[i]->Some_0);
    } else {
        lemma_failure_isolation(ids.drop_last(), oks.drop_last(), i);
        let prev = batch_acks(ids.drop_last(), oks.drop_last());
        let k = choose|k: int| 0 <= k < prev.len() && prev[k] == ids[i]->Some_0;
        assert((prev + tail)[k] == ids[i]->Some_0);
    }
}

/// One batch of directives being fetched one at a time, in order.
pub struct BatchRun {
    directives: Vec<SyncDirective>,
    next: usize,
    acked: Vec<u64>,
    oks: Ghost<Seq<bool>>,
}

impl BatchRun {
    /// The batch's directives.
    pub closed spec fn directives(&self) -> Seq<SyncDirective> {
        self.directives@
    }

    /// How many directives have been dealt with.
    pub closed spec fn position(&self) -> nat {
        self.next as nat
    }

    /// Whether each dealt-with directive's fetch succeeded.
    pub closed spec fn outcomes(&self) -> Seq<bool> {
        self.oks@
    }

    /// The ids acknowledged so far.
    pub closed spec fn acked(&self) -> Seq<u64> {
        self.acked@
    }

    pub open spec fn wf(&self) -> bool {
        &&& self.position() <= self.directives().len()
        &&& self.outcomes().len() == self.position()
        &&& self.acked() == batch_acks(
            ids_of(self.directives()).take(self.position() as int),
            self.outcomes(),
        )
    }

    /// A batch with nothing dealt with yet.
    pub fn new(directives: Vec<SyncDirective>) -> (r: Self)
        ensures
            r.wf(),
            r.directives() == directives@,
            r.position() == 0,
    {
        BatchRun { directives, next: 0, acked: Vec::new(), oks: Ghost(Seq::empty()) }
    }

    /// The directive to fetch next, if any is left.
    pub fn current(&self) -> (r: Option<&SyncDirective>)
        requires
            self.wf(),
        ensures
            self.position() < self.directives().len() ==> r == Some(
                &self.directives()[self.position() as int],
            ),
            self.position() == self.directives().len() ==> r is None,
    {
        if self.next < self.directives.len() {
            Some(&self.directives[self.next])
        } else {
            None
        }
    }

    /// Whether every directive has been dealt with.
    pub fn is_done(&self) -> (r: bool)
        requires
            self.wf(),
        ensures
            r == (self.position() == self.directives().len()),
    {
        self.next == self.directives.len()
    }

    /// Records the fetch result of the current directive and moves on, whatever
    /// the result; gives the id to acknowledge, if there is one.
    pub fn record(&mut self, result: &Result<FetchOutcome, FetchError>) -> (r: Option<u64>)
        requires
            old(self).wf(),
            old(self).position() < old(self).directives().len(),
        ensures
            final(self).wf(),
            final(self).directives() == old(self).directives(),
            final(self).position() == old(self).position() + 1,
            final(self).outcomes() == old(self).outcomes().push(result is Ok),
            r == (if result is Ok {
                old(self).directives()[old(self).position() as int].id
            } else {
                None
            }),
            final(self).acked() == old(self).acked() + match r {
                Some(id) => seq![id],
                None => Seq::empty(),
            },
    {
        let ok = result.is_ok();
        let len = self.directives.len();
        proof {
            assert(self.next < len);
        }
        let id = self.directives[self.next].id;
        let r = if ok {
            id
        } else {
            None
        };
        if let Some(v) = r {
            self.acked.push(v);
        }
        let ghost ids = ids_of(self.directives@);
        let ghost n = self.next as int;
        self.oks = Ghost(self.oks@.push(ok));
        self.next = self.next + 1;
        proof {
            assert(ids.take(n + 1).drop_last() =~= ids.take(n));
            assert(self.oks@.drop_last() =~= old(self).oks@);
            assert(self.acked@ =~= old(self).acked@ + match r {
                Some(id) => seq![id],
                None => Seq::<u64>::empty(),
            });
        }
        r
    }

    /// The ids acknowledged so far, in order.
    pub fn acked_ids(&self) -> (r: &Vec<u64>)
        ensures
            r@ == self.acked(),
    {
        &self.acked
    }
}

/// The work of one tick and the wait that follows it.
pub struct TickPlan {
    /// The directives to fetch, when the listing gave any.
    pub batch: Option<BatchRun>,
    pub wait_secs: u64,
}

/// Plans a tick from its listing. The poller keeps nothing between ticks, so a
/// well-formed listing is handled alike whatever the ticks before it gave.
pub fn plan_tick(outcome: ListOutcome) -> (r: TickPlan)
    ensures
        r.wait_secs == spec_wait_after(outcome),
        match outcome {
            ListOutcome::Listed(ds) => r.batch matches Some(b) && b.wf() && b.directives() == ds@
                && b.position() == 0,
            _ => r.batch is None,
        },
{
    let wait_secs = wait_after(&outcome);
    match outcome {
        ListOutcome::Listed(ds) => TickPlan { batch: Some(BatchRun::new(ds)), wait_secs },
        _ => TickPlan { batch: None, wait_secs },
    }
}

} // verus!
