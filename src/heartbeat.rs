//! The heartbeat monitor: an edge-triggered state machine over observations
//! of the liveness marker's age.
use vstd::prelude::*;

verus! {

/// How stale, in seconds, the marker may be before the workspace is stopped.
pub const STALE_AFTER_SECS: u64 = 60;

/// Seconds between two observations.
pub const TICK_SECS: u64 = 30;

/// What a tick asks of the caller.
#[derive(Clone, Copy, Debug, PartialEq, Eq, Structural)]
pub enum HeartbeatAction {
    /// Call the control API to stop the workspace.
    Deactivate,
    /// Nothing to do this tick.
    Idle,
}

/// The monitor's state: whether the workspace is taken to be running.
#[derive(Clone, Copy, Debug, PartialEq, Eq, Structural)]
pub struct HeartbeatMonitor {
    pub running: bool,
}

/// One tick from state `running` on an observation: `None` when the marker
/// could not be read, else its age in seconds. Gives the next state and
/// whether the deactivate call fires.
pub open spec fn step(running: bool, obs: Option<u64>) -> (bool, bool) {
    match obs {
        None => (running, false),
        Some(age) => if age > STALE_AFTER_SECS {
            (false, running)
        } else {
            (true, false)
        },
    }
}

/// The state after a sequence of observations, from the initial state.
pub open spec fn running_after(obs: Seq<Option<u64>>) -> bool
    decreases obs.len(),
{
    if obs.len() == 0 {
        true
    } else {
        step(running_after(obs.drop_last()), obs.last()).0
    }
}

/// Whether the deactivate call fires at tick `i` of `obs`.
pub open spec fn fires_at(obs: Seq<Option<u64>>, i: int) -> bool {
    step(running_after(obs.take(i)), obs[i]).1
}

/// How many times the deactivate call fires over `obs`.
pub open spec fn fire_count(obs: Seq<Option<u64>>) -> nat
    decreases obs.len(),
{
    if obs.len() == 0 {
        0
    } else {
        fire_count(obs.drop_last()) + if fires_at(obs, obs.len() - 1) {
            1nat
        } else {
            0nat
        }
    }
}

/// Tick `i` observed a stale marker.
pub open spec fn is_stale(obs: Seq<Option<u64>>, i: int) -> bool {
    obs[i] matches Some(age) && age > STALE_AFTER_SECS
}

/// Tick `i` observed a fresh marker.
pub open spec fn is_fresh(obs: Seq<Option<u64>>, i: int) -> bool {
    obs[i] matches Some(age) && age <= STALE_AFTER_SECS
}

/// The last marker observed before tick `i` was fresh, or none was observed.
pub open spec fn fresh_before(obs: Seq<Option<u64>>, i: int) -> bool
    decreases i,
{
    if i <= 0 {
        true
    } else if obs[i - 1] is None {
        fresh_before(obs, i - 1)
    } else {
        is_fresh(obs, i - 1)
    }
}

/// The number of falling edges in `obs`: stale ticks whose last observed
/// predecessor was fresh, or that have none.
pub open spec fn falling_edges(obs: Seq<Option<u64>>) -> nat
    decreases obs.len(),
{
    if obs.len() == 0 {
        0
    } else {
        falling_edges(obs.drop_last()) + if is_stale(obs, obs.len() - 1) && fresh_before(
            obs,
            obs.len() - 1,
        ) {
            1nat
        } else {
            0nat
        }
    }
}

proof fn lemma_running_is_fresh_before(obs: Seq<Option<u64>>, i: int)
    requires
        0 <= i <= obs.len(),
    ensures
        running_after(obs.take(i)) == fresh_before(obs, i),
    decreases i,
{
    if i > 0 {
        lemma_running_is_fresh_before(obs, i - 1);
        assert(obs.take(i).drop_last() =~= obs.take(i - 1));
    }
}

/// The deactivate call fires at a tick exactly when the marker is stale there
/// and the last marker observed before it was fresh (or there was none).
pub proof fn lemma_fires_on_falling_edge(obs: Seq<Option<u64>>, i: int)
    requires
        0 <= i < obs.len(),
    ensures
        fires_at(obs, i) <==> is_stale(obs, i) && fresh_before(obs, i),
{
    lemma_running_is_fresh_before(obs, i);
}

/// Over any run, the deactivate call fires once per falling edge.
pub proof fn lemma_fire_count(obs: Seq<Option<u64>>)
    ensures
        fire_count(obs) == falling_edges(obs),
    decreases obs.len(),
{
    if obs.len() > 0 {
        let p = obs.drop_last();
        lemma_fire_count(p);
        lemma_fires_on_falling_edge(obs, obs.len() - 1);
        assert forall|i: int| 0 <= i < p.len() implies fires_at(p, i) == fires_at(obs, i) by {
            assert(p.take(i) =~= obs.take(i));
        }
        lemma_fire_count_prefix(p, obs);
        lemma_fresh_before_prefix(p, obs, p.len() as int);
    }
}

proof fn lemma_fresh_before_prefix(p: Seq<Option<u64>>, obs: Seq<Option<u64>>, i: int)
    requires
        p.len() <= obs.len(),
        forall|j: int| 0 <= j < p.len() ==> p[j] == obs[j],
        i <= p.len(),
    ensures
        fresh_before(p, i) == fresh_before(obs, i),
    decreases i,
{
    if i > 0 {
        lemma_fresh_before_prefix(p, obs, i - 1);
    }
}

proof fn lemma_fire_count_prefix(p: Seq<Option<u64>>, obs: Seq<Option<u64>>)
    requires
        p.len() + 1 == obs.len(),
        p == obs.drop_last(),
    ensures
        fire_count(obs) == fire_count(p) + if fires_at(obs, obs.len() - 1) {
            1nat
        } else {
            0nat
        },
        falling_edges(obs) == falling_edges(p) + if is_stale(obs, obs.len() - 1) && fresh_before(
            obs,
            obs.len() - 1,
        ) {
            1nat
        } else {
            0nat
        },
{
}

/// Two firings are always separated by a tick that observed a fresh marker.
pub proof fn lemma_fires_once_per_stale_period(obs: Seq<Option<u64>>, i: int, j: int)
    requires
        0 <= i < j < obs.len(),
        fires_at(obs, i),
        fires_at(obs, j),
    ensures
        exists|k: int| i < k < j && #[trigger] is_fresh(obs, k),
{
    lemma_fires_on_falling_edge(obs, i);
    lemma_fires_on_falling_edge(obs, j);
    lemma_fresh_witness(obs, i, j);
}

proof fn lemma_fresh_witness(obs: Seq<Option<u64>>, i: int, j: int)
    requires
        0 <= i < j <= obs.len(),
        is_stale(obs, i),
        fresh_before(obs, j),
    ensures
        exists|k: int| i < k < j && #[trigger] is_fresh(obs, k),
    decreases j - i,
{
    if j - 1 == i {
        assert(!fresh_before(obs, j));
    } else if obs[j - 1] is None {
        lemma_fresh_witness(obs, i, j - 1);
        let k = choose|k: int| i < k < j - 1 && #[trigger] is_fresh(obs, k);
        assert(i < k < j && is_fresh(obs, k));
    } else {
        assert(is_fresh(obs, j - 1));
    }
}

impl HeartbeatMonitor {
    /// A monitor that takes the workspace to be running.
    pub fn new() -> (r: Self)
        ensures
            r.running,
    {
        HeartbeatMonitor { running: true }
    }

    /// Takes one observation and says whether to stop the workspace now.
    pub fn observe(&mut self, obs: Option<u64>) -> (r: HeartbeatAction)
        ensures
            final(self).running == step(old(self).running, obs).0,
            (r == HeartbeatAction::Deactivate) == step(old(self).running, obs).1,
    {
        match obs {
            None => HeartbeatAction::Idle,
            Some(age) => {
                if age > STALE_AFTER_SECS {
                    let fire = self.running;
                    self.running = false;
                    if fire {
                        HeartbeatAction::Deactivate
                    } else {
                        HeartbeatAction::Idle
                    }
                } else {
                    self.running = true;
                    HeartbeatAction::Idle
                }
            },
        }
    }
}

/// The marker's age in seconds; a marker dated in the future counts as fresh.
pub fn marker_age(now_secs: u64, modified_secs: u64) -> (r: u64)
    ensures
        modified_secs <= now_secs ==> r == now_secs - modified_secs,
        modified_secs > now_secs ==> r == 0,
{
    if modified_secs <= now_secs {
        now_secs - modified_secs
    } else {
        0
    }
}

} // verus!
