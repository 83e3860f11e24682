use vstd::prelude::*;
use crate::error::PipelineError;

verus! {

/// A pool of committed primary keys that later stages draw foreign keys from.
#[derive(Clone, Copy, Debug, PartialEq, Eq, Structural)]
pub enum Pool {
    Sexes,
    Plans,
    Interests,
    Cities,
    SearchPreferences,
    BillingAddresses,
    PaymentData,
    Subscriptions,
    Admins,
    UserDetails,
    Matches,
    Conversations,
    Reports,
}

pub const NUM_POOLS: usize = 13;

/// One step of the run, in the order the run takes them.
#[derive(Clone, Copy, Debug, PartialEq, Eq, Structural)]
pub enum Stage {
    Sexes,
    Plans,
    Interests,
    Cities,
    SearchPreferences,
    BillingAddresses,
    PaymentData,
    Subscriptions,
    Admins,
    Users,
    UserInterests,
    Interactions,
    Conversations,
    Messages,
    Images,
    SearchPreferenceSexes,
    SearchPreferenceInterests,
    Reports,
    Bans,
    Blocks,
}

pub const NUM_STAGES: usize = 20;

/// The stages, in order.
pub open spec fn stage_order() -> Seq<Stage> {
    seq![
        Stage::Sexes,
        Stage::Plans,
        Stage::Interests,
        Stage::Cities,
        Stage::SearchPreferences,
        Stage::BillingAddresses,
        Stage::PaymentData,
        Stage::Subscriptions,
        Stage::Admins,
        Stage::Users,
        Stage::UserInterests,
        Stage::Interactions,
        Stage::Conversations,
        Stage::Messages,
        Stage::Images,
        Stage::SearchPreferenceSexes,
        Stage::SearchPreferenceInterests,
        Stage::Reports,
        Stage::Bans,
        Stage::Blocks,
    ]
}

/// The pools that must hold at least one key before the stage may run.
pub open spec fn mandatory(s: Stage) -> Seq<Pool> {
    match s {
        Stage::BillingAddresses => seq![Pool::Cities],
        Stage::Subscriptions => seq![Pool::Plans],
        Stage::Users => seq![Pool::Sexes],
        Stage::UserInterests => seq![Pool::Interests, Pool::UserDetails],
        Stage::Interactions => seq![Pool::UserDetails],
        Stage::Images => seq![Pool::UserDetails],
        Stage::SearchPreferenceSexes => seq![Pool::Sexes, Pool::SearchPreferences],
        Stage::SearchPreferenceInterests => seq![Pool::Interests, Pool::SearchPreferences],
        Stage::Reports => seq![Pool::UserDetails],
        Stage::Blocks => seq![Pool::UserDetails],
        _ => seq![],
    }
}

/// The pool whose keys the stage commits, if any.
pub open spec fn produces(s: Stage) -> Option<Pool> {
    match s {
        Stage::Sexes => Some(Pool::Sexes),
        Stage::Plans => Some(Pool::Plans),
        Stage::Interests => Some(Pool::Interests),
        Stage::Cities => Some(Pool::Cities),
        Stage::SearchPreferences => Some(Pool::SearchPreferences),
        Stage::BillingAddresses => Some(Pool::BillingAddresses),
        Stage::PaymentData => Some(Pool::PaymentData),
        Stage::Subscriptions => Some(Pool::Subscriptions),
        Stage::Admins => Some(Pool::Admins),
        Stage::Users => Some(Pool::UserDetails),
        Stage::Interactions => Some(Pool::Matches),
        Stage::Conversations => Some(Pool::Conversations),
        Stage::Reports => Some(Pool::Reports),
        _ => None,
    }
}

pub open spec fn pool_index(p: Pool) -> int {
    match p {
        Pool::Sexes => 0,
        Pool::Plans => 1,
        Pool::Interests => 2,
        Pool::Cities => 3,
        Pool::SearchPreferences => 4,
        Pool::BillingAddresses => 5,
        Pool::PaymentData => 6,
        Pool::Subscriptions => 7,
        Pool::Admins => 8,
        Pool::UserDetails => 9,
        Pool::Matches => 10,
        Pool::Conversations => 11,
        Pool::Reports => 12,
    }
}

fn index_of(p: Pool) -> (r: usize)
    ensures
        r == pool_index(p),
        r < NUM_POOLS,
{
    match p {
        Pool::Sexes => 0,
        Pool::Plans => 1,
        Pool::Interests => 2,
        Pool::Cities => 3,
        Pool::SearchPreferences => 4,
        Pool::BillingAddresses => 5,
        Pool::PaymentData => 6,
        Pool::Subscriptions => 7,
        Pool::Admins => 8,
        Pool::UserDetails => 9,
        Pool::Matches => 10,
        Pool::Conversations => 11,
        Pool::Reports => 12,
    }
}

/// The stage at position `i` of the run.
pub fn stage_at(i: usize) -> (r: Stage)
    requires
        i < NUM_STAGES,
    ensures
        r == stage_order()[i as int],
{
    let order = vec![
        Stage::Sexes,
        Stage::Plans,
        Stage::Interests,
        Stage::Cities,
        Stage::SearchPreferences,
        Stage::BillingAddresses,
        Stage::PaymentData,
        Stage::Subscriptions,
        Stage::Admins,
        Stage::Users,
        Stage::UserInterests,
        Stage::Interactions,
        Stage::Conversations,
        Stage::Messages,
        Stage::Images,
        Stage::SearchPreferenceSexes,
        Stage::SearchPreferenceInterests,
        Stage::Reports,
        Stage::Bans,
        Stage::Blocks,
    ];
    assert(order@ == stage_order());
    order[i]
}

/// The pools that must hold at least one key before `s` may run.
pub fn mandatory_pools(s: Stage) -> (r: Vec<Pool>)
    ensures
        r@ == mandatory(s),
{
    let r = match s {
        Stage::BillingAddresses => vec![Pool::Cities],
        Stage::Subscriptions => vec![Pool::Plans],
        Stage::Users => vec![Pool::Sexes],
        Stage::UserInterests => vec![Pool::Interests, Pool::UserDetails],
        Stage::Interactions => vec![Pool::UserDetails],
        Stage::Images => vec![Pool::UserDetails],
        Stage::SearchPreferenceSexes => vec![Pool::Sexes, Pool::SearchPreferences],
        Stage::SearchPreferenceInterests => vec![Pool::Interests, Pool::SearchPreferences],
        Stage::Reports => vec![Pool::UserDetails],
        Stage::Blocks => vec![Pool::UserDetails],
        _ => Vec::new(),
    };
    assert(r@ =~= mandatory(s));
    r
}

/// The pool whose keys `s` commits, if any.
pub fn produced_pool(s: Stage) -> (r: Option<Pool>)
    ensures
        r == produces(s),
{
    match s {
        Stage::Sexes => Some(Pool::Sexes),
        Stage::Plans => Some(Pool::Plans),
        Stage::Interests => Some(Pool::Interests),
        Stage::Cities => Some(Pool::Cities),
        Stage::SearchPreferences => Some(Pool::SearchPreferences),
        Stage::BillingAddresses => Some(Pool::BillingAddresses),
        Stage::PaymentData => Some(Pool::PaymentData),
        Stage::Subscriptions => Some(Pool::Subscriptions),
        Stage::Admins => Some(Pool::Admins),
        Stage::Users => Some(Pool::UserDetails),
        Stage::Interactions => Some(Pool::Matches),
        Stage::Conversations => Some(Pool::Conversations),
        Stage::Reports => Some(Pool::Reports),
        _ => None,
    }
}

/// Where a run stands. `Settled(i)`: the first `i` stages have committed.
#[derive(Clone, Copy, Debug, PartialEq, Eq, Structural)]
pub enum Phase {
    Idle,
    Running(usize),
    Settled(usize),
    Complete,
    Aborted,
}

/// The stage orchestrator: which stage runs, and the size of every pool
/// committed so far.
pub struct Pipeline {
    pub phase: Phase,
    pub pool_sizes: Vec<usize>,
}

/// Every mandatory pool of `s` holds a key, by the sizes `sizes`.
pub open spec fn inputs_ready(s: Stage, sizes: Seq<usize>) -> bool {
    forall|k: int| 0 <= k < mandatory(s).len() ==> sizes[pool_index(#[trigger] mandatory(s)[k])] > 0
}

/// The position of the stage that the run takes up next, in a phase
/// between stages.
pub open spec fn next_position(phase: Phase) -> int {
    match phase {
        Phase::Idle => 0,
        Phase::Settled(i) => i as int,
        _ => -1,
    }
}

impl Pipeline {
    /// A pool size for each pool; a running stage has its inputs; a settled
    /// count never passes the number of stages.
    pub open spec fn wf(&self) -> bool {
        &&& self.pool_sizes@.len() == NUM_POOLS
        &&& self.phase matches Phase::Running(i) ==> i < NUM_STAGES && inputs_ready(stage_order()[i as int], self.pool_sizes@)
        &&& self.phase matches Phase::Settled(i) ==> 0 < i <= NUM_STAGES
    }

    /// The size that the run has recorded for pool `p`.
    pub open spec fn size_of(&self, p: Pool) -> usize {
        self.pool_sizes@[pool_index(p)]
    }

    /// A run that has done nothing: every pool empty.
    pub fn new() -> (r: Pipeline)
        ensures
            r.wf(),
            r.phase == Phase::Idle,
            forall|p: Pool| r.size_of(p) == 0,
    {
        let mut sizes: Vec<usize> = Vec::new();
        for _i in 0..NUM_POOLS
            invariant
                sizes@.len() == _i,
                forall|k: int| 0 <= k < sizes@.len() ==> sizes@[k] == 0,
        {
            sizes.push(0);
        }
        Pipeline { phase: Phase::Idle, pool_sizes: sizes }
    }

    /// Takes up the next stage. Between stages, it is the stage after the
    /// last settled one: when every stage has settled the run is complete
    /// (`None`); when a mandatory pool of that stage is empty the run aborts
    /// with `DependencyUnavailable`; otherwise the stage runs. Asked during a
    /// stage or after the end, it changes nothing and reports an
    /// `InvariantViolation`. Pool sizes never change here.
    pub fn start_next(&mut self) -> (r: Result<Option<Stage>, PipelineError>)
        requires
            old(self).wf(),
        ensures
            final(self).wf(),
            final(self).pool_sizes@ == old(self).pool_sizes@,
            ({
                let i = next_position(old(self).phase);
                if i < 0 {
                    &&& r == Err::<Option<Stage>, PipelineError>(PipelineError::InvariantViolation)
                    &&& final(self).phase == old(self).phase
                } else if i >= NUM_STAGES {
                    &&& r == Ok::<Option<Stage>, PipelineError>(None)
                    &&& final(self).phase == Phase::Complete
                } else if !inputs_ready(stage_order()[i], old(self).pool_sizes@) {
                    &&& r == Err::<Option<Stage>, PipelineError>(PipelineError::DependencyUnavailable)
                    &&& final(self).phase == Phase::Aborted
                } else {
                    &&& r == Ok::<Option<Stage>, PipelineError>(Some(stage_order()[i]))
                    &&& final(self).phase == Phase::Running(i as usize)
                }
            }),
    {
        let i: usize = match self.phase {
            Phase::Idle => 0,
            Phase::Settled(i) => i,
            _ => return Err(PipelineError::InvariantViolation),
        };
        if i >= NUM_STAGES {
            self.phase = Phase::Complete;
            return Ok(None);
        }
        let stage = stage_at(i);
        let needed = mandatory_pools(stage);
        for k in 0..needed.len()
            invariant
                needed@ == mandatory(stage),
                i < NUM_STAGES,
                next_position(old(self).phase) == i,
                stage == stage_order()[i as int],
                self.pool_sizes@ == old(self).pool_sizes@,
                self.phase == old(self).phase,
                self.pool_sizes@.len() == NUM_POOLS,
                forall|j: int| 0 <= j < k ==> self.pool_sizes@[pool_index(#[trigger] mandatory(stage)[j])] > 0,
        {
            let p = needed[k];
            if self.pool_sizes[index_of(p)] == 0 {
                assert(mandatory(stage)[k as int] == p);
                assert(!inputs_ready(stage, self.pool_sizes@));
                self.phase = Phase::Aborted;
                return Err(PipelineError::DependencyUnavailable);
            }
        }
        self.phase = Phase::Running(i);
        Ok(Some(stage))
    }

    /// Ends the running stage. On success the stage settles and the pool it
    /// produces records `committed` keys; on failure the run aborts with
    /// that error. Asked outside a stage, it changes nothing and reports an
    /// `InvariantViolation`.
    pub fn finish(&mut self, outcome: Result<usize, PipelineError>) -> (r: Result<(), PipelineError>)
        requires
            old(self).wf(),
        ensures
            final(self).wf(),
            old(self).phase matches Phase::Running(i) ==> {
                let s = stage_order()[i as int];
                match outcome {
                    Ok(n) => {
                        &&& r is Ok
                        &&& final(self).phase == Phase::Settled((i + 1) as usize)
                        &&& final(self).pool_sizes@ == match produces(s) {
                            Some(p) => old(self).pool_sizes@.update(pool_index(p), n),
                            None => old(self).pool_sizes@,
                        }
                    },
                    Err(e) => {
                        &&& r == Err::<(), PipelineError>(e)
                        &&& final(self).phase == Phase::Aborted
                        &&& final(self).pool_sizes@ == old(self).pool_sizes@
                    },
                }
            },
            !(old(self).phase is Running) ==> {
                &&& r == Err::<(), PipelineError>(PipelineError::InvariantViolation)
                &&& final(self).phase == old(self).phase
                &&& final(self).pool_sizes@ == old(self).pool_sizes@
            },
    {
        let i = match self.phase {
            Phase::Running(i) => i,
            _ => return Err(PipelineError::InvariantViolation),
        };
        match outcome {
            Ok(n) => {
                let stage = stage_at(i);
                match produced_pool(stage) {
                    Some(p) => {
                        let idx = index_of(p);
                        self.pool_sizes.set(idx, n);
                    },
                    None => {},
                }
                self.phase = Phase::Settled(i + 1);
                Ok(())
            },
            Err(e) => {
                self.phase = Phase::Aborted;
                Err(e)
            },
        }
    }
}

/// A stage runs only with every one of its mandatory pools non-empty.
pub proof fn lemma_running_stage_has_inputs(p: Pipeline, p_pool: Pool)
    requires
        p.wf(),
        p.phase is Running,
        mandatory(stage_order()[p.phase->Running_0 as int]).contains(p_pool),
    ensures
        p.size_of(p_pool) > 0,
{
    let s = stage_order()[p.phase->Running_0 as int];
    let k = choose|k: int| 0 <= k < mandatory(s).len() && mandatory(s)[k] == p_pool;
    assert(p.pool_sizes@[pool_index(mandatory(s)[k])] > 0);
}

} // verus!
