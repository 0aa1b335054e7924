//! Per-run configuration: round timing, test metadata presets, and the
//! run-time configuration a node is launched with. All durations are in
//! milliseconds.

use vstd::prelude::*;
use crate::stake::StakeEntry;

verus! {

/// How a round should be timed. Durations are milliseconds.
#[derive(Clone, Copy, Debug)]
pub struct TimingData {
    /// Base duration for the next-view timeout
    pub next_view_timeout: u64,
    /// Exponential back-off ratio (numerator, denominator) for the next-view timeout
    pub timeout_ratio: (u64, u64),
    /// Delay a leader inserts before starting the round
    pub round_start_delay: u64,
    /// Delay after init before starting consensus
    pub start_delay: u64,
    /// Minimum time a leader has to wait before starting a round
    pub propose_min_round_time: u64,
    /// Maximum time a leader can wait to start a round
    pub propose_max_round_time: u64,
}

impl TimingData {
    /// The back-off ratio never shrinks a timeout: numerator >= denominator >= 1.
    pub open spec fn wf(&self) -> bool {
        self.timeout_ratio.1 >= 1 && self.timeout_ratio.0 >= self.timeout_ratio.1
    }
}

impl Default for TimingData {
    fn default() -> (r: Self)
        ensures
            r.next_view_timeout == 1000,
            r.timeout_ratio == (11u64, 10u64),
            r.round_start_delay == 100,
            r.start_delay == 100,
            r.propose_min_round_time == 0,
            r.propose_max_round_time == 100,
            r.wf(),
    {
        TimingData {
            next_view_timeout: 1000,
            timeout_ratio: (11, 10),
            round_start_delay: 100,
            start_delay: 100,
            propose_min_round_time: 0,
            propose_max_round_time: 100,
        }
    }
}

/// Overall safety requirements a run is held to.
#[derive(Clone, Copy, Debug)]
pub struct OverallSafetyPropertiesDescription {
    /// How many successful views the run must reach
    pub num_successful_views: usize,
    /// Whether decided leaves are compared across replicas
    pub check_leaf: bool,
    /// Whether replica states are compared
    pub check_state: bool,
    /// Whether decided blocks are compared
    pub check_block: bool,
    /// How many failed views the run may tolerate
    pub num_failed_views: usize,
    /// Minimum number of transactions that must be decided
    pub transaction_threshold: u64,
}

impl Default for OverallSafetyPropertiesDescription {
    fn default() -> (r: Self)
        ensures
            r.num_successful_views == 50,
            !r.check_leaf,
            r.check_state,
            r.check_block,
            r.num_failed_views == 0,
            r.transaction_threshold == 0,
    {
        OverallSafetyPropertiesDescription {
            num_successful_views: 50,
            check_leaf: false,
            check_state: true,
            check_block: true,
            num_failed_views: 0,
            transaction_threshold: 0,
        }
    }
}

/// Whether a node is brought up or taken down at a given view.
#[derive(Clone, Copy, Debug, PartialEq, Eq, Structural)]
pub enum UpDown {
    /// Start the node
    Up,
    /// Stop the node
    Down,
}

/// A scheduled change of one node's liveness.
#[derive(Clone, Copy, Debug, PartialEq, Eq, Structural)]
pub struct ChangeNode {
    /// Index of the node affected
    pub idx: usize,
    /// Whether it goes up or down
    pub updown: UpDown,
}

/// Nodes scheduled to start or stop at given views.
#[derive(Clone, Debug)]
pub struct SpinningTaskDescription {
    /// For each view, the node changes applied when it is reached
    pub node_changes: Vec<(u64, Vec<ChangeNode>)>,
}

/// How transactions are injected during a run.
#[derive(Clone, Copy, Debug)]
pub enum TxnTaskDescription {
    /// Submit a transaction to each node in round-robin order, one per period (ms)
    RoundRobinTimeBased(u64),
    /// Submit according to a distribution (unspecified here)
    DistributionBased,
}

/// When a run is considered complete.
#[derive(Clone, Copy, Debug)]
pub struct TimeBasedCompletionTaskDescription {
    /// Wall-clock duration of the run (ms)
    pub duration: u64,
}

/// Description of the completion condition of a run.
#[derive(Clone, Copy, Debug)]
pub enum CompletionTaskDescription {
    /// Complete after a fixed duration
    TimeBasedCompletionTaskBuilder(TimeBasedCompletionTaskDescription),
}

/// Metadata describing a test run.
#[derive(Clone, Debug)]
pub struct TestMetadata {
    /// Total number of nodes in the run
    pub total_nodes: usize,
    /// Nodes available at start
    pub start_nodes: usize,
    /// Number of bootstrap nodes
    pub num_bootstrap_nodes: usize,
    /// Size of the DA committee
    pub da_committee_size: usize,
    /// Overall safety requirements
    pub overall_safety_properties: OverallSafetyPropertiesDescription,
    /// Scheduled node starts and stops
    pub spinning_properties: SpinningTaskDescription,
    /// Transaction injection discipline
    pub txn_description: TxnTaskDescription,
    /// Completion condition
    pub completion_task_description: CompletionTaskDescription,
    /// Minimum transactions required for a block
    pub min_transactions: usize,
    /// Round timing
    pub timing_data: TimingData,
}

impl TestMetadata {
    /// A well-formed run has at least one node, a DA committee no larger than
    /// the node count, and well-formed timing.
    pub open spec fn wf(&self) -> bool {
        &&& self.total_nodes >= 1
        &&& self.start_nodes <= self.total_nodes
        &&& self.da_committee_size <= self.total_nodes
        &&& self.timing_data.wf()
    }
}

impl Default for TestMetadata {
    /// By default, a small five-node run.
    fn default() -> (r: Self)
        ensures
            r.total_nodes == 5,
            r.start_nodes == 5,
            r.num_bootstrap_nodes == 5,
            r.da_committee_size == 5,
            r.min_transactions == 0,
            r.timing_data.next_view_timeout == 1000,
            r.timing_data.timeout_ratio == (11u64, 10u64),
            r.timing_data.round_start_delay == 100,
            r.timing_data.start_delay == 100,
            r.overall_safety_properties.num_successful_views == 50,
            r.spinning_properties.node_changes@ =~= Seq::<(u64, Vec<ChangeNode>)>::empty(),
            r.txn_description is RoundRobinTimeBased,
            r.completion_task_description matches CompletionTaskDescription::TimeBasedCompletionTaskBuilder(d)
                && d.duration == 10000,
            r.wf(),
    {
        TestMetadata {
            timing_data: TimingData::default(),
            min_transactions: 0,
            total_nodes: 5,
            start_nodes: 5,
            num_bootstrap_nodes: 5,
            da_committee_size: 5,
            spinning_properties: SpinningTaskDescription { node_changes: Vec::new() },
            overall_safety_properties: OverallSafetyPropertiesDescription::default(),
            txn_description: TxnTaskDescription::RoundRobinTimeBased(10),
            completion_task_description: CompletionTaskDescription::TimeBasedCompletionTaskBuilder(
                TimeBasedCompletionTaskDescription { duration: 10000 },
            ),
        }
    }
}

impl TestMetadata {
    /// A hundred-node stress preset.
    pub fn default_stress() -> (r: Self)
        ensures
            r.total_nodes == 100,
            r.start_nodes == 100,
            r.num_bootstrap_nodes == 15,
            r.da_committee_size == 5,
            r.overall_safety_properties.num_successful_views == 50,
            r.overall_safety_properties.check_leaf,
            r.overall_safety_properties.check_state,
            r.overall_safety_properties.check_block,
            r.overall_safety_properties.num_failed_views == 15,
            r.overall_safety_properties.transaction_threshold == 0,
            r.timing_data.next_view_timeout == 2000,
            r.timing_data.timeout_ratio == (1u64, 1u64),
            r.timing_data.start_delay == 20000,
            r.timing_data.round_start_delay == 25,
            r.timing_data.propose_min_round_time == 0,
            r.timing_data.propose_max_round_time == 100,
            r.wf(),
    {
        let base = TestMetadata::default();
        let base_timing = TimingData::default();
        TestMetadata {
            num_bootstrap_nodes: 15,
            total_nodes: 100,
            start_nodes: 100,
            overall_safety_properties: OverallSafetyPropertiesDescription {
                num_successful_views: 50,
                check_leaf: true,
                check_state: true,
                check_block: true,
                num_failed_views: 15,
                transaction_threshold: 0,
            },
            timing_data: TimingData {
                next_view_timeout: 2000,
                timeout_ratio: (1, 1),
                start_delay: 20000,
                round_start_delay: 25,
                ..base_timing
            },
            ..base
        }
    }

    /// A ten-node preset expecting twenty successful views.
    pub fn default_multiple_rounds() -> (r: TestMetadata)
        ensures
            r.total_nodes == 10,
            r.start_nodes == 10,
            r.num_bootstrap_nodes == 5,
            r.da_committee_size == 5,
            r.overall_safety_properties.num_successful_views == 20,
            r.overall_safety_properties.check_leaf,
            r.overall_safety_properties.check_state,
            r.overall_safety_properties.check_block,
            r.overall_safety_properties.num_failed_views == 8,
            r.overall_safety_properties.transaction_threshold == 0,
            r.timing_data.next_view_timeout == 1000,
            r.timing_data.start_delay == 120000,
            r.timing_data.round_start_delay == 25,
            r.wf(),
    {
        let base = TestMetadata::default();
        let base_timing = TimingData::default();
        TestMetadata {
            total_nodes: 10,
            start_nodes: 10,
            overall_safety_properties: OverallSafetyPropertiesDescription {
                num_successful_views: 20,
                check_leaf: true,
                check_state: true,
                check_block: true,
                num_failed_views: 8,
                transaction_threshold: 0,
            },
            timing_data: TimingData {
                start_delay: 120000,
                round_start_delay: 25,
                ..base_timing
            },
            ..base
        }
    }

    /// A twenty-node preset. The DA committee is the first fourteen nodes, so
    /// the remaining six can be taken down without starving availability.
    pub fn default_more_nodes() -> (r: TestMetadata)
        ensures
            r.total_nodes == 20,
            r.start_nodes == 20,
            r.num_bootstrap_nodes == 20,
            r.da_committee_size == 14,
            r.completion_task_description matches CompletionTaskDescription::TimeBasedCompletionTaskBuilder(d)
                && d.duration == 200000,
            r.overall_safety_properties.num_successful_views == 50,
            r.overall_safety_properties.num_failed_views == 0,
            r.timing_data.next_view_timeout == 1000,
            r.wf(),
    {
        let base = TestMetadata::default();
        let base_timing = TimingData::default();
        TestMetadata {
            total_nodes: 20,
            start_nodes: 20,
            num_bootstrap_nodes: 20,
            da_committee_size: 14,
            completion_task_description: CompletionTaskDescription::TimeBasedCompletionTaskBuilder(
                TimeBasedCompletionTaskDescription { duration: 200000 },
            ),
            overall_safety_properties: OverallSafetyPropertiesDescription::default(),
            timing_data: TimingData {
                next_view_timeout: 1000,
                ..base_timing
            },
            ..base
        }
    }
}

/// Whether rounds run back to back or one at a time.
#[derive(Clone, Copy, Debug, PartialEq, Eq, Structural)]
pub enum ExecutionType {
    /// Rounds run continuously
    Continuous,
    /// Rounds are started on demand
    Incremental,
}

/// One validator's own identity: its index and the stake it holds.
#[derive(Clone, Copy, Debug, PartialEq, Eq, Structural)]
pub struct ValidatorConfig {
    /// The validator's public key
    pub public_key: u64,
    /// The stake this validator holds
    pub stake_value: u64,
}

/// The configuration a node is launched with.
#[derive(Debug)]
pub struct HotShotConfig {
    /// Whether rounds run back to back
    pub execution_type: ExecutionType,
    /// Total number of nodes
    pub total_nodes: usize,
    /// Number of bootstrap nodes
    pub num_bootstrap: usize,
    /// Minimum transactions per block
    pub min_transactions: usize,
    /// Maximum transactions per block
    pub max_transactions: usize,
    /// The stake table: every node's key and stake
    pub known_nodes_with_stake: Vec<StakeEntry>,
    /// This node's own identity
    pub my_own_validator_config: ValidatorConfig,
    /// Size of the DA committee
    pub da_committee_size: usize,
    /// Base next-view timeout (ms)
    pub next_view_timeout: u64,
    /// Back-off ratio for the next-view timeout
    pub timeout_ratio: (u64, u64),
    /// Delay before a leader starts its round (ms)
    pub round_start_delay: u64,
    /// Delay after init before starting consensus (ms)
    pub start_delay: u64,
    /// Minimum round time for a proposer (ms)
    pub propose_min_round_time: u64,
    /// Maximum round time for a proposer (ms)
    pub propose_max_round_time: u64,
}

impl TestMetadata {
    /// Derive the launch configuration for one node: every node holds one
    /// unit of stake under its index as key, and the timing fields come from
    /// this metadata's timing data.
    pub fn gen_config(&self, node_id: u64) -> (r: HotShotConfig)
        requires
            self.total_nodes <= u64::MAX,
        ensures
            r.execution_type == ExecutionType::Incremental,
            r.total_nodes == self.total_nodes,
            r.num_bootstrap == self.num_bootstrap_nodes,
            r.min_transactions == self.min_transactions,
            r.max_transactions == 99999,
            r.da_committee_size == self.da_committee_size,
            r.next_view_timeout == self.timing_data.next_view_timeout,
            r.timeout_ratio == self.timing_data.timeout_ratio,
            r.round_start_delay == self.timing_data.round_start_delay,
            r.start_delay == self.timing_data.start_delay,
            r.propose_min_round_time == self.timing_data.propose_min_round_time,
            r.propose_max_round_time == self.timing_data.propose_max_round_time,
            r.known_nodes_with_stake@.len() == self.total_nodes,
            forall|i: int|
                0 <= i < self.total_nodes ==> (#[trigger] r.known_nodes_with_stake@[i]).key == i
                    && r.known_nodes_with_stake@[i].stake == 1,
            r.my_own_validator_config.public_key == node_id,
            r.my_own_validator_config.stake_value == 1,
    {
        let mut known: Vec<StakeEntry> = Vec::new();
        let mut i: usize = 0;
        while i < self.total_nodes
            invariant
                i <= self.total_nodes,
                self.total_nodes <= u64::MAX,
                known@.len() == i,
                forall|j: int|
                    0 <= j < i ==> (#[trigger] known@[j]).key == j && known@[j].stake == 1,
            decreases self.total_nodes - i,
        {
            known.push(StakeEntry { key: i as u64, stake: 1 });
            i = i + 1;
        }
        HotShotConfig {
            execution_type: ExecutionType::Incremental,
            total_nodes: self.total_nodes,
            num_bootstrap: self.num_bootstrap_nodes,
            min_transactions: self.min_transactions,
            max_transactions: 99999,
            known_nodes_with_stake: known,
            my_own_validator_config: ValidatorConfig { public_key: node_id, stake_value: 1 },
            da_committee_size: self.da_committee_size,
            next_view_timeout: self.timing_data.next_view_timeout,
            timeout_ratio: self.timing_data.timeout_ratio,
            round_start_delay: self.timing_data.round_start_delay,
            start_delay: self.timing_data.start_delay,
            propose_min_round_time: self.timing_data.propose_min_round_time,
            propose_max_round_time: self.timing_data.propose_max_round_time,
        }
    }
}

/// The next-view timeout after `k` consecutive timeouts: the base timeout
/// grown by the back-off ratio `k` times, saturating at the largest
/// representable duration. A ratio of one leaves the timeout constant.
pub open spec fn backoff_of(base: u64, num: u64, den: u64, k: nat) -> int
    decreases k,
{
    if k == 0 {
        base as int
    } else {
        let prev = backoff_of(base, num, den, (k - 1) as nat);
        let next = prev * (num as int) / (den as int);
        if next > u64::MAX {
            u64::MAX as int
        } else {
            next
        }
    }
}

impl TimingData {
    /// The timeout for the next view after `k` consecutive timeouts.
    pub fn next_timeout(&self, k: u32) -> (r: u64)
        requires
            self.wf(),
        ensures
            r == backoff_of(self.next_view_timeout, self.timeout_ratio.0, self.timeout_ratio.1, k as nat),
            self.timeout_ratio.0 == self.timeout_ratio.1 ==> r == self.next_view_timeout,
    {
        let num = self.timeout_ratio.0;
        let den = self.timeout_ratio.1;
        let mut cur: u64 = self.next_view_timeout;
        let mut i: u32 = 0;
        proof {
            if num == den {
                lemma_backoff_constant(self.next_view_timeout, num, den, k as nat);
            }
        }
        while i < k
            invariant
                i <= k,
                den >= 1,
                num >= den,
                cur == backoff_of(self.next_view_timeout, num, den, i as nat),
            decreases k - i,
        {
            proof {
                assert((cur as int) * (num as int) <= (u64::MAX as int) * (u64::MAX as int))
                    by (nonlinear_arith)
                    requires
                        cur <= u64::MAX,
                        num <= u64::MAX,
                ;
            }
            let wide: u128 = (cur as u128) * (num as u128) / (den as u128);
            let next: u64 = if wide > u64::MAX as u128 {
                u64::MAX
            } else {
                wide as u64
            };
            cur = next;
            i = i + 1;
        }
        cur
    }
}

/// With an even back-off ratio the timeout never changes.
pub proof fn lemma_backoff_constant(base: u64, num: u64, den: u64, k: nat)
    requires
        den >= 1,
        num == den,
    ensures
        backoff_of(base, num, den, k) == base,
    decreases k,
{
    if k > 0 {
        lemma_backoff_constant(base, num, den, (k - 1) as nat);
        let prev = backoff_of(base, num, den, (k - 1) as nat);
        vstd::arithmetic::div_mod::lemma_div_multiples_vanish(prev, den as int);
        vstd::arithmetic::mul::lemma_mul_is_commutative(prev, den as int);
    }
}

} // verus!
