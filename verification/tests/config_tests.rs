use hotstuff_core::config::{
    CompletionTaskDescription, ExecutionType, TestMetadata, TimingData,
};

#[test]
fn timing_data_default_values() {
    let t = TimingData::default();
    assert_eq!(t.next_view_timeout, 1000);
    assert_eq!(t.timeout_ratio, (11, 10));
    assert_eq!(t.round_start_delay, 100);
    assert_eq!(t.start_delay, 100);
    assert_eq!(t.propose_min_round_time, 0);
    assert_eq!(t.propose_max_round_time, 100);
}

#[test]
fn test_metadata_default_is_five_nodes() {
    let m = TestMetadata::default();
    assert_eq!(m.total_nodes, 5);
    assert_eq!(m.start_nodes, 5);
    assert_eq!(m.num_bootstrap_nodes, 5);
    assert_eq!(m.da_committee_size, 5);
    assert_eq!(m.min_transactions, 0);
    let CompletionTaskDescription::TimeBasedCompletionTaskBuilder(d) =
        m.completion_task_description;
    assert_eq!(d.duration, 10000);
}

#[test]
fn stress_preset() {
    let m = TestMetadata::default_stress();
    assert_eq!(m.total_nodes, 100);
    assert_eq!(m.start_nodes, 100);
    assert_eq!(m.num_bootstrap_nodes, 15);
    assert_eq!(m.overall_safety_properties.num_successful_views, 50);
    assert_eq!(m.overall_safety_properties.num_failed_views, 15);
    assert!(m.overall_safety_properties.check_leaf);
    assert_eq!(m.timing_data.next_view_timeout, 2000);
    assert_eq!(m.timing_data.timeout_ratio, (1, 1));
    assert_eq!(m.timing_data.start_delay, 20000);
    assert_eq!(m.timing_data.round_start_delay, 25);
}

#[test]
fn multiple_rounds_preset() {
    let m = TestMetadata::default_multiple_rounds();
    assert_eq!(m.total_nodes, 10);
    assert_eq!(m.start_nodes, 10);
    assert_eq!(m.overall_safety_properties.num_successful_views, 20);
    assert_eq!(m.overall_safety_properties.num_failed_views, 8);
    assert_eq!(m.timing_data.start_delay, 120000);
    assert_eq!(m.timing_data.round_start_delay, 25);
    assert_eq!(m.timing_data.next_view_timeout, 1000);
}

#[test]
fn more_nodes_preset() {
    let m = TestMetadata::default_more_nodes();
    assert_eq!(m.total_nodes, 20);
    assert_eq!(m.start_nodes, 20);
    assert_eq!(m.num_bootstrap_nodes, 20);
    assert_eq!(m.da_committee_size, 14);
    let CompletionTaskDescription::TimeBasedCompletionTaskBuilder(d) =
        m.completion_task_description;
    assert_eq!(d.duration, 200000);
    assert_eq!(m.timing_data.next_view_timeout, 1000);
}

#[test]
fn gen_config_derives_launch_values() {
    let m = TestMetadata::default_multiple_rounds();
    let c = m.gen_config(3);
    assert_eq!(c.execution_type, ExecutionType::Incremental);
    assert_eq!(c.total_nodes, 10);
    assert_eq!(c.num_bootstrap, 5);
    assert_eq!(c.max_transactions, 99999);
    assert_eq!(c.known_nodes_with_stake.len(), 10);
    for (i, e) in c.known_nodes_with_stake.iter().enumerate() {
        assert_eq!(e.key, i as u64);
        assert_eq!(e.stake, 1);
    }
    assert_eq!(c.my_own_validator_config.public_key, 3);
    assert_eq!(c.my_own_validator_config.stake_value, 1);
    assert_eq!(c.next_view_timeout, 1000);
    assert_eq!(c.timeout_ratio, (11, 10));
    assert_eq!(c.round_start_delay, 25);
    assert_eq!(c.start_delay, 120000);
}

#[test]
fn backoff_grows_by_ratio() {
    let t = TimingData::default();
    assert_eq!(t.next_timeout(0), 1000);
    assert_eq!(t.next_timeout(1), 1100);
    assert_eq!(t.next_timeout(2), 1210);
}

#[test]
fn backoff_with_even_ratio_is_constant() {
    let t = TimingData {
        timeout_ratio: (1, 1),
        ..TimingData::default()
    };
    for k in 0..10 {
        assert_eq!(t.next_timeout(k), 1000);
    }
}
