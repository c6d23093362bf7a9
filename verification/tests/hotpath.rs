use icarus::hotpath::{BlockId, HotpathOptimizer, HotpathTracker, LoopId};

#[test]
fn test_hotpath_tracking() {
    let mut tracker = HotpathTracker::with_defaults();
    for _ in 0..150 {
        tracker.record_function_call("main");
    }
    assert!(tracker.should_optimize_function("main"));
}

#[test]
fn hotpath_test_hot_variables() {
    let mut tracker = HotpathTracker::with_defaults();
    for i in 0..1500 {
        tracker.record_var_read("x", i);
    }
    assert!(tracker.should_pin_to_register("x"));
}

#[test]
fn test_hotpath_info() {
    let mut tracker = HotpathTracker::new(10, 50, 100);
    for _ in 0..15 {
        tracker.record_function_call("foo");
    }
    for _ in 0..60 {
        tracker.record_block_execution(BlockId(0));
    }
    let info = tracker.get_hotpaths();
    assert!(info.hot_functions.contains(&"foo".to_string()));
    assert!(info.hot_blocks.contains(&BlockId(0)));
}

#[test]
fn thresholds_are_inclusive() {
    let mut tracker = HotpathTracker::new(3, 2, 2);
    tracker.record_function_call("f");
    tracker.record_function_call("f");
    assert!(!tracker.should_optimize_function("f"));
    tracker.record_function_call("f");
    assert!(tracker.should_optimize_function("f"));
    assert!(!tracker.should_optimize_function("g"));

    tracker.record_var_read("v", 1);
    assert!(!tracker.should_pin_to_register("v"));
    tracker.record_var_write("v", 2);
    assert!(tracker.should_pin_to_register("v"));
}

#[test]
fn stats_count_seen_and_hot_entries() {
    let mut tracker = HotpathTracker::new(2, 2, 2);
    tracker.record_function_call("a");
    tracker.record_function_call("a");
    tracker.record_function_call("b");
    tracker.record_block_execution(BlockId(1));
    tracker.record_loop_iteration(LoopId(7));
    tracker.record_loop_iteration(LoopId(7));
    let stats = tracker.stats();
    assert_eq!(stats.total_functions, 2);
    assert_eq!(stats.hot_functions, 1);
    assert_eq!(stats.total_blocks, 1);
    assert_eq!(stats.hot_blocks, 0);
    assert_eq!(stats.total_loops, 1);
    assert_eq!(stats.hot_loops, 1);
    tracker.reset();
    let stats = tracker.stats();
    assert_eq!(stats.total_functions, 0);
    assert!(!tracker.should_optimize_function("a"));
}

#[test]
fn optimizer_decisions() {
    let mut tracker = HotpathTracker::new(2, 3, 2);
    for _ in 0..4 {
        tracker.record_function_call("twice_hot");
    }
    for _ in 0..3 {
        tracker.record_function_call("just_hot");
    }
    tracker.record_function_call("cold");
    for t in 0..3 {
        tracker.record_var_read("busy", t);
    }
    tracker.record_var_read("idle", 0);
    tracker.record_loop_iteration(LoopId(1));
    tracker.record_loop_iteration(LoopId(1));
    let opt = HotpathOptimizer::new(tracker);
    assert_eq!(opt.suggest_inline_candidates(), vec!["twice_hot".to_string()]);
    assert_eq!(
        opt.optimize_register_allocation(&["busy".to_string(), "idle".to_string(), "none".to_string()]),
        vec![("busy".to_string(), true), ("idle".to_string(), false), ("none".to_string(), false)]
    );
    assert!(opt.should_unroll_loop(LoopId(1), Some(8)));
    assert!(!opt.should_unroll_loop(LoopId(1), Some(9)));
    assert!(!opt.should_unroll_loop(LoopId(1), None));
    assert!(!opt.should_unroll_loop(LoopId(2), Some(1)));
}
