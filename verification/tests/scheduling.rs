use nusa_chain::scheduler::{group_independent_txs, ParallelExecutionEngine, Transaction};

fn tx(hash: &str, from: &str, to: &str, value: u64, reads: &[&str], writes: &[&str]) -> Transaction {
    Transaction {
        hash: hash.to_string(),
        from: from.to_string(),
        to: to.to_string(),
        value,
        data: vec![],
        reads: reads.iter().map(|s| s.to_string()).collect(),
        writes: writes.iter().map(|s| s.to_string()).collect(),
        executed: false,
    }
}

#[test]
fn test_parallel_execution() {
    let mut engine = ParallelExecutionEngine::new(8, false);

    let txs = vec![
        Transaction {
            hash: "tx1".to_string(),
            from: "alice".to_string(),
            to: "bob".to_string(),
            value: 100,
            data: vec![],
            reads: vec!["alice".to_string()],
            writes: vec!["bob".to_string()],
            executed: false,
        },
        Transaction {
            hash: "tx2".to_string(),
            from: "charlie".to_string(),
            to: "dave".to_string(),
            value: 200,
            data: vec![],
            reads: vec!["charlie".to_string()],
            writes: vec!["dave".to_string()],
            executed: false,
        },
    ];

    let result = engine.execute_parallel(txs);
    assert!(result.is_ok());
}

#[test]
fn writers_of_one_key_land_in_separate_groups() {
    let t1 = tx("t1", "x", "y", 1, &[], &["Alice"]);
    let t2 = tx("t2", "p", "q", 2, &[], &["Alice"]);
    let groups = group_independent_txs(vec![t1, t2]);
    assert_eq!(groups.len(), 2);
    assert_eq!(groups[0].len(), 1);
    assert_eq!(groups[1].len(), 1);
    assert_eq!(groups[0][0].hash, "t1");
    assert_eq!(groups[1][0].hash, "t2");
}

#[test]
fn independent_transactions_share_a_group() {
    let t1 = tx("t1", "a", "b", 1, &["a"], &["b"]);
    let t2 = tx("t2", "c", "d", 2, &["c"], &["d"]);
    let t3 = tx("t3", "e", "f", 3, &["e"], &["f"]);
    let groups = group_independent_txs(vec![t1, t2, t3]);
    assert_eq!(groups.len(), 1);
    assert_eq!(groups[0].len(), 3);
}

#[test]
fn read_write_overlap_defers_in_arrival_order() {
    // t2 reads what t1 writes; t3 is untouched and joins the first group.
    let t1 = tx("t1", "a", "b", 1, &[], &["k"]);
    let t2 = tx("t2", "c", "d", 2, &["k"], &["m"]);
    let t3 = tx("t3", "e", "f", 3, &[], &["z"]);
    let groups = group_independent_txs(vec![t1, t2, t3]);
    assert_eq!(groups.len(), 2);
    assert_eq!(groups[0].len(), 2);
    assert_eq!(groups[0][0].hash, "t1");
    assert_eq!(groups[0][1].hash, "t3");
    assert_eq!(groups[1].len(), 1);
    assert_eq!(groups[1][0].hash, "t2");
}

#[test]
fn identical_batches_schedule_identically() {
    let make = || {
        vec![
            tx("t1", "a", "b", 1, &["r"], &["w"]),
            tx("t2", "c", "d", 2, &["w"], &["x"]),
            tx("t3", "e", "f", 3, &["r"], &["y"]),
        ]
    };
    let g1 = group_independent_txs(make());
    let g2 = group_independent_txs(make());
    assert_eq!(g1.len(), g2.len());
    for (a, b) in g1.iter().zip(g2.iter()) {
        let ha: Vec<&str> = a.iter().map(|t| t.hash.as_str()).collect();
        let hb: Vec<&str> = b.iter().map(|t| t.hash.as_str()).collect();
        assert_eq!(ha, hb);
    }
}

#[test]
fn conflict_counter_counts_ordered_pairs() {
    let mut engine = ParallelExecutionEngine::new(4, false);
    let t1 = tx("t1", "a", "b", 1, &[], &["k"]);
    let t2 = tx("t2", "c", "d", 2, &[], &["k"]);
    let result = engine.execute_parallel(vec![t1, t2]).unwrap();
    // Both ordered pairs conflict (write-write on the same key).
    assert_eq!(result.conflicts_detected, 2);
    assert_eq!(result.total_txs, 2);
    assert_eq!(engine.executed_txs.len(), 2);
}

#[test]
fn gpu_execution_needs_the_accelerator() {
    let engine = ParallelExecutionEngine::new(4, false);
    let err = engine.gpu_execute(&[]);
    assert_eq!(err, Err("GPU not enabled".to_string()));
    let engine_on = ParallelExecutionEngine::new(4, true);
    assert!(engine_on.gpu_execute(&[]).is_ok());
}

#[test]
fn conflicting_pairs_are_recorded_as_edges_both_ways() {
    let mut engine = ParallelExecutionEngine::new(4, false);
    let t1 = tx("t1", "a", "b", 1, &[], &["k"]);
    let t2 = tx("t2", "c", "d", 2, &[], &["k"]);
    let t3 = tx("t3", "e", "f", 3, &[], &["z"]);
    engine.analyze_dependencies(&[t1, t2, t3]);
    let graph = &engine.conflict_detector.dependency_graph;
    let deps_of = |key: &str| -> Vec<String> {
        graph
            .iter()
            .find(|(k, _)| k == key)
            .map(|(_, d)| d.clone())
            .unwrap_or_default()
    };
    // The write-write conflict is recorded in both directions.
    assert!(deps_of("t1").contains(&"t2".to_string()));
    assert!(deps_of("t2").contains(&"t1".to_string()));
    // The independent transaction gains no entry.
    assert!(graph.iter().all(|(k, _)| k != "t3"));
    assert!(!deps_of("t1").contains(&"t3".to_string()));
    assert_eq!(engine.conflict_detector.conflicts_detected, 2);
}
