use geth_runner::loadtest::{throughput_deltas, total_delta, RoundRobinSender, TxCmd};

#[test]
fn past_deadline_sends_zero_transactions() {
    let mut rr = RoundRobinSender::new(3, 10, 0, 8);
    assert_eq!(rr.next_round(true), None);
    assert_eq!(rr.rounds_done, 0);
    // Still zero after repeated boundary checks.
    assert_eq!(rr.next_round(true), None);
    assert_eq!(rr.rounds_done, 0);
}

#[test]
fn each_round_is_one_transaction_per_node_to_its_successor() {
    let mut rr = RoundRobinSender::new(3, 2, 5, 0);
    let round = rr.next_round(false).unwrap();
    assert_eq!(round.len(), 3);
    for (j, tx) in round.iter().enumerate() {
        assert_eq!(tx.from, j);
        assert_eq!(tx.to, (j + 1) % 3);
    }
    assert_eq!(rr.rounds_done, 1);
}

#[test]
fn every_node_reuses_the_round_nonce() {
    // The shared per-round nonce is the preserved stress pattern: no
    // per-node nonce sequence exists.
    let mut rr = RoundRobinSender::new(4, 3, 100, 0);
    let mut expected_nonce = 100;
    while let Some(round) = rr.next_round(false) {
        assert!(round.iter().all(|tx: &TxCmd| tx.nonce == expected_nonce));
        expected_nonce += 1;
    }
    assert_eq!(expected_nonce, 103);
}

#[test]
fn target_bounds_the_number_of_rounds() {
    let mut rr = RoundRobinSender::new(2, 4, 0, 0);
    let mut rounds = 0;
    while rr.next_round(false).is_some() {
        rounds += 1;
    }
    assert_eq!(rounds, 4);
    assert_eq!(rr.rounds_done, 4);
    assert_eq!(rr.next_round(false), None);
}

#[test]
fn payloads_have_the_configured_hex_length() {
    let mut rr = RoundRobinSender::new(2, 1, 0, 16);
    let round = rr.next_round(false).unwrap();
    for tx in &round {
        assert_eq!(tx.payload.len(), 32);
        assert!(tx.payload.iter().all(|b| b.is_ascii_hexdigit()));
    }
}

#[test]
fn two_node_load_test_delta_is_nodes_times_completed_rounds() {
    // 2 nodes, a 4-round target, but a time budget that covers only 2
    // full rounds before the deadline passes.
    let mut rr = RoundRobinSender::new(2, 4, 0, 4);
    let before: Vec<u64> = vec![0, 0];
    let mut counters = before.clone();
    let mut completed_rounds = 0u64;
    loop {
        let deadline_passed = completed_rounds >= 2;
        match rr.next_round(deadline_passed) {
            None => break,
            Some(round) => {
                // Each worker commits what was submitted through it.
                for tx in &round {
                    counters[tx.from] += 1;
                }
                completed_rounds += 1;
            },
        }
    }
    assert_eq!(completed_rounds, 2);
    let deltas = throughput_deltas(&before, &counters);
    assert!(deltas.iter().all(|&d| d >= 0));
    assert_eq!(total_delta(&deltas), 2 * completed_rounds as i128);
}

#[test]
fn throughput_report_is_per_node_and_aggregate() {
    let before: Vec<u64> = vec![5, 10, 0];
    let after: Vec<u64> = vec![7, 9, 4];
    let deltas = throughput_deltas(&before, &after);
    assert_eq!(deltas, vec![2, -1, 4]);
    assert_eq!(total_delta(&deltas), 5);
}
