use geth_runner::controller::{
    ipc_path, port_for, ConnectCmd, Controller, Phase, ProducerRequest, Topology,
};
use geth_runner::errors::Error;
use geth_runner::node::{IdentifierState, NodeRecord, SessionState};

fn addresses(n: usize) -> Vec<Vec<u8>> {
    (0..n).map(|i| format!("0xAcc{}", i).into_bytes()).collect()
}

fn enode(i: usize) -> Vec<u8> {
    format!("enode://node{}@127.0.0.1:{}", i, 4000 + i).into_bytes()
}

fn spawn_all(c: &mut Controller, n: usize) {
    for i in 0..n {
        let reported = format!("0XACC{}", i).into_bytes(); // case differs
        c.record_spawn(i, &reported, enode(i)).unwrap();
    }
}

#[test]
fn explicit_topology_connects_each_declared_pair_once() {
    let mut c = Controller::new(
        addresses(3),
        1,
        Topology::Explicit(vec![vec![1, 2], vec![0], vec![1]]),
    )
    .unwrap();
    spawn_all(&mut c, 3);

    let plan = c.connect_plan().unwrap();
    let pairs: Vec<(usize, usize)> = plan.iter().map(|cmd| (cmd.node, cmd.peer)).collect();
    // Exactly one command per declared (node, peer) pair, in the declared
    // direction and order, and no others.
    assert_eq!(pairs, vec![(0, 1), (0, 2), (1, 0), (2, 1)]);
    for ConnectCmd { peer, identifier, .. } in &plan {
        assert_eq!(identifier, &enode(*peer));
    }
}

#[test]
fn three_node_scenario_production_goes_only_to_node_zero() {
    let mut c = Controller::new(
        addresses(3),
        1,
        Topology::Explicit(vec![vec![1, 2], vec![0], vec![1]]),
    )
    .unwrap();
    spawn_all(&mut c, 3);
    let connects = c.connect_plan().unwrap();
    assert_eq!(connects.len(), 4);

    let production = c.production_plan().unwrap();
    assert_eq!(production.len(), 4);
    assert!(production.iter().all(|cmd| cmd.node == 0));
    let requests: Vec<ProducerRequest> = production.iter().map(|cmd| cmd.request).collect();
    assert_eq!(
        requests,
        vec![
            ProducerRequest::StartProducing,
            ProducerRequest::ListProducers,
            ProducerRequest::ShowAccount,
            ProducerRequest::ListPeers,
        ]
    );
    assert_eq!(c.phase, Phase::Terminal);
}

#[test]
fn two_sealers_get_four_commands_each_in_order() {
    let mut c = Controller::new(
        addresses(3),
        2,
        Topology::Explicit(vec![vec![], vec![], vec![]]),
    )
    .unwrap();
    spawn_all(&mut c, 3);
    assert_eq!(c.connect_plan().unwrap(), vec![]);
    let production = c.production_plan().unwrap();
    assert_eq!(production.len(), 8);
    for (q, cmd) in production.iter().enumerate() {
        assert_eq!(cmd.node, q / 4);
    }
}

#[test]
fn discovery_aborts_on_account_mismatch() {
    let mut c =
        Controller::new(addresses(2), 1, Topology::Explicit(vec![vec![1], vec![0]])).unwrap();
    // Same length, different account: rejected despite case-insensitivity.
    let err = c.record_spawn(0, &b"0xAcc9".to_vec(), enode(0));
    assert_eq!(err, Err(Error::AccountMismatch));
    // The run did not advance.
    assert_eq!(c.phase, Phase::Spawn);
    assert_eq!(c.spawned, 0);
    // The same node with the right account, in any ASCII case, passes.
    c.record_spawn(0, &b"0XacC0".to_vec(), enode(0)).unwrap();
    assert_eq!(c.spawned, 1);
}

#[test]
fn phases_are_strictly_ordered_and_one_shot() {
    let mut c =
        Controller::new(addresses(2), 1, Topology::Explicit(vec![vec![1], vec![0]])).unwrap();
    // Nothing may run before spawn completes, and spawn goes in id order.
    assert_eq!(c.connect_plan().unwrap_err(), Error::PhaseOrder);
    assert_eq!(c.production_plan().unwrap_err(), Error::PhaseOrder);
    assert_eq!(
        c.record_spawn(1, &b"0xAcc1".to_vec(), enode(1)),
        Err(Error::PhaseOrder)
    );
    spawn_all(&mut c, 2);
    // Re-entering the spawn phase is refused.
    assert_eq!(
        c.record_spawn(0, &b"0xAcc0".to_vec(), enode(0)),
        Err(Error::PhaseOrder)
    );
    assert_eq!(c.phase, Phase::Connect);
    c.connect_plan().unwrap();
    // Each phase runs exactly once.
    assert_eq!(c.connect_plan().unwrap_err(), Error::PhaseOrder);
    c.production_plan().unwrap();
    assert_eq!(c.production_plan().unwrap_err(), Error::PhaseOrder);
}

#[test]
fn configuration_errors_are_fatal_before_any_spawn() {
    assert!(matches!(
        Controller::new(addresses(2), 3, Topology::Explicit(vec![vec![], vec![]])),
        Err(Error::InvalidArgument)
    ));
    assert!(matches!(
        Controller::new(addresses(2), 1, Topology::Explicit(vec![vec![]])),
        Err(Error::InvalidArgument)
    ));
    assert!(matches!(
        Controller::new(addresses(3), 1, Topology::Random(3)),
        Err(Error::InvalidArgument)
    ));
}

#[test]
fn random_topology_draws_valid_distinct_peers() {
    let mut c = Controller::new(addresses(5), 0, Topology::Random(2)).unwrap();
    for (i, node) in c.nodes.iter().enumerate() {
        assert_eq!(node.peers.len(), 2);
        assert!(node.peers.iter().all(|&p| p < 5 && p != i));
        assert_ne!(node.peers[0], node.peers[1]);
    }
    spawn_all(&mut c, 5);
    // Every declared peer resolves: 5 nodes with 2 peers each.
    assert_eq!(c.connect_plan().unwrap().len(), 10);
}

#[test]
fn out_of_range_peer_surfaces_at_first_use() {
    let mut c = Controller::new(addresses(1), 0, Topology::Explicit(vec![vec![5]])).unwrap();
    spawn_all(&mut c, 1);
    assert_eq!(c.connect_plan().unwrap_err(), Error::PeerOutOfRange);
}

#[test]
fn session_and_identifier_appear_exactly_once() {
    let mut node = NodeRecord {
        id: 0,
        address: b"0xAcc0".to_vec(),
        peers: vec![],
        session: SessionState::Absent,
        identifier: IdentifierState::Absent,
    };
    node.attach_session().unwrap();
    assert_eq!(node.attach_session(), Err(Error::SessionAlreadyInitialized));
    node.store_identifier(enode(0)).unwrap();
    assert_eq!(
        node.store_identifier(enode(0)),
        Err(Error::IdentifierAlreadyInitialized)
    );
}

#[test]
fn per_node_launch_parameters_follow_the_id() {
    assert_eq!(ipc_path(0), b"geth0.ipc".to_vec());
    assert_eq!(ipc_path(7), b"geth7.ipc".to_vec());
    assert_eq!(ipc_path(312), b"geth312.ipc".to_vec());
    assert_eq!(port_for(0), 4000);
    assert_eq!(port_for(12), 4012);
}
