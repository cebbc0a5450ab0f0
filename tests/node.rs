use p2p_failover::config::{Config, ConfigMetadata, ExecutionInstructions, ProviderNode};
use p2p_failover::node::{connect_target, peers_to_probe, Activation, Node};
use p2p_failover::node_connections::NodeConnections;
use p2p_failover::parser::Parser;
use p2p_failover::process::instruction_args;
use p2p_failover::timestamp::Timestamp;

fn peer(name: &str, priority: u32) -> ProviderNode {
    ProviderNode {
        name: name.to_string(),
        ddns: format!("{}.example.org", name),
        ip: "127.0.0.1".to_string(),
        port: 9,
        preference: 1,
        priority,
        last_updated: Timestamp { secs: 0, nanos: 0 },
    }
}

fn config(own: &str, nodes: Vec<ProviderNode>) -> Config {
    Config {
        nodes,
        config_metadata: ConfigMetadata { name: own.to_string(), last_updated: Timestamp { secs: 0, nanos: 0 } },
        execution: ExecutionInstructions {
            instructions: "/bin/sleep 60".to_string(),
            last_updated: Timestamp { secs: 0, nanos: 0 },
        },
    }
}

#[test]
fn probe_results_fill_one_slot_per_peer() {
    let c = config("A", vec![peer("B", 20), peer("A", 10), peer("C", 5)]);
    let mut n: Node<u32> = Node::new(&c);
    assert_eq!(n.alives(), &vec![false, false, false]);
    let count = n.record_probe_results(&c, &vec![true, true, false]);
    assert_eq!(count, 1);
    assert_eq!(n.alives(), &vec![true, false, false]);
    let bigger = config("A", vec![peer("B", 20), peer("A", 10), peer("C", 5), peer("D", 1)]);
    let count = n.record_probe_results(&bigger, &vec![true, true, true, true]);
    assert_eq!(count, 3);
    assert_eq!(n.alives(), &vec![true, false, true, true]);
}

#[test]
fn local_peer_is_not_probed() {
    let c = config("A", vec![peer("B", 20), peer("A", 10), peer("C", 5)]);
    assert_eq!(peers_to_probe(&c), vec![0, 2]);
}

#[test]
fn solo_peer_activates() {
    let c = config("A", vec![peer("A", 10), peer("B", 20)]);
    let mut n: Node<u32> = Node::new(&c);
    let count = n.record_probe_results(&c, &vec![false, false]);
    assert_eq!(n.decide(&c, count), Activation::Activate);
    n.activate(7);
    assert!(n.is_alive() && n.has_child());
}

#[test]
fn configured_superior_preempts() {
    let c = config("A", vec![peer("A", 10)]);
    let mut n: Node<u32> = Node::new(&c);
    let count = n.record_probe_results(&c, &vec![false]);
    assert_eq!(n.decide(&c, count), Activation::Activate);
    n.activate(7);
    let grown = config("A", vec![peer("A", 10), peer("B", 20)]);
    let count = n.record_probe_results(&grown, &vec![false, false]);
    assert_eq!(n.decide(&grown, count), Activation::Deactivate);
    assert_eq!(n.deactivate(), Some(7));
    assert!(!n.is_alive() && !n.has_child());
}

#[test]
fn recovery_after_superior_dies() {
    let c = config("A", vec![peer("A", 10), peer("B", 20)]);
    let mut n: Node<u32> = Node::new(&c);
    let count = n.record_probe_results(&c, &vec![false, true]);
    assert_eq!(n.decide(&c, count), Activation::Stay);
    let count = n.record_probe_results(&c, &vec![false, false]);
    assert_eq!(n.decide(&c, count), Activation::Activate);
}

#[test]
fn live_inferior_does_not_block_activation() {
    let c = config("B", vec![peer("A", 10), peer("B", 20)]);
    let mut n: Node<u32> = Node::new(&c);
    let count = n.record_probe_results(&c, &vec![true, false]);
    assert_eq!(count, 1);
    assert_eq!(n.decide(&c, count), Activation::Activate);
}

#[test]
fn equal_priorities_do_not_preempt() {
    let c = config("A", vec![peer("A", 10), peer("B", 10)]);
    let mut n: Node<u32> = Node::new(&c);
    let count = n.record_probe_results(&c, &vec![false, true]);
    assert_eq!(n.decide(&c, count), Activation::Activate);
    n.activate(1);
    let count = n.record_probe_results(&c, &vec![false, true]);
    assert_eq!(n.decide(&c, count), Activation::Stay);
}

#[test]
fn missing_local_name_counts_as_priority_zero() {
    let c = config("Z", vec![peer("A", 1)]);
    let mut n: Node<u32> = Node::new(&c);
    let count = n.record_probe_results(&c, &vec![true]);
    assert_eq!(n.decide(&c, count), Activation::Stay);
}

#[test]
fn connect_target_follows_preference() {
    let mut p = peer("B", 1);
    assert_eq!(connect_target(&p), "127.0.0.1");
    p.preference = 0;
    assert_eq!(connect_target(&p), "B.example.org");
}

#[test]
fn pool_keeps_one_record_per_name() {
    let mut pool: NodeConnections<u8> = NodeConnections::new();
    let b = peer("B", 1);
    pool.create_node_connection(&b, 1);
    pool.create_node_connection(&peer("C", 1), 2);
    pool.create_node_connection(&b, 3);
    assert_eq!(pool.get_alive_connections().len(), 2);
    let r = pool.get_node_connection(&"B".to_string()).unwrap();
    assert_eq!(r.stream(), Some(&3));
    assert_eq!(r.target, "127.0.0.1");
    pool.remove_node_connection(&"B".to_string());
    assert!(pool.get_node_connection(&"B".to_string()).is_none());
    assert_eq!(pool.get_alive_connections().len(), 1);
    pool.remove_node_connection(&"X".to_string());
    assert_eq!(pool.get_alive_connections().len(), 1);
}

#[test]
fn default_pool_is_empty() {
    let pool: NodeConnections<u8> = NodeConnections::default();
    assert!(pool.get_alive_connections().is_empty());
}

#[test]
fn instructions_split_on_spaces() {
    assert_eq!(instruction_args("/bin/sleep 60"), vec!["/bin/sleep", "60"]);
    assert_eq!(instruction_args("a  b"), vec!["a", "", "b"]);
    assert_eq!(instruction_args(""), vec![""]);
}

#[test]
fn parser_hands_back_its_source() {
    let mut p = Parser::new(vec![1u8, 2]);
    assert_eq!(p.source(), &mut vec![1u8, 2]);
}
