use libqaul::neighbours::{calculate_rtt, ConnectionModule, Neighbours};

fn peer(b: u8) -> Vec<u8> {
    vec![0, 1, b]
}

#[test]
fn rtt_update_sequence_smooths_three_to_one() {
    let mut n = Neighbours::init();
    assert!(n.update_node(ConnectionModule::Lan, peer(1), 100, 10));
    assert_eq!(n.get_rtt(&peer(1), ConnectionModule::Lan), Some(100));
    assert!(!n.update_node(ConnectionModule::Lan, peer(1), 200, 20));
    assert_eq!(n.get_rtt(&peer(1), ConnectionModule::Lan), Some((100 * 3 + 200) / 4));
    assert_eq!(n.get_rtt(&peer(1), ConnectionModule::Lan), Some(125));
}

#[test]
fn calculate_rtt_exact_values() {
    assert_eq!(calculate_rtt(100, 200), 125);
    assert_eq!(calculate_rtt(1, 1), 1);
    assert_eq!(calculate_rtt(0, 3), 0);
    assert_eq!(calculate_rtt(u32::MAX, u32::MAX), u32::MAX);
}

#[test]
fn get_rtt_local_unknown_and_absent() {
    let n = Neighbours::init();
    assert_eq!(n.get_rtt(&peer(1), ConnectionModule::Local), Some(0));
    assert_eq!(n.get_rtt(&peer(1), ConnectionModule::Unknown), None);
    assert_eq!(n.get_rtt(&peer(1), ConnectionModule::Internet), None);
}

#[test]
fn update_on_untracked_transport_is_ignored() {
    let mut n = Neighbours::init();
    assert!(!n.update_node(ConnectionModule::Local, peer(1), 5, 1));
    assert!(!n.update_node(ConnectionModule::Unknown, peer(1), 5, 1));
    assert_eq!(n.is_neighbour(&peer(1)), ConnectionModule::Unknown);
}

#[test]
fn tables_are_separate_per_transport() {
    let mut n = Neighbours::init();
    n.update_node(ConnectionModule::Internet, peer(2), 40, 1);
    assert_eq!(n.get_rtt(&peer(2), ConnectionModule::Internet), Some(40));
    assert_eq!(n.get_rtt(&peer(2), ConnectionModule::Lan), None);
    assert!(n.update_node(ConnectionModule::ShortRange, peer(2), 80, 2));
    assert_eq!(n.get_rtt(&peer(2), ConnectionModule::ShortRange), Some(80));
    assert_eq!(n.get_rtt(&peer(2), ConnectionModule::Internet), Some(40));
}

#[test]
fn is_neighbour_checks_lan_then_internet_then_short_range() {
    let mut n = Neighbours::init();
    n.update_node(ConnectionModule::ShortRange, peer(3), 1, 1);
    assert_eq!(n.is_neighbour(&peer(3)), ConnectionModule::ShortRange);
    n.update_node(ConnectionModule::Internet, peer(3), 1, 1);
    assert_eq!(n.is_neighbour(&peer(3)), ConnectionModule::Internet);
    n.update_node(ConnectionModule::Lan, peer(3), 1, 1);
    assert_eq!(n.is_neighbour(&peer(3)), ConnectionModule::Lan);
    assert_eq!(n.is_neighbour(&peer(4)), ConnectionModule::Unknown);
}

#[test]
fn delete_removes_and_is_idempotent() {
    let mut n = Neighbours::init();
    n.update_node(ConnectionModule::Lan, peer(5), 10, 1);
    n.update_node(ConnectionModule::Lan, peer(6), 20, 1);
    n.delete(ConnectionModule::Lan, &peer(5));
    assert_eq!(n.get_rtt(&peer(5), ConnectionModule::Lan), None);
    assert_eq!(n.get_rtt(&peer(6), ConnectionModule::Lan), Some(20));
    n.delete(ConnectionModule::Lan, &peer(5));
    assert_eq!(n.get_rtt(&peer(6), ConnectionModule::Lan), Some(20));
    assert!(n.update_node(ConnectionModule::Lan, peer(5), 30, 2));
    assert_eq!(n.get_rtt(&peer(5), ConnectionModule::Lan), Some(30));
}

#[test]
fn neighbours_list_reports_every_table() {
    let mut n = Neighbours::init();
    n.update_node(ConnectionModule::Lan, peer(1), 10, 1);
    n.update_node(ConnectionModule::Lan, peer(2), 20, 1);
    n.update_node(ConnectionModule::Internet, peer(3), 30, 1);
    let list = n.neighbours_list();
    assert_eq!(list.lan.len(), 2);
    assert!(list.lan.iter().any(|e| e.node_id == peer(1) && e.rtt == 10));
    assert!(list.lan.iter().any(|e| e.node_id == peer(2) && e.rtt == 20));
    assert_eq!(list.internet.len(), 1);
    assert_eq!(list.internet[0].node_id, peer(3));
    assert_eq!(list.internet[0].rtt, 30);
    assert!(list.short_range.is_empty());
}
