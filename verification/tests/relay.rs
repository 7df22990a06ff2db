use pedersen_crh::relay::{relay_targets, PeerAddress};

fn peer(ip: u128, port: u16) -> PeerAddress {
    PeerAddress { ip, port }
}

#[test]
fn origin_and_local_node_are_left_out() {
    let peers = vec![peer(1, 4130), peer(2, 4130), peer(3, 4130), peer(4, 4130)];
    let targets = relay_targets(&peers, peer(2, 4130), peer(4, 4130));
    assert_eq!(targets, vec![peer(1, 4130), peer(3, 4130)]);
}

#[test]
fn same_ip_on_another_port_is_another_peer() {
    let peers = vec![peer(1, 4130), peer(1, 4131)];
    assert_eq!(relay_targets(&peers, peer(1, 4130), peer(9, 1)), vec![peer(1, 4131)]);
}

#[test]
fn unknown_origin_reaches_every_other_peer() {
    let peers = vec![peer(1, 1), peer(2, 2)];
    assert_eq!(relay_targets(&peers, peer(7, 7), peer(8, 8)), peers);
    assert_eq!(relay_targets(&Vec::new(), peer(7, 7), peer(8, 8)), Vec::new());
    assert_eq!(relay_targets(&peers, peer(1, 1), peer(2, 2)), Vec::new());
}
