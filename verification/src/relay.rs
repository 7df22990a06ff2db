//! Choosing the peers to which a transaction or a block is passed on.

use vstd::prelude::*;

verus! {

/// The address of a peer: the 128 bits of its IP address (an IPv4 address
/// in its IPv6-mapped form) and its port.
#[derive(Clone, Copy, Debug, PartialEq, Eq, Structural, PartialOrd, Ord, Hash)]
pub struct PeerAddress {
    pub ip: u128,
    pub port: u16,
}

/// Whether `peer` is passed what came from `origin`: every peer is, but the
/// one it came from and this node itself.
pub open spec fn is_relay_target(peer: PeerAddress, origin: PeerAddress, local: PeerAddress) -> bool {
    peer != origin && peer != local
}

/// The peers to pass on to, in the order of `peers`: all of them but the
/// origin and this node.
pub fn relay_targets(peers: &Vec<PeerAddress>, origin: PeerAddress, local: PeerAddress) -> (targets:
    Vec<PeerAddress>)
    ensures
        targets@ == peers@.filter(|peer: PeerAddress| is_relay_target(peer, origin, local)),
{
    let ghost chosen = |peer: PeerAddress| is_relay_target(peer, origin, local);
    let mut targets: Vec<PeerAddress> = Vec::new();
    let mut i: usize = 0;
    proof {
        reveal(Seq::filter);
        assert(peers@.take(0) =~= Seq::<PeerAddress>::empty());
    }
    while i < peers.len()
        invariant
            i <= peers@.len(),
            chosen == |peer: PeerAddress| is_relay_target(peer, origin, local),
            targets@ == peers@.take(i as int).filter(chosen),
        decreases peers@.len() - i,
    {
        let peer = peers[i];
        proof {
            reveal(Seq::filter);
            assert(peers@.take(i + 1).drop_last() =~= peers@.take(i as int));
            assert(peers@.take(i + 1).last() == peer);
        }
        if peer != origin && peer != local {
            targets.push(peer);
        }
        i = i + 1;
    }
    assert(peers@.take(i as int) =~= peers@);
    targets
}

} // verus!
