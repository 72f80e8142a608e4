//! Health records of peer nodes.

use crate::ordering::{ascending_urls, sort_urls, texts};
use std::time::Instant;
use vstd::prelude::*;

verus! {

/// A point in time of the monotonic clock. Its value is not modelled.
#[verifier::external_type_specification]
#[verifier::external_body]
pub struct ExInstant(Instant);

/// Reads the monotonic clock with `std::time::Instant::now`. Nothing is
/// claimed of the instant that comes back.
#[verifier::external_body]
fn clock_now() -> (now: Instant) {
    Instant::now()
}

/// What a node reports of itself when asked for its health.
#[derive(Debug, Clone)]
pub struct HealthStatus {
    /// Whether the node is healthy.
    pub healthy: bool,
    /// The node's identity.
    pub identity: String,
    /// Current epoch.
    pub epoch: u64,
    /// Whether this node is the current leader.
    pub is_leader: bool,
}

/// Tracked health of a peer.
#[derive(Debug, Clone)]
pub struct PeerHealth {
    /// Peer URL.
    pub url: String,
    /// Whether the peer is currently healthy.
    pub healthy: bool,
    /// Time of the last successful health check.
    pub last_seen: Option<Instant>,
    /// Number of consecutive failures.
    pub consecutive_failures: u32,
}

impl PeerHealth {
    /// Creates the record of a peer that was not checked yet: not healthy,
    /// never seen, no failures.
    pub fn new(url: String) -> (peer: Self)
        ensures
            peer.url == url,
            !peer.healthy,
            peer.last_seen.is_none(),
            peer.consecutive_failures == 0,
    {
        PeerHealth { url, healthy: false, last_seen: None, consecutive_failures: 0 }
    }

    /// Marks the peer as healthy: seen now, with no failures.
    pub fn mark_healthy(&mut self)
        ensures
            final(self).url == old(self).url,
            final(self).healthy,
            final(self).last_seen.is_some(),
            final(self).consecutive_failures == 0,
    {
        self.healthy = true;
        self.last_seen = Some(clock_now());
        self.consecutive_failures = 0;
    }

    /// Marks the peer as unhealthy and counts one more failure.
    pub fn mark_unhealthy(&mut self)
        requires
            old(self).consecutive_failures < u32::MAX,
        ensures
            final(self).url == old(self).url,
            !final(self).healthy,
            final(self).last_seen == old(self).last_seen,
            final(self).consecutive_failures == old(self).consecutive_failures + 1,
    {
        self.healthy = false;
        self.consecutive_failures = self.consecutive_failures + 1;
    }
}

/// The URLs of the healthy records, in the order of the records.
pub open spec fn healthy_urls(records: Seq<PeerHealth>) -> Seq<Seq<char>>
    decreases records.len(),
{
    if records.len() == 0 {
        Seq::empty()
    } else if records.last().healthy {
        healthy_urls(records.drop_last()).push(records.last().url@)
    } else {
        healthy_urls(records.drop_last())
    }
}

/// The place of the record with the URL, if there is one.
pub open spec fn record_of(records: Seq<PeerHealth>, url: Seq<char>) -> Option<int> {
    if exists|i: int| 0 <= i < records.len() && records[i].url@ == url {
        Some(choose|i: int| 0 <= i < records.len() && records[i].url@ == url)
    } else {
        None
    }
}

/// No URL has two records.
pub open spec fn distinct_urls(records: Seq<PeerHealth>) -> bool {
    forall|i: int, j: int|
        0 <= i < j < records.len() ==> records[i].url@ != records[j].url@
}

/// The health records of the peers, one for each URL.
#[derive(Debug)]
pub struct HealthTracker {
    peers: Vec<PeerHealth>,
}

impl HealthTracker {
    #[verifier::type_invariant]
    spec fn well_formed(&self) -> bool {
        distinct_urls(self.peers@)
    }

    /// The records, one for each URL.
    pub closed spec fn records(&self) -> Seq<PeerHealth> {
        self.peers@
    }

    /// Finds the place of the record with the URL.
    fn find(peers: &Vec<PeerHealth>, url: &String) -> (place: Option<usize>)
        ensures
            match place {
                Some(index) => index < peers.len() && peers[index as int].url@ == url@,
                None => forall|k: int| 0 <= k < peers.len() ==> peers[k].url@ != url@,
            },
    {
        let mut i: usize = 0;
        while i < peers.len()
            invariant
                i <= peers.len(),
                forall|k: int| 0 <= k < i ==> peers[k].url@ != url@,
            decreases peers.len() - i,
        {
            if peers[i].url == *url {
                return Some(i);
            }
            i = i + 1;
        }
        None
    }

    /// Creates the records of the peers: one for each URL, none of them
    /// checked yet.
    pub fn new(peer_urls: Vec<String>) -> (tracker: Self)
        ensures
            distinct_urls(tracker.records()),
            forall|url: Seq<char>|
                texts(peer_urls@).contains(url) <==> record_of(tracker.records(), url) is Some,
            forall|i: int|
                0 <= i < tracker.records().len() ==> {
                    &&& !(#[trigger] tracker.records()[i]).healthy
                    &&& tracker.records()[i].last_seen is None
                    &&& tracker.records()[i].consecutive_failures == 0
                },
    {
        let mut peers: Vec<PeerHealth> = Vec::new();
        let mut i: usize = 0;
        while i < peer_urls.len()
            invariant
                i <= peer_urls.len(),
                distinct_urls(peers@),
                forall|url: Seq<char>|
                    texts(peer_urls@.take(i as int)).contains(url) <==> record_of(peers@, url)
                        is Some,
                forall|k: int|
                    0 <= k < peers.len() ==> {
                        &&& !(#[trigger] peers[k]).healthy
                        &&& peers[k].last_seen is None
                        &&& peers[k].consecutive_failures == 0
                    },
            decreases peer_urls.len() - i,
        {
            let ghost before = peers@;
            let ghost seen = texts(peer_urls@.take(i as int));
            let known = Self::find(&peers, &peer_urls[i]);
            if known.is_none() {
                peers.push(PeerHealth::new(peer_urls[i].clone()));
            }
            proof {
                let next = texts(peer_urls@.take(i + 1));
                let added = peer_urls[i as int]@;
                assert(next =~= seen.push(added));
                assert forall|url: Seq<char>| next.contains(url) <==> record_of(peers@, url)
                    is Some by {
                    if next.contains(url) {
                        let k = choose|k: int| 0 <= k < next.len() && next[k] == url;
                        if k < seen.len() {
                            assert(seen[k] == url);
                            assert(seen.contains(url));
                            assert(record_of(before, url) is Some);
                            let r = choose|r: int| 0 <= r < before.len() && before[r].url@ == url;
                            assert(peers@[r].url@ == url);
                        } else {
                            assert(url == added);
                            if known is Some {
                                assert(peers@[known.unwrap() as int].url@ == url);
                            } else {
                                assert(peers@[peers.len() - 1].url@ == url);
                            }
                        }
                    }
                    if record_of(peers@, url) is Some {
                        let r = choose|r: int| 0 <= r < peers.len() && peers[r].url@ == url;
                        if r < before.len() {
                            assert(before[r].url@ == url);
                            assert(record_of(before, url) is Some);
                            assert(seen.contains(url));
                            let k = choose|k: int| 0 <= k < seen.len() && seen[k] == url;
                            assert(next[k] == url);
                        } else {
                            assert(url == added);
                            assert(next[next.len() - 1] == url);
                        }
                    }
                }
            }
            i = i + 1;
        }
        proof {
            assert(peer_urls@.take(peer_urls.len() as int) =~= peer_urls@);
        }
        HealthTracker { peers }
    }

    /// Records the outcome of a health check of the peer with the URL: a
    /// healthy peer is marked healthy, another one unhealthy. A URL without
    /// a record changes nothing.
    pub fn record_check(&mut self, url: &String, healthy: bool)
        requires
            !healthy ==> forall|i: int|
                0 <= i < old(self).records().len() && (#[trigger] old(self).records()[i]).url@
                    == url@ ==> old(self).records()[i].consecutive_failures < u32::MAX,
        ensures
            final(self).records().len() == old(self).records().len(),
            forall|i: int|
                0 <= i < old(self).records().len() ==> {
                    let before = #[trigger] old(self).records()[i];
                    let after = final(self).records()[i];
                    if before.url@ != url@ {
                        after == before
                    } else if healthy {
                        &&& after.url@ == before.url@
                        &&& after.healthy
                        &&& after.last_seen is Some
                        &&& after.consecutive_failures == 0
                    } else {
                        &&& after.url@ == before.url@
                        &&& !after.healthy
                        &&& after.last_seen == before.last_seen
                        &&& after.consecutive_failures == before.consecutive_failures + 1
                    }
                },
    {
        let mut taken = HealthTracker { peers: Vec::new() };
        core::mem::swap(self, &mut taken);
        proof {
            use_type_invariant(&taken);
        }
        let mut peers = taken.peers;
        let ghost before = peers@;
        match Self::find(&peers, url) {
            Some(place) => {
                let mut record = PeerHealth {
                    url: peers[place].url.clone(),
                    healthy: peers[place].healthy,
                    last_seen: peers[place].last_seen,
                    consecutive_failures: peers[place].consecutive_failures,
                };
                if healthy {
                    record.mark_healthy();
                } else {
                    record.mark_unhealthy();
                }
                peers.set(place, record);
                proof {
                    assert forall|i: int, j: int| 0 <= i < j < peers.len() implies peers[i].url@
                        != peers[j].url@ by {
                        assert(peers[i].url@ == before[i].url@);
                        assert(peers[j].url@ == before[j].url@);
                    }
                    assert forall|i: int| 0 <= i < before.len() && before[i].url@ != url@ implies
                        peers[i] == before[i] by {
                        assert(i != place);
                    }
                    assert forall|i: int| 0 <= i < before.len() && before[i].url@ == url@ implies i
                        == place by {
                        if i < place {
                            assert(before[i].url@ != before[place as int].url@);
                        } else if place < i {
                            assert(before[place as int].url@ != before[i].url@);
                        }
                    }
                }
            },
            None => {},
        }
        *self = HealthTracker { peers };
    }

    /// Returns the URLs of the healthy peers, sorted.
    pub fn healthy_peers(&self) -> (healthy: Vec<String>)
        ensures
            ascending_urls(texts(healthy@)),
            texts(healthy@).to_multiset() == healthy_urls(self.records()).to_multiset(),
    {
        let mut healthy: Vec<String> = Vec::new();
        let mut i: usize = 0;
        while i < self.peers.len()
            invariant
                i <= self.peers.len(),
                texts(healthy@) == healthy_urls(self.peers@.take(i as int)),
            decreases self.peers.len() - i,
        {
            let ghost so_far = texts(healthy@);
            if self.peers[i].healthy {
                healthy.push(self.peers[i].url.clone());
            }
            proof {
                let next = self.peers@.take(i + 1);
                assert(next.drop_last() =~= self.peers@.take(i as int));
                assert(next.last() == self.peers[i as int]);
                if self.peers[i as int].healthy {
                    assert(texts(healthy@) =~= so_far.push(self.peers[i as int].url@));
                } else {
                    assert(texts(healthy@) =~= so_far);
                }
            }
            i = i + 1;
        }
        proof {
            assert(self.peers@.take(self.peers.len() as int) =~= self.peers@);
        }
        sort_urls(&mut healthy);
        healthy
    }

    /// Returns a copy of every record.
    pub fn all_peers(&self) -> (peers: Vec<PeerHealth>)
        ensures
            peers.len() == self.records().len(),
            forall|i: int|
                0 <= i < peers.len() ==> {
                    &&& (#[trigger] peers[i]).url@ == self.records()[i].url@
                    &&& peers[i].healthy == self.records()[i].healthy
                    &&& peers[i].last_seen == self.records()[i].last_seen
                    &&& peers[i].consecutive_failures == self.records()[i].consecutive_failures
                },
    {
        let mut peers: Vec<PeerHealth> = Vec::new();
        let mut i: usize = 0;
        while i < self.peers.len()
            invariant
                i <= self.peers.len(),
                peers.len() == i,
                forall|k: int|
                    0 <= k < i ==> {
                        &&& (#[trigger] peers[k]).url@ == self.peers[k].url@
                        &&& peers[k].healthy == self.peers[k].healthy
                        &&& peers[k].last_seen == self.peers[k].last_seen
                        &&& peers[k].consecutive_failures == self.peers[k].consecutive_failures
                    },
            decreases self.peers.len() - i,
        {
            peers.push(
                PeerHealth {
                    url: self.peers[i].url.clone(),
                    healthy: self.peers[i].healthy,
                    last_seen: self.peers[i].last_seen,
                    consecutive_failures: self.peers[i].consecutive_failures,
                },
            );
            i = i + 1;
        }
        peers
    }
}

} // verus!
