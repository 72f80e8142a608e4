//! Health-sorted election: the leader is the first, in sorted order, of the
//! URLs of the healthy nodes, the local node among them.

use crate::keys::{copy_keys, PublicKey};
use crate::ordering::{
    ascending_urls, is_least, lemma_same_members, sort_urls, texts, url_at_most,
};
use crate::traits::{EpochManager, ManagerModel};
use crate::types::{step_emits, Epoch, EpochChange, TransferError};
use vstd::prelude::*;

verus! {

/// The candidates of an election: the healthy peers and the local node.
pub open spec fn candidates(healthy: Seq<Seq<char>>, self_url: Seq<char>) -> Seq<Seq<char>> {
    healthy.push(self_url)
}

/// The key that belongs to a URL. The URL's place among all URLs is that of
/// its first occurrence. The local node's URL has the local key; another
/// URL has the peer key at its place, counted without the local node.
pub open spec fn key_of_url(
    all_urls: Seq<Seq<char>>,
    self_url: Seq<char>,
    own_key: PublicKey,
    peer_keys: Seq<PublicKey>,
    url: Seq<char>,
) -> Option<PublicKey> {
    match all_urls.index_of_first(url) {
        None => None,
        Some(place) => if url == self_url {
            Some(own_key)
        } else {
            match all_urls.index_of_first(self_url) {
                None => None,
                Some(own_place) => {
                    let peer_place = if place < own_place {
                        place
                    } else {
                        place - 1
                    };
                    if 0 <= peer_place < peer_keys.len() {
                        Some(peer_keys[peer_place])
                    } else {
                        None
                    }
                },
            }
        },
    }
}

/// Finds the place of the first URL with the given text.
fn first_place(urls: &Vec<String>, url: &String) -> (place: Option<usize>)
    ensures
        match place {
            Some(index) => texts(urls@).index_of_first(url@) == Some(index as int),
            None => texts(urls@).index_of_first(url@).is_none(),
        },
{
    let mut place: Option<usize> = None;
    let mut i: usize = urls.len();
    while i > 0
        invariant
            i <= urls.len(),
            match place {
                Some(index) => {
                    &&& i <= index < urls.len()
                    &&& urls[index as int]@ == url@
                    &&& forall|k: int| i <= k < index ==> urls[k]@ != url@
                },
                None => forall|k: int| i <= k < urls.len() ==> urls[k]@ != url@,
            },
        decreases i,
    {
        i = i - 1;
        if urls[i] == *url {
            place = Some(i);
        }
    }
    proof {
        let all = texts(urls@);
        assert(all.len() == urls.len());
        assert(forall|k: int| 0 <= k < all.len() ==> all[k] == urls[k]@);
        all.index_of_first_ensures(url@);
        match place {
            Some(index) => {
                assert(all[index as int] == url@);
                assert(all.contains(url@));
                let first = all.index_of_first(url@).unwrap();
                if first < index {
                    assert(all[first] == urls[first]@);
                } else if first > index {
                    assert(all[index as int] != url@);
                }
            },
            None => {
                if all.contains(url@) {
                    let k = choose|k: int| 0 <= k < all.len() && all[k] == url@;
                    assert(urls[k]@ != url@);
                }
            },
        }
    }
    place
}

/// Elects the leader among the healthy peers and the local node: the first
/// of their URLs in sorted order.
pub fn elect(healthy_peers: Vec<String>, self_url: &String) -> (leader: String)
    ensures
        is_least(candidates(texts(healthy_peers@), self_url@), leader@),
{
    let ghost healthy = texts(healthy_peers@);
    let mut sorted = healthy_peers;
    sorted.push(self_url.clone());
    let ghost unsorted = texts(sorted@);
    proof {
        assert(unsorted =~= candidates(healthy, self_url@));
    }
    sort_urls(&mut sorted);
    let ghost ordered = texts(sorted@);
    proof {
        assert(unsorted[unsorted.len() - 1] == self_url@);
        assert(unsorted.contains(self_url@));
        lemma_same_members(unsorted, ordered, self_url@);
        assert(ordered[0] == sorted[0]@);
        assert(ordered.contains(ordered[0]));
        lemma_same_members(ordered, unsorted, ordered[0]);
        assert forall|i: int| 0 <= i < unsorted.len() implies url_at_most(
            ordered[0],
            unsorted[i],
        ) by {
            assert(unsorted.contains(unsorted[i]));
            lemma_same_members(unsorted, ordered, unsorted[i]);
            let j = choose|j: int| 0 <= j < ordered.len() && ordered[j] == unsorted[i];
            if j > 0 {
                assert(url_at_most(ordered[0], ordered[j]));
            }
        }
    }
    sorted[0].clone()
}

/// The epoch and its leader.
#[derive(Debug)]
struct Election {
    epoch: Epoch,
    leader: Option<String>,
}

/// Epoch manager that elects the leader by health: whenever the first
/// healthy URL in sorted order changes, a new epoch begins.
#[derive(Debug)]
pub struct HealthBasedEpochManager {
    self_url: String,
    all_urls: Vec<String>,
    public_key: PublicKey,
    peer_keys: Vec<PublicKey>,
    quorum_threshold: usize,
    state: Election,
}

impl HealthBasedEpochManager {
    #[verifier::type_invariant]
    spec fn well_formed(&self) -> bool {
        texts(self.all_urls@).contains(self.self_url@)
    }

    /// The URL of the local node.
    pub closed spec fn self_url(&self) -> Seq<char> {
        self.self_url@
    }

    /// The URLs of all nodes, the local node among them, in sorted order.
    pub closed spec fn all_urls(&self) -> Seq<Seq<char>> {
        texts(self.all_urls@)
    }

    /// The key of the local node.
    pub closed spec fn own_key(&self) -> PublicKey {
        self.public_key
    }

    /// The keys of the peers.
    pub closed spec fn peer_keys(&self) -> Seq<PublicKey> {
        self.peer_keys@
    }

    /// The acknowledgments required for certification.
    pub closed spec fn threshold(&self) -> usize {
        self.quorum_threshold
    }

    /// The current epoch.
    pub closed spec fn epoch(&self) -> Epoch {
        self.state.epoch
    }

    /// The URL of the current leader.
    pub closed spec fn leader(&self) -> Option<Seq<char>> {
        match self.state.leader {
            Some(url) => Some(url@),
            None => None,
        }
    }

    /// What the manager was made with is that of `other`: the URLs, the
    /// keys and the threshold.
    pub open spec fn same_setup(&self, other: &Self) -> bool {
        &&& self.self_url() == other.self_url()
        &&& self.all_urls() == other.all_urls()
        &&& self.own_key() == other.own_key()
        &&& self.peer_keys() == other.peer_keys()
        &&& self.threshold() == other.threshold()
    }

    /// The key of a URL.
    pub open spec fn key_of(&self, url: Seq<char>) -> Option<PublicKey> {
        key_of_url(self.all_urls(), self.self_url(), self.own_key(), self.peer_keys(), url)
    }

    /// The key of the current leader, where there is a leader and its key
    /// is known.
    pub open spec fn leader_key(&self) -> Option<PublicKey> {
        match self.leader() {
            Some(url) => self.key_of(url),
            None => None,
        }
    }

    /// Whether the local node is the leader.
    pub open spec fn leads_itself(&self) -> bool {
        self.leader() == Some(self.self_url())
    }

    /// All keys: those of the peers, then that of the local node.
    pub open spec fn all_keys(&self) -> Seq<PublicKey> {
        self.peer_keys().push(self.own_key())
    }

    /// Creates a manager in epoch zero, without a leader. All URLs are the
    /// peers' and the local node's, sorted once and for all.
    pub fn new(
        self_url: String,
        peer_urls: Vec<String>,
        public_key: PublicKey,
        peer_keys: Vec<PublicKey>,
        quorum_threshold: usize,
    ) -> (manager: Self)
        ensures
            manager.self_url() == self_url@,
            manager.all_urls().to_multiset() == candidates(
                texts(peer_urls@),
                self_url@,
            ).to_multiset(),
            ascending_urls(manager.all_urls()),
            manager.own_key() == public_key,
            manager.peer_keys() == peer_keys@,
            manager.threshold() == quorum_threshold,
            manager.epoch() == 0,
            manager.leader().is_none(),
    {
        let mut all_urls = peer_urls;
        all_urls.push(self_url.clone());
        let ghost unsorted = texts(all_urls@);
        proof {
            assert(unsorted =~= candidates(texts(peer_urls@), self_url@));
            assert(unsorted[unsorted.len() - 1] == self_url@);
            assert(unsorted.contains(self_url@));
        }
        sort_urls(&mut all_urls);
        proof {
            lemma_same_members(unsorted, texts(all_urls@), self_url@);
        }
        HealthBasedEpochManager {
            self_url,
            all_urls,
            public_key,
            peer_keys,
            quorum_threshold,
            state: Election { epoch: 0, leader: None },
        }
    }

    /// Takes the healthy peers that a probe reported and elects the leader
    /// among them and the local node. If the leader changed, a new epoch
    /// begins and the change to announce is returned; else nothing changes.
    ///
    /// The change names the sequencer of the new epoch: the key of the
    /// elected URL. Where that URL has no key, because it is not among the
    /// URLs the manager was made with or because too few peer keys were
    /// given, the epoch has no sequencer and the change names the local key
    /// in its place.
    pub fn poll_and_update(&mut self, healthy_peers: Vec<String>) -> (change: Option<
        EpochChange<PublicKey>,
    >)
        requires
            old(self).epoch() < u64::MAX,
        ensures
            final(self).same_setup(old(self)),
            final(self).leader() is Some,
            is_least(
                candidates(texts(healthy_peers@), old(self).self_url()),
                final(self).leader().unwrap(),
            ),
            match change {
                Some(change) => {
                    &&& final(self).leader() != old(self).leader()
                    &&& step_emits(old(self).epoch(), final(self).epoch(), Some(change.epoch))
                    &&& change.sequencer == match final(self).leader_key() {
                        Some(key) => key,
                        None => final(self).own_key(),
                    }
                    &&& change.is_self == final(self).leads_itself()
                    &&& change.is_self ==> change.sequencer == final(self).own_key()
                },
                None => {
                    &&& final(self).leader() == old(self).leader()
                    &&& step_emits(old(self).epoch(), final(self).epoch(), None)
                },
            },
    {
        proof {
            use_type_invariant(&*self);
        }
        let new_leader = elect(healthy_peers, &self.self_url);
        let unchanged = match &self.state.leader {
            Some(leader) => *leader == new_leader,
            None => false,
        };
        if unchanged {
            None
        } else {
            let epoch = self.state.epoch + 1;
            let is_self = new_leader == self.self_url;
            let sequencer = match self.key_for_url(&new_leader) {
                Some(key) => key,
                None => self.public_key,
            };
            proof {
                self.all_urls().index_of_first_ensures(self.self_url());
            }
            self.state = Election { epoch, leader: Some(new_leader) };
            Some(EpochChange { epoch, sequencer, is_self })
        }
    }

    /// Returns the public key for a URL.
    pub fn key_for_url(&self, url: &String) -> (key: Option<PublicKey>)
        ensures
            key == self.key_of(url@),
    {
        proof {
            use_type_invariant(self);
            self.all_urls().index_of_first_ensures(url@);
            self.all_urls().index_of_first_ensures(self.self_url());
        }
        let place = match first_place(&self.all_urls, url) {
            Some(place) => place,
            None => {
                return None;
            },
        };
        if *url == self.self_url {
            return Some(self.public_key);
        }
        let own_place = match first_place(&self.all_urls, &self.self_url) {
            Some(own_place) => own_place,
            None => {
                return None;
            },
        };
        let peer_place = if place < own_place {
            place
        } else {
            place - 1
        };
        if peer_place < self.peer_keys.len() {
            Some(self.peer_keys[peer_place])
        } else {
            None
        }
    }
}

/// Copies a list of strings.
fn copy_urls(urls: &Vec<String>) -> (copy: Vec<String>)
    ensures
        texts(copy@) == texts(urls@),
{
    let mut copy: Vec<String> = Vec::new();
    let mut i: usize = 0;
    while i < urls.len()
        invariant
            i <= urls.len(),
            copy.len() == i,
            forall|k: int| 0 <= k < i ==> copy[k]@ == urls[k]@,
        decreases urls.len() - i,
    {
        copy.push(urls[i].clone());
        i = i + 1;
    }
    assert(texts(copy@) =~= texts(urls@));
    copy
}

impl Clone for HealthBasedEpochManager {
    fn clone(&self) -> (copy: Self)
        ensures
            copy.same_setup(self),
            copy.epoch() == self.epoch(),
            copy.leader() == self.leader(),
    {
        proof {
            use_type_invariant(self);
        }
        HealthBasedEpochManager {
            self_url: self.self_url.clone(),
            all_urls: copy_urls(&self.all_urls),
            public_key: self.public_key,
            peer_keys: copy_keys(&self.peer_keys),
            quorum_threshold: self.quorum_threshold,
            state: Election {
                epoch: self.state.epoch,
                leader: match &self.state.leader {
                    Some(url) => Some(url.clone()),
                    None => None,
                },
            },
        }
    }
}

impl EpochManager for HealthBasedEpochManager {
    type PublicKey = PublicKey;

    open spec fn model(&self) -> ManagerModel<PublicKey> {
        ManagerModel {
            epoch: self.epoch(),
            sequencer: |epoch: Epoch|
                if epoch == self.epoch() {
                    self.leader_key()
                } else {
                    None
                },
            leads: |key: PublicKey| key == self.own_key() && self.leads_itself(),
            validators: |epoch: Epoch|
                if epoch == self.epoch() {
                    Some(self.all_keys())
                } else {
                    None
                },
            threshold: |epoch: Epoch| Some(self.threshold()),
        }
    }

    fn current_epoch(&self) -> (epoch: Epoch)
        ensures
            epoch == self.epoch(),
    {
        self.state.epoch
    }

    fn sequencer(&self, epoch: Epoch) -> (sequencer: Option<PublicKey>)
        ensures
            sequencer == if epoch == self.epoch() {
                self.leader_key()
            } else {
                None
            },
    {
        if epoch != self.state.epoch {
            return None;
        }
        match &self.state.leader {
            Some(url) => self.key_for_url(url),
            None => None,
        }
    }

    fn is_sequencer(&self, key: &PublicKey) -> (leads: bool)
        ensures
            leads == (*key == self.own_key() && self.leads_itself()),
    {
        let leads_itself = match &self.state.leader {
            Some(url) => *url == self.self_url,
            None => false,
        };
        *key == self.public_key && leads_itself
    }

    fn transfer_leader(&self) -> (outcome: Result<(), TransferError>)
        ensures
            outcome == Err::<(), TransferError>(TransferError::NotSupported),
    {
        Err(TransferError::NotSupported)
    }

    fn validators(&self, epoch: Epoch) -> (validators: Option<Vec<PublicKey>>)
        ensures
            epoch == self.epoch() ==> validators is Some && validators.unwrap()@
                == self.all_keys(),
            epoch != self.epoch() ==> validators is None,
    {
        if epoch != self.state.epoch {
            return None;
        }
        let mut validators = copy_keys(&self.peer_keys);
        validators.push(self.public_key);
        Some(validators)
    }

    fn quorum_threshold(&self, epoch: Epoch) -> (threshold: Option<usize>)
        ensures
            threshold == Some(self.threshold()),
    {
        Some(self.quorum_threshold)
    }
}

} // verus!
