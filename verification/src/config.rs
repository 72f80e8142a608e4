//! Configuration of a conductor node, and how options given on the command
//! line override it.

use vstd::prelude::*;
use vstd::string::*;

verus! {

/// Configuration of a conductor node.
#[derive(Debug, Clone)]
pub struct Config {
    /// Address to bind the server to.
    pub bind_addr: String,
    /// URLs of the peers to monitor.
    pub peers: Vec<String>,
    /// Seed from which the node's key is derived.
    pub identity: u64,
    /// Health check interval in milliseconds.
    pub health_interval_ms: u64,
    /// Acknowledgments required for certification.
    pub quorum_threshold: usize,
}

/// Options given on the command line.
#[derive(Debug, Clone)]
pub struct Cli {
    /// Path to a configuration file.
    pub config: Option<String>,
    /// Address to bind the server to.
    pub bind_addr: String,
    /// Seed from which the node's key is derived.
    pub identity: Option<u64>,
    /// URLs of the peers.
    pub peers: Vec<String>,
    /// Health check interval in milliseconds.
    pub health_interval_ms: u64,
    /// Acknowledgments required for certification.
    pub quorum_threshold: usize,
}

/// The address that a node binds to unless told otherwise.
pub open spec fn default_bind_addr() -> Seq<char> {
    "127.0.0.1:8080"@
}

impl Default for Config {
    fn default() -> (config: Self)
        ensures
            config.bind_addr@ == default_bind_addr(),
            config.peers@.len() == 0,
            config.identity == 0,
            config.health_interval_ms == 1000,
            config.quorum_threshold == 1,
    {
        Config {
            bind_addr: String::from_str("127.0.0.1:8080"),
            peers: Vec::new(),
            identity: 0,
            health_interval_ms: 1000,
            quorum_threshold: 1,
        }
    }
}

impl Config {
    /// Applies the options of the command line over this configuration: the
    /// address, the interval and the threshold are always taken from the
    /// command line; the identity where it is given; the peers where any
    /// are given.
    pub fn overridden_by(self, cli: Cli) -> (config: Config)
        ensures
            config.bind_addr == cli.bind_addr,
            config.identity == match cli.identity {
                Some(identity) => identity,
                None => self.identity,
            },
            config.peers == if cli.peers@.len() > 0 {
                cli.peers
            } else {
                self.peers
            },
            config.health_interval_ms == cli.health_interval_ms,
            config.quorum_threshold == cli.quorum_threshold,
    {
        let identity = match cli.identity {
            Some(identity) => identity,
            None => self.identity,
        };
        let peers = if cli.peers.len() > 0 {
            cli.peers
        } else {
            self.peers
        };
        Config {
            bind_addr: cli.bind_addr,
            peers,
            identity,
            health_interval_ms: cli.health_interval_ms,
            quorum_threshold: cli.quorum_threshold,
        }
    }
}

/// The seed of the peer at a place, counted from one: the place, or one
/// more from the place of the local seed on, which is skipped.
pub open spec fn peer_seed(place: u64, identity: u64) -> int {
    if place >= identity {
        place + 1
    } else {
        place as int
    }
}

/// The seeds from which the keys of `count` peers are derived: the numbers
/// from one on, without the seed of the local node.
pub fn peer_seeds(count: usize, identity: u64) -> (seeds: Vec<u64>)
    requires
        count < u64::MAX,
    ensures
        seeds.len() == count,
        forall|i: int| 0 <= i < count ==> seeds[i] == peer_seed((i + 1) as u64, identity),
{
    let mut seeds: Vec<u64> = Vec::new();
    let mut i: usize = 0;
    while i < count
        invariant
            i <= count,
            count < u64::MAX,
            seeds.len() == i,
            forall|k: int| 0 <= k < i ==> seeds[k] == peer_seed((k + 1) as u64, identity),
        decreases count - i,
    {
        let place = (i as u64) + 1;
        let seed = if place >= identity {
            place + 1
        } else {
            place
        };
        seeds.push(seed);
        i = i + 1;
    }
    seeds
}

/// The text of the URL of a node that binds to the address.
pub open spec fn self_url_text(bind_addr: Seq<char>) -> Seq<char> {
    "http://"@ + bind_addr
}

/// The URL of the local node: `http://` and the address it binds to.
pub fn self_url(bind_addr: &String) -> (url: String)
    ensures
        url@ == self_url_text(bind_addr@),
{
    let mut url = String::from_str("http://");
    url.append(bind_addr.as_str());
    url
}

} // verus!
