//! Target descriptors: a data-only description of one source to poll and the
//! metric labels to publish its reading under.

use vstd::prelude::*;

verus! {

/// The closed set of source kinds; it selects the fetch strategy.
#[derive(Debug, Clone, PartialEq, Eq, Structural)]
pub enum RPCType {
    ChainNode,
    DictEntry,
    RedisKey,
    CFGMAPKey,
}

/// One thing to poll: its kind, its address or lookup key, the labels of its
/// metric series, and the optional fields some kinds need. `result` holds the
/// last fetched value.
#[derive(Debug, Clone, PartialEq)]
pub struct Target {
    pub type_: RPCType,
    pub uri: String,
    pub label_network: String,
    pub label_app: String,
    pub label_component: String,
    pub label_source_label: String,
    pub block_label: Option<String>,
    pub block_label_offset: Option<i64>,
    pub result: Option<i64>,
    pub redis_host: Option<String>,
    pub redis_passwd: Option<String>,
    pub redis_key: Option<String>,
}

impl Target {
    /// The optional fields the descriptor's kind requires are present. This
    /// is the load-time invariant: absence is a configuration error.
    pub open spec fn wf(self) -> bool {
        match self.type_ {
            RPCType::ChainNode => self.block_label is Some && self.block_label_offset is Some,
            RPCType::RedisKey => self.redis_host is Some && self.redis_passwd is Some
                && self.redis_key is Some,
            RPCType::DictEntry => true,
            RPCType::CFGMAPKey => true,
        }
    }

    /// The metric-series key this descriptor publishes under.
    pub open spec fn series_key(self) -> (Seq<char>, Seq<char>, Seq<char>, Seq<char>) {
        (self.label_network@, self.label_app@, self.label_component@, self.label_source_label@)
    }

    /// The descriptor with its `result` field set to `n`.
    pub open spec fn with_result(self, n: i64) -> Target {
        Target { result: Some(n), ..self }
    }

    /// Whether the descriptor satisfies its kind's field invariant.
    pub fn check_wf(&self) -> (b: bool)
        ensures
            b == self.wf(),
    {
        match self.type_ {
            RPCType::ChainNode => self.block_label.is_some() && self.block_label_offset.is_some(),
            RPCType::RedisKey => self.redis_host.is_some() && self.redis_passwd.is_some()
                && self.redis_key.is_some(),
            RPCType::DictEntry => true,
            RPCType::CFGMAPKey => true,
        }
    }
}

/// The loaded configuration: the descriptors to poll and the tick interval
/// in seconds.
#[derive(Debug, Clone, PartialEq)]
pub struct Config {
    pub targets: Vec<Target>,
    pub interval: u64,
}

impl Config {
    /// Every descriptor carries the fields its kind requires.
    pub open spec fn wf(self) -> bool {
        forall|i: int| 0 <= i < self.targets@.len() ==> self.targets@[i].wf()
    }

    /// Whether every descriptor satisfies its kind's field invariant.
    pub fn check_wf(&self) -> (b: bool)
        ensures
            b == self.wf(),
    {
        let mut i: usize = 0;
        while i < self.targets.len()
            invariant
                i <= self.targets@.len(),
                forall|k: int| 0 <= k < i ==> self.targets@[k].wf(),
            decreases self.targets@.len() - i,
        {
            if !self.targets[i].check_wf() {
                return false;
            }
            i += 1;
        }
        true
    }
}

} // verus!
