pub mod headers;
pub mod proxy;
pub mod request_filter;
pub mod service;
pub mod v2ray;

pub use proxy::{PeerDescriptor, ProxyCtx, ProxyError, ProxyService};
pub use request_filter::{
    DefaultResponseFilter, FilterFn, FilterOutcome, FilterRequest, Reply, SimplePathFilter,
};
pub use service::CertResolver;

use crate::prelude::W;
use crate::text::str_eq;
use vstd::prelude::*;

verus! {

/// Everything the proxy needs to serve one virtual host.
pub struct HostConfig {
    pub proxy_addr: String,
    pub proxy_tls: bool,
    pub proxy_hostname: String,
    pub cert_path: String,
    pub key_path: String,
    pub filters: Vec<FilterFn>,
}

/// Position of the last key equal to `k` in `keys`.
pub open spec fn last_index_of(keys: Seq<Seq<char>>, k: Seq<char>) -> Option<int>
    decreases keys.len(),
{
    if keys.len() == 0 {
        None
    } else if keys.last() == k {
        Some(keys.len() - 1)
    } else {
        last_index_of(keys.drop_last(), k)
    }
}

/// The last position whose key is `k`, or none when no key is `k`.
pub proof fn lemma_last_index_of_bounds(keys: Seq<Seq<char>>, k: Seq<char>)
    ensures
        match last_index_of(keys, k) {
            Some(i) => 0 <= i < keys.len() && keys[i] == k && forall|j: int|
                i < j < keys.len() ==> keys[j] != k,
            None => forall|j: int| 0 <= j < keys.len() ==> keys[j] != k,
        },
    decreases keys.len(),
{
    if keys.len() > 0 && keys.last() != k {
        lemma_last_index_of_bounds(keys.drop_last(), k);
        assert forall|j: int| 0 <= j < keys.len() - 1 implies keys.drop_last()[j] == keys[j] by {}
    }
}

/// Host routing table: hostname to configuration. A later entry for a
/// hostname takes the place of an earlier one.
pub struct HostConfigs {
    pub entries: Vec<(String, HostConfig)>,
}

impl HostConfigs {
    /// The hostnames, in order of insertion.
    pub open spec fn keys(&self) -> Seq<Seq<char>> {
        self.entries@.map_values(|e: (String, HostConfig)| e.0@)
    }

    /// Position of the entry that serves hostname `k`.
    pub open spec fn index_of(&self, k: Seq<char>) -> Option<int> {
        last_index_of(self.keys(), k)
    }

    /// The configuration registered for hostname `k`.
    pub open spec fn lookup(&self, k: Seq<char>) -> Option<HostConfig> {
        match self.index_of(k) {
            Some(i) => Some(self.entries@[i].1),
            None => None,
        }
    }

    pub fn new() -> (r: Self)
        ensures
            r.entries@.len() == 0,
            forall|k: Seq<char>| r.lookup(k) is None,
    {
        HostConfigs { entries: Vec::new() }
    }

    pub fn len(&self) -> (r: usize)
        ensures
            r == self.entries@.len(),
    {
        self.entries.len()
    }

    /// Registers `config` for hostname `name`.
    pub fn insert(&mut self, name: String, config: HostConfig)
        ensures
            final(self).entries@ == old(self).entries@.push((name, config)),
            forall|k: Seq<char>|
                final(self).lookup(k) == if k == name@ {
                    Some(config)
                } else {
                    old(self).lookup(k)
                },
    {
        let ghost n = name@;
        self.entries.push((name, config));
        assert(self.keys().drop_last() =~= old(self).keys());
        assert(self.keys().last() == n);
        assert forall|k: Seq<char>|
            self.lookup(k) == if k == n {
                Some(config)
            } else {
                old(self).lookup(k)
            } by {
            lemma_last_index_of_bounds(old(self).keys(), k);
            if let Some(i) = old(self).index_of(k) {
                assert(self.entries@[i] == old(self).entries@[i]);
            }
        }
    }

    /// Position of the entry that serves `name`, if any.
    pub fn position(&self, name: &str) -> (r: Option<usize>)
        ensures
            r matches Some(i) ==> self.index_of(name@) == Some(i as int),
            r is None ==> self.index_of(name@) is None,
    {
        let mut i = self.entries.len();
        assert(self.keys().subrange(0, i as int) =~= self.keys());
        while i > 0
            invariant
                i <= self.entries@.len(),
                self.index_of(name@) == last_index_of(self.keys().subrange(0, i as int), name@),
            decreases i,
        {
            let ghost pre = self.keys().subrange(0, i as int);
            if str_eq(self.entries[i - 1].0.as_str(), name) {
                return Some(i - 1);
            }
            assert(pre.drop_last() =~= self.keys().subrange(0, i - 1));
            i -= 1;
        }
        assert(self.keys().subrange(0, 0) =~= Seq::<Seq<char>>::empty());
        None
    }

    /// The configuration that serves `name`, if any.
    pub fn get(&self, name: &str) -> (r: Option<&HostConfig>)
        ensures
            r matches Some(c) ==> self.lookup(name@) == Some(*c),
            r is None ==> self.lookup(name@) is None,
    {
        match self.position(name) {
            Some(i) => {
                proof {
                    lemma_last_index_of_bounds(self.keys(), name@);
                }
                Some(&self.entries[i].1)
            },
            None => None,
        }
    }
}

impl From<Vec<(String, HostConfig)>> for W<HostConfigs> {
    /// A table holding the pairs in order, as if each were inserted in turn.
    fn from(array: Vec<(String, HostConfig)>) -> (r: Self) {
        W(HostConfigs { entries: array })
    }
}

impl vstd::std_specs::convert::FromSpecImpl<Vec<(String, HostConfig)>> for W<HostConfigs> {
    open spec fn obeys_from_spec() -> bool {
        true
    }

    open spec fn from_spec(array: Vec<(String, HostConfig)>) -> Self {
        W(HostConfigs { entries: array })
    }
}

} // verus!
