use vstd::prelude::*;

use super::{last_index_of, lemma_last_index_of_bounds, HostConfigs};
use crate::text::str_eq;

verus! {

/// Certificate material of every configured host, looked up by the server
/// name that a TLS handshake asks for. `C` is the parsed certificate and key.
pub struct CertResolver<C> {
    pub names: Vec<String>,
    pub materials: Vec<C>,
}

/// The certificate and key files of each entry of `table`, in the table's order:
/// the material handed to `CertResolver::new` is loaded from these.
pub fn certificate_sources(table: &HostConfigs) -> (r: Vec<(String, String)>)
    ensures
        r@.len() == table.entries@.len(),
        forall|i: int|
            0 <= i < r@.len() ==> (#[trigger] r@[i]).0@ == table.entries@[i].1.cert_path@
                && r@[i].1@ == table.entries@[i].1.key_path@,
{
    let mut r: Vec<(String, String)> = Vec::new();
    let mut i: usize = 0;
    while i < table.entries.len()
        invariant
            i <= table.entries@.len(),
            r@.len() == i,
            forall|j: int|
                0 <= j < i ==> (#[trigger] r@[j]).0@ == table.entries@[j].1.cert_path@ && r@[j].1@
                    == table.entries@[j].1.key_path@,
        decreases table.entries.len() - i,
    {
        let cfg = &table.entries[i].1;
        r.push((cfg.cert_path.clone(), cfg.key_path.clone()));
        i += 1;
    }
    r
}

impl<C> CertResolver<C> {
    /// The configured server names, in the table's order.
    pub open spec fn keys(&self) -> Seq<Seq<char>> {
        self.names@.map_values(|s: String| s@)
    }

    pub open spec fn wf(&self) -> bool {
        self.names@.len() == self.materials@.len()
    }

    /// Position of the material presented for server name `k`.
    pub open spec fn resolve_index(&self, k: Seq<char>) -> Option<int> {
        last_index_of(self.keys(), k)
    }

    /// Pairs each entry of `table` with the material at the same position;
    /// `None` when the counts differ.
    pub fn new(table: &HostConfigs, materials: Vec<C>) -> (r: Option<Self>)
        ensures
            materials@.len() != table.entries@.len() ==> r is None,
            materials@.len() == table.entries@.len() ==> (r matches Some(res) && res.wf()
                && res.keys() == table.keys() && res.materials == materials),
    {
        if materials.len() != table.entries.len() {
            return None;
        }
        let mut names: Vec<String> = Vec::new();
        let mut i: usize = 0;
        while i < table.entries.len()
            invariant
                i <= table.entries@.len(),
                names@.len() == i,
                forall|j: int| 0 <= j < i ==> (#[trigger] names@[j])@ == table.entries@[j].0@,
            decreases table.entries.len() - i,
        {
            names.push(table.entries[i].0.clone());
            i += 1;
        }
        let res = CertResolver { names, materials };
        assert(res.keys() =~= table.keys());
        Some(res)
    }

    /// The material for the server name of a handshake; `None` for a name
    /// that no host is configured with.
    pub fn resolve(&self, server_name: &str) -> (r: Option<&C>)
        requires
            self.wf(),
        ensures
            r == (match self.resolve_index(server_name@) {
                Some(i) => Some(&self.materials@[i]),
                None => None,
            }),
    {
        let mut i = self.names.len();
        assert(self.keys().subrange(0, i as int) =~= self.keys());
        while i > 0
            invariant
                i <= self.names@.len(),
                self.wf(),
                self.resolve_index(server_name@) == last_index_of(
                    self.keys().subrange(0, i as int),
                    server_name@,
                ),
            decreases i,
        {
            let ghost pre = self.keys().subrange(0, i as int);
            if str_eq(self.names[i - 1].as_str(), server_name) {
                return Some(&self.materials[i - 1]);
            }
            assert(pre.drop_last() =~= self.keys().subrange(0, i - 1));
            i -= 1;
        }
        assert(self.keys().subrange(0, 0) =~= Seq::<Seq<char>>::empty());
        None
    }
}

/// A resolver built from a table presents, for every configured hostname, the
/// material of that hostname's entry, and nothing for any other name.
pub proof fn lemma_resolver_follows_table<C>(table: &HostConfigs, res: &CertResolver<C>, h: Seq<char>)
    requires
        res.wf(),
        res.keys() == table.keys(),
    ensures
        res.resolve_index(h) == table.index_of(h),
        table.lookup(h) is None <==> res.resolve_index(h) is None,
        res.resolve_index(h) matches Some(i) ==> 0 <= i < res.materials@.len()
            && table.lookup(h) == Some(table.entries@[i].1) && table.entries@[i].0@ == h,
{
    lemma_last_index_of_bounds(table.keys(), h);
    if let Some(i) = table.index_of(h) {
        assert(table.keys()[i] == table.entries@[i].0@);
    }
}

} // verus!
