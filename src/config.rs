use vstd::prelude::*;

use crate::services::request_filter::{DefaultResponseFilter, FilterFn, SimplePathFilter};
use crate::services::service::lemma_resolver_follows_table;
use crate::services::{lemma_last_index_of_bounds, CertResolver, HostConfig as ServedHost, HostConfigs};

verus! {

/// The proxy's configuration, as read at startup.
#[derive(Clone, Debug)]
pub struct Config {
    pub proxy_service: ProxyService,
}

/// The listener and the hosts it serves.
#[derive(Clone, Debug)]
pub struct ProxyService {
    pub host_configs: Vec<HostConfig>,
    pub listen_addr: String,
    pub root_cert_path: Option<String>,
}

/// One configured host, with its filters as named in the configuration.
#[derive(Clone, Debug)]
pub struct HostConfig {
    pub proxy_addr: String,
    pub proxy_tls: bool,
    pub proxy_hostname: String,
    pub cert_path: String,
    pub key_path: String,
    pub filters: Vec<Filter>,
}

/// A filter as named in the configuration.
#[derive(Clone, Debug, PartialEq, Eq)]
pub enum Filter {
    DefaultResponseFilter,
    SimplePathFilter(String),
}

impl Filter {
    /// `g` is the filter that this descriptor names.
    pub open spec fn names(&self, g: FilterFn) -> bool {
        match (*self, g) {
            (Filter::DefaultResponseFilter, FilterFn::Default(_)) => true,
            (Filter::SimplePathFilter(p), FilterFn::Path(f)) => f.path@ == p@,
            _ => false,
        }
    }

    pub fn get_filter_fn(&self) -> (r: FilterFn)
        ensures
            self.names(r),
    {
        match self {
            Filter::DefaultResponseFilter => FilterFn::Default(DefaultResponseFilter {  }),
            Filter::SimplePathFilter(path) => FilterFn::Path(SimplePathFilter::new(path.clone())),
        }
    }
}

/// `gs` are the filters that `fs` name, in the same order.
pub open spec fn names_all(fs: Seq<Filter>, gs: Seq<FilterFn>) -> bool {
    fs.len() == gs.len() && forall|i: int| 0 <= i < fs.len() ==> (#[trigger] fs[i]).names(gs[i])
}

impl HostConfig {
    pub fn get_filters(&self) -> (r: Vec<FilterFn>)
        ensures
            names_all(self.filters@, r@),
    {
        let mut r: Vec<FilterFn> = Vec::new();
        let mut i: usize = 0;
        while i < self.filters.len()
            invariant
                i <= self.filters@.len(),
                r@.len() == i,
                forall|j: int| 0 <= j < i ==> (#[trigger] self.filters@[j]).names(r@[j]),
            decreases self.filters.len() - i,
        {
            r.push(self.filters[i].get_filter_fn());
            i += 1;
        }
        r
    }

    /// `h` serves this configured host.
    pub open spec fn served_by(&self, h: ServedHost) -> bool {
        &&& h.proxy_addr@ == self.proxy_addr@
        &&& h.proxy_tls == self.proxy_tls
        &&& h.proxy_hostname@ == self.proxy_hostname@
        &&& h.cert_path@ == self.cert_path@
        &&& h.key_path@ == self.key_path@
        &&& names_all(self.filters@, h.filters@)
    }

    /// The routing-table entry for this host.
    pub fn to_served(&self) -> (r: ServedHost)
        ensures
            self.served_by(r),
    {
        ServedHost {
            proxy_addr: self.proxy_addr.clone(),
            proxy_tls: self.proxy_tls,
            proxy_hostname: self.proxy_hostname.clone(),
            cert_path: self.cert_path.clone(),
            key_path: self.key_path.clone(),
            filters: self.get_filters(),
        }
    }
}

impl ProxyService {
    /// The hostnames, in order of configuration.
    pub open spec fn hostnames(&self) -> Seq<Seq<char>> {
        self.host_configs@.map_values(|c: HostConfig| c.proxy_hostname@)
    }

    /// The routing table of the configured hosts, each under its hostname.
    pub fn routing_table(&self) -> (r: HostConfigs)
        ensures
            r.entries@.len() == self.host_configs@.len(),
            r.keys() == self.hostnames(),
            forall|i: int|
                0 <= i < r.entries@.len() ==> (#[trigger] self.host_configs@[i]).served_by(
                    r.entries@[i].1,
                ),
    {
        let mut table = HostConfigs::new();
        let mut i: usize = 0;
        while i < self.host_configs.len()
            invariant
                i <= self.host_configs@.len(),
                table.entries@.len() == i,
                forall|j: int|
                    0 <= j < i ==> (#[trigger] table.entries@[j]).0@
                        == self.host_configs@[j].proxy_hostname@,
                forall|j: int|
                    0 <= j < i ==> (#[trigger] self.host_configs@[j]).served_by(
                        table.entries@[j].1,
                    ),
            decreases self.host_configs.len() - i,
        {
            let c = &self.host_configs[i];
            table.insert(c.proxy_hostname.clone(), c.to_served());
            i += 1;
        }
        assert(table.keys() =~= self.hostnames());
        table
    }
}

/// Routing by a table that `routing_table` built: a configured hostname finds
/// the configuration of its host (the last one, where a hostname repeats), and
/// any other string finds nothing.
pub proof fn lemma_routing_lookup(svc: &ProxyService, table: &HostConfigs, h: Seq<char>)
    requires
        table.entries@.len() == svc.host_configs@.len(),
        table.keys() == svc.hostnames(),
        forall|i: int|
            0 <= i < table.entries@.len() ==> (#[trigger] svc.host_configs@[i]).served_by(
                table.entries@[i].1,
            ),
    ensures
        (exists|i: int| 0 <= i < svc.host_configs@.len() && svc.hostnames()[i] == h) ==> (
        table.index_of(h) matches Some(i) && table.lookup(h) matches Some(c)
            && svc.host_configs@[i].proxy_hostname@ == h && svc.host_configs@[i].served_by(c)
            && forall|j: int|
            i < j < svc.host_configs@.len() ==> svc.host_configs@[j].proxy_hostname@ != h),
        !(exists|i: int| 0 <= i < svc.host_configs@.len() && svc.hostnames()[i] == h)
            ==> table.lookup(h) is None,
{
    lemma_last_index_of_bounds(table.keys(), h);
    if let Some(i) = table.index_of(h) {
        assert(svc.hostnames()[i] == h);
        assert forall|j: int| i < j < svc.host_configs@.len() implies svc.host_configs@[j].proxy_hostname@ != h by {
            assert(svc.hostnames()[j] == svc.host_configs@[j].proxy_hostname@);
        }
    }
}

/// Certificates of a resolver built over `routing_table`: a configured
/// hostname gets the material at the position of its host (the last one, where
/// a hostname repeats), which was loaded from that host's certificate and key
/// files; any other server name gets nothing.
pub proof fn lemma_certificate_for_configured_host<C>(
    svc: &ProxyService,
    table: &HostConfigs,
    res: &CertResolver<C>,
    h: Seq<char>,
)
    requires
        table.entries@.len() == svc.host_configs@.len(),
        table.keys() == svc.hostnames(),
        forall|i: int|
            0 <= i < table.entries@.len() ==> (#[trigger] svc.host_configs@[i]).served_by(
                table.entries@[i].1,
            ),
        res.wf(),
        res.keys() == table.keys(),
    ensures
        (exists|i: int| 0 <= i < svc.host_configs@.len() && svc.hostnames()[i] == h) ==> (
        res.resolve_index(h) matches Some(i) && i < res.materials@.len()
            && svc.host_configs@[i].proxy_hostname@ == h
            && table.entries@[i].1.cert_path@ == svc.host_configs@[i].cert_path@
            && table.entries@[i].1.key_path@ == svc.host_configs@[i].key_path@),
        !(exists|i: int| 0 <= i < svc.host_configs@.len() && svc.hostnames()[i] == h)
            ==> res.resolve_index(h) is None,
{
    lemma_routing_lookup(svc, table, h);
    lemma_resolver_follows_table(table, res, h);
}

} // verus!
