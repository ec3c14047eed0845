use vstd::prelude::*;

use super::headers::{header_view, rewrite_headers, rewritten};
use super::request_filter::{
    chain_outcome, run_filters, FilterFn, FilterOutcome, Reply, STATUS_BAD_REQUEST,
};
use super::{HostConfig, HostConfigs};

verus! {

/// Per-request scratch: the routed host's position in the table and the request path.
pub struct ProxyCtx {
    pub host_config: Option<usize>,
    pub request_path: String,
}

impl ProxyCtx {
    pub fn get_request_path(&self) -> (r: String)
        ensures
            r@ == self.request_path@,
    {
        self.request_path.clone()
    }
}

/// Where a request goes upstream: address, whether to speak TLS, and the
/// name the upstream's certificate must carry.
pub struct PeerDescriptor {
    pub address: String,
    pub tls: bool,
    pub sni: String,
}

impl PeerDescriptor {
    /// This peer is the upstream of `cfg`.
    pub open spec fn describes(&self, cfg: HostConfig) -> bool {
        self.address@ == cfg.proxy_addr@ && self.tls == cfg.proxy_tls && self.sni@
            == cfg.proxy_hostname@
    }

    /// The upstream of a host configuration.
    pub fn for_host(cfg: &HostConfig) -> (r: Self)
        ensures
            r.describes(*cfg),
    {
        PeerDescriptor {
            address: cfg.proxy_addr.clone(),
            tls: cfg.proxy_tls,
            sni: cfg.proxy_hostname.clone(),
        }
    }
}

#[derive(Clone, Copy, Debug, PartialEq, Eq, Structural)]
pub enum ProxyError {
    /// Upstream selection was asked for a request that was never routed.
    InternalError,
}

/// The proxy: routes each request by its Host value, runs that host's
/// filters, and names the upstream.
pub struct ProxyService {
    pub host_configs: HostConfigs,
}

impl ProxyService {
    pub fn new(host_configs: HostConfigs) -> (r: Self)
        ensures
            r.host_configs == host_configs,
    {
        Self { host_configs }
    }

    /// A context for a request that is not routed yet.
    pub fn new_ctx(&self) -> (r: ProxyCtx)
        ensures
            r.host_config is None,
            r.request_path@ == Seq::<char>::empty(),
    {
        ProxyCtx { host_config: None, request_path: String::new() }
    }

    /// The decision on a request for `path` with Host value `host`.
    pub open spec fn decision(&self, host: Seq<char>, path: Seq<char>) -> FilterOutcome {
        match self.host_configs.lookup(host) {
            None => FilterOutcome::Respond(Reply::Error(STATUS_BAD_REQUEST)),
            Some(cfg) => chain_outcome(cfg.filters@, path),
        }
    }

    /// `ctx` holds a host of this proxy's table.
    pub open spec fn routed(&self, ctx: ProxyCtx) -> bool {
        ctx.host_config matches Some(i) && i < self.host_configs.entries@.len()
    }

    /// Routes the request and runs the host's filters. An unknown host is
    /// answered with `400` and leaves `ctx` as it was; a known one is recorded
    /// in `ctx` with the path before any filter runs.
    pub fn request_filter(&self, host_name: &str, path: &str, ctx: &mut ProxyCtx) -> (r:
        FilterOutcome)
        ensures
            r == self.decision(host_name@, path@),
            self.host_configs.index_of(host_name@) is None ==> *final(ctx) == *old(ctx),
            self.host_configs.index_of(host_name@) matches Some(i) ==> final(ctx).host_config
                == Some(i as usize) && final(ctx).request_path@ == path@,
            self.host_configs.index_of(host_name@) is Some ==> self.routed(*final(ctx)),
    {
        let idx = match self.host_configs.position(host_name) {
            Some(i) => i,
            None => {
                return FilterOutcome::Respond(Reply::Error(STATUS_BAD_REQUEST));
            },
        };
        proof {
            super::lemma_last_index_of_bounds(self.host_configs.keys(), host_name@);
        }
        ctx.host_config = Some(idx);
        ctx.request_path = path.to_string();
        let config = &self.host_configs.entries[idx].1;
        run_filters(&config.filters, ctx)
    }

    /// The upstream of the routed host; asking before routing is an internal error.
    pub fn upstream_peer(&self, ctx: &ProxyCtx) -> (r: Result<PeerDescriptor, ProxyError>)
        ensures
            self.routed(*ctx) ==> (r matches Ok(p) && p.describes(
                self.host_configs.entries@[ctx.host_config->0 as int].1,
            )),
            !self.routed(*ctx) ==> r == Err::<PeerDescriptor, ProxyError>(
                ProxyError::InternalError,
            ),
    {
        match ctx.host_config {
            Some(i) => {
                if i < self.host_configs.entries.len() {
                    Ok(PeerDescriptor::for_host(&self.host_configs.entries[i].1))
                } else {
                    Err(ProxyError::InternalError)
                }
            },
            None => Err(ProxyError::InternalError),
        }
    }

    /// Rewrites the headers of an upstream response.
    pub fn response_filter(&self, upstream_response: &mut Vec<(String, String)>)
        ensures
            header_view(final(upstream_response)@) == rewritten(
                header_view(old(upstream_response)@),
            ),
    {
        rewrite_headers(upstream_response);
    }
}

/// Routing depends on the Host value alone: requests with the same Host value
/// go to the same entry, whatever their paths, or are all answered with `400`
/// before any filter is consulted.
pub proof fn lemma_routing_is_repeatable(
    svc: &ProxyService,
    host: Seq<char>,
    path1: Seq<char>,
    path2: Seq<char>,
)
    ensures
        svc.host_configs.lookup(host) is None ==> svc.decision(host, path1) == FilterOutcome::Respond(
            Reply::Error(STATUS_BAD_REQUEST),
        ) && svc.decision(host, path2) == svc.decision(host, path1),
        svc.host_configs.lookup(host) matches Some(cfg) ==> svc.decision(host, path1)
            == chain_outcome(cfg.filters@, path1) && svc.decision(host, path2) == chain_outcome(
            cfg.filters@,
            path2,
        ),
{
}

} // verus!
