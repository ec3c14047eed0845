use vstd::prelude::*;

use super::headers::{header_view, rewrite_headers, rewritten};
use super::proxy::PeerDescriptor;
use super::request_filter::{
    is_root, is_root_path, FilterOutcome, Reply, STATUS_BAD_REQUEST, STATUS_NOT_FOUND,
};
use crate::text::{is_prefix, str_eq, str_starts_with};

verus! {

/// A single-host proxy for a WebSocket tunnel: rejects another Host with
/// `400`, answers probes on `/`, forwards the tunnel path, and answers every
/// other path with `404`.
pub struct V2rayService {
    /// Host value that requests must carry, e.g. `one.one.one.one`.
    pub host: String,
    /// Upstream address, e.g. `127.0.0.1:10086`.
    pub address: String,
    /// Path prefix of the tunnel, e.g. `/ray`.
    pub ws_path: String,
    pub is_tls: bool,
}

impl V2rayService {
    pub fn new(host: String, address: String, ws_path: String, is_tls: bool) -> (r: Self)
        ensures
            r.host == host,
            r.address == address,
            r.ws_path == ws_path,
            r.is_tls == is_tls,
    {
        Self { host, address, ws_path, is_tls }
    }

    pub fn check_ws_path(&self, path: &str) -> (r: bool)
        ensures
            r == is_prefix(self.ws_path@, path@),
    {
        str_starts_with(path, self.ws_path.as_str())
    }

    pub fn check_host(&self, host: &str) -> (r: bool)
        ensures
            r == (self.host@ == host@),
    {
        str_eq(self.host.as_str(), host)
    }

    /// The decision on a request for `path` with Host value `host`.
    pub open spec fn decision(&self, host: Seq<char>, path: Seq<char>) -> FilterOutcome {
        if self.host@ != host {
            FilterOutcome::Respond(Reply::Error(STATUS_BAD_REQUEST))
        } else if is_root(path) {
            FilterOutcome::Respond(Reply::Probe)
        } else if !is_prefix(self.ws_path@, path) {
            FilterOutcome::Respond(Reply::Error(STATUS_NOT_FOUND))
        } else {
            FilterOutcome::Continue
        }
    }

    pub fn request_filter(&self, host: &str, path: &str) -> (r: FilterOutcome)
        ensures
            r == self.decision(host@, path@),
    {
        if !self.check_host(host) {
            return FilterOutcome::Respond(Reply::Error(STATUS_BAD_REQUEST));
        }
        if is_root_path(path) {
            return FilterOutcome::Respond(Reply::Probe);
        }
        if !self.check_ws_path(path) {
            return FilterOutcome::Respond(Reply::Error(STATUS_NOT_FOUND));
        }
        FilterOutcome::Continue
    }

    pub fn upstream_peer(&self) -> (r: PeerDescriptor)
        ensures
            r.address@ == self.address@,
            r.tls == self.is_tls,
            r.sni@ == self.host@,
    {
        PeerDescriptor { address: self.address.clone(), tls: self.is_tls, sni: self.host.clone() }
    }

    /// Rewrites the headers of an upstream response.
    pub fn response_filter(&self, upstream_response: &mut Vec<(String, String)>)
        ensures
            header_view(final(upstream_response)@) == rewritten(
                header_view(old(upstream_response)@),
            ),
    {
        rewrite_headers(upstream_response);
    }
}

} // verus!
