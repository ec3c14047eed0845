use vstd::prelude::*;
use vstd::string::*;

use super::headers::SERVER_HEADER;
use super::proxy::ProxyCtx;
use crate::text::{is_prefix, str_starts_with};

verus! {

/// The response that a filter, or the router, writes when it ends a request early.
#[derive(Clone, Copy, Debug, PartialEq, Eq, Structural)]
pub enum Reply {
    /// `200` with the proxy's `Server` header, the body `Connecting...`, no keep-alive.
    Probe,
    /// The transport engine's error page with this status code.
    Error(u16),
}

/// Fixed value of the `Server` header on every answer of the proxy.
pub const PROXY_NAME: &'static str = "Cloudflare";

/// Body of the probe answer.
pub const PROBE_BODY: &'static str = "Connecting...";

pub const STATUS_OK: u16 = 200;

pub const STATUS_BAD_REQUEST: u16 = 400;

pub const STATUS_NOT_FOUND: u16 = 404;

impl Reply {
    pub open spec fn spec_status(&self) -> u16 {
        match self {
            Reply::Probe => STATUS_OK,
            Reply::Error(code) => *code,
        }
    }

    /// Status code of the answer.
    pub fn status(&self) -> (r: u16)
        ensures
            r == self.spec_status(),
    {
        match self {
            Reply::Probe => STATUS_OK,
            Reply::Error(code) => *code,
        }
    }

    /// Whether the connection may be kept alive after the answer.
    pub fn keep_alive(&self) -> (r: bool)
        ensures
            r == !(self is Probe),
    {
        match self {
            Reply::Probe => false,
            Reply::Error(_) => true,
        }
    }

    /// Header written with the answer: the probe names the proxy in `Server`;
    /// an error page is left to the transport engine.
    pub fn server_header(&self) -> (r: Option<(&'static str, &'static str)>)
        ensures
            r == (match self {
                Reply::Probe => Some((SERVER_HEADER, PROXY_NAME)),
                Reply::Error(_) => None::<(&'static str, &'static str)>,
            }),
    {
        match self {
            Reply::Probe => Some((SERVER_HEADER, PROXY_NAME)),
            Reply::Error(_) => None,
        }
    }

    /// Body written with the answer; an error page is left to the transport engine.
    pub fn body(&self) -> (r: Option<&'static str>)
        ensures
            r == (match self {
                Reply::Probe => Some(PROBE_BODY),
                Reply::Error(_) => None::<&'static str>,
            }),
    {
        match self {
            Reply::Probe => Some(PROBE_BODY),
            Reply::Error(_) => None,
        }
    }
}

/// What a filter decides on a request: let it go on, or answer it now.
#[derive(Clone, Copy, Debug, PartialEq, Eq, Structural)]
pub enum FilterOutcome {
    Continue,
    Respond(Reply),
}

/// A request inspector that may answer the request itself.
pub trait FilterRequest {
    /// The decision on a request for `path`.
    spec fn decide(&self, path: Seq<char>) -> FilterOutcome;

    fn filter(&self, ctx: &ProxyCtx) -> (r: FilterOutcome)
        ensures
            r == self.decide(ctx.request_path@),
    ;
}

/// `path` is exactly `/`.
pub open spec fn is_root(path: Seq<char>) -> bool {
    path == seq!['/']
}

pub fn is_root_path(path: &str) -> (r: bool)
    ensures
        r == is_root(path@),
{
    let n = path.unicode_len();
    if n != 1 {
        return false;
    }
    let c = path.get_char(0);
    let r = c == '/';
    assert(r ==> path@ =~= seq!['/']);
    r
}

/// Answers the root path with the probe response.
#[derive(Clone, Debug)]
pub struct DefaultResponseFilter {}

impl FilterRequest for DefaultResponseFilter {
    open spec fn decide(&self, path: Seq<char>) -> FilterOutcome {
        if is_root(path) {
            FilterOutcome::Respond(Reply::Probe)
        } else {
            FilterOutcome::Continue
        }
    }

    fn filter(&self, ctx: &ProxyCtx) -> (r: FilterOutcome) {
        if is_root_path(ctx.request_path.as_str()) {
            FilterOutcome::Respond(Reply::Probe)
        } else {
            FilterOutcome::Continue
        }
    }
}

/// Lets through only the paths that start with a given prefix; answers the others with `404`.
#[derive(Clone, Debug)]
pub struct SimplePathFilter {
    pub path: String,
}

impl SimplePathFilter {
    pub fn new(path: String) -> (r: Self)
        ensures
            r.path == path,
    {
        Self { path }
    }

    pub fn check_path(&self, path: &str) -> (r: bool)
        ensures
            r == is_prefix(self.path@, path@),
    {
        str_starts_with(path, self.path.as_str())
    }
}

impl FilterRequest for SimplePathFilter {
    open spec fn decide(&self, path: Seq<char>) -> FilterOutcome {
        if is_prefix(self.path@, path) {
            FilterOutcome::Continue
        } else {
            FilterOutcome::Respond(Reply::Error(STATUS_NOT_FOUND))
        }
    }

    fn filter(&self, ctx: &ProxyCtx) -> (r: FilterOutcome) {
        if !self.check_path(ctx.request_path.as_str()) {
            FilterOutcome::Respond(Reply::Error(STATUS_NOT_FOUND))
        } else {
            FilterOutcome::Continue
        }
    }
}

/// One filter of a host's chain: the closed set of filter kinds.
#[derive(Clone, Debug)]
pub enum FilterFn {
    Default(DefaultResponseFilter),
    Path(SimplePathFilter),
}

impl FilterRequest for FilterFn {
    open spec fn decide(&self, path: Seq<char>) -> FilterOutcome {
        match self {
            FilterFn::Default(f) => f.decide(path),
            FilterFn::Path(f) => f.decide(path),
        }
    }

    fn filter(&self, ctx: &ProxyCtx) -> (r: FilterOutcome) {
        match self {
            FilterFn::Default(f) => f.filter(ctx),
            FilterFn::Path(f) => f.filter(ctx),
        }
    }
}

/// Outcome of the chain `fs` from position `i` on: the first filter that
/// answers decides, and those after it are not consulted.
pub open spec fn chain_from(fs: Seq<FilterFn>, i: int, path: Seq<char>) -> FilterOutcome
    decreases fs.len() - i,
{
    if i < 0 || i >= fs.len() {
        FilterOutcome::Continue
    } else {
        match fs[i].decide(path) {
            FilterOutcome::Continue => chain_from(fs, i + 1, path),
            answered => answered,
        }
    }
}

/// Outcome of a whole chain of filters on a request for `path`.
pub open spec fn chain_outcome(fs: Seq<FilterFn>, path: Seq<char>) -> FilterOutcome {
    chain_from(fs, 0, path)
}

/// Runs the filters in order and stops at the first one that answers.
pub fn run_filters(filters: &Vec<FilterFn>, ctx: &ProxyCtx) -> (r: FilterOutcome)
    ensures
        r == chain_outcome(filters@, ctx.request_path@),
{
    let mut i: usize = 0;
    while i < filters.len()
        invariant
            i <= filters.len(),
            chain_outcome(filters@, ctx.request_path@) == chain_from(
                filters@,
                i as int,
                ctx.request_path@,
            ),
        decreases filters.len() - i,
    {
        let outcome = filters[i].filter(ctx);
        if let FilterOutcome::Respond(_) = outcome {
            return outcome;
        }
        i += 1;
    }
    FilterOutcome::Continue
}

/// The chain's outcome is that of the first filter that answers; when none
/// answers, the request goes on.
pub proof fn lemma_first_answer_decides(fs: Seq<FilterFn>, path: Seq<char>, k: int)
    requires
        0 <= k <= fs.len(),
        forall|j: int| 0 <= j < k ==> (#[trigger] fs[j].decide(path)) is Continue,
        k < fs.len() ==> !(fs[k].decide(path) is Continue),
    ensures
        chain_outcome(fs, path) == if k < fs.len() {
            fs[k].decide(path)
        } else {
            FilterOutcome::Continue
        },
{
    lemma_chain_skips_continuing(fs, path, k, 0);
}

proof fn lemma_chain_skips_continuing(fs: Seq<FilterFn>, path: Seq<char>, k: int, i: int)
    requires
        0 <= i <= k <= fs.len(),
        forall|j: int| 0 <= j < k ==> (#[trigger] fs[j].decide(path)) is Continue,
        k < fs.len() ==> !(fs[k].decide(path) is Continue),
    ensures
        chain_from(fs, i, path) == if k < fs.len() {
            fs[k].decide(path)
        } else {
            FilterOutcome::Continue
        },
    decreases k - i,
{
    if i < k {
        assert(fs[i].decide(path) is Continue);
        lemma_chain_skips_continuing(fs, path, k, i + 1);
    }
}

/// With filters `[f1, f2]`, `f1` decides first: `f2` is consulted only when
/// `f1` lets the request go on.
pub proof fn lemma_filter_order(f1: FilterFn, f2: FilterFn, path: Seq<char>)
    ensures
        chain_outcome(seq![f1, f2], path) == if f1.decide(path) is Continue {
            f2.decide(path)
        } else {
            f1.decide(path)
        },
{
    let fs = seq![f1, f2];
    assert(fs[0] == f1 && fs[1] == f2);
    if f1.decide(path) is Continue {
        if f2.decide(path) is Continue {
            lemma_first_answer_decides(fs, path, 2);
        } else {
            lemma_first_answer_decides(fs, path, 1);
        }
    } else {
        lemma_first_answer_decides(fs, path, 0);
    }
}

/// A chain that starts with the probe responder answers `/` with the probe,
/// whatever filters follow.
pub proof fn lemma_probe_answers_root(fs: Seq<FilterFn>, path: Seq<char>)
    requires
        fs.len() > 0,
        fs[0] is Default,
        is_root(path),
    ensures
        chain_outcome(fs, path) == FilterOutcome::Respond(Reply::Probe),
        Reply::Probe.spec_status() == STATUS_OK,
{
    lemma_first_answer_decides(fs, path, 0);
}

} // verus!
