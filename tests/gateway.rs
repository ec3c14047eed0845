use pingora_gateway::config::{self, Filter};
use pingora_gateway::prelude::W;
use pingora_gateway::services::headers::rewrite_headers;
use pingora_gateway::services::request_filter::{run_filters, PROBE_BODY, PROXY_NAME};
use pingora_gateway::services::service::certificate_sources;
use pingora_gateway::services::v2ray::V2rayService;
use pingora_gateway::services::{
    CertResolver, DefaultResponseFilter, FilterFn, FilterOutcome, FilterRequest, HostConfig,
    HostConfigs, ProxyCtx, ProxyError, ProxyService, Reply, SimplePathFilter,
};

fn host_entry(name: &str, addr: &str, tls: bool, filters: Vec<Filter>) -> config::HostConfig {
    config::HostConfig {
        proxy_addr: addr.to_string(),
        proxy_tls: tls,
        proxy_hostname: name.to_string(),
        cert_path: format!("{name}.pem"),
        key_path: format!("{name}-key.pem"),
        filters,
    }
}

fn alpha_config() -> config::ProxyService {
    config::ProxyService {
        host_configs: vec![
            host_entry(
                "alpha",
                "10.0.0.1:443",
                true,
                vec![
                    Filter::DefaultResponseFilter,
                    Filter::SimplePathFilter("/ws".to_string()),
                ],
            ),
            host_entry("beta", "10.0.0.2:80", false, vec![Filter::DefaultResponseFilter]),
        ],
        listen_addr: "0.0.0.0:443".to_string(),
        root_cert_path: None,
    }
}

fn alpha_proxy() -> ProxyService {
    ProxyService::new(alpha_config().routing_table())
}

fn ctx_for(path: &str) -> ProxyCtx {
    ProxyCtx { host_config: None, request_path: path.to_string() }
}

#[test]
fn scenario_probe_on_root() {
    let proxy = alpha_proxy();
    let mut ctx = proxy.new_ctx();
    let r = proxy.request_filter("alpha", "/", &mut ctx);
    assert_eq!(r, FilterOutcome::Respond(Reply::Probe));
    assert_eq!(Reply::Probe.status(), 200);
    assert_eq!(Reply::Probe.body(), Some("Connecting..."));
    assert!(!Reply::Probe.keep_alive());
    assert_eq!(Reply::Probe.server_header(), Some(("Server", "Cloudflare")));
    assert_eq!(Reply::Error(404).server_header(), None);
    assert_eq!(ctx.get_request_path(), "/");
}

#[test]
fn scenario_ws_path_is_forwarded() {
    let proxy = alpha_proxy();
    let mut ctx = proxy.new_ctx();
    let r = proxy.request_filter("alpha", "/ws/chat", &mut ctx);
    assert_eq!(r, FilterOutcome::Continue);
    let peer = proxy.upstream_peer(&ctx).ok().unwrap();
    assert_eq!(peer.address, "10.0.0.1:443");
    assert!(peer.tls);
    assert_eq!(peer.sni, "alpha");
}

#[test]
fn scenario_other_path_is_rejected() {
    let proxy = alpha_proxy();
    let mut ctx = proxy.new_ctx();
    let r = proxy.request_filter("alpha", "/other", &mut ctx);
    assert_eq!(r, FilterOutcome::Respond(Reply::Error(404)));
    assert_eq!(Reply::Error(404).status(), 404);
}

#[test]
fn scenario_unknown_host_is_bad_request() {
    let proxy = alpha_proxy();
    let mut ctx = proxy.new_ctx();
    let r = proxy.request_filter("unknown.example", "/", &mut ctx);
    assert_eq!(r, FilterOutcome::Respond(Reply::Error(400)));
    assert_eq!(ctx.host_config, None);
    assert_eq!(ctx.request_path, "");
    assert!(matches!(proxy.upstream_peer(&ctx), Err(ProxyError::InternalError)));
}

#[test]
fn scenario_certificate_by_server_name() {
    let table = alpha_config().routing_table();
    let sources = certificate_sources(&table);
    assert_eq!(sources.len(), 2);
    assert_eq!(sources[1], ("beta.pem".to_string(), "beta-key.pem".to_string()));
    let materials: Vec<String> = sources.iter().map(|(c, k)| format!("{c}+{k}")).collect();
    let resolver = CertResolver::new(&table, materials).unwrap();
    assert_eq!(resolver.resolve("beta"), Some(&"beta.pem+beta-key.pem".to_string()));
    assert_eq!(resolver.resolve("alpha"), Some(&"alpha.pem+alpha-key.pem".to_string()));
    assert_eq!(resolver.resolve("gamma"), None);
    assert_eq!(resolver.resolve(""), None);
}

#[test]
fn resolver_refuses_mismatched_material() {
    let table = alpha_config().routing_table();
    assert!(CertResolver::new(&table, vec![1u8]).is_none());
}

#[test]
fn routing_lookup_is_exact_and_repeatable() {
    let table = alpha_config().routing_table();
    assert_eq!(table.len(), 2);
    for _ in 0..2 {
        assert_eq!(table.get("alpha").unwrap().proxy_addr, "10.0.0.1:443");
        assert_eq!(table.get("beta").unwrap().proxy_addr, "10.0.0.2:80");
        assert!(table.get("alph").is_none());
        assert!(table.get("ALPHA").is_none());
        assert!(table.get("").is_none());
    }
    assert_eq!(table.position("beta"), Some(1));
}

#[test]
fn later_insert_takes_the_place_of_earlier() {
    let mut table = HostConfigs::new();
    assert!(table.get("a").is_none());
    let first = host_entry("a", "1.1.1.1:1", false, vec![]).to_served();
    let second = host_entry("a", "2.2.2.2:2", true, vec![]).to_served();
    table.insert("a".to_string(), first);
    table.insert("a".to_string(), second);
    assert_eq!(table.get("a").unwrap().proxy_addr, "2.2.2.2:2");
}

#[test]
fn empty_table_answers_bad_request() {
    let proxy = ProxyService::new(HostConfigs::new());
    let mut ctx = proxy.new_ctx();
    assert_eq!(
        proxy.request_filter("alpha", "/ws", &mut ctx),
        FilterOutcome::Respond(Reply::Error(400))
    );
}

#[test]
fn host_without_filters_goes_upstream() {
    let cfg = config::ProxyService {
        host_configs: vec![host_entry("plain", "10.0.0.9:8080", false, vec![])],
        listen_addr: "0.0.0.0:443".to_string(),
        root_cert_path: Some("root.pem".to_string()),
    };
    let proxy = ProxyService::new(cfg.routing_table());
    let mut ctx = proxy.new_ctx();
    assert_eq!(proxy.request_filter("plain", "/", &mut ctx), FilterOutcome::Continue);
    let peer = proxy.upstream_peer(&ctx).ok().unwrap();
    assert_eq!(peer.address, "10.0.0.9:8080");
    assert!(!peer.tls);
    assert_eq!(peer.sni, "plain");
}

#[test]
fn probe_answers_root_before_later_filters() {
    let fs = vec![
        FilterFn::Default(DefaultResponseFilter {}),
        FilterFn::Path(SimplePathFilter::new("/ws".to_string())),
    ];
    assert_eq!(run_filters(&fs, &ctx_for("/")), FilterOutcome::Respond(Reply::Probe));
}

#[test]
fn filter_order_is_kept() {
    let gate_first = vec![
        FilterFn::Path(SimplePathFilter::new("/ws".to_string())),
        FilterFn::Default(DefaultResponseFilter {}),
    ];
    assert_eq!(
        run_filters(&gate_first, &ctx_for("/")),
        FilterOutcome::Respond(Reply::Error(404))
    );
    let probe_first = vec![
        FilterFn::Default(DefaultResponseFilter {}),
        FilterFn::Path(SimplePathFilter::new("/".to_string())),
    ];
    assert_eq!(run_filters(&probe_first, &ctx_for("/")), FilterOutcome::Respond(Reply::Probe));
    assert_eq!(run_filters(&probe_first, &ctx_for("/x")), FilterOutcome::Continue);
    assert_eq!(run_filters(&vec![], &ctx_for("/")), FilterOutcome::Continue);
}

#[test]
fn path_gate_with_ws_prefix() {
    let gate = SimplePathFilter::new("/ws".to_string());
    assert!(gate.check_path("/ws/anything"));
    assert!(gate.check_path("/ws"));
    assert!(!gate.check_path("/other"));
    assert!(!gate.check_path("/w"));
    assert_eq!(gate.filter(&ctx_for("/ws/anything")), FilterOutcome::Continue);
    assert_eq!(gate.filter(&ctx_for("/other")), FilterOutcome::Respond(Reply::Error(404)));
}

#[test]
fn probe_responder_ignores_other_paths() {
    let probe = DefaultResponseFilter {};
    assert_eq!(probe.filter(&ctx_for("/")), FilterOutcome::Respond(Reply::Probe));
    assert_eq!(probe.filter(&ctx_for("//")), FilterOutcome::Continue);
    assert_eq!(probe.filter(&ctx_for("")), FilterOutcome::Continue);
    assert_eq!(probe.filter(&ctx_for("/index.html")), FilterOutcome::Continue);
}

fn header(n: &str, v: &str) -> (String, String) {
    (n.to_string(), v.to_string())
}

#[test]
fn response_rewrite_is_unconditional() {
    let mut hs = vec![
        header("server", "nginx"),
        header("Content-Type", "text/html"),
        header("Alt-Svc", "h3=\":443\""),
        header("SERVER", "other"),
        header("alt-svc", "h3-29=\":443\""),
        header("X-Served", "yes"),
    ];
    rewrite_headers(&mut hs);
    assert_eq!(
        hs,
        vec![
            header("Content-Type", "text/html"),
            header("X-Served", "yes"),
            header("Server", "Cloudflare"),
        ]
    );
    let mut empty: Vec<(String, String)> = vec![];
    alpha_proxy().response_filter(&mut empty);
    assert_eq!(empty, vec![header("Server", PROXY_NAME)]);
    assert_eq!(PROBE_BODY, "Connecting...");
}

#[test]
fn config_filters_become_filter_functions() {
    let h = host_entry(
        "alpha",
        "10.0.0.1:443",
        true,
        vec![Filter::DefaultResponseFilter, Filter::SimplePathFilter("/ws".to_string())],
    );
    let fs = h.get_filters();
    assert_eq!(fs.len(), 2);
    assert!(matches!(fs[0], FilterFn::Default(_)));
    match &fs[1] {
        FilterFn::Path(p) => assert_eq!(p.path, "/ws"),
        _ => panic!("expected a path gate"),
    }
    let served = h.to_served();
    assert_eq!(served.cert_path, "alpha.pem");
    assert_eq!(served.key_path, "alpha-key.pem");
    assert_eq!(served.proxy_hostname, "alpha");
}

#[test]
fn wrapper_holds_and_converts() {
    let w = W(5u32);
    assert_eq!(*w, 5);
    assert_eq!(w.get_wrap(), 5);
    let entry = host_entry("a", "1.1.1.1:1", false, vec![]).to_served();
    let table: W<HostConfigs> = W::from(vec![("a".to_string(), entry)]);
    let table: HostConfigs = table.get_wrap();
    assert_eq!(table.get("a").unwrap().proxy_addr, "1.1.1.1:1");
}

#[test]
fn tunnel_service_decisions() {
    let svc = V2rayService::new(
        "one.one.one.one".to_string(),
        "127.0.0.1:10086".to_string(),
        "/ray".to_string(),
        false,
    );
    assert!(svc.check_host("one.one.one.one"));
    assert!(!svc.check_host("one.one.one.two"));
    assert!(svc.check_ws_path("/ray/x"));
    assert!(!svc.check_ws_path("/ra"));
    assert_eq!(svc.request_filter("other", "/ray"), FilterOutcome::Respond(Reply::Error(400)));
    assert_eq!(svc.request_filter("one.one.one.one", "/"), FilterOutcome::Respond(Reply::Probe));
    assert_eq!(
        svc.request_filter("one.one.one.one", "/nope"),
        FilterOutcome::Respond(Reply::Error(404))
    );
    assert_eq!(svc.request_filter("one.one.one.one", "/ray"), FilterOutcome::Continue);
    let peer = svc.upstream_peer();
    assert_eq!(peer.address, "127.0.0.1:10086");
    assert!(!peer.tls);
    assert_eq!(peer.sni, "one.one.one.one");
}

#[test]
fn served_host_fields_are_kept() {
    let h: HostConfig = host_entry("beta", "10.0.0.2:80", false, vec![]).to_served();
    assert_eq!(h.proxy_addr, "10.0.0.2:80");
    assert!(!h.proxy_tls);
    assert!(h.filters.is_empty());
}
