use xui_core::config::build_config;
use xui_core::inbound::Inbound;

fn inbound_with_blobs(
    id: &str,
    tag: Option<&str>,
    settings: Option<&str>,
    stream_settings: Option<&str>,
    sniffing: Option<&str>,
) -> Inbound {
    Inbound {
        id: id.to_string(),
        remark: id.to_string(),
        protocol: "vmess".to_string(),
        port: 10000,
        enable: true,
        tag: tag.map(|t| t.to_string()),
        listen: Some("0.0.0.0".to_string()),
        allocate: None,
        settings: settings.map(|s| s.to_string()),
        stream_settings: stream_settings.map(|s| s.to_string()),
        sniffing: sniffing.map(|s| s.to_string()),
        up: 0,
        down: 0,
        total: 0,
        expiry: 0,
        created_at: None,
        updated_at: None,
    }
}

#[test]
fn api_listener_is_first_and_unique() {
    let inbounds = vec![
        inbound_with_blobs("one", Some("alpha"), None, None, None),
        inbound_with_blobs("two", None, None, None, None),
    ];
    let cfg = build_config(&inbounds, "a.log".to_string(), "e.log".to_string());

    assert_eq!(cfg.inbounds.len(), 3);
    assert_eq!(cfg.inbounds[0].tag, "api");
    assert_eq!(cfg.inbounds[0].port, 10085);
    assert_eq!(cfg.inbounds[0].protocol, "dokodemo-door");
    assert_eq!(cfg.inbounds[0].listen.as_deref(), Some("127.0.0.1"));
    let api_count = cfg.inbounds.iter().filter(|l| l.tag == "api").count();
    assert_eq!(api_count, 1);

    let routing = cfg.routing.expect("routing section present");
    assert_eq!(routing.domain_strategy, "IPIfNonMatch");
    assert_eq!(routing.rules.len(), 1);
    let rule = &routing.rules[0];
    assert_eq!(rule.rule_type, "field");
    assert_eq!(rule.inbound_tag.as_deref(), Some(&["api".to_string()][..]));
    assert_eq!(rule.outbound_tag.as_deref(), Some("api"));
}

#[test]
fn default_tag_is_inbound_dash_id() {
    let inbounds = vec![inbound_with_blobs("2a80a671", None, None, None, None)];
    let cfg = build_config(&inbounds, "a.log".to_string(), "e.log".to_string());
    assert_eq!(cfg.inbounds[1].tag, "inbound-2a80a671");

    let tagged = vec![inbound_with_blobs("2a80a671", Some("mine"), None, None, None)];
    let cfg2 = build_config(&tagged, "a.log".to_string(), "e.log".to_string());
    assert_eq!(cfg2.inbounds[1].tag, "mine");
}

#[test]
fn invalid_blob_is_dropped_and_valid_kept() {
    let inbounds = vec![inbound_with_blobs(
        "x",
        Some("x"),
        Some("{\"clients\":[]}"),
        Some("not a json blob"),
        Some("{\"enabled\":true}"),
    )];
    let cfg = build_config(&inbounds, "a.log".to_string(), "e.log".to_string());
    let listener = &cfg.inbounds[1];
    assert_eq!(listener.settings.as_deref(), Some("{\"clients\":[]}"));
    assert_eq!(listener.stream_settings, None);
    assert_eq!(listener.sniffing.as_deref(), Some("{\"enabled\":true}"));
}

#[test]
fn fixed_sections_are_complete() {
    let cfg = build_config(&Vec::new(), "acc".to_string(), "err".to_string());

    assert_eq!(cfg.log.loglevel, "error");
    assert_eq!(cfg.log.access.as_deref(), Some("acc"));
    assert_eq!(cfg.log.error.as_deref(), Some("err"));

    assert_eq!(cfg.api.tag, "api");
    assert_eq!(cfg.api.services, vec!["HandlerService", "LoggerService", "StatsService"]);

    assert_eq!(cfg.inbounds.len(), 1);

    assert_eq!(cfg.outbounds.len(), 2);
    assert_eq!(cfg.outbounds[0].tag, "direct");
    assert_eq!(cfg.outbounds[0].protocol, "freedom");
    assert_eq!(cfg.outbounds[1].tag, "blocked");
    assert_eq!(cfg.outbounds[1].protocol, "blackhole");

    assert!(cfg.stats.is_some());

    let policy = cfg.policy.expect("policy section present");
    assert_eq!(policy.levels.len(), 1);
    assert_eq!(policy.levels[0].0, "0");
    let level = &policy.levels[0].1;
    assert!(level.stats_user_uplink && level.stats_user_downlink);
    assert_eq!(level.handshake, 4);
    assert_eq!(level.conn_idle, 300);
    assert_eq!(level.uplink_only, 2);
    assert_eq!(level.downlink_only, 5);
    assert_eq!(level.buffer_size, 512);
    let system = policy.system.expect("system policy present");
    assert!(system.stats_inbound_uplink && system.stats_inbound_downlink);
    assert!(system.stats_outbound_uplink && system.stats_outbound_downlink);
}

#[test]
fn api_listener_settings_parse_as_json() {
    // the synthetic listener's settings blob must itself be valid JSON
    let cfg = build_config(&Vec::new(), "a".to_string(), "e".to_string());
    let raw = cfg.inbounds[0].settings.clone().expect("api settings present");
    let v: serde_json::Value = serde_json::from_str(&raw).expect("valid JSON");
    assert_eq!(v["address"], "127.0.0.1");
}
