use xui_core::config::build_config;
use xui_core::inbound::Inbound;
use xui_core::stats::{parse_stats, StatsSnapshot};
use xui_core::traffic::{
    account_traffic, downlink_key, plan_traffic_updates, uplink_key, AccountOutcome,
};

fn inbound(id: &str, tag: Option<&str>, up: i64, down: i64, total: i64) -> Inbound {
    Inbound {
        id: id.to_string(),
        remark: id.to_string(),
        protocol: "vless".to_string(),
        port: 443,
        enable: true,
        tag: tag.map(|t| t.to_string()),
        listen: None,
        allocate: None,
        settings: None,
        stream_settings: None,
        sniffing: None,
        up,
        down,
        total,
        expiry: 0,
        created_at: None,
        updated_at: None,
    }
}

#[test]
fn zero_deltas_mean_no_write() {
    assert!(matches!(account_traffic(40, 40, 100, 0, 0), AccountOutcome::Idle));

    let inbounds = vec![inbound("a1", Some("A"), 40, 40, 100)];
    let snap = StatsSnapshot::new();
    let (updates, needs_reapply) = plan_traffic_updates(&inbounds, &snap);
    assert!(updates.is_empty());
    assert!(!needs_reapply);
}

#[test]
fn quota_boundary_flips_exactly_at_the_limit() {
    match account_traffic(40, 40, 100, 20, 0) {
        AccountOutcome::Updated { new_up, new_down, enable } => {
            assert_eq!(new_up, 60);
            assert_eq!(new_down, 40);
            assert!(!enable);
        },
        AccountOutcome::Idle => panic!("a positive delta must be written"),
    }
    match account_traffic(40, 40, 100, 19, 0) {
        AccountOutcome::Updated { new_up, new_down, enable } => {
            assert_eq!(new_up, 59);
            assert_eq!(new_down, 40);
            assert!(enable);
        },
        AccountOutcome::Idle => panic!("a positive delta must be written"),
    }
}

#[test]
fn no_quota_means_never_disabled() {
    match account_traffic(0, 0, 0, 5000, 5000) {
        AccountOutcome::Updated { enable, .. } => assert!(enable),
        AccountOutcome::Idle => panic!("a positive delta must be written"),
    }
}

#[test]
fn keys_use_the_effective_tag() {
    assert_eq!(uplink_key("A"), "inbound>>>A>>>traffic>>>uplink");
    assert_eq!(downlink_key("A"), "inbound>>>A>>>traffic>>>downlink");

    // an inbound without an explicit tag is looked up under inbound-<id>
    let ib = inbound("2a80a671", None, 0, 0, 0);
    let inbounds = vec![ib];
    let mut snap = StatsSnapshot::new();
    snap.put("inbound>>>inbound-2a80a671>>>traffic>>>uplink".to_string(), 11);
    let (updates, _) = plan_traffic_updates(&inbounds, &snap);
    assert_eq!(updates.len(), 1);
    assert_eq!(updates[0].new_up, 11);
}

#[test]
fn quota_pass_disables_and_reconciles_once() {
    // two enabled inbounds: A with a quota, B without one
    let a = inbound("a", Some("A"), 0, 0, 1000);
    let b = inbound("b", Some("B"), 0, 0, 0);
    let inbounds = vec![a, b.clone()];

    let reply = "{\n  name: \"inbound>>>A>>>traffic>>>uplink\"\n  value: 1200\n}\n";
    let snap = parse_stats(reply);

    let (updates, needs_reapply) = plan_traffic_updates(&inbounds, &snap);
    assert_eq!(updates.len(), 1, "B is idle and gets no write");
    assert_eq!(updates[0].id, "a");
    assert_eq!(updates[0].new_up, 1200);
    assert_eq!(updates[0].new_down, 0);
    assert!(!updates[0].enable, "A crossed its quota and is disabled");
    assert!(needs_reapply, "exactly one reconciliation is due");

    // the rebuilt configuration holds only B's listener plus the api one
    let enabled = vec![b];
    let cfg = build_config(&enabled, "logs/access.log".to_string(), "logs/error.log".to_string());
    assert_eq!(cfg.inbounds.len(), 2);
    assert_eq!(cfg.inbounds[0].tag, "api");
    assert_eq!(cfg.inbounds[1].tag, "B");
}
