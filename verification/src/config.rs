//! The config builder: a pure transform from the enabled inbound set to the
//! supervised process's configuration document. Writing the document out and
//! restarting the process are the caller's separate steps.

use vstd::prelude::*;

use crate::inbound::Inbound;

verus! {

/// Whether a text is a well-formed JSON document.
pub uninterp spec fn json_ok(s: Seq<char>) -> bool;

/// Relies on `serde_json::from_str::<serde_json::Value>`: whether a text
/// parses as JSON is a function of its characters alone.
#[verifier::external_body]
fn json_text_ok(s: &str) -> (r: bool)
    ensures
        r == json_ok(s@),
{
    serde_json::from_str::<serde_json::Value>(s).is_ok()
}

/// Log section: verbosity and the two log file paths.
#[derive(Debug, Clone)]
pub struct LogConfig {
    pub loglevel: String,
    pub access: Option<String>,
    pub error: Option<String>,
}

/// Control-plane section: the api tag and the service list.
#[derive(Debug, Clone)]
pub struct ApiConfig {
    pub tag: String,
    pub services: Vec<String>,
}

/// One listener in the document. The structured blobs are carried as raw
/// JSON text, present only when the stored text parses.
#[derive(Debug, Clone)]
pub struct InboundConfig {
    pub tag: String,
    pub port: i32,
    pub protocol: String,
    pub listen: Option<String>,
    pub allocate: Option<String>,
    pub settings: Option<String>,
    pub stream_settings: Option<String>,
    pub sniffing: Option<String>,
}

/// One egress route.
#[derive(Debug, Clone)]
pub struct OutboundConfig {
    pub tag: String,
    pub protocol: String,
    pub settings: Option<String>,
    pub stream_settings: Option<String>,
}

/// Stats section: present means per-counter tracking is on.
#[derive(Debug, Clone)]
pub struct StatsConfig {}

/// Per-level traffic accounting tuning.
#[derive(Debug, Clone)]
pub struct LevelPolicy {
    pub stats_user_uplink: bool,
    pub stats_user_downlink: bool,
    pub handshake: u32,
    pub conn_idle: u32,
    pub uplink_only: u32,
    pub downlink_only: u32,
    pub buffer_size: u32,
}

/// System-wide stat capture switches.
#[derive(Debug, Clone)]
pub struct SystemPolicy {
    pub stats_inbound_uplink: bool,
    pub stats_inbound_downlink: bool,
    pub stats_outbound_uplink: bool,
    pub stats_outbound_downlink: bool,
}

/// Policy section: accounting levels by name, and the system switches.
#[derive(Debug, Clone)]
pub struct PolicyConfig {
    pub levels: Vec<(String, LevelPolicy)>,
    pub system: Option<SystemPolicy>,
}

/// One routing rule.
#[derive(Debug, Clone)]
pub struct RoutingRule {
    pub rule_type: String,
    pub port: Option<String>,
    pub inbound_tag: Option<Vec<String>>,
    pub outbound_tag: Option<String>,
    pub ip: Option<Vec<String>>,
    pub domain: Option<Vec<String>>,
    pub protocol: Option<Vec<String>>,
}

impl Default for RoutingRule {
    /// An empty field-matching rule.
    fn default() -> (r: RoutingRule)
        ensures
            r.rule_type@ == "field"@,
            r.port is None,
            r.inbound_tag is None,
            r.outbound_tag is None,
            r.ip is None,
            r.domain is None,
            r.protocol is None,
    {
        RoutingRule {
            rule_type: String::from_str("field"),
            port: None,
            inbound_tag: None,
            outbound_tag: None,
            ip: None,
            domain: None,
            protocol: None,
        }
    }
}

/// Routing section: the resolution strategy and the ordered rules.
#[derive(Debug, Clone)]
pub struct RoutingConfig {
    pub domain_strategy: String,
    pub rules: Vec<RoutingRule>,
}

/// The whole configuration document.
#[derive(Debug, Clone)]
pub struct XrayConfig {
    pub log: LogConfig,
    pub api: ApiConfig,
    pub inbounds: Vec<InboundConfig>,
    pub outbounds: Vec<OutboundConfig>,
    pub stats: Option<StatsConfig>,
    pub policy: Option<PolicyConfig>,
    pub routing: Option<RoutingConfig>,
}

/// A stored blob is kept verbatim when it parses as JSON, else dropped.
pub open spec fn spec_blob_kept(o: Option<String>) -> Option<String> {
    match o {
        None => None,
        Some(s) => if json_ok(s@) {
            Some(s)
        } else {
            None
        },
    }
}

/// Keeps a blob only when it parses, as `spec_blob_kept` says.
fn keep_if_json(o: &Option<String>) -> (r: Option<String>)
    ensures
        r == spec_blob_kept(*o),
{
    match o {
        None => None,
        Some(s) => {
            if json_text_ok(s.as_str()) {
                Some(s.clone())
            } else {
                None
            }
        },
    }
}

/// The synthetic control-plane listener: protocol `dokodemo-door`, tag
/// `api`, loopback only, fixed port.
pub open spec fn spec_api_listener(lc: InboundConfig) -> bool {
    &&& lc.tag@ == "api"@
    &&& lc.port == 10085
    &&& lc.protocol@ == "dokodemo-door"@
    &&& lc.listen matches Some(l) && l@ == "127.0.0.1"@
    &&& lc.settings matches Some(s) && s@ == "{\"address\":\"127.0.0.1\"}"@
    &&& lc.stream_settings is None
    &&& lc.sniffing is None
    &&& lc.allocate is None
}

/// The listener derived from one inbound record.
pub open spec fn spec_listener_of(ib: Inbound, lc: InboundConfig) -> bool {
    &&& lc.tag@ == ib.spec_tag()
    &&& lc.port == ib.port
    &&& lc.protocol@ == ib.protocol@
    &&& lc.listen == ib.listen
    &&& lc.allocate == spec_blob_kept(ib.allocate)
    &&& lc.settings == spec_blob_kept(ib.settings)
    &&& lc.stream_settings == spec_blob_kept(ib.stream_settings)
    &&& lc.sniffing == spec_blob_kept(ib.sniffing)
}

/// The rule that sends control-plane traffic back to the api outbound. It
/// must stand before every other rule, or the control plane's own queries
/// would re-enter the data plane.
pub open spec fn spec_api_rule(r: RoutingRule) -> bool {
    &&& r.rule_type@ == "field"@
    &&& r.inbound_tag matches Some(ts) && ts.deep_view() == seq!["api"@]
    &&& r.outbound_tag matches Some(t) && t@ == "api"@
    &&& r.port is None
    &&& r.ip is None
    &&& r.domain is None
    &&& r.protocol is None
}

/// Everything `build_config` promises of its output document, given the
/// enabled inbounds and the two log paths.
pub open spec fn spec_config_built(
    cfg: XrayConfig,
    ibs: Seq<Inbound>,
    access_path: String,
    error_path: String,
) -> bool {
    &&& cfg.log.loglevel@ == "error"@
    &&& cfg.log.access == Some(access_path)
    &&& cfg.log.error == Some(error_path)
    &&& cfg.api.tag@ == "api"@
    &&& cfg.api.services.deep_view() =~= seq![
        "HandlerService"@,
        "LoggerService"@,
        "StatsService"@,
    ]
    &&& cfg.inbounds@.len() == 1 + ibs.len()
    &&& spec_api_listener(cfg.inbounds@[0])
    &&& (forall|i: int|
        0 <= i < ibs.len() ==> spec_listener_of(#[trigger] ibs[i], cfg.inbounds@[i + 1]))
    &&& cfg.outbounds@.len() == 2
    &&& cfg.outbounds@[0].tag@ == "direct"@
    &&& cfg.outbounds@[0].protocol@ == "freedom"@
    &&& cfg.outbounds@[0].settings is None
    &&& cfg.outbounds@[0].stream_settings is None
    &&& cfg.outbounds@[1].tag@ == "blocked"@
    &&& cfg.outbounds@[1].protocol@ == "blackhole"@
    &&& cfg.outbounds@[1].settings is None
    &&& cfg.outbounds@[1].stream_settings is None
    &&& cfg.stats is Some
    &&& cfg.policy matches Some(p) && spec_policy_built(p)
    &&& cfg.routing matches Some(rt) && rt.domain_strategy@ == "IPIfNonMatch"@ && rt.rules@.len()
        == 1 && spec_api_rule(rt.rules@[0])
}

/// The fixed policy section: one accounting level `0` with per-user stat
/// capture on and the fixed tuning constants, and all system switches on.
pub open spec fn spec_policy_built(p: PolicyConfig) -> bool {
    &&& p.levels@.len() == 1
    &&& p.levels@[0].0@ == "0"@
    &&& p.levels@[0].1.stats_user_uplink
    &&& p.levels@[0].1.stats_user_downlink
    &&& p.levels@[0].1.handshake == 4
    &&& p.levels@[0].1.conn_idle == 300
    &&& p.levels@[0].1.uplink_only == 2
    &&& p.levels@[0].1.downlink_only == 5
    &&& p.levels@[0].1.buffer_size == 512
    &&& p.system matches Some(sp) && sp.stats_inbound_uplink && sp.stats_inbound_downlink
        && sp.stats_outbound_uplink && sp.stats_outbound_downlink
}

/// Builds the configuration document for the given enabled inbounds, with
/// the two log file paths the caller resolved. A pure transform: the same
/// inputs give a document with the same contents.
pub fn build_config(inbounds: &Vec<Inbound>, access_path: String, error_path: String) -> (r:
    XrayConfig)
    ensures
        spec_config_built(r, inbounds@, access_path, error_path),
{
    let log = LogConfig {
        loglevel: String::from_str("error"),
        access: Some(access_path),
        error: Some(error_path),
    };
    let mut services: Vec<String> = Vec::new();
    services.push(String::from_str("HandlerService"));
    services.push(String::from_str("LoggerService"));
    services.push(String::from_str("StatsService"));
    let api = ApiConfig { tag: String::from_str("api"), services };
    proof {
        assert(api.services.deep_view() =~= seq![
            "HandlerService"@,
            "LoggerService"@,
            "StatsService"@,
        ]);
    }

    let mut listeners: Vec<InboundConfig> = Vec::new();
    listeners.push(
        InboundConfig {
            tag: String::from_str("api"),
            port: 10085,
            protocol: String::from_str("dokodemo-door"),
            listen: Some(String::from_str("127.0.0.1")),
            settings: Some(String::from_str("{\"address\":\"127.0.0.1\"}")),
            stream_settings: None,
            sniffing: None,
            allocate: None,
        },
    );
    let mut i: usize = 0;
    while i < inbounds.len()
        invariant
            0 <= i <= inbounds@.len(),
            listeners@.len() == 1 + i,
            spec_api_listener(listeners@[0]),
            forall|j: int|
                0 <= j < i ==> spec_listener_of(#[trigger] inbounds@[j], listeners@[j + 1]),
        decreases inbounds@.len() - i,
    {
        let ib = &inbounds[i];
        let lc = InboundConfig {
            tag: ib.effective_tag(),
            port: ib.port,
            protocol: ib.protocol.clone(),
            listen: clone_opt_string(&ib.listen),
            allocate: keep_if_json(&ib.allocate),
            settings: keep_if_json(&ib.settings),
            stream_settings: keep_if_json(&ib.stream_settings),
            sniffing: keep_if_json(&ib.sniffing),
        };
        listeners.push(lc);
        i += 1;
    }

    let mut outbounds: Vec<OutboundConfig> = Vec::new();
    outbounds.push(
        OutboundConfig {
            tag: String::from_str("direct"),
            protocol: String::from_str("freedom"),
            settings: None,
            stream_settings: None,
        },
    );
    outbounds.push(
        OutboundConfig {
            tag: String::from_str("blocked"),
            protocol: String::from_str("blackhole"),
            settings: None,
            stream_settings: None,
        },
    );

    let mut levels: Vec<(String, LevelPolicy)> = Vec::new();
    levels.push(
        (
            String::from_str("0"),
            LevelPolicy {
                stats_user_uplink: true,
                stats_user_downlink: true,
                handshake: 4,
                conn_idle: 300,
                uplink_only: 2,
                downlink_only: 5,
                buffer_size: 512,
            },
        ),
    );
    let policy = PolicyConfig {
        levels,
        system: Some(
            SystemPolicy {
                stats_inbound_uplink: true,
                stats_inbound_downlink: true,
                stats_outbound_uplink: true,
                stats_outbound_downlink: true,
            },
        ),
    };

    let mut api_tags: Vec<String> = Vec::new();
    api_tags.push(String::from_str("api"));
    let mut rule = RoutingRule::default();
    rule.inbound_tag = Some(api_tags);
    rule.outbound_tag = Some(String::from_str("api"));
    let mut rules: Vec<RoutingRule> = Vec::new();
    rules.push(rule);
    let routing = RoutingConfig { domain_strategy: String::from_str("IPIfNonMatch"), rules };
    proof {
        assert(routing.rules@[0].inbound_tag->Some_0.deep_view() =~= seq!["api"@]);
    }

    XrayConfig {
        log,
        api,
        inbounds: listeners,
        outbounds,
        stats: Some(StatsConfig {}),
        policy: Some(policy),
        routing: Some(routing),
    }
}

/// Law: when no enabled inbound carries the explicit tag `api`, the built
/// document has exactly one listener tagged `api` — the synthetic one, and
/// it is the first listener — and exactly one routing rule, the api rule,
/// so that rule stands before any other.
pub proof fn lemma_api_listener_unique(
    cfg: XrayConfig,
    ibs: Seq<Inbound>,
    access_path: String,
    error_path: String,
)
    requires
        spec_config_built(cfg, ibs, access_path, error_path),
        forall|i: int|
            0 <= i < ibs.len() ==> ((#[trigger] ibs[i].tag) matches Some(t) ==> t@ != "api"@),
    ensures
        cfg.inbounds@.len() >= 1,
        cfg.inbounds@[0].tag@ == "api"@,
        forall|i: int| 1 <= i < cfg.inbounds@.len() ==> (#[trigger] cfg.inbounds@[i].tag@) != "api"@,
        cfg.routing matches Some(rt) && rt.rules@.len() == 1 && spec_api_rule(rt.rules@[0]),
{
    assert forall|i: int|
        1 <= i < cfg.inbounds@.len() implies (#[trigger] cfg.inbounds@[i].tag@) != "api"@ by {
        let ib = ibs[i - 1];
        assert(spec_listener_of(ib, cfg.inbounds@[i]));
        match ib.tag {
            Some(t) => {
                assert(t@ != "api"@);
            },
            None => {
                reveal_strlit("inbound-");
                reveal_strlit("api");
                assert(ib.spec_tag().len() >= 8);
                assert("api"@.len() == 3);
            },
        }
    }
}

/// Copies an optional string.
fn clone_opt_string(o: &Option<String>) -> (r: Option<String>)
    ensures
        r == *o,
{
    match o {
        None => None,
        Some(s) => Some(s.clone()),
    }
}

} // verus!
