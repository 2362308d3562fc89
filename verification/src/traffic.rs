//! The quota accountant: it folds one snapshot of counter deltas into the
//! stored traffic totals and decides which inbounds cross their quota.

use vstd::prelude::*;

use crate::config::{spec_listener_of, InboundConfig};
use crate::inbound::Inbound;
use crate::stats::StatsSnapshot;

verus! {

/// The stats counter name for an inbound's uplink traffic.
pub open spec fn spec_uplink_key(tag: Seq<char>) -> Seq<char> {
    "inbound>>>"@ + tag + ">>>traffic>>>uplink"@
}

/// The stats counter name for an inbound's downlink traffic.
pub open spec fn spec_downlink_key(tag: Seq<char>) -> Seq<char> {
    "inbound>>>"@ + tag + ">>>traffic>>>downlink"@
}

/// Builds the uplink counter name for a tag.
pub fn uplink_key(tag: &str) -> (r: String)
    ensures
        r@ == spec_uplink_key(tag@),
{
    let mut s = String::from_str("inbound>>>");
    s.append(tag);
    s.append(">>>traffic>>>uplink");
    s
}

/// Builds the downlink counter name for a tag.
pub fn downlink_key(tag: &str) -> (r: String)
    ensures
        r@ == spec_downlink_key(tag@),
{
    let mut s = String::from_str("inbound>>>");
    s.append(tag);
    s.append(">>>traffic>>>downlink");
    s
}

/// The delta a snapshot holds for a counter name; zero when absent.
pub open spec fn spec_delta(m: Map<Seq<char>, i64>, key: Seq<char>) -> i64 {
    if m.contains_key(key) {
        m[key]
    } else {
        0
    }
}

/// What one accounting step decides for one inbound: nothing to write, or
/// the new totals with the resulting enable state.
#[derive(Debug, Clone, Copy, PartialEq, Eq, Structural)]
pub enum AccountOutcome {
    Idle,
    Updated { new_up: i64, new_down: i64, enable: bool },
}

/// A positive quota is met or passed by the new totals.
pub open spec fn spec_quota_exceeded(total: int, new_up: int, new_down: int) -> bool {
    total > 0 && new_up + new_down >= total
}

/// The accounting decision for stored totals `up`/`down` with quota `total`
/// and fresh deltas.
pub fn account_traffic(up: i64, down: i64, total: i64, delta_up: i64, delta_down: i64) -> (r:
    AccountOutcome)
    requires
        delta_up >= 0,
        delta_down >= 0,
        (delta_up != 0 || delta_down != 0) ==> up + delta_up <= i64::MAX,
        (delta_up != 0 || delta_down != 0) ==> down + delta_down <= i64::MAX,
        (total > 0 && (delta_up != 0 || delta_down != 0)) ==> i64::MIN <= (up + delta_up) + (down
            + delta_down) <= i64::MAX,
    ensures
        (delta_up == 0 && delta_down == 0) ==> r is Idle,
        (delta_up != 0 || delta_down != 0) ==> r == (AccountOutcome::Updated {
            new_up: (up + delta_up) as i64,
            new_down: (down + delta_down) as i64,
            enable: !spec_quota_exceeded(total as int, up + delta_up, down + delta_down),
        }),
{
    if delta_up == 0 && delta_down == 0 {
        return AccountOutcome::Idle;
    }
    let new_up = up + delta_up;
    let new_down = down + delta_down;
    let mut enable = true;
    if total > 0 && new_up + new_down >= total {
        enable = false;
    }
    AccountOutcome::Updated { new_up, new_down, enable }
}

/// One row the accountant asks the store to write.
#[derive(Debug, Clone)]
pub struct TrafficUpdate {
    pub id: String,
    pub new_up: i64,
    pub new_down: i64,
    pub enable: bool,
}

/// The decision for `ib` under snapshot `m`.
pub open spec fn spec_outcome(ib: Inbound, m: Map<Seq<char>, i64>) -> AccountOutcome {
    let du = spec_delta(m, spec_uplink_key(ib.spec_tag()));
    let dd = spec_delta(m, spec_downlink_key(ib.spec_tag()));
    if du == 0 && dd == 0 {
        AccountOutcome::Idle
    } else {
        AccountOutcome::Updated {
            new_up: (ib.up + du) as i64,
            new_down: (ib.down + dd) as i64,
            enable: !spec_quota_exceeded(ib.total as int, ib.up + du, ib.down + dd),
        }
    }
}

/// The new totals fit the storage type; a machine limit, not a policy. An
/// idle inbound (both deltas zero) is left alone and needs no bound.
pub open spec fn spec_deltas_fit(ib: Inbound, m: Map<Seq<char>, i64>) -> bool {
    let du = spec_delta(m, spec_uplink_key(ib.spec_tag()));
    let dd = spec_delta(m, spec_downlink_key(ib.spec_tag()));
    du != 0 || dd != 0 ==> {
        &&& ib.up + du <= i64::MAX
        &&& ib.down + dd <= i64::MAX
        &&& (ib.total > 0 ==> i64::MIN <= (ib.up + du) + (ib.down + dd) <= i64::MAX)
    }
}

/// The write that `spec_outcome` asks for: none when idle.
pub open spec fn spec_update_of(ib: Inbound, m: Map<Seq<char>, i64>) -> Seq<TrafficUpdate> {
    match spec_outcome(ib, m) {
        AccountOutcome::Idle => Seq::<TrafficUpdate>::empty(),
        AccountOutcome::Updated { new_up, new_down, enable } => seq![
            TrafficUpdate { id: ib.id, new_up, new_down, enable },
        ],
    }
}

/// All writes of one accounting pass, in inbound order.
pub open spec fn spec_updates(ibs: Seq<Inbound>, m: Map<Seq<char>, i64>) -> Seq<TrafficUpdate>
    decreases ibs.len(),
{
    if ibs.len() == 0 {
        Seq::<TrafficUpdate>::empty()
    } else {
        spec_updates(ibs.drop_last(), m) + spec_update_of(ibs.last(), m)
    }
}

/// Some inbound is disabled by this pass, so the configuration must be
/// rebuilt and applied once.
pub open spec fn spec_any_disabled(ibs: Seq<Inbound>, m: Map<Seq<char>, i64>) -> bool {
    exists|i: int|
        0 <= i < ibs.len() && (#[trigger] spec_outcome(ibs[i], m)
            matches AccountOutcome::Updated { enable: false, .. })
}

/// Runs one accounting pass over the enabled inbounds: for each one, looks
/// up its two deltas, decides the write, and reports whether any inbound was
/// disabled this cycle.
pub fn plan_traffic_updates(inbounds: &Vec<Inbound>, snap: &StatsSnapshot) -> (r: (
    Vec<TrafficUpdate>,
    bool,
))
    requires
        snap.wf(),
        forall|i: int| 0 <= i < inbounds@.len() ==> spec_deltas_fit(#[trigger] inbounds@[i], snap@),
    ensures
        r.0@ == spec_updates(inbounds@, snap@),
        r.1 == spec_any_disabled(inbounds@, snap@),
{
    let ghost ibs = inbounds@;
    let mut updates: Vec<TrafficUpdate> = Vec::new();
    let mut needs_reapply = false;
    let mut i: usize = 0;
    proof {
        assert(ibs.take(0) =~= Seq::<Inbound>::empty());
    }
    while i < inbounds.len()
        invariant
            ibs == inbounds@,
            snap.wf(),
            forall|j: int| 0 <= j < ibs.len() ==> spec_deltas_fit(#[trigger] ibs[j], snap@),
            0 <= i <= ibs.len(),
            updates@ == spec_updates(ibs.take(i as int), snap@),
            needs_reapply == spec_any_disabled(ibs.take(i as int), snap@),
        decreases ibs.len() - i,
    {
        let ghost pre = ibs.take(i as int);
        let ib = &inbounds[i];
        let tag = ib.effective_tag();
        let upk = uplink_key(tag.as_str());
        let downk = downlink_key(tag.as_str());
        let du = snap.get_or_zero(upk.as_str());
        let dd = snap.get_or_zero(downk.as_str());
        proof {
            assert(du == spec_delta(snap@, spec_uplink_key(ibs[i as int].spec_tag())));
            assert(dd == spec_delta(snap@, spec_downlink_key(ibs[i as int].spec_tag())));
            assert(spec_deltas_fit(ibs[i as int], snap@));
        }
        match account_traffic(ib.up, ib.down, ib.total, du, dd) {
            AccountOutcome::Idle => {
                proof {
                    assert(spec_outcome(ibs[i as int], snap@) is Idle);
                }
            },
            AccountOutcome::Updated { new_up, new_down, enable } => {
                if !enable {
                    needs_reapply = true;
                }
                updates.push(TrafficUpdate { id: ib.id.clone(), new_up, new_down, enable });
            },
        }
        proof {
            let post = ibs.take(i as int + 1);
            assert(post.drop_last() =~= pre);
            assert(post.last() == ibs[i as int]);
            assert(updates@ =~= spec_updates(post, snap@));
            if needs_reapply {
                if spec_any_disabled(pre, snap@) {
                    let w = choose|w: int|
                        0 <= w < pre.len() && (#[trigger] spec_outcome(pre[w], snap@)
                            matches AccountOutcome::Updated { enable: false, .. });
                    assert(post[w] == pre[w]);
                    assert(spec_any_disabled(post, snap@));
                } else {
                    assert(post[i as int] == ibs[i as int]);
                    assert(spec_any_disabled(post, snap@));
                }
            } else {
                if spec_any_disabled(post, snap@) {
                    let w = choose|w: int|
                        0 <= w < post.len() && (#[trigger] spec_outcome(post[w], snap@)
                            matches AccountOutcome::Updated { enable: false, .. });
                    if w < i as int {
                        assert(pre[w] == post[w]);
                        assert(spec_any_disabled(pre, snap@));
                        assert(false);
                    } else {
                        assert(post[w] == ibs[i as int]);
                        assert(false);
                    }
                }
            }
        }
        i += 1;
    }
    proof {
        assert(ibs.take(ibs.len() as int) =~= ibs);
    }
    (updates, needs_reapply)
}

/// Law: an inbound whose looked-up uplink and downlink deltas are both zero
/// is left alone — the accounting pass decides nothing and writes nothing
/// for it.
pub proof fn lemma_zero_deltas_no_write(ib: Inbound, m: Map<Seq<char>, i64>)
    requires
        spec_delta(m, spec_uplink_key(ib.spec_tag())) == 0,
        spec_delta(m, spec_downlink_key(ib.spec_tag())) == 0,
    ensures
        spec_outcome(ib, m) is Idle,
        spec_update_of(ib, m) == Seq::<TrafficUpdate>::empty(),
{
}

/// Law: an inbound without an explicit tag is known as `"inbound-" + id`,
/// and that one label is used identically in the built configuration's
/// listener and inside both stats lookup keys.
pub proof fn lemma_tag_consistency(ib: Inbound, lc: InboundConfig)
    requires
        ib.tag is None,
        spec_listener_of(ib, lc),
    ensures
        ib.spec_tag() == "inbound-"@ + ib.id@,
        lc.tag@ == "inbound-"@ + ib.id@,
        spec_uplink_key(ib.spec_tag()) == spec_uplink_key(lc.tag@),
        spec_downlink_key(ib.spec_tag()) == spec_downlink_key(lc.tag@),
{
}

} // verus!
