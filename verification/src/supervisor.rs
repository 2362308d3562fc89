//! The process supervisor's decision layer: the observed run-state flag,
//! the ordered effect plans for start, stop and restart, and the pure parts
//! of the binary update (architecture asset, version tag, download URL) and
//! of version detection.

use vstd::prelude::*;

use crate::errors::ApiError;
use crate::text::{spec_split_lines, spec_tokens, split_lines, split_tokens, str_eq};

verus! {

/// The pause between stop and start of a restart, in milliseconds; it lets
/// the system release the listening ports before they are bound again.
pub const RESTART_DELAY_MS: u64 = 50;

/// The observed run state of the supervised process. It is set by the
/// supervisor's own transitions, not read back from the system, so it can
/// be optimistic (set to running before a spawn is confirmed).
pub struct RunState {
    pub running: bool,
}

/// One effect the supervisor asks its driver to perform, in plan order.
/// The marking effects change the observed state; the others are outside
/// work the driver performs as given.
#[derive(Debug, Clone, Copy, PartialEq, Eq, Structural)]
pub enum SupervisorAction {
    MarkStopped,
    KillByName,
    DelayMillis(u64),
    MarkRunning,
    TruncateLogs,
    Spawn,
}

/// What `stop` does, in order: mark the state stopped first, then ask for a
/// best-effort kill of any same-named process.
pub open spec fn spec_stop_plan() -> Seq<SupervisorAction> {
    seq![SupervisorAction::MarkStopped, SupervisorAction::KillByName]
}

/// What `start` does, in order: mark the state running first (optimistic,
/// even before the spawn is attempted), then truncate the log files, then
/// spawn the binary.
pub open spec fn spec_start_plan() -> Seq<SupervisorAction> {
    seq![SupervisorAction::MarkRunning, SupervisorAction::TruncateLogs, SupervisorAction::Spawn]
}

/// What `restart` does: all of stop, a fixed positive delay, all of start.
pub open spec fn spec_restart_plan() -> Seq<SupervisorAction> {
    spec_stop_plan() + seq![SupervisorAction::DelayMillis(RESTART_DELAY_MS as u64)]
        + spec_start_plan()
}

/// How one action changes the observed run state.
pub open spec fn spec_apply_action(running: bool, a: SupervisorAction) -> bool {
    match a {
        SupervisorAction::MarkStopped => false,
        SupervisorAction::MarkRunning => true,
        _ => running,
    }
}

/// The observed run state after a plan runs from `running`.
pub open spec fn spec_run_plan(running: bool, plan: Seq<SupervisorAction>) -> bool
    decreases plan.len(),
{
    if plan.len() == 0 {
        running
    } else {
        spec_apply_action(spec_run_plan(running, plan.drop_last()), plan.last())
    }
}

impl RunState {
    /// The supervisor starts out assuming the process runs.
    pub fn new() -> (r: RunState)
        ensures
            r.running,
    {
        RunState { running: true }
    }

    /// Records whether the process is observed as running.
    pub fn set_running(&mut self, running: bool)
        ensures
            final(self).running == running,
    {
        self.running = running;
    }

    /// Applies one plan action to the observed state.
    pub fn apply_action(&mut self, a: &SupervisorAction)
        ensures
            final(self).running == spec_apply_action(old(self).running, *a),
    {
        match a {
            SupervisorAction::MarkStopped => self.running = false,
            SupervisorAction::MarkRunning => self.running = true,
            _ => {},
        }
    }

    /// The status label for the observed state.
    pub fn state_label(&self) -> (r: String)
        ensures
            self.running ==> r@ == "running"@,
            !self.running ==> r@ == "stopped"@,
    {
        if self.running {
            String::from_str("running")
        } else {
            String::from_str("stopped")
        }
    }
}

/// Builds the stop plan.
pub fn stop_plan() -> (r: Vec<SupervisorAction>)
    ensures
        r@ == spec_stop_plan(),
{
    let mut v: Vec<SupervisorAction> = Vec::new();
    v.push(SupervisorAction::MarkStopped);
    v.push(SupervisorAction::KillByName);
    proof {
        assert(v@ =~= spec_stop_plan());
    }
    v
}

/// Builds the start plan.
pub fn start_plan() -> (r: Vec<SupervisorAction>)
    ensures
        r@ == spec_start_plan(),
{
    let mut v: Vec<SupervisorAction> = Vec::new();
    v.push(SupervisorAction::MarkRunning);
    v.push(SupervisorAction::TruncateLogs);
    v.push(SupervisorAction::Spawn);
    proof {
        assert(v@ =~= spec_start_plan());
    }
    v
}

/// Builds the restart plan.
pub fn restart_plan() -> (r: Vec<SupervisorAction>)
    ensures
        r@ == spec_restart_plan(),
{
    let mut v = stop_plan();
    v.push(SupervisorAction::DelayMillis(RESTART_DELAY_MS));
    let mut tail = start_plan();
    v.append(&mut tail);
    proof {
        assert(v@ =~= spec_restart_plan());
    }
    v
}

/// Law: a restart performs the whole stop plan first — after it the state is
/// observably stopped, whatever it was — then waits a positive delay, and
/// only then begins the start plan, whose first action marks the state
/// running again.
pub proof fn lemma_restart_sequencing()
    ensures
        spec_restart_plan().take(2) == spec_stop_plan(),
        forall|b: bool| !spec_run_plan(b, spec_restart_plan().take(2)),
        spec_restart_plan()[2] == SupervisorAction::DelayMillis(RESTART_DELAY_MS as u64),
        RESTART_DELAY_MS > 0,
        spec_restart_plan().skip(3) == spec_start_plan(),
        forall|i: int| 0 <= i < 3 ==> spec_restart_plan()[i] != SupervisorAction::MarkRunning,
        forall|b: bool| spec_run_plan(b, spec_restart_plan()),
{
    let p = spec_restart_plan();
    assert(p =~= seq![
        SupervisorAction::MarkStopped,
        SupervisorAction::KillByName,
        SupervisorAction::DelayMillis(RESTART_DELAY_MS as u64),
        SupervisorAction::MarkRunning,
        SupervisorAction::TruncateLogs,
        SupervisorAction::Spawn,
    ]);
    assert(p.take(2) =~= spec_stop_plan());
    assert(p.skip(3) =~= spec_start_plan());
    assert forall|b: bool| !spec_run_plan(b, p.take(2)) by {
        let q = p.take(2);
        let q1 = q.drop_last();
        assert(q1 =~= seq![SupervisorAction::MarkStopped]);
        assert(q1.drop_last() =~= Seq::<SupervisorAction>::empty());
        assert(q1.last() == SupervisorAction::MarkStopped);
        assert(!spec_run_plan(b, q1));
        assert(q.last() == SupervisorAction::KillByName);
        assert(!spec_run_plan(b, q));
    }
    assert forall|b: bool| spec_run_plan(b, p) by {
        let p5 = p.drop_last();
        let p4 = p5.drop_last();
        assert(p.last() == SupervisorAction::Spawn);
        assert(p5.last() == SupervisorAction::TruncateLogs);
        assert(p4.last() == SupervisorAction::MarkRunning);
        assert(spec_run_plan(b, p4));
        assert(spec_run_plan(b, p5));
    }
}

/// The archive asset name for a host architecture; unsupported hosts are
/// refused with a system error.
pub fn arch_asset(arch: &str) -> (r: Result<String, ApiError>)
    ensures
        arch@ == "x86_64"@ ==> (r matches Ok(a) && a@ == "64"@),
        arch@ == "aarch64"@ ==> (r matches Ok(a) && a@ == "arm64-v8a"@),
        (arch@ != "x86_64"@ && arch@ != "aarch64"@) ==> (r matches Err(e) && e is SystemError),
{
    proof {
        reveal_strlit("x86_64");
        reveal_strlit("aarch64");
        assert("x86_64"@.len() != "aarch64"@.len());
    }
    if str_eq(arch, "x86_64") {
        Ok(String::from_str("64"))
    } else if str_eq(arch, "aarch64") {
        Ok(String::from_str("arm64-v8a"))
    } else {
        Err(ApiError::SystemError(String::from_str("Unsupported architecture")))
    }
}

/// A version string as a release tag: kept when it already starts with a
/// `v`, else given one.
pub open spec fn spec_version_tag(v: Seq<char>) -> Seq<char> {
    if v.len() > 0 && v[0] == 'v' {
        v
    } else {
        "v"@ + v
    }
}

/// Builds the release tag for a version string.
pub fn version_tag(version: &str) -> (r: String)
    ensures
        r@ == spec_version_tag(version@),
{
    let n = version.unicode_len();
    if n > 0 && version.get_char(0) == 'v' {
        version.to_owned()
    } else {
        let mut s = String::from_str("v");
        s.append(version);
        s
    }
}

/// A request to update the supervised binary to one version.
#[derive(Debug, Clone)]
pub struct UpdateXrayRequest {
    pub version: String,
}

/// The version shown for the binary's version-print output: the second
/// token of the first line, as a `v`-prefixed tag; absent when the output
/// has no line with two tokens.
pub open spec fn spec_version_of(s: Seq<char>) -> Option<Seq<char>> {
    let lines = spec_split_lines(s);
    if lines.len() == 0 {
        None
    } else {
        let ts = spec_tokens(lines[0]);
        if ts.len() >= 2 {
            Some(spec_version_tag(ts[1]))
        } else {
            None
        }
    }
}

/// Reads the version tag out of the binary's version-print output, as
/// `spec_version_of` says.
pub fn parse_version_output(stdout: &str) -> (r: Option<String>)
    ensures
        match r {
            Some(v) => spec_version_of(stdout@) == Some(v@),
            None => spec_version_of(stdout@) is None,
        },
{
    let lines = split_lines(stdout);
    if lines.len() == 0 {
        return None;
    }
    proof {
        assert(lines.deep_view()[0] == lines@[0]@);
    }
    let tokens = split_tokens(lines[0].as_str());
    if tokens.len() >= 2 {
        proof {
            assert(tokens.deep_view()[1] == tokens@[1]@);
        }
        Some(version_tag(tokens[1].as_str()))
    } else {
        None
    }
}

/// The download URL of a release's archive for one architecture asset.
pub open spec fn spec_download_url(tag: Seq<char>, asset: Seq<char>) -> Seq<char> {
    "https://github.com/XTLS/Xray-core/releases/download/"@ + tag + "/Xray-linux-"@ + asset
        + ".zip"@
}

/// Builds the download URL for a release tag and architecture asset.
pub fn download_url(tag: &str, asset: &str) -> (r: String)
    ensures
        r@ == spec_download_url(tag@, asset@),
{
    let mut s = String::from_str("https://github.com/XTLS/Xray-core/releases/download/");
    s.append(tag);
    s.append("/Xray-linux-");
    s.append(asset);
    s.append(".zip");
    s
}

} // verus!
