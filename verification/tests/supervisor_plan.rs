use xui_core::errors::ApiError;
use xui_core::supervisor::{
    arch_asset, download_url, parse_version_output, restart_plan, start_plan, stop_plan,
    version_tag, RunState, SupervisorAction, RESTART_DELAY_MS,
};

#[test]
fn restart_runs_stop_fully_then_waits_then_starts() {
    let plan = restart_plan();
    assert_eq!(plan.len(), 6);
    assert_eq!(plan[0], SupervisorAction::MarkStopped);
    assert_eq!(plan[1], SupervisorAction::KillByName);
    assert_eq!(plan[2], SupervisorAction::DelayMillis(RESTART_DELAY_MS));
    assert!(RESTART_DELAY_MS > 0);
    assert_eq!(plan[3], SupervisorAction::MarkRunning);
    assert_eq!(plan[4], SupervisorAction::TruncateLogs);
    assert_eq!(plan[5], SupervisorAction::Spawn);
    // stop must be complete before anything of start appears
    assert_eq!(&plan[..2], &stop_plan()[..]);

    let mut state = RunState::new();
    assert!(state.running);
    state.apply_action(&plan[0]);
    state.apply_action(&plan[1]);
    assert!(!state.running, "observably stopped before the delay and the start");
    state.apply_action(&plan[2]);
    assert!(!state.running, "still stopped during the delay");
    for a in &plan[3..] {
        state.apply_action(a);
    }
    assert!(state.running);
}

#[test]
fn start_marks_running_before_the_spawn() {
    let plan = start_plan();
    assert_eq!(
        plan,
        vec![SupervisorAction::MarkRunning, SupervisorAction::TruncateLogs, SupervisorAction::Spawn]
    );
}

#[test]
fn state_labels() {
    let mut state = RunState::new();
    assert_eq!(state.state_label(), "running");
    state.set_running(false);
    assert_eq!(state.state_label(), "stopped");
}

#[test]
fn arch_assets_and_urls() {
    assert_eq!(arch_asset("x86_64").unwrap(), "64");
    assert_eq!(arch_asset("aarch64").unwrap(), "arm64-v8a");
    assert!(matches!(arch_asset("riscv64"), Err(ApiError::SystemError(_))));

    assert_eq!(version_tag("1.8.4"), "v1.8.4");
    assert_eq!(version_tag("v1.8.4"), "v1.8.4");

    assert_eq!(
        download_url("v1.8.4", "64"),
        "https://github.com/XTLS/Xray-core/releases/download/v1.8.4/Xray-linux-64.zip"
    );
}

#[test]
fn version_is_read_from_the_first_line() {
    let out = "Xray 1.8.4 (Xray, Penetrates Everything.)\nA unified platform\n";
    assert_eq!(parse_version_output(out).unwrap(), "v1.8.4");
    assert_eq!(parse_version_output("Xray v25.1.1 extra").unwrap(), "v25.1.1");
    assert_eq!(parse_version_output("word"), None);
    assert_eq!(parse_version_output(""), None);
}
