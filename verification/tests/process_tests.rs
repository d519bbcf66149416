use ct_codex_bridge::process::{
    parse_pids, restart_codex, CommandOutcome, RestartAction, RestartEvent, RestartStage, CLOSE_TIMEOUT_MS,
    POLL_INTERVAL_MS,
};

#[test]
fn pgrep_output_is_parsed_sorted_and_deduplicated() {
    assert_eq!(parse_pids("300\n12\n 300 \nabc\n0\n77\n", true, 77), vec![12, 300]);
    assert_eq!(parse_pids("", false, 1), Vec::<u32>::new());
    assert_eq!(parse_pids("5\n", false, 1), vec![5]);
    assert_eq!(parse_pids("4294967296\n-1\n4294967295", true, 1), vec![4294967295]);
}

fn finish_error(action: RestartAction) -> String {
    match action {
        RestartAction::Finish { result: Err(m) } => m,
        other => panic!("unexpected {other:?}"),
    }
}

#[test]
fn restart_with_no_running_codex_opens_the_bundle_root() {
    let mut r = restart_codex("/Applications/Codex.app/Contents/MacOS/Codex");
    assert!(r.pids.is_empty());
    assert_eq!(r.next, 0);
    assert_eq!(r.app_root, "/Applications/Codex.app");
    assert!(matches!(r.step(RestartEvent::Start), RestartAction::ListPids));
    match r.step(RestartEvent::Pids(Ok(vec![]))) {
        RestartAction::AppExists { path } => assert_eq!(path, "/Applications/Codex.app"),
        other => panic!("unexpected {other:?}"),
    }
    match r.step(RestartEvent::Exists(true)) {
        RestartAction::Open { path } => assert_eq!(path, "/Applications/Codex.app"),
        other => panic!("unexpected {other:?}"),
    }
    assert!(matches!(
        r.step(RestartEvent::Ran(CommandOutcome::Succeeded)),
        RestartAction::Finish { result: Ok(true) }
    ));
    assert!(r.is_finished());
}

#[test]
fn restart_closes_each_process_before_opening() {
    let mut r = restart_codex("/opt/elsewhere");
    r.step(RestartEvent::Start);
    assert!(matches!(r.step(RestartEvent::Pids(Ok(vec![10, 20]))), RestartAction::IsRunning { pid: 10 }));
    assert!(matches!(r.stage, RestartStage::Checking));
    assert!(matches!(r.step(RestartEvent::Running(false)), RestartAction::IsRunning { pid: 20 }));
    assert!(matches!(r.stage, RestartStage::Checking));
    assert_eq!(r.next, 1);
    assert!(matches!(r.step(RestartEvent::Running(true)), RestartAction::Terminate { pid: 20 }));
    assert!(matches!(r.stage, RestartStage::Terminating));
    assert_eq!(r.pids, vec![10, 20]);
    assert!(matches!(r.step(RestartEvent::Ran(CommandOutcome::Succeeded)), RestartAction::Elapsed));
    assert!(matches!(r.step(RestartEvent::ElapsedMillis(0)), RestartAction::IsRunning { pid: 20 }));
    match r.step(RestartEvent::Running(true)) {
        RestartAction::Sleep { millis } => assert_eq!(millis, POLL_INTERVAL_MS),
        other => panic!("unexpected {other:?}"),
    }
    assert!(matches!(r.step(RestartEvent::Slept), RestartAction::Elapsed));
    assert!(matches!(r.step(RestartEvent::ElapsedMillis(400)), RestartAction::IsRunning { pid: 20 }));
    match r.step(RestartEvent::Running(false)) {
        RestartAction::AppExists { path } => assert_eq!(path, "/Applications/Codex.app"),
        other => panic!("unexpected {other:?}"),
    }
    let m = finish_error(r.step(RestartEvent::Exists(false)));
    assert_eq!(m, "Codex.app not found at /Applications/Codex.app");
}

#[test]
fn restart_failures_are_reported() {
    let mut r = restart_codex("/A/Codex.app");
    r.step(RestartEvent::Start);
    r.step(RestartEvent::Pids(Ok(vec![7])));
    r.step(RestartEvent::Running(true));
    r.step(RestartEvent::Ran(CommandOutcome::Succeeded));
    let m = finish_error(r.step(RestartEvent::ElapsedMillis(CLOSE_TIMEOUT_MS)));
    assert_eq!(m, "Codex process 7 did not exit within 20s");

    let mut r = restart_codex("/A/Codex.app");
    r.step(RestartEvent::Start);
    r.step(RestartEvent::Pids(Ok(vec![8])));
    r.step(RestartEvent::Running(true));
    let m = finish_error(r.step(RestartEvent::Ran(CommandOutcome::Failed(" denied \n".to_string()))));
    assert_eq!(m, "kill -15 8 failed: denied");

    let mut r = restart_codex("/A/Codex.app");
    r.step(RestartEvent::Start);
    r.step(RestartEvent::Pids(Ok(vec![8])));
    r.step(RestartEvent::Running(true));
    let m = finish_error(r.step(RestartEvent::Ran(CommandOutcome::NotStarted("no kill".to_string()))));
    assert_eq!(m, "run kill -15 8: no kill");

    let mut r = restart_codex("/A/Codex.app");
    r.step(RestartEvent::Start);
    let m = finish_error(r.step(RestartEvent::Pids(Err("run pgrep: x".to_string()))));
    assert_eq!(m, "run pgrep: x");

    let mut r = restart_codex("/A/Codex.app");
    r.step(RestartEvent::Start);
    r.step(RestartEvent::Pids(Ok(vec![])));
    r.step(RestartEvent::Exists(true));
    let m = finish_error(r.step(RestartEvent::Ran(CommandOutcome::Failed("bad\n".to_string()))));
    assert_eq!(m, "open Codex failed: bad");

    let mut r = restart_codex("/A/Codex.app");
    r.step(RestartEvent::Start);
    r.step(RestartEvent::Pids(Ok(vec![])));
    r.step(RestartEvent::Exists(true));
    let m = finish_error(r.step(RestartEvent::Ran(CommandOutcome::NotStarted("nope".to_string()))));
    assert_eq!(m, "run open -n -a /A/Codex.app: nope");
}
