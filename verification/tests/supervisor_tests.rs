use tunnel_supervisor::supervisor::{
    Action, Event, ExitOutcome, Supervisor,
};
use tunnel_supervisor::types::{Status, StatusEvent};

fn fresh() -> (Supervisor, Vec<StatusEvent>) {
    Supervisor::start("tun1".to_string(), &"example.com".to_string())
}

fn statuses(evs: &[StatusEvent]) -> Vec<Status> {
    evs.iter().map(|e| e.status).collect()
}

#[test]
fn start_announces_the_attempt() {
    let (sup, evs) = fresh();
    assert_eq!(sup.action(), Action::Spawn);
    assert_eq!(evs.len(), 1);
    assert_eq!(evs[0].id, "tun1");
    assert_eq!(evs[0].status, Status::Connecting);
    assert_eq!(evs[0].message, "Initializing...");
}

#[test]
fn spawn_ok_announces_the_target() {
    let (mut sup, _) = fresh();
    let (evs, act) = sup.step(Event::SpawnOk);
    assert_eq!(act, Action::Monitor);
    assert_eq!(evs.len(), 1);
    assert_eq!(evs[0].status, Status::Connecting);
    assert_eq!(evs[0].message, "Connecting to example.com...");
}

#[test]
fn spawn_failure_reports_and_backs_off() {
    let (mut sup, _) = fresh();
    let (evs, act) = sup.step(Event::SpawnFailed("No such file".to_string()));
    assert_eq!(act, Action::Sleep);
    assert_eq!(evs.len(), 2);
    assert_eq!(evs[0].status, Status::Error);
    assert_eq!(evs[0].message, "Failed to start cmd: No such file");
    assert_eq!(evs[1].status, Status::Reconnecting);
    assert_eq!(evs[1].message, "Retrying in 5s...");
}

#[test]
fn established_line_reports_connected() {
    let (mut sup, _) = fresh();
    sup.step(Event::SpawnOk);
    let (evs, act) = sup.step(Event::Line(
        "debug1: Entering interactive session.".to_string(),
    ));
    assert_eq!(act, Action::Monitor);
    assert_eq!(evs.len(), 1);
    assert_eq!(evs[0].status, Status::Connected);
    assert_eq!(evs[0].message, "Tunnel established");
}

#[test]
fn clean_exit_after_informational_lines_reports_one_disconnect() {
    let (mut sup, _) = fresh();
    sup.step(Event::SpawnOk);
    let mut all = Vec::new();
    for line in ["debug1: setup", "debug1: more chatter"] {
        let (evs, _) = sup.step(Event::Line(line.to_string()));
        all.extend(evs);
    }
    let (evs, act) = sup.step(Event::Exited(ExitOutcome::Clean));
    all.extend(evs);
    assert_eq!(act, Action::Sleep);
    assert_eq!(
        statuses(&all),
        vec![Status::Disconnected, Status::Reconnecting]
    );
    assert_eq!(all[0].message, "Closed normally");
}

#[test]
fn fatal_line_suppresses_the_exit_code_error() {
    let (mut sup, _) = fresh();
    sup.step(Event::SpawnOk);
    let mut all = Vec::new();
    let (evs, _) = sup.step(Event::Line("debug1: chatter".to_string()));
    all.extend(evs);
    let (evs, _) = sup.step(Event::Line(
        "user@host: Permission denied (publickey).".to_string(),
    ));
    all.extend(evs);
    let (evs, _) = sup.step(Event::Exited(ExitOutcome::Failed(Some(255))));
    all.extend(evs);
    let errors: Vec<&StatusEvent> = all
        .iter()
        .filter(|e| e.status == Status::Error)
        .collect();
    assert_eq!(errors.len(), 1);
    assert_eq!(errors[0].message, "Auth failed");
    assert_eq!(all.last().unwrap().status, Status::Reconnecting);
}

#[test]
fn port_forward_failure_is_fatal_too() {
    let (mut sup, _) = fresh();
    sup.step(Event::SpawnOk);
    let (evs, _) = sup.step(Event::Line(
        "Warning: remote port forwarding failed for listen port 80".to_string(),
    ));
    assert_eq!(evs[0].status, Status::Error);
    assert_eq!(evs[0].message, "Remote port unavailable");
    let (evs, _) = sup.step(Event::Exited(ExitOutcome::Failed(Some(1))));
    assert_eq!(statuses(&evs), vec![Status::Reconnecting]);
}

#[test]
fn failure_exit_reports_the_code() {
    let (mut sup, _) = fresh();
    sup.step(Event::SpawnOk);
    let (evs, _) = sup.step(Event::Exited(ExitOutcome::Failed(Some(255))));
    assert_eq!(evs[0].status, Status::Error);
    assert_eq!(evs[0].message, "Exited code: Some(255)");
    assert_eq!(evs[1].status, Status::Reconnecting);
}

#[test]
fn failure_exit_without_code_says_none() {
    let (mut sup, _) = fresh();
    sup.step(Event::SpawnOk);
    let (evs, _) = sup.step(Event::Exited(ExitOutcome::Failed(None)));
    assert_eq!(evs[0].message, "Exited code: None");
}

#[test]
fn negative_exit_code_is_rendered_with_sign() {
    let (mut sup, _) = fresh();
    sup.step(Event::SpawnOk);
    let (evs, _) = sup.step(Event::Exited(ExitOutcome::Failed(Some(-7))));
    assert_eq!(evs[0].message, "Exited code: Some(-7)");
}

#[test]
fn wait_failure_reports_even_after_fatal() {
    let (mut sup, _) = fresh();
    sup.step(Event::SpawnOk);
    sup.step(Event::Line("Permission denied".to_string()));
    let (evs, _) = sup.step(Event::Exited(ExitOutcome::WaitFailed(
        "interrupted".to_string(),
    )));
    assert_eq!(evs[0].status, Status::Error);
    assert_eq!(evs[0].message, "Wait error: interrupted");
}

#[test]
fn stream_end_is_not_terminal() {
    let (mut sup, _) = fresh();
    sup.step(Event::SpawnOk);
    let (evs, act) = sup.step(Event::StreamEnded);
    assert!(evs.is_empty());
    assert_eq!(act, Action::AwaitExit);
    // The exit observed afterwards is classified exactly as it would
    // have been while the stream was still open.
    let (evs, act) = sup.step(Event::Exited(ExitOutcome::Failed(Some(1))));
    assert_eq!(statuses(&evs), vec![Status::Error, Status::Reconnecting]);
    assert_eq!(evs[0].message, "Exited code: Some(1)");
    assert_eq!(act, Action::Sleep);
}

#[test]
fn clean_exit_after_stream_end_still_reports_one_disconnect() {
    let (mut sup, _) = fresh();
    sup.step(Event::SpawnOk);
    sup.step(Event::Line("debug1: chatter".to_string()));
    sup.step(Event::StreamEnded);
    let (evs, act) = sup.step(Event::Exited(ExitOutcome::Clean));
    assert_eq!(
        statuses(&evs),
        vec![Status::Disconnected, Status::Reconnecting]
    );
    assert_eq!(evs[0].message, "Closed normally");
    assert_eq!(act, Action::Sleep);
}

#[test]
fn fatal_suppression_survives_the_stream_ending_first() {
    let (mut sup, _) = fresh();
    sup.step(Event::SpawnOk);
    sup.step(Event::Line("Permission denied (publickey).".to_string()));
    sup.step(Event::StreamEnded);
    let (evs, _) = sup.step(Event::Exited(ExitOutcome::Failed(Some(255))));
    assert_eq!(statuses(&evs), vec![Status::Reconnecting]);
}

#[test]
fn cancellation_while_monitoring_kills_the_process() {
    let (mut sup, _) = fresh();
    sup.step(Event::SpawnOk);
    let (evs, act) = sup.step(Event::Cancelled);
    assert_eq!(act, Action::Kill);
    assert_eq!(evs.len(), 1);
    assert_eq!(evs[0].status, Status::Disconnected);
    assert_eq!(evs[0].message, "User disconnected");
}

#[test]
fn cancellation_during_backoff_ends_the_loop_at_once() {
    let (mut sup, _) = fresh();
    sup.step(Event::SpawnOk);
    sup.step(Event::Exited(ExitOutcome::Failed(Some(1))));
    let (evs, act) = sup.step(Event::Cancelled);
    assert_eq!(act, Action::Stop);
    assert_eq!(evs.len(), 1);
    assert_eq!(evs[0].status, Status::Disconnected);
    assert_eq!(evs[0].message, "User disconnected");
}

#[test]
fn cancellation_before_spawn_needs_no_kill() {
    let (mut sup, _) = fresh();
    let (evs, act) = sup.step(Event::Cancelled);
    assert_eq!(act, Action::Stop);
    assert_eq!(statuses(&evs), vec![Status::Disconnected]);
}

#[test]
fn nothing_follows_the_final_disconnect() {
    let (mut sup, _) = fresh();
    sup.step(Event::SpawnOk);
    sup.step(Event::Cancelled);
    let (evs, act) = sup.step(Event::Exited(ExitOutcome::Clean));
    assert!(evs.is_empty());
    assert_eq!(act, Action::Stop);
    let (evs, act) = sup.step(Event::BackoffElapsed);
    assert!(evs.is_empty());
    assert_eq!(act, Action::Stop);
}

#[test]
fn a_new_attempt_forgets_the_old_fatal_flag() {
    let (mut sup, _) = fresh();
    sup.step(Event::SpawnOk);
    sup.step(Event::Line("Permission denied".to_string()));
    sup.step(Event::Exited(ExitOutcome::Failed(Some(255))));
    sup.step(Event::BackoffElapsed);
    sup.step(Event::SpawnOk);
    let (evs, _) = sup.step(Event::Exited(ExitOutcome::Failed(Some(1))));
    assert_eq!(evs[0].status, Status::Error);
    assert_eq!(evs[0].message, "Exited code: Some(1)");
}

#[test]
fn always_failing_process_repeats_the_same_three_statuses() {
    let (mut sup, opening) = fresh();
    let mut all = opening;
    for round in 0..3 {
        if round > 0 {
            let (evs, _) = sup.step(Event::BackoffElapsed);
            all.extend(evs);
        }
        let (evs, _) = sup.step(Event::SpawnOk);
        all.extend(evs);
        let (evs, act) = sup.step(Event::Exited(ExitOutcome::Failed(Some(1))));
        all.extend(evs);
        assert_eq!(act, Action::Sleep);
    }
    let mut merged: Vec<Status> = Vec::new();
    for s in statuses(&all) {
        if merged.last() != Some(&s) {
            merged.push(s);
        }
    }
    let round = [Status::Connecting, Status::Error, Status::Reconnecting];
    let expected: Vec<Status> = round.iter().cloned().cycle().take(9).collect();
    assert_eq!(merged, expected);
}
