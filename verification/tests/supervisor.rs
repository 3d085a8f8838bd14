use mcp_supervisor::bridge::Bridge;
use mcp_supervisor::error::SupervisorError;
use mcp_supervisor::supervisor::SpawnOutcome;
use mcp_supervisor::supervisor::Supervisor;
use mcp_supervisor::supervisor::write_report;

#[test]
fn start_then_lookup_finds_live_handle() {
    let mut sup = Supervisor::new();
    let r = sup.start(
        String::from("srv"),
        String::from("cat"),
        vec![String::from("-u")],
        SpawnOutcome::Spawned(4242),
    );
    assert_eq!(r, Ok(None));
    let name = String::from("srv");
    assert!(sup.is_running(&name));
    let h = sup.lookup(&name).expect("handle must be registered");
    assert_eq!(h.name, "srv");
    assert_eq!(h.pid, 4242);
    assert_eq!(h.command, "cat");
    assert_eq!(h.args, vec![String::from("-u")]);
    assert_eq!(sup.running_count(), 1);
}

#[test]
fn failed_start_leaves_registry_untouched() {
    let mut sup = Supervisor::new();
    let before = sup.running_count();
    let r = sup.start(
        String::from("ghost"),
        String::from("no-such-binary"),
        Vec::new(),
        SpawnOutcome::Failed,
    );
    assert_eq!(r, Err(SupervisorError::SpawnFailure));
    assert_eq!(sup.running_count(), before);
    assert!(!sup.is_running(&String::from("ghost")));
}

#[test]
fn restart_under_same_name_replaces_and_reports_old_pid() {
    let mut sup = Supervisor::new();
    let r1 = sup.start(
        String::from("srv"),
        String::from("cat"),
        Vec::new(),
        SpawnOutcome::Spawned(100),
    );
    assert_eq!(r1, Ok(None));
    let r2 = sup.start(
        String::from("srv"),
        String::from("cat"),
        Vec::new(),
        SpawnOutcome::Spawned(200),
    );
    assert_eq!(r2, Ok(Some(100)));
    assert_eq!(sup.running_count(), 1);
    assert_eq!(sup.lookup(&String::from("srv")).unwrap().pid, 200);
}

#[test]
fn send_frames_message_with_line_terminator() {
    let mut sup = Supervisor::new();
    sup.start(
        String::from("echo1"),
        String::from("cat"),
        Vec::new(),
        SpawnOutcome::Spawned(7),
    )
    .unwrap();
    let action = sup
        .send(&String::from("echo1"), &String::from("ping"))
        .expect("send to a running name must succeed");
    assert_eq!(action.pid, 7);
    assert_eq!(action.bytes, vec![b'p', b'i', b'n', b'g', b'\n']);
}

#[test]
fn send_of_empty_message_frames_bare_terminator() {
    let mut sup = Supervisor::new();
    sup.start(
        String::from("srv"),
        String::from("cat"),
        Vec::new(),
        SpawnOutcome::Spawned(5),
    )
    .unwrap();
    let action = sup.send(&String::from("srv"), &String::new()).unwrap();
    assert_eq!(action.bytes, vec![b'\n']);
}

#[test]
fn send_to_unknown_name_fails_with_not_found() {
    let sup = Supervisor::new();
    let r = sup.send(&String::from("nobody"), &String::from("ping"));
    assert!(matches!(r, Err(SupervisorError::NotFound)));
}

#[test]
fn send_after_stop_fails_with_not_found() {
    let mut sup = Supervisor::new();
    sup.start(
        String::from("srv"),
        String::from("cat"),
        Vec::new(),
        SpawnOutcome::Spawned(9),
    )
    .unwrap();
    sup.stop(&String::from("srv")).unwrap();
    let r = sup.send(&String::from("srv"), &String::from("ping"));
    assert!(matches!(r, Err(SupervisorError::NotFound)));
}

#[test]
fn second_stop_reports_not_found_and_does_nothing() {
    let mut sup = Supervisor::new();
    sup.start(
        String::from("srv"),
        String::from("cat"),
        Vec::new(),
        SpawnOutcome::Spawned(11),
    )
    .unwrap();
    let first = sup.stop(&String::from("srv"));
    assert_eq!(first, Ok(11));
    let second = sup.stop(&String::from("srv"));
    assert_eq!(second, Err(SupervisorError::NotFound));
    assert_eq!(sup.running_count(), 0);
}

#[test]
fn reap_removes_only_the_same_process() {
    let mut sup = Supervisor::new();
    sup.start(
        String::from("srv"),
        String::from("cat"),
        Vec::new(),
        SpawnOutcome::Spawned(21),
    )
    .unwrap();
    // A stale bridge for an earlier pid must not unregister the live process.
    assert!(!sup.reap(&String::from("srv"), 20));
    assert!(sup.is_running(&String::from("srv")));
    // The bridge of the current process may reap it once its stream ends.
    assert!(sup.reap(&String::from("srv"), 21));
    assert!(!sup.is_running(&String::from("srv")));
    // Reaping an unregistered name does nothing.
    assert!(!sup.reap(&String::from("srv"), 21));
}

#[test]
fn write_report_surfaces_pipe_closed() {
    assert_eq!(write_report(true), Ok(()));
    assert_eq!(write_report(false), Err(SupervisorError::PipeClosed));
}

#[test]
fn error_descriptions_are_stable() {
    assert_eq!(SupervisorError::SpawnFailure.describe(), "failed to start process");
    assert_eq!(SupervisorError::NotFound.describe(), "no process found with that name");
    assert_eq!(SupervisorError::PipeClosed.describe(), "process input pipe is closed");
    assert_eq!(SupervisorError::Internal.describe(), "registry guard failure");
}

#[test]
fn echo_scenario_round_trip() {
    // start("echo1", "cat", "") against a line-echo program, send "hello",
    // observe exactly one event {echo1, hello}, stop, and the registry shows
    // the name absent.
    let mut sup = Supervisor::new();
    let r = sup.start(
        String::from("echo1"),
        String::from("cat"),
        vec![String::new()],
        SpawnOutcome::Spawned(77),
    );
    assert_eq!(r, Ok(None));
    let action = sup
        .send(&String::from("echo1"), &String::from("hello"))
        .expect("send must reach the running echo process");
    assert_eq!(action.pid, 77);
    // The echo process writes the framed line back to its output verbatim.
    let mut bridge = Bridge::new(String::from("echo1"));
    let events = bridge.push_bytes(action.bytes.as_slice());
    assert_eq!(events.len(), 1);
    assert_eq!(events[0].name, "echo1");
    assert_eq!(events[0].chunk, "hello");
    assert!(bridge.finish().is_none());
    let stopped = sup.stop(&String::from("echo1"));
    assert_eq!(stopped, Ok(77));
    assert!(!sup.is_running(&String::from("echo1")));
}
