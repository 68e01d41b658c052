use native_api::monitor::run_monitor;
use native_api::monitor::ChannelItem;
use native_api::monitor::Event;
use native_api::monitor::Monitor;
use native_api::monitor::OutputStream;
use native_api::pid::parse_pid;
use native_api::registry::Registry;
use native_api::supervisor::kill;
use native_api::supervisor::plan_spawn;
use native_api::supervisor::record_spawn;
use native_api::supervisor::spawn_failure;
use native_api::supervisor::spawn_request_from_args;
use native_api::supervisor::SpawnRequest;

#[derive(Debug, PartialEq)]
struct FakeChild {
    id: u32,
}

fn out(s: &str) -> Option<ChannelItem> {
    Some(ChannelItem::Stdout(s.to_string()))
}

#[test]
fn insert_makes_pid_present_once() {
    let mut reg: Registry<FakeChild> = Registry::new();
    assert_eq!(reg.len(), 0);
    reg.insert(100, FakeChild { id: 100 });
    assert!(reg.contains(100));
    assert_eq!(reg.len(), 1);
    reg.insert(200, FakeChild { id: 200 });
    assert_eq!(reg.len(), 2);
    assert_eq!(reg.remove(100), Some(FakeChild { id: 100 }));
    assert!(!reg.contains(100));
    assert_eq!(reg.remove(100), None);
    assert!(reg.contains(200));
}

#[test]
fn remove_hands_out_handle_once() {
    let mut reg: Registry<FakeChild> = Registry::new();
    reg.insert(7, FakeChild { id: 7 });
    let first = reg.remove(7);
    let second = reg.remove(7);
    assert_eq!(first, Some(FakeChild { id: 7 }));
    assert_eq!(second, None);
    assert_eq!(reg.len(), 0);
}

#[test]
fn kill_long_running_then_terminates() {
    let mut reg: Registry<FakeChild> = Registry::new();
    reg.insert(4242, FakeChild { id: 4242 });
    assert_eq!(reg.len(), 1);
    let mut monitor = Monitor::new(4242);
    let handle = kill(&mut reg, "4242");
    assert_eq!(handle, Some(FakeChild { id: 4242 }));
    // The killed process's channel then reports its end.
    let step = monitor.step(Some(ChannelItem::Terminated(None, Some(9))));
    match step.event {
        Some(Event::Termination { pid, code, signal }) => {
            assert_eq!(pid, 4242);
            assert_eq!(code, 0);
            assert_eq!(signal, 9);
        }
        _ => panic!("expected a termination event"),
    }
    assert!(step.deregister);
    assert_eq!(reg.remove(4242), None);
    assert_eq!(reg.len(), 0);
    let after = monitor.step(None);
    assert!(after.event.is_none());
    assert!(!after.deregister);
}

#[test]
fn spawn_failure_has_message_and_registers_nothing() {
    let reg: Registry<FakeChild> = Registry::new();
    let err = spawn_failure("No such file or directory (os error 2)".to_string());
    assert_eq!(err.message, "No such file or directory (os error 2)");
    assert!(!err.message.is_empty());
    assert_eq!(reg.len(), 0);
    let empty = spawn_failure(String::new());
    assert!(!empty.message.is_empty());
}

#[test]
fn killing_first_of_two_leaves_second() {
    let mut reg: Registry<FakeChild> = Registry::new();
    reg.insert(11, FakeChild { id: 11 });
    reg.insert(12, FakeChild { id: 12 });
    assert_eq!(reg.len(), 2);
    assert_eq!(kill(&mut reg, "11"), Some(FakeChild { id: 11 }));
    assert!(reg.contains(12));
    assert!(!reg.contains(11));
    let mut second = Monitor::new(12);
    let step = second.step(out("still running"));
    match step.event {
        Some(Event::Output { pid, stream, data }) => {
            assert_eq!(pid, 12);
            assert_eq!(stream, OutputStream::Stdout);
            assert_eq!(data, "still running");
        }
        _ => panic!("expected an output event"),
    }
    assert!(!step.deregister);
}

#[test]
fn shutdown_drains_three() {
    let mut reg: Registry<FakeChild> = Registry::new();
    reg.insert(1, FakeChild { id: 1 });
    reg.insert(2, FakeChild { id: 2 });
    reg.insert(3, FakeChild { id: 3 });
    let drained = reg.drain_all();
    assert_eq!(reg.len(), 0);
    let mut pids: Vec<u32> = drained.iter().map(|e| e.0).collect();
    pids.sort();
    assert_eq!(pids, vec![1, 2, 3]);
    for (pid, child) in &drained {
        assert_eq!(*pid, child.id);
    }
    assert_eq!(kill(&mut reg, "2"), None);
}

#[test]
fn kill_racing_shutdown_hands_each_out_once() {
    let mut reg: Registry<FakeChild> = Registry::new();
    reg.insert(1, FakeChild { id: 1 });
    reg.insert(2, FakeChild { id: 2 });
    reg.insert(3, FakeChild { id: 3 });
    let killed = kill(&mut reg, "2");
    let drained = reg.drain_all();
    assert_eq!(killed, Some(FakeChild { id: 2 }));
    let mut pids: Vec<u32> = drained.iter().map(|e| e.0).collect();
    pids.sort();
    assert_eq!(pids, vec![1, 3]);
    assert_eq!(reg.len(), 0);
}

#[test]
fn kill_is_idempotent() {
    let mut reg: Registry<FakeChild> = Registry::new();
    reg.insert(55, FakeChild { id: 55 });
    assert_eq!(kill(&mut reg, "55"), Some(FakeChild { id: 55 }));
    assert_eq!(kill(&mut reg, "55"), None);
    assert_eq!(kill(&mut reg, "999"), None);
    assert_eq!(reg.len(), 0);
}

#[test]
fn kill_needs_canonical_text() {
    let mut reg: Registry<FakeChild> = Registry::new();
    reg.insert(7, FakeChild { id: 7 });
    assert_eq!(kill(&mut reg, "007"), None);
    assert_eq!(kill(&mut reg, "+7"), None);
    assert_eq!(kill(&mut reg, ""), None);
    assert!(reg.contains(7));
    assert_eq!(kill(&mut reg, "7"), Some(FakeChild { id: 7 }));
}

#[test]
fn parse_pid_cases() {
    assert_eq!(parse_pid("0"), Some(0));
    assert_eq!(parse_pid("123"), Some(123));
    assert_eq!(parse_pid("4294967295"), Some(4294967295));
    assert_eq!(parse_pid("4294967296"), None);
    assert_eq!(parse_pid("99999999999999999999"), None);
    assert_eq!(parse_pid("01"), None);
    assert_eq!(parse_pid("12a"), None);
    assert_eq!(parse_pid(""), None);
    assert_eq!(parse_pid("-1"), None);
}

#[test]
fn natural_termination_emits_one_termination_last() {
    let items = vec![
        out("building"),
        Some(ChannelItem::Stderr("warning".to_string())),
        Some(ChannelItem::Error("io".to_string())),
        Some(ChannelItem::Terminated(Some(3), None)),
        out("late"),
        None,
    ];
    let (events, deregistered) = run_monitor(31, items);
    assert_eq!(events.len(), 4);
    assert_eq!(deregistered, 1);
    let terminations = events.iter().filter(|e| matches!(e, Event::Termination { .. })).count();
    assert_eq!(terminations, 1);
    match &events[3] {
        Event::Termination { pid, code, signal } => {
            assert_eq!(*pid, 31);
            assert_eq!(*code, 3);
            assert_eq!(*signal, 0);
        }
        _ => panic!("expected the termination last"),
    }
    assert!(matches!(&events[1], Event::Output { stream: OutputStream::Stderr, .. }));
    assert!(matches!(&events[2], Event::Output { stream: OutputStream::Stderr, .. }));
    for e in &events {
        assert_eq!(e.pid(), 31);
    }
}

#[test]
fn closed_channel_deregisters_without_termination() {
    let (events, deregistered) = run_monitor(8, vec![out("a"), None, out("b")]);
    assert_eq!(events.len(), 1);
    assert_eq!(deregistered, 1);
    let (none, zero) = run_monitor(8, vec![]);
    assert!(none.is_empty());
    assert_eq!(zero, 0);
}

#[test]
fn events_never_cross_tagged() {
    let (a, _) = run_monitor(100, vec![out("a1"), out("a2"), Some(ChannelItem::Terminated(Some(0), None))]);
    let (b, _) = run_monitor(200, vec![out("b1"), Some(ChannelItem::Terminated(None, None))]);
    assert!(a.iter().all(|e| e.pid() == 100));
    assert!(b.iter().all(|e| e.pid() == 200));
    assert_eq!(a.len(), 3);
    assert_eq!(b.len(), 2);
}

#[test]
fn plan_spawn_sets_runtime_only_when_given() {
    let req = SpawnRequest {
        working_dir: "/work/scaffold".to_string(),
        runtime_home: String::new(),
        args: vec!["run".to_string(), "-PteamA=x".to_string()],
    };
    let plan = plan_spawn(req, false);
    assert_eq!(plan.program, "/work/scaffold/gradlew");
    assert_eq!(plan.working_dir, "/work/scaffold");
    assert_eq!(plan.args, vec!["run".to_string(), "-PteamA=x".to_string()]);
    assert!(plan.env.is_none());

    let req = SpawnRequest {
        working_dir: "/work/scaffold".to_string(),
        runtime_home: "/opt/jdk8".to_string(),
        args: vec![],
    };
    let plan = plan_spawn(req, true);
    assert_eq!(plan.program, "/work/scaffold/gradlew.bat");
    assert_eq!(plan.env, Some(("JAVA_HOME".to_string(), "/opt/jdk8".to_string())));
}

#[test]
fn spawn_request_reads_arguments() {
    let args = vec![
        "/work/scaffold".to_string(),
        "/opt/jdk8".to_string(),
        "headless".to_string(),
        "-x".to_string(),
    ];
    let req = spawn_request_from_args(args);
    assert_eq!(req.working_dir, "/work/scaffold");
    assert_eq!(req.runtime_home, "/opt/jdk8");
    assert_eq!(req.args, vec!["headless".to_string(), "-x".to_string()]);
}

#[test]
fn recorded_spawn_is_registered_once() {
    let mut reg: Registry<FakeChild> = Registry::new();
    let r = record_spawn(&mut reg, Ok((901, FakeChild { id: 901 })));
    assert_eq!(r.ok(), Some(901));
    assert!(reg.contains(901));
    assert_eq!(reg.len(), 1);
    let r = record_spawn(&mut reg, Ok((902, FakeChild { id: 902 })));
    assert_eq!(r.ok(), Some(902));
    assert_eq!(reg.len(), 2);
    assert_eq!(reg.remove(901), Some(FakeChild { id: 901 }));
    assert_eq!(reg.remove(901), None);
}

#[test]
fn failed_spawn_registers_nothing() {
    let mut reg: Registry<FakeChild> = Registry::new();
    let r = record_spawn(&mut reg, Err("No such file or directory (os error 2)".to_string()));
    match r {
        Err(e) => assert_eq!(e.message, "No such file or directory (os error 2)"),
        Ok(_) => panic!("expected a spawn error"),
    }
    assert_eq!(reg.len(), 0);
    let r = record_spawn(&mut reg, Err(String::new()));
    match r {
        Err(e) => assert!(!e.message.is_empty()),
        Ok(_) => panic!("expected a spawn error"),
    }
    assert_eq!(reg.len(), 0);
}
