use refresh::fingerprint::PathAndHash;
use refresh::slot::Deploy;
use refresh::supervisor::{Action, Event, Supervisor};

fn listed(text: &str) -> PathAndHash {
    PathAndHash::new(text.to_string())
}

fn advance(supervisor: Supervisor, event: Event, expected: Action) -> Supervisor {
    let (supervisor, action) = supervisor.step(event);
    assert_eq!(action, Some(expected));
    supervisor
}

/// Runs one whole cycle that materializes `files` and starts child `pid`.
fn run_cycle(mut supervisor: Supervisor, files: &[(&str, &str, &[u8])], pid: u32) -> Supervisor {
    let target = supervisor.active().other();
    let old = supervisor.previous_child_pid();
    supervisor = advance(supervisor, Event::Wakeup, Action::ResetDirectory { slot: target });
    supervisor = advance(supervisor, Event::DirectoryReady, Action::ReadLatest);
    supervisor = advance(
        supervisor,
        Event::Latest { revision_id: "R".to_string() },
        Action::ListManifest { revision_id: "R".to_string() },
    );
    let manifest: Vec<PathAndHash> = files.iter().map(|file| listed(file.0)).collect();
    let spawn = Action::Spawn { slot: target, port: target.listen_port() };
    let mut event = Event::Manifest { files: manifest };
    for file in files {
        supervisor =
            advance(supervisor, event, Action::FetchBlob { path_and_hash: listed(file.0) });
        supervisor = advance(
            supervisor,
            Event::Blob { data: file.2.to_vec() },
            Action::WriteFile { slot: target, path: file.1.to_string(), data: file.2.to_vec() },
        );
        event = Event::Written;
    }
    supervisor = advance(supervisor, event, spawn);
    supervisor = advance(supervisor, Event::Spawned { pid }, Action::Activate { slot: target });
    assert_eq!(supervisor.active(), target.other());
    match old {
        Some(old) => {
            supervisor = advance(supervisor, Event::Activated, Action::Terminate { pid: old });
            assert!(!supervisor.is_idle());
            supervisor = advance(supervisor, Event::Terminated, Action::Wait);
        }
        None => {
            supervisor = advance(supervisor, Event::Activated, Action::Wait);
        }
    }
    assert!(supervisor.is_idle());
    assert_eq!(supervisor.active(), target);
    assert_eq!(supervisor.previous_child_pid(), Some(pid));
    supervisor
}

#[test]
fn slots_have_fixed_ports_and_directories() {
    assert_eq!(Deploy::Blue.listen_port(), 3001);
    assert_eq!(Deploy::Green.listen_port(), 3002);
    assert_eq!(Deploy::Blue.temp_path(), "/tmp/refresh-blue");
    assert_eq!(Deploy::Green.temp_path(), "/tmp/refresh-green");
    assert_eq!(Deploy::Blue.other(), Deploy::Green);
    assert_eq!(Deploy::Green.other(), Deploy::Blue);
}

#[test]
fn supervisor_starts_idle_on_blue_without_child() {
    let supervisor = Supervisor::new();
    assert_eq!(supervisor.active(), Deploy::Blue);
    assert_eq!(supervisor.previous_child_pid(), None);
    assert!(supervisor.is_idle());
}

#[test]
fn first_cycle_materializes_green_and_switches_to_it() {
    let supervisor = Supervisor::new();
    let supervisor = run_cycle(
        supervisor,
        &[("a.txt#00000000000000aa", "a.txt", b"hi"), ("sub/b.txt#00000000000000bb", "sub/b.txt", b"yo")],
        41,
    );
    assert_eq!(supervisor.active(), Deploy::Green);
    assert_eq!(supervisor.previous_child_pid(), Some(41));
}

#[test]
fn activation_fills_green_starts_child_switches_and_signals_blue_child() {
    // Bring the supervisor to "active = Blue with a running child".
    let supervisor = run_cycle(Supervisor::new(), &[], 10);
    let supervisor = run_cycle(supervisor, &[], 11);
    assert_eq!(supervisor.active(), Deploy::Blue);
    assert_eq!(supervisor.previous_child_pid(), Some(11));

    // A revision R was published: the change bus fires.
    let supervisor =
        advance(supervisor, Event::Wakeup, Action::ResetDirectory { slot: Deploy::Green });
    let supervisor = advance(supervisor, Event::DirectoryReady, Action::ReadLatest);
    let supervisor = advance(
        supervisor,
        Event::Latest { revision_id: "R".to_string() },
        Action::ListManifest { revision_id: "R".to_string() },
    );
    let supervisor = advance(
        supervisor,
        Event::Manifest { files: vec![listed("main.ts#0000000000000001")] },
        Action::FetchBlob { path_and_hash: listed("main.ts#0000000000000001") },
    );
    let supervisor = advance(
        supervisor,
        Event::Blob { data: b"serve()".to_vec() },
        Action::WriteFile {
            slot: Deploy::Green,
            path: "main.ts".to_string(),
            data: b"serve()".to_vec(),
        },
    );
    let supervisor =
        advance(supervisor, Event::Written, Action::Spawn { slot: Deploy::Green, port: 3002 });
    // Until the switch is confirmed, blue stays active.
    let supervisor =
        advance(supervisor, Event::Spawned { pid: 12 }, Action::Activate { slot: Deploy::Green });
    assert_eq!(supervisor.active(), Deploy::Blue);
    let supervisor = advance(supervisor, Event::Activated, Action::Terminate { pid: 11 });
    assert_eq!(supervisor.active(), Deploy::Green);
    assert_eq!(supervisor.previous_child_pid(), Some(12));
    let supervisor = advance(supervisor, Event::Terminated, Action::Wait);
    assert!(supervisor.is_idle());
}

#[test]
fn connection_keeps_the_port_sampled_at_accept() {
    let supervisor = run_cycle(Supervisor::new(), &[], 10);
    let supervisor = run_cycle(supervisor, &[], 11);
    assert_eq!(supervisor.active(), Deploy::Blue);
    // Connection X is accepted while blue is active.
    let port_of_x = supervisor.active().listen_port();
    let supervisor = run_cycle(supervisor, &[], 12);
    // X stays where it is; connection Y, accepted after the switch, goes to green.
    let port_of_y = supervisor.active().listen_port();
    assert_eq!(port_of_x, 3001);
    assert_eq!(port_of_y, 3002);
}

#[test]
fn active_slot_toggles_once_per_cycle() {
    let mut supervisor = Supervisor::new();
    let expected = [Deploy::Green, Deploy::Blue, Deploy::Green, Deploy::Blue];
    let mut pid = 100;
    for slot in expected {
        supervisor = run_cycle(supervisor, &[("f#0", "f", b"x")], pid);
        assert_eq!(supervisor.active(), slot);
        pid += 1;
    }
}

#[test]
fn empty_manifest_goes_straight_to_spawn() {
    let supervisor = Supervisor::new();
    let (supervisor, _) = supervisor.step(Event::Wakeup);
    let (supervisor, _) = supervisor.step(Event::DirectoryReady);
    let (supervisor, _) = supervisor.step(Event::Latest { revision_id: "R".to_string() });
    let (_, action) = supervisor.step(Event::Manifest { files: vec![] });
    assert_eq!(action, Some(Action::Spawn { slot: Deploy::Green, port: 3002 }));
}

#[test]
fn malformed_fingerprint_in_manifest_abandons_the_cycle() {
    for bad in ["no-separator", "two#sepa#rators", ""] {
        let supervisor = Supervisor::new();
        let (supervisor, _) = supervisor.step(Event::Wakeup);
        let (supervisor, _) = supervisor.step(Event::DirectoryReady);
        let (supervisor, _) = supervisor.step(Event::Latest { revision_id: "R".to_string() });
        let (supervisor, action) =
            supervisor.step(Event::Manifest { files: vec![listed("ok#1"), listed(bad)] });
        assert_eq!(action, Some(Action::Wait));
        assert!(supervisor.is_idle());
        assert_eq!(supervisor.active(), Deploy::Blue);
        assert_eq!(supervisor.previous_child_pid(), None);
    }
}

#[test]
fn failure_abandons_the_cycle_and_keeps_the_active_slot() {
    let prefixes: Vec<Vec<Event>> = vec![
        vec![Event::Wakeup],
        vec![Event::Wakeup, Event::DirectoryReady],
        vec![Event::Wakeup, Event::DirectoryReady, Event::Latest { revision_id: "R".to_string() }],
        vec![
            Event::Wakeup,
            Event::DirectoryReady,
            Event::Latest { revision_id: "R".to_string() },
            Event::Manifest { files: vec![listed("a#1")] },
        ],
        vec![
            Event::Wakeup,
            Event::DirectoryReady,
            Event::Latest { revision_id: "R".to_string() },
            Event::Manifest { files: vec![listed("a#1")] },
            Event::Blob { data: vec![1] },
        ],
        vec![
            Event::Wakeup,
            Event::DirectoryReady,
            Event::Latest { revision_id: "R".to_string() },
            Event::Manifest { files: vec![listed("a#1")] },
            Event::Blob { data: vec![1] },
            Event::Written,
        ],
    ];
    for prefix in prefixes {
        let mut supervisor = run_cycle(Supervisor::new(), &[], 5);
        for event in prefix {
            let (next, action) = supervisor.step(event);
            assert!(action.is_some());
            supervisor = next;
        }
        assert!(!supervisor.is_idle());
        let (supervisor, action) = supervisor.step(Event::Failed);
        assert_eq!(action, Some(Action::Wait));
        assert!(supervisor.is_idle());
        assert_eq!(supervisor.active(), Deploy::Green);
        assert_eq!(supervisor.previous_child_pid(), Some(5));
        // The supervisor is live for the next wakeup.
        let supervisor = run_cycle(supervisor, &[], 6);
        assert_eq!(supervisor.active(), Deploy::Blue);
    }
}

#[test]
fn events_that_are_not_awaited_change_nothing() {
    let supervisor = Supervisor::new();
    let unexpected_when_idle = vec![
        Event::DirectoryReady,
        Event::Latest { revision_id: "R".to_string() },
        Event::Manifest { files: vec![] },
        Event::Blob { data: vec![] },
        Event::Written,
        Event::Spawned { pid: 1 },
        Event::Activated,
        Event::Terminated,
        Event::Failed,
    ];
    let mut supervisor = supervisor;
    for event in unexpected_when_idle {
        let (next, action) = supervisor.step(event);
        assert_eq!(action, None);
        assert!(next.is_idle());
        assert_eq!(next.active(), Deploy::Blue);
        assert_eq!(next.previous_child_pid(), None);
        supervisor = next;
    }
    let (supervisor, _) = supervisor.step(Event::Wakeup);
    let (supervisor, action) = supervisor.step(Event::Wakeup);
    assert_eq!(action, None);
    let (supervisor, action) = supervisor.step(Event::Written);
    assert_eq!(action, None);
    let (_, action) = supervisor.step(Event::DirectoryReady);
    assert_eq!(action, Some(Action::ReadLatest));
}

#[test]
fn failure_is_not_awaited_once_the_child_runs() {
    let supervisor = run_cycle(Supervisor::new(), &[], 5);
    let (supervisor, _) = supervisor.step(Event::Wakeup);
    let (supervisor, _) = supervisor.step(Event::DirectoryReady);
    let (supervisor, _) = supervisor.step(Event::Latest { revision_id: "R".to_string() });
    let (supervisor, _) = supervisor.step(Event::Manifest { files: vec![] });
    let (supervisor, _) = supervisor.step(Event::Spawned { pid: 6 });
    let (supervisor, action) = supervisor.step(Event::Failed);
    assert_eq!(action, None);
    let (supervisor, action) = supervisor.step(Event::Activated);
    assert_eq!(action, Some(Action::Terminate { pid: 5 }));
    let (supervisor, action) = supervisor.step(Event::Failed);
    assert_eq!(action, None);
    let (supervisor, action) = supervisor.step(Event::Terminated);
    assert_eq!(action, Some(Action::Wait));
    assert_eq!(supervisor.active(), Deploy::Blue);
    assert_eq!(supervisor.previous_child_pid(), Some(6));
}

#[test]
fn files_are_written_below_the_target_slot_at_their_path() {
    let supervisor = run_cycle(
        Supervisor::new(),
        &[
            ("./a.txt#0000000000000001", "./a.txt", b"1"),
            ("deep/er/still/c.bin#0000000000000002", "deep/er/still/c.bin", b""),
            ("#0000000000000003", "", b"odd"),
        ],
        1,
    );
    assert_eq!(supervisor.active(), Deploy::Green);
}

#[test]
fn one_child_is_live_once_a_cycle_has_completed() {
    let mut live: Vec<u32> = Vec::new();
    let mut supervisor = Supervisor::new();
    for pid in [21u32, 22, 23, 24, 25] {
        let mut event = Some(Event::Wakeup);
        while let Some(happened) = event.take() {
            let (next, action) = supervisor.step(happened);
            supervisor = next;
            event = match action.unwrap() {
                Action::Wait => None,
                Action::ResetDirectory { .. } => Some(Event::DirectoryReady),
                Action::ReadLatest => Some(Event::Latest { revision_id: "R".to_string() }),
                Action::ListManifest { .. } => {
                    Some(Event::Manifest { files: vec![listed("f#0")] })
                }
                Action::FetchBlob { .. } => Some(Event::Blob { data: vec![] }),
                Action::WriteFile { .. } => Some(Event::Written),
                Action::Spawn { .. } => {
                    live.push(pid);
                    Some(Event::Spawned { pid })
                }
                Action::Activate { .. } => {
                    // The new child runs beside the old one until the switch.
                    assert!(live.len() <= 2);
                    Some(Event::Activated)
                }
                Action::Terminate { pid } => {
                    live.retain(|child| *child != pid);
                    Some(Event::Terminated)
                }
            };
        }
        assert!(supervisor.is_idle());
        assert_eq!(live, vec![pid]);
        assert_eq!(supervisor.previous_child_pid(), Some(pid));
    }
}

#[test]
fn abandoned_cycle_starts_no_child_and_signals_none() {
    let supervisor = run_cycle(Supervisor::new(), &[], 31);
    let (supervisor, _) = supervisor.step(Event::Wakeup);
    let (supervisor, _) = supervisor.step(Event::DirectoryReady);
    let (supervisor, action) = supervisor.step(Event::Failed);
    assert_eq!(action, Some(Action::Wait));
    assert_eq!(supervisor.previous_child_pid(), Some(31));
    assert_eq!(supervisor.active(), Deploy::Green);
}
