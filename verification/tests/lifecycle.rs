//! The life of the daemon's process.

use feather::error::FeatherError;
use feather::lifecycle::{advance, Action, Event, Stage, SOCKET_MODE};

const SOCKET: &str = "/run/feather.sock";

fn live(events: Vec<Event>) -> Vec<Action> {
    let mut stage = Stage::Fresh;
    let mut actions = Vec::new();
    for event in events {
        let (next, action) = advance(SOCKET, stage, event);
        stage = next;
        actions.push(action);
    }
    actions
}

fn ready() -> Vec<Event> {
    vec![
        Event::Began,
        Event::Prepared(Ok(())),
        Event::Bound(Ok(())),
        Event::Opened(Ok(())),
        Event::Spawned(Ok(())),
        Event::Initialized(Some(Ok(()))),
        Event::Watched(Ok(())),
    ]
}

fn shown(actions: &[Action]) -> Vec<String> {
    actions.iter().map(|action| format!("{action:?}")).collect()
}

fn removals(actions: &[Action]) -> usize {
    actions.iter().filter(|action| matches!(action, Action::Remove)).count()
}

fn end(actions: &[Action]) -> Result<(), String> {
    match actions.last() {
        Some(Action::Finish(Ok(()))) => Ok(()),
        Some(Action::Finish(Err(FeatherError::Daemon(message)))) => Err(message.clone()),
        other => panic!("the process did not end: {other:?}"),
    }
}

fn fault(message: &str) -> FeatherError {
    FeatherError::Daemon(message.to_owned())
}

#[test]
fn a_process_that_is_told_to_end_removes_its_socket() {
    assert_eq!(SOCKET_MODE, 0o660);
    let mut events = ready();
    events.extend([
        Event::Beat(4),
        Event::Beat(4),
        Event::Beat(5),
        Event::Terminated,
        Event::Told(Ok(())),
        Event::Joined(Ok(())),
        Event::Removed,
    ]);
    let actions = live(events);
    assert_eq!(
        shown(&actions),
        [
            "Prepare",
            "Bind",
            "Open(432)",
            "Spawn",
            "AwaitReady",
            "Announce",
            "Wait",
            "Beat",
            "Wait",
            "Beat",
            "Stop",
            "Join",
            "Remove",
            "Finish(Ok(()))",
        ]
    );
}

#[test]
fn a_process_without_a_socket_removes_nothing() {
    let occupied = live(vec![Event::Began, Event::Prepared(Err(fault("in use")))]);
    assert_eq!(end(&occupied), Err("in use".to_owned()));
    let unbound = live(vec![
        Event::Began,
        Event::Prepared(Ok(())),
        Event::Bound(Err("denied".to_owned())),
    ]);
    assert_eq!(end(&unbound), Err("could not bind /run/feather.sock: denied".to_owned()));
    let closed = live(vec![
        Event::Began,
        Event::Prepared(Ok(())),
        Event::Bound(Ok(())),
        Event::Opened(Err("denied".to_owned())),
    ]);
    assert_eq!(
        end(&closed),
        Err("could not set permissions on /run/feather.sock: denied".to_owned())
    );
    for actions in [occupied, unbound, closed] {
        assert_eq!(removals(&actions), 0);
    }
}

#[test]
fn a_process_that_fails_behind_its_socket_removes_it_once() {
    let begun = |count: usize, rest: Vec<Event>| {
        let mut events = ready();
        events.truncate(count);
        events.extend(rest);
        live(events)
    };
    let cases = [
        (
            begun(4, vec![Event::Spawned(Err("no threads".to_owned())), Event::Removed]),
            "could not start hardware worker: no threads",
        ),
        (
            begun(5, vec![Event::Initialized(None), Event::Removed]),
            "hardware worker stopped during initialization",
        ),
        (
            begun(
                5,
                vec![
                    Event::Initialized(Some(Err(fault("no hub")))),
                    Event::Joined(Err(fault("hardware worker panicked"))),
                    Event::Removed,
                ],
            ),
            "no hub",
        ),
        (
            begun(6, vec![Event::Watched(Err("too many".to_owned())), Event::Removed]),
            "could not install SIGTERM handler: too many",
        ),
        (
            begun(7, vec![Event::Stopped(None), Event::Joined(Ok(())), Event::Removed]),
            "hardware worker stopped unexpectedly",
        ),
        (
            begun(
                7,
                vec![
                    Event::Stopped(Some(Err(fault("lost hub")))),
                    Event::Joined(Err(fault("hardware worker panicked"))),
                    Event::Removed,
                ],
            ),
            "lost hub",
        ),
        (
            begun(
                7,
                vec![
                    Event::Terminated,
                    Event::Told(Err(fault("hardware command queue is full"))),
                    Event::Joined(Ok(())),
                    Event::Removed,
                ],
            ),
            "hardware command queue is full",
        ),
    ];
    for (actions, message) in cases {
        assert_eq!(end(&actions), Err(message.to_owned()));
        assert_eq!(removals(&actions), 1);
    }
}

#[test]
fn events_of_another_stage_change_nothing() {
    let (stage, action) = advance(SOCKET, Stage::Binding, Event::Terminated);
    assert!(matches!(stage, Stage::Binding));
    assert!(matches!(action, Action::Wait));
    let (stage, action) = advance(SOCKET, Stage::Ended, Event::Began);
    assert!(matches!(stage, Stage::Ended));
    assert!(matches!(action, Action::Wait));
}
