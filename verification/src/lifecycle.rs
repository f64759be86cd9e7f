//! The life of the `featherd` process: from the socket over the hardware worker to the end. The
//! process does what it is told by an [`Action`] and tells what came of it by an [`Event`].

use vstd::prelude::*;

use crate::daemon;
use crate::daemon::Watchdog;
use crate::drivers;
use crate::drivers::Reply;
use crate::error::ErrorView;
use crate::error::FeatherError;
use crate::error::Result;
use crate::text;

verus! {

/// Permissions of the socket: its owner and its group may connect.
pub const SOCKET_MODE: u32 = 0o660;

/// What came of an action, or happened while the process waited.
#[derive(Debug)]
pub enum Event {
    /// The process began.
    Began,
    /// The path of the socket is free, or cannot be used.
    Prepared(Result<()>),
    /// The socket was bound, or why it was not.
    Bound(std::result::Result<(), String>),
    /// The permissions of the socket were set, or why they were not.
    Opened(std::result::Result<(), String>),
    /// The hardware worker was started, or why it was not.
    Spawned(std::result::Result<(), String>),
    /// The hardware worker told how its initialization went, or ended without telling.
    Initialized(Option<Result<()>>),
    /// Termination signals are watched for, or why they are not.
    Watched(std::result::Result<(), String>),
    /// A second passed; the hardware worker has this count.
    Beat(u64),
    /// The process was told to end.
    Terminated,
    /// The hardware worker ended by itself and told how, or did not tell.
    Stopped(Option<Result<()>>),
    /// The hardware worker was told to end.
    Told(Result<()>),
    /// The hardware worker was waited for.
    Joined(Result<()>),
    /// The socket was removed, as far as it could be.
    Removed,
}

/// An event, as mathematical values.
pub enum EventView {
    /// The process began.
    Began,
    /// The path of the socket is free, or cannot be used.
    Prepared(Reply<()>),
    /// The socket was bound, or why it was not.
    Bound(Option<Seq<char>>),
    /// The permissions of the socket were set, or why they were not.
    Opened(Option<Seq<char>>),
    /// The hardware worker was started, or why it was not.
    Spawned(Option<Seq<char>>),
    /// The hardware worker told how its initialization went, or ended without telling.
    Initialized(Option<Reply<()>>),
    /// Termination signals are watched for, or why they are not.
    Watched(Option<Seq<char>>),
    /// A second passed; the hardware worker has this count.
    Beat(u64),
    /// The process was told to end.
    Terminated,
    /// The hardware worker ended by itself and told how, or did not tell.
    Stopped(Option<Reply<()>>),
    /// The hardware worker was told to end.
    Told(Reply<()>),
    /// The hardware worker was waited for.
    Joined(Reply<()>),
    /// The socket was removed, as far as it could be.
    Removed,
}

/// Why something failed, if it did.
pub open spec fn reason(result: std::result::Result<(), String>) -> Option<Seq<char>> {
    match result {
        Ok(_) => None,
        Err(reason) => Some(reason@),
    }
}

impl View for Event {
    type V = EventView;

    open spec fn view(&self) -> EventView {
        match *self {
            Event::Began => EventView::Began,
            Event::Prepared(result) => EventView::Prepared(drivers::done(result)),
            Event::Bound(result) => EventView::Bound(reason(result)),
            Event::Opened(result) => EventView::Opened(reason(result)),
            Event::Spawned(result) => EventView::Spawned(reason(result)),
            Event::Initialized(told) => EventView::Initialized(daemon::ended_with(told)),
            Event::Watched(result) => EventView::Watched(reason(result)),
            Event::Beat(count) => EventView::Beat(count),
            Event::Terminated => EventView::Terminated,
            Event::Stopped(told) => EventView::Stopped(daemon::ended_with(told)),
            Event::Told(result) => EventView::Told(drivers::done(result)),
            Event::Joined(result) => EventView::Joined(drivers::done(result)),
            Event::Removed => EventView::Removed,
        }
    }
}

/// What the process does next.
#[derive(Debug)]
pub enum Action {
    /// It frees the path of the socket.
    Prepare,
    /// It binds the socket.
    Bind,
    /// It gives the socket these permissions.
    Open(u32),
    /// It starts the hardware worker.
    Spawn,
    /// It waits for the hardware worker to initialize.
    AwaitReady,
    /// It announces that it is ready, and watches for termination signals.
    Announce,
    /// It waits for something to happen.
    Wait,
    /// It tells the service manager that it is alive, and waits for something to happen.
    Beat,
    /// It announces that it stops, and tells the hardware worker to end.
    Stop,
    /// It waits for the hardware worker to end.
    Join,
    /// It removes the socket.
    Remove,
    /// It ends.
    Finish(Result<()>),
}

/// An action, as mathematical values.
pub enum ActionView {
    /// It frees the path of the socket.
    Prepare,
    /// It binds the socket.
    Bind,
    /// It gives the socket these permissions.
    Open(u32),
    /// It starts the hardware worker.
    Spawn,
    /// It waits for the hardware worker to initialize.
    AwaitReady,
    /// It announces that it is ready, and watches for termination signals.
    Announce,
    /// It waits for something to happen.
    Wait,
    /// It tells the service manager that it is alive, and waits for something to happen.
    Beat,
    /// It announces that it stops, and tells the hardware worker to end.
    Stop,
    /// It waits for the hardware worker to end.
    Join,
    /// It removes the socket.
    Remove,
    /// It ends.
    Finish(Reply<()>),
}

impl View for Action {
    type V = ActionView;

    open spec fn view(&self) -> ActionView {
        match *self {
            Action::Prepare => ActionView::Prepare,
            Action::Bind => ActionView::Bind,
            Action::Open(mode) => ActionView::Open(mode),
            Action::Spawn => ActionView::Spawn,
            Action::AwaitReady => ActionView::AwaitReady,
            Action::Announce => ActionView::Announce,
            Action::Wait => ActionView::Wait,
            Action::Beat => ActionView::Beat,
            Action::Stop => ActionView::Stop,
            Action::Join => ActionView::Join,
            Action::Remove => ActionView::Remove,
            Action::Finish(result) => ActionView::Finish(drivers::done(result)),
        }
    }
}

/// How far the process is.
#[derive(Debug)]
pub enum Stage {
    /// Nothing was done yet.
    Fresh,
    /// The path of the socket is being freed.
    Preparing,
    /// The socket is being bound.
    Binding,
    /// The socket is being given its permissions.
    Opening,
    /// The hardware worker is being started.
    Spawning,
    /// The hardware worker initializes.
    Initializing,
    /// The hardware worker could not initialize and is waited for.
    Failing(FeatherError),
    /// Readiness is being announced.
    Announcing,
    /// The daemon serves requests.
    Serving(Watchdog),
    /// The hardware worker is being told to end.
    Stopping,
    /// The hardware worker is waited for.
    Joining {
        /// How it ended, if it did by itself.
        worker: Option<Result<()>>,
        /// What came of telling it to end.
        told: Result<()>,
    },
    /// The socket is being removed; the process then ends with this.
    Removing(Result<()>),
    /// The process has ended.
    Ended,
}

/// How far the process is, as mathematical values.
pub enum StageView {
    /// Nothing was done yet.
    Fresh,
    /// The path of the socket is being freed.
    Preparing,
    /// The socket is being bound.
    Binding,
    /// The socket is being given its permissions.
    Opening,
    /// The hardware worker is being started.
    Spawning,
    /// The hardware worker initializes.
    Initializing,
    /// The hardware worker could not initialize and is waited for.
    Failing(ErrorView),
    /// Readiness is being announced.
    Announcing,
    /// The daemon serves requests; this count of the hardware worker was seen last.
    Serving(Option<u64>),
    /// The hardware worker is being told to end.
    Stopping,
    /// The hardware worker is waited for.
    Joining {
        /// How it ended, if it did by itself.
        worker: Option<Reply<()>>,
        /// What came of telling it to end.
        told: Reply<()>,
    },
    /// The socket is being removed; the process then ends with this.
    Removing(Reply<()>),
    /// The process has ended.
    Ended,
}

impl View for Stage {
    type V = StageView;

    open spec fn view(&self) -> StageView {
        match *self {
            Stage::Fresh => StageView::Fresh,
            Stage::Preparing => StageView::Preparing,
            Stage::Binding => StageView::Binding,
            Stage::Opening => StageView::Opening,
            Stage::Spawning => StageView::Spawning,
            Stage::Initializing => StageView::Initializing,
            Stage::Failing(error) => StageView::Failing(error@),
            Stage::Announcing => StageView::Announcing,
            Stage::Serving(watchdog) => StageView::Serving(watchdog.last),
            Stage::Stopping => StageView::Stopping,
            Stage::Joining { worker, told } => StageView::Joining {
                worker: daemon::ended_with(worker),
                told: drivers::done(told),
            },
            Stage::Removing(result) => StageView::Removing(drivers::done(result)),
            Stage::Ended => StageView::Ended,
        }
    }
}

/// The process ends at once with an error: it has no socket to remove.
pub open spec fn given_up(error: ErrorView) -> (StageView, ActionView) {
    (StageView::Ended, ActionView::Finish(Err(error)))
}

/// The process removes its socket, and then ends.
pub open spec fn cleaned_up(result: Reply<()>) -> (StageView, ActionView) {
    (StageView::Removing(result), ActionView::Remove)
}

/// How far the process is after an event, and what it does next. An event that does not belong to
/// a stage changes nothing.
pub open spec fn advanced(path: Seq<char>, stage: StageView, event: EventView) -> (
    StageView,
    ActionView,
) {
    match (stage, event) {
        (StageView::Fresh, EventView::Began) => (StageView::Preparing, ActionView::Prepare),
        (StageView::Preparing, EventView::Prepared(result)) => match result {
            Ok(_) => (StageView::Binding, ActionView::Bind),
            Err(error) => given_up(error),
        },
        (StageView::Binding, EventView::Bound(failure)) => match failure {
            None => (StageView::Opening, ActionView::Open(SOCKET_MODE)),
            Some(why) => given_up(ErrorView::Daemon("could not bind "@ + path + ": "@ + why)),
        },
        (StageView::Opening, EventView::Opened(failure)) => match failure {
            None => (StageView::Spawning, ActionView::Spawn),
            Some(why) => given_up(
                ErrorView::Daemon("could not set permissions on "@ + path + ": "@ + why),
            ),
        },
        (StageView::Spawning, EventView::Spawned(failure)) => match failure {
            None => (StageView::Initializing, ActionView::AwaitReady),
            Some(why) => cleaned_up(
                Err(ErrorView::Daemon("could not start hardware worker: "@ + why)),
            ),
        },
        (StageView::Initializing, EventView::Initialized(told)) => match told {
            Some(Ok(_)) => (StageView::Announcing, ActionView::Announce),
            Some(Err(error)) => (StageView::Failing(error), ActionView::Join),
            None => cleaned_up(
                Err(ErrorView::Daemon("hardware worker stopped during initialization"@)),
            ),
        },
        (StageView::Failing(error), EventView::Joined(_)) => cleaned_up(Err(error)),
        (StageView::Announcing, EventView::Watched(failure)) => match failure {
            None => (StageView::Serving(None), ActionView::Wait),
            Some(why) => cleaned_up(
                Err(ErrorView::Daemon("could not install SIGTERM handler: "@ + why)),
            ),
        },
        (StageView::Serving(last), EventView::Beat(count)) => (
            StageView::Serving(Some(count)),
            if last == Some(count) {
                ActionView::Wait
            } else {
                ActionView::Beat
            },
        ),
        (StageView::Serving(_), EventView::Terminated) => (StageView::Stopping, ActionView::Stop),
        (StageView::Serving(_), EventView::Stopped(told)) => (
            StageView::Joining {
                worker: Some(
                    match told {
                        Some(result) => result,
                        None => Err(
                            ErrorView::Daemon("hardware worker stopped unexpectedly"@),
                        ),
                    },
                ),
                told: Ok(()),
            },
            ActionView::Join,
        ),
        (StageView::Stopping, EventView::Told(told)) => (
            StageView::Joining { worker: None, told },
            ActionView::Join,
        ),
        (StageView::Joining { worker, told }, EventView::Joined(joined)) => cleaned_up(
            daemon::exit_of(worker, told, joined),
        ),
        (StageView::Removing(result), EventView::Removed) => (
            StageView::Ended,
            ActionView::Finish(result),
        ),
        _ => (stage, ActionView::Wait),
    }
}

fn give_up(error: FeatherError) -> (next: (Stage, Action))
    ensures
        (next.0@, next.1@) == given_up(error@),
{
    (Stage::Ended, Action::Finish(Err(error)))
}

fn clean_up(result: Result<()>) -> (next: (Stage, Action))
    ensures
        (next.0@, next.1@) == cleaned_up(drivers::done(result)),
{
    (Stage::Removing(result), Action::Remove)
}

/// Goes on after an event, and says what the process does next. An event that does not belong to
/// the stage changes nothing.
pub fn advance(socket: &str, stage: Stage, event: Event) -> (next: (Stage, Action))
    ensures
        (next.0@, next.1@) == advanced(socket@, stage@, event@),
{
    match (stage, event) {
        (Stage::Fresh, Event::Began) => (Stage::Preparing, Action::Prepare),
        (Stage::Preparing, Event::Prepared(result)) => match result {
            Ok(_) => (Stage::Binding, Action::Bind),
            Err(error) => give_up(error),
        },
        (Stage::Binding, Event::Bound(result)) => match result {
            Ok(_) => (Stage::Opening, Action::Open(SOCKET_MODE)),
            Err(why) => give_up(
                FeatherError::Daemon(
                    text::concat4("could not bind ", socket, ": ", why.as_str()),
                ),
            ),
        },
        (Stage::Opening, Event::Opened(result)) => match result {
            Ok(_) => (Stage::Spawning, Action::Spawn),
            Err(why) => give_up(
                FeatherError::Daemon(
                    text::concat4("could not set permissions on ", socket, ": ", why.as_str()),
                ),
            ),
        },
        (Stage::Spawning, Event::Spawned(result)) => match result {
            Ok(_) => (Stage::Initializing, Action::AwaitReady),
            Err(why) => clean_up(
                Err(
                    FeatherError::Daemon(
                        text::concat2("could not start hardware worker: ", why.as_str()),
                    ),
                ),
            ),
        },
        (Stage::Initializing, Event::Initialized(told)) => match told {
            Some(Ok(_)) => (Stage::Announcing, Action::Announce),
            Some(Err(error)) => (Stage::Failing(error), Action::Join),
            None => clean_up(
                Err(
                    FeatherError::Daemon(
                        "hardware worker stopped during initialization".to_owned(),
                    ),
                ),
            ),
        },
        (Stage::Failing(error), Event::Joined(_)) => clean_up(Err(error)),
        (Stage::Announcing, Event::Watched(result)) => match result {
            Ok(_) => (Stage::Serving(Watchdog::new()), Action::Wait),
            Err(why) => clean_up(
                Err(
                    FeatherError::Daemon(
                        text::concat2("could not install SIGTERM handler: ", why.as_str()),
                    ),
                ),
            ),
        },
        (Stage::Serving(watchdog), Event::Beat(count)) => {
            let mut watchdog = watchdog;
            let action = if watchdog.observe(count) {
                Action::Beat
            } else {
                Action::Wait
            };
            (Stage::Serving(watchdog), action)
        },
        (Stage::Serving(_), Event::Terminated) => (Stage::Stopping, Action::Stop),
        (Stage::Serving(_), Event::Stopped(told)) => {
            let result = match told {
                Some(result) => result,
                None => Err(
                    FeatherError::Daemon("hardware worker stopped unexpectedly".to_owned()),
                ),
            };
            (Stage::Joining { worker: Some(result), told: Ok(()) }, Action::Join)
        },
        (Stage::Stopping, Event::Told(told)) => (
            Stage::Joining { worker: None, told },
            Action::Join,
        ),
        (Stage::Joining { worker, told }, Event::Joined(joined)) => clean_up(
            daemon::exit_result(worker, told, joined),
        ),
        (Stage::Removing(result), Event::Removed) => (Stage::Ended, Action::Finish(result)),
        (stage, _) => (stage, Action::Wait),
    }
}

// ---------------------------------------------------------------- over a whole life

/// How far the process is after some events, from its beginning.
pub open spec fn reached(path: Seq<char>, events: Seq<EventView>) -> StageView
    decreases events.len(),
{
    if events.len() == 0 {
        StageView::Fresh
    } else {
        advanced(path, reached(path, events.drop_last()), events.last()).0
    }
}

/// What the process did over some events, from its beginning.
pub open spec fn performed(path: Seq<char>, events: Seq<EventView>) -> Seq<ActionView>
    decreases events.len(),
{
    if events.len() == 0 {
        Seq::empty()
    } else {
        performed(path, events.drop_last()).push(
            advanced(path, reached(path, events.drop_last()), events.last()).1,
        )
    }
}

/// How often something was done.
pub open spec fn times(actions: Seq<ActionView>, action: ActionView) -> nat
    decreases actions.len(),
{
    if actions.len() == 0 {
        0
    } else {
        times(actions.drop_last(), action) + if actions.last() == action {
            1nat
        } else {
            0nat
        }
    }
}

/// Whether the process owns its socket: it was bound, has its permissions, and is not removed.
pub open spec fn owns_socket(stage: StageView) -> bool {
    match stage {
        StageView::Fresh
        | StageView::Preparing
        | StageView::Binding
        | StageView::Opening
        | StageView::Removing(_)
        | StageView::Ended => false,
        _ => true,
    }
}

proof fn lemma_times_push(actions: Seq<ActionView>, next: ActionView, action: ActionView)
    ensures
        times(actions.push(next), action) == times(actions, action) + if next == action {
            1nat
        } else {
            0nat
        },
{
    assert(actions.push(next).drop_last() =~= actions);
}

proof fn lemma_socket(path: Seq<char>, events: Seq<EventView>)
    ensures
        ({
            let stage = reached(path, events);
            let actions = performed(path, events);
            let spawned = times(actions, ActionView::Spawn);
            let removed = times(actions, ActionView::Remove);
            &&& spawned <= 1
            &&& owns_socket(stage) ==> spawned == 1 && removed == 0
            &&& !owns_socket(stage) ==> removed == spawned
            &&& stage matches StageView::Removing(_) ==> removed == 1
            &&& (stage is Fresh || stage is Preparing || stage is Binding || stage is Opening)
                ==> spawned == 0
        }),
    decreases events.len(),
{
    if events.len() > 0 {
        let before = events.drop_last();
        lemma_socket(path, before);
        let next = advanced(path, reached(path, before), events.last()).1;
        lemma_times_push(performed(path, before), next, ActionView::Spawn);
        lemma_times_push(performed(path, before), next, ActionView::Remove);
    }
}

/// A process that bound its socket and opened it removes the socket before it ends, exactly once,
/// however it ends. One that did not get that far removes nothing.
pub proof fn law_socket_is_removed(path: Seq<char>, events: Seq<EventView>)
    requires
        reached(path, events) is Ended,
    ensures
        times(performed(path, events), ActionView::Remove) == times(
            performed(path, events),
            ActionView::Spawn,
        ),
        times(performed(path, events), ActionView::Spawn) <= 1,
{
    lemma_socket(path, events);
}

/// The hardware worker is started only after the path was found free and the socket was bound and
/// opened.
pub proof fn law_worker_starts_behind_the_socket(
    path: Seq<char>,
    stage: StageView,
    event: EventView,
)
    ensures
        advanced(path, stage, event).1 is Spawn <==> stage is Opening && event == EventView::Opened(
            None,
        ),
        advanced(path, stage, event).1 is Open <==> stage is Binding && event == EventView::Bound(
            None,
        ),
        advanced(path, stage, event).1 is Bind <==> stage is Preparing && (event matches
            EventView::Prepared(Ok(_))),
{
}

/// The events of a process that is told to end: what came of telling its hardware worker, what came
/// of waiting for it, and the removal of the socket.
pub open spec fn told_to_end(
    events: Seq<EventView>,
    told: Reply<()>,
    joined: Reply<()>,
) -> Seq<EventView> {
    events.push(EventView::Terminated).push(EventView::Told(told)).push(
        EventView::Joined(joined),
    ).push(EventView::Removed)
}

/// A process that serves requests and is told to end tells the hardware worker to end, waits for
/// it, removes its socket, and ends with the first failure among these. Over its whole life it
/// removed its socket exactly once.
pub proof fn law_told_process_ends(
    path: Seq<char>,
    events: Seq<EventView>,
    told: Reply<()>,
    joined: Reply<()>,
)
    requires
        reached(path, events) is Serving,
    ensures
        ({
            let whole = told_to_end(events, told, joined);
            &&& reached(path, whole) is Ended
            &&& performed(path, whole) == performed(path, events) + seq![
                ActionView::Stop,
                ActionView::Join,
                ActionView::Remove,
                ActionView::Finish(daemon::exit_of(None, told, joined)),
            ]
            &&& times(performed(path, whole), ActionView::Remove) == 1
        }),
{
    let stopping = events.push(EventView::Terminated);
    let joining = stopping.push(EventView::Told(told));
    let removing = joining.push(EventView::Joined(joined));
    let whole = removing.push(EventView::Removed);
    assert(stopping.drop_last() =~= events);
    assert(joining.drop_last() =~= stopping);
    assert(removing.drop_last() =~= joining);
    assert(whole.drop_last() =~= removing);
    let end = ActionView::Finish(daemon::exit_of(None, told, joined));
    assert(reached(path, stopping) == StageView::Stopping);
    assert(reached(path, joining) == (StageView::Joining { worker: None, told }));
    assert(reached(path, removing) == StageView::Removing(daemon::exit_of(None, told, joined)));
    assert(performed(path, stopping) == performed(path, events).push(ActionView::Stop));
    assert(performed(path, joining) == performed(path, stopping).push(ActionView::Join));
    assert(performed(path, removing) == performed(path, joining).push(ActionView::Remove));
    assert(performed(path, whole) == performed(path, removing).push(end));
    assert(performed(path, whole) =~= performed(path, events) + seq![
        ActionView::Stop,
        ActionView::Join,
        ActionView::Remove,
        end,
    ]);
    lemma_socket(path, removing);
    lemma_times_push(performed(path, removing), end, ActionView::Remove);
}

/// A process whose hardware worker ends by itself with an error, or without a word, removes its
/// socket and ends with an error. The worker is not told to end again.
pub proof fn law_lost_worker_is_an_error(
    path: Seq<char>,
    last: Option<u64>,
    told: Option<Reply<()>>,
    joined: Reply<()>,
)
    requires
        !(told matches Some(Ok(_))),
    ensures
        ({
            let joining = advanced(path, StageView::Serving(last), EventView::Stopped(told));
            let removing = advanced(path, joining.0, EventView::Joined(joined));
            let ended = advanced(path, removing.0, EventView::Removed);
            &&& joining.1 is Join
            &&& removing.1 is Remove
            &&& ended.0 is Ended
            &&& ended.1 matches ActionView::Finish(Err(_))
        }),
{
}

/// A process that has ended does nothing more.
pub proof fn law_end_is_final(path: Seq<char>, event: EventView)
    ensures
        advanced(path, StageView::Ended, event) == (StageView::Ended, ActionView::Wait),
{
}

/// The socket is opened to its owner and its group, which may read and write it, and to nobody
/// else.
pub proof fn law_socket_is_closed_to_others(path: Seq<char>, stage: StageView, event: EventView)
    ensures
        advanced(path, stage, event).1 matches ActionView::Open(mode) ==> mode == 6 * 64 + 6 * 8,
{
}

/// The process reports that it is ready as soon as its hardware worker is, and not before.
pub proof fn law_ready_is_announced(path: Seq<char>, stage: StageView, event: EventView)
    ensures
        advanced(path, stage, event).1 is Announce <==> stage is Initializing && (event matches
            EventView::Initialized(Some(Ok(_)))),
        advanced(path, stage, event).0 is Serving ==> stage is Serving || (stage is Announcing
            && event == EventView::Watched(None)),
{
}

/// The process reports that it is alive just where its hardware worker went on since it was last
/// asked.
pub proof fn law_life_needs_progress(path: Seq<char>, last: Option<u64>, count: u64)
    ensures
        ({
            let (stage, action) = advanced(
                path,
                StageView::Serving(last),
                EventView::Beat(count),
            );
            &&& action is Beat <==> last != Some(count)
            &&& stage == StageView::Serving(Some(count))
        }),
{
}

/// Only a process that serves requests, and is told to end, tells its hardware worker to end.
pub proof fn law_worker_is_stopped_when_told(path: Seq<char>, stage: StageView, event: EventView)
    ensures
        advanced(path, stage, event).1 is Stop <==> stage is Serving && event is Terminated,
        advanced(path, stage, event).1 is Join <==> (stage is Initializing && (event matches
            EventView::Initialized(Some(Err(_))))) || (stage is Serving && event is Stopped) || (
        stage is Stopping && event is Told),
{
}

/// Whether an event tells that a step of the start failed.
pub open spec fn start_failed(stage: StageView, event: EventView) -> bool {
    ||| stage is Preparing && (event matches EventView::Prepared(Err(_)))
    ||| stage is Binding && (event matches EventView::Bound(Some(_)))
    ||| stage is Opening && (event matches EventView::Opened(Some(_)))
    ||| stage is Spawning && (event matches EventView::Spawned(Some(_)))
    ||| stage is Initializing && event == EventView::Initialized(None)
    ||| stage is Announcing && (event matches EventView::Watched(Some(_)))
    ||| stage is Failing && event is Joined
}

/// A start that fails ends in an error: at once where there is no worker and no open socket yet, and
/// behind the removal of the socket otherwise.
pub proof fn law_failed_start_is_an_error(path: Seq<char>, stage: StageView, event: EventView)
    requires
        start_failed(stage, event),
    ensures
        ({
            let (next, action) = advanced(path, stage, event);
            ||| next is Ended && (action matches ActionView::Finish(Err(_)))
            ||| (next matches StageView::Removing(Err(_))) && action is Remove
        }),
{
}

} // verus!
