//! What holds over a whole run of the daemon, from its start to its end.

use vstd::prelude::*;

use crate::celsius::Celsius;
use crate::config::AssignmentConfig;
use crate::config::ColorPoint;
use crate::config::Config;
use crate::config::FanPoint;
use crate::config::Nanos;
use crate::control;
use crate::daemon;
use crate::daemon::DaemonState;
use crate::daemon::ProgressView;
use crate::daemon::StateFileView;
use crate::drivers::Call;
use crate::drivers::Hardware;
use crate::drivers::Reply;
use crate::engine;
use crate::engine::Engine;
use crate::error::ErrorView;
use crate::ipc::Command;
use crate::lifecycle;
use crate::lifecycle::ActionView;
use crate::lifecycle::EventView;
use crate::names;
use crate::policy::Blended;
use crate::policy::Blends;
use crate::policy::EngineModel;
use crate::status;
use crate::views;

verus! {

/// How often the hardware was shut down.
pub open spec fn shutdowns(calls: Seq<Call>) -> nat
    decreases calls.len(),
{
    if calls.len() == 0 {
        0
    } else {
        shutdowns(calls.drop_last()) + (if calls.last() is Shutdown {
            1nat
        } else {
            0nat
        })
    }
}

/// The daemon answered a command as far as that needs no file.
pub open spec fn answered<H: Hardware>(before: DaemonState<H>, after: DaemonState<H>) -> bool {
    exists|command: Command, now: Nanos, progress: ProgressView|
        #[trigger] daemon::handled(before, after, command, now, progress)
}

/// The daemon activated another configuration, or failed to.
pub open spec fn reloaded<H: Hardware>(before: DaemonState<H>, after: DaemonState<H>) -> bool {
    exists|outcome: Reply<()>, candidate: Config|
        #[trigger] control::reload_step(before.engine, after.engine, outcome, candidate)
}

/// The daemon evaluated the policy.
pub open spec fn ticked<H: Hardware, F, G>(
    before: Engine<H>,
    after: Engine<H>,
    stop: bool,
    blends: Blends<F, G>,
) -> bool where
    F: Fn(FanPoint, FanPoint, Celsius) -> u8,
    G: Fn(ColorPoint, ColorPoint, Celsius) -> [u8; 3],
 {
    exists|states: Seq<Engine<H>>, now: Nanos, hour: u32, minute: u32|
        #[trigger] engine::tick_run(before, after, stop, states, now, hour, minute, blends)
}

/// One step of a daemon that goes on: a command, what follows a file that was saved or read, or
/// an evaluation of the policy.
pub open spec fn stepped<H: Hardware, F, G>(
    before: DaemonState<H>,
    after: DaemonState<H>,
    blends: Blends<F, G>,
) -> bool where
    F: Fn(FanPoint, FanPoint, Celsius) -> u8,
    G: Fn(ColorPoint, ColorPoint, Celsius) -> [u8; 3],
 {
    ||| answered(before, after)
    ||| after.engine == before.engine
    ||| reloaded(before, after)
    ||| ticked(before.engine, after.engine, false, blends)
}

/// A daemon started on hardware that fits its configuration.
pub open spec fn started<H: Hardware>(
    hardware: H,
    first: DaemonState<H>,
    config: Config,
    initial: Option<Seq<char>>,
    now: Nanos,
) -> bool {
    let profile = engine::first_profile(config, initial);
    let engine = first.engine;
    &&& engine@ == engine::new_model(config, profile, engine@.devices, now)
    &&& engine.hardware.calls() == hardware.calls().push(
        Call::Preflight { config, reply: Ok(engine@.devices) },
    ).push(Call::Commit { config })
}

/// A daemon went on through every state between its steps.
pub open spec fn went_on<H: Hardware, F, G>(
    states: Seq<DaemonState<H>>,
    blends: Blends<F, G>,
) -> bool where
    F: Fn(FanPoint, FanPoint, Celsius) -> u8,
    G: Fn(ColorPoint, ColorPoint, Celsius) -> [u8; 3],
 {
    &&& states.len() > 0
    &&& forall|i: int|
        0 <= i < states.len() - 1 ==> stepped(#[trigger] states[i], states[i + 1], blends)
}

/// A daemon ended: it was told to, or an evaluation of the policy found that it has to.
pub open spec fn ended<H: Hardware, F, G>(
    last: Engine<H>,
    end: Engine<H>,
    blends: Blends<F, G>,
) -> bool where
    F: Fn(FanPoint, FanPoint, Celsius) -> u8,
    G: Fn(ColorPoint, ColorPoint, Celsius) -> [u8; 3],
 {
    ||| end.hardware.calls() == last.hardware.calls().push(Call::Shutdown)
    ||| exists|stopped: Engine<H>|
        {
            &&& #[trigger] ticked(last, stopped, true, blends)
            &&& end.hardware.calls() == stopped.hardware.calls().push(Call::Shutdown)
        }
}

// ---------------------------------------------------------------- calls of a step

proof fn lemma_pushed(calls: Seq<Call>, call: Call)
    ensures
        shutdowns(calls.push(call)) == shutdowns(calls) + (if call is Shutdown {
            1nat
        } else {
            0nat
        }),
{
    assert(calls.push(call).drop_last() =~= calls);
}

proof fn lemma_one_more(before: Seq<Call>, after: Seq<Call>)
    requires
        after == before.push(after.last()),
        !(after.last() is Shutdown),
    ensures
        shutdowns(after) == shutdowns(before),
{
    lemma_pushed(before, after.last());
}

proof fn lemma_appended(before: Seq<Call>, after: Seq<Call>)
    requires
        before.len() <= after.len(),
        after.take(before.len() as int) == before,
        forall|i: int| before.len() <= i < after.len() ==> !((#[trigger] after[i]) is Shutdown),
    ensures
        shutdowns(after) == shutdowns(before),
    decreases after.len() - before.len(),
{
    if before.len() < after.len() {
        let shorter = after.drop_last();
        assert(shorter.take(before.len() as int) =~= before);
        lemma_appended(before, shorter);
        assert(after =~= shorter.push(after.last()));
        lemma_one_more(shorter, after);
    } else {
        assert(after =~= before);
    }
}

proof fn lemma_release_quiet<H: Hardware>(
    before: Engine<H>,
    after: Engine<H>,
    result: Reply<()>,
    device: Seq<char>,
)
    requires
        control::release_step(before, after, result, device),
    ensures
        shutdowns(after.hardware.calls()) == shutdowns(before.hardware.calls()),
{
    if after.hardware != before.hardware {
        lemma_one_more(before.hardware.calls(), after.hardware.calls());
    }
}

proof fn lemma_states_quiet<H: Hardware>(
    states: Seq<Engine<H>>,
    devices: Seq<Seq<char>>,
    upto: int,
)
    requires
        0 <= upto < states.len(),
        forall|i: int|
            0 <= i < states.len() - 1 ==> control::release_step(
                #[trigger] states[i],
                states[i + 1],
                Ok::<(), ErrorView>(()),
                devices[i],
            ),
    ensures
        shutdowns(states[upto].hardware.calls()) == shutdowns(states[0].hardware.calls()),
    decreases upto,
{
    if upto > 0 {
        lemma_states_quiet(states, devices, upto - 1);
        lemma_release_quiet(
            states[upto - 1],
            states[upto],
            Ok::<(), ErrorView>(()),
            devices[upto - 1],
        );
    }
}

proof fn lemma_released_quiet<H: Hardware>(
    before: Engine<H>,
    after: Engine<H>,
    result: Reply<()>,
    devices: Seq<Seq<char>>,
)
    requires
        control::released_all(before, after, result, devices),
    ensures
        shutdowns(after.hardware.calls()) == shutdowns(before.hardware.calls()),
{
    let states = choose|states: Seq<Engine<H>>|
        #[trigger] control::release_run(before, after, result, devices, states);
    lemma_states_quiet(states, devices, states.len() - 1);
    if result is Err {
        lemma_release_quiet(states.last(), after, result, devices[states.len() - 1]);
    }
}

proof fn lemma_reload_quiet<H: Hardware>(before: DaemonState<H>, after: DaemonState<H>)
    requires
        reloaded(before, after),
    ensures
        shutdowns(after.engine.hardware.calls()) == shutdowns(before.engine.hardware.calls()),
{
    let (outcome, candidate) = choose|outcome: Reply<()>, candidate: Config|
        #[trigger] control::reload_step(before.engine, after.engine, outcome, candidate);
    let (checked, freed, given) = choose|
        checked: Engine<H>,
        freed: Engine<H>,
        given: Reply<()>,
    |
        #[trigger] control::reload_run(
            before.engine,
            checked,
            freed,
            after.engine,
            given,
            outcome,
            candidate,
        );
    lemma_one_more(before.engine.hardware.calls(), checked.hardware.calls());
    if checked.hardware.calls().last()->Preflight_reply is Ok {
        lemma_released_quiet(
            checked,
            freed,
            given,
            names::names(control::controlled_devices(before.engine@)),
        );
        if given is Ok {
            lemma_pushed(freed.hardware.calls(), Call::Commit { config: candidate });
        }
    }
}

proof fn lemma_command_quiet<H: Hardware>(
    before: DaemonState<H>,
    after: DaemonState<H>,
    command: Command,
    now: Nanos,
    progress: ProgressView,
)
    requires
        daemon::handled(before, after, command, now, progress),
    ensures
        shutdowns(after.engine.hardware.calls()) == shutdowns(before.engine.hardware.calls()),
{
    let calls = before.engine.hardware.calls();
    match command {
        Command::Devices => {
            lemma_one_more(calls, after.engine.hardware.calls());
        },
        Command::ProfileSet { profile, persist } => {
            let outcome = choose|outcome: Reply<()>|
                #[trigger] control::profile_step(
                    before.engine,
                    after.engine,
                    outcome,
                    profile@,
                );
            if names::has(before.engine@.config.profiles@, profile@) {
                let freed = choose|freed: Engine<H>|
                    {
                        &&& #[trigger] control::released_all(
                            before.engine,
                            freed,
                            outcome,
                            control::left_behind(before.engine@, profile@),
                        )
                        &&& match outcome {
                            Ok(_) => engine::became(
                                freed,
                                after.engine,
                                control::with_profile(freed@, profile@),
                            ),
                            Err(_) => freed == after.engine,
                        }
                    };
                lemma_released_quiet(
                    before.engine,
                    freed,
                    outcome,
                    control::left_behind(before.engine@, profile@),
                );
            }
        },
        Command::OutputRelease { output } => {
            let name = views::maybe(output);
            let result = choose|result: Reply<Seq<Seq<char>>>|
                #[trigger] control::release_command(before.engine, after.engine, result, name);
            if let Ok(devices) = control::selected(before.engine@.config, name) {
                let outputs = before.engine@.config.outputs@;
                let targets = control::outputs_of_devices(
                    outputs,
                    devices,
                    outputs.len() as int,
                );
                let (freed, outcome) = choose|freed: Engine<H>, outcome: Reply<()>|
                    {
                        &&& #[trigger] control::released_all(
                            before.engine,
                            freed,
                            outcome,
                            names::names(devices),
                        )
                        &&& match outcome {
                            Err(error) => result == Err::<Seq<Seq<char>>, ErrorView>(error)
                                && freed == after.engine,
                            Ok(_) => result == Ok::<Seq<Seq<char>>, ErrorView>(targets)
                                && engine::became(
                                freed,
                                after.engine,
                                control::noted_releases(freed@, targets, targets.len() as int),
                            ),
                        }
                    };
                lemma_released_quiet(before.engine, freed, outcome, names::names(devices));
            }
        },
        Command::DebugHidDump { device } => {
            if names::has(before.engine@.config.devices@, device@) {
                lemma_one_more(calls, after.engine.hardware.calls());
            }
        },
        _ => {},
    }
}

proof fn lemma_evaluated_quiet<H: Hardware, F, G>(
    before: Engine<H>,
    after: Engine<H>,
    name: Seq<char>,
    assignment: AssignmentConfig,
    now: Nanos,
    hour: u32,
    minute: u32,
    blends: Blends<F, G>,
) where
    F: Fn(FanPoint, FanPoint, Celsius) -> u8,
    G: Fn(ColorPoint, ColorPoint, Celsius) -> [u8; 3],

    requires
        engine::evaluated(before, after, name, assignment, now, hour, minute, blends),
    ensures
        shutdowns(after.hardware.calls()) == shutdowns(before.hardware.calls()),
{
    let (middle, result, blended) = choose|
        middle: Engine<H>,
        result: Reply<()>,
        blended: Blended,
    |
        #[trigger] engine::evaluation(
            before,
            middle,
            after,
            result,
            blended,
            name,
            assignment,
            now,
            hour,
            minute,
            blends,
        );
    if middle.hardware != before.hardware {
        lemma_one_more(before.hardware.calls(), middle.hardware.calls());
    }
}

proof fn lemma_prepared_quiet<H: Hardware>(before: Engine<H>, after: Engine<H>, now: Nanos)
    requires
        engine::prepared(before, after, now),
    ensures
        shutdowns(after.hardware.calls()) == shutdowns(before.hardware.calls()),
{
    if engine::poll_due(before@, now) {
        let (ready, read) = choose|ready: Engine<H>, read: Engine<H>|
            {
                &&& engine::became(before, ready, engine::expired(before@, now))
                &&& #[trigger] engine::poll_step(ready, read, now)
                &&& after.hardware == read.hardware
                &&& after@ == (EngineModel {
                    last_sensor_poll: Some(now),
                    ..read@
                })
            };
        let old_calls = ready.hardware.calls();
        let new_calls = read.hardware.calls();
        let start = old_calls.len() as int;
        assert forall|i: int| start <= i < new_calls.len() implies !((
        #[trigger] new_calls[i]) is Shutdown) by {
            assert(engine::reads_sensor(ready@.config, i - start, new_calls.skip(start)[i - start]));
        }
        lemma_appended(old_calls, new_calls);
    }
}

proof fn lemma_outputs_quiet<H: Hardware, F, G>(
    states: Seq<Engine<H>>,
    assignments: names::Entries<AssignmentConfig>,
    upto: int,
    now: Nanos,
    hour: u32,
    minute: u32,
    blends: Blends<F, G>,
) where
    F: Fn(FanPoint, FanPoint, Celsius) -> u8,
    G: Fn(ColorPoint, ColorPoint, Celsius) -> [u8; 3],

    requires
        0 <= upto < states.len(),
        states.len() == assignments.len() + 1,
        forall|i: int|
            0 <= i < assignments.len() ==> engine::evaluated(
                #[trigger] states[i],
                states[i + 1],
                assignments[i].0,
                assignments[i].1,
                now,
                hour,
                minute,
                blends,
            ),
    ensures
        shutdowns(states[upto].hardware.calls()) == shutdowns(states[0].hardware.calls()),
    decreases upto,
{
    if upto > 0 {
        lemma_outputs_quiet(states, assignments, upto - 1, now, hour, minute, blends);
        lemma_evaluated_quiet(
            states[upto - 1],
            states[upto],
            assignments[upto - 1].0,
            assignments[upto - 1].1,
            now,
            hour,
            minute,
            blends,
        );
    }
}

proof fn lemma_tick_quiet<H: Hardware, F, G>(
    before: Engine<H>,
    after: Engine<H>,
    stop: bool,
    blends: Blends<F, G>,
) where
    F: Fn(FanPoint, FanPoint, Celsius) -> u8,
    G: Fn(ColorPoint, ColorPoint, Celsius) -> [u8; 3],

    requires
        ticked(before, after, stop, blends),
    ensures
        shutdowns(after.hardware.calls()) == shutdowns(before.hardware.calls()),
{
    let (states, now, hour, minute) = choose|
        states: Seq<Engine<H>>,
        now: Nanos,
        hour: u32,
        minute: u32,
    |
        #[trigger] engine::tick_run(before, after, stop, states, now, hour, minute, blends);
    lemma_prepared_quiet(before, states[0], now);
    if let Some(assignments) = engine::active_assignments(states[0]@) {
        lemma_outputs_quiet(
            states,
            assignments,
            states.len() - 1,
            now,
            hour,
            minute,
            blends,
        );
    }
}

proof fn lemma_step_quiet<H: Hardware, F, G>(
    before: DaemonState<H>,
    after: DaemonState<H>,
    blends: Blends<F, G>,
) where
    F: Fn(FanPoint, FanPoint, Celsius) -> u8,
    G: Fn(ColorPoint, ColorPoint, Celsius) -> [u8; 3],

    requires
        stepped(before, after, blends),
    ensures
        shutdowns(after.engine.hardware.calls()) == shutdowns(before.engine.hardware.calls()),
{
    if answered(before, after) {
        let (command, now, progress) = choose|
            command: Command,
            now: Nanos,
            progress: ProgressView,
        |
            #[trigger] daemon::handled(before, after, command, now, progress);
        lemma_command_quiet(before, after, command, now, progress);
    } else if reloaded(before, after) {
        lemma_reload_quiet(before, after);
    } else if ticked(before.engine, after.engine, false, blends) {
        lemma_tick_quiet(before.engine, after.engine, false, blends);
    }
}

proof fn lemma_run_quiet<H: Hardware, F, G>(
    states: Seq<DaemonState<H>>,
    upto: int,
    blends: Blends<F, G>,
) where
    F: Fn(FanPoint, FanPoint, Celsius) -> u8,
    G: Fn(ColorPoint, ColorPoint, Celsius) -> [u8; 3],

    requires
        went_on(states, blends),
        0 <= upto < states.len(),
    ensures
        shutdowns(states[upto].engine.hardware.calls()) == shutdowns(
            states[0].engine.hardware.calls(),
        ),
    decreases upto,
{
    if upto > 0 {
        lemma_run_quiet(states, upto - 1, blends);
        lemma_step_quiet(states[upto - 1], states[upto], blends);
    }
}

// ---------------------------------------------------------------- laws

/// However long a daemon runs and whatever it is told, the hardware is shut down exactly once:
/// when the daemon ends.
pub proof fn law_hardware_is_shut_down_once<H: Hardware, F, G>(
    hardware: H,
    config: Config,
    initial: Option<Seq<char>>,
    now: Nanos,
    states: Seq<DaemonState<H>>,
    end: Engine<H>,
    blends: Blends<F, G>,
) where
    F: Fn(FanPoint, FanPoint, Celsius) -> u8,
    G: Fn(ColorPoint, ColorPoint, Celsius) -> [u8; 3],

    requires
        went_on(states, blends),
        started(hardware, states[0], config, initial, now),
        ended(states.last().engine, end, blends),
    ensures
        forall|i: int|
            0 <= i < states.len() ==> shutdowns((#[trigger] states[i]).engine.hardware.calls())
                == shutdowns(hardware.calls()),
        shutdowns(end.hardware.calls()) == shutdowns(hardware.calls()) + 1,
{
    let calls = hardware.calls();
    let checked = Call::Preflight { config, reply: Ok(states[0].engine@.devices) };
    lemma_pushed(calls, checked);
    lemma_pushed(calls.push(checked), Call::Commit { config });
    assert forall|i: int| 0 <= i < states.len() implies shutdowns(
        (#[trigger] states[i]).engine.hardware.calls(),
    ) == shutdowns(calls) by {
        lemma_run_quiet(states, i, blends);
    }
    let last = states[states.len() - 1].engine;
    if end.hardware.calls() == last.hardware.calls().push(Call::Shutdown) {
        lemma_pushed(last.hardware.calls(), Call::Shutdown);
    } else {
        let stopped = choose|stopped: Engine<H>|
            {
                &&& #[trigger] ticked(last, stopped, true, blends)
                &&& end.hardware.calls() == stopped.hardware.calls().push(Call::Shutdown)
            };
        lemma_tick_quiet(last, stopped, true, blends);
        lemma_pushed(stopped.hardware.calls(), Call::Shutdown);
    }
}

/// A daemon that was told to end, and whose worker followed, ends without an error. One whose
/// worker ended by itself with an error ends with that error.
pub proof fn law_clean_end_is_no_error(why: ErrorView, shutdown: Reply<()>, joined: Reply<()>)
    ensures
        daemon::exit_of(None, Ok(()), Ok(())) == Ok::<(), ErrorView>(()),
        daemon::exit_of(Some(Err(why)), shutdown, joined) == Err::<(), ErrorView>(why),
        daemon::exit_of(None, shutdown, joined) is Ok <==> shutdown is Ok && joined is Ok,
{
}

/// The profile that is read from the file that saved one, if any can be.
pub open spec fn read_back(path: Seq<char>, profile: Seq<char>, bytes: nat) -> Option<Seq<char>> {
    let saved = Ok((daemon::STATE_SCHEMA_VERSION, profile));
    match daemon::loaded(path, (StateFileView::Read { bytes, contents: saved })) {
        Ok(profile) => profile,
        Err(_) => None,
    }
}

/// A profile that was selected to be kept is the active one at once, and again after a restart:
/// it is read back from what was saved, chosen at the start, and shown in the status, as long as
/// the configuration has it and the file that saved it is not too large.
pub proof fn law_kept_profile_is_active_after_restart<H: Hardware>(
    before: DaemonState<H>,
    after: DaemonState<H>,
    profile: String,
    told: Nanos,
    path: Seq<char>,
    bytes: nat,
    hardware: H,
    first: DaemonState<H>,
    config: Config,
    now: Nanos,
    later: Nanos,
)
    requires
        daemon::handled(
            before,
            after,
            (Command::ProfileSet { profile, persist: true }),
            told,
            ProgressView::SaveProfile(profile@),
        ),
        profile@.len() > 0,
        bytes <= daemon::MAX_STATE_BYTES,
        names::has(config.profiles@, profile@),
        started(
            hardware,
            first,
            config,
            daemon::startup_choice(config, read_back(path, profile@, bytes)),
            now,
        ),
    ensures
        after.engine@.active_profile == profile@,
        read_back(path, profile@, bytes) == Some(profile@),
        first.engine@.active_profile == profile@,
        status::status_of(first.engine@, later).active_profile == profile@,
{
    let outcome = choose|outcome: Reply<()>|
        {
            &&& #[trigger] control::profile_step(before.engine, after.engine, outcome, profile@)
            &&& ProgressView::SaveProfile(profile@) == (match outcome {
                Err(error) => ProgressView::Done(Err(error)),
                Ok(_) => ProgressView::SaveProfile(profile@),
            })
        };
    daemon::law_saved_profile_read_back(path, profile@, bytes);
}

/// A run after a profile was selected to be kept: it starts with that profile in its status, and
/// when it is told to end and its worker follows, it ends without an error, the hardware was shut
/// down exactly once, and the socket was removed exactly once.
pub proof fn law_restarted_run_ends_cleanly<H: Hardware, F, G>(
    before: DaemonState<H>,
    after: DaemonState<H>,
    profile: String,
    told: Nanos,
    path: Seq<char>,
    bytes: nat,
    hardware: H,
    config: Config,
    now: Nanos,
    later: Nanos,
    states: Seq<DaemonState<H>>,
    end: Engine<H>,
    blends: Blends<F, G>,
    socket: Seq<char>,
    events: Seq<EventView>,
) where
    F: Fn(FanPoint, FanPoint, Celsius) -> u8,
    G: Fn(ColorPoint, ColorPoint, Celsius) -> [u8; 3],

    requires
        daemon::handled(
            before,
            after,
            (Command::ProfileSet { profile, persist: true }),
            told,
            ProgressView::SaveProfile(profile@),
        ),
        profile@.len() > 0,
        bytes <= daemon::MAX_STATE_BYTES,
        names::has(config.profiles@, profile@),
        went_on(states, blends),
        started(
            hardware,
            states[0],
            config,
            daemon::startup_choice(config, read_back(path, profile@, bytes)),
            now,
        ),
        end.hardware.calls() == states.last().engine.hardware.calls().push(Call::Shutdown),
        lifecycle::reached(socket, events) is Serving,
    ensures
        status::status_of(states[0].engine@, later).active_profile == profile@,
        ({
            let actions = lifecycle::performed(
                socket,
                lifecycle::told_to_end(events, Ok(()), Ok(())),
            );
            &&& actions.last() == ActionView::Finish(Ok(()))
            &&& lifecycle::times(actions, ActionView::Remove) == 1
        }),
        shutdowns(end.hardware.calls()) == shutdowns(hardware.calls()) + 1,
{
    law_kept_profile_is_active_after_restart(
        before,
        after,
        profile,
        told,
        path,
        bytes,
        hardware,
        states[0],
        config,
        now,
        later,
    );
    lifecycle::law_told_process_ends(socket, events, Ok(()), Ok(()));
    law_hardware_is_shut_down_once(
        hardware,
        config,
        daemon::startup_choice(config, read_back(path, profile@, bytes)),
        now,
        states,
        end,
        blends,
    );
}

} // verus!
