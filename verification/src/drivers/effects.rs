//! What a successful operation of the hardware has done: which bytes and requests its devices were
//! sent, and what they answered.

use vstd::prelude::*;

use crate::config::DeviceConfig;
use crate::config::Nanos;
use crate::config::OutputConfig;
use crate::config::SensorConfig;
use crate::drivers::corsair;
use crate::drivers::corsair::LinkDeviceView;
use crate::drivers::corsair::SpeedReading;
use crate::drivers::hub;
use crate::drivers::hub::ColorStep;
use crate::drivers::hub::HubActionView;
use crate::drivers::hub::HubModes;
use crate::drivers::hub::HubStageView;
use crate::drivers::hub::JobView;
use crate::drivers::hub::PurposeView;
use crate::drivers::hub::ReportView;
use crate::drivers::hub::TaskView;
use crate::drivers::hub::WriteStep;
use crate::drivers::nvidia;
use crate::drivers::nvidia::CallOutcome;
use crate::drivers::nvidia::HelperResponse;
use crate::drivers::nvidia::HelperResult;
use crate::drivers::nvidia::HelperView;
use crate::drivers::nvidia::RequestView;
use crate::drivers::system;
use crate::drivers::system::Helpers;
use crate::drivers::system::Hubs;
use crate::drivers::system::SystemView;
use crate::drivers::system::Work;
use crate::drivers::wire;
use crate::drivers::wireview;
use crate::drivers::wireview::ActionView;
use crate::drivers::wireview::EventView;
use crate::drivers::wireview::SessionView;
use crate::drivers::wireview::StageView;
use crate::drivers::DisplayTarget;
use crate::drivers::FanWriteView;
use crate::drivers::Reply;
use crate::drivers::SampleView;
use crate::error::ErrorView;
use crate::json::JsonView;
use crate::names;
use crate::validation;

verus! {

// ---------------------------------------------------------------- GPUs

/// Whether a helper answered a request with a result since earlier work was done.
pub open spec fn answered_since(
    before: Seq<Work>,
    after: Seq<Work>,
    request: RequestView,
    result: HelperResult,
) -> bool {
    exists|i: int| before.len() <= i < after.len() && answers(#[trigger] after[i], request, result)
}

/// Whether work is a request that a helper answered with a result.
pub open spec fn answers(work: Work, request: RequestView, result: HelperResult) -> bool {
    work matches Work::Exchange { request: asked, outcome, .. } && asked == request && outcome
        == CallOutcome::Answered(HelperResponse::Success { result })
}

proof fn lemma_helper_answered(
    before: Seq<Work>,
    after: Seq<Work>,
    helper: HelperView,
    next: HelperView,
    request: RequestView,
    timeout: Nanos,
    result: HelperResult,
)
    requires
        system::helper_asked(
            before,
            after,
            helper,
            next,
            request,
            timeout,
            Ok::<HelperResult, ErrorView>(result),
        ),
    ensures
        answered_since(before, after, request, result),
{
    let outcome = choose|outcome: CallOutcome|
        {
            &&& after == before + #[trigger] system::exchange_work(
                helper,
                request,
                timeout,
                outcome,
            )
            &&& next == nvidia::settled(helper, request is Shutdown, outcome)
            &&& Ok::<HelperResult, ErrorView>(result) == nvidia::settled_reply(helper, outcome)
        };
    let at = before.len() as int;
    assert(after[at] == system::exchange_work(helper, request, timeout, outcome)[0]);
    assert(answers(after[at], request, result));
}

proof fn lemma_gpu_answered(
    before: Seq<Work>,
    after: Seq<Work>,
    helpers: Helpers,
    next: Helpers,
    uuid: Seq<char>,
    request: RequestView,
    timeout: Nanos,
    result: HelperResult,
)
    requires
        system::gpu_asked(
            before,
            after,
            helpers,
            next,
            uuid,
            request,
            timeout,
            Ok::<HelperResult, ErrorView>(result),
        ),
    ensures
        answered_since(before, after, request, result),
{
    let reply = Ok::<HelperResult, ErrorView>(result);
    match names::find(helpers, uuid) {
        Some(helper) => {
            let asked = choose|asked: HelperView|
                {
                    &&& #[trigger] system::helper_asked(
                        before,
                        after,
                        helper,
                        asked,
                        request,
                        timeout,
                        reply,
                    )
                    &&& next == names::inserted(helpers, uuid, asked)
                };
            lemma_helper_answered(before, after, helper, asked, request, timeout, result);
        },
        None => {
            let spawned = choose|spawned: Reply<()>|
                {
                    let started = before.push(#[trigger] system::spawn_work(uuid, spawned));
                    match spawned {
                        Err(error) => false,
                        Ok(_) => exists|asked: HelperView|
                            {
                                &&& #[trigger] system::helper_asked(
                                    started,
                                    after,
                                    nvidia::fresh(uuid),
                                    asked,
                                    request,
                                    timeout,
                                    reply,
                                )
                                &&& next == names::inserted(helpers, uuid, asked)
                            },
                    }
                };
            let started = before.push(system::spawn_work(uuid, spawned));
            let asked = choose|asked: HelperView|
                {
                    &&& #[trigger] system::helper_asked(
                        started,
                        after,
                        nvidia::fresh(uuid),
                        asked,
                        request,
                        timeout,
                        reply,
                    )
                    &&& next == names::inserted(helpers, uuid, asked)
                };
            lemma_helper_answered(
                started,
                after,
                nvidia::fresh(uuid),
                asked,
                request,
                timeout,
                result,
            );
            let i = choose|i: int|
                started.len() <= i < after.len() && answers(#[trigger] after[i], request, result);
            assert(answers(after[i], request, result));
        },
    }
}

/// A fan write that succeeds on a GPU was asked of the GPU with that UUID, for the channels of the
/// output and the duty that was to be set, and what it answered is reported.
pub proof fn law_gpu_was_asked_to_set_its_fans(
    before: SystemView,
    after: SystemView,
    alias: Seq<char>,
    config: OutputConfig,
    percent: u8,
    write: FanWriteView,
    uuid: String,
)
    requires
        config is Fan,
        names::find(before.devices, config->Fan_device@) == Some(DeviceConfig::NvidiaNvml { uuid }),
        system::fan_written(
            before,
            after,
            alias,
            config,
            percent,
            Ok::<FanWriteView, ErrorView>(write),
        ),
    ensures
        exists|result: HelperResult|
            {
                &&& #[trigger] answered_since(
                    before.work,
                    after.work,
                    RequestView::SetFans {
                        alias: config->Fan_device@,
                        uuid: uuid@,
                        channels: config->Fan_channels@,
                        percent,
                    },
                    result,
                )
                &&& result matches HelperResult::Value(report) && write.observed == report@
            },
{
    let request = RequestView::SetFans {
        alias: config->Fan_device@,
        uuid: uuid@,
        channels: config->Fan_channels@,
        percent,
    };
    let (asked, answer) = choose|asked: Seq<Work>, answer: Reply<HelperResult>|
        {
            &&& #[trigger] system::gpu_asked(
                before.work,
                asked,
                before.helpers,
                after.helpers,
                uuid@,
                request,
                before.timeout,
                answer,
            )
            &&& system::write_in(
                asked,
                after.work,
                answer,
                Ok::<FanWriteView, ErrorView>(write),
            )
        };
    let result = answer->Ok_0;
    lemma_gpu_answered(
        before.work,
        asked,
        before.helpers,
        after.helpers,
        uuid@,
        request,
        before.timeout,
        result,
    );
    assert(answered_since(before.work, after.work, request, result));
}

/// A GPU that was given back was asked to give its fans back, and did.
pub proof fn law_gpu_was_asked_to_release_its_fans(
    before: SystemView,
    after: SystemView,
    alias: Seq<char>,
    config: OutputConfig,
    uuid: String,
)
    requires
        config is Fan,
        names::find(before.devices, config->Fan_device@) == Some(DeviceConfig::NvidiaNvml { uuid }),
        system::output_released(before, after, alias, config, Ok::<(), ErrorView>(())),
    ensures
        answered_since(
            before.work,
            after.work,
            RequestView::Release { alias, uuid: uuid@ },
            HelperResult::Unit,
        ),
{
    let request = RequestView::Release { alias, uuid: uuid@ };
    let (asked, answer) = choose|asked: Seq<Work>, answer: Reply<HelperResult>|
        {
            &&& #[trigger] system::gpu_asked(
                before.work,
                asked,
                before.helpers,
                after.helpers,
                uuid@,
                request,
                before.timeout,
                answer,
            )
            &&& system::release_in(asked, after.work, answer, Ok::<(), ErrorView>(()))
        };
    lemma_gpu_answered(
        before.work,
        asked,
        before.helpers,
        after.helpers,
        uuid@,
        request,
        before.timeout,
        answer->Ok_0,
    );
}

/// The temperature of a GPU is what its helper answered for that GPU.
pub proof fn law_gpu_was_asked_for_its_temperature(
    before: SystemView,
    after: SystemView,
    alias: Seq<char>,
    device: String,
    sample: SampleView,
    uuid: String,
)
    requires
        names::find(before.devices, device@) == Some(DeviceConfig::NvidiaNvml { uuid }),
        system::sensor_read(
            before,
            after,
            alias,
            SensorConfig::NvidiaNvml { device },
            Ok::<SampleView, ErrorView>(sample),
        ),
    ensures
        answered_since(
            before.work,
            after.work,
            RequestView::ReadTemperature { alias, uuid: uuid@ },
            HelperResult::Temperature(sample.celsius),
        ),
{
    let request = RequestView::ReadTemperature { alias, uuid: uuid@ };
    let reply = Ok::<SampleView, ErrorView>(sample);
    let (asked, answer) = choose|asked: Seq<Work>, answer: Reply<HelperResult>|
        {
            &&& #[trigger] system::gpu_asked(
                before.work,
                asked,
                before.helpers,
                after.helpers,
                uuid@,
                request,
                before.timeout,
                answer,
            )
            &&& system::temperature_in(asked, after.work, answer, reply)
        };
    lemma_gpu_answered(
        before.work,
        asked,
        before.helpers,
        after.helpers,
        uuid@,
        request,
        before.timeout,
        answer->Ok_0,
    );
    let i = choose|i: int|
        before.work.len() <= i < asked.len() && answers(#[trigger] asked[i], request, answer->Ok_0);
    assert(after.work[i] == asked[i]);
}

// ---------------------------------------------------------------- hubs

proof fn lemma_tried_grows(
    before: Seq<Work>,
    after: Seq<Work>,
    hubs: Hubs,
    next: Hubs,
    alias: Seq<char>,
    config: DeviceConfig,
    task: TaskView,
    fresh: HubModes,
    outcome: Reply<ReportView>,
    fault: bool,
)
    requires
        system::hub_tried(
            before,
            after,
            hubs,
            next,
            alias,
            config,
            task,
            fresh,
            outcome,
            fault,
        ),
    ensures
        before.len() <= after.len(),
{
}

proof fn lemma_try_ran(
    before: Seq<Work>,
    after: Seq<Work>,
    hubs: Hubs,
    next: Hubs,
    alias: Seq<char>,
    config: DeviceConfig,
    task: TaskView,
    fresh: HubModes,
    outcome: Reply<ReportView>,
    fault: bool,
) -> (run: (Seq<Work>, HubModes, HubModes))
    requires
        !(task is Release),
        outcome is Ok,
        system::hub_tried(
            before,
            after,
            hubs,
            next,
            alias,
            config,
            task,
            fresh,
            outcome,
            fault,
        ),
    ensures
        before.len() <= run.0.len(),
        system::task_ran(run.0, after, alias, task, run.1, run.2, outcome, false),
{
    let (ready, modes) = match names::find(hubs, alias) {
        Some(modes) => (before, modes),
        None => {
            let (ready, opened, unopened) = choose|
                ready: Seq<Work>,
                opened: Reply<()>,
                unopened: bool,
            |
                {
                    &&& #[trigger] system::hub_opened(
                        before,
                        ready,
                        alias,
                        config,
                        opened,
                        unopened,
                    )
                    &&& match opened {
                        Err(error) => false,
                        Ok(_) => system::open_hub_tried(
                            ready,
                            after,
                            hubs,
                            next,
                            alias,
                            task,
                            fresh,
                            outcome,
                            fault,
                        ),
                    }
                };
            (ready, fresh)
        },
    };
    let (ran, left) = choose|ran: Seq<Work>, left: HubModes|
        {
            &&& #[trigger] system::task_ran(ready, ran, alias, task, modes, left, outcome, fault)
            &&& system::hub_kept(ran, after, hubs, next, alias, task, left, fault)
        };
    if fault {
        system::law_faults_are_reported(ready, ran, alias, task, modes, left, outcome);
    }
    (ready, modes, left)
}

proof fn lemma_success_ran(
    before: Seq<Work>,
    after: Seq<Work>,
    hubs: Hubs,
    next: Hubs,
    alias: Seq<char>,
    config: DeviceConfig,
    task: TaskView,
    outcome: Reply<ReportView>,
) -> (run: (Seq<Work>, HubModes, HubModes))
    requires
        !(task is Release),
        outcome is Ok,
        system::hub_ran(before, after, hubs, next, alias, config, task, outcome),
    ensures
        before.len() <= run.0.len(),
        system::task_ran(run.0, after, alias, task, run.1, run.2, outcome, false),
{
    let again = system::second_modes(hubs, alias, task);
    let (middle, between, first, fault) = choose|
        middle: Seq<Work>,
        between: Hubs,
        first: Reply<ReportView>,
        fault: bool,
    |
        {
            &&& #[trigger] system::hub_tried(
                before,
                middle,
                hubs,
                between,
                alias,
                config,
                task,
                hub::hardware_modes(),
                first,
                fault,
            )
            &&& if fault {
                system::hub_tried_again(
                    middle.push(system::retry_pause()),
                    after,
                    between,
                    next,
                    alias,
                    config,
                    task,
                    again,
                    outcome,
                )
            } else {
                after == middle && next == between && outcome == first
            }
        };
    if fault {
        let paused = middle.push(system::retry_pause());
        let failed = choose|failed: bool|
            #[trigger] system::hub_tried(
                paused,
                after,
                between,
                next,
                alias,
                config,
                task,
                again,
                outcome,
                failed,
            );
        lemma_tried_grows(
            before,
            middle,
            hubs,
            between,
            alias,
            config,
            task,
            hub::hardware_modes(),
            first,
            fault,
        );
        lemma_try_ran(
            paused,
            after,
            between,
            next,
            alias,
            config,
            task,
            again,
            outcome,
            failed,
        )
    } else {
        lemma_try_ran(
            before,
            after,
            hubs,
            next,
            alias,
            config,
            task,
            hub::hardware_modes(),
            outcome,
            fault,
        )
    }
}

/// Whether work is a packet that sets channels of a hub to a duty, which the hub accepted with
/// status zero.
pub open spec fn sets_fans(work: Work, alias: Seq<char>, channels: Seq<u8>, percent: u8) -> bool {
    work matches Work::Transfer { alias: own, packet, reply } && own == alias && (reply matches Ok(
        answer,
    ) && answer.len() > 3 && answer[3] == 0) && wire::speed_packet(packet, channels, percent)
}

/// Whether channels are the selection of listed ones on a hub.
pub open spec fn selects(listed: Seq<u32>, channels: Seq<u8>) -> bool {
    exists|devices: Seq<LinkDeviceView>, speeds: Seq<SpeedReading>|
        #[trigger] corsair::selection(listed, devices, speeds) == Ok::<Seq<u8>, ErrorView>(channels)
}

/// Whether a hub accepted, among some work, a packet that sets channels to a duty.
pub open spec fn fans_were_set(
    work: Seq<Work>,
    alias: Seq<char>,
    channels: Seq<u8>,
    percent: u8,
) -> bool {
    exists|i: int| 0 <= i < work.len() && sets_fans(#[trigger] work[i], alias, channels, percent)
}

/// What holds of a fan task throughout.
spec fn fan_trace(
    job: JobView,
    action: HubActionView,
    work: Seq<Work>,
    alias: Seq<char>,
    listed: Seq<u32>,
    percent: u8,
) -> bool {
    &&& job.task matches TaskView::Fans { channels, percent: asked, .. } && channels == listed
        && asked == percent
    &&& match job.stage {
        HubStageView::Setting { selected, step, status, .. } => {
            &&& selected.len() <= 255
            &&& selects(listed, selected)
            &&& step == WriteStep::Data ==> (action matches HubActionView::Transfer { transfer, .. }
                && transfer == wire::speed_transfer(selected, percent))
            &&& step == WriteStep::Shut && status == Some(0u8) ==> fans_were_set(
                work,
                alias,
                selected,
                percent,
            )
        },
        HubStageView::Reading { purpose, .. } => {
            &&& purpose is Devices || purpose is SpeedsBefore || purpose is SpeedsAfter
            &&& purpose matches PurposeView::SpeedsAfter { selected, .. } ==> selects(
                listed,
                selected,
            ) && fans_were_set(work, alias, selected, percent)
        },
        HubStageView::Freeing | HubStageView::Restoring { .. } | HubStageView::Coloring { .. } => {
            false
        },
        _ => true,
    }
    &&& action matches HubActionView::Finish(Ok(_)) ==> exists|selected: Seq<u8>|
        selects(listed, selected) && #[trigger] fans_were_set(work, alias, selected, percent)
    &&& action matches HubActionView::Finish(_) ==> job.stage is Over
}

proof fn lemma_still_set(
    work: Seq<Work>,
    more: Seq<Work>,
    alias: Seq<char>,
    channels: Seq<u8>,
    percent: u8,
)
    requires
        fans_were_set(work, alias, channels, percent),
    ensures
        fans_were_set(work + more, alias, channels, percent),
{
    let i = choose|i: int|
        0 <= i < work.len() && sets_fans(#[trigger] work[i], alias, channels, percent);
    assert((work + more)[i] == work[i]);
}

proof fn lemma_fan_trace(
    alias: Seq<char>,
    task: TaskView,
    modes: HubModes,
    replies: Seq<Reply<Seq<u8>>>,
    listed: Seq<u32>,
    percent: u8,
)
    requires
        task matches TaskView::Fans { channels, percent: asked, .. } && channels == listed && asked
            == percent,
    ensures
        ({
            let first = hub::started(hub::idle_job(alias, task, modes));
            let (job, action) = system::job_after(first, replies);
            fan_trace(
                job,
                action,
                system::job_work(alias, first, replies),
                alias,
                listed,
                percent,
            )
        }),
    decreases replies.len(),
{
    let first = hub::started(hub::idle_job(alias, task, modes));
    if replies.len() > 0 {
        let earlier = replies.drop_last();
        lemma_fan_trace(alias, task, modes, earlier, listed, percent);
        let (job, action) = system::job_after(first, earlier);
        let work = system::job_work(alias, first, earlier);
        let (next, then_do) = system::job_after(first, replies);
        if let HubActionView::Transfer { pause_ms, transfer } = action {
            let more = system::transfer_work(alias, pause_ms, transfer, replies.last());
            let event = system::transfer_event(transfer, replies.last());
            assert(system::job_work(alias, first, replies) == work + more);
            match job.stage {
                HubStageView::Setting { topology, selected, rejected, step, status } => {
                    if step == WriteStep::Data {
                        wire::law_speed_packet_carries_channels_and_duty(selected, percent);
                        if let hub::HubEventView::Answer(answer) = event {
                            let packet = hub::packet_of(hub::request_bytes(transfer))->Ok_0;
                            let done = Work::Transfer { alias, packet, reply: Ok(answer) };
                            assert(more.last() == done);
                            let at = work.len() + more.len() - 1;
                            assert((work + more)[at] == done);
                            if answer.len() > 3 && answer[3] == 0 {
                                assert(sets_fans((work + more)[at], alias, selected, percent));
                                assert(fans_were_set(work + more, alias, selected, percent));
                            }
                        }
                    }
                    if step == WriteStep::Shut && status == Some(0u8) {
                        lemma_still_set(work, more, alias, selected, percent);
                    }
                },
                HubStageView::Reading { purpose, step, response } => {
                    if let PurposeView::SpeedsAfter { selected, topology } = purpose {
                        lemma_still_set(work, more, alias, selected, percent);
                        assert(selects(listed, selected) && fans_were_set(
                            work + more,
                            alias,
                            selected,
                            percent,
                        ));
                    }
                    if let PurposeView::SpeedsBefore { topology } = purpose {
                        if step == hub::ReadStep::Shut {
                            if let HubStageView::Setting { selected, .. } = next.stage {
                                let speeds = corsair::speeds_in(response)->Ok_0;
                                assert(corsair::selection(listed, topology.devices, speeds) == Ok::<
                                    Seq<u8>,
                                    ErrorView,
                                >(selected));
                                assert(selects(listed, selected));
                            }
                        }
                    }
                },
                _ => {},
            }
        }
    }
}

/// A fan write that succeeds on a hub has sent it a packet that sets the selected channels to the
/// duty that was asked for, and the hub accepted that packet.
pub proof fn law_hub_was_told_the_duty(
    before: SystemView,
    after: SystemView,
    alias: Seq<char>,
    config: OutputConfig,
    percent: u8,
    write: FanWriteView,
)
    requires
        config is Fan,
        names::find(before.devices, config->Fan_device@) matches Some(device) && device
            is CorsairIcueLink,
        system::fan_written(
            before,
            after,
            alias,
            config,
            percent,
            Ok::<FanWriteView, ErrorView>(write),
        ),
    ensures
        exists|channels: Seq<u8>|
            {
                &&& selects(config->Fan_channels@, channels)
                &&& #[trigger] fans_were_set(
                    after.work.skip(before.work.len() as int),
                    config->Fan_device@,
                    channels,
                    percent,
                )
            },
{
    let device = names::find(before.devices, config->Fan_device@)->0;
    let name = config->Fan_device@;
    let listed = config->Fan_channels@;
    let task = TaskView::Fans {
        channels: listed,
        percent,
        expected_fan_count: device->expected_fan_count,
    };
    let route = crate::drivers::DeviceRouteView { device: name, config: device };
    let report = choose|report: Reply<ReportView>|
        {
            &&& #[trigger] system::hub_used(before, after, route, task, report)
            &&& Ok::<FanWriteView, ErrorView>(write) == system::fans_in(name, report)
        };
    let (ready, modes, left) = lemma_success_ran(
        before.work,
        after.work,
        before.hubs,
        after.hubs,
        name,
        device,
        task,
        report,
    );
    let first = hub::started(hub::idle_job(name, task, modes));
    let replies = choose|replies: Seq<Reply<Seq<u8>>>|
        {
            &&& after.work == ready + #[trigger] system::job_work(name, first, replies)
            &&& system::job_after(first, replies).1 == HubActionView::Finish(report)
            &&& system::job_after(first, replies).0.modes == left
            &&& system::job_fault(first, replies) == false
        };
    lemma_fan_trace(name, task, modes, replies, listed, percent);
    let work = system::job_work(name, first, replies);
    let channels = choose|selected: Seq<u8>|
        selects(listed, selected) && #[trigger] fans_were_set(work, name, selected, percent);
    let i = choose|i: int|
        0 <= i < work.len() && sets_fans(#[trigger] work[i], name, channels, percent);
    let since = after.work.skip(before.work.len() as int);
    assert(since[ready.len() - before.work.len() + i] == work[i]);
    assert(fans_were_set(since, name, channels, percent));
}

/// Whether work is a packet that sets the lights of a hub to a color, which the hub accepted with
/// status zero.
pub open spec fn sets_color(work: Work, alias: Seq<char>, led_count: int, rgb: [u8; 3]) -> bool {
    work matches Work::Transfer { alias: own, packet, reply } && own == alias && (reply matches Ok(
        answer,
    ) && answer.len() > 3 && answer[3] == 0) && wire::color_packet(packet, led_count, rgb)
}

/// Whether a hub accepted, among some work, a packet that sets its lights to a color.
pub open spec fn color_was_set(
    work: Seq<Work>,
    alias: Seq<char>,
    led_count: int,
    rgb: [u8; 3],
) -> bool {
    exists|i: int| 0 <= i < work.len() && sets_color(#[trigger] work[i], alias, led_count, rgb)
}

/// What holds of a color task throughout.
spec fn color_trace(
    job: JobView,
    action: HubActionView,
    work: Seq<Work>,
    alias: Seq<char>,
    led_count: u16,
    rgb: [u8; 3],
) -> bool {
    &&& job.task == (TaskView::Rgb { led_count, rgb })
    &&& job.stage is Resetting || job.stage is Entering || job.stage is Coloring || job.stage
        is Over
    &&& job.stage == (HubStageView::Coloring { step: ColorStep::Data }) ==> (
    action matches HubActionView::Transfer { transfer, .. } && transfer == wire::color_transfer(
        led_count,
        rgb,
    ))
    &&& action matches HubActionView::Finish(Ok(_)) ==> color_was_set(
        work,
        alias,
        led_count as int,
        rgb,
    )
}

proof fn lemma_color_trace(
    alias: Seq<char>,
    led_count: u16,
    rgb: [u8; 3],
    modes: HubModes,
    replies: Seq<Reply<Seq<u8>>>,
)
    ensures
        ({
            let task = TaskView::Rgb { led_count, rgb };
            let first = hub::started(hub::idle_job(alias, task, modes));
            let (job, action) = system::job_after(first, replies);
            color_trace(
                job,
                action,
                system::job_work(alias, first, replies),
                alias,
                led_count,
                rgb,
            )
        }),
    decreases replies.len(),
{
    let task = TaskView::Rgb { led_count, rgb };
    let first = hub::started(hub::idle_job(alias, task, modes));
    if replies.len() > 0 {
        let earlier = replies.drop_last();
        lemma_color_trace(alias, led_count, rgb, modes, earlier);
        let (job, action) = system::job_after(first, earlier);
        let work = system::job_work(alias, first, earlier);
        if let HubActionView::Transfer { pause_ms, transfer } = action {
            let more = system::transfer_work(alias, pause_ms, transfer, replies.last());
            let event = system::transfer_event(transfer, replies.last());
            assert(system::job_work(alias, first, replies) == work + more);
            if job.stage == (HubStageView::Coloring { step: ColorStep::Data }) {
                wire::law_color_packet_carries_the_color(led_count, rgb);
                if let hub::HubEventView::Answer(answer) = event {
                    let packet = hub::packet_of(hub::request_bytes(transfer))->Ok_0;
                    let done = Work::Transfer { alias, packet, reply: Ok(answer) };
                    assert(more.last() == done);
                    let at = work.len() + more.len() - 1;
                    assert((work + more)[at] == done);
                    if answer.len() > 3 && answer[3] == 0 {
                        assert(sets_color((work + more)[at], alias, led_count as int, rgb));
                    }
                }
            }
        }
    }
}

/// A color that was set on a hub was sent to it for each of its lights, and the hub accepted that.
pub proof fn law_hub_was_told_the_color(
    before: SystemView,
    after: SystemView,
    alias: Seq<char>,
    config: OutputConfig,
    rgb: [u8; 3],
    report: JsonView,
)
    requires
        config is Rgb,
        system::rgb_written(before, after, alias, config, rgb, Ok::<JsonView, ErrorView>(report)),
    ensures
        color_was_set(
            after.work.skip(before.work.len() as int),
            config->Rgb_device@,
            config->led_count as int,
            rgb,
        ),
{
    let name = config->Rgb_device@;
    let led_count = config->led_count;
    let device = names::find(before.devices, name)->0;
    let task = TaskView::Rgb { led_count, rgb };
    let route = crate::drivers::DeviceRouteView { device: name, config: device };
    let told = choose|told: Reply<ReportView>|
        {
            &&& #[trigger] system::hub_used(before, after, route, task, told)
            &&& Ok::<JsonView, ErrorView>(report) == system::rgb_in(name, told)
        };
    let (ready, modes, left) = lemma_success_ran(
        before.work,
        after.work,
        before.hubs,
        after.hubs,
        name,
        device,
        task,
        told,
    );
    let first = hub::started(hub::idle_job(name, task, modes));
    let replies = choose|replies: Seq<Reply<Seq<u8>>>|
        {
            &&& after.work == ready + #[trigger] system::job_work(name, first, replies)
            &&& system::job_after(first, replies).1 == HubActionView::Finish(told)
            &&& system::job_after(first, replies).0.modes == left
            &&& system::job_fault(first, replies) == false
        };
    lemma_color_trace(name, led_count, rgb, modes, replies);
    let work = system::job_work(name, first, replies);
    let i = choose|i: int|
        0 <= i < work.len() && sets_color(#[trigger] work[i], name, led_count as int, rgb);
    let since = after.work.skip(before.work.len() as int);
    assert(since[ready.len() - before.work.len() + i] == work[i]);
}

// ---------------------------------------------------------------- giving control back

/// Whether work is a packet with the command `01 03 00 01` to a hub.
pub open spec fn gives_control_back(work: Work, alias: Seq<char>) -> bool {
    work matches Work::Transfer { alias: own, packet, .. } && own == alias && packet.len() == 513
        && packet[2] == 1 && packet[3] == 0x01 && packet[4] == 0x03 && packet[5] == 0x00
        && packet[6] == 0x01
}

/// A release that succeeds on a hub under control of the software has sent it the hardware-mode
/// command, and the hub answered.
pub proof fn law_released_hub_was_sent_the_command(
    before: SystemView,
    after: SystemView,
    alias: Seq<char>,
    config: OutputConfig,
) -> (at: int)
    requires
        names::sorted(before.hubs),
        names::find(before.devices, validation::device_of(config)) matches Some(device) && device
            is CorsairIcueLink,
        names::find(before.hubs, validation::device_of(config)) matches Some(modes)
            && modes.software,
        system::output_released(before, after, alias, config, Ok::<(), ErrorView>(())),
    ensures
        before.work.len() <= at < after.work.len(),
        gives_control_back(after.work[at], validation::device_of(config)),
        after.work[at]->Transfer_reply is Ok,
{
    let name = validation::device_of(config);
    let device = names::find(before.devices, name)->0;
    let route = crate::drivers::DeviceRouteView { device: name, config: device };
    let report = choose|report: Reply<ReportView>|
        {
            &&& #[trigger] system::hub_used(before, after, route, TaskView::Release, report)
            &&& Ok::<(), ErrorView>(()) == system::success(report)
        };
    system::law_released_hub_was_told(
        before.work,
        after.work,
        before.hubs,
        after.hubs,
        name,
        device,
        report,
    );
    let since = after.work.skip(before.work.len() as int);
    let answer = choose|answer: Seq<u8>|
        since.contains(#[trigger] system::told_work(name, answer));
    let i = choose|i: int| 0 <= i < since.len() && since[i] == system::told_work(name, answer);
    let at = before.work.len() + i;
    assert(after.work[at] == since[i]);
    at
}

proof fn lemma_first_transfer(
    alias: Seq<char>,
    first: (JobView, HubActionView),
    replies: Seq<Reply<Seq<u8>>>,
)
    requires
        replies.len() > 0,
        first.1 matches HubActionView::Transfer { pause_ms, transfer } && pause_ms == 0
            && transfer is HardwareMode,
    ensures
        system::job_work(alias, first, replies).len() > 0,
        gives_control_back(system::job_work(alias, first, replies)[0], alias),
    decreases replies.len(),
{
    let earlier = replies.drop_last();
    if replies.len() == 1 {
        assert(system::job_after(first, earlier) == first);
        assert(system::job_work(alias, first, earlier) =~= Seq::empty());
    } else {
        lemma_first_transfer(alias, first, earlier);
    }
}

/// A hub under control of the software that the daemon lets go of is sent the hardware-mode
/// command, whatever comes of it.
pub proof fn law_ended_hub_was_told(
    before: Seq<Work>,
    after: Seq<Work>,
    alias: Seq<char>,
    modes: HubModes,
) -> (at: int)
    requires
        modes.software,
        system::hub_ended(before, after, alias, modes),
    ensures
        before.len() <= at < after.len(),
        gives_control_back(after[at], alias),
        after.take(before.len() as int) == before,
{
    let (freed, left, outcome, fault) = choose|
        freed: Seq<Work>,
        left: HubModes,
        outcome: Reply<ReportView>,
        fault: bool,
    |
        {
            &&& #[trigger] system::task_ran(
                before,
                freed,
                alias,
                TaskView::Release,
                modes,
                left,
                outcome,
                fault,
            )
            &&& match outcome {
                Ok(_) => after == freed.push(Work::CloseHub { alias }),
                Err(_) => system::hub_let_go(freed, after, alias, left),
            }
        };
    let first = hub::started(hub::idle_job(alias, TaskView::Release, modes));
    let replies = choose|replies: Seq<Reply<Seq<u8>>>|
        {
            &&& freed == before + #[trigger] system::job_work(alias, first, replies)
            &&& system::job_after(first, replies).1 == HubActionView::Finish(outcome)
            &&& system::job_after(first, replies).0.modes == left
            &&& system::job_fault(first, replies) == fault
        };
    lemma_first_transfer(alias, first, replies);
    let at = before.len() as int;
    assert(freed[at] == system::job_work(alias, first, replies)[0]);
    assert(freed.len() <= after.len() && after.take(freed.len() as int) =~= freed);
    assert(after[at] == after.take(freed.len() as int)[at]);
    assert(after.take(before.len() as int) =~= before) by {
        assert forall|i: int| 0 <= i < before.len() implies after[i] == before[i] by {
            assert(after.take(freed.len() as int)[i] == freed[i]);
        }
    }
    at
}

proof fn lemma_ended_grows(before: Seq<Work>, after: Seq<Work>, alias: Seq<char>, modes: HubModes)
    requires
        system::hub_ended(before, after, alias, modes),
    ensures
        before.len() <= after.len(),
        after.take(before.len() as int) == before,
{
    let (freed, left, outcome, fault) = choose|
        freed: Seq<Work>,
        left: HubModes,
        outcome: Reply<ReportView>,
        fault: bool,
    |
        {
            &&& #[trigger] system::task_ran(
                before,
                freed,
                alias,
                TaskView::Release,
                modes,
                left,
                outcome,
                fault,
            )
            &&& match outcome {
                Ok(_) => after == freed.push(Work::CloseHub { alias }),
                Err(_) => system::hub_let_go(freed, after, alias, left),
            }
        };
    assert(freed.take(before.len() as int) =~= before);
    assert(after.take(freed.len() as int) =~= freed);
    assert(after.take(before.len() as int) =~= before) by {
        assert forall|i: int| 0 <= i < before.len() implies after[i] == before[i] by {
            assert(after.take(freed.len() as int)[i] == freed[i]);
            assert(freed.take(before.len() as int)[i] == before[i]);
        }
    }
}

/// A shutdown sends the hardware-mode command to every hub that is under control of the software.
pub proof fn law_shutdown_tells_every_hub(
    before: Seq<Work>,
    after: Seq<Work>,
    hubs: Hubs,
    count: int,
    which: int,
) -> (at: int)
    requires
        system::hubs_ended(before, after, hubs, count),
        0 <= which < count <= hubs.len(),
        hubs[which].1.software,
    ensures
        before.len() <= at < after.len(),
        gives_control_back(after[at], hubs[which].0),
    decreases count,
{
    let middle = choose|middle: Seq<Work>|
        {
            &&& system::hubs_ended(before, middle, hubs, count - 1)
            &&& #[trigger] system::hub_ended(middle, after, hubs[count - 1].0, hubs[count - 1].1)
        };
    lemma_hubs_grow(before, middle, hubs, count - 1);
    if which == count - 1 {
        law_ended_hub_was_told(middle, after, hubs[which].0, hubs[which].1)
    } else {
        let at = law_shutdown_tells_every_hub(before, middle, hubs, count - 1, which);
        lemma_ended_grows(middle, after, hubs[count - 1].0, hubs[count - 1].1);
        assert(after[at] == after.take(middle.len() as int)[at]);
        at
    }
}

proof fn lemma_hubs_grow(before: Seq<Work>, after: Seq<Work>, hubs: Hubs, count: int)
    requires
        system::hubs_ended(before, after, hubs, count),
    ensures
        before.len() <= after.len(),
    decreases count,
{
    if count > 0 {
        let middle = choose|middle: Seq<Work>|
            {
                &&& system::hubs_ended(before, middle, hubs, count - 1)
                &&& #[trigger] system::hub_ended(
                    middle,
                    after,
                    hubs[count - 1].0,
                    hubs[count - 1].1,
                )
            };
        lemma_hubs_grow(before, middle, hubs, count - 1);
        lemma_ended_grows(middle, after, hubs[count - 1].0, hubs[count - 1].1);
    }
}

/// A helper that is in service and is to end is asked to shut its GPU down.
pub proof fn law_ended_helper_was_asked(
    before: Seq<Work>,
    after: Seq<Work>,
    helper: HelperView,
    timeout: Nanos,
)
    requires
        helper.running,
        helper.quarantined is None,
        system::helper_ended(before, after, helper, timeout),
    ensures
        before.len() < after.len(),
        after[before.len() as int] matches Work::Exchange { label, request, .. } && label
            == helper.label && request is Shutdown,
{
    let (next, reply) = choose|next: HelperView, reply: Reply<HelperResult>| #[trigger]
        system::helper_asked(
            before,
            after,
            helper,
            next,
            RequestView::Shutdown,
            timeout,
            reply,
        );
    let outcome = choose|outcome: CallOutcome|
        {
            &&& after == before + #[trigger] system::exchange_work(
                helper,
                RequestView::Shutdown,
                timeout,
                outcome,
            )
            &&& next == nvidia::settled(helper, true, outcome)
            &&& reply == nvidia::settled_reply(helper, outcome)
        };
    assert(after[before.len() as int] == system::exchange_work(
        helper,
        RequestView::Shutdown,
        timeout,
        outcome,
    )[0]);
}

// ---------------------------------------------------------------- displays

/// Whether a configuration of a display has the settings of a state.
pub open spec fn shows(config: Seq<u8>, target: DisplayTarget) -> bool {
    let (mode, seconds) = wireview::timeout_bytes(config[2]);
    &&& config.len() > 2 && config[2] <= 2 && config.len() > seconds
    &&& match target {
        DisplayTarget::Sleep => config[44] == 0 && config[mode] == 2 && config[seconds] == 5,
        DisplayTarget::Awake { brightness_percent } => config[44] == brightness_percent
            && config[mode] == 0 && config[seconds] == 30,
    }
}

/// Whether work wrote a configuration to a display.
pub open spec fn writes(work: Work, target: DisplayTarget) -> bool {
    work matches Work::Perform { action, event } && event is Done && (action matches ActionView::Write {
        frames,
    } && shows(wireview::payloads(frames, frames.len() as int), target))
}

/// Whether work read the rest of a configuration from a display.
pub open spec fn reads_rest(work: Work, bytes: Seq<u8>) -> bool {
    work matches Work::Perform { action, event } && action is Read && event == EventView::Done(
        bytes,
    )
}

/// Whether work read the start of a configuration from a display.
pub open spec fn reads_start(work: Work, header: Seq<u8>) -> bool {
    work == (Work::Perform {
        action: ActionView::Ask { request: 0x05, count: 4 },
        event: EventView::Done(header),
    })
}

/// Whether a display was put in a state, or said that it is in it.
pub open spec fn display_shows(work: Seq<Work>, target: DisplayTarget) -> bool {
    ||| exists|i: int| 0 <= i < work.len() && writes(#[trigger] work[i], target)
    ||| exists|i: int, header: Seq<u8>, bytes: Seq<u8>|
        {
            &&& 0 <= i < work.len() - 1
            &&& #[trigger] reads_start(work[i], header)
            &&& #[trigger] reads_rest(work[i + 1], bytes)
            &&& shows(header + bytes, target)
        }
}

/// What holds of a display change throughout.
spec fn display_trace(
    session: SessionView,
    action: ActionView,
    work: Seq<Work>,
    target: DisplayTarget,
) -> bool {
    &&& session.target == target
    &&& match session.stage {
        StageView::Header { .. } => action == (ActionView::Ask { request: 0x05, count: 4 }),
        StageView::Body { header, .. } => {
            &&& action is Read
            &&& work.len() > 0 && reads_start(work.last(), header)
        },
        StageView::Writing { .. } => action matches ActionView::Write { frames } && shows(
            wireview::payloads(frames, frames.len() as int),
            target,
        ),
        StageView::Repainting { .. } => display_shows(work, target),
        _ => true,
    }
    &&& action matches ActionView::Finish(Ok(_)) ==> display_shows(work, target)
    &&& action is Finish ==> session.stage is Over
}

proof fn lemma_still_shows(work: Seq<Work>, last: Work, target: DisplayTarget)
    requires
        display_shows(work, target),
    ensures
        display_shows(work.push(last), target),
{
    let longer = work.push(last);
    if exists|i: int| 0 <= i < work.len() && writes(#[trigger] work[i], target) {
        let i = choose|i: int| 0 <= i < work.len() && writes(#[trigger] work[i], target);
        assert(writes(longer[i], target));
    } else {
        let (i, header, bytes) = choose|i: int, header: Seq<u8>, bytes: Seq<u8>|
            {
                &&& 0 <= i < work.len() - 1
                &&& #[trigger] reads_start(work[i], header)
                &&& #[trigger] reads_rest(work[i + 1], bytes)
                &&& shows(header + bytes, target)
            };
        assert(reads_start(longer[i], header));
        assert(reads_rest(longer[i + 1], bytes));
    }
}

proof fn lemma_display_trace(
    first: (SessionView, ActionView),
    events: Seq<EventView>,
    target: DisplayTarget,
)
    requires
        first.0.target == target,
        first.0.stage is Welcome,
        !(first.1 is Finish),
    ensures
        ({
            let (session, action) = system::session_after(first, events);
            display_trace(session, action, system::session_work(first, events), target)
        }),
    decreases events.len(),
{
    if events.len() > 0 {
        let earlier = events.drop_last();
        lemma_display_trace(first, earlier, target);
        let (session, action) = system::session_after(first, earlier);
        let work = system::session_work(first, earlier);
        if !(action is Finish) {
            let done = Work::Perform { action, event: events.last() };
            let longer = system::session_work(first, events);
            assert(longer == work.push(done));
            let (stage, next) = wireview::session_next(session, events.last());
            match session.stage {
                StageView::Body { firmware, header, rest } => {
                    if let EventView::Done(bytes) = events.last() {
                        if bytes.len() == rest {
                            let config = header + bytes;
                            wireview::law_settings_are_read_from_their_bytes(config);
                            if next is Write {
                                wireview::law_display_is_put_in_its_state(
                                    session,
                                    firmware,
                                    header,
                                    bytes,
                                );
                                let frames = next->frames;
                                let written = wireview::payloads(frames, frames.len() as int);
                                wireview::law_settings_stand_at_their_bytes(
                                    config,
                                    wireview::settings_for(target)->Ok_0,
                                );
                                assert(written[2] == config[2]);
                                assert(shows(written, target));
                            }
                            if next matches ActionView::Finish(Ok(_)) {
                                assert(shows(config, target));
                                let i = work.len() - 1;
                                assert(reads_start(longer[i], header));
                                assert(reads_rest(longer[i + 1], bytes));
                            }
                        }
                    }
                },
                StageView::Writing { .. } => {
                    if stage is Repainting {
                        assert(writes(longer[work.len() as int], target));
                    }
                },
                StageView::Repainting { .. } => {
                    lemma_still_shows(work, done, target);
                },
                _ => {},
            }
        }
    }
}

/// A display change that succeeds has written the settings of the state to the display, or has
/// read them from it.
pub proof fn law_display_was_put_in_its_state(
    before: Seq<Work>,
    after: Seq<Work>,
    alias: Seq<char>,
    serial: Seq<char>,
    target: DisplayTarget,
    report: JsonView,
    fault: bool,
)
    requires
        system::display_changed(
            before,
            after,
            alias,
            serial,
            target,
            Ok::<JsonView, ErrorView>(report),
            fault,
        ),
    ensures
        display_shows(after.skip(before.len() as int), target),
{
    let first = system::session_started(alias, serial, target);
    let events = choose|events: Seq<EventView>|
        {
            &&& after == before + #[trigger] system::session_work(first, events)
            &&& system::session_after(first, events).1 == ActionView::Finish(
                Ok::<JsonView, ErrorView>(report),
            )
            &&& !(system::session_after(first, events.drop_last()).1 is Finish)
            &&& system::session_fault(events) == fault
        };
    lemma_display_trace(first, events, target);
    assert(after.skip(before.len() as int) =~= system::session_work(first, events));
}

/// A temperature of the machine itself is read from the input that its sensor resolves to.
pub proof fn law_input_was_read_for_its_sensor(
    before: SystemView,
    after: SystemView,
    alias: Seq<char>,
    config: SensorConfig,
    sample: SampleView,
)
    requires
        config is LinuxHwmon,
        system::sensor_read(before, after, alias, config, Ok::<SampleView, ErrorView>(sample)),
    ensures
        after.work.len() == before.work.len() + 2,
        after.work.take(before.work.len() as int) == before.work,
        after.work[before.work.len() as int] matches Work::ListHwmon { listing } && (
        after.work.last() matches Work::ReadInput { path, reply } && reply == Ok::<
            SampleView,
            ErrorView,
        >(sample) && crate::drivers::hwmon::resolved(listing, config) == Ok::<
            Seq<char>,
            ErrorView,
        >(path)),
{
    let reply = Ok::<SampleView, ErrorView>(sample);
    let listing = choose|listing: crate::drivers::hwmon::HwmonListing|
        {
            let listed = before.work.push(#[trigger] system::hwmon_work(listing));
            match crate::drivers::hwmon::resolved(listing, config) {
                Err(error) => after.work == listed && reply == Err::<SampleView, ErrorView>(error),
                Ok(path) => after.work == listed.push(Work::ReadInput { path, reply }),
            }
        };
    assert(after.work.take(before.work.len() as int) =~= before.work);
}

/// A temperature of a hub is the conversion of the tenths that the hub reported for the channel of
/// the sensor.
pub proof fn law_hub_was_asked_for_its_temperature(
    before: SystemView,
    after: SystemView,
    alias: Seq<char>,
    device: String,
    channel: u8,
    sample: SampleView,
    config: DeviceConfig,
)
    requires
        names::find(before.devices, device@) == Some(config),
        system::sensor_read(
            before,
            after,
            alias,
            SensorConfig::CorsairIcueLink { device, channel },
            Ok::<SampleView, ErrorView>(sample),
        ),
    ensures
        after.work.last() matches Work::FromTenths { tenths, sample: told } && told == sample
            && system::hub_ran(
            before.work,
            after.work.drop_last(),
            before.hubs,
            after.hubs,
            device@,
            config,
            TaskView::Temperature { channel },
            Ok::<ReportView, ErrorView>(ReportView::Tenths(tenths)),
        ),
{
    let reply = Ok::<SampleView, ErrorView>(sample);
    let (read, report) = choose|read: Seq<Work>, report: Reply<ReportView>|
        {
            &&& #[trigger] system::hub_ran(
                before.work,
                read,
                before.hubs,
                after.hubs,
                device@,
                config,
                TaskView::Temperature { channel },
                report,
            )
            &&& match report {
                Err(error) => after.work == read && reply == Err::<SampleView, ErrorView>(error),
                Ok(ReportView::Tenths(tenths)) => system::converted(
                    read,
                    after.work,
                    tenths,
                    reply,
                ),
                Ok(_) => after.work == read && reply == Err::<SampleView, ErrorView>(
                    system::strange_report(device@),
                ),
            }
        };
    assert(after.work.drop_last() =~= read);
}

} // verus!
