//! The hardware of a machine, behind its drivers.

use vstd::prelude::*;

use crate::celsius::Celsius;
use crate::config::Config;
use crate::config::DeviceConfig;
use crate::config::Nanos;
use crate::config::OutputConfig;
use crate::config::SensorConfig;
use crate::drivers;
use crate::drivers::hub;
use crate::drivers::hub::HidInfo;
use crate::drivers::hub::HubAction;
use crate::drivers::hub::HubActionView;
use crate::drivers::hub::HubEvent;
use crate::drivers::hub::HubEventView;
use crate::drivers::hub::HubJob;
use crate::drivers::hub::HubModes;
use crate::drivers::hub::HubReport;
use crate::drivers::hub::HubTask;
use crate::drivers::hub::JobView;
use crate::drivers::hub::ReportView;
use crate::drivers::hub::TaskView;
use crate::drivers::hub::TransferView;
use crate::drivers::hwmon;
use crate::drivers::hwmon::HwmonListing;
use crate::drivers::nvidia;
use crate::drivers::nvidia::CallOutcome;
use crate::drivers::nvidia::HelperRequest;
use crate::drivers::nvidia::HelperResult;
use crate::drivers::nvidia::HelperState;
use crate::drivers::nvidia::HelperView;
use crate::drivers::nvidia::RequestView;
use crate::drivers::nvidia::DEFAULT_REQUEST_TIMEOUT;
use crate::drivers::retry_delay_ms;
use crate::drivers::wireview;
use crate::drivers::wireview::ActionView;
use crate::drivers::wireview::DisplaySession;
use crate::drivers::wireview::EventView;
use crate::drivers::wireview::PortAction;
use crate::drivers::wireview::PortEvent;
use crate::drivers::wireview::PortView;
use crate::drivers::wireview::SerialPortInfo;
use crate::drivers::wireview::SessionView;
use crate::drivers::wireview::StageView;
use crate::drivers::Call;
use crate::drivers::DeviceRouteView;
use crate::drivers::DeviceRouter;
use crate::drivers::Devices;
use crate::drivers::DisplayTarget;
use crate::drivers::FanRoute;
use crate::drivers::FanRouteView;
use crate::drivers::FanWrite;
use crate::drivers::FanWriteView;
use crate::drivers::Hardware;
use crate::drivers::ReleaseRoute;
use crate::drivers::ReleaseRouteView;
use crate::drivers::Reply;
use crate::drivers::Sample;
use crate::drivers::SampleView;
use crate::drivers::SensorRoute;
use crate::drivers::SensorRouteView;
use crate::drivers::RETRY_DELAY_MS;
use crate::error::ErrorView;
use crate::error::FeatherError;
use crate::error::Result;
use crate::json::Json;
use crate::json::JsonView;
use crate::names;
use crate::names::NameMap;
use crate::search;
use crate::text;
use crate::types::DescriptorView;
use crate::types::DeviceDescriptor;
use crate::views;

verus! {

// ---------------------------------------------------------------- drivers

/// The work that the drivers of a machine do.
///
/// Nothing is promised of what they give back; each operation only adds itself, with its
/// arguments and its answer, to the work done so far.
pub trait Drivers: Sized {
    /// The work done so far, in order.
    open spec fn work(&self) -> Seq<Work> {
        Seq::empty()
    }

    /// Lists the HID devices of the host.
    ///
    /// # Errors
    ///
    /// Returns an error when they cannot be listed.
    fn list_hids(&mut self) -> (result: Result<Vec<HidInfo>>)
        ensures
            final(self).work() == old(self).work().push(Work::ListHids { reply: items(result) }),
    ;

    /// Lists the serial ports of the host.
    ///
    /// # Errors
    ///
    /// Returns an error when they cannot be listed.
    fn list_ports(&mut self) -> (result: Result<Vec<SerialPortInfo>>)
        ensures
            final(self).work() == old(self).work().push(Work::ListPorts { reply: items(result) }),
    ;

    /// Lists the hwmon directories of the host.
    fn list_hwmon(&mut self) -> (listing: HwmonListing)
        ensures
            final(self).work() == old(self).work().push(Work::ListHwmon { listing }),
    ;

    /// Reads a hwmon input.
    ///
    /// # Errors
    ///
    /// Returns an error when it cannot be read or holds no number.
    fn read_input(&mut self, path: &str) -> (result: Result<Sample>)
        ensures
            final(self).work() == old(self).work().push(
                Work::ReadInput { path: path@, reply: views::outcome(result) },
            ),
    ;

    /// Opens the HID device of a hub.
    ///
    /// # Errors
    ///
    /// Returns an error when it cannot be opened.
    fn open_hub(&mut self, alias: &str, path: &str) -> (result: Result<()>)
        ensures
            final(self).work() == old(self).work().push(
                Work::OpenHub { alias: alias@, path: path@, reply: drivers::done(result) },
            ),
    ;

    /// Writes a packet to a hub and reads the response.
    ///
    /// # Errors
    ///
    /// Returns an error when the hub cannot be reached or does not respond.
    fn transfer(&mut self, alias: &str, packet: &Vec<u8>) -> (result: Result<Vec<u8>>)
        ensures
            final(self).work() == old(self).work().push(
                Work::Transfer { alias: alias@, packet: packet@, reply: items(result) },
            ),
    ;

    /// Closes the HID device of a hub.
    fn close_hub(&mut self, alias: &str)
        ensures
            final(self).work() == old(self).work().push(Work::CloseHub { alias: alias@ }),
    ;

    /// Opens the serial port of a display.
    ///
    /// # Errors
    ///
    /// Returns an error when it cannot be opened.
    fn open_port(&mut self, alias: &str, path: &str) -> (result: Result<()>)
        ensures
            final(self).work() == old(self).work().push(
                Work::OpenPort { alias: alias@, path: path@, reply: drivers::done(result) },
            ),
    ;

    /// Performs an action on the open port.
    fn perform(&mut self, action: PortAction) -> (event: PortEvent)
        ensures
            final(self).work() == old(self).work().push(
                Work::Perform { action: action@, event: event@ },
            ),
    ;

    /// Closes the open port.
    fn close_port(&mut self)
        ensures
            final(self).work() == old(self).work().push(Work::ClosePort),
    ;

    /// Waits.
    fn pause(&mut self, milliseconds: u64)
        ensures
            final(self).work() == old(self).work().push(Work::Pause { milliseconds }),
    ;

    /// Starts a helper process.
    ///
    /// # Errors
    ///
    /// Returns an error when it cannot be started.
    fn spawn_helper(&mut self, label: &str) -> (result: Result<()>)
        ensures
            final(self).work() == old(self).work().push(
                Work::SpawnHelper { label: label@, reply: drivers::done(result) },
            ),
    ;

    /// Sends a request to a helper and waits for its answer.
    fn exchange(&mut self, label: &str, request: HelperRequest, timeout: Nanos) -> (outcome:
        CallOutcome)
        ensures
            final(self).work() == old(self).work().push(
                Work::Exchange { label: label@, request: request@, timeout, outcome },
            ),
    ;

    /// Ends a helper process.
    fn drop_helper(&mut self, label: &str)
        ensures
            final(self).work() == old(self).work().push(Work::DropHelper { label: label@ }),
    ;

    /// The answer of a helper in words.
    fn describe(&mut self, result: &HelperResult) -> (words: String)
        ensures
            final(self).work() == old(self).work().push(
                Work::Describe { result: *result, words: words@ },
            ),
    ;

    /// A temperature in decimal.
    fn decimal(&mut self, celsius: Celsius) -> (words: String)
        ensures
            final(self).work() == old(self).work().push(
                Work::Decimal { celsius, words: words@ },
            ),
    ;

    /// A temperature that is given in tenths of a degree.
    fn from_tenths(&mut self, tenths: i16) -> (sample: Sample)
        ensures
            final(self).work() == old(self).work().push(
                Work::FromTenths { tenths, sample: sample@ },
            ),
    ;
}

/// One piece of work of the drivers, with what they gave back.
pub ghost enum Work {
    /// [`Drivers::list_hids`].
    ListHids {
        /// The devices.
        reply: Reply<Seq<HidInfo>>,
    },
    /// [`Drivers::list_ports`].
    ListPorts {
        /// The ports.
        reply: Reply<Seq<SerialPortInfo>>,
    },
    /// [`Drivers::list_hwmon`].
    ListHwmon {
        /// The directories.
        listing: HwmonListing,
    },
    /// [`Drivers::read_input`].
    ReadInput {
        /// Path of the input.
        path: Seq<char>,
        /// The temperature.
        reply: Reply<SampleView>,
    },
    /// [`Drivers::open_hub`].
    OpenHub {
        /// Device alias.
        alias: Seq<char>,
        /// Path of the HID device.
        path: Seq<char>,
        /// Whether it was opened.
        reply: Reply<()>,
    },
    /// [`Drivers::transfer`].
    Transfer {
        /// Device alias.
        alias: Seq<char>,
        /// The packet.
        packet: Seq<u8>,
        /// The response.
        reply: Reply<Seq<u8>>,
    },
    /// [`Drivers::close_hub`].
    CloseHub {
        /// Device alias.
        alias: Seq<char>,
    },
    /// [`Drivers::open_port`].
    OpenPort {
        /// Device alias.
        alias: Seq<char>,
        /// Path of the serial port.
        path: Seq<char>,
        /// Whether it was opened.
        reply: Reply<()>,
    },
    /// [`Drivers::perform`].
    Perform {
        /// The action.
        action: ActionView,
        /// What came of it.
        event: EventView,
    },
    /// [`Drivers::close_port`].
    ClosePort,
    /// [`Drivers::pause`].
    Pause {
        /// How long.
        milliseconds: u64,
    },
    /// [`Drivers::spawn_helper`].
    SpawnHelper {
        /// What the helper is for.
        label: Seq<char>,
        /// Whether it was started.
        reply: Reply<()>,
    },
    /// [`Drivers::exchange`].
    Exchange {
        /// What the helper is for.
        label: Seq<char>,
        /// The request.
        request: RequestView,
        /// How long to wait.
        timeout: Nanos,
        /// What came of it.
        outcome: CallOutcome,
    },
    /// [`Drivers::drop_helper`].
    DropHelper {
        /// What the helper is for.
        label: Seq<char>,
    },
    /// [`Drivers::describe`].
    Describe {
        /// The answer.
        result: HelperResult,
        /// The answer in words.
        words: Seq<char>,
    },
    /// [`Drivers::decimal`].
    Decimal {
        /// The temperature.
        celsius: Celsius,
        /// The temperature in decimal.
        words: Seq<char>,
    },
    /// [`Drivers::from_tenths`].
    FromTenths {
        /// Tenths of a degree.
        tenths: i16,
        /// The temperature.
        sample: SampleView,
    },
}

/// The drivers of a machine.
pub struct Machine<D> {
    /// The drivers.
    pub drivers: D,
}

/// The items of a listing.
pub open spec fn items<T>(result: Result<Vec<T>>) -> Reply<Seq<T>> {
    match result {
        Ok(list) => Ok(list@),
        Err(error) => Err(error@),
    }
}

fn driver_error(message: String) -> (error: FeatherError)
    ensures
        error@ == ErrorView::Driver(message@),
{
    FeatherError::Driver(message)
}

// ---------------------------------------------------------------- hubs

/// What a job takes as the outcome of a transfer.
pub open spec fn transfer_event(transfer: TransferView, reply: Reply<Seq<u8>>) -> HubEventView {
    match hub::packet_of(hub::request_bytes(transfer)) {
        Err(error) => HubEventView::Failed(error),
        Ok(_) => match reply {
            Ok(answer) => HubEventView::Answer(answer),
            Err(error) => HubEventView::Failed(error),
        },
    }
}

/// The work of a transfer. One that does not fit a packet is not sent.
pub open spec fn transfer_work(
    alias: Seq<char>,
    pause_ms: u64,
    transfer: TransferView,
    reply: Reply<Seq<u8>>,
) -> Seq<Work> {
    let pause = if pause_ms > 0 {
        seq![Work::Pause { milliseconds: pause_ms }]
    } else {
        Seq::empty()
    };
    match hub::packet_of(hub::request_bytes(transfer)) {
        Err(_) => pause,
        Ok(packet) => pause.push(Work::Transfer { alias, packet, reply }),
    }
}

/// A job after the replies to its transfers.
pub open spec fn job_after(
    first: (JobView, HubActionView),
    replies: Seq<Reply<Seq<u8>>>,
) -> (JobView, HubActionView)
    decreases replies.len(),
{
    if replies.len() == 0 {
        first
    } else {
        let (job, action) = job_after(first, replies.drop_last());
        match action {
            HubActionView::Transfer { transfer, .. } => hub::job_next(
                job,
                transfer_event(transfer, replies.last()),
            ),
            HubActionView::Finish(_) => (job, action),
        }
    }
}

/// The work of a job up to the replies to its transfers.
pub open spec fn job_work(
    alias: Seq<char>,
    first: (JobView, HubActionView),
    replies: Seq<Reply<Seq<u8>>>,
) -> Seq<Work>
    decreases replies.len(),
{
    if replies.len() == 0 {
        Seq::empty()
    } else {
        let earlier = job_work(alias, first, replies.drop_last());
        match job_after(first, replies.drop_last()).1 {
            HubActionView::Transfer { pause_ms, transfer } => earlier + transfer_work(
                alias,
                pause_ms,
                transfer,
                replies.last(),
            ),
            HubActionView::Finish(_) => earlier,
        }
    }
}

/// Whether a transfer of a job failed. One that does not fit a packet is not sent.
pub open spec fn job_fault(
    first: (JobView, HubActionView),
    replies: Seq<Reply<Seq<u8>>>,
) -> bool
    decreases replies.len(),
{
    &&& replies.len() > 0
    &&& job_fault(first, replies.drop_last()) || (job_after(
        first,
        replies.drop_last(),
    ).1 matches HubActionView::Transfer { transfer, .. } && hub::packet_of(
        hub::request_bytes(transfer),
    ) is Ok && replies.last() is Err)
}

/// A task was carried out on an open hub: the transfers are those of its job, and so are the
/// modes that the hub is left in and the outcome. `fault` tells whether a transfer failed.
pub open spec fn task_ran(
    before: Seq<Work>,
    after: Seq<Work>,
    alias: Seq<char>,
    task: TaskView,
    modes: HubModes,
    left: HubModes,
    outcome: Reply<ReportView>,
    fault: bool,
) -> bool {
    let first = hub::started(hub::idle_job(alias, task, modes));
    exists|replies: Seq<Reply<Seq<u8>>>|
        {
            &&& after == before + #[trigger] job_work(alias, first, replies)
            &&& job_after(first, replies).1 == HubActionView::Finish(outcome)
            &&& job_after(first, replies).0.modes == left
            &&& job_fault(first, replies) == fault
        }
}

/// The hubs that are open, with what they were last told.
pub type Hubs = names::Entries<HubModes>;

/// The opening of a hub.
pub open spec fn open_work(alias: Seq<char>, path: Seq<char>, reply: Reply<()>) -> Work {
    Work::OpenHub { alias, path, reply }
}

/// The HID device with a path was opened for a hub.
pub open spec fn path_opened(
    before: Seq<Work>,
    after: Seq<Work>,
    alias: Seq<char>,
    path: Seq<char>,
    reply: Reply<()>,
) -> bool {
    after == before.push(open_work(alias, path, reply))
}

/// A hub was opened: the first HID device that its selector means. `fault` tells whether the
/// list or the handle could not be had.
pub open spec fn hub_opened(
    before: Seq<Work>,
    after: Seq<Work>,
    alias: Seq<char>,
    config: DeviceConfig,
    reply: Reply<()>,
    fault: bool,
) -> bool {
    exists|hids: Reply<Seq<HidInfo>>|
        {
            let listed = before.push(#[trigger] hids_work(hids));
            match hids {
                Err(error) => after == listed && fault && reply == Err::<(), ErrorView>(error),
                Ok(infos) => match search::first(
                    hub::match_at(infos, config),
                    0,
                    infos.len() as int,
                ) {
                    Some(at) => {
                        &&& path_opened(listed, after, alias, infos[at].path@, reply)
                        &&& fault == (reply is Err)
                    },
                    None => after == listed && !fault && reply == Err::<(), ErrorView>(
                        ErrorView::Driver("configured Corsair hub was not found"@),
                    ),
                },
            }
        }
}

/// A hub was given back to its hardware policy as far as that works, and closed.
pub open spec fn hub_let_go(
    before: Seq<Work>,
    after: Seq<Work>,
    alias: Seq<char>,
    modes: HubModes,
) -> bool {
    exists|freed: Seq<Work>, left: HubModes, outcome: Reply<ReportView>, fault: bool|
        {
            &&& #[trigger] task_ran(
                before,
                freed,
                alias,
                TaskView::Release,
                modes,
                left,
                outcome,
                fault,
            )
            &&& after == freed.push(Work::CloseHub { alias })
        }
}

/// What becomes of a hub after a task: one on which a transfer failed is let go, one that was
/// released is closed, and any other stays open.
pub open spec fn hub_kept(
    before: Seq<Work>,
    after: Seq<Work>,
    hubs: Hubs,
    next: Hubs,
    alias: Seq<char>,
    task: TaskView,
    modes: HubModes,
    fault: bool,
) -> bool {
    if fault {
        &&& hub_let_go(before, after, alias, modes)
        &&& next == names::removed(hubs, alias)
    } else if task is Release {
        &&& after == before.push(Work::CloseHub { alias })
        &&& next == names::removed(hubs, alias)
    } else {
        &&& after == before
        &&& next == names::inserted(hubs, alias, modes)
    }
}

/// A task was tried on a hub that is open.
pub open spec fn open_hub_tried(
    before: Seq<Work>,
    after: Seq<Work>,
    hubs: Hubs,
    next: Hubs,
    alias: Seq<char>,
    task: TaskView,
    modes: HubModes,
    outcome: Reply<ReportView>,
    fault: bool,
) -> bool {
    exists|ran: Seq<Work>, left: HubModes|
        {
            &&& #[trigger] task_ran(before, ran, alias, task, modes, left, outcome, fault)
            &&& hub_kept(ran, after, hubs, next, alias, task, left, fault)
        }
}

/// A task was tried on a hub, which was opened where it was not open. A hub that was opened is
/// taken to be in the modes `fresh`. `fault` tells whether a HID operation failed.
pub open spec fn hub_tried(
    before: Seq<Work>,
    after: Seq<Work>,
    hubs: Hubs,
    next: Hubs,
    alias: Seq<char>,
    config: DeviceConfig,
    task: TaskView,
    fresh: HubModes,
    outcome: Reply<ReportView>,
    fault: bool,
) -> bool {
    match names::find(hubs, alias) {
        Some(modes) => open_hub_tried(
            before,
            after,
            hubs,
            next,
            alias,
            task,
            modes,
            outcome,
            fault,
        ),
        None => exists|ready: Seq<Work>, opened: Reply<()>, unopened: bool|
            {
                &&& #[trigger] hub_opened(before, ready, alias, config, opened, unopened)
                &&& match opened {
                    Err(error) => {
                        &&& after == ready
                        &&& next == hubs
                        &&& outcome == Err::<ReportView, ErrorView>(error)
                        &&& fault == unopened
                    },
                    Ok(_) => open_hub_tried(
                        ready,
                        after,
                        hubs,
                        next,
                        alias,
                        task,
                        fresh,
                        outcome,
                        fault,
                    ),
                }
            },
    }
}

/// The modes that the handle of a second try starts in. What a release could not tell the hub
/// is told again; any other task starts from the hardware mode.
pub open spec fn second_modes(hubs: Hubs, alias: Seq<char>, task: TaskView) -> HubModes {
    match names::find(hubs, alias) {
        Some(modes) => HubModes { software: modes.software && task is Release, color_open: false },
        None => hub::hardware_modes(),
    }
}

/// The pause before a second try.
pub open spec fn retry_pause() -> Work {
    Work::Pause { milliseconds: RETRY_DELAY_MS }
}

/// A task was carried out on a hub: one whose HID operation failed is tried again once, with a
/// fresh handle, after a pause.
pub open spec fn hub_ran(
    before: Seq<Work>,
    after: Seq<Work>,
    hubs: Hubs,
    next: Hubs,
    alias: Seq<char>,
    config: DeviceConfig,
    task: TaskView,
    outcome: Reply<ReportView>,
) -> bool {
    exists|middle: Seq<Work>, between: Hubs, first: Reply<ReportView>, fault: bool|
        {
            &&& #[trigger] hub_tried(
                before,
                middle,
                hubs,
                between,
                alias,
                config,
                task,
                hub::hardware_modes(),
                first,
                fault,
            )
            &&& if fault {
                hub_tried_again(
                    middle.push(retry_pause()),
                    after,
                    between,
                    next,
                    alias,
                    config,
                    task,
                    second_modes(hubs, alias, task),
                    outcome,
                )
            } else {
                after == middle && next == between && outcome == first
            }
        }
}

/// A task was tried for the second time.
pub open spec fn hub_tried_again(
    before: Seq<Work>,
    after: Seq<Work>,
    hubs: Hubs,
    next: Hubs,
    alias: Seq<char>,
    config: DeviceConfig,
    task: TaskView,
    fresh: HubModes,
    outcome: Reply<ReportView>,
) -> bool {
    exists|fault: bool|
        #[trigger] hub_tried(
            before,
            after,
            hubs,
            next,
            alias,
            config,
            task,
            fresh,
            outcome,
            fault,
        )
}

impl<D: Drivers> Machine<D> {
    /// Runs a job to its end, and tells the modes that it leaves the hub in, and whether a
    /// transfer failed.
    fn drive(&mut self, alias: &str, task: HubTask, modes: HubModes) -> (result: (
        HubModes,
        Result<HubReport>,
        bool,
    ))
        ensures
            task_ran(
                old(self).drivers.work(),
                final(self).drivers.work(),
                alias@,
                task@,
                modes,
                result.0,
                views::outcome(result.1),
                result.2,
            ),
    {
        let mut fault = false;
        let ghost start = self.drivers.work();
        let ghost idle = hub::idle_job(alias@, task@, modes);
        let ghost first = hub::started(idle);
        let ghost mut replies: Seq<Reply<Seq<u8>>> = Seq::empty();
        let (mut job, mut action) = HubJob::start(alias, task, modes);
        proof {
            hub::law_jobs_end(idle, HubEventView::Answer(Seq::empty()));
            assert(start + job_work(alias@, first, replies) =~= start);
        }
        loop
            invariant
                job.fits(),
                (job@, action@) == job_after(first, replies),
                self.drivers.work() == start + job_work(alias@, first, replies),
                action@ is Transfer ==> !(job@.stage is Over),
                fault == job_fault(first, replies),
                start == old(self).drivers.work(),
                first == hub::started(hub::idle_job(alias@, task@, modes)),
            decreases hub::transfers_left(job@.stage),
        {
            match action {
                HubAction::Finish(outcome) => {
                    return (job.modes, outcome, fault);
                },
                HubAction::Transfer { pause_ms, transfer } => {
                    let ghost before = self.drivers.work();
                    let ghost wanted = transfer@;
                    if pause_ms > 0 {
                        self.drivers.pause(pause_ms);
                    }
                    let ghost mut reply: Reply<Seq<u8>> = Ok(Seq::empty());
                    let event = match transfer.packet() {
                        Err(error) => HubEvent::Failed(error),
                        Ok(packet) => {
                            let answer = self.drivers.transfer(alias, &packet);
                            proof {
                                reply = items(answer);
                            }
                            match answer {
                                Ok(bytes) => HubEvent::Answer(bytes),
                                Err(error) => {
                                    fault = true;
                                    HubEvent::Failed(error)
                                },
                            }
                        },
                    };
                    proof {
                        assert(event@ == transfer_event(wanted, reply));
                        assert(self.drivers.work() =~= before + transfer_work(
                            alias@,
                            pause_ms,
                            wanted,
                            reply,
                        ));
                        hub::law_jobs_end(job@, event@);
                        let more = replies.push(reply);
                        assert(more.drop_last() =~= replies);
                        assert(more.last() == reply);
                        assert(self.drivers.work() =~= start + job_work(alias@, first, more));
                        replies = more;
                    }
                    let (next_job, next_action) = job.next(event);
                    job = next_job;
                    action = next_action;
                },
            }
        }
    }

    /// Opens a hub, and tells whether the list or the handle could not be had.
    fn open(&mut self, alias: &str, config: &DeviceConfig) -> (result: (Result<()>, bool))
        ensures
            hub_opened(
                old(self).drivers.work(),
                final(self).drivers.work(),
                alias@,
                *config,
                drivers::done(result.0),
                result.1,
            ),
    {
        let hids = self.drivers.list_hids();
        assert(self.drivers.work() == old(self).drivers.work().push(hids_work(items(hids))));
        let infos = match hids {
            Ok(infos) => infos,
            Err(error) => {
                return (Err(error), true);
            },
        };
        let info = match hub::select_hub(&infos, config) {
            Ok(info) => info,
            Err(error) => {
                return (Err(error), false);
            },
        };
        let opened = self.drivers.open_hub(alias, info.path.as_str());
        let fault = opened.is_err();
        (opened, fault)
    }

    fn let_go(&mut self, alias: &str, modes: HubModes)
        ensures
            hub_let_go(old(self).drivers.work(), final(self).drivers.work(), alias@, modes),
    {
        let (left, outcome, fault) = self.drive(alias, HubTask::Release, modes);
        let ghost freed = self.drivers.work();
        assert(task_ran(
            old(self).drivers.work(),
            freed,
            alias@,
            TaskView::Release,
            modes,
            left,
            views::outcome(outcome),
            fault,
        ));
        self.drivers.close_hub(alias);
    }

    fn try_hub(
        &mut self,
        hubs: &mut NameMap<HubModes>,
        alias: &str,
        config: &DeviceConfig,
        task: HubTask,
        fresh: HubModes,
    ) -> (result: (Result<HubReport>, bool))
        ensures
            hub_tried(
                old(self).drivers.work(),
                final(self).drivers.work(),
                old(hubs)@,
                final(hubs)@,
                alias@,
                *config,
                task@,
                fresh,
                views::outcome(result.0),
                result.1,
            ),
    {
        let ghost wanted = task@;
        let release = match &task {
            HubTask::Release => true,
            _ => false,
        };
        let modes = match hubs.remove(alias) {
            Some(modes) => modes,
            None => {
                let (opened, unopened) = self.open(alias, config);
                assert(hub_opened(
                    old(self).drivers.work(),
                    self.drivers.work(),
                    alias@,
                    *config,
                    drivers::done(opened),
                    unopened,
                ));
                if let Err(error) = opened {
                    return (Err(error), unopened);
                }
                fresh
            },
        };
        let ghost ready = self.drivers.work();
        let (left, result, fault) = self.drive(alias, task, modes);
        let ghost ran = self.drivers.work();
        assert(task_ran(ready, ran, alias@, wanted, modes, left, views::outcome(result), fault));
        proof {
            names::lemma_inserted_after_removed(old(hubs)@, alias@, left);
        }
        if fault {
            self.let_go(alias, left);
        } else if release {
            self.drivers.close_hub(alias);
        } else {
            hubs.insert(alias.to_owned(), left);
        }
        assert(hub_kept(ran, self.drivers.work(), old(hubs)@, hubs@, alias@, wanted, left, fault));
        assert(open_hub_tried(
            ready,
            self.drivers.work(),
            old(hubs)@,
            hubs@,
            alias@,
            wanted,
            modes,
            views::outcome(result),
            fault,
        ));
        (result, fault)
    }

    fn run_hub(
        &mut self,
        hubs: &mut NameMap<HubModes>,
        alias: &str,
        config: &DeviceConfig,
        task: HubTask,
    ) -> (result: Result<HubReport>)
        ensures
            hub_ran(
                old(self).drivers.work(),
                final(self).drivers.work(),
                old(hubs)@,
                final(hubs)@,
                alias@,
                *config,
                task@,
                views::outcome(result),
            ),
    {
        let ghost wanted = task@;
        let release = match &task {
            HubTask::Release => true,
            _ => false,
        };
        let software = match hubs.get(alias) {
            Some(modes) => modes.software && release,
            None => false,
        };
        let again = HubModes { software, color_open: false };
        assert(again == second_modes(old(hubs)@, alias@, wanted));
        let hardware = HubModes { software: false, color_open: false };
        let (first, fault) = self.try_hub(hubs, alias, config, task.copy(), hardware);
        let ghost middle = self.drivers.work();
        let ghost between = hubs@;
        assert(hub_tried(
            old(self).drivers.work(),
            middle,
            old(hubs)@,
            between,
            alias@,
            *config,
            wanted,
            hub::hardware_modes(),
            views::outcome(first),
            fault,
        ));
        if !fault {
            return first;
        }
        match retry_delay_ms(1) {
            None => first,
            Some(delay) => {
                self.drivers.pause(delay);
                assert(self.drivers.work() == middle.push(retry_pause()));
                let (second, failed) = self.try_hub(hubs, alias, config, task, again);
                assert(hub_tried(
                    middle.push(retry_pause()),
                    self.drivers.work(),
                    between,
                    hubs@,
                    alias@,
                    *config,
                    wanted,
                    again,
                    views::outcome(second),
                    failed,
                ));
                second
            },
        }
    }
}

// ---------------------------------------------------------------- displays

/// A display change at its start.
pub open spec fn session_started(alias: Seq<char>, serial: Seq<char>, target: DisplayTarget) -> (
    SessionView,
    ActionView,
) {
    (
        SessionView { alias, serial, target, stage: StageView::Welcome },
        ActionView::Welcome { count: 32 },
    )
}

/// A display change after what came of its actions.
pub open spec fn session_after(first: (SessionView, ActionView), events: Seq<EventView>) -> (
    SessionView,
    ActionView,
)
    decreases events.len(),
{
    if events.len() == 0 {
        first
    } else {
        let (session, action) = session_after(first, events.drop_last());
        if action is Finish {
            (session, action)
        } else {
            let (stage, next) = wireview::session_next(session, events.last());
            (SessionView { stage, ..session }, next)
        }
    }
}

/// The work of a display change up to what came of its actions.
pub open spec fn session_work(first: (SessionView, ActionView), events: Seq<EventView>) -> Seq<
    Work,
>
    decreases events.len(),
{
    if events.len() == 0 {
        Seq::empty()
    } else {
        let earlier = session_work(first, events.drop_last());
        let action = session_after(first, events.drop_last()).1;
        if action is Finish {
            earlier
        } else {
            earlier.push(Work::Perform { action, event: events.last() })
        }
    }
}

/// Whether an operation of a display change failed.
pub open spec fn session_fault(events: Seq<EventView>) -> bool {
    exists|i: int| 0 <= i < events.len() && (#[trigger] events[i]) is Failed
}

/// A display change was made over an open port: the actions are its own, and so is the outcome.
/// `fault` tells whether a serial operation failed.
pub open spec fn display_changed(
    before: Seq<Work>,
    after: Seq<Work>,
    alias: Seq<char>,
    serial: Seq<char>,
    target: DisplayTarget,
    outcome: Reply<JsonView>,
    fault: bool,
) -> bool {
    let first = session_started(alias, serial, target);
    exists|events: Seq<EventView>|
        {
            &&& after == before + #[trigger] session_work(first, events)
            &&& session_after(first, events).1 == ActionView::Finish(outcome)
            &&& !(session_after(first, events.drop_last()).1 is Finish)
            &&& session_fault(events) == fault
        }
}

/// The opening of a port.
pub open spec fn port_work(alias: Seq<char>, path: Seq<char>, reply: Reply<()>) -> Work {
    Work::OpenPort { alias, path, reply }
}

/// A display change was made over the open port, which was then closed.
pub open spec fn open_port_used(
    before: Seq<Work>,
    after: Seq<Work>,
    alias: Seq<char>,
    serial: Seq<char>,
    target: DisplayTarget,
    outcome: Reply<JsonView>,
    fault: bool,
) -> bool {
    exists|changed: Seq<Work>|
        {
            &&& #[trigger] display_changed(
                before,
                changed,
                alias,
                serial,
                target,
                outcome,
                fault,
            )
            &&& after == changed.push(Work::ClosePort)
        }
}

/// A display change was tried over a port, which was opened for it. `fault` tells whether a
/// serial operation failed.
pub open spec fn port_used(
    before: Seq<Work>,
    after: Seq<Work>,
    alias: Seq<char>,
    port: PortView,
    serial: Seq<char>,
    target: DisplayTarget,
    outcome: Reply<JsonView>,
    fault: bool,
) -> bool {
    exists|opened: Reply<()>|
        {
            let ready = before.push(#[trigger] port_work(alias, port.path, opened));
            match opened {
                Err(error) => {
                    &&& after == ready
                    &&& outcome == Err::<JsonView, ErrorView>(error)
                    &&& fault
                },
                Ok(_) => open_port_used(ready, after, alias, serial, target, outcome, fault),
            }
        }
}

/// A display change was tried on the display with a serial number.
pub open spec fn serial_tried(
    before: Seq<Work>,
    after: Seq<Work>,
    alias: Seq<char>,
    serial: Seq<char>,
    target: DisplayTarget,
    outcome: Reply<JsonView>,
    fault: bool,
) -> bool {
    exists|ports: Reply<Seq<SerialPortInfo>>|
        {
            let listed = before.push(#[trigger] ports_work(ports));
            match ports {
                Err(error) => {
                    &&& after == listed
                    &&& outcome == Err::<JsonView, ErrorView>(error)
                    &&& fault
                },
                Ok(infos) => {
                    let displays = wireview::ports_of(infos, infos.len() as int);
                    match search::first(
                        wireview::port_at(displays, serial),
                        0,
                        displays.len() as int,
                    ) {
                        Some(at) => port_used(
                            listed,
                            after,
                            alias,
                            displays[at],
                            serial,
                            target,
                            outcome,
                            fault,
                        ),
                        None => after == listed && !fault && outcome == Err::<JsonView, ErrorView>(
                            wireview::unavailable(alias, serial),
                        ),
                    }
                },
            }
        }
}

/// A display change was tried.
pub open spec fn display_tried(
    before: Seq<Work>,
    after: Seq<Work>,
    alias: Seq<char>,
    config: DeviceConfig,
    target: DisplayTarget,
    outcome: Reply<JsonView>,
    fault: bool,
) -> bool {
    match config {
        DeviceConfig::WireViewProIi { serial } => serial_tried(
            before,
            after,
            alias,
            serial@,
            target,
            outcome,
            fault,
        ),
        _ => after == before && !fault && outcome == Err::<JsonView, ErrorView>(
            ErrorView::Driver("WireView driver received another device type"@),
        ),
    }
}

/// A display change was tried for the second time.
pub open spec fn display_tried_again(
    before: Seq<Work>,
    after: Seq<Work>,
    alias: Seq<char>,
    config: DeviceConfig,
    target: DisplayTarget,
    outcome: Reply<JsonView>,
) -> bool {
    exists|fault: bool|
        #[trigger] display_tried(before, after, alias, config, target, outcome, fault)
}

/// A display was written: a change whose serial operation failed is tried again once, over a
/// newly opened port, after a pause.
pub open spec fn display_ran(
    before: Seq<Work>,
    after: Seq<Work>,
    alias: Seq<char>,
    config: DeviceConfig,
    target: DisplayTarget,
    outcome: Reply<JsonView>,
) -> bool {
    exists|middle: Seq<Work>, first: Reply<JsonView>, fault: bool|
        {
            &&& #[trigger] display_tried(before, middle, alias, config, target, first, fault)
            &&& if fault {
                display_tried_again(
                    middle.push(retry_pause()),
                    after,
                    alias,
                    config,
                    target,
                    outcome,
                )
            } else {
                after == middle && outcome == first
            }
        }
}

impl<D: Drivers> Machine<D> {
    /// Makes a display change, and tells whether a serial operation failed.
    fn change_display(&mut self, alias: &str, serial: &str, target: DisplayTarget) -> (result: (
        Result<Json>,
        bool,
    ))
        ensures
            display_changed(
                old(self).drivers.work(),
                final(self).drivers.work(),
                alias@,
                serial@,
                target,
                views::outcome(result.0),
                result.1,
            ),
    {
        let mut fault = false;
        let ghost start = self.drivers.work();
        let ghost first = session_started(alias@, serial@, target);
        let ghost mut events: Seq<EventView> = Seq::empty();
        let (mut session, mut action) = DisplaySession::start(alias, serial, target);
        assert(start + session_work(first, events) =~= start);
        loop
            invariant
                (session@, action@) == session_after(first, events),
                self.drivers.work() == start + session_work(first, events),
                !(action@ is Finish) ==> !(session@.stage is Over),
                action@ is Finish ==> events.len() > 0 && !(session_after(
                    first,
                    events.drop_last(),
                ).1 is Finish),
                fault == session_fault(events),
                start == old(self).drivers.work(),
                first == session_started(alias@, serial@, target),
            decreases wireview::actions_left(session@.stage),
        {
            let ghost wanted = action@;
            let ghost before = self.drivers.work();
            match action {
                PortAction::Finish(outcome) => {
                    return (outcome, fault);
                },
                other => {
                    assert(!(wanted is Finish));
                    let event = self.drivers.perform(other);
                    if let PortEvent::Failed { .. } = event {
                        fault = true;
                    }
                    proof {
                        wireview::law_display_changes_end(session@, event@);
                        let more = events.push(event@);
                        assert(more.drop_last() =~= events);
                        assert(more.last() == event@);
                        assert(self.drivers.work() =~= start + session_work(first, more));
                        if session_fault(events) {
                            let i = choose|i: int|
                                0 <= i < events.len() && (#[trigger] events[i]) is Failed;
                            assert(more[i] is Failed);
                        }
                        assert(event@ is Failed ==> more[events.len() as int] is Failed);
                        if session_fault(more) && !(event@ is Failed) {
                            let i = choose|i: int|
                                0 <= i < more.len() && (#[trigger] more[i]) is Failed;
                            assert(events[i] is Failed);
                        }
                        events = more;
                    }
                    action = session.next(event);
                },
            }
        }
    }

    fn try_display(&mut self, alias: &str, config: &DeviceConfig, target: DisplayTarget) -> (result:
        (Result<Json>, bool))
        ensures
            display_tried(
                old(self).drivers.work(),
                final(self).drivers.work(),
                alias@,
                *config,
                target,
                views::outcome(result.0),
                result.1,
            ),
    {
        let serial = match wireview::serial(config) {
            Ok(serial) => serial,
            Err(error) => {
                return (Err(error), false);
            },
        };
        let ports = self.drivers.list_ports();
        assert(self.drivers.work() == old(self).drivers.work().push(ports_work(items(ports))));
        let infos = match ports {
            Ok(infos) => infos,
            Err(error) => {
                return (Err(error), true);
            },
        };
        let displays = wireview::enumerate(&infos);
        let port = match wireview::select_port(alias, &displays, serial) {
            Ok(port) => port,
            Err(error) => {
                return (Err(error), false);
            },
        };
        let ghost listed = self.drivers.work();
        let opened = self.drivers.open_port(alias, port.path.as_str());
        let ghost given = drivers::done(opened);
        let ghost ready = self.drivers.work();
        assert(ready == listed.push(port_work(alias@, port@.path, given)));
        if let Err(error) = opened {
            assert(port_used(
                listed,
                ready,
                alias@,
                port@,
                serial@,
                target,
                Err::<JsonView, ErrorView>(error@),
                true,
            ));
            return (Err(error), true);
        }
        let (result, fault) = self.change_display(alias, serial, target);
        let ghost changed = self.drivers.work();
        assert(display_changed(
            ready,
            changed,
            alias@,
            serial@,
            target,
            views::outcome(result),
            fault,
        ));
        self.drivers.close_port();
        assert(open_port_used(
            ready,
            self.drivers.work(),
            alias@,
            serial@,
            target,
            views::outcome(result),
            fault,
        ));
        assert(port_used(
            listed,
            self.drivers.work(),
            alias@,
            port@,
            serial@,
            target,
            views::outcome(result),
            fault,
        ));
        (result, fault)
    }

    fn run_display(&mut self, alias: &str, config: &DeviceConfig, target: DisplayTarget) -> (result:
        Result<Json>)
        ensures
            display_ran(
                old(self).drivers.work(),
                final(self).drivers.work(),
                alias@,
                *config,
                target,
                views::outcome(result),
            ),
    {
        let (first, fault) = self.try_display(alias, config, target);
        let ghost middle = self.drivers.work();
        assert(display_tried(
            old(self).drivers.work(),
            middle,
            alias@,
            *config,
            target,
            views::outcome(first),
            fault,
        ));
        if !fault {
            return first;
        }
        match retry_delay_ms(1) {
            None => first,
            Some(delay) => {
                self.drivers.pause(delay);
                assert(self.drivers.work() == middle.push(retry_pause()));
                let (second, failed) = self.try_display(alias, config, target);
                assert(display_tried(
                    middle.push(retry_pause()),
                    self.drivers.work(),
                    alias@,
                    *config,
                    target,
                    views::outcome(second),
                    failed,
                ));
                second
            },
        }
    }
}

// ---------------------------------------------------------------- helpers

/// What ends a helper that takes no more requests.
pub open spec fn dropped(helper: HelperView) -> Seq<Work> {
    if helper.running {
        Seq::empty()
    } else {
        seq![Work::DropHelper { label: helper.label }]
    }
}

/// The work of a request to a helper.
pub open spec fn exchange_work(
    helper: HelperView,
    request: RequestView,
    timeout: Nanos,
    outcome: CallOutcome,
) -> Seq<Work> {
    seq![Work::Exchange { label: helper.label, request, timeout, outcome }] + dropped(
        nvidia::settled(helper, request is Shutdown, outcome),
    )
}

/// A helper was asked: one out of service refuses without being asked, and one that goes out of
/// service or ends is dropped.
pub open spec fn helper_asked(
    before: Seq<Work>,
    after: Seq<Work>,
    helper: HelperView,
    next: HelperView,
    request: RequestView,
    timeout: Nanos,
    reply: Reply<HelperResult>,
) -> bool {
    match nvidia::refusal(helper) {
        Some(error) => after == before && next == helper && reply == Err::<HelperResult, ErrorView>(
            error,
        ),
        None => exists|outcome: CallOutcome|
            {
                &&& after == before + #[trigger] exchange_work(helper, request, timeout, outcome)
                &&& next == nvidia::settled(helper, request is Shutdown, outcome)
                &&& reply == nvidia::settled_reply(helper, outcome)
            },
    }
}

/// The helpers of GPUs by UUID.
pub type Helpers = names::Entries<HelperView>;

/// The helper of a GPU was asked. It is started where there is none yet.
pub open spec fn gpu_asked(
    before: Seq<Work>,
    after: Seq<Work>,
    helpers: Helpers,
    next: Helpers,
    uuid: Seq<char>,
    request: RequestView,
    timeout: Nanos,
    reply: Reply<HelperResult>,
) -> bool {
    match names::find(helpers, uuid) {
        Some(helper) => exists|asked: HelperView|
            {
                &&& #[trigger] helper_asked(before, after, helper, asked, request, timeout, reply)
                &&& next == names::inserted(helpers, uuid, asked)
            },
        None => exists|spawned: Reply<()>|
            {
                let started = before.push(#[trigger] spawn_work(uuid, spawned));
                match spawned {
                    Err(error) => {
                        &&& after == started
                        &&& next == helpers
                        &&& reply == Err::<HelperResult, ErrorView>(error)
                    },
                    Ok(_) => exists|asked: HelperView|
                        {
                            &&& #[trigger] helper_asked(
                                started,
                                after,
                                nvidia::fresh(uuid),
                                asked,
                                request,
                                timeout,
                                reply,
                            )
                            &&& next == names::inserted(helpers, uuid, asked)
                        },
                }
            },
    }
}

/// The start of a helper.
pub open spec fn spawn_work(label: Seq<char>, reply: Reply<()>) -> Work {
    Work::SpawnHelper { label, reply }
}

/// A helper was asked to end, unless it has ended or is out of service.
pub open spec fn helper_ended(
    before: Seq<Work>,
    after: Seq<Work>,
    helper: HelperView,
    timeout: Nanos,
) -> bool {
    exists|next: HelperView, reply: Reply<HelperResult>| #[trigger]
        helper_asked(before, after, helper, next, RequestView::Shutdown, timeout, reply)
}

/// The wording of an answer.
pub open spec fn words_work(result: HelperResult, words: Seq<char>) -> Work {
    Work::Describe { result, words }
}

/// An answer that does not fit its request was put in words for the error.
pub open spec fn found_strange(
    before: Seq<Work>,
    after: Seq<Work>,
    operation: Seq<char>,
    result: HelperResult,
    error: ErrorView,
) -> bool {
    exists|shown: Seq<char>|
        {
            &&& after == before.push(#[trigger] words_work(result, shown))
            &&& error == nvidia::unexpected(operation, shown)
        }
}

/// What a helper lists as GPUs, or an error for any other answer.
pub open spec fn gpus_in(
    before: Seq<Work>,
    after: Seq<Work>,
    answer: Reply<HelperResult>,
    reply: Reply<Seq<DescriptorView>>,
) -> bool {
    match answer {
        Err(error) => after == before && reply == Err::<Seq<DescriptorView>, ErrorView>(error),
        Ok(HelperResult::Devices(devices)) => {
            &&& after == before
            &&& reply == Ok::<Seq<DescriptorView>, ErrorView>(views::list(devices@))
        },
        Ok(other) => reply matches Err(error) && found_strange(
            before,
            after,
            "device discovery"@,
            other,
            error,
        ),
    }
}

/// A helper that listed GPUs was ended, and its answer taken.
pub open spec fn listing_ended(
    before: Seq<Work>,
    after: Seq<Work>,
    helper: HelperView,
    timeout: Nanos,
    answer: Reply<HelperResult>,
    reply: Reply<Seq<DescriptorView>>,
) -> bool {
    exists|ended: Seq<Work>|
        {
            &&& #[trigger] helper_ended(before, ended, helper, timeout)
            &&& gpus_in(ended, after, answer, reply)
        }
}

/// A helper was started to list all GPUs, asked, and ended.
pub open spec fn gpus_discovered(
    before: Seq<Work>,
    after: Seq<Work>,
    timeout: Nanos,
    reply: Reply<Seq<DescriptorView>>,
) -> bool {
    exists|spawned: Reply<()>|
        {
            let started = before.push(#[trigger] spawn_work("discovery"@, spawned));
            match spawned {
                Err(error) => after == started && reply == Err::<Seq<DescriptorView>, ErrorView>(
                    error,
                ),
                Ok(_) => exists|asked: Seq<Work>, helper: HelperView, answer: Reply<HelperResult>|
                    {
                        &&& #[trigger] helper_asked(
                            started,
                            asked,
                            nvidia::fresh("discovery"@),
                            helper,
                            RequestView::DiscoverAll,
                            timeout,
                            answer,
                        )
                        &&& listing_ended(asked, after, helper, timeout, answer, reply)
                    },
            }
        }
}

impl<D: Drivers> Machine<D> {
    fn ask_helper(&mut self, helper: &mut HelperState, request: HelperRequest, timeout: Nanos) -> (result:
        Result<HelperResult>)
        ensures
            helper_asked(
                old(self).drivers.work(),
                final(self).drivers.work(),
                old(helper)@,
                final(helper)@,
                request@,
                timeout,
                views::outcome(result),
            ),
    {
        helper.accept()?;
        let shutdown = match &request {
            HelperRequest::Shutdown => true,
            _ => false,
        };
        let ghost asked = request@;
        let outcome = self.drivers.exchange(helper.label.as_str(), request, timeout);
        let ghost given = outcome;
        let result = helper.settle(shutdown, outcome);
        if !helper.running {
            self.drivers.drop_helper(helper.label.as_str());
        }
        assert(self.drivers.work() =~= old(self).drivers.work() + exchange_work(
            old(helper)@,
            asked,
            timeout,
            given,
        ));
        result
    }

    /// Ends a helper, unless it has ended or is out of service.
    fn end_helper(&mut self, helper: HelperState, timeout: Nanos)
        ensures
            helper_ended(old(self).drivers.work(), final(self).drivers.work(), helper@, timeout),
    {
        let mut helper = helper;
        let ghost given = helper@;
        let result = self.ask_helper(&mut helper, HelperRequest::Shutdown, timeout);
        assert(helper_asked(
            old(self).drivers.work(),
            self.drivers.work(),
            given,
            helper@,
            RequestView::Shutdown,
            timeout,
            views::outcome(result),
        ));
    }

    fn ask_gpu(
        &mut self,
        helpers: &mut NameMap<HelperState>,
        uuid: &str,
        request: HelperRequest,
        timeout: Nanos,
    ) -> (result: Result<HelperResult>)
        ensures
            gpu_asked(
                old(self).drivers.work(),
                final(self).drivers.work(),
                old(helpers)@,
                final(helpers)@,
                uuid@,
                request@,
                timeout,
                views::outcome(result),
            ),
    {
        let ghost asked = request@;
        let mut helper = match helpers.remove(uuid) {
            Some(helper) => helper,
            None => {
                let spawned = self.drivers.spawn_helper(uuid);
                assert(self.drivers.work() == old(self).drivers.work().push(
                    spawn_work(uuid@, drivers::done(spawned)),
                ));
                spawned?;
                HelperState::new(uuid)
            },
        };
        let ghost started = self.drivers.work();
        let ghost given = helper@;
        let result = self.ask_helper(&mut helper, request, timeout);
        assert(helper_asked(
            started,
            self.drivers.work(),
            given,
            helper@,
            asked,
            timeout,
            views::outcome(result),
        ));
        proof {
            names::lemma_inserted_after_removed(old(helpers)@, uuid@, helper@);
        }
        helpers.insert(uuid.to_owned(), helper);
        result
    }

    /// Lists all GPUs.
    ///
    /// # Errors
    ///
    /// Returns an error when the helper cannot be started or does not list them.
    fn discover_gpus(&mut self, timeout: Nanos) -> (result: Result<Vec<DeviceDescriptor>>)
        ensures
            gpus_discovered(
                old(self).drivers.work(),
                final(self).drivers.work(),
                timeout,
                drivers::descriptors(result),
            ),
    {
        let spawned = self.drivers.spawn_helper("discovery");
        assert(self.drivers.work() == old(self).drivers.work().push(
            spawn_work("discovery"@, drivers::done(spawned)),
        ));
        spawned?;
        let ghost started = self.drivers.work();
        let mut helper = HelperState::new("discovery");
        let response = self.ask_helper(&mut helper, HelperRequest::DiscoverAll, timeout);
        let ghost answer = views::outcome(response);
        let ghost asked = self.drivers.work();
        let ghost left = helper@;
        self.end_helper(helper, timeout);
        assert(helper_asked(
            started,
            asked,
            nvidia::fresh("discovery"@),
            left,
            RequestView::DiscoverAll,
            timeout,
            answer,
        ));
        let ghost ended = self.drivers.work();
        assert(helper_ended(asked, ended, left, timeout));
        let result = match response {
            Err(error) => Err(error),
            Ok(HelperResult::Devices(devices)) => Ok(devices),
            Ok(other) => {
                let shown = self.drivers.describe(&other);
                assert(self.drivers.work() == ended.push(words_work(other, shown@)));
                nvidia::expect_devices(other, shown.as_str())
            },
        };
        assert(gpus_in(ended, self.drivers.work(), answer, drivers::descriptors(result)));
        assert(listing_ended(
            asked,
            self.drivers.work(),
            left,
            timeout,
            answer,
            drivers::descriptors(result),
        ));
        result
    }
}

// ---------------------------------------------------------------- hardware

/// The hardware of a machine: routes the operations of the policy to the drivers.
pub struct SystemHardware<D> {
    /// The devices of the active configuration.
    pub router: DeviceRouter,
    /// The Corsair hubs that are open, with what they were last told.
    pub hubs: NameMap<HubModes>,
    /// The helpers of NVIDIA GPUs by UUID.
    pub helpers: NameMap<HelperState>,
    /// How long to wait for a helper.
    pub timeout: Nanos,
    /// The drivers.
    pub machine: Machine<D>,
    /// The operations made so far, in order.
    pub log: Ghost<Seq<Call>>,
}

/// The state of the hardware of a machine.
pub ghost struct SystemView {
    /// See [`SystemHardware::router`].
    pub devices: Devices,
    /// See [`SystemHardware::hubs`].
    pub hubs: Hubs,
    /// See [`SystemHardware::helpers`].
    pub helpers: Helpers,
    /// See [`SystemHardware::timeout`].
    pub timeout: Nanos,
    /// See [`Drivers::work`].
    pub work: Seq<Work>,
}

impl<D: Drivers> View for SystemHardware<D> {
    type V = SystemView;

    open spec fn view(&self) -> SystemView {
        SystemView {
            devices: self.router.devices@,
            hubs: self.hubs@,
            helpers: self.helpers@,
            timeout: self.timeout,
            work: self.machine.drivers.work(),
        }
    }
}

/// The state after more work.
pub open spec fn worked(before: SystemView, work: Seq<Work>) -> SystemView {
    SystemView { work, ..before }
}

/// The state after more work that hubs took part in.
pub open spec fn hub_worked(before: SystemView, hubs: Hubs, work: Seq<Work>) -> SystemView {
    SystemView { hubs, work, ..before }
}

/// The state after more work that helpers took part in.
pub open spec fn helped(before: SystemView, helpers: Helpers, work: Seq<Work>) -> SystemView {
    SystemView { helpers, work, ..before }
}

/// A hub that ended another task than its own.
pub open spec fn strange_report(alias: Seq<char>) -> ErrorView {
    ErrorView::Driver("hub '"@ + alias + "' returned an unexpected report"@)
}

fn strange_report_error(alias: &str) -> (error: FeatherError)
    ensures
        error@ == strange_report(alias@),
{
    driver_error(text::concat3("hub '", alias, "' returned an unexpected report"))
}

// ---------------------------------------------------------------- sensors

/// A listing of hwmon directories.
pub open spec fn hwmon_work(listing: HwmonListing) -> Work {
    Work::ListHwmon { listing }
}

/// The conversion of a temperature.
pub open spec fn tenths_work(tenths: i16, sample: SampleView) -> Work {
    Work::FromTenths { tenths, sample }
}

/// The writing of a temperature.
pub open spec fn decimal_work(celsius: Celsius, words: Seq<char>) -> Work {
    Work::Decimal { celsius, words }
}

/// A temperature was written in decimal.
pub open spec fn written_out(
    before: Seq<Work>,
    after: Seq<Work>,
    celsius: Celsius,
    sample: SampleView,
) -> bool {
    exists|words: Seq<char>|
        {
            &&& after == before.push(#[trigger] decimal_work(celsius, words))
            &&& sample == (SampleView { celsius, text: words })
        }
}

/// The temperature in the answer of a helper, or an error for any other answer.
pub open spec fn temperature_in(
    before: Seq<Work>,
    after: Seq<Work>,
    answer: Reply<HelperResult>,
    reply: Reply<SampleView>,
) -> bool {
    match answer {
        Err(error) => after == before && reply == Err::<SampleView, ErrorView>(error),
        Ok(HelperResult::Temperature(value)) => reply matches Ok(sample) && written_out(
            before,
            after,
            value,
            sample,
        ),
        Ok(other) => reply matches Err(error) && found_strange(
            before,
            after,
            "temperature read"@,
            other,
            error,
        ),
    }
}

/// A temperature in tenths of a degree was converted.
pub open spec fn converted(
    before: Seq<Work>,
    after: Seq<Work>,
    tenths: i16,
    reply: Reply<SampleView>,
) -> bool {
    exists|sample: SampleView|
        {
            &&& after == before.push(#[trigger] tenths_work(tenths, sample))
            &&& reply == Ok::<SampleView, ErrorView>(sample)
        }
}

/// A temperature of a hub was read.
pub open spec fn hub_temperature(
    before: SystemView,
    after: SystemView,
    route: DeviceRouteView,
    channel: u8,
    reply: Reply<SampleView>,
) -> bool {
    &&& after == hub_worked(before, after.hubs, after.work)
    &&& exists|read: Seq<Work>, report: Reply<ReportView>|
        {
            &&& #[trigger] hub_ran(
                before.work,
                read,
                before.hubs,
                after.hubs,
                route.device,
                route.config,
                TaskView::Temperature { channel },
                report,
            )
            &&& match report {
                Err(error) => after.work == read && reply == Err::<SampleView, ErrorView>(error),
                Ok(ReportView::Tenths(tenths)) => converted(read, after.work, tenths, reply),
                Ok(_) => after.work == read && reply == Err::<SampleView, ErrorView>(
                    strange_report(route.device),
                ),
            }
        }
}

/// A hwmon sensor was read.
pub open spec fn hwmon_read(
    before: Seq<Work>,
    after: Seq<Work>,
    config: SensorConfig,
    reply: Reply<SampleView>,
) -> bool {
    exists|listing: HwmonListing|
        {
            let listed = before.push(#[trigger] hwmon_work(listing));
            match hwmon::resolved(listing, config) {
                Err(error) => after == listed && reply == Err::<SampleView, ErrorView>(error),
                Ok(path) => after == listed.push(Work::ReadInput { path, reply }),
            }
        }
}

/// A sensor was read by the driver that it belongs to.
pub open spec fn sensor_read(
    before: SystemView,
    after: SystemView,
    alias: Seq<char>,
    config: SensorConfig,
    reply: Reply<SampleView>,
) -> bool {
    match drivers::sensor_route(before.devices, config) {
        Err(error) => after == before && reply == Err::<SampleView, ErrorView>(error),
        Ok(SensorRouteView::Hwmon) => {
            &&& after == worked(before, after.work)
            &&& hwmon_read(before.work, after.work, config, reply)
        },
        Ok(SensorRouteView::Corsair(route, channel)) => hub_temperature(
            before,
            after,
            route,
            channel,
            reply,
        ),
        Ok(SensorRouteView::Nvidia(route)) => match route.config {
            DeviceConfig::NvidiaNvml { uuid } => {
                &&& after == helped(before, after.helpers, after.work)
                &&& exists|asked: Seq<Work>, answer: Reply<HelperResult>|
                    {
                        &&& #[trigger] gpu_asked(
                            before.work,
                            asked,
                            before.helpers,
                            after.helpers,
                            uuid@,
                            RequestView::ReadTemperature { alias, uuid: uuid@ },
                            before.timeout,
                            answer,
                        )
                        &&& temperature_in(asked, after.work, answer, reply)
                    }
            },
            _ => after == before && reply == Err::<SampleView, ErrorView>(not_a_gpu()),
        },
    }
}

/// A selector that is not for a GPU.
pub open spec fn not_a_gpu() -> ErrorView {
    ErrorView::Driver("configured device is not an NVIDIA GPU"@)
}

impl<D: Drivers> SystemHardware<D> {
    /// Creates the hardware of a machine with no selected devices.
    pub fn new(drivers: D) -> (hardware: Self)
        ensures
            hardware@ == (SystemView {
                devices: Seq::empty(),
                hubs: Seq::empty(),
                helpers: Seq::empty(),
                timeout: DEFAULT_REQUEST_TIMEOUT,
                work: drivers.work(),
            }),
            hardware.log@ == Seq::<Call>::empty(),
            hardware.machine.drivers == drivers,
    {
        let hardware = SystemHardware {
            router: DeviceRouter::new(),
            hubs: NameMap::new(),
            helpers: NameMap::new(),
            timeout: DEFAULT_REQUEST_TIMEOUT,
            machine: Machine { drivers },
            log: Ghost(Seq::empty()),
        };
        assert(hardware.router.devices@ =~= Seq::empty());
        hardware
    }

    fn read_gpu(&mut self, alias: &str, uuid: &str) -> (result: Result<Sample>)
        ensures
            final(self).log == old(self).log,
            final(self)@ == helped(old(self)@, final(self)@.helpers, final(self)@.work),
            exists|asked: Seq<Work>, answer: Reply<HelperResult>|
                {
                    &&& #[trigger] gpu_asked(
                        old(self)@.work,
                        asked,
                        old(self)@.helpers,
                        final(self)@.helpers,
                        uuid@,
                        RequestView::ReadTemperature { alias: alias@, uuid: uuid@ },
                        old(self)@.timeout,
                        answer,
                    )
                    &&& temperature_in(
                        asked,
                        final(self)@.work,
                        answer,
                        views::outcome(result),
                    )
                },
    {
        let request = HelperRequest::ReadTemperature {
            alias: alias.to_owned(),
            uuid: uuid.to_owned(),
        };
        let ghost asked = request@;
        let answer = self.machine.ask_gpu(&mut self.helpers, uuid, request, self.timeout);
        let ghost given = views::outcome(answer);
        assert(gpu_asked(
            old(self)@.work,
            self@.work,
            old(self)@.helpers,
            self@.helpers,
            uuid@,
            asked,
            old(self)@.timeout,
            given,
        ));
        let ghost told = self@.work;
        let result = match answer {
            Err(error) => Err(error),
            Ok(HelperResult::Temperature(celsius)) => {
                let text = self.machine.drivers.decimal(celsius);
                assert(self@.work == told.push(decimal_work(celsius, text@)));
                Ok(Sample { celsius, text })
            },
            Ok(other) => {
                let shown = self.machine.drivers.describe(&other);
                assert(self@.work == told.push(words_work(other, shown@)));
                match nvidia::expect_temperature(other, shown.as_str()) {
                    Ok(celsius) => Ok(Sample { celsius, text: shown }),
                    Err(error) => Err(error),
                }
            },
        };
        assert(temperature_in(told, self@.work, given, views::outcome(result)));
        result
    }

    fn read_hub(&mut self, device: &str, config: &DeviceConfig, channel: u8) -> (result: Result<
        Sample,
    >)
        ensures
            final(self).log == old(self).log,
            hub_temperature(
                old(self)@,
                final(self)@,
                DeviceRouteView { device: device@, config: *config },
                channel,
                views::outcome(result),
            ),
    {
        let ghost route = DeviceRouteView { device: device@, config: *config };
        let report = self.machine.run_hub(
            &mut self.hubs,
            device,
            config,
            HubTask::Temperature { channel },
        );
        let ghost given = views::outcome(report);
        let ghost read = self@.work;
        assert(hub_ran(
            old(self)@.work,
            read,
            old(self)@.hubs,
            self@.hubs,
            route.device,
            route.config,
            TaskView::Temperature { channel },
            given,
        ));
        match report {
            Err(error) => Err(error),
            Ok(HubReport::Tenths(tenths)) => {
                let sample = self.machine.drivers.from_tenths(tenths);
                assert(self@.work == read.push(tenths_work(tenths, sample@)));
                assert(converted(
                    read,
                    self@.work,
                    tenths,
                    Ok::<SampleView, ErrorView>(sample@),
                ));
                Ok(sample)
            },
            Ok(_) => Err(strange_report_error(device)),
        }
    }

    fn read_hwmon(&mut self, config: &SensorConfig) -> (result: Result<Sample>)
        ensures
            final(self).log == old(self).log,
            final(self)@ == worked(old(self)@, final(self)@.work),
            hwmon_read(old(self)@.work, final(self)@.work, *config, views::outcome(result)),
    {
        let listing = self.machine.drivers.list_hwmon();
        assert(self@.work == old(self)@.work.push(hwmon_work(listing)));
        let path = hwmon::resolve(&listing, config)?;
        self.machine.drivers.read_input(path.as_str())
    }
}

impl<D: Drivers> SystemHardware<D> {
    fn read(&mut self, alias: &str, config: &SensorConfig) -> (result: Result<Sample>)
        ensures
            final(self).log == old(self).log,
            sensor_read(old(self)@, final(self)@, alias@, *config, views::outcome(result)),
    {
        match self.router.route_sensor(config)? {
            SensorRoute::Hwmon => self.read_hwmon(config),
            SensorRoute::Corsair(route, channel) => {
                let selector = route.config.copy();
                let device = route.device.to_owned();
                self.read_hub(device.as_str(), &selector, channel)
            },
            SensorRoute::Nvidia(route) => {
                let uuid = nvidia::uuid(route.config)?.to_owned();
                self.read_gpu(alias, uuid.as_str())
            },
        }
    }
}

// ---------------------------------------------------------------- outputs

/// What a hub reports of a fan write.
pub open spec fn fans_in(alias: Seq<char>, report: Reply<ReportView>) -> Reply<FanWriteView> {
    match report {
        Err(error) => Err(error),
        Ok(ReportView::Fans(write)) => Ok(write),
        Ok(_) => Err(strange_report(alias)),
    }
}

/// What a hub reports of a color write.
pub open spec fn rgb_in(alias: Seq<char>, report: Reply<ReportView>) -> Reply<JsonView> {
    match report {
        Err(error) => Err(error),
        Ok(ReportView::Rgb(observed)) => Ok(observed),
        Ok(_) => Err(strange_report(alias)),
    }
}

/// The text of a diagnostic dump.
pub open spec fn dump_in(alias: Seq<char>, report: Reply<ReportView>) -> Reply<Seq<char>> {
    match report {
        Err(error) => Err(error),
        Ok(ReportView::Dump(dump)) => Ok(dump),
        Ok(_) => Err(strange_report(alias)),
    }
}

/// Whether an operation succeeded.
pub open spec fn success<T>(reply: Reply<T>) -> Reply<()> {
    match reply {
        Err(error) => Err(error),
        Ok(_) => Ok(()),
    }
}

/// The report of a fan write in the answer of a helper, or an error for any other answer.
pub open spec fn write_in(
    before: Seq<Work>,
    after: Seq<Work>,
    answer: Reply<HelperResult>,
    reply: Reply<FanWriteView>,
) -> bool {
    match answer {
        Err(error) => after == before && reply == Err::<FanWriteView, ErrorView>(error),
        Ok(HelperResult::Value(value)) => {
            &&& after == before
            &&& reply == Ok::<FanWriteView, ErrorView>(
                FanWriteView { observed: value@, warning: None },
            )
        },
        Ok(other) => reply matches Err(error) && found_strange(
            before,
            after,
            "fan write"@,
            other,
            error,
        ),
    }
}

/// The end of a release in the answer of a helper, or an error for any other answer.
pub open spec fn release_in(
    before: Seq<Work>,
    after: Seq<Work>,
    answer: Reply<HelperResult>,
    reply: Reply<()>,
) -> bool {
    match answer {
        Err(error) => after == before && reply == Err::<(), ErrorView>(error),
        Ok(HelperResult::Unit) => after == before && reply == Ok::<(), ErrorView>(()),
        Ok(other) => reply matches Err(error) && found_strange(
            before,
            after,
            "fan release"@,
            other,
            error,
        ),
    }
}

/// The fans of a GPU were set.
pub open spec fn gpu_fans_set(
    before: SystemView,
    after: SystemView,
    alias: Seq<char>,
    uuid: Seq<char>,
    channels: Seq<u32>,
    percent: u8,
    reply: Reply<FanWriteView>,
) -> bool {
    &&& after == helped(before, after.helpers, after.work)
    &&& exists|asked: Seq<Work>, answer: Reply<HelperResult>|
        {
            &&& #[trigger] gpu_asked(
                before.work,
                asked,
                before.helpers,
                after.helpers,
                uuid,
                RequestView::SetFans { alias, uuid, channels, percent },
                before.timeout,
                answer,
            )
            &&& write_in(asked, after.work, answer, reply)
        }
}

/// The fans of a GPU were given back.
pub open spec fn gpu_released(
    before: SystemView,
    after: SystemView,
    alias: Seq<char>,
    uuid: Seq<char>,
    reply: Reply<()>,
) -> bool {
    &&& after == helped(before, after.helpers, after.work)
    &&& exists|asked: Seq<Work>, answer: Reply<HelperResult>|
        {
            &&& #[trigger] gpu_asked(
                before.work,
                asked,
                before.helpers,
                after.helpers,
                uuid,
                RequestView::Release { alias, uuid },
                before.timeout,
                answer,
            )
            &&& release_in(asked, after.work, answer, reply)
        }
}

/// A task was carried out on a hub, and the rest of the state kept.
pub open spec fn hub_used(
    before: SystemView,
    after: SystemView,
    route: DeviceRouteView,
    task: TaskView,
    report: Reply<ReportView>,
) -> bool {
    &&& after == hub_worked(before, after.hubs, after.work)
    &&& hub_ran(
        before.work,
        after.work,
        before.hubs,
        after.hubs,
        route.device,
        route.config,
        task,
        report,
    )
}

/// The fans of a hub were set.
pub open spec fn hub_fans_set(
    before: SystemView,
    after: SystemView,
    route: DeviceRouteView,
    task: TaskView,
    reply: Reply<FanWriteView>,
) -> bool {
    exists|report: Reply<ReportView>|
        {
            &&& #[trigger] hub_used(before, after, route, task, report)
            &&& reply == fans_in(route.device, report)
        }
}

/// The UUID of an NVIDIA selector.
pub open spec fn uuid_of(config: DeviceConfig) -> Seq<char> {
    match config {
        DeviceConfig::NvidiaNvml { uuid } => uuid@,
        _ => Seq::empty(),
    }
}

/// A fan output was written by the driver that it belongs to.
pub open spec fn fan_written(
    before: SystemView,
    after: SystemView,
    alias: Seq<char>,
    config: OutputConfig,
    percent: u8,
    reply: Reply<FanWriteView>,
) -> bool {
    match drivers::fan_route(before.devices, alias, config) {
        Err(error) => after == before && reply == Err::<FanWriteView, ErrorView>(error),
        Ok(FanRouteView::Corsair { device, config: selector, channels, expected_fan_count }) => {
            hub_fans_set(
                before,
                after,
                DeviceRouteView { device, config: selector },
                TaskView::Fans { channels, percent, expected_fan_count },
                reply,
            )
        },
        Ok(FanRouteView::Nvidia { device, config: selector, channels }) => gpu_fans_set(
            before,
            after,
            device,
            uuid_of(selector),
            channels,
            percent,
            reply,
        ),
    }
}

/// An RGB output was written.
pub open spec fn rgb_written(
    before: SystemView,
    after: SystemView,
    alias: Seq<char>,
    config: OutputConfig,
    rgb: [u8; 3],
    reply: Reply<JsonView>,
) -> bool {
    match drivers::rgb_route(before.devices, alias, config) {
        Err(error) => after == before && reply == Err::<JsonView, ErrorView>(error),
        Ok((route, led_count)) => exists|report: Reply<ReportView>|
            {
                &&& #[trigger] hub_used(
                    before,
                    after,
                    route,
                    TaskView::Rgb { led_count, rgb },
                    report,
                )
                &&& reply == rgb_in(route.device, report)
            },
    }
}

/// A display output was written.
pub open spec fn display_written(
    before: SystemView,
    after: SystemView,
    alias: Seq<char>,
    config: OutputConfig,
    target: DisplayTarget,
    reply: Reply<JsonView>,
) -> bool {
    match drivers::display_route(before.devices, alias, config) {
        Err(error) => after == before && reply == Err::<JsonView, ErrorView>(error),
        Ok(route) => {
            &&& after == worked(before, after.work)
            &&& display_ran(
                before.work,
                after.work,
                route.device,
                route.config,
                target,
                reply,
            )
        },
    }
}

/// A hub was given back to its hardware policy.
pub open spec fn hub_released(
    before: SystemView,
    after: SystemView,
    route: DeviceRouteView,
    reply: Reply<()>,
) -> bool {
    exists|report: Reply<ReportView>|
        {
            &&& #[trigger] hub_used(before, after, route, TaskView::Release, report)
            &&& reply == success(report)
        }
}

/// A display was given back to its hardware policy.
pub open spec fn display_released(
    before: Seq<Work>,
    after: Seq<Work>,
    alias: Seq<char>,
    config: DeviceConfig,
    brightness_percent: u8,
    reply: Reply<()>,
) -> bool {
    exists|report: Reply<JsonView>|
        {
            &&& #[trigger] display_ran(
                before,
                after,
                alias,
                config,
                DisplayTarget::Awake { brightness_percent },
                report,
            )
            &&& reply == success(report)
        }
}

/// The device behind an output was given back to its hardware policy.
pub open spec fn output_released(
    before: SystemView,
    after: SystemView,
    alias: Seq<char>,
    config: OutputConfig,
    reply: Reply<()>,
) -> bool {
    match drivers::release_route(before.devices, config) {
        Err(error) => after == before && reply == Err::<(), ErrorView>(error),
        Ok(ReleaseRouteView::Corsair(route)) => hub_released(before, after, route, reply),
        Ok(ReleaseRouteView::Nvidia(route)) => gpu_released(
            before,
            after,
            alias,
            uuid_of(route.config),
            reply,
        ),
        Ok(ReleaseRouteView::WireView(route, brightness_percent)) => {
            &&& after == worked(before, after.work)
            &&& display_released(
                before.work,
                after.work,
                alias,
                route.config,
                brightness_percent,
                reply,
            )
        },
    }
}

/// The HID data of a hub was read.
pub open spec fn hub_dumped(
    before: SystemView,
    after: SystemView,
    alias: Seq<char>,
    reply: Reply<Seq<char>>,
) -> bool {
    match drivers::dump_route(before.devices, alias) {
        Err(error) => after == before && reply == Err::<Seq<char>, ErrorView>(error),
        Ok(route) => exists|report: Reply<ReportView>|
            {
                &&& #[trigger] hub_used(
                    before,
                    after,
                    route,
                    TaskView::Dump { expected_fan_count: expected_fans(route.config) },
                    report,
                )
                &&& reply == dump_in(route.device, report)
            },
    }
}

/// The fan subdevices that a selector expects.
pub open spec fn expected_fans(config: DeviceConfig) -> Option<u8> {
    match config {
        DeviceConfig::CorsairIcueLink { expected_fan_count, .. } => expected_fan_count,
        _ => None,
    }
}

impl<D: Drivers> SystemHardware<D> {
    fn write_hub_fans(
        &mut self,
        device: &str,
        config: &DeviceConfig,
        channels: Vec<u32>,
        percent: u8,
        expected_fan_count: Option<u8>,
    ) -> (result: Result<FanWrite>)
        ensures
            final(self).log == old(self).log,
            hub_fans_set(
                old(self)@,
                final(self)@,
                DeviceRouteView { device: device@, config: *config },
                TaskView::Fans { channels: channels@, percent, expected_fan_count },
                views::outcome(result),
            ),
    {
        let task = HubTask::Fans { channels, percent, expected_fan_count };
        let ghost wanted = task@;
        let ghost route = DeviceRouteView { device: device@, config: *config };
        let report = self.machine.run_hub(&mut self.hubs, device, config, task);
        let ghost given = views::outcome(report);
        assert(hub_used(old(self)@, self@, route, wanted, given));
        match report {
            Err(error) => Err(error),
            Ok(HubReport::Fans(write)) => Ok(write),
            Ok(_) => Err(strange_report_error(device)),
        }
    }

    fn write_gpu_fans(&mut self, alias: &str, uuid: &str, channels: Vec<u32>, percent: u8) -> (result:
        Result<FanWrite>)
        ensures
            final(self).log == old(self).log,
            gpu_fans_set(
                old(self)@,
                final(self)@,
                alias@,
                uuid@,
                channels@,
                percent,
                views::outcome(result),
            ),
    {
        let request = HelperRequest::SetFans {
            alias: alias.to_owned(),
            uuid: uuid.to_owned(),
            channels,
            percent,
        };
        let ghost asked = request@;
        let answer = self.machine.ask_gpu(&mut self.helpers, uuid, request, self.timeout);
        let ghost given = views::outcome(answer);
        assert(gpu_asked(
            old(self)@.work,
            self@.work,
            old(self)@.helpers,
            self@.helpers,
            uuid@,
            asked,
            old(self)@.timeout,
            given,
        ));
        let ghost told = self@.work;
        let result = match answer {
            Err(error) => Err(error),
            Ok(HelperResult::Value(value)) => Ok(FanWrite::healthy(value)),
            Ok(other) => {
                let shown = self.machine.drivers.describe(&other);
                assert(self@.work == told.push(words_work(other, shown@)));
                match nvidia::expect_value(other, shown.as_str()) {
                    Ok(value) => Ok(FanWrite::healthy(value)),
                    Err(error) => Err(error),
                }
            },
        };
        assert(write_in(told, self@.work, given, views::outcome(result)));
        result
    }

    fn write_fan(&mut self, alias: &str, config: &OutputConfig, percent: u8) -> (result: Result<
        FanWrite,
    >)
        ensures
            final(self).log == old(self).log,
            fan_written(
                old(self)@,
                final(self)@,
                alias@,
                *config,
                percent,
                views::outcome(result),
            ),
    {
        match self.router.route_fan(alias, config)? {
            FanRoute::Corsair { device, config: selector, channels, expected_fan_count } => {
                let device = device.to_owned();
                let selector = selector.copy();
                let channels = channels.clone();
                self.write_hub_fans(
                    device.as_str(),
                    &selector,
                    channels,
                    percent,
                    expected_fan_count,
                )
            },
            FanRoute::Nvidia { device, config: selector, channels } => {
                let device = device.to_owned();
                let uuid = nvidia::uuid(selector)?.to_owned();
                let channels = channels.clone();
                self.write_gpu_fans(device.as_str(), uuid.as_str(), channels, percent)
            },
        }
    }

    fn write_rgb(&mut self, alias: &str, config: &OutputConfig, rgb: [u8; 3]) -> (result: Result<
        Json,
    >)
        ensures
            final(self).log == old(self).log,
            rgb_written(old(self)@, final(self)@, alias@, *config, rgb, views::outcome(result)),
    {
        let (route, led_count) = self.router.route_rgb(alias, config)?;
        let ghost wanted = route@;
        let device = route.device;
        let report = self.machine.run_hub(
            &mut self.hubs,
            route.device,
            route.config,
            HubTask::Rgb { led_count, rgb },
        );
        let ghost given = views::outcome(report);
        assert(hub_used(old(self)@, self@, wanted, TaskView::Rgb { led_count, rgb }, given));
        match report {
            Err(error) => Err(error),
            Ok(HubReport::Rgb(observed)) => Ok(observed),
            Ok(_) => Err(strange_report_error(device)),
        }
    }

    fn write_display(&mut self, alias: &str, config: &OutputConfig, target: DisplayTarget) -> (result:
        Result<Json>)
        ensures
            final(self).log == old(self).log,
            display_written(
                old(self)@,
                final(self)@,
                alias@,
                *config,
                target,
                views::outcome(result),
            ),
    {
        let route = self.router.route_display(alias, config)?;
        self.machine.run_display(route.device, route.config, target)
    }

    fn release_gpu(&mut self, alias: &str, uuid: &str) -> (result: Result<()>)
        ensures
            final(self).log == old(self).log,
            gpu_released(old(self)@, final(self)@, alias@, uuid@, drivers::done(result)),
    {
        let request = HelperRequest::Release { alias: alias.to_owned(), uuid: uuid.to_owned() };
        let ghost asked = request@;
        let answer = self.machine.ask_gpu(&mut self.helpers, uuid, request, self.timeout);
        let ghost given = views::outcome(answer);
        assert(gpu_asked(
            old(self)@.work,
            self@.work,
            old(self)@.helpers,
            self@.helpers,
            uuid@,
            asked,
            old(self)@.timeout,
            given,
        ));
        let ghost told = self@.work;
        let result = match answer {
            Err(error) => Err(error),
            Ok(HelperResult::Unit) => Ok(()),
            Ok(other) => {
                let shown = self.machine.drivers.describe(&other);
                assert(self@.work == told.push(words_work(other, shown@)));
                nvidia::expect_unit(other, shown.as_str())
            },
        };
        assert(release_in(told, self@.work, given, drivers::done(result)));
        result
    }

    fn release_output(&mut self, alias: &str, config: &OutputConfig) -> (result: Result<()>)
        ensures
            final(self).log == old(self).log,
            output_released(old(self)@, final(self)@, alias@, *config, drivers::done(result)),
    {
        match self.router.route_release(config)? {
            ReleaseRoute::Corsair(route) => {
                let ghost wanted = route@;
                let report = self.machine.run_hub(
                    &mut self.hubs,
                    route.device,
                    route.config,
                    HubTask::Release,
                );
                let ghost given = views::outcome(report);
                assert(hub_used(old(self)@, self@, wanted, TaskView::Release, given));
                match report {
                    Ok(_) => Ok(()),
                    Err(error) => Err(error),
                }
            },
            ReleaseRoute::Nvidia(route) => {
                let uuid = nvidia::uuid(route.config)?.to_owned();
                self.release_gpu(alias, uuid.as_str())
            },
            ReleaseRoute::WireView(route, brightness_percent) => {
                let ghost wanted = route@;
                let target = DisplayTarget::Awake { brightness_percent };
                let report = self.machine.run_display(alias, route.config, target);
                let ghost given = views::outcome(report);
                assert(display_ran(
                    old(self)@.work,
                    self@.work,
                    alias@,
                    wanted.config,
                    target,
                    given,
                ));
                match report {
                    Ok(_) => Ok(()),
                    Err(error) => Err(error),
                }
            },
        }
    }

    fn dump_hub(&mut self, alias: &str) -> (result: Result<String>)
        ensures
            final(self).log == old(self).log,
            hub_dumped(old(self)@, final(self)@, alias@, views::outcome(result)),
    {
        let route = self.router.route_dump(alias)?;
        let ghost wanted = route@;
        let expected_fan_count = match route.config {
            DeviceConfig::CorsairIcueLink { expected_fan_count, .. } => *expected_fan_count,
            _ => None,
        };
        let report = self.machine.run_hub(
            &mut self.hubs,
            route.device,
            route.config,
            HubTask::Dump { expected_fan_count },
        );
        let ghost given = views::outcome(report);
        assert(hub_used(
            old(self)@,
            self@,
            wanted,
            TaskView::Dump { expected_fan_count },
            given,
        ));
        match report {
            Err(error) => Err(error),
            Ok(HubReport::Dump(dump)) => Ok(dump),
            Ok(_) => Err(strange_report_error(alias)),
        }
    }
}

// ---------------------------------------------------------------- discovery

/// A listing of HID devices.
pub open spec fn hids_work(reply: Reply<Seq<HidInfo>>) -> Work {
    Work::ListHids { reply }
}

/// A listing of serial ports.
pub open spec fn ports_work(reply: Reply<Seq<SerialPortInfo>>) -> Work {
    Work::ListPorts { reply }
}

/// The hubs in a listing.
pub open spec fn hubs_in(hids: Reply<Seq<HidInfo>>) -> Reply<Seq<DescriptorView>> {
    match hids {
        Err(error) => Err(error),
        Ok(infos) => Ok(hub::hubs_upto(infos, infos.len() as int)),
    }
}

/// The displays in a listing.
pub open spec fn displays_in(ports: Reply<Seq<SerialPortInfo>>) -> Reply<Seq<DescriptorView>> {
    match ports {
        Err(error) => Err(error),
        Ok(infos) => Ok(wireview::all_described(wireview::ports_of(infos, infos.len() as int))),
    }
}

/// All hubs were listed.
pub open spec fn hubs_discovered(
    before: Seq<Work>,
    after: Seq<Work>,
    reply: Reply<Seq<DescriptorView>>,
) -> bool {
    exists|hids: Reply<Seq<HidInfo>>|
        after == before.push(#[trigger] hids_work(hids)) && reply == hubs_in(hids)
}

/// All hwmon inputs were listed.
pub open spec fn inputs_discovered(
    before: Seq<Work>,
    after: Seq<Work>,
    reply: Reply<Seq<DescriptorView>>,
) -> bool {
    exists|listing: HwmonListing|
        {
            &&& after == before.push(#[trigger] hwmon_work(listing))
            &&& reply == hwmon::discovered(listing)
        }
}

/// All displays were listed.
pub open spec fn displays_discovered(
    before: Seq<Work>,
    after: Seq<Work>,
    reply: Reply<Seq<DescriptorView>>,
) -> bool {
    exists|ports: Reply<Seq<SerialPortInfo>>|
        after == before.push(#[trigger] ports_work(ports)) && reply == displays_in(ports)
}

/// All devices were listed, driver by driver.
pub open spec fn all_discovered(
    before: SystemView,
    after: SystemView,
    reply: Reply<Seq<DescriptorView>>,
) -> bool {
    &&& after == worked(before, after.work)
    &&& exists|
        hubs_done: Seq<Work>,
        corsair: Reply<Seq<DescriptorView>>,
        gpus_done: Seq<Work>,
        nvidia: Reply<Seq<DescriptorView>>,
        inputs_done: Seq<Work>,
        hwmon: Reply<Seq<DescriptorView>>,
        wireview: Reply<Seq<DescriptorView>>,
    |
        {
            &&& #[trigger] hubs_discovered(before.work, hubs_done, corsair)
            &&& #[trigger] gpus_discovered(hubs_done, gpus_done, before.timeout, nvidia)
            &&& #[trigger] inputs_discovered(gpus_done, inputs_done, hwmon)
            &&& #[trigger] displays_discovered(inputs_done, after.work, wireview)
            &&& reply == drivers::discovered(corsair, nvidia, hwmon, wireview)
        }
}

/// The hubs of a configuration were looked for, if it has any.
pub open spec fn hubs_checked(
    before: Seq<Work>,
    after: Seq<Work>,
    configured: Devices,
    reply: Reply<Seq<DescriptorView>>,
) -> bool {
    if hub::any_corsair(configured) {
        exists|hids: Reply<Seq<HidInfo>>|
            {
                &&& after == before.push(#[trigger] hids_work(hids))
                &&& reply == (match hids {
                    Err(error) => Err(error),
                    Ok(infos) => hub::configured_hubs(configured, infos, 0, Seq::empty()),
                })
            }
    } else {
        after == before && reply == Ok::<Seq<DescriptorView>, ErrorView>(Seq::empty())
    }
}

/// The GPUs of a configuration were looked for, if it has any.
pub open spec fn gpus_checked(
    before: Seq<Work>,
    after: Seq<Work>,
    configured: Devices,
    timeout: Nanos,
    reply: Reply<Seq<DescriptorView>>,
) -> bool {
    if nvidia::any_nvidia(configured) {
        exists|found: Reply<Seq<DescriptorView>>|
            {
                &&& #[trigger] gpus_discovered(before, after, timeout, found)
                &&& reply == (match found {
                    Err(error) => Err(error),
                    Ok(devices) => Ok(
                        nvidia::configured_gpus(configured, devices, configured.len() as int),
                    ),
                })
            }
    } else {
        after == before && reply == Ok::<Seq<DescriptorView>, ErrorView>(Seq::empty())
    }
}

/// The displays of a configuration were looked for, if it has any.
pub open spec fn displays_checked(
    before: Seq<Work>,
    after: Seq<Work>,
    configured: Devices,
    reply: Reply<Seq<DescriptorView>>,
) -> bool {
    if wireview::any_wireview(configured) {
        exists|ports: Reply<Seq<SerialPortInfo>>|
            {
                &&& after == before.push(#[trigger] ports_work(ports))
                &&& reply == (match ports {
                    Err(error) => Err(error),
                    Ok(infos) => Ok(
                        wireview::configured_ports(
                            configured,
                            wireview::ports_of(infos, infos.len() as int),
                            configured.len() as int,
                        ),
                    ),
                })
            }
    } else {
        after == before && reply == Ok::<Seq<DescriptorView>, ErrorView>(Seq::empty())
    }
}

/// The hwmon sensors of a configuration were looked for.
pub open spec fn sensors_checked(
    before: Seq<Work>,
    after: Seq<Work>,
    sensors: names::Entries<SensorConfig>,
    reply: Reply<()>,
) -> bool {
    exists|listing: HwmonListing|
        {
            &&& after == before.push(#[trigger] hwmon_work(listing))
            &&& reply == hwmon::checked(listing, sensors)
        }
}

/// A configuration was checked against the hardware, driver by driver.
pub open spec fn config_checked(
    before: SystemView,
    after: SystemView,
    config: Config,
    reply: Reply<Seq<DescriptorView>>,
) -> bool {
    &&& after == worked(before, after.work)
    &&& exists|
        hubs_done: Seq<Work>,
        corsair: Reply<Seq<DescriptorView>>,
        gpus_done: Seq<Work>,
        nvidia: Reply<Seq<DescriptorView>>,
        displays_done: Seq<Work>,
        wireview: Reply<Seq<DescriptorView>>,
        sensors: Reply<()>,
    |
        {
            &&& #[trigger] hubs_checked(before.work, hubs_done, config.devices@, corsair)
            &&& #[trigger] gpus_checked(
                hubs_done,
                gpus_done,
                config.devices@,
                config.daemon.driver_timeout,
                nvidia,
            )
            &&& #[trigger] displays_checked(
                gpus_done,
                displays_done,
                config.devices@,
                wireview,
            )
            &&& #[trigger] sensors_checked(displays_done, after.work, config.sensors@, sensors)
            &&& reply == drivers::preflighted(
                config.devices@,
                corsair,
                nvidia,
                wireview,
                sensors,
            )
        }
}

impl<D: Drivers> Machine<D> {
    fn discover_hubs(&mut self) -> (result: Result<Vec<DeviceDescriptor>>)
        ensures
            hubs_discovered(old(self).drivers.work(), final(self).drivers.work(), drivers::descriptors(result)),
    {
        let hids = self.drivers.list_hids();
        assert(self.drivers.work() == old(self).drivers.work().push(hids_work(items(hids))));
        let infos = hids?;
        Ok(hub::discover_all(&infos))
    }

    fn discover_inputs(&mut self) -> (result: Result<Vec<DeviceDescriptor>>)
        ensures
            inputs_discovered(old(self).drivers.work(), final(self).drivers.work(), drivers::descriptors(result)),
    {
        let listing = self.drivers.list_hwmon();
        assert(self.drivers.work() == old(self).drivers.work().push(hwmon_work(listing)));
        hwmon::discover(&listing)
    }

    fn discover_displays(&mut self) -> (result: Result<Vec<DeviceDescriptor>>)
        ensures
            displays_discovered(old(self).drivers.work(), final(self).drivers.work(), drivers::descriptors(result)),
    {
        let ports = self.drivers.list_ports();
        assert(self.drivers.work() == old(self).drivers.work().push(ports_work(items(ports))));
        let infos = ports?;
        Ok(wireview::discover_all(&wireview::enumerate(&infos)))
    }

    fn check_hubs(&mut self, configured: &NameMap<DeviceConfig>) -> (result: Result<
        Vec<DeviceDescriptor>,
    >)
        ensures
            hubs_checked(
                old(self).drivers.work(),
                final(self).drivers.work(),
                configured@,
                drivers::descriptors(result),
            ),
    {
        if !hub::needs_hid(configured) {
            let none: Vec<DeviceDescriptor> = Vec::new();
            assert(views::list(none@) =~= Seq::empty());
            return Ok(none);
        }
        let hids = self.drivers.list_hids();
        assert(self.drivers.work() == old(self).drivers.work().push(hids_work(items(hids))));
        let infos = hids?;
        hub::discover_configured(configured, &infos)
    }

    fn check_gpus(&mut self, configured: &NameMap<DeviceConfig>, timeout: Nanos) -> (result: Result<
        Vec<DeviceDescriptor>,
    >)
        ensures
            gpus_checked(
                old(self).drivers.work(),
                final(self).drivers.work(),
                configured@,
                timeout,
                drivers::descriptors(result),
            ),
    {
        if !nvidia::needs_nvml(configured) {
            let none: Vec<DeviceDescriptor> = Vec::new();
            assert(views::list(none@) =~= Seq::empty());
            return Ok(none);
        }
        let found = self.discover_gpus(timeout);
        assert(gpus_discovered(
            old(self).drivers.work(),
            self.drivers.work(),
            timeout,
            drivers::descriptors(found),
        ));
        let devices = found?;
        Ok(nvidia::discover_configured(configured, &devices))
    }

    fn check_displays(&mut self, configured: &NameMap<DeviceConfig>) -> (result: Result<
        Vec<DeviceDescriptor>,
    >)
        ensures
            displays_checked(
                old(self).drivers.work(),
                final(self).drivers.work(),
                configured@,
                drivers::descriptors(result),
            ),
    {
        if !wireview::needs_ports(configured) {
            let none: Vec<DeviceDescriptor> = Vec::new();
            assert(views::list(none@) =~= Seq::empty());
            return Ok(none);
        }
        let ports = self.drivers.list_ports();
        assert(self.drivers.work() == old(self).drivers.work().push(ports_work(items(ports))));
        let infos = ports?;
        Ok(wireview::discover_configured(configured, &wireview::enumerate(&infos)))
    }

    fn check_sensors(&mut self, sensors: &NameMap<SensorConfig>) -> (result: Result<()>)
        ensures
            sensors_checked(
                old(self).drivers.work(),
                final(self).drivers.work(),
                sensors@,
                drivers::done(result),
            ),
    {
        let listing = self.drivers.list_hwmon();
        assert(self.drivers.work() == old(self).drivers.work().push(hwmon_work(listing)));
        hwmon::validate_sensors(&listing, sensors)
    }
}

impl<D: Drivers> SystemHardware<D> {
    fn discover_all(&mut self) -> (result: Result<Vec<DeviceDescriptor>>)
        ensures
            final(self).log == old(self).log,
            all_discovered(old(self)@, final(self)@, drivers::descriptors(result)),
    {
        let timeout: Nanos = self.timeout;
        let corsair = self.machine.discover_hubs();
        let ghost hubs_done = self@.work;
        let nvidia = self.machine.discover_gpus(timeout);
        let ghost gpus_done = self@.work;
        let hwmon = self.machine.discover_inputs();
        let ghost inputs_done = self@.work;
        let wireview = self.machine.discover_displays();
        proof {
            assert(hubs_discovered(old(self)@.work, hubs_done, drivers::descriptors(corsair)));
            assert(gpus_discovered(hubs_done, gpus_done, timeout, drivers::descriptors(nvidia)));
            assert(inputs_discovered(gpus_done, inputs_done, drivers::descriptors(hwmon)));
            assert(displays_discovered(inputs_done, self@.work, drivers::descriptors(wireview)));
        }
        drivers::discover_devices(corsair, nvidia, hwmon, wireview)
    }

    fn check_config(&mut self, config: &Config) -> (result: Result<Vec<DeviceDescriptor>>)
        ensures
            final(self).log == old(self).log,
            config_checked(old(self)@, final(self)@, *config, drivers::descriptors(result)),
    {
        let timeout: Nanos = config.daemon.driver_timeout;
        let corsair = self.machine.check_hubs(&config.devices);
        let ghost hubs_done = self@.work;
        let nvidia = self.machine.check_gpus(&config.devices, timeout);
        let ghost gpus_done = self@.work;
        let wireview = self.machine.check_displays(&config.devices);
        let ghost displays_done = self@.work;
        let sensors = self.machine.check_sensors(&config.sensors);
        proof {
            let devices = config.devices@;
            assert(hubs_checked(
                old(self)@.work,
                hubs_done,
                devices,
                drivers::descriptors(corsair),
            ));
            assert(gpus_checked(
                hubs_done,
                gpus_done,
                devices,
                timeout,
                drivers::descriptors(nvidia),
            ));
            assert(displays_checked(
                gpus_done,
                displays_done,
                devices,
                drivers::descriptors(wireview),
            ));
            assert(sensors_checked(
                displays_done,
                self@.work,
                config.sensors@,
                drivers::done(sensors),
            ));
        }
        drivers::combine_preflight(&config.devices, corsair, nvidia, wireview, sensors)
    }
}

// ---------------------------------------------------------------- end of helpers

/// The helpers without those of some GPUs.
pub open spec fn without(helpers: Helpers, gpus: Seq<Seq<char>>) -> Helpers
    decreases gpus.len(),
{
    if gpus.len() == 0 {
        helpers
    } else {
        names::removed(without(helpers, gpus.drop_last()), gpus.last())
    }
}

/// A helper was ended, if there is one.
pub open spec fn turn_ended(
    before: Seq<Work>,
    after: Seq<Work>,
    helper: Option<HelperView>,
    timeout: Nanos,
) -> bool {
    match helper {
        Some(helper) => helper_ended(before, after, helper, timeout),
        None => after == before,
    }
}

/// The helpers of some GPUs were ended, one after another.
pub open spec fn helpers_ended(
    before: Seq<Work>,
    after: Seq<Work>,
    helpers: Helpers,
    gpus: Seq<Seq<char>>,
    timeout: Nanos,
) -> bool
    decreases gpus.len(),
{
    if gpus.len() == 0 {
        after == before
    } else {
        exists|middle: Seq<Work>|
            {
                &&& helpers_ended(before, middle, helpers, gpus.drop_last(), timeout)
                &&& #[trigger] turn_ended(
                    middle,
                    after,
                    names::find(without(helpers, gpus.drop_last()), gpus.last()),
                    timeout,
                )
            }
    }
}

impl<D: Drivers> SystemHardware<D> {
    /// Ends the helpers of some GPUs.
    fn end_helpers(&mut self, gpus: &Vec<String>)
        ensures
            final(self).log == old(self).log,
            final(self)@ == helped(
                old(self)@,
                without(old(self)@.helpers, text::texts(gpus@)),
                final(self)@.work,
            ),
            helpers_ended(
                old(self)@.work,
                final(self)@.work,
                old(self)@.helpers,
                text::texts(gpus@),
                old(self)@.timeout,
            ),
    {
        let timeout: Nanos = self.timeout;
        let ghost list = text::texts(gpus@);
        let mut at: usize = 0;
        while at < gpus.len()
            invariant
                at <= gpus@.len(),
                list == text::texts(gpus@),
                timeout == old(self)@.timeout,
                self.log == old(self).log,
                self@ == helped(
                    old(self)@,
                    without(old(self)@.helpers, list.take(at as int)),
                    self@.work,
                ),
                helpers_ended(
                    old(self)@.work,
                    self@.work,
                    old(self)@.helpers,
                    list.take(at as int),
                    timeout,
                ),
            decreases gpus@.len() - at,
        {
            let ghost middle = self@.work;
            let ghost next = list.take(at + 1);
            assert(next.drop_last() =~= list.take(at as int));
            assert(next.last() == gpus@[at as int]@);
            let removed = self.helpers.remove(gpus[at].as_str());
            if let Some(helper) = removed {
                self.machine.end_helper(helper, timeout);
            }
            assert(turn_ended(
                middle,
                self@.work,
                names::find(without(old(self)@.helpers, next.drop_last()), next.last()),
                timeout,
            ));
            at += 1;
        }
        assert(list.take(gpus@.len() as int) =~= list);
    }
}

/// A hub was given back at the end. Where that fails it is tried again before the hub is closed.
pub open spec fn hub_ended(
    before: Seq<Work>,
    after: Seq<Work>,
    alias: Seq<char>,
    modes: HubModes,
) -> bool {
    exists|freed: Seq<Work>, left: HubModes, outcome: Reply<ReportView>, fault: bool|
        {
            &&& #[trigger] task_ran(
                before,
                freed,
                alias,
                TaskView::Release,
                modes,
                left,
                outcome,
                fault,
            )
            &&& match outcome {
                Ok(_) => after == freed.push(Work::CloseHub { alias }),
                Err(_) => hub_let_go(freed, after, alias, left),
            }
        }
}

impl<D: Drivers> Machine<D> {
    fn end_hub(&mut self, alias: &str, modes: HubModes)
        ensures
            hub_ended(old(self).drivers.work(), final(self).drivers.work(), alias@, modes),
    {
        let (left, outcome, fault) = self.drive(alias, HubTask::Release, modes);
        assert(task_ran(
            old(self).drivers.work(),
            self.drivers.work(),
            alias@,
            TaskView::Release,
            modes,
            left,
            views::outcome(outcome),
            fault,
        ));
        match outcome {
            Ok(_) => self.drivers.close_hub(alias),
            Err(_) => self.let_go(alias, left),
        }
    }
}

/// The first `count` open hubs were given back and closed, one after another.
pub open spec fn hubs_ended(before: Seq<Work>, after: Seq<Work>, hubs: Hubs, count: int) -> bool
    decreases count,
{
    if count <= 0 {
        after == before
    } else {
        exists|middle: Seq<Work>|
            {
                &&& hubs_ended(before, middle, hubs, count - 1)
                &&& #[trigger] hub_ended(middle, after, hubs[count - 1].0, hubs[count - 1].1)
            }
    }
}

impl<D: Drivers> SystemHardware<D> {
    fn end_hubs(&mut self)
        ensures
            final(self).log == old(self).log,
            final(self)@ == worked(old(self)@, final(self)@.work),
            hubs_ended(
                old(self)@.work,
                final(self)@.work,
                old(self)@.hubs,
                old(self)@.hubs.len() as int,
            ),
    {
        let count: usize = self.hubs.len();
        let mut at: usize = 0;
        while at < count
            invariant
                count == old(self)@.hubs.len(),
                at <= count,
                self.log == old(self).log,
                self@ == worked(old(self)@, self@.work),
                hubs_ended(old(self)@.work, self@.work, old(self)@.hubs, at as int),
            decreases count - at,
        {
            let ghost middle = self@.work;
            let modes = *self.hubs.value_at(at);
            self.machine.end_hub(self.hubs.key_at(at).as_str(), modes);
            at += 1;
            assert(hub_ended(
                middle,
                self@.work,
                old(self)@.hubs[at - 1].0,
                old(self)@.hubs[at - 1].1,
            ));
        }
    }
}

// ---------------------------------------------------------------- operations of the policy

/// The helper of the GPU behind a fan output, if it has one.
pub open spec fn fan_helper(state: SystemView, config: OutputConfig) -> Option<HelperView> {
    match drivers::nvidia_fan_device(state.devices, config) {
        Some(selector) => names::find(state.helpers, uuid_of(selector)),
        None => None,
    }
}

/// Why the helper behind a fan output is out of service, if it is.
pub open spec fn helper_fault(state: SystemView, config: OutputConfig) -> Option<ErrorView> {
    match fan_helper(state, config) {
        Some(helper) => match helper.quarantined {
            Some(reason) => Some(nvidia::quarantined(helper.label, reason)),
            None => None,
        },
        None => None,
    }
}

impl<D: Drivers> SystemHardware<D> {
    fn helper_of(&self, config: &OutputConfig) -> (helper: Option<&HelperState>)
        ensures
            match helper {
                Some(found) => fan_helper(self@, *config) == Some(found@),
                None => fan_helper(self@, *config) is None,
            },
    {
        match self.router.health_device(config) {
            Some(selector) => match nvidia::uuid(selector) {
                Ok(uuid) => self.helpers.get(uuid),
                Err(_) => None,
            },
            None => None,
        }
    }
}

impl<D: Drivers> Hardware for SystemHardware<D> {
    open spec fn calls(&self) -> Seq<Call> {
        self.log@
    }

    open spec fn refreshes(&self, config: OutputConfig) -> bool {
        drivers::refresh_needed(self@.devices, config)
    }

    open spec fn fan_fault(&self, config: OutputConfig) -> Option<ErrorView> {
        helper_fault(self@, config)
    }

    open spec fn isolated(&self, config: OutputConfig) -> bool {
        helper_fault(self@, config) is Some
    }

    fn preflight(&mut self, config: &Config) -> (result: Result<Vec<DeviceDescriptor>>)
        ensures
            config_checked(old(self)@, final(self)@, *config, drivers::descriptors(result)),
    {
        let result = self.check_config(config);
        self.log = Ghost(
            self.log@.push(
                Call::Preflight { config: *config, reply: drivers::descriptors(result) },
            ),
        );
        result
    }

    fn commit_config(&mut self, config: &Config)
        ensures
            final(self)@ == (SystemView {
                devices: config.devices@,
                hubs: old(self)@.hubs,
                helpers: without(
                    old(self)@.helpers,
                    unselected_gpus(old(self)@.helpers, config.devices@),
                ),
                timeout: config.daemon.driver_timeout,
                work: final(self)@.work,
            }),
            helpers_ended(
                old(self)@.work,
                final(self)@.work,
                old(self)@.helpers,
                unselected_gpus(old(self)@.helpers, config.devices@),
                old(self)@.timeout,
            ),
    {
        let gpus = self.helpers.keys();
        let stopped = nvidia::helpers_to_stop(&gpus, &config.devices);
        assert(names::names(self@.helpers).len() == gpus@.len());
        self.end_helpers(&stopped);
        self.timeout = config.daemon.driver_timeout;
        self.router.commit_config(config);
        self.log = Ghost(self.log@.push(Call::Commit { config: *config }));
    }

    fn discover(&mut self) -> (result: Result<Vec<DeviceDescriptor>>)
        ensures
            all_discovered(old(self)@, final(self)@, drivers::descriptors(result)),
    {
        let result = self.discover_all();
        self.log = Ghost(
            self.log@.push(Call::Discover { reply: drivers::descriptors(result) }),
        );
        result
    }

    fn read_sensor(&mut self, alias: &str, config: &SensorConfig) -> (result: Result<Sample>)
        ensures
            sensor_read(old(self)@, final(self)@, alias@, *config, views::outcome(result)),
    {
        let result = self.read(alias, config);
        self.log = Ghost(
            self.log@.push(
                Call::ReadSensor {
                    alias: alias@,
                    config: *config,
                    reply: views::outcome(result),
                },
            ),
        );
        result
    }

    fn set_fan(&mut self, alias: &str, config: &OutputConfig, percent: u8) -> (result: Result<
        FanWrite,
    >)
        ensures
            fan_written(
                old(self)@,
                final(self)@,
                alias@,
                *config,
                percent,
                views::outcome(result),
            ),
    {
        let result = self.write_fan(alias, config, percent);
        self.log = Ghost(
            self.log@.push(
                Call::SetFan {
                    alias: alias@,
                    config: *config,
                    percent,
                    reply: views::outcome(result),
                },
            ),
        );
        result
    }

    fn fan_needs_periodic_refresh(&self, config: &OutputConfig) -> (result: bool) {
        self.router.needs_periodic_refresh(config)
    }

    fn check_fan_health(&self, config: &OutputConfig) -> (result: Result<()>) {
        match self.helper_of(config) {
            Some(helper) => helper.check_health(),
            None => Ok(()),
        }
    }

    fn fan_failure_is_isolated(&self, config: &OutputConfig) -> (result: bool) {
        match self.helper_of(config) {
            Some(helper) => helper.is_quarantined(),
            None => false,
        }
    }

    fn set_rgb(&mut self, alias: &str, config: &OutputConfig, rgb: [u8; 3]) -> (result: Result<
        Json,
    >)
        ensures
            rgb_written(old(self)@, final(self)@, alias@, *config, rgb, views::outcome(result)),
    {
        let result = self.write_rgb(alias, config, rgb);
        self.log = Ghost(
            self.log@.push(
                Call::SetRgb {
                    alias: alias@,
                    config: *config,
                    rgb,
                    reply: views::outcome(result),
                },
            ),
        );
        result
    }

    fn set_display(
        &mut self,
        alias: &str,
        config: &OutputConfig,
        target: DisplayTarget,
    ) -> (result: Result<Json>)
        ensures
            display_written(
                old(self)@,
                final(self)@,
                alias@,
                *config,
                target,
                views::outcome(result),
            ),
    {
        let result = self.write_display(alias, config, target);
        self.log = Ghost(
            self.log@.push(
                Call::SetDisplay {
                    alias: alias@,
                    config: *config,
                    target,
                    reply: views::outcome(result),
                },
            ),
        );
        result
    }

    fn release(&mut self, alias: &str, config: &OutputConfig) -> (result: Result<()>)
        ensures
            output_released(old(self)@, final(self)@, alias@, *config, drivers::done(result)),
    {
        let result = self.release_output(alias, config);
        self.log = Ghost(
            self.log@.push(
                Call::Release { alias: alias@, config: *config, reply: drivers::done(result) },
            ),
        );
        result
    }

    fn debug_hid_dump(&mut self, device_alias: &str) -> (result: Result<String>)
        ensures
            hub_dumped(old(self)@, final(self)@, device_alias@, views::outcome(result)),
    {
        let result = self.dump_hub(device_alias);
        self.log = Ghost(
            self.log@.push(
                Call::Dump { device: device_alias@, reply: views::outcome(result) },
            ),
        );
        result
    }

    fn shutdown(&mut self)
        ensures
            final(self)@ == (SystemView {
                hubs: Seq::empty(),
                helpers: Seq::empty(),
                work: final(self)@.work,
                ..old(self)@
            }),
            exists|middle: Seq<Work>|
                {
                    &&& #[trigger] helpers_ended(
                        old(self)@.work,
                        middle,
                        old(self)@.helpers,
                        names::names(old(self)@.helpers),
                        old(self)@.timeout,
                    )
                    &&& hubs_ended(
                        middle,
                        final(self)@.work,
                        old(self)@.hubs,
                        old(self)@.hubs.len() as int,
                    )
                },
    {
        let gpus = self.helpers.keys();
        self.end_helpers(&gpus);
        let ghost middle = self@.work;
        assert(helpers_ended(
            old(self)@.work,
            middle,
            old(self)@.helpers,
            names::names(old(self)@.helpers),
            old(self)@.timeout,
        ));
        self.end_hubs();
        self.helpers = NameMap::new();
        self.hubs = NameMap::new();
        self.log = Ghost(self.log@.push(Call::Shutdown));
        assert(self@.helpers =~= Seq::empty());
        assert(self@.hubs =~= Seq::empty());
    }
}

/// The GPUs with a helper that a configuration does not select.
pub open spec fn unselected_gpus(helpers: Helpers, configured: Devices) -> Seq<Seq<char>> {
    nvidia::unselected(names::names(helpers), configured, helpers.len() as int)
}

// ---------------------------------------------------------------- laws

proof fn lemma_find_without(helpers: Helpers, gpus: Seq<Seq<char>>, uuid: Seq<char>)
    requires
        names::sorted(helpers),
    ensures
        names::sorted(without(helpers, gpus)),
        names::find(without(helpers, gpus), uuid) == (if gpus.contains(uuid) {
            None
        } else {
            names::find(helpers, uuid)
        }),
    decreases gpus.len(),
{
    if gpus.len() > 0 {
        let fewer = gpus.drop_last();
        lemma_find_without(helpers, fewer, uuid);
        lemma_find_without(helpers, fewer, gpus.last());
        names::lemma_removed_sorted(without(helpers, fewer), gpus.last());
        names::lemma_find_removed(without(helpers, fewer), gpus.last(), uuid);
        if fewer.contains(uuid) {
            let at = choose|at: int| 0 <= at < fewer.len() && fewer[at] == uuid;
            assert(gpus[at] == uuid);
        }
        if gpus.contains(uuid) && uuid != gpus.last() {
            let at = choose|at: int| 0 <= at < gpus.len() && gpus[at] == uuid;
            assert(fewer[at] == uuid);
        }
        assert(gpus[gpus.len() - 1] == gpus.last());
    }
}

proof fn lemma_contains_pushed(list: Seq<Seq<char>>, last: Seq<char>, item: Seq<char>)
    ensures
        list.push(last).contains(item) == (list.contains(item) || item == last),
{
    if list.contains(item) {
        let at = choose|at: int| 0 <= at < list.len() && list[at] == item;
        assert(list.push(last)[at] == item);
    }
    assert(list.push(last)[list.len() as int] == last);
}

proof fn lemma_unselected(gpus: Seq<Seq<char>>, configured: Devices, count: int, uuid: Seq<char>)
    requires
        0 <= count <= gpus.len(),
    ensures
        nvidia::unselected(gpus, configured, count).contains(uuid) == (gpus.take(count).contains(
            uuid,
        ) && !nvidia::selects(configured, uuid)),
    decreases count,
{
    let found = nvidia::unselected(gpus, configured, count);
    if count > 0 {
        lemma_unselected(gpus, configured, count - 1, uuid);
        let earlier = nvidia::unselected(gpus, configured, count - 1);
        let last = gpus[count - 1];
        assert(gpus.take(count) =~= gpus.take(count - 1).push(last));
        lemma_contains_pushed(gpus.take(count - 1), last, uuid);
        lemma_contains_pushed(earlier, last, uuid);
    }
}

/// Once a configuration is active, exactly the helpers of GPUs that it selects are left, as they
/// were: one that is out of service stays so.
pub proof fn law_selected_gpus_keep_their_helpers(
    helpers: Helpers,
    configured: Devices,
    uuid: Seq<char>,
)
    requires
        names::sorted(helpers),
    ensures
        names::find(without(helpers, unselected_gpus(helpers, configured)), uuid) == (
        if nvidia::selects(configured, uuid) {
            names::find(helpers, uuid)
        } else {
            None
        }),
{
    let gpus = names::names(helpers);
    lemma_find_without(helpers, unselected_gpus(helpers, configured), uuid);
    lemma_unselected(gpus, configured, helpers.len() as int, uuid);
    assert(gpus.take(helpers.len() as int) =~= gpus);
    if names::has(helpers, uuid) {
        let at = names::slot(helpers, uuid) as int;
        assert(gpus[at] == uuid);
    }
}

/// A fan write on a GPU whose helper is out of service reaches no driver, and fails with the
/// reason.
pub proof fn law_quarantined_gpu_is_left_alone(
    before: SystemView,
    after: SystemView,
    alias: Seq<char>,
    config: OutputConfig,
    percent: u8,
    reply: Reply<FanWriteView>,
)
    requires
        fan_written(before, after, alias, config, percent, reply),
        helper_fault(before, config) is Some,
    ensures
        after.work == before.work,
        reply == Err::<FanWriteView, ErrorView>(helper_fault(before, config)->0),
{
}

/// A hub on which a HID operation failed is not open any more, so that the next one starts with a
/// fresh handle.
pub proof fn law_failed_hub_is_closed(
    before: Seq<Work>,
    after: Seq<Work>,
    hubs: Hubs,
    next: Hubs,
    alias: Seq<char>,
    config: DeviceConfig,
    task: TaskView,
    fresh: HubModes,
    outcome: Reply<ReportView>,
)
    requires
        names::sorted(hubs),
        hub_tried(before, after, hubs, next, alias, config, task, fresh, outcome, true),
    ensures
        names::find(next, alias) is None,
{
    names::lemma_find_removed(hubs, alias, alias);
}

/// A hub that was released is not open any more.
pub proof fn law_released_hub_is_closed(
    before: Seq<Work>,
    after: Seq<Work>,
    hubs: Hubs,
    next: Hubs,
    alias: Seq<char>,
    config: DeviceConfig,
    fresh: HubModes,
    outcome: Reply<ReportView>,
    fault: bool,
)
    requires
        names::sorted(hubs),
        hub_tried(
            before,
            after,
            hubs,
            next,
            alias,
            config,
            TaskView::Release,
            fresh,
            outcome,
            fault,
        ),
    ensures
        names::find(next, alias) is None,
{
    names::lemma_find_removed(hubs, alias, alias);
}

/// A hub that was open stays open after an error that no HID operation caused.
pub proof fn law_other_errors_keep_the_hub(
    before: Seq<Work>,
    after: Seq<Work>,
    hubs: Hubs,
    next: Hubs,
    alias: Seq<char>,
    config: DeviceConfig,
    task: TaskView,
    fresh: HubModes,
    outcome: Reply<ReportView>,
)
    requires
        names::sorted(hubs),
        names::has(hubs, alias),
        !(task is Release),
        hub_tried(before, after, hubs, next, alias, config, task, fresh, outcome, false),
    ensures
        names::has(next, alias),
{
    let modes = names::find(hubs, alias)->0;
    let (ran, left) = choose|ran: Seq<Work>, left: HubModes|
        {
            &&& #[trigger] task_ran(before, ran, alias, task, modes, left, outcome, false)
            &&& hub_kept(ran, after, hubs, next, alias, task, left, false)
        };
    names::lemma_find_inserted(hubs, alias, left, alias);
}

proof fn lemma_fault_ends(first: (JobView, HubActionView), replies: Seq<Reply<Seq<u8>>>)
    requires
        job_fault(first, replies),
    ensures
        ({
            let (job, action) = job_after(first, replies);
            ||| action matches HubActionView::Finish(Err(_))
            ||| action is Transfer && (job.stage matches hub::HubStageView::Restoring {
                dump: Err(_),
            })
        }),
    decreases replies.len(),
{
    let (job, action) = job_after(first, replies.drop_last());
    if job_fault(first, replies.drop_last()) {
        lemma_fault_ends(first, replies.drop_last());
    }
}

/// A task on which a transfer failed fails.
pub proof fn law_faults_are_reported(
    before: Seq<Work>,
    after: Seq<Work>,
    alias: Seq<char>,
    task: TaskView,
    modes: HubModes,
    left: HubModes,
    outcome: Reply<ReportView>,
)
    requires
        task_ran(before, after, alias, task, modes, left, outcome, true),
    ensures
        outcome is Err,
{
    let first = hub::started(hub::idle_job(alias, task, modes));
    let replies = choose|replies: Seq<Reply<Seq<u8>>>|
        {
            &&& after == before + #[trigger] job_work(alias, first, replies)
            &&& job_after(first, replies).1 == HubActionView::Finish(outcome)
            &&& job_after(first, replies).0.modes == left
            &&& job_fault(first, replies)
        };
    lemma_fault_ends(first, replies);
}

/// The transfer that gives a hub control of itself, with its answer.
pub open spec fn told_work(alias: Seq<char>, answer: Seq<u8>) -> Work {
    Work::Transfer {
        alias,
        packet: hub::packet_of(hub::request_bytes(TransferView::HardwareMode))->Ok_0,
        reply: Ok(answer),
    }
}

/// Whether a hub answered, after earlier work, the transfer that gives it control of itself.
pub open spec fn told_since(before: Seq<Work>, after: Seq<Work>, alias: Seq<char>) -> bool {
    exists|answer: Seq<u8>|
        after.skip(before.len() as int).contains(#[trigger] told_work(alias, answer))
}

proof fn lemma_release_told(
    alias: Seq<char>,
    modes: HubModes,
    replies: Seq<Reply<Seq<u8>>>,
)
    requires
        modes.software,
    ensures
        ({
            let first = hub::started(hub::idle_job(alias, TaskView::Release, modes));
            &&& replies.len() == 0 ==> job_after(first, replies).1 is Transfer
            &&& replies.len() > 0 ==> {
                &&& job_after(first, replies).1 == HubActionView::Finish(
                    match replies[0] {
                        Ok(_) => Ok(ReportView::Released),
                        Err(error) => Err(error),
                    },
                )
                &&& replies[0] matches Ok(answer) ==> job_work(alias, first, replies) == seq![
                    told_work(alias, answer),
                ]
            }
        }),
    decreases replies.len(),
{
    let first = hub::started(hub::idle_job(alias, TaskView::Release, modes));
    if replies.len() > 0 {
        lemma_release_told(alias, modes, replies.drop_last());
        if replies.len() == 1 {
            assert(replies.drop_last() =~= Seq::empty());
            assert(job_after(first, replies.drop_last()) == first);
            if let Ok(answer) = replies[0] {
                assert(job_work(alias, first, replies.drop_last()) =~= Seq::empty());
                assert(transfer_work(alias, 0, TransferView::HardwareMode, replies.last())
                    =~= seq![told_work(alias, answer)]);
                assert(job_work(alias, first, replies) =~= seq![told_work(alias, answer)]);
            }
        } else {
            assert(replies.drop_last()[0] == replies[0]);
        }
    }
}

proof fn lemma_released_was_told(
    before: Seq<Work>,
    after: Seq<Work>,
    alias: Seq<char>,
    modes: HubModes,
    left: HubModes,
    outcome: Reply<ReportView>,
    fault: bool,
)
    requires
        modes.software,
        task_ran(before, after, alias, TaskView::Release, modes, left, outcome, fault),
        outcome is Ok,
    ensures
        exists|answer: Seq<u8>| after == before.push(#[trigger] told_work(alias, answer)),
{
    let first = hub::started(hub::idle_job(alias, TaskView::Release, modes));
    let replies = choose|replies: Seq<Reply<Seq<u8>>>|
        {
            &&& after == before + #[trigger] job_work(alias, first, replies)
            &&& job_after(first, replies).1 == HubActionView::Finish(outcome)
            &&& job_after(first, replies).0.modes == left
            &&& job_fault(first, replies) == fault
        };
    lemma_release_told(alias, modes, replies);
    let answer = replies[0]->Ok_0;
    assert(after =~= before.push(told_work(alias, answer)));
}

proof fn lemma_tried_release_was_told(
    before: Seq<Work>,
    after: Seq<Work>,
    hubs: Hubs,
    next: Hubs,
    alias: Seq<char>,
    modes: HubModes,
    outcome: Reply<ReportView>,
    fault: bool,
)
    requires
        modes.software,
        open_hub_tried(before, after, hubs, next, alias, TaskView::Release, modes, outcome, fault),
        outcome is Ok,
    ensures
        told_since(before, after, alias),
{
    let (ran, left) = choose|ran: Seq<Work>, left: HubModes|
        {
            &&& #[trigger] task_ran(
                before,
                ran,
                alias,
                TaskView::Release,
                modes,
                left,
                outcome,
                fault,
            )
            &&& hub_kept(ran, after, hubs, next, alias, TaskView::Release, left, fault)
        };
    if fault {
        law_faults_are_reported(before, ran, alias, TaskView::Release, modes, left, outcome);
    }
    lemma_released_was_told(before, ran, alias, modes, left, outcome, fault);
    let answer = choose|answer: Seq<u8>| ran == before.push(#[trigger] told_work(alias, answer));
    let since = after.skip(before.len() as int);
    assert(since[0] == told_work(alias, answer));
    assert(since.contains(told_work(alias, answer)));
}

/// A hub in software mode that is reported as released has answered the transfer that gives it
/// control of itself.
pub proof fn law_released_hub_was_told(
    before: Seq<Work>,
    after: Seq<Work>,
    hubs: Hubs,
    next: Hubs,
    alias: Seq<char>,
    config: DeviceConfig,
    outcome: Reply<ReportView>,
)
    requires
        names::sorted(hubs),
        names::find(hubs, alias) matches Some(modes) && modes.software,
        hub_ran(before, after, hubs, next, alias, config, TaskView::Release, outcome),
        outcome is Ok,
    ensures
        told_since(before, after, alias),
{
    let task = TaskView::Release;
    let modes = names::find(hubs, alias)->0;
    let again = second_modes(hubs, alias, task);
    let (middle, between, first, fault) = choose|
        middle: Seq<Work>,
        between: Hubs,
        first: Reply<ReportView>,
        fault: bool,
    |
        {
            &&& #[trigger] hub_tried(
                before,
                middle,
                hubs,
                between,
                alias,
                config,
                task,
                hub::hardware_modes(),
                first,
                fault,
            )
            &&& if fault {
                hub_tried_again(
                    middle.push(retry_pause()),
                    after,
                    between,
                    next,
                    alias,
                    config,
                    task,
                    again,
                    outcome,
                )
            } else {
                after == middle && next == between && outcome == first
            }
        };
    if !fault {
        lemma_tried_release_was_told(before, after, hubs, next, alias, modes, outcome, fault);
    } else {
        let paused = middle.push(retry_pause());
        let failed = choose|failed: bool|
            #[trigger] hub_tried(
                paused,
                after,
                between,
                next,
                alias,
                config,
                task,
                again,
                outcome,
                failed,
            );
        law_failed_hub_is_closed(
            before,
            middle,
            hubs,
            between,
            alias,
            config,
            task,
            hub::hardware_modes(),
            first,
        );
        let (ready, opened, unopened) = choose|
            ready: Seq<Work>,
            opened: Reply<()>,
            unopened: bool,
        |
            {
                &&& #[trigger] hub_opened(paused, ready, alias, config, opened, unopened)
                &&& match opened {
                    Err(error) => {
                        &&& after == ready
                        &&& next == between
                        &&& outcome == Err::<ReportView, ErrorView>(error)
                        &&& failed == unopened
                    },
                    Ok(_) => open_hub_tried(
                        ready,
                        after,
                        between,
                        next,
                        alias,
                        task,
                        again,
                        outcome,
                        failed,
                    ),
                }
            };
        lemma_tried_release_was_told(
            ready,
            after,
            between,
            next,
            alias,
            again,
            outcome,
            failed,
        );
        lemma_work_grows(before, middle, hubs, between, alias, task, modes, first, fault);
        assert(ready.len() >= before.len());
        let answer = choose|answer: Seq<u8>|
            after.skip(ready.len() as int).contains(#[trigger] told_work(alias, answer));
        let late = after.skip(ready.len() as int);
        let i = choose|i: int| 0 <= i < late.len() && late[i] == told_work(alias, answer);
        let since = after.skip(before.len() as int);
        assert(since[i + ready.len() - before.len()] == told_work(alias, answer));
        assert(since.contains(told_work(alias, answer)));
    }
}

proof fn lemma_work_grows(
    before: Seq<Work>,
    after: Seq<Work>,
    hubs: Hubs,
    next: Hubs,
    alias: Seq<char>,
    task: TaskView,
    modes: HubModes,
    outcome: Reply<ReportView>,
    fault: bool,
)
    requires
        open_hub_tried(before, after, hubs, next, alias, task, modes, outcome, fault),
    ensures
        before.len() <= after.len(),
{
}

/// A task that is tried for the second time takes the control of the hub anew, from the hardware
/// mode, but for a release, which ends the control that the first try could not end.
pub proof fn law_second_try_takes_control_anew(
    hubs: Hubs,
    alias: Seq<char>,
    task: TaskView,
)
    ensures
        !second_modes(hubs, alias, task).color_open,
        !(task is Release) ==> !second_modes(hubs, alias, task).software,
        task is Release ==> second_modes(hubs, alias, task).software == (names::find(
            hubs,
            alias,
        ) matches Some(modes) && modes.software),
        retry_pause() == (Work::Pause { milliseconds: 100 }),
{
}

} // verus!
