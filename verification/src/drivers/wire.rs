//! What goes over the wire to a Corsair hub, in bytes, and what is made of its answers.

use vstd::prelude::*;

use crate::drivers::corsair;
use crate::drivers::corsair::LinkDeviceView;
use crate::drivers::corsair::SpeedReading;
use crate::drivers::hub;
use crate::drivers::hub::ColorStep;
use crate::drivers::hub::HubActionView;
use crate::drivers::hub::HubEventView;
use crate::drivers::hub::HubModes;
use crate::drivers::hub::HubStageView;
use crate::drivers::hub::JobView;
use crate::drivers::hub::PurposeView;
use crate::drivers::hub::ReadStep;
use crate::drivers::hub::ReportView;
use crate::drivers::hub::TaskView;
use crate::drivers::hub::WriteStep;
use crate::drivers::Reply;
use crate::error::ErrorView;
use crate::json::JsonView;
use crate::json::Number;
use crate::names;
use crate::search;
use crate::text;

verus! {

// ---------------------------------------------------------------- packets

/// Whether an action waits for some milliseconds and then sends a request: 513 bytes, of which the
/// third is one, the request follows, and all others are zero.
pub open spec fn sends(action: HubActionView, pause: u64, request: Seq<u8>) -> bool {
    action matches HubActionView::Transfer { pause_ms, transfer } && pause_ms == pause && (
    hub::packet_of(hub::request_bytes(transfer)) matches Ok(packet) && {
        &&& packet.len() == 513
        &&& packet[0] == 0 && packet[1] == 0 && packet[2] == 1
        &&& forall|i: int|
            0 <= i < request.len() ==> packet[3 + i] == #[trigger] request[i]
        &&& forall|i: int| 3 + request.len() <= i < 513 ==> #[trigger] packet[i] == 0
    })
}

/// The job after an answer, and what it does next.
pub open spec fn answered(job: JobView, answer: Seq<u8>) -> (JobView, HubActionView) {
    hub::job_next(job, HubEventView::Answer(answer))
}

/// A hub under control of the software is released by the command `01 03 00 01`, and the release
/// succeeds once that is answered. A hub that controls itself is sent nothing.
pub proof fn law_release_sends_the_hardware_mode_command(
    job: JobView,
    answer: Seq<u8>,
    failure: ErrorView,
)
    requires
        job.task is Release,
    ensures
        job.modes.software ==> {
            let (freeing, action) = hub::started(job);
            &&& sends(action, 0, seq![0x01u8, 0x03u8, 0x00u8, 0x01u8])
            &&& answered(freeing, answer).1 == HubActionView::Finish(Ok(ReportView::Released))
            &&& !answered(freeing, answer).0.modes.software
            &&& !answered(freeing, answer).0.modes.color_open
            &&& hub::job_next(freeing, HubEventView::Failed(failure)).1 == HubActionView::Finish(
                Err(failure),
            )
        },
        !job.modes.software ==> hub::started(job).1 == HubActionView::Finish(
            Ok(ReportView::Released),
        ),
{
}

/// A hub that controls itself is taken over by the command `01 03 00 01` and, 50 ms later, the
/// command `01 03 00 02`. Only then is it under control of the software.
pub proof fn law_control_is_taken_by_the_software_mode_command(
    job: JobView,
    first: Seq<u8>,
    second: Seq<u8>,
)
    requires
        !(job.task is Release),
        !job.modes.software,
    ensures
        ({
            let (resetting, reset) = hub::started(job);
            let (entering, enter) = answered(resetting, first);
            let (begun, begin) = answered(entering, second);
            &&& sends(reset, 0, seq![0x01u8, 0x03u8, 0x00u8, 0x01u8])
            &&& !resetting.modes.software
            &&& sends(enter, 50, seq![0x01u8, 0x03u8, 0x00u8, 0x02u8])
            &&& !entering.modes.software
            &&& begun.modes.software
            &&& begin matches HubActionView::Transfer { pause_ms, .. } ==> pause_ms == 50
        }),
{
}

/// A dump of a hub that controlled itself ends with the command `01 03 00 01`, whatever came of
/// the dump, and then with the dump.
pub proof fn law_dump_ends_with_the_hardware_mode_command(
    job: JobView,
    dump: Reply<Seq<char>>,
    answer: Seq<u8>,
)
    requires
        !job.was_software,
    ensures
        ({
            let (restoring, action) = hub::dump_done(job, dump);
            &&& sends(action, 0, seq![0x01u8, 0x03u8, 0x00u8, 0x01u8])
            &&& !answered(restoring, answer).0.modes.software
            &&& answered(restoring, answer).1 matches HubActionView::Finish(outcome) && (match dump {
                Ok(text) => outcome == Ok::<ReportView, ErrorView>(ReportView::Dump(text)),
                Err(error) => outcome == Err::<ReportView, ErrorView>(error),
            })
        }),
{
}

// ---------------------------------------------------------------- reads

/// The endpoint that is read for a purpose.
pub open spec fn endpoint_number(purpose: PurposeView) -> u8 {
    match purpose {
        PurposeView::Temperatures | PurposeView::DumpTemperatures { .. } => 0x21,
        PurposeView::Devices | PurposeView::DumpDevices => 0x36,
        _ => 0x17,
    }
}

/// The type of the data that is read for a purpose.
pub open spec fn data_type_number(purpose: PurposeView) -> u8 {
    match purpose {
        PurposeView::Temperatures | PurposeView::DumpTemperatures { .. } => 0x10,
        PurposeView::Devices | PurposeView::DumpDevices => 0x21,
        _ => 0x25,
    }
}

/// An endpoint is read by closing it, opening it, reading it once, once more where the first
/// answer has the awaited type, and closing it. The answers are joined, the second without its
/// first four bytes.
pub proof fn law_endpoints_are_read_in_order(
    job: JobView,
    purpose: PurposeView,
    step: ReadStep,
    response: Seq<u8>,
    answer: Seq<u8>,
)
    requires
        job.stage == (HubStageView::Reading { purpose, step, response }),
    ensures
        ({
            let (next, action) = answered(job, answer);
            let endpoint = endpoint_number(purpose);
            let close = seq![0x05u8, 0x01u8, 0x01u8, endpoint];
            let read = seq![0x08u8, 0x01u8, endpoint];
            let awaited = answer.len() >= 6 && answer[4] == data_type_number(purpose) && answer[5]
                == 0;
            match step {
                ReadStep::Close => {
                    &&& sends(action, 0, seq![0x0du8, 0x01u8, endpoint])
                    &&& next.stage == (HubStageView::Reading {
                        purpose,
                        step: ReadStep::Open,
                        response,
                    })
                },
                ReadStep::Open => {
                    &&& sends(action, 0, read)
                    &&& next.stage == (HubStageView::Reading {
                        purpose,
                        step: ReadStep::First,
                        response,
                    })
                },
                ReadStep::First => {
                    &&& awaited ==> sends(action, 0, read) && next.stage == (
                    HubStageView::Reading { purpose, step: ReadStep::Second, response: answer })
                    &&& !awaited ==> sends(action, 0, close) && next.stage == (
                    HubStageView::Reading { purpose, step: ReadStep::Shut, response: answer })
                },
                ReadStep::Second => {
                    &&& sends(action, 0, close)
                    &&& next.stage matches HubStageView::Reading {
                        purpose: kept,
                        step: shut,
                        response: whole,
                    } && kept == purpose && shut == ReadStep::Shut && whole == response + (
                    if answer.len() > 4 {
                        answer.skip(4)
                    } else {
                        Seq::empty()
                    })
                },
                ReadStep::Shut => true,
            }
        }),
{
}

/// A temperature is asked of endpoint 0x21, and fans and a dump begin with endpoint 0x36, each of
/// which is closed first.
pub proof fn law_tasks_begin_with_their_endpoint(job: JobView)
    requires
        job.modes.software,
    ensures
        job.task is Temperature ==> sends(
            hub::started(job).1,
            0,
            seq![0x05u8, 0x01u8, 0x01u8, 0x21u8],
        ) && (hub::started(job).0.stage matches HubStageView::Reading { purpose, step, .. }
            && purpose is Temperatures && step == ReadStep::Close),
        job.task is Fans ==> sends(
            hub::started(job).1,
            0,
            seq![0x05u8, 0x01u8, 0x01u8, 0x36u8],
        ) && (hub::started(job).0.stage matches HubStageView::Reading { purpose, step, .. }
            && purpose is Devices && step == ReadStep::Close),
        job.task is Dump ==> sends(
            hub::started(job).1,
            0,
            seq![0x05u8, 0x01u8, 0x01u8, 0x36u8],
        ) && (hub::started(job).0.stage matches HubStageView::Reading { purpose, step, .. }
            && purpose is DumpDevices && step == ReadStep::Close),
{
}

// ---------------------------------------------------------------- fan speeds

/// A packet that sets channels to a duty: the number of channels, and for each of them its number
/// and the duty, at most 100, with a zero after either.
pub open spec fn speed_packet(packet: Seq<u8>, channels: Seq<u8>, percent: u8) -> bool {
    &&& packet.len() == 513
    &&& packet.subrange(0, 5) == seq![0u8, 0u8, 1u8, 0x06u8, 0x01u8]
    &&& packet[5] + 256 * packet[6] == 4 * channels.len() + 3
    &&& packet.subrange(7, 11) == seq![0u8, 0u8, 0x07u8, 0u8]
    &&& packet[11] == channels.len()
    &&& forall|k: int|
        0 <= k < channels.len() ==> {
            &&& packet[12 + 4 * k] == #[trigger] channels[k]
            &&& packet[13 + 4 * k] == 0
            &&& packet[14 + 4 * k] == (if percent <= 100 {
                percent
            } else {
                100
            })
            &&& packet[15 + 4 * k] == 0
        }
    &&& forall|i: int| 12 + 4 * channels.len() <= i < 513 ==> #[trigger] packet[i] == 0
}

/// The transfer that sets channels to a duty.
pub open spec fn speed_transfer(channels: Seq<u8>, percent: u8) -> hub::TransferView {
    hub::TransferView::Write(
        hub::write_data(corsair::DT_SET_SPEED, hub::speed_payload(channels, percent)),
    )
}

/// The packet of the transfer that sets channels to a duty carries them and the duty.
pub proof fn law_speed_packet_carries_channels_and_duty(channels: Seq<u8>, percent: u8)
    requires
        channels.len() <= 255,
    ensures
        hub::packet_of(hub::request_bytes(speed_transfer(channels, percent))) is Ok
            <==> channels.len() <= 125,
        hub::packet_of(hub::request_bytes(speed_transfer(channels, percent))) matches Ok(packet)
            ==> speed_packet(packet, channels, percent),
{
    let payload = hub::speed_payload(channels, percent);
    let data = hub::write_data(corsair::DT_SET_SPEED, payload);
    let request = seq![0x06u8, 0x01u8] + data;
    assert(payload.len() == 4 * channels.len() + 1);
    assert(data.len() == payload.len() + 6);
    if let Ok(packet) = hub::packet_of(request) {
        assert(forall|i: int| 0 <= i < payload.len() ==> #[trigger] payload[i] == packet[11 + i]);
        assert(payload[0] == channels.len());
        assert forall|k: int| 0 <= k < channels.len() implies {
            &&& packet[12 + 4 * k] == #[trigger] channels[k]
            &&& packet[13 + 4 * k] == 0
            &&& packet[14 + 4 * k] == (if percent <= 100 {
                percent
            } else {
                100
            })
            &&& packet[15 + 4 * k] == 0
        } by {
            assert((4 * k) / 4 == k && (4 * k) % 4 == 0);
            assert((4 * k + 1) % 4 == 1 && (4 * k + 2) % 4 == 2 && (4 * k + 3) % 4 == 3);
            assert(packet[12 + 4 * k] == payload[1 + 4 * k]);
            assert(packet[13 + 4 * k] == payload[2 + 4 * k]);
            assert(packet[14 + 4 * k] == payload[3 + 4 * k]);
            assert(packet[15 + 4 * k] == payload[4 + 4 * k]);
        }
        assert(packet.subrange(0, 5) =~= seq![0u8, 0u8, 1u8, 0x06u8, 0x01u8]);
        assert(packet.subrange(7, 11) =~= seq![0u8, 0u8, 0x07u8, 0u8]);
    }
}

/// Once the endpoint for speeds is open, a fan task sends the packet that sets the selected
/// channels to the duty that was asked for.
pub proof fn law_speed_packet_carries_the_request(
    job: JobView,
    channels: Seq<u8>,
    answer: Seq<u8>,
)
    requires
        job.stage matches HubStageView::Setting { selected, step, .. } && selected == channels
            && step == WriteStep::Open,
        job.task is Fans,
        channels.len() <= 125,
    ensures
        answered(job, answer).1 matches HubActionView::Transfer { pause_ms, transfer } && pause_ms
            == 0 && (hub::packet_of(hub::request_bytes(transfer)) matches Ok(packet)
            && speed_packet(packet, channels, job.task->Fans_percent)),
{
    law_speed_packet_carries_channels_and_duty(channels, job.task->Fans_percent);
}

/// A higher duty never puts a lower one in the packet.
pub proof fn law_higher_duty_is_sent_higher(channels: Seq<u8>, low: u8, high: u8, at: int)
    requires
        low <= high,
        0 <= at < hub::speed_payload(channels, low).len(),
    ensures
        hub::speed_payload(channels, low).len() == hub::speed_payload(channels, high).len(),
        hub::speed_payload(channels, low)[at] <= hub::speed_payload(channels, high)[at],
{
}

/// Fans are set through endpoint 0x18, which is closed and opened before the write and closed
/// after it. A write that the hub does not accept with status zero is tried again after 100 ms, ten
/// times, and then fails: it never counts as done.
pub proof fn law_fans_are_set_through_their_endpoint(
    job: JobView,
    topology: corsair::TopologyView,
    channels: Seq<u8>,
    rejected: u8,
    step: WriteStep,
    status: Option<u8>,
    answer: Seq<u8>,
)
    requires
        job.stage == (HubStageView::Setting {
            topology,
            selected: channels,
            rejected,
            step,
            status,
        }),
    ensures
        ({
            let (next, action) = answered(job, answer);
            let close = seq![0x05u8, 0x01u8, 0x01u8, 0x18u8];
            match step {
                WriteStep::Close => {
                    &&& sends(action, 0, seq![0x0du8, 0x01u8, 0x18u8])
                    &&& next.stage == (HubStageView::Setting {
                        topology,
                        selected: channels,
                        rejected,
                        step: WriteStep::Open,
                        status,
                    })
                },
                WriteStep::Open => {
                    &&& next.stage == (HubStageView::Setting {
                        topology,
                        selected: channels,
                        rejected,
                        step: WriteStep::Data,
                        status,
                    })
                },
                WriteStep::Data => {
                    &&& sends(action, 0, close)
                    &&& next.stage == (HubStageView::Setting {
                        topology,
                        selected: channels,
                        rejected,
                        step: WriteStep::Shut,
                        status: if answer.len() > 3 {
                            Some(answer[3])
                        } else {
                            None
                        },
                    })
                },
                WriteStep::Shut => {
                    &&& status == Some(0u8) ==> {
                        &&& sends(action, 0, seq![0x05u8, 0x01u8, 0x01u8, 0x17u8])
                        &&& next.stage matches HubStageView::Reading { purpose, step: first, .. }
                            && purpose == (PurposeView::SpeedsAfter { topology, selected: channels })
                            && first == ReadStep::Close
                    }
                    &&& status != Some(0u8) && rejected < 10 ==> {
                        &&& sends(action, 100, close)
                        &&& next.stage matches HubStageView::Setting {
                            selected,
                            rejected: more,
                            step: again,
                            ..
                        } && selected == channels && more == rejected + 1 && again
                            == WriteStep::Close
                    }
                    &&& status != Some(0u8) && rejected >= 10 ==> action matches HubActionView::Finish(
                        Err(_),
                    )
                },
            }
        }),
{
}

/// A fan task succeeds only after the speeds were read again behind a write that the hub accepted.
pub proof fn law_fans_succeed_only_behind_a_write(job: JobView, answer: Seq<u8>)
    requires
        job.task is Fans,
        answered(job, answer).1 matches HubActionView::Finish(Ok(_)),
        !(job.stage is Freeing),
        !(job.stage is Restoring),
    ensures
        job.stage matches HubStageView::Reading { purpose, step, .. } && purpose is SpeedsAfter
            && step == ReadStep::Shut,
{
}

// ---------------------------------------------------------------- colors

/// A packet that sets lights to a color: the color once for each light, red first.
pub open spec fn color_packet(packet: Seq<u8>, led_count: int, rgb: [u8; 3]) -> bool {
    &&& packet.len() == 513
    &&& packet.subrange(0, 5) == seq![0u8, 0u8, 1u8, 0x06u8, 0x00u8]
    &&& packet[5] + 256 * packet[6] == 3 * led_count + 2
    &&& packet.subrange(7, 11) == seq![0u8, 0u8, 0x12u8, 0u8]
    &&& forall|i: int|
        0 <= i < 3 * led_count ==> #[trigger] packet[11 + i] == (if i % 3 == 0 {
            rgb[0]
        } else if i % 3 == 1 {
            rgb[1]
        } else {
            rgb[2]
        })
    &&& forall|i: int| 11 + 3 * led_count <= i < 513 ==> #[trigger] packet[i] == 0
}

/// The transfer that sets lights to a color.
pub open spec fn color_transfer(led_count: u16, rgb: [u8; 3]) -> hub::TransferView {
    hub::TransferView::WriteColor(
        hub::write_data(corsair::DT_SET_COLOR, hub::color_payload(led_count, rgb)),
    )
}

/// The packet of the transfer that sets lights to a color carries it once for each light.
pub proof fn law_color_packet_carries_the_color(led_count: u16, rgb: [u8; 3])
    ensures
        hub::packet_of(hub::request_bytes(color_transfer(led_count, rgb))) is Ok <==> led_count
            <= 167,
        hub::packet_of(hub::request_bytes(color_transfer(led_count, rgb))) matches Ok(packet)
            ==> color_packet(packet, led_count as int, rgb),
{
    let payload = hub::color_payload(led_count, rgb);
    let data = hub::write_data(corsair::DT_SET_COLOR, payload);
    let request = seq![0x06u8, 0x00u8] + data;
    assert(payload.len() == 3 * led_count);
    assert(data.len() == payload.len() + 6);
    if let Ok(packet) = hub::packet_of(request) {
        assert(forall|i: int| 0 <= i < payload.len() ==> #[trigger] payload[i] == packet[11 + i]);
        assert forall|i: int| 0 <= i < 3 * led_count implies #[trigger] packet[11 + i] == (if i % 3
            == 0 {
            rgb[0]
        } else if i % 3 == 1 {
            rgb[1]
        } else {
            rgb[2]
        }) by {
            assert(payload[i] == rgb[i % 3]);
        }
        assert(packet.subrange(0, 5) =~= seq![0u8, 0u8, 1u8, 0x06u8, 0x00u8]);
        assert(packet.subrange(7, 11) =~= seq![0u8, 0u8, 0x12u8, 0u8]);
    }
}

/// Where the endpoint for colors is open, a color task sends the packet that sets its lights to
/// its color.
pub proof fn law_color_task_sends_its_color(job: JobView, led_count: u16, rgb: [u8; 3])
    requires
        job.task == (TaskView::Rgb { led_count, rgb }),
        job.modes.software,
        job.modes.color_open,
        led_count <= 167,
    ensures
        hub::started(job).1 matches HubActionView::Transfer { pause_ms, transfer } && pause_ms == 0
            && (hub::packet_of(hub::request_bytes(transfer)) matches Ok(packet) && color_packet(
            packet,
            led_count as int,
            rgb,
        )),
{
    law_color_packet_carries_the_color(led_count, rgb);
}

/// The endpoint for colors is closed and opened before its first write, and stays open.
/// A write counts as done only where the hub accepts it with status zero.
pub proof fn law_color_endpoint_is_opened_once(
    job: JobView,
    led_count: u16,
    rgb: [u8; 3],
    answer: Seq<u8>,
)
    requires
        job.task == (TaskView::Rgb { led_count, rgb }),
        led_count <= 167,
    ensures
        job.modes.software && !job.modes.color_open ==> sends(
            hub::started(job).1,
            0,
            seq![0x05u8, 0x01u8, 0x22u8],
        ) && hub::started(job).0.stage == (HubStageView::Coloring { step: ColorStep::Close }),
        job.stage == (HubStageView::Coloring { step: ColorStep::Close }) ==> sends(
            answered(job, answer).1,
            0,
            seq![0x0du8, 0x00u8, 0x22u8],
        ) && answered(job, answer).0.stage == (HubStageView::Coloring { step: ColorStep::Open }),
        job.stage == (HubStageView::Coloring { step: ColorStep::Open }) ==> {
            let open = JobView {
                modes: HubModes { software: true, color_open: true },
                ..job
            };
            &&& answered(job, answer).0.modes.color_open
            &&& answered(job, answer).1 == hub::started(open).1
        },
        job.stage == (HubStageView::Coloring { step: ColorStep::Data }) ==> (answered(
            job,
            answer,
        ).1 matches HubActionView::Finish(outcome) && (outcome is Ok <==> answer.len() > 3
            && answer[3] == 0)),
{
}

// ---------------------------------------------------------------- answers

/// Whether a number is what two bytes say, the lower first, as a signed number of 16 bits.
pub open spec fn says(low: u8, high: u8, value: i16) -> bool {
    (value - (low + 256 * high)) % 65536 == 0
}

/// Speeds are taken from an answer of type 0x25 with status zero that is long enough: three bytes
/// for each channel, a status and a speed, which counts only where the status is zero.
pub proof fn law_speeds_are_read_from_the_answer(response: Seq<u8>)
    ensures
        corsair::speeds_in(response) is Ok <==> {
            &&& response.len() >= 8
            &&& response[3] == 0 && response[4] == 0x25 && response[5] == 0
            &&& response.len() >= 7 + 3 * response[6]
        },
        corsair::speeds_in(response) matches Ok(speeds) ==> speeds.len() == response[6],
        corsair::speeds_in(response) matches Ok(speeds) ==> forall|k: int|
            0 <= k < speeds.len() ==> {
                let speed = #[trigger] speeds[k];
                &&& speed.channel == k
                &&& speed.status == response[7 + 3 * k]
                &&& speed.rpm is Some <==> response[7 + 3 * k] == 0
                &&& speed.rpm matches Some(rpm) ==> says(
                    response[8 + 3 * k],
                    response[9 + 3 * k],
                    rpm,
                )
            },
{
    if response.len() >= 8 {
        lemma_type(response, 0x25);
    }
    if let Ok(speeds) = corsair::speeds_in(response) {
        let data = response.skip(7);
        assert forall|k: int| 0 <= k < speeds.len() implies {
            let speed = #[trigger] speeds[k];
            &&& speed.channel == k
            &&& speed.status == response[7 + 3 * k]
            &&& speed.rpm is Some <==> response[7 + 3 * k] == 0
            &&& speed.rpm matches Some(rpm) ==> says(response[8 + 3 * k], response[9 + 3 * k], rpm)
        } by {
            assert(speeds[k] == corsair::speed_at(data, k));
            assert(data[3 * k] == response[7 + 3 * k]);
            assert(data[3 * k + 1] == response[8 + 3 * k]);
            assert(data[3 * k + 2] == response[9 + 3 * k]);
        }
    }
}

proof fn lemma_type(response: Seq<u8>, data_type: u8)
    requires
        response.len() >= 8,
    ensures
        response.subrange(4, 6) == seq![data_type, 0u8] <==> response[4] == data_type
            && response[5] == 0,
{
    if response[4] == data_type && response[5] == 0 {
        assert(response.subrange(4, 6) =~= seq![data_type, 0u8]);
    } else {
        assert(response.subrange(4, 6)[0] == response[4]);
        assert(response.subrange(4, 6)[1] == response[5]);
    }
}

proof fn lemma_tenths(data: Seq<u8>, count: int, channel: u8, tenths: i16)
    requires
        0 <= count <= 255,
    ensures
        corsair::tenths_upto(data, count).contains((channel, tenths)) <==> channel < count && 3
            * channel + 2 < data.len() && data[3 * channel] == 0 && says(
            data[3 * channel + 1],
            data[3 * channel + 2],
            tenths,
        ) && 10 <= tenths < 900,
    decreases count,
{
    if count > 0 {
        lemma_tenths(data, count - 1, channel, tenths);
        let earlier = corsair::tenths_upto(data, count - 1);
        let list = corsair::tenths_upto(data, count);
        if list != earlier {
            let last = list.last();
            assert(list =~= earlier.push(last));
            assert(list.contains((channel, tenths)) <==> earlier.contains((channel, tenths))
                || last == (channel, tenths)) by {
                if earlier.contains((channel, tenths)) {
                    let at = choose|i: int| 0 <= i < earlier.len() && earlier[i] == (channel, tenths);
                    assert(list[at] == (channel, tenths));
                }
                if last == (channel, tenths) {
                    assert(list[list.len() - 1] == (channel, tenths));
                }
            }
        }
    }
}

/// Temperatures are taken from an answer of type 0x10 with status zero: three bytes for each
/// channel, a status and the tenths of a degree. A channel counts where its bytes are there, its
/// status is zero, and it reads from 1 up to 90 degrees.
pub proof fn law_temperatures_are_read_from_the_answer(
    response: Seq<u8>,
    channel: u8,
    tenths: i16,
)
    ensures
        corsair::temperatures_in(response) is Ok <==> response.len() >= 8 && response[3] == 0
            && response[4] == 0x10 && response[5] == 0,
        corsair::temperatures_in(response) matches Ok(list) ==> (list.contains((channel, tenths))
            <==> {
            &&& channel < response[6]
            &&& 9 + 3 * channel < response.len()
            &&& response[7 + 3 * channel] == 0
            &&& says(response[8 + 3 * channel], response[9 + 3 * channel], tenths)
            &&& 10 <= tenths < 900
        }),
{
    if response.len() >= 8 {
        lemma_type(response, 0x10);
        let data = response.skip(7);
        lemma_tenths(data, response[6] as int, channel, tenths);
        if 9 + 3 * channel < response.len() {
            assert(data[3 * channel] == response[7 + 3 * channel]);
            assert(data[3 * channel + 1] == response[8 + 3 * channel]);
            assert(data[3 * channel + 2] == response[9 + 3 * channel]);
        }
    }
}

/// A temperature that was asked for is the one that the answer has for the channel; where it has
/// none, the task fails.
pub proof fn law_temperature_is_that_of_the_channel(
    job: JobView,
    channel: u8,
    response: Seq<u8>,
    answer: Seq<u8>,
)
    requires
        job.task == (TaskView::Temperature { channel }),
        job.stage == (HubStageView::Reading {
            purpose: PurposeView::Temperatures,
            step: ReadStep::Shut,
            response,
        }),
    ensures
        match answered(job, answer).1 {
            HubActionView::Finish(Ok(report)) => report matches ReportView::Tenths(tenths) && (
            corsair::temperatures_in(response) matches Ok(list) && list.contains((channel, tenths))),
            HubActionView::Finish(Err(_)) => corsair::temperatures_in(response) matches Ok(list)
                ==> forall|tenths: i16| !list.contains((channel, tenths)),
            _ => false,
        },
{
    if let Ok(list) = corsair::temperatures_in(response) {
        let check = hub::tenths_at(list, channel);
        if search::first(check, 0, list.len() as int) is Some {
            let at = search::lemma_some(check, 0, list.len() as int);
            assert(list[at] == (channel, list[at].1));
        } else {
            search::lemma_none(check, 0, list.len() as int);
            assert forall|tenths: i16| !list.contains((channel, tenths)) by {
                if list.contains((channel, tenths)) {
                    let at = choose|i: int| 0 <= i < list.len() && list[i] == (channel, tenths);
                    assert(check(at) is None);
                }
            }
        }
    }
}

/// What a hub says of one channel: eight bytes, of which the third is the model, the fourth the
/// variant, and the last the length of the identifier that follows.
pub ghost struct LinkRecord {
    /// The eight bytes.
    pub head: Seq<u8>,
    /// The identifier.
    pub id: Seq<u8>,
}

/// Whether records have eight bytes and the length of their identifier in the last.
pub open spec fn well_formed(slots: Seq<LinkRecord>) -> bool {
    forall|i: int|
        0 <= i < slots.len() ==> (#[trigger] slots[i]).head.len() == 8 && slots[i].head[7]
            == slots[i].id.len()
}

/// Records as a hub sends them.
pub open spec fn sent(slots: Seq<LinkRecord>) -> Seq<u8>
    decreases slots.len(),
{
    if slots.len() == 0 {
        Seq::empty()
    } else {
        slots[0].head + slots[0].id + sent(slots.drop_first())
    }
}

/// The devices that records stand for, the first of which is that of a channel.
pub open spec fn devices_at(slots: Seq<LinkRecord>, channel: int) -> Seq<LinkDeviceView>
    decreases slots.len(),
{
    if slots.len() == 0 {
        Seq::empty()
    } else if slots[0].id.len() == 0 {
        devices_at(slots.drop_first(), channel + 1)
    } else {
        seq![
            LinkDeviceView {
                channel: channel as u8,
                model: slots[0].head[2],
                variant: slots[0].head[3],
                id: corsair::shown_text(slots[0].id.take(corsair::zero_from(slots[0].id, 0))),
            },
        ] + devices_at(slots.drop_first(), channel + 1)
    }
}

proof fn lemma_records(
    before: Seq<u8>,
    slots: Seq<LinkRecord>,
    rest: Seq<u8>,
    channel: int,
    last: int,
    found: Seq<LinkDeviceView>,
)
    requires
        well_formed(slots),
        1 <= channel,
        last + 1 - channel == slots.len(),
        last <= 255,
    ensures
        corsair::records(
            before + sent(slots) + rest,
            before.len() as int,
            channel,
            last,
            found,
        ) matches Ok((devices, consumed)) && devices == found + devices_at(slots, channel)
            && consumed == before.len() + sent(slots).len(),
    decreases slots.len(),
{
    let data = before + sent(slots) + rest;
    if slots.len() == 0 {
        assert(found + devices_at(slots, channel) =~= found);
    } else {
        let slot = slots[0];
        let others = slots.drop_first();
        let passed = before + slot.head + slot.id;
        let cursor = before.len() as int;
        assert(slot.head.len() == 8 && slot.head[7] == slot.id.len());
        assert(passed + sent(others) + rest =~= data);
        assert forall|i: int| 0 <= i < 8 implies data[cursor + i] == #[trigger] slot.head[i] by {}
        assert(data[cursor + 7] == slot.head[7]);
        assert(data[cursor + 2] == slot.head[2]);
        assert(data[cursor + 3] == slot.head[3]);
        assert(well_formed(others)) by {
            assert forall|i: int| 0 <= i < others.len() implies (#[trigger] others[i]).head.len()
                == 8 && others[i].head[7] == others[i].id.len() by {
                assert(others[i] == slots[i + 1]);
            }
        }
        if slot.id.len() == 0 {
            lemma_records(passed, others, rest, channel + 1, last, found);
        } else {
            assert(data.subrange(cursor + 8, cursor + 8 + slot.id.len()) =~= slot.id);
            let device = LinkDeviceView {
                channel: channel as u8,
                model: slot.head[2],
                variant: slot.head[3],
                id: corsair::shown_text(slot.id.take(corsair::zero_from(slot.id, 0))),
            };
            lemma_records(passed, others, rest, channel + 1, last, found.push(device));
            assert(found.push(device) + devices_at(others, channel + 1) =~= found + devices_at(
                slots,
                channel,
            ));
        }
    }
}

/// The devices of a hub are read back from what it sends: one for each channel with an identifier,
/// under the number of the channel, with the model and the variant of its record.
pub proof fn law_devices_are_read_back(header: Seq<u8>, slots: Seq<LinkRecord>, rest: Seq<u8>)
    requires
        header.len() == 7,
        header[3] == 0 && header[4] == 0x21 && header[5] == 0,
        header[6] == slots.len(),
        slots.len() > 0,
        well_formed(slots),
    ensures
        corsair::devices_in(header + sent(slots) + rest) matches Ok(topology) && topology.last_channel
            == slots.len() && topology.devices == devices_at(slots, 1),
{
    let response = header + sent(slots) + rest;
    assert(slots[0].head.len() == 8);
    assert(sent(slots).len() >= 8);
    lemma_type(response, 0x21);
    assert(response.skip(7) =~= Seq::<u8>::empty() + sent(slots) + rest);
    lemma_records(Seq::empty(), slots, rest, 1, slots.len() as int, Seq::empty());
    assert(Seq::<LinkDeviceView>::empty() + devices_at(slots, 1) =~= devices_at(slots, 1));
}

// ---------------------------------------------------------------- selection and report

/// The models whose speed can be set, and which of them are fans.
pub proof fn law_models_are_known(model: u8)
    ensures
        corsair::is_fan(model) <==> {
            ||| 0x01 <= model <= 0x04
            ||| model == 0x0f || model == 0x10 || model == 0x13
        },
        corsair::controls_speed(model) <==> {
            ||| corsair::is_fan(model)
            ||| model == 0x07 || model == 0x0a || model == 0x0b || model == 0x0c
            ||| model == 0x11 || model == 0x19 || model == 0x1b
        },
{
}

/// Without listed channels a fan task takes, in order and once each, the channels of devices whose
/// speed can be set and those that report a speed.
pub proof fn law_all_fans_are_selected(
    devices: Seq<LinkDeviceView>,
    speeds: Seq<SpeedReading>,
    channel: u8,
)
    ensures
        corsair::selection(Seq::empty(), devices, speeds) matches Ok(selected) && (
        selected.contains(channel) <==> {
            ||| exists|i: int|
                0 <= i < devices.len() && corsair::controls_speed((#[trigger] devices[i]).model)
                    && devices[i].channel == channel
            ||| exists|i: int|
                0 <= i < speeds.len() && (#[trigger] speeds[i]).rpm is Some && speeds[i].channel
                    == channel
        }) && (forall|i: int, j: int|
            0 <= i < j < selected.len() ==> #[trigger] selected[i] < #[trigger] selected[j]),
{
    let wanted = corsair::automatic(devices, speeds);
    corsair::law_picked(wanted, 256);
    assert(corsair::picked(wanted, 256).contains(channel) <==> wanted(channel));
}

/// Listed channels are taken, and no others, in order and once each, unless one is no channel.
pub proof fn law_listed_fans_are_selected(
    channels: Seq<u32>,
    devices: Seq<LinkDeviceView>,
    speeds: Seq<SpeedReading>,
)
    requires
        channels.len() > 0,
    ensures
        corsair::selection(channels, devices, speeds) is Ok <==> forall|i: int|
            0 <= i < channels.len() ==> #[trigger] channels[i] <= 255,
        corsair::selection(channels, devices, speeds) matches Ok(selected) ==> {
            &&& forall|channel: u8|
                selected.contains(channel) <==> channels.contains(#[trigger] (channel as u32))
            &&& forall|i: int, j: int|
                0 <= i < j < selected.len() ==> #[trigger] selected[i] < #[trigger] selected[j]
        },
{
    let check = corsair::large_channel(channels);
    if search::first(check, 0, channels.len() as int) is Some {
        let at = search::lemma_some(check, 0, channels.len() as int);
        assert(channels[at] > 255);
    } else {
        search::lemma_none(check, 0, channels.len() as int);
        assert forall|i: int| 0 <= i < channels.len() implies #[trigger] channels[i] <= 255 by {
            assert(check(i) is None);
        }
        let wanted = corsair::listed(channels);
        corsair::law_picked(wanted, 256);
        let selected = corsair::picked(wanted, 256);
        assert forall|channel: u8|
            selected.contains(channel) <==> channels.contains(#[trigger] (channel as u32)) by {
            assert(selected.contains(channel) <==> wanted(channel));
        }
    }
}

/// The fans that are written are those of the selection, from the devices and the speeds that the
/// hub reported.
pub proof fn law_selected_fans_are_written(
    job: JobView,
    topology: corsair::TopologyView,
    response: Seq<u8>,
    answer: Seq<u8>,
)
    requires
        job.task is Fans,
        job.stage == (HubStageView::Reading {
            purpose: PurposeView::SpeedsBefore { topology },
            step: ReadStep::Shut,
            response,
        }),
    ensures
        match answered(job, answer).0.stage {
            HubStageView::Setting { topology: kept, selected, rejected, step, .. } => {
                &&& sends(answered(job, answer).1, 0, seq![0x05u8, 0x01u8, 0x01u8, 0x18u8])
                &&& kept == topology
                &&& rejected == 0 && step == WriteStep::Close
                &&& selected.len() > 0
                &&& corsair::speeds_in(response) matches Ok(speeds) && corsair::selection(
                    job.task->Fans_channels,
                    topology.devices,
                    speeds,
                ) == Ok::<Seq<u8>, ErrorView>(selected)
            },
            _ => answered(job, answer).1 matches HubActionView::Finish(Err(_)),
        },
{
}

/// A channel that works: the hub reports it with status zero and a speed above zero.
pub open spec fn turning(speeds: Seq<SpeedReading>, channel: u8) -> bool {
    corsair::reading_of(speeds, channel) matches Some(reading) && reading.status == 0 && (
    reading.rpm matches Some(rpm) && rpm > 0)
}

proof fn lemma_reading(speeds: Seq<SpeedReading>, channel: u8, count: int)
    requires
        0 <= count <= speeds.len(),
    ensures
        match corsair::reading_upto(speeds, channel, count) {
            Some(reading) => reading.channel == channel && exists|i: int|
                0 <= i < count && #[trigger] speeds[i] == reading,
            None => forall|i: int| 0 <= i < count ==> (#[trigger] speeds[i]).channel != channel,
        },
    decreases count,
{
    if count > 0 {
        lemma_reading(speeds, channel, count - 1);
        if speeds[count - 1].channel == channel {
            assert(speeds[count - 1] == corsair::reading_upto(speeds, channel, count)->0);
        }
    }
}

/// The reading of a channel is one that the hub reported for it; there is none only where the hub
/// reported none.
pub proof fn law_readings_are_those_of_the_channel(speeds: Seq<SpeedReading>, channel: u8)
    ensures
        match corsair::reading_of(speeds, channel) {
            Some(reading) => reading.channel == channel && speeds.contains(reading),
            None => forall|i: int| 0 <= i < speeds.len() ==> (#[trigger] speeds[i]).channel != channel,
        },
{
    lemma_reading(speeds, channel, speeds.len() as int);
}

proof fn lemma_tally(selected: Seq<u8>, speeds: Seq<SpeedReading>, count: int, channel: u8)
    requires
        0 <= count <= selected.len(),
    ensures
        ({
            let tally = corsair::tallied(selected, speeds, count);
            &&& tally.missing.len() == 0 && tally.stalled.len() == 0 && tally.unavailable.len() == 0
                <==> forall|i: int| 0 <= i < count ==> turning(speeds, #[trigger] selected[i])
            &&& tally.missing.contains(channel) <==> selected.take(count).contains(channel)
                && corsair::reading_of(speeds, channel) is None
            &&& tally.stalled.contains(channel) <==> selected.take(count).contains(channel) && (
            corsair::reading_of(speeds, channel) matches Some(reading) && reading.status == 0 && (
            reading.rpm matches Some(rpm) && rpm <= 0))
        }),
    decreases count,
{
    if count > 0 {
        lemma_tally(selected, speeds, count - 1, channel);
        let earlier = corsair::tallied(selected, speeds, count - 1);
        let tally = corsair::tallied(selected, speeds, count);
        let last = selected[count - 1];
        assert(selected.take(count) =~= selected.take(count - 1).push(last));
        lemma_pushed(selected.take(count - 1), last, channel);
        lemma_pushed(earlier.missing, last, channel);
        lemma_pushed(earlier.stalled, last, channel);
        names::lemma_slot(earlier.unavailable, corsair::shown(last));
    }
}

proof fn lemma_pushed(list: Seq<u8>, last: u8, channel: u8)
    ensures
        list.push(last).contains(channel) <==> list.contains(channel) || last == channel,
{
    let longer = list.push(last);
    assert(longer[list.len() as int] == last);
    if list.contains(channel) {
        let at = choose|i: int| 0 <= i < list.len() && list[i] == channel;
        assert(longer[at] == channel);
    }
}

proof fn lemma_reported_speed(
    selected: Seq<u8>,
    speeds: Seq<SpeedReading>,
    count: int,
    channel: u8,
)
    requires
        0 <= count <= selected.len(),
    ensures
        names::sorted(corsair::tallied(selected, speeds, count).rpm),
        names::find(
            corsair::tallied(selected, speeds, count).rpm,
            text::decimal(channel as nat),
        ) == (if selected.take(count).contains(channel) {
            match corsair::reading_of(speeds, channel) {
                Some(reading) => if reading.status == 0 {
                    reading.rpm
                } else {
                    None
                },
                None => None,
            }
        } else {
            None
        }),
    decreases count,
{
    if count > 0 {
        lemma_reported_speed(selected, speeds, count - 1, channel);
        let earlier = corsair::tallied(selected, speeds, count - 1);
        let last = selected[count - 1];
        assert(selected.take(count) =~= selected.take(count - 1).push(last));
        lemma_pushed(selected.take(count - 1), last, channel);
        if let Some(reading) = corsair::reading_of(speeds, last) {
            if reading.status == 0 && reading.rpm is Some {
                let shown = corsair::shown(last);
                names::lemma_inserted_sorted(earlier.rpm, shown, reading.rpm->0);
                names::lemma_find_inserted(
                    earlier.rpm,
                    shown,
                    reading.rpm->0,
                    text::decimal(channel as nat),
                );
                if shown == text::decimal(channel as nat) {
                    text::law_decimals_differ(last as nat, channel as nat);
                }
            }
        }
    } else {
        assert(selected.take(0) =~= Seq::empty());
    }
}

/// The report of a fan write shows the duty, and the written channels one by one.
pub proof fn law_report_shows_the_write(
    alias: Seq<char>,
    percent: u8,
    expected: Option<u8>,
    devices: Seq<LinkDeviceView>,
    selected: Seq<u8>,
    speeds: Seq<SpeedReading>,
    k: int,
)
    requires
        0 <= k < selected.len(),
    ensures
        corsair::fan_report(alias, percent, expected, devices, selected, speeds).observed matches JsonView::Object(
            fields,
        ) && {
            &&& fields.len() >= 7
            &&& fields[0].0 == "percent"@ && fields[0].1 == JsonView::Number(
                Number::Positive(percent as u64),
            )
            &&& fields[1].0 == "channels"@ && (fields[1].1 matches JsonView::List(list)
                && list.len() == selected.len() && list[k] == JsonView::Number(
                Number::Positive(selected[k] as u64),
            ))
            &&& fields[3].0 == "rpm"@ && (fields[3].1 matches JsonView::Object(rpm) && (turning(
                speeds,
                selected[k],
            ) ==> exists|i: int|
                0 <= i < rpm.len() && (#[trigger] rpm[i]).0 == text::decimal(selected[k] as nat)
                    && rpm[i].1 == JsonView::Number(
                    Number::Positive(corsair::reading_of(speeds, selected[k])->0.rpm->0 as u64),
                )))
            &&& fields[5].0 == "missing"@ && (fields[5].1 matches JsonView::List(list) && (
            corsair::reading_of(speeds, selected[k]) is None ==> exists|i: int|
                0 <= i < list.len() && #[trigger] list[i] == JsonView::Number(
                    Number::Positive(selected[k] as u64),
                )))
        },
{
    let count = selected.len() as int;
    let channel = selected[k];
    let tally = corsair::tallied(selected, speeds, count);
    let fields = corsair::fan_report(
        alias,
        percent,
        expected,
        devices,
        selected,
        speeds,
    ).observed->Object_0;
    lemma_reported_speed(selected, speeds, count, channel);
    lemma_tally(selected, speeds, count, channel);
    assert(selected.take(count) =~= selected);
    assert(selected.contains(channel));
    if turning(speeds, channel) {
        let name = text::decimal(channel as nat);
        names::lemma_slot(tally.rpm, name);
        let at = names::slot(tally.rpm, name) as int;
        let rpm = fields[3].1->Object_0;
        assert(rpm[at].0 == name);
        assert(rpm[at].1 == JsonView::Number(
            Number::Positive(corsair::reading_of(speeds, channel)->0.rpm->0 as u64),
        ));
    }
    if corsair::reading_of(speeds, channel) is None {
        let at = choose|i: int| 0 <= i < tally.missing.len() && tally.missing[i] == channel;
        let list = fields[5].1->List_0;
        assert(list[at] == JsonView::Number(Number::Positive(channel as u64)));
    }
}

/// The fans among devices, by their models.
pub open spec fn fans_among(devices: Seq<LinkDeviceView>) -> Seq<LinkDeviceView> {
    devices.filter(
        |device: LinkDeviceView|
            1 <= device.model <= 4 || device.model == 0x0f || device.model == 0x10 || device.model
                == 0x13,
    )
}

proof fn lemma_fans(devices: Seq<LinkDeviceView>, count: int)
    requires
        0 <= count <= devices.len(),
    ensures
        corsair::fans_upto(devices, count).len() == fans_among(devices.take(count)).len(),
    decreases count,
{
    reveal(Seq::filter);
    if count > 0 {
        lemma_fans(devices, count - 1);
        law_models_are_known(devices[count - 1].model);
        assert(devices.take(count).drop_last() =~= devices.take(count - 1));
        assert(devices.take(count).last() == devices[count - 1]);
    }
}

/// A fan write is reported without a warning exactly where the hub has as many fans as it should
/// have, if that is known, and every written channel turns.
pub proof fn law_only_healthy_writes_have_no_warning(
    alias: Seq<char>,
    percent: u8,
    expected: Option<u8>,
    devices: Seq<LinkDeviceView>,
    selected: Seq<u8>,
    speeds: Seq<SpeedReading>,
)
    ensures
        corsair::fan_report(alias, percent, expected, devices, selected, speeds).warning is None
            <==> {
            &&& expected matches Some(fans) ==> fans == fans_among(devices).len()
            &&& forall|i: int| 0 <= i < selected.len() ==> turning(speeds, #[trigger] selected[i])
        },
{
    lemma_tally(selected, speeds, selected.len() as int, 0);
    lemma_fans(devices, devices.len() as int);
    assert(devices.take(devices.len() as int) =~= devices);
}

/// The payload that sets fans reads back as the request, for as many channels as a hub has.
pub proof fn law_speed_payload_reads_back(channels: Seq<u8>, percent: u8, k: int)
    requires
        0 <= k < channels.len() <= 255,
    ensures
        ({
            let payload = hub::speed_payload(channels, percent);
            &&& payload.len() == 1 + 4 * channels.len()
            &&& payload[0] == channels.len()
            &&& payload.subrange(1 + 4 * k, 5 + 4 * k) == seq![
                channels[k],
                0u8,
                if percent <= 100 {
                    percent
                } else {
                    100u8
                },
                0u8,
            ]
        }),
{
    let payload = hub::speed_payload(channels, percent);
    assert((4 * k) / 4 == k && (4 * k) % 4 == 0);
    assert((4 * k + 1) % 4 == 1 && (4 * k + 2) % 4 == 2 && (4 * k + 3) % 4 == 3);
    assert(payload.subrange(1 + 4 * k, 5 + 4 * k) =~= seq![
        channels[k],
        0u8,
        if percent <= 100 {
            percent
        } else {
            100u8
        },
        0u8,
    ]);
}

/// A job whose transfer failed ends with an error, but for a dump that took the control of the hub:
/// that gives the control back first, and keeps the error.
pub proof fn law_failed_transfer_fails_the_job(job: JobView, failure: ErrorView)
    ensures
        ({
            let (next, action) = hub::job_next(job, HubEventView::Failed(failure));
            match action {
                HubActionView::Finish(result) => result is Err,
                HubActionView::Transfer { transfer, .. } => transfer is HardwareMode && (
                job.task is Dump || job.stage is Reading) && (
                next.stage matches HubStageView::Restoring { dump } && dump == Err::<
                    Seq<char>,
                    ErrorView,
                >(failure)),
            }
        }),
{
}

} // verus!
