//! The diagnostic dump of a Corsair iCUE LINK System Hub.

use vstd::prelude::*;

use crate::drivers::corsair;
use crate::drivers::corsair::device_profile;
use crate::drivers::corsair::hex;
use crate::drivers::corsair::parse_devices;
use crate::drivers::corsair::parse_speeds;
use crate::drivers::corsair::LinkDevice;
use crate::drivers::corsair::LinkDeviceView;
use crate::drivers::corsair::LinkTopology;
use crate::drivers::corsair::SpeedReading;
use crate::drivers::corsair::TopologyView;
use crate::drivers::corsair::DT_DEVICES;
use crate::drivers::corsair::DT_SPEEDS;
use crate::drivers::corsair::DT_TEMPERATURES;
use crate::drivers::corsair::EP_DEVICES;
use crate::drivers::corsair::EP_SPEEDS;
use crate::drivers::corsair::EP_TEMPERATURES;
use crate::drivers::Reply;
use crate::error::Result;
use crate::text;
use crate::views;

verus! {

/// How many of the first `count` devices can have their speed set.
pub open spec fn controllable(devices: Seq<LinkDeviceView>, count: int) -> nat
    decreases count,
{
    if count <= 0 {
        0
    } else {
        controllable(devices, count - 1) + (if corsair::controls_speed(devices[count - 1].model) {
            1nat
        } else {
            0nat
        })
    }
}

/// The line on the whole chain.
pub open spec fn topology_line(topology: TopologyView) -> Seq<char> {
    "iCUE LINK topology: last_channel="@ + corsair::shown(topology.last_channel) + " connected="@
        + text::decimal(topology.devices.len()) + " fans="@ + text::decimal(
        corsair::fan_channels_of(topology.devices).len(),
    ) + " speed_controllable="@ + text::decimal(
        controllable(topology.devices, topology.devices.len() as int),
    ) + "\n"@
}

/// The line on the expected number of fans.
pub open spec fn expected_line(expected: u8, fans: nat) -> Seq<char> {
    "fan count: expected="@ + corsair::shown(expected) + " enumerated="@ + text::decimal(fans)
        + " health="@ + (if expected == fans {
        "healthy"@
    } else {
        "degraded"@
    }) + "\n"@
}

/// The speed of a channel in words.
pub open spec fn speed_words(reading: Option<SpeedReading>) -> Seq<char> {
    match reading {
        None => "not-reported"@,
        Some(known) => match known.rpm {
            Some(rpm) => "available("@ + text::signed_decimal(rpm as int) + " rpm)"@,
            None => "unavailable(status=0x"@ + text::hex_padded(known.status as nat, 2) + ")"@,
        },
    }
}

/// Whether something holds, in words.
pub open spec fn flag_words(flag: bool) -> Seq<char> {
    if flag {
        "true"@
    } else {
        "false"@
    }
}

/// The line on a device.
pub open spec fn device_line(device: LinkDeviceView, speeds: Seq<SpeedReading>) -> Seq<char> {
    "  channel="@ + corsair::shown(device.channel) + " model=0x"@ + text::hex_padded(
        device.model as nat,
        2,
    ) + " variant=0x"@ + text::hex_padded(device.variant as nat, 2) + " name=\""@ + (
    match corsair::profile_of(device.model) {
        Some(profile) => profile.name,
        None => "unknown"@,
    }) + "\" id="@ + device.id + " fan="@ + flag_words(corsair::is_fan(device.model))
        + " speed_control="@ + flag_words(corsair::controls_speed(device.model)) + " speed="@
        + speed_words(corsair::reading_of(speeds, device.channel)) + "\n"@
}

/// The lines on the first `count` devices.
pub open spec fn device_lines(
    devices: Seq<LinkDeviceView>,
    speeds: Seq<SpeedReading>,
    count: int,
) -> Seq<char>
    decreases count,
{
    if count <= 0 {
        Seq::empty()
    } else {
        device_lines(devices, speeds, count - 1) + device_line(devices[count - 1], speeds)
    }
}

/// Whether a channel of the hub has no device.
pub open spec fn is_empty_channel(topology: TopologyView) -> spec_fn(u8) -> bool {
    |channel: u8|
        {
            &&& 1 <= channel <= topology.last_channel
            &&& forall|i: int|
                0 <= i < topology.devices.len() ==> (#[trigger] topology.devices[i]).channel
                    != channel
        }
}

/// The line on channels without a device.
pub open spec fn empty_line(topology: TopologyView) -> Seq<char> {
    "empty channels: ["@ + corsair::comma_separated(
        corsair::picked(is_empty_channel(topology), 256),
    ) + "]\n\n"@
}

/// Bytes in hexadecimal, each followed by a space.
pub open spec fn spaced_hex(bytes: Seq<u8>) -> Seq<char>
    decreases bytes.len(),
{
    if bytes.len() == 0 {
        Seq::empty()
    } else {
        spaced_hex(bytes.drop_last()) + text::hex_padded(bytes.last() as nat, 2) + " "@
    }
}

/// The end of a row of bytes.
pub open spec fn row_end(length: int, row: int) -> int {
    if 16 * row + 16 < length {
        16 * row + 16
    } else {
        length
    }
}

/// One row of bytes.
pub open spec fn row_line(bytes: Seq<u8>, length: int, row: int) -> Seq<char> {
    "  "@ + text::hex_padded((16 * row) as nat, 4) + ": "@ + spaced_hex(
        bytes.subrange(16 * row, row_end(length, row)),
    ) + "\n"@
}

/// The first `count` rows of bytes.
pub open spec fn row_lines(bytes: Seq<u8>, length: int, count: int) -> Seq<char>
    decreases count,
{
    if count <= 0 {
        Seq::empty()
    } else {
        row_lines(bytes, length, count - 1) + row_line(bytes, length, count - 1)
    }
}

/// The section on an endpoint: a header and its response, as far as it means anything.
pub open spec fn endpoint_section(
    name: Seq<char>,
    endpoint: u8,
    data_type: u8,
    count_name: Seq<char>,
    count: u8,
    response: Seq<u8>,
    meaningful: int,
) -> Seq<char> {
    let length = if meaningful < response.len() {
        meaningful
    } else {
        response.len() as int
    };
    name + " endpoint=0x"@ + text::hex_padded(endpoint as nat, 2) + " data_type="@
        + corsair::hex_of(seq![data_type, 0u8]) + " "@ + count_name + "="@ + corsair::shown(count)
        + "\n"@ + row_lines(response, length, (length + 15) / 16) + "\n"@
}

/// The count in a response.
pub open spec fn count_in(response: Seq<u8>) -> u8 {
    if response.len() > 6 {
        response[6]
    } else {
        0
    }
}

/// The whole dump.
pub open spec fn dump_text(
    expected: Option<u8>,
    topology: TopologyView,
    speeds: Seq<SpeedReading>,
    devices_response: Seq<u8>,
    speeds_response: Seq<u8>,
    temperatures_response: Seq<u8>,
) -> Seq<char> {
    let fans = corsair::fan_channels_of(topology.devices).len();
    topology_line(topology) + (match expected {
        Some(count) => expected_line(count, fans),
        None => Seq::empty(),
    }) + device_lines(topology.devices, speeds, topology.devices.len() as int) + empty_line(
        topology,
    ) + endpoint_section(
        "DEVICES"@,
        EP_DEVICES,
        DT_DEVICES,
        "last_channel"@,
        topology.last_channel,
        devices_response,
        7 + topology.consumed,
    ) + endpoint_section(
        "SPEEDS"@,
        EP_SPEEDS,
        DT_SPEEDS,
        "count"@,
        count_in(speeds_response),
        speeds_response,
        7 + 3 * count_in(speeds_response),
    ) + endpoint_section(
        "TEMPERATURES"@,
        EP_TEMPERATURES,
        DT_TEMPERATURES,
        "count"@,
        count_in(temperatures_response),
        temperatures_response,
        7 + 3 * count_in(temperatures_response),
    )
}

/// The dump of three responses, or what is wrong with them.
pub open spec fn dumped(
    expected: Option<u8>,
    devices_response: Seq<u8>,
    speeds_response: Seq<u8>,
    temperatures_response: Seq<u8>,
) -> Reply<Seq<char>> {
    match (corsair::devices_in(devices_response), corsair::speeds_in(speeds_response)) {
        (Err(error), _) => Err(error),
        (_, Err(error)) => Err(error),
        (Ok(topology), Ok(speeds)) => Ok(
            dump_text(
                expected,
                topology,
                speeds,
                devices_response,
                speeds_response,
                temperatures_response,
            ),
        ),
    }
}

fn count_controllable(devices: &Vec<LinkDevice>) -> (count: usize)
    ensures
        count == controllable(views::list(devices@), devices@.len() as int),
{
    let ghost listed = views::list(devices@);
    let mut count: usize = 0;
    let mut at: usize = 0;
    while at < devices.len()
        invariant
            at <= devices@.len(),
            listed == views::list(devices@),
            count == controllable(listed, at as int),
            count <= at,
        decreases devices@.len() - at,
    {
        assert(listed[at as int] == devices@[at as int]@);
        if let Some(profile) = device_profile(&devices[at]) {
            if profile.controls_speed {
                count += 1;
            }
        }
        at += 1;
    }
    count
}

fn write_topology(topology: &LinkTopology, fans: usize) -> (line: String)
    requires
        fans == corsair::fan_channels_of(topology@.devices).len(),
    ensures
        line@ == topology_line(topology@),
{
    let mut line = "iCUE LINK topology: last_channel=".to_owned();
    text::push_decimal(&mut line, topology.last_channel as u64);
    line.append(" connected=");
    text::push_decimal(&mut line, topology.devices.len() as u64);
    line.append(" fans=");
    text::push_decimal(&mut line, fans as u64);
    line.append(" speed_controllable=");
    text::push_decimal(&mut line, count_controllable(&topology.devices) as u64);
    line.append("\n");
    line
}

fn write_expected(expected: u8, fans: usize) -> (line: String)
    ensures
        line@ == expected_line(expected, fans as nat),
{
    let mut line = "fan count: expected=".to_owned();
    text::push_decimal(&mut line, expected as u64);
    line.append(" enumerated=");
    text::push_decimal(&mut line, fans as u64);
    line.append(" health=");
    if expected as usize == fans {
        line.append("healthy");
    } else {
        line.append("degraded");
    }
    line.append("\n");
    line
}

/// The speed of a channel in words.
pub fn speed_description(reading: Option<SpeedReading>) -> (words: String)
    ensures
        words@ == speed_words(reading),
{
    match reading {
        None => "not-reported".to_owned(),
        Some(known) => match known.rpm {
            Some(rpm) => {
                let mut words = "available(".to_owned();
                text::push_signed(&mut words, rpm as i64);
                words.append(" rpm)");
                words
            },
            None => {
                let mut words = "unavailable(status=0x".to_owned();
                text::push_hex(&mut words, known.status as u64, 2);
                words.append(")");
                words
            },
        },
    }
}

fn flag(value: bool) -> (words: &'static str)
    ensures
        words@ == flag_words(value),
{
    if value {
        "true"
    } else {
        "false"
    }
}

fn write_device(device: &LinkDevice, speeds: &Vec<SpeedReading>) -> (line: String)
    ensures
        line@ == device_line(device@, speeds@),
{
    let (name, controls_speed, is_fan) = match device_profile(device) {
        Some(profile) => (profile.name, profile.controls_speed, profile.is_fan),
        None => ("unknown", false, false),
    };
    let speed = speed_description(corsair::find_reading(speeds, device.channel));
    let mut line = "  channel=".to_owned();
    text::push_decimal(&mut line, device.channel as u64);
    line.append(" model=0x");
    text::push_hex(&mut line, device.model as u64, 2);
    line.append(" variant=0x");
    text::push_hex(&mut line, device.variant as u64, 2);
    line.append(" name=\"");
    line.append(name);
    line.append("\" id=");
    line.append(device.id.as_str());
    line.append(" fan=");
    line.append(flag(is_fan));
    line.append(" speed_control=");
    line.append(flag(controls_speed));
    line.append(" speed=");
    line.append(speed.as_str());
    line.append("\n");
    line
}

fn write_devices(devices: &Vec<LinkDevice>, speeds: &Vec<SpeedReading>) -> (lines: String)
    ensures
        lines@ == device_lines(views::list(devices@), speeds@, devices@.len() as int),
{
    let ghost listed = views::list(devices@);
    let mut lines = String::new();
    let mut at: usize = 0;
    assert(lines@ =~= device_lines(listed, speeds@, 0));
    while at < devices.len()
        invariant
            at <= devices@.len(),
            listed == views::list(devices@),
            lines@ == device_lines(listed, speeds@, at as int),
        decreases devices@.len() - at,
    {
        assert(listed[at as int] == devices@[at as int]@);
        let line = write_device(&devices[at], speeds);
        lines.append(line.as_str());
        at += 1;
    }
    lines
}

fn channel_is_empty(topology: &LinkTopology, channel: u8) -> (result: bool)
    ensures
        result == is_empty_channel(topology@)(channel),
{
    if channel < 1 || channel > topology.last_channel {
        return false;
    }
    let ghost listed = topology@.devices;
    let mut at: usize = 0;
    while at < topology.devices.len()
        invariant
            at <= topology.devices@.len(),
            listed == views::list(topology.devices@),
            forall|i: int| 0 <= i < at ==> (#[trigger] listed[i]).channel != channel,
        decreases topology.devices@.len() - at,
    {
        assert(listed[at as int] == topology.devices@[at as int]@);
        if topology.devices[at].channel == channel {
            return false;
        }
        at += 1;
    }
    true
}

fn write_empty(topology: &LinkTopology) -> (line: String)
    ensures
        line@ == empty_line(topology@),
{
    let mut channels: Vec<u8> = Vec::new();
    let mut channel: u16 = 0;
    let ghost wanted = is_empty_channel(topology@);
    while channel < 256
        invariant
            channel <= 256,
            wanted == is_empty_channel(topology@),
            channels@ == corsair::picked(wanted, channel as int),
        decreases 256 - channel,
    {
        if channel_is_empty(topology, channel as u8) {
            channels.push(channel as u8);
        }
        channel += 1;
    }
    let list = corsair::comma_separated_channels(&channels);
    text::concat3("empty channels: [", list.as_str(), "]\n\n")
}

fn write_row(bytes: &Vec<u8>, from: usize, to: usize) -> (line: String)
    requires
        from <= to <= bytes@.len(),
    ensures
        line@ == "  "@ + text::hex_padded(from as nat, 4) + ": "@ + spaced_hex(
            bytes@.subrange(from as int, to as int),
        ) + "\n"@,
{
    let mut row = String::new();
    let mut at: usize = from;
    assert(bytes@.subrange(from as int, from as int) =~= Seq::<u8>::empty());
    while at < to
        invariant
            from <= at <= to <= bytes@.len(),
            row@ == spaced_hex(bytes@.subrange(from as int, at as int)),
        decreases to - at,
    {
        text::push_hex(&mut row, bytes[at] as u64, 2);
        row.append(" ");
        assert(bytes@.subrange(from as int, at + 1).drop_last() =~= bytes@.subrange(
            from as int,
            at as int,
        ));
        at += 1;
    }
    let mut line = "  ".to_owned();
    text::push_hex(&mut line, from as u64, 4);
    line.append(": ");
    line.append(row.as_str());
    line.append("\n");
    line
}

fn write_endpoint_dump(
    name: &str,
    endpoint: u8,
    data_type: u8,
    count_name: &str,
    count: u8,
    response: &Vec<u8>,
    meaningful_length: usize,
) -> (section: String)
    ensures
        section@ == endpoint_section(
            name@,
            endpoint,
            data_type,
            count_name@,
            count,
            response@,
            meaningful_length as int,
        ),
{
    let length: usize = if meaningful_length < response.len() {
        meaningful_length
    } else {
        response.len()
    };
    let kind: Vec<u8> = vec![data_type, 0u8];
    assert(kind@ =~= seq![data_type, 0u8]);
    let digits = hex(kind.as_slice());
    let mut rows = String::new();
    let mut offset: usize = 0;
    let ghost mut row: int = 0;
    assert(rows@ =~= row_lines(response@, length as int, 0));
    while offset < length
        invariant
            length <= response@.len(),
            row >= 0,
            offset <= length,
            row == (offset + 15) / 16,
            offset < length ==> offset == 16 * row,
            rows@ == row_lines(response@, length as int, row),
        decreases length - offset,
    {
        let end: usize = if length - offset > 16 {
            offset + 16
        } else {
            length
        };
        let line = write_row(response, offset, end);
        assert(line@ == row_line(response@, length as int, row));
        rows.append(line.as_str());
        proof {
            row = row + 1;
        }
        offset = end;
    }
    let mut section = text::concat2(name, " endpoint=0x");
    text::push_hex(&mut section, endpoint as u64, 2);
    section.append(" data_type=");
    section.append(digits.as_str());
    section.append(" ");
    section.append(count_name);
    section.append("=");
    text::push_decimal(&mut section, count as u64);
    section.append("\n");
    section.append(rows.as_str());
    section.append("\n");
    section
}

fn response_count(response: &Vec<u8>) -> (count: u8)
    ensures
        count == count_in(response@),
{
    if response.len() > 6 {
        response[6]
    } else {
        0
    }
}

/// Writes the dump of the three responses of a hub.
///
/// # Errors
///
/// Returns an error when the device list or the speeds cannot be read.
pub fn diagnostic_dump(
    expected_fan_count: Option<u8>,
    devices_response: &Vec<u8>,
    speeds_response: &Vec<u8>,
    temperatures_response: &Vec<u8>,
) -> (result: Result<String>)
    ensures
        views::outcome(result) == dumped(
            expected_fan_count,
            devices_response@,
            speeds_response@,
            temperatures_response@,
        ),
{
    let topology = parse_devices(devices_response.as_slice())?;
    let speeds = parse_speeds(speeds_response.as_slice())?;
    let fans = corsair::fan_channels(&topology.devices);
    let mut output = write_topology(&topology, fans.len());
    match expected_fan_count {
        Some(expected) => {
            let line = write_expected(expected, fans.len());
            output.append(line.as_str());
        },
        None => {
            assert(output@ + Seq::<char>::empty() =~= output@);
        },
    }
    let lines = write_devices(&topology.devices, &speeds);
    output.append(lines.as_str());
    let line = write_empty(&topology);
    output.append(line.as_str());
    let section = write_endpoint_dump(
        "DEVICES",
        EP_DEVICES,
        DT_DEVICES,
        "last_channel",
        topology.last_channel,
        devices_response,
        7 + topology.consumed,
    );
    output.append(section.as_str());
    let speed_count: u8 = response_count(speeds_response);
    let section = write_endpoint_dump(
        "SPEEDS",
        EP_SPEEDS,
        DT_SPEEDS,
        "count",
        speed_count,
        speeds_response,
        7 + 3 * (speed_count as usize),
    );
    output.append(section.as_str());
    let temperature_count: u8 = response_count(temperatures_response);
    let section = write_endpoint_dump(
        "TEMPERATURES",
        EP_TEMPERATURES,
        DT_TEMPERATURES,
        "count",
        temperature_count,
        temperatures_response,
        7 + 3 * (temperature_count as usize),
    );
    output.append(section.as_str());
    Ok(output)
}

/// Bytes are shown one after the other, each as two hexadecimal digits that read back as the byte
/// and a space.
pub proof fn law_bytes_are_shown_in_order(bytes: Seq<u8>, at: int)
    requires
        0 <= at < bytes.len(),
    ensures
        spaced_hex(bytes).len() == 3 * bytes.len(),
        text::number(spaced_hex(bytes).subrange(3 * at, 3 * at + 2), 16) == bytes[at],
        spaced_hex(bytes)[3 * at + 2] == ' ',
    decreases bytes.len(),
{
    reveal_strlit(" ");
    let front = bytes.drop_last();
    let last = bytes.last() as nat;
    text::law_hexadecimal_digits_of_bytes(last);
    text::law_hexadecimal_reads_back(last, 2);
    let shown = spaced_hex(bytes);
    if front.len() > 0 {
        law_bytes_are_shown_in_order(
            front,
            if at < front.len() {
                at
            } else {
                0
            },
        );
    } else {
        assert(spaced_hex(front).len() == 0);
    }
    if at < front.len() {
        assert(shown.subrange(3 * at, 3 * at + 2) =~= spaced_hex(front).subrange(
            3 * at,
            3 * at + 2,
        ));
    } else {
        assert(shown.subrange(3 * at, 3 * at + 2) =~= text::hex_padded(last, 2));
    }
}

/// The rows of a section hold sixteen bytes each, the last one what is left, and together all of
/// them.
pub proof fn law_rows_cover_the_bytes(length: int, at: int)
    requires
        0 <= at < length,
    ensures
        ({
            let row = at / 16;
            &&& 0 <= row < (length + 15) / 16
            &&& 16 * row <= at < row_end(length, row)
            &&& row_end(length, row) <= length
            &&& row_end(length, row) - 16 * row <= 16
        }),
{
}

/// The devices whose speed can be controlled are counted one by one.
pub proof fn law_controllable_devices_are_counted(devices: Seq<LinkDeviceView>)
    ensures
        controllable(devices, devices.len() as int) == devices.filter(
            |device: LinkDeviceView| corsair::controls_speed(device.model),
        ).len(),
    decreases devices.len(),
{
    reveal(Seq::filter);
    let wanted = |device: LinkDeviceView| corsair::controls_speed(device.model);
    if devices.len() > 0 {
        let front = devices.drop_last();
        law_controllable_devices_are_counted(front);
        lemma_controllable(front, devices, front.len() as int);
    }
}

proof fn lemma_controllable(left: Seq<LinkDeviceView>, right: Seq<LinkDeviceView>, count: int)
    requires
        0 <= count <= left.len(),
        count <= right.len(),
        forall|i: int| 0 <= i < count ==> #[trigger] left[i] == right[i],
    ensures
        controllable(left, count) == controllable(right, count),
    decreases count,
{
    if count > 0 {
        lemma_controllable(left, right, count - 1);
        assert(left[count - 1] == right[count - 1]);
    }
}

/// A dump fails just where the devices or the speeds cannot be read.
pub proof fn law_dump_needs_devices_and_speeds(
    expected: Option<u8>,
    devices_response: Seq<u8>,
    speeds_response: Seq<u8>,
    temperatures_response: Seq<u8>,
)
    ensures
        dumped(expected, devices_response, speeds_response, temperatures_response) is Ok <==> (
        corsair::devices_in(devices_response) is Ok && corsair::speeds_in(speeds_response) is Ok),
{
}

} // verus!
