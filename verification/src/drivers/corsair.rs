//! Corsair iCUE LINK System Hub protocol over HID: packets, responses, and fan reports.

use vstd::prelude::*;

use crate::drivers::FanWrite;
use crate::drivers::FanWriteView;
use crate::drivers::Reply;
use crate::error;
use crate::error::ErrorView;
use crate::error::FeatherError;
use crate::error::Result;
use crate::json;
use crate::json::Json;
use crate::json::JsonView;
use crate::json::Number;
use crate::names;
use crate::names::NameMap;
use crate::text;
use crate::views;

verus! {

/// Bytes in a response.
pub const BUFFER_SIZE: usize = 512;

/// Bytes in a packet, with its report number.
pub const WRITE_SIZE: usize = 513;

/// Where the command of a packet starts.
pub const HEADER: usize = 3;

/// Endpoint that lists LINK devices.
pub const EP_DEVICES: u8 = 0x36;

/// Endpoint that reads fan speeds.
pub const EP_SPEEDS: u8 = 0x17;

/// Endpoint that reads temperatures.
pub const EP_TEMPERATURES: u8 = 0x21;

/// Endpoint that sets fan speeds.
pub const EP_SET_SPEED: u8 = 0x18;

/// Endpoint that sets colors.
pub const EP_SET_COLOR: u8 = 0x22;

/// Data type of the device list.
pub const DT_DEVICES: u8 = 0x21;

/// Data type of fan speeds.
pub const DT_SPEEDS: u8 = 0x25;

/// Data type of temperatures.
pub const DT_TEMPERATURES: u8 = 0x10;

/// Data type of a speed write.
pub const DT_SET_SPEED: u8 = 0x07;

/// Data type of a color write.
pub const DT_SET_COLOR: u8 = 0x12;

/// Milliseconds between a packet and its response.
pub const TRANSFER_SETTLE_MS: u64 = 3;

/// Milliseconds that a response is waited for.
pub const READ_TIMEOUT_MS: u64 = 1_000;

fn driver_error(message: String) -> (error: FeatherError)
    ensures
        error@ == ErrorView::Driver(message@),
{
    FeatherError::Driver(message)
}

// ---------------------------------------------------------------- devices on the link

/// A device on a LINK chain.
#[derive(Clone, Debug, PartialEq, Eq)]
pub struct LinkDevice {
    /// Channel on the hub.
    pub channel: u8,
    /// Model number.
    pub model: u8,
    /// Variant of the model.
    pub variant: u8,
    /// Device identifier.
    pub id: String,
}

/// See [`LinkDevice`].
pub ghost struct LinkDeviceView {
    /// See [`LinkDevice::channel`].
    pub channel: u8,
    /// See [`LinkDevice::model`].
    pub model: u8,
    /// See [`LinkDevice::variant`].
    pub variant: u8,
    /// See [`LinkDevice::id`].
    pub id: Seq<char>,
}

impl View for LinkDevice {
    type V = LinkDeviceView;

    open spec fn view(&self) -> LinkDeviceView {
        LinkDeviceView {
            channel: self.channel,
            model: self.model,
            variant: self.variant,
            id: self.id@,
        }
    }
}

/// The devices on the LINK chains of a hub.
#[derive(Debug, PartialEq, Eq)]
pub struct LinkTopology {
    /// Last channel that the hub has.
    pub last_channel: u8,
    /// Devices in order of their channels.
    pub devices: Vec<LinkDevice>,
    /// Bytes that their records take.
    pub consumed: usize,
}

/// See [`LinkTopology`].
pub ghost struct TopologyView {
    /// See [`LinkTopology::last_channel`].
    pub last_channel: u8,
    /// See [`LinkTopology::devices`].
    pub devices: Seq<LinkDeviceView>,
    /// See [`LinkTopology::consumed`].
    pub consumed: int,
}

impl View for LinkTopology {
    type V = TopologyView;

    open spec fn view(&self) -> TopologyView {
        TopologyView {
            last_channel: self.last_channel,
            devices: views::list(self.devices@),
            consumed: self.consumed as int,
        }
    }
}

/// What a device model can do.
#[derive(Clone, Copy, Debug)]
pub struct LinkDeviceProfile {
    /// Name of the model.
    pub name: &'static str,
    /// Whether its speed can be set.
    pub controls_speed: bool,
    /// Whether it is a fan.
    pub is_fan: bool,
}

/// See [`LinkDeviceProfile`].
pub ghost struct ProfileView {
    /// See [`LinkDeviceProfile::name`].
    pub name: Seq<char>,
    /// See [`LinkDeviceProfile::controls_speed`].
    pub controls_speed: bool,
    /// See [`LinkDeviceProfile::is_fan`].
    pub is_fan: bool,
}

impl View for LinkDeviceProfile {
    type V = ProfileView;

    open spec fn view(&self) -> ProfileView {
        ProfileView {
            name: self.name@,
            controls_speed: self.controls_speed,
            is_fan: self.is_fan,
        }
    }
}

/// The speed that a channel reports.
#[derive(Clone, Copy, Debug, PartialEq, Eq, Structural)]
pub struct SpeedReading {
    /// Channel on the hub.
    pub channel: u8,
    /// Zero if the channel works.
    pub status: u8,
    /// Revolutions per minute of a channel that works.
    pub rpm: Option<i16>,
}

/// A fan whose speed can be set.
pub open spec fn fan_profile(name: Seq<char>) -> Option<ProfileView> {
    Some(ProfileView { name, controls_speed: true, is_fan: true })
}

/// Something other than a fan whose speed can be set.
pub open spec fn pump_profile(name: Seq<char>) -> Option<ProfileView> {
    Some(ProfileView { name, controls_speed: true, is_fan: false })
}

/// Something that has no speed to set.
pub open spec fn passive_profile(name: Seq<char>) -> Option<ProfileView> {
    Some(ProfileView { name, controls_speed: false, is_fan: false })
}

/// What a model can do, if it is known.
pub open spec fn profile_of(model: u8) -> Option<ProfileView> {
    match model {
        0x01 => fan_profile("QX Fan"@),
        0x02 => fan_profile("LX Fan"@),
        0x03 => fan_profile("RX MAX RGB Fan"@),
        0x04 => fan_profile("RX MAX Fan"@),
        0x05 => passive_profile("iCUE LINK Adapter"@),
        0x07 => pump_profile("H-series liquid cooler"@),
        0x09 => passive_profile("XC7 water block"@),
        0x0a => pump_profile("XG3 water block"@),
        0x0b => pump_profile("HXi SHIFT PSU"@),
        0x0c => pump_profile("XD5 pump"@),
        0x0f => fan_profile("RX RGB Fan"@),
        0x10 => fan_profile("VRM Fan CapSwap Module"@),
        0x11 => pump_profile("TITAN AIO"@),
        0x13 => fan_profile("RX Fan"@),
        0x19 => pump_profile("XD6 pump"@),
        0x1b => pump_profile("COMMANDER DUO"@),
        _ => None,
    }
}

fn fan_entry(name: &'static str) -> (profile: Option<LinkDeviceProfile>)
    ensures
        views::maybe(profile) == fan_profile(name@),
{
    Some(LinkDeviceProfile { name, controls_speed: true, is_fan: true })
}

fn pump_entry(name: &'static str) -> (profile: Option<LinkDeviceProfile>)
    ensures
        views::maybe(profile) == pump_profile(name@),
{
    Some(LinkDeviceProfile { name, controls_speed: true, is_fan: false })
}

fn passive_entry(name: &'static str) -> (profile: Option<LinkDeviceProfile>)
    ensures
        views::maybe(profile) == passive_profile(name@),
{
    Some(LinkDeviceProfile { name, controls_speed: false, is_fan: false })
}

/// What a device can do, if its model is known.
pub fn device_profile(device: &LinkDevice) -> (profile: Option<LinkDeviceProfile>)
    ensures
        views::maybe(profile) == profile_of(device.model),
{
    match device.model {
        0x01 => fan_entry("QX Fan"),
        0x02 => fan_entry("LX Fan"),
        0x03 => fan_entry("RX MAX RGB Fan"),
        0x04 => fan_entry("RX MAX Fan"),
        0x05 => passive_entry("iCUE LINK Adapter"),
        0x07 => pump_entry("H-series liquid cooler"),
        0x09 => passive_entry("XC7 water block"),
        0x0a => pump_entry("XG3 water block"),
        0x0b => pump_entry("HXi SHIFT PSU"),
        0x0c => pump_entry("XD5 pump"),
        0x0f => fan_entry("RX RGB Fan"),
        0x10 => fan_entry("VRM Fan CapSwap Module"),
        0x11 => pump_entry("TITAN AIO"),
        0x13 => fan_entry("RX Fan"),
        0x19 => pump_entry("XD6 pump"),
        0x1b => pump_entry("COMMANDER DUO"),
        _ => None,
    }
}

/// Whether a model is a fan.
pub open spec fn is_fan(model: u8) -> bool {
    profile_of(model) matches Some(profile) && profile.is_fan
}

/// Whether the speed of a model can be set.
pub open spec fn controls_speed(model: u8) -> bool {
    profile_of(model) matches Some(profile) && profile.controls_speed
}

fn device_is_fan(device: &LinkDevice) -> (result: bool)
    ensures
        result == is_fan(device.model),
{
    match device_profile(device) {
        Some(profile) => profile.is_fan,
        None => false,
    }
}

fn device_controls_speed(device: &LinkDevice) -> (result: bool)
    ensures
        result == controls_speed(device.model),
{
    match device_profile(device) {
        Some(profile) => profile.controls_speed,
        None => false,
    }
}

// ---------------------------------------------------------------- bytes

/// Bytes in hexadecimal.
pub open spec fn hex_of(bytes: Seq<u8>) -> Seq<char>
    decreases bytes.len(),
{
    if bytes.len() == 0 {
        Seq::empty()
    } else {
        hex_of(bytes.drop_last()) + text::hex_padded(bytes.last() as nat, 2)
    }
}

/// Bytes in hexadecimal.
pub fn hex(bytes: &[u8]) -> (result: String)
    ensures
        result@ == hex_of(bytes@),
{
    let mut result = String::new();
    let mut at: usize = 0;
    assert(bytes@.take(0) =~= Seq::<u8>::empty());
    while at < bytes.len()
        invariant
            at <= bytes@.len(),
            result@ == hex_of(bytes@.take(at as int)),
        decreases bytes@.len() - at,
    {
        text::push_hex(&mut result, bytes[at] as u64, 2);
        assert(bytes@.take(at + 1).drop_last() =~= bytes@.take(at as int));
        at += 1;
    }
    assert(bytes@.take(at as int) =~= bytes@);
    result
}

/// The signed number that two bytes hold, the lower one first.
pub open spec fn le_i16(low: u8, high: u8) -> int {
    let raw = low + 256 * high;
    if raw >= 0x8000 {
        raw - 0x1_0000
    } else {
        raw
    }
}

fn read_i16(low: u8, high: u8) -> (value: i16)
    ensures
        value == le_i16(low, high),
{
    let raw: i32 = (low as i32) + 256 * (high as i32);
    if raw >= 0x8000 {
        (raw - 0x1_0000) as i16
    } else {
        raw as i16
    }
}

/// The bytes that hold a length, the lower one first.
pub open spec fn le_bytes(value: int) -> Seq<u8> {
    seq![(value % 256) as u8, (value / 256) as u8]
}

/// The bytes from `from` on, up to `to`.
pub fn slice_of(bytes: &[u8], from: usize, to: usize) -> (result: Vec<u8>)
    requires
        from <= to <= bytes@.len(),
    ensures
        result@ == bytes@.subrange(from as int, to as int),
{
    let mut result: Vec<u8> = Vec::new();
    let mut at: usize = from;
    while at < to
        invariant
            from <= at <= to <= bytes@.len(),
            result@ =~= bytes@.subrange(from as int, at as int),
        decreases to - at,
    {
        result.push(bytes[at]);
        at += 1;
    }
    result
}

/// The text that bytes hold, with marks where they are not UTF-8.
pub uninterp spec fn lossy_text(bytes: Seq<u8>) -> Seq<char>;

/// Calls `String::from_utf8_lossy`: the text depends on the bytes alone, and bytes that are
/// valid UTF-8 give the text that they encode. What stands for other bytes is not stated.
#[verifier::external_body]
fn from_utf8_lossy(bytes: &Vec<u8>) -> (result: String)
    ensures
        result@ == lossy_text(bytes@),
        vstd::utf8::valid_utf8(bytes@) ==> result@ == vstd::utf8::decode_utf8(bytes@),
{
    String::from_utf8_lossy(bytes.as_slice()).into_owned()
}

/// The text that bytes are shown as: the one that they encode, if they are UTF-8.
pub open spec fn shown_text(bytes: Seq<u8>) -> Seq<char> {
    if vstd::utf8::valid_utf8(bytes) {
        vstd::utf8::decode_utf8(bytes)
    } else {
        lossy_text(bytes)
    }
}

// ---------------------------------------------------------------- responses

/// What is wrong with a response of a data type, if anything is.
pub open spec fn response_fault(response: Seq<u8>, data_type: u8) -> Option<ErrorView> {
    if response.len() < 8 {
        Some(
            ErrorView::Driver(
                "short Corsair response ("@ + text::decimal(response.len()) + " bytes)"@,
            ),
        )
    } else if response[3] != 0 {
        Some(
            ErrorView::Driver(
                "Corsair response status 0x"@ + text::hex_padded(response[3] as nat, 2),
            ),
        )
    } else if response.subrange(4, 6) != seq![data_type, 0u8] {
        Some(
            ErrorView::Driver(
                "unexpected Corsair data type "@ + hex_of(response.subrange(4, 6)),
            ),
        )
    } else {
        None
    }
}

fn validate_response(response: &[u8], data_type: u8) -> (result: Result<()>)
    ensures
        match response_fault(response@, data_type) {
            None => result is Ok,
            Some(fault) => result matches Err(error) && error@ == fault,
        },
{
    if response.len() < 8 {
        let mut message = "short Corsair response (".to_owned();
        text::push_decimal(&mut message, response.len() as u64);
        message.append(" bytes)");
        return Err(driver_error(message));
    }
    if response[3] != 0 {
        let mut message = "Corsair response status 0x".to_owned();
        text::push_hex(&mut message, response[3] as u64, 2);
        return Err(driver_error(message));
    }
    if response[4] != data_type || response[5] != 0 {
        let shown = slice_of(response, 4, 6);
        assert(shown@ != seq![data_type, 0u8]) by {
            assert(shown@[0] == response@[4]);
            assert(shown@[1] == response@[5]);
            assert(seq![data_type, 0u8][0] == data_type);
            assert(seq![data_type, 0u8][1] == 0u8);
        }
        let digits = hex(shown.as_slice());
        return Err(driver_error(text::concat2("unexpected Corsair data type ", digits.as_str())));
    }
    assert(response@.subrange(4, 6) =~= seq![data_type, 0u8]);
    Ok(())
}

/// The first zero byte from `from` on, or the end.
pub open spec fn zero_from(bytes: Seq<u8>, from: int) -> int
    decreases bytes.len() - from,
{
    if from >= bytes.len() {
        bytes.len() as int
    } else if bytes[from] == 0 {
        from
    } else {
        zero_from(bytes, from + 1)
    }
}

/// The devices in records from `cursor` on, for the channels from `channel` through
/// `last_channel`, with the position after the last record.
pub open spec fn records(
    data: Seq<u8>,
    cursor: int,
    channel: int,
    last_channel: int,
    found: Seq<LinkDeviceView>,
) -> Reply<(Seq<LinkDeviceView>, int)>
    decreases last_channel + 1 - channel,
{
    if channel > last_channel {
        Ok((found, cursor))
    } else if cursor + 8 > data.len() {
        Err(
            ErrorView::Driver(
                "truncated Corsair device record for channel "@ + text::decimal(channel as nat),
            ),
        )
    } else {
        let length = data[cursor + 7] as int;
        if length == 0 {
            records(data, cursor + 8, channel + 1, last_channel, found)
        } else if cursor + 8 + length > data.len() {
            Err(
                ErrorView::Driver(
                    "truncated Corsair device ID for channel "@ + text::decimal(channel as nat),
                ),
            )
        } else {
            let id = data.subrange(cursor + 8, cursor + 8 + length);
            let device = LinkDeviceView {
                channel: channel as u8,
                model: data[cursor + 2],
                variant: data[cursor + 3],
                id: shown_text(id.take(zero_from(id, 0))),
            };
            records(data, cursor + 8 + length, channel + 1, last_channel, found.push(device))
        }
    }
}

/// The devices that a response lists.
pub open spec fn devices_in(response: Seq<u8>) -> Reply<TopologyView> {
    match response_fault(response, DT_DEVICES) {
        Some(fault) => Err(fault),
        None => match records(response.skip(7), 0, 1, response[6] as int, Seq::empty()) {
            Err(error) => Err(error),
            Ok((devices, consumed)) => Ok(
                TopologyView { last_channel: response[6], devices, consumed },
            ),
        },
    }
}

fn id_text(id: Vec<u8>) -> (result: String)
    ensures
        result@ == shown_text(id@.take(zero_from(id@, 0))),
{
    let mut end: usize = 0;
    while end < id.len() && id[end] != 0
        invariant
            end <= id@.len(),
            zero_from(id@, 0) == zero_from(id@, end as int),
        decreases id@.len() - end,
    {
        end += 1;
    }
    let shown = slice_of(id.as_slice(), 0, end);
    assert(shown@ =~= id@.take(end as int));
    from_utf8_lossy(&shown)
}

/// Reads the list of devices.
///
/// # Errors
///
/// Returns an error for a failed response, another data type, or records that are cut off.
pub fn parse_devices(response: &[u8]) -> (result: Result<LinkTopology>)
    ensures
        views::outcome(result) == devices_in(response@),
        result matches Ok(topology) ==> topology.consumed + 7 <= response@.len() <= usize::MAX,
{
    validate_response(response, DT_DEVICES)?;
    let last_channel: u8 = response[6];
    let ghost data = response@.skip(7);
    let size: usize = response.len();
    let length: usize = size - 7;
    let mut devices: Vec<LinkDevice> = Vec::new();
    let mut cursor: usize = 0;
    let mut channel: u16 = 1;
    assert(views::list(devices@) =~= Seq::<LinkDeviceView>::empty());
    while channel <= last_channel as u16
        invariant
            1 <= channel <= 256,
            size == response@.len(),
            data == response@.skip(7),
            length == data.len(),
            size == length + 7,
            cursor <= length,
            records(data, 0, 1, last_channel as int, Seq::empty()) == records(
                data,
                cursor as int,
                channel as int,
                last_channel as int,
                views::list(devices@),
            ),
            devices_in(response@) == (match records(
                data,
                0,
                1,
                last_channel as int,
                Seq::empty(),
            ) {
                Err(error) => Err(error),
                Ok((devices, consumed)) => Ok(TopologyView { last_channel, devices, consumed }),
            }),
        decreases 256 - channel,
    {
        if length - cursor < 8 {
            let mut message = "truncated Corsair device record for channel ".to_owned();
            text::push_decimal(&mut message, channel as u64);
            return Err(driver_error(message));
        }
        let id_length: usize = response[7 + cursor + 7] as usize;
        assert(data[cursor + 7] == response@[7 + cursor + 7]);
        if id_length == 0 {
            cursor += 8;
        } else {
            if length - cursor - 8 < id_length {
                let mut message = "truncated Corsair device ID for channel ".to_owned();
                text::push_decimal(&mut message, channel as u64);
                return Err(driver_error(message));
            }
            let start: usize = 7 + cursor + 8;
            let id = slice_of(response, start, start + id_length);
            assert(id@ =~= data.subrange(cursor + 8, cursor + 8 + id_length));
            assert(data[cursor + 2] == response@[7 + cursor + 2]);
            assert(data[cursor + 3] == response@[7 + cursor + 3]);
            let device = LinkDevice {
                channel: channel as u8,
                model: response[7 + cursor + 2],
                variant: response[7 + cursor + 3],
                id: id_text(id),
            };
            let ghost before = devices@;
            devices.push(device);
            assert(views::list(devices@) =~= views::list(before).push(device@));
            cursor += 8 + id_length;
        }
        channel += 1;
    }
    Ok(LinkTopology { last_channel, devices, consumed: cursor })
}

/// The speed that a channel reports in a response.
pub open spec fn speed_at(data: Seq<u8>, channel: int) -> SpeedReading {
    let status = data[3 * channel];
    SpeedReading {
        channel: channel as u8,
        status,
        rpm: if status == 0 {
            Some(le_i16(data[3 * channel + 1], data[3 * channel + 2]) as i16)
        } else {
            None
        },
    }
}

/// The speeds that a response lists.
pub open spec fn speeds_in(response: Seq<u8>) -> Reply<Seq<SpeedReading>> {
    match response_fault(response, DT_SPEEDS) {
        Some(fault) => Err(fault),
        None => {
            let count = response[6] as nat;
            let data = response.skip(7);
            if data.len() < 3 * count {
                Err(
                    ErrorView::Driver(
                        "truncated Corsair speed data (expected "@ + text::decimal(3 * count)
                            + " bytes, got "@ + text::decimal(data.len()) + ")"@,
                    ),
                )
            } else {
                Ok(Seq::new(count, |i: int| speed_at(data, i)))
            }
        },
    }
}

/// The speeds of a list.
pub open spec fn speeds_outcome(result: Result<Vec<SpeedReading>>) -> Reply<Seq<SpeedReading>> {
    match result {
        Ok(speeds) => Ok(speeds@),
        Err(error) => Err(error@),
    }
}

/// Reads the fan speeds.
///
/// # Errors
///
/// Returns an error for a failed response, another data type, or data that is cut off.
pub fn parse_speeds(response: &[u8]) -> (result: Result<Vec<SpeedReading>>)
    ensures
        speeds_outcome(result) == speeds_in(response@),
{
    validate_response(response, DT_SPEEDS)?;
    let count: usize = response[6] as usize;
    let length: usize = response.len() - 7;
    let ghost data = response@.skip(7);
    if length < 3 * count {
        let mut message = "truncated Corsair speed data (expected ".to_owned();
        text::push_decimal(&mut message, (3 * count) as u64);
        message.append(" bytes, got ");
        text::push_decimal(&mut message, length as u64);
        message.append(")");
        return Err(driver_error(message));
    }
    let mut speeds: Vec<SpeedReading> = Vec::new();
    let mut channel: usize = 0;
    while channel < count
        invariant
            channel <= count <= 255,
            response@.len() >= 7 + 3 * count,
            data == response@.skip(7),
            speeds@ =~= Seq::new(channel as nat, |i: int| speed_at(data, i)),
        decreases count - channel,
    {
        let offset: usize = 7 + 3 * channel;
        assert(data[3 * channel] == response@[offset as int]);
        assert(data[3 * channel + 1] == response@[offset + 1]);
        assert(data[3 * channel + 2] == response@[offset + 2]);
        let status: u8 = response[offset];
        let rpm = if status == 0 {
            Some(read_i16(response[offset + 1], response[offset + 2]))
        } else {
            None
        };
        let reading = SpeedReading { channel: channel as u8, status, rpm };
        assert(reading == speed_at(data, channel as int));
        speeds.push(reading);
        channel += 1;
    }
    Ok(speeds)
}

/// The temperatures of the first `count` channels, in tenths of a degree: those of channels
/// that work, from 1 up to 90 degrees.
pub open spec fn tenths_upto(data: Seq<u8>, count: int) -> Seq<(u8, i16)>
    decreases count,
{
    if count <= 0 {
        Seq::empty()
    } else {
        let earlier = tenths_upto(data, count - 1);
        let offset = 3 * (count - 1);
        if offset + 2 >= data.len() {
            earlier
        } else {
            let raw = le_i16(data[offset + 1], data[offset + 2]);
            if data[offset] == 0 && 10 <= raw < 900 {
                earlier.push(((count - 1) as u8, raw as i16))
            } else {
                earlier
            }
        }
    }
}

/// The temperatures that a response lists, in tenths of a degree.
pub open spec fn temperatures_in(response: Seq<u8>) -> Reply<Seq<(u8, i16)>> {
    match response_fault(response, DT_TEMPERATURES) {
        Some(fault) => Err(fault),
        None => Ok(tenths_upto(response.skip(7), response[6] as int)),
    }
}

/// The temperatures of a list.
pub open spec fn tenths_outcome(result: Result<Vec<(u8, i16)>>) -> Reply<Seq<(u8, i16)>> {
    match result {
        Ok(list) => Ok(list@),
        Err(error) => Err(error@),
    }
}

proof fn lemma_tenths_beyond(data: Seq<u8>, from: int, count: int)
    requires
        0 <= from <= count,
        3 * from + 2 >= data.len(),
    ensures
        tenths_upto(data, count) == tenths_upto(data, from),
    decreases count,
{
    if from < count {
        lemma_tenths_beyond(data, from, count - 1);
    }
}

/// Reads the temperatures, in tenths of a degree.
///
/// # Errors
///
/// Returns an error for a failed response or another data type.
pub fn parse_temperatures(response: &[u8]) -> (result: Result<Vec<(u8, i16)>>)
    ensures
        tenths_outcome(result) == temperatures_in(response@),
{
    validate_response(response, DT_TEMPERATURES)?;
    let count: usize = response[6] as usize;
    let length: usize = response.len() - 7;
    let ghost data = response@.skip(7);
    let mut list: Vec<(u8, i16)> = Vec::new();
    let mut channel: usize = 0;
    while channel < count
        invariant
            channel <= count <= 255,
            count == response@[6],
            length == data.len(),
            response@.len() == 7 + length,
            data == response@.skip(7),
            response_fault(response@, DT_TEMPERATURES) is None,
            list@ == tenths_upto(data, channel as int),
        decreases count - channel,
    {
        let offset: usize = 3 * channel;
        if offset + 2 >= length {
            proof {
                lemma_tenths_beyond(data, channel as int, count as int);
            }
            return Ok(list);
        }
        assert(data[offset as int] == response@[7 + offset]);
        assert(data[offset + 1] == response@[7 + offset + 1]);
        assert(data[offset + 2] == response@[7 + offset + 2]);
        if response[7 + offset] == 0 {
            let raw: i16 = read_i16(response[7 + offset + 1], response[7 + offset + 2]);
            if 10 <= raw && raw < 900 {
                list.push((channel as u8, raw));
            }
        }
        channel += 1;
    }
    Ok(list)
}

// ---------------------------------------------------------------- channel selection

/// The channels below `upto` that are wanted, in ascending order.
pub open spec fn picked(wanted: spec_fn(u8) -> bool, upto: int) -> Seq<u8>
    decreases upto,
{
    if upto <= 0 {
        Seq::empty()
    } else if wanted((upto - 1) as u8) {
        picked(wanted, upto - 1).push((upto - 1) as u8)
    } else {
        picked(wanted, upto - 1)
    }
}

/// Picked channels ascend, and are exactly the wanted ones.
pub proof fn law_picked(wanted: spec_fn(u8) -> bool, upto: int)
    requires
        0 <= upto <= 256,
    ensures
        forall|i: int, j: int|
            0 <= i < j < picked(wanted, upto).len() ==> #[trigger] picked(wanted, upto)[i]
                < #[trigger] picked(wanted, upto)[j],
        forall|channel: u8|
            picked(wanted, upto).contains(channel) <==> #[trigger] wanted(channel) && channel
                < upto,
    decreases upto,
{
    if upto > 0 {
        law_picked(wanted, upto - 1);
        let earlier = picked(wanted, upto - 1);
        let all = picked(wanted, upto);
        assert forall|i: int| 0 <= i < earlier.len() implies #[trigger] earlier[i] < upto - 1 by {
            assert(earlier.contains(earlier[i]));
            assert(wanted(earlier[i]));
        }
        assert forall|i: int, j: int| 0 <= i < j < all.len() implies #[trigger] all[i]
            < #[trigger] all[j] by {
            if j < earlier.len() {
                assert(all[i] == earlier[i] && all[j] == earlier[j]);
            } else {
                assert(all[i] == earlier[i]);
            }
        }
        assert forall|channel: u8| all.contains(channel) <==> #[trigger] wanted(channel) && channel
            < upto by {
            if wanted((upto - 1) as u8) {
                assert(all == earlier.push((upto - 1) as u8));
                if all.contains(channel) {
                    let i = choose|i: int| 0 <= i < all.len() && all[i] == channel;
                    if i < earlier.len() {
                        assert(earlier[i] == channel);
                    }
                }
                if wanted(channel) && channel < upto {
                    if channel < upto - 1 {
                        assert(earlier.contains(channel));
                        let i = choose|i: int| 0 <= i < earlier.len() && earlier[i] == channel;
                        assert(all[i] == channel);
                    } else {
                        assert(all[earlier.len() as int] == channel);
                    }
                }
            }
        }
    }
}

/// Whether automatic selection takes a channel: that of a device whose speed can be set, or
/// one that reports a speed.
pub open spec fn automatic(devices: Seq<LinkDeviceView>, speeds: Seq<SpeedReading>) -> spec_fn(
    u8,
) -> bool {
    |channel: u8|
        {
            ||| exists|i: int|
                0 <= i < devices.len() && controls_speed((#[trigger] devices[i]).model)
                    && devices[i].channel == channel
            ||| exists|i: int|
                0 <= i < speeds.len() && (#[trigger] speeds[i]).rpm is Some && speeds[i].channel
                    == channel
        }
}

fn automatic_wants(devices: &Vec<LinkDevice>, speeds: &Vec<SpeedReading>, channel: u8) -> (result:
    bool)
    ensures
        result == automatic(views::list(devices@), speeds@)(channel),
{
    let ghost listed = views::list(devices@);
    let mut at: usize = 0;
    while at < devices.len()
        invariant
            at <= devices@.len(),
            listed == views::list(devices@),
            forall|i: int|
                0 <= i < at ==> !(controls_speed((#[trigger] listed[i]).model)
                    && listed[i].channel == channel),
        decreases devices@.len() - at,
    {
        assert(listed[at as int] == devices@[at as int]@);
        if device_controls_speed(&devices[at]) && devices[at].channel == channel {
            return true;
        }
        at += 1;
    }
    let mut at: usize = 0;
    while at < speeds.len()
        invariant
            at <= speeds@.len(),
            listed == views::list(devices@),
            forall|i: int|
                0 <= i < listed.len() ==> !(controls_speed((#[trigger] listed[i]).model)
                    && listed[i].channel == channel),
            forall|i: int|
                0 <= i < at ==> !((#[trigger] speeds@[i]).rpm is Some && speeds@[i].channel
                    == channel),
        decreases speeds@.len() - at,
    {
        if speeds[at].rpm.is_some() && speeds[at].channel == channel {
            assert(speeds@[at as int].channel == channel);
            return true;
        }
        at += 1;
    }
    false
}

/// The channels that automatic selection takes, in ascending order.
pub fn automatic_speed_channels(devices: &Vec<LinkDevice>, speeds: &Vec<SpeedReading>) -> (channels:
    Vec<u8>)
    ensures
        channels@ == picked(automatic(views::list(devices@), speeds@), 256),
{
    let mut channels: Vec<u8> = Vec::new();
    let mut channel: u16 = 0;
    let ghost wanted = automatic(views::list(devices@), speeds@);
    while channel < 256
        invariant
            channel <= 256,
            wanted == automatic(views::list(devices@), speeds@),
            channels@ == picked(wanted, channel as int),
        decreases 256 - channel,
    {
        if automatic_wants(devices, speeds, channel as u8) {
            channels.push(channel as u8);
        }
        channel += 1;
    }
    channels
}

/// Whether a channel is listed.
pub open spec fn listed(channels: Seq<u32>) -> spec_fn(u8) -> bool {
    |channel: u8| channels.contains(channel as u32)
}

/// A channel that no hub has.
pub open spec fn large_channel(channels: Seq<u32>) -> spec_fn(int) -> Option<ErrorView> {
    |at: int|
        if channels[at] > 255 {
            Some(
                ErrorView::Driver(
                    "fan channel "@ + text::decimal(channels[at] as nat) + " is too large"@,
                ),
            )
        } else {
            None
        }
}

/// The channels that a fan write goes to: those listed, or all that can be set.
pub open spec fn selection(
    channels: Seq<u32>,
    devices: Seq<LinkDeviceView>,
    speeds: Seq<SpeedReading>,
) -> Reply<Seq<u8>> {
    if channels.len() == 0 {
        Ok(picked(automatic(devices, speeds), 256))
    } else {
        match crate::search::first(large_channel(channels), 0, channels.len() as int) {
            Some(error) => Err(error),
            None => Ok(picked(listed(channels), 256)),
        }
    }
}

/// The channels of a selection.
pub open spec fn channels_outcome(result: Result<Vec<u8>>) -> Reply<Seq<u8>> {
    match result {
        Ok(channels) => Ok(channels@),
        Err(error) => Err(error@),
    }
}

fn lists_channel(channels: &Vec<u32>, channel: u8) -> (result: bool)
    ensures
        result == listed(channels@)(channel),
{
    let mut at: usize = 0;
    while at < channels.len()
        invariant
            at <= channels@.len(),
            forall|i: int| 0 <= i < at ==> #[trigger] channels@[i] != channel,
        decreases channels@.len() - at,
    {
        if channels[at] == channel as u32 {
            return true;
        }
        at += 1;
    }
    false
}

/// Selects the channels that a fan write goes to.
///
/// # Errors
///
/// Returns an error for a channel that no hub has.
pub fn select_channels(
    channels: &Vec<u32>,
    devices: &Vec<LinkDevice>,
    speeds: &Vec<SpeedReading>,
) -> (result: Result<Vec<u8>>)
    ensures
        channels_outcome(result) == selection(channels@, views::list(devices@), speeds@),
{
    if channels.len() == 0 {
        return Ok(automatic_speed_channels(devices, speeds));
    }
    let mut at: usize = 0;
    let ghost check = large_channel(channels@);
    while at < channels.len()
        invariant
            at <= channels@.len(),
            channels@.len() > 0,
            check == large_channel(channels@),
            crate::search::first(check, 0, channels@.len() as int) == crate::search::first(
                check,
                at as int,
                channels@.len() as int,
            ),
        decreases channels@.len() - at,
    {
        if channels[at] > 255 {
            let mut message = "fan channel ".to_owned();
            text::push_decimal(&mut message, channels[at] as u64);
            message.append(" is too large");
            return Err(driver_error(message));
        }
        at += 1;
    }
    let mut chosen: Vec<u8> = Vec::new();
    let mut channel: u16 = 0;
    while channel < 256
        invariant
            channel <= 256,
            chosen@ == picked(listed(channels@), channel as int),
        decreases 256 - channel,
    {
        if lists_channel(channels, channel as u8) {
            chosen.push(channel as u8);
        }
        channel += 1;
    }
    Ok(chosen)
}

// ---------------------------------------------------------------- fan reports

/// The last reading of a channel among the first `count`.
pub open spec fn reading_upto(speeds: Seq<SpeedReading>, channel: u8, count: int) -> Option<
    SpeedReading,
>
    decreases count,
{
    if count <= 0 {
        None
    } else if speeds[count - 1].channel == channel {
        Some(speeds[count - 1])
    } else {
        reading_upto(speeds, channel, count - 1)
    }
}

/// The last reading of a channel.
pub open spec fn reading_of(speeds: Seq<SpeedReading>, channel: u8) -> Option<SpeedReading> {
    reading_upto(speeds, channel, speeds.len() as int)
}

/// Finds the last reading of a channel.
pub fn find_reading(speeds: &Vec<SpeedReading>, channel: u8) -> (result: Option<SpeedReading>)
    ensures
        result == reading_of(speeds@, channel),
{
    let mut at: usize = speeds.len();
    while at > 0
        invariant
            at <= speeds@.len(),
            reading_of(speeds@, channel) == reading_upto(speeds@, channel, at as int),
        decreases at,
    {
        if speeds[at - 1].channel == channel {
            return Some(speeds[at - 1]);
        }
        at -= 1;
    }
    None
}

/// A number in decimal.
pub open spec fn shown(channel: u8) -> Seq<char> {
    text::decimal(channel as nat)
}

fn show(channel: u8) -> (result: String)
    ensures
        result@ == shown(channel),
{
    let mut result = String::new();
    text::push_decimal(&mut result, channel as u64);
    assert(result@ =~= shown(channel));
    result
}

/// What the channels of a fan write report.
pub ghost struct Tally {
    /// Revolutions per minute of the channels that work.
    pub rpm: names::Entries<i16>,
    /// Status of the channels that do not.
    pub unavailable: names::Entries<Seq<char>>,
    /// Channels that are not reported.
    pub missing: Seq<u8>,
    /// Channels that work but do not turn.
    pub stalled: Seq<u8>,
}

/// What the first `count` selected channels report.
pub open spec fn tallied(selected: Seq<u8>, speeds: Seq<SpeedReading>, count: int) -> Tally
    decreases count,
{
    if count <= 0 {
        Tally {
            rpm: Seq::empty(),
            unavailable: Seq::empty(),
            missing: Seq::empty(),
            stalled: Seq::empty(),
        }
    } else {
        let earlier = tallied(selected, speeds, count - 1);
        let channel = selected[count - 1];
        match reading_of(speeds, channel) {
            None => Tally { missing: earlier.missing.push(channel), ..earlier },
            Some(reading) => if reading.status == 0 && reading.rpm is Some {
                Tally {
                    rpm: names::inserted(earlier.rpm, shown(channel), reading.rpm->0),
                    stalled: if reading.rpm->0 <= 0 {
                        earlier.stalled.push(channel)
                    } else {
                        earlier.stalled
                    },
                    ..earlier
                }
            } else {
                Tally {
                    unavailable: names::inserted(
                        earlier.unavailable,
                        shown(channel),
                        "0x"@ + text::hex_padded(reading.status as nat, 2),
                    ),
                    ..earlier
                }
            },
        }
    }
}

/// The channels of the fans among the first `count` devices.
pub open spec fn fans_upto(devices: Seq<LinkDeviceView>, count: int) -> Seq<u8>
    decreases count,
{
    if count <= 0 {
        Seq::empty()
    } else if is_fan(devices[count - 1].model) {
        fans_upto(devices, count - 1).push(devices[count - 1].channel)
    } else {
        fans_upto(devices, count - 1)
    }
}

/// The channels of the fans.
pub open spec fn fan_channels_of(devices: Seq<LinkDeviceView>) -> Seq<u8> {
    fans_upto(devices, devices.len() as int)
}

/// Channels with commas between them.
pub open spec fn comma_separated(channels: Seq<u8>) -> Seq<char> {
    text::joined(Seq::new(channels.len(), |i: int| shown(channels[i])), ", "@)
}

/// The warnings that a fan write gives.
pub open spec fn warnings_of(
    alias: Seq<char>,
    expected: Option<u8>,
    fans: Seq<u8>,
    tally: Tally,
) -> Seq<Seq<char>> {
    let none = Seq::<Seq<char>>::empty();
    let counted = if expected is Some && expected->0 != fans.len() {
        none.push(
            "hub '"@ + alias + "' enumerated "@ + text::decimal(fans.len())
                + " fan subdevices; expected "@ + shown(expected->0),
        )
    } else {
        none
    };
    let available = if tally.unavailable.len() > 0 {
        counted.push(
            "hub '"@ + alias + "' reports unavailable speed channels "@ + text::joined(
                names::names(tally.unavailable),
                ", "@,
            ),
        )
    } else {
        counted
    };
    let complete = if tally.missing.len() > 0 {
        available.push(
            "hub '"@ + alias + "' omitted selected speed channels "@ + comma_separated(
                tally.missing,
            ),
        )
    } else {
        available
    };
    if tally.stalled.len() > 0 {
        complete.push(
            "hub '"@ + alias + "' reports zero RPM on channels "@ + comma_separated(
                tally.stalled,
            ),
        )
    } else {
        complete
    }
}

/// A signed number in JSON.
pub open spec fn signed_json(value: i16) -> JsonView {
    if value < 0 {
        JsonView::Number(Number::Negative(value as i64))
    } else {
        json::number_view(value as nat)
    }
}

/// Channels in JSON.
pub open spec fn channels_json(channels: Seq<u8>) -> JsonView {
    JsonView::List(Seq::new(channels.len(), |i: int| json::number_view(channels[i] as nat)))
}

/// Speeds by channel in JSON.
pub open spec fn rpm_json(rpm: names::Entries<i16>) -> JsonView {
    JsonView::Object(Seq::new(rpm.len(), |i: int| (rpm[i].0, signed_json(rpm[i].1))))
}

/// Texts by channel in JSON.
pub open spec fn texts_json(entries: names::Entries<Seq<char>>) -> JsonView {
    JsonView::Object(Seq::new(entries.len(), |i: int| (entries[i].0, JsonView::Text(entries[i].1))))
}

/// What is reported of a fan write.
pub open spec fn fan_report(
    alias: Seq<char>,
    percent: u8,
    expected: Option<u8>,
    devices: Seq<LinkDeviceView>,
    selected: Seq<u8>,
    speeds: Seq<SpeedReading>,
) -> FanWriteView {
    let fans = fan_channels_of(devices);
    let tally = tallied(selected, speeds, selected.len() as int);
    let warnings = warnings_of(alias, expected, fans, tally);
    let fields = seq![
        ("percent"@, json::number_view(percent as nat)),
        ("channels"@, channels_json(selected)),
        ("fan_channels"@, channels_json(fans)),
        ("rpm"@, rpm_json(tally.rpm)),
        ("unavailable"@, texts_json(tally.unavailable)),
        ("missing"@, channels_json(tally.missing)),
        ("stalled"@, channels_json(tally.stalled)),
    ];
    FanWriteView {
        observed: JsonView::Object(
            match expected {
                Some(count) => fields.push(
                    ("expected_fan_count"@, json::number_view(count as nat)),
                ),
                None => fields,
            },
        ),
        warning: if warnings.len() > 0 {
            Some(text::joined(warnings, "; "@))
        } else {
            None
        },
    }
}

/// Writes channels with commas between them.
pub fn comma_separated_channels(channels: &Vec<u8>) -> (result: String)
    ensures
        result@ == comma_separated(channels@),
{
    let mut parts: Vec<String> = Vec::new();
    let mut at: usize = 0;
    let ghost all = Seq::new(channels@.len(), |i: int| shown(channels@[i]));
    while at < channels.len()
        invariant
            at <= channels@.len(),
            all == Seq::new(channels@.len(), |i: int| shown(channels@[i])),
            text::texts(parts@) =~= all.take(at as int),
        decreases channels@.len() - at,
    {
        let part = show(channels[at]);
        let ghost before = parts@;
        parts.push(part);
        assert(text::texts(parts@) =~= text::texts(before).push(part@));
        at += 1;
    }
    assert(all.take(at as int) =~= all);
    text::join(&parts, ", ")
}

/// The channels of the fans.
pub fn fan_channels(devices: &Vec<LinkDevice>) -> (channels: Vec<u8>)
    ensures
        channels@ == fan_channels_of(views::list(devices@)),
{
    let mut channels: Vec<u8> = Vec::new();
    let mut at: usize = 0;
    let ghost listed = views::list(devices@);
    while at < devices.len()
        invariant
            at <= devices@.len(),
            listed == views::list(devices@),
            channels@ == fans_upto(listed, at as int),
        decreases devices@.len() - at,
    {
        assert(listed[at as int] == devices@[at as int]@);
        if device_is_fan(&devices[at]) {
            channels.push(devices[at].channel);
        }
        at += 1;
    }
    channels
}

fn signed_number(value: i16) -> (result: Json)
    ensures
        result@ == signed_json(value),
{
    if value < 0 {
        Json::Number(Number::Negative(value as i64))
    } else {
        Json::number(value as u64)
    }
}

fn channel_list(channels: &Vec<u8>) -> (result: Json)
    ensures
        result@ == channels_json(channels@),
{
    let mut items: Vec<Json> = Vec::new();
    let mut at: usize = 0;
    while at < channels.len()
        invariant
            at <= channels@.len(),
            items@.len() == at,
            forall|i: int|
                0 <= i < at ==> (#[trigger] items@[i])@ == json::number_view(channels@[i] as nat),
        decreases channels@.len() - at,
    {
        items.push(Json::number(channels[at] as u64));
        at += 1;
    }
    proof {
        json::lemma_list_view(items@);
        assert(json::list_view(items@) =~= channels_json(channels@)->List_0);
    }
    Json::List(items)
}

fn rpm_object(rpm: &NameMap<i16>) -> (result: Json)
    ensures
        result@ == rpm_json(rpm@),
{
    let mut fields: Vec<(String, Json)> = Vec::new();
    let count: usize = rpm.len();
    let mut at: usize = 0;
    let ghost all = rpm_json(rpm@)->Object_0;
    assert(json::fields_view(fields@) =~= all.take(0));
    while at < count
        invariant
            count == rpm@.len(),
            at <= count,
            all == rpm_json(rpm@)->Object_0,
            json::fields_view(fields@) == all.take(at as int),
        decreases count - at,
    {
        json::push_field(&mut fields, rpm.key_at(at).as_str(), signed_number(*rpm.value_at(at)));
        assert(all.take(at + 1) =~= all.take(at as int).push(all[at as int]));
        at += 1;
    }
    assert(all.take(count as int) =~= all);
    Json::Object(fields)
}

fn text_object(entries: &NameMap<String>) -> (result: Json)
    ensures
        result@ == texts_json(entries@),
{
    let mut fields: Vec<(String, Json)> = Vec::new();
    let count: usize = entries.len();
    let mut at: usize = 0;
    let ghost all = texts_json(entries@)->Object_0;
    assert(json::fields_view(fields@) =~= all.take(0));
    while at < count
        invariant
            count == entries@.len(),
            at <= count,
            all == texts_json(entries@)->Object_0,
            json::fields_view(fields@) == all.take(at as int),
        decreases count - at,
    {
        json::push_field(
            &mut fields,
            entries.key_at(at).as_str(),
            Json::string(entries.value_at(at).as_str()),
        );
        assert(all.take(at + 1) =~= all.take(at as int).push(all[at as int]));
        at += 1;
    }
    assert(all.take(count as int) =~= all);
    Json::Object(fields)
}

/// What the channels of a fan write report.
struct ChannelTally {
    rpm: NameMap<i16>,
    unavailable: NameMap<String>,
    missing: Vec<u8>,
    stalled: Vec<u8>,
}

impl ChannelTally {
    spec fn tally(self) -> Tally {
        Tally {
            rpm: self.rpm@,
            unavailable: self.unavailable@,
            missing: self.missing@,
            stalled: self.stalled@,
        }
    }
}

fn tally_channels(selected: &Vec<u8>, speeds: &Vec<SpeedReading>) -> (result: ChannelTally)
    ensures
        result.tally() == tallied(selected@, speeds@, selected@.len() as int),
{
    let mut result = ChannelTally {
        rpm: NameMap::new(),
        unavailable: NameMap::new(),
        missing: Vec::new(),
        stalled: Vec::new(),
    };
    let mut at: usize = 0;
    assert(result.missing@ =~= Seq::<u8>::empty());
    assert(result.stalled@ =~= Seq::<u8>::empty());
    while at < selected.len()
        invariant
            at <= selected@.len(),
            result.tally() == tallied(selected@, speeds@, at as int),
        decreases selected@.len() - at,
    {
        let channel: u8 = selected[at];
        match find_reading(speeds, channel) {
            None => result.missing.push(channel),
            Some(reading) => {
                let value = if reading.status == 0 {
                    reading.rpm
                } else {
                    None
                };
                match value {
                    Some(rpm) => {
                        result.rpm.insert(show(channel), rpm);
                        if rpm <= 0 {
                            result.stalled.push(channel);
                        }
                    },
                    None => {
                        let mut status = "0x".to_owned();
                        text::push_hex(&mut status, reading.status as u64, 2);
                        result.unavailable.insert(show(channel), status);
                    },
                }
            },
        }
        at += 1;
    }
    result
}

fn push_warning(warnings: &mut Vec<String>, message: String)
    ensures
        text::texts(final(warnings)@) == text::texts(old(warnings)@).push(message@),
{
    warnings.push(message);
    assert(text::texts(warnings@) =~= text::texts(old(warnings)@).push(message@));
}

fn collect_warnings(
    alias: &str,
    expected: Option<u8>,
    fans: &Vec<u8>,
    tally: &ChannelTally,
) -> (warnings: Vec<String>)
    ensures
        text::texts(warnings@) == warnings_of(alias@, expected, fans@, tally.tally()),
{
    let mut warnings: Vec<String> = Vec::new();
    assert(text::texts(warnings@) =~= Seq::<Seq<char>>::empty());
    if let Some(count) = expected {
        if count as usize != fans.len() {
            let mut message = text::concat3("hub '", alias, "' enumerated ");
            text::push_decimal(&mut message, fans.len() as u64);
            message.append(" fan subdevices; expected ");
            text::push_decimal(&mut message, count as u64);
            push_warning(&mut warnings, message);
        }
    }
    if tally.unavailable.len() > 0 {
        let keys = tally.unavailable.keys();
        let list = text::join(&keys, ", ");
        push_warning(
            &mut warnings,
            text::concat4(
                "hub '",
                alias,
                "' reports unavailable speed channels ",
                list.as_str(),
            ),
        );
    }
    if tally.missing.len() > 0 {
        let list = comma_separated_channels(&tally.missing);
        push_warning(
            &mut warnings,
            text::concat4("hub '", alias, "' omitted selected speed channels ", list.as_str()),
        );
    }
    if tally.stalled.len() > 0 {
        let list = comma_separated_channels(&tally.stalled);
        push_warning(
            &mut warnings,
            text::concat4("hub '", alias, "' reports zero RPM on channels ", list.as_str()),
        );
    }
    warnings
}

/// Reports a fan write: the channels it went to, what they report, and what is wrong.
pub fn fan_write_result(
    alias: &str,
    percent: u8,
    expected_fan_count: Option<u8>,
    topology: &LinkTopology,
    selected: &Vec<u8>,
    speeds: &Vec<SpeedReading>,
) -> (write: FanWrite)
    ensures
        write@ == fan_report(
            alias@,
            percent,
            expected_fan_count,
            topology@.devices,
            selected@,
            speeds@,
        ),
{
    let fans = fan_channels(&topology.devices);
    let tally = tally_channels(selected, speeds);
    let warnings = collect_warnings(alias, expected_fan_count, &fans, &tally);
    let mut fields: Vec<(String, Json)> = Vec::new();
    json::push_field(&mut fields, "percent", Json::number(percent as u64));
    json::push_field(&mut fields, "channels", channel_list(selected));
    json::push_field(&mut fields, "fan_channels", channel_list(&fans));
    json::push_field(&mut fields, "rpm", rpm_object(&tally.rpm));
    json::push_field(&mut fields, "unavailable", text_object(&tally.unavailable));
    json::push_field(&mut fields, "missing", channel_list(&tally.missing));
    json::push_field(&mut fields, "stalled", channel_list(&tally.stalled));
    if let Some(count) = expected_fan_count {
        json::push_field(&mut fields, "expected_fan_count", Json::number(count as u64));
    }
    proof {
        let wanted = fan_report(
            alias@,
            percent,
            expected_fan_count,
            topology@.devices,
            selected@,
            speeds@,
        );
        assert(json::fields_view(fields@) =~= wanted.observed->Object_0);
        assert(text::texts(warnings@).len() == warnings@.len());
    }
    FanWrite {
        observed: Json::Object(fields),
        warning: if warnings.len() > 0 {
            Some(text::join(&warnings, "; "))
        } else {
            None
        },
    }
}

} // verus!
