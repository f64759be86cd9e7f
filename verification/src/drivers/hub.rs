//! Conversations with a Corsair iCUE LINK System Hub over HID.
//!
//! Every request to a hub is a series of transfers: a packet and its response. [`HubJob`]
//! decides each transfer; its caller performs it and hands back what came of it.

use vstd::prelude::*;

use crate::config::DeviceConfig;
use crate::drivers::corsair;
use crate::drivers::corsair::fan_write_result;
use crate::drivers::corsair::parse_devices;
use crate::drivers::corsair::parse_speeds;
use crate::drivers::corsair::parse_temperatures;
use crate::drivers::corsair::select_channels;
use crate::drivers::corsair::LinkTopology;
use crate::drivers::corsair::TopologyView;
use crate::drivers::corsair::DT_DEVICES;
use crate::drivers::corsair::DT_SET_COLOR;
use crate::drivers::corsair::DT_SET_SPEED;
use crate::drivers::corsair::DT_SPEEDS;
use crate::drivers::corsair::DT_TEMPERATURES;
use crate::drivers::corsair::EP_DEVICES;
use crate::drivers::corsair::EP_SET_COLOR;
use crate::drivers::corsair::EP_SET_SPEED;
use crate::drivers::corsair::EP_SPEEDS;
use crate::drivers::corsair::EP_TEMPERATURES;
use crate::drivers::corsair::HEADER;
use crate::drivers::corsair::WRITE_SIZE;
use crate::drivers::diagnostics;
use crate::drivers::diagnostics::diagnostic_dump;
use crate::drivers::FanWrite;
use crate::drivers::FanWriteView;
use crate::drivers::Reply;
use crate::error;
use crate::error::ErrorView;
use crate::error::FeatherError;
use crate::error::Result;
use crate::json;
use crate::json::Json;
use crate::json::JsonView;
use crate::names;
use crate::names::NameMap;
use crate::search;
use crate::text;
use crate::types::DescriptorView;
use crate::types::DeviceDescriptor;
use crate::views;

verus! {

fn driver_error(message: String) -> (error: FeatherError)
    ensures
        error@ == ErrorView::Driver(message@),
{
    FeatherError::Driver(message)
}

// ---------------------------------------------------------------- HID devices

/// What HID enumeration reports of a device.
#[derive(Debug)]
pub struct HidInfo {
    /// USB vendor ID.
    pub vendor_id: u16,
    /// USB product ID.
    pub product_id: u16,
    /// HID interface number.
    pub interface_number: i32,
    /// Serial number.
    pub serial_number: Option<String>,
    /// Product name.
    pub product_string: Option<String>,
    /// Path to open.
    pub path: String,
}

/// Whether a selector means a device.
pub open spec fn matches_info(info: HidInfo, config: DeviceConfig) -> bool {
    match config {
        DeviceConfig::CorsairIcueLink { vendor_id, product_id, unique_id, interface, .. } => {
            &&& info.vendor_id == vendor_id
            &&& info.product_id == product_id
            &&& info.interface_number == interface
            &&& match unique_id {
                None => true,
                Some(expected) => info.serial_number matches Some(serial) && text::lower(serial@)
                    == text::lower(expected@),
            }
        },
        _ => false,
    }
}

/// The devices that a selector means.
pub open spec fn match_at(infos: Seq<HidInfo>, config: DeviceConfig) -> spec_fn(int) -> Option<
    int,
> {
    |at: int|
        if matches_info(infos[at], config) {
            Some(at)
        } else {
            None
        }
}

/// Whether a selector means a device.
pub fn matches_device(info: &HidInfo, config: &DeviceConfig) -> (result: bool)
    ensures
        result == matches_info(*info, *config),
{
    match config {
        DeviceConfig::CorsairIcueLink { vendor_id, product_id, unique_id, interface, .. } => {
            if info.vendor_id != *vendor_id || info.product_id != *product_id
                || info.interface_number != *interface {
                return false;
            }
            match unique_id {
                None => true,
                Some(expected) => match &info.serial_number {
                    Some(serial) => text::same_ignoring_case(serial.as_str(), expected.as_str()),
                    None => false,
                },
            }
        },
        _ => false,
    }
}

/// The serial number of a device for identifiers.
pub open spec fn serial_of(info: HidInfo) -> Seq<char> {
    match info.serial_number {
        Some(serial) => serial@,
        None => "no-serial"@,
    }
}

/// How a hub is described.
pub open spec fn described(info: HidInfo) -> DescriptorView {
    let details = Seq::<(Seq<char>, Seq<char>)>::empty();
    let details = names::inserted(
        details,
        "vendor_id"@,
        text::hex_padded(info.vendor_id as nat, 4),
    );
    let details = names::inserted(
        details,
        "product_id"@,
        text::hex_padded(info.product_id as nat, 4),
    );
    let details = names::inserted(details, "unique_id"@, serial_of(info));
    let details = names::inserted(
        details,
        "interface"@,
        text::signed_decimal(info.interface_number as int),
    );
    let details = names::inserted(details, "path"@, info.path@);
    DescriptorView {
        id: "hid:"@ + text::hex_padded(info.vendor_id as nat, 4) + ":"@ + text::hex_padded(
            info.product_id as nat,
            4,
        ) + ":"@ + serial_of(info) + ":"@ + text::signed_decimal(info.interface_number as int),
        driver: "corsair-icue-link"@,
        name: match info.product_string {
            Some(product) => product@,
            None => "Corsair iCUE LINK System Hub"@,
        },
        details,
    }
}

fn hex4(value: u16) -> (result: String)
    ensures
        result@ == text::hex_padded(value as nat, 4),
{
    let mut result = String::new();
    text::push_hex(&mut result, value as u64, 4);
    assert(result@ =~= text::hex_padded(value as nat, 4));
    result
}

/// Describes a hub.
pub fn descriptor(info: &HidInfo) -> (result: DeviceDescriptor)
    ensures
        result@ == described(*info),
{
    let serial = match &info.serial_number {
        Some(serial) => serial.as_str(),
        None => "no-serial",
    };
    let mut details: NameMap<String> = NameMap::new();
    details.insert("vendor_id".to_owned(), hex4(info.vendor_id));
    details.insert("product_id".to_owned(), hex4(info.product_id));
    details.insert("unique_id".to_owned(), serial.to_owned());
    let mut interface = String::new();
    text::push_signed(&mut interface, info.interface_number as i64);
    assert(interface@ =~= text::signed_decimal(info.interface_number as int));
    details.insert("interface".to_owned(), interface);
    details.insert("path".to_owned(), info.path.clone());
    let mut id = "hid:".to_owned();
    text::push_hex(&mut id, info.vendor_id as u64, 4);
    id.append(":");
    text::push_hex(&mut id, info.product_id as u64, 4);
    id.append(":");
    id.append(serial);
    id.append(":");
    text::push_signed(&mut id, info.interface_number as i64);
    DeviceDescriptor {
        id,
        driver: "corsair-icue-link".to_owned(),
        name: match &info.product_string {
            Some(product) => product.clone(),
            None => "Corsair iCUE LINK System Hub".to_owned(),
        },
        details,
    }
}

/// Whether some device is a Corsair hub.
pub open spec fn any_corsair(configured: names::Entries<DeviceConfig>) -> bool {
    exists|i: int|
        0 <= i < configured.len() && ((#[trigger] configured[i]).1 is CorsairIcueLink)
}

/// Whether a configuration has any Corsair hub, so that HID devices need enumerating.
pub fn needs_hid(configured: &NameMap<DeviceConfig>) -> (result: bool)
    ensures
        result == any_corsair(configured@),
{
    let mut at: usize = 0;
    let count: usize = configured.len();
    while at < count
        invariant
            count == configured@.len(),
            at <= count,
            forall|i: int| 0 <= i < at ==> !((#[trigger] configured@[i]).1 is CorsairIcueLink),
        decreases count - at,
    {
        if let DeviceConfig::CorsairIcueLink { .. } = configured.value_at(at) {
            assert(configured@[at as int].1 is CorsairIcueLink);
            return true;
        }
        at += 1;
    }
    false
}

/// The hubs that the selectors from `at` on mean, after those found so far; a selector that
/// means more than one is an error.
pub open spec fn configured_hubs(
    configured: names::Entries<DeviceConfig>,
    infos: Seq<HidInfo>,
    at: int,
    found: Seq<DescriptorView>,
) -> Reply<Seq<DescriptorView>>
    decreases configured.len() - at,
{
    if at >= configured.len() {
        Ok(found)
    } else {
        let check = match_at(infos, configured[at].1);
        let count = infos.len() as int;
        match search::first(check, 0, count) {
            None => configured_hubs(configured, infos, at + 1, found),
            Some(info) => if search::first(check, info + 1, count) is Some {
                Err(
                    ErrorView::Driver(
                        "device alias '"@ + configured[at].0
                            + "' matches more than one Corsair hub; set unique_id"@,
                    ),
                )
            } else {
                configured_hubs(
                    configured,
                    infos,
                    at + 1,
                    found.push(
                        crate::drivers::wireview::with_alias(
                            described(infos[info]),
                            configured[at].0,
                        ),
                    ),
                )
            },
        }
    }
}

fn find_match(infos: &Vec<HidInfo>, config: &DeviceConfig, from: usize) -> (found: Option<usize>)
    requires
        from <= infos@.len(),
    ensures
        match search::first(match_at(infos@, *config), from as int, infos@.len() as int) {
            Some(at) => found is Some && found->0 == at && from <= at < infos@.len() && at
                < usize::MAX,
            None => found is None,
        },
{
    let mut at: usize = from;
    let ghost check = match_at(infos@, *config);
    while at < infos.len()
        invariant
            from <= at <= infos@.len(),
            check == match_at(infos@, *config),
            search::first(check, from as int, infos@.len() as int) == search::first(
                check,
                at as int,
                infos@.len() as int,
            ),
        decreases infos@.len() - at,
    {
        if matches_device(&infos[at], config) {
            assert(check(at as int) == Some(at as int));
            return Some(at);
        }
        at += 1;
    }
    None
}

/// Describes the configured hubs that were found.
///
/// # Errors
///
/// Returns an error when a selector means more than one hub.
pub fn discover_configured(configured: &NameMap<DeviceConfig>, infos: &Vec<HidInfo>) -> (result:
    Result<Vec<DeviceDescriptor>>)
    ensures
        crate::drivers::descriptors(result) == configured_hubs(
            configured@,
            infos@,
            0,
            Seq::empty(),
        ),
{
    let mut found: Vec<DeviceDescriptor> = Vec::new();
    let mut at: usize = 0;
    let count: usize = configured.len();
    assert(views::list(found@) =~= Seq::<DescriptorView>::empty());
    while at < count
        invariant
            count == configured@.len(),
            at <= count,
            configured_hubs(configured@, infos@, 0, Seq::empty()) == configured_hubs(
                configured@,
                infos@,
                at as int,
                views::list(found@),
            ),
        decreases count - at,
    {
        let config = configured.value_at(at);
        if let Some(info) = find_match(infos, config, 0) {
            if find_match(infos, config, info + 1).is_some() {
                return Err(
                    driver_error(
                        text::concat3(
                            "device alias '",
                            configured.key_at(at).as_str(),
                            "' matches more than one Corsair hub; set unique_id",
                        ),
                    ),
                );
            }
            let mut device = descriptor(&infos[info]);
            device.details.insert("alias".to_owned(), configured.key_at(at).clone());
            let ghost before = found@;
            found.push(device);
            assert(views::list(found@) =~= views::list(before).push(device@));
        }
        at += 1;
    }
    Ok(found)
}

/// The System Hubs among the first `count` HID devices.
pub open spec fn hubs_upto(infos: Seq<HidInfo>, count: int) -> Seq<DescriptorView>
    decreases count,
{
    if count <= 0 {
        Seq::empty()
    } else if infos[count - 1].vendor_id == 0x1b1c && infos[count - 1].product_id == 0x0c3f {
        hubs_upto(infos, count - 1).push(described(infos[count - 1]))
    } else {
        hubs_upto(infos, count - 1)
    }
}

/// Describes every System Hub.
pub fn discover_all(infos: &Vec<HidInfo>) -> (found: Vec<DeviceDescriptor>)
    ensures
        views::list(found@) == hubs_upto(infos@, infos@.len() as int),
{
    let mut found: Vec<DeviceDescriptor> = Vec::new();
    let mut at: usize = 0;
    assert(views::list(found@) =~= hubs_upto(infos@, 0));
    while at < infos.len()
        invariant
            at <= infos@.len(),
            views::list(found@) == hubs_upto(infos@, at as int),
        decreases infos@.len() - at,
    {
        if infos[at].vendor_id == 0x1b1c && infos[at].product_id == 0x0c3f {
            let device = descriptor(&infos[at]);
            let ghost before = found@;
            found.push(device);
            assert(views::list(found@) =~= views::list(before).push(device@));
        }
        at += 1;
    }
    found
}

/// The HID device to open for a hub.
///
/// # Errors
///
/// Returns an error when no device matches the selector.
pub fn select_hub<'a>(infos: &'a Vec<HidInfo>, config: &DeviceConfig) -> (result: Result<
    &'a HidInfo,
>)
    ensures
        match search::first(match_at(infos@, *config), 0, infos@.len() as int) {
            Some(at) => 0 <= at < infos@.len() && result == Ok::<&HidInfo, FeatherError>(
                &infos@[at],
            ),
            None => result matches Err(error) && error@ == ErrorView::Driver(
                "configured Corsair hub was not found"@,
            ),
        },
{
    match find_match(infos, config, 0) {
        Some(at) => Ok(&infos[at]),
        None => Err(driver_error("configured Corsair hub was not found".to_owned())),
    }
}

/// The error of a HID operation.
pub fn hid_error(context: &str, reason: &str) -> (error: FeatherError)
    ensures
        error@ == ErrorView::Driver(context@ + ": "@ + reason@),
{
    driver_error(text::concat3(context, ": ", reason))
}

// ---------------------------------------------------------------- transfers

/// A request to a hub.
#[derive(Debug)]
pub enum Transfer {
    /// Give control to software.
    SoftwareMode,
    /// Give control back to the hub.
    HardwareMode,
    /// Close an endpoint.
    Close(u8),
    /// Open an endpoint.
    Open(u8),
    /// Read an endpoint.
    Read(u8),
    /// Write to the open endpoint.
    Write(Vec<u8>),
    /// Close the color endpoint.
    CloseColor,
    /// Open the color endpoint.
    OpenColor,
    /// Write to the color endpoint.
    WriteColor(Vec<u8>),
}

/// See [`Transfer`].
pub ghost enum TransferView {
    /// See [`Transfer::SoftwareMode`].
    SoftwareMode,
    /// See [`Transfer::HardwareMode`].
    HardwareMode,
    /// See [`Transfer::Close`].
    Close(u8),
    /// See [`Transfer::Open`].
    Open(u8),
    /// See [`Transfer::Read`].
    Read(u8),
    /// See [`Transfer::Write`].
    Write(Seq<u8>),
    /// See [`Transfer::CloseColor`].
    CloseColor,
    /// See [`Transfer::OpenColor`].
    OpenColor,
    /// See [`Transfer::WriteColor`].
    WriteColor(Seq<u8>),
}

impl View for Transfer {
    type V = TransferView;

    open spec fn view(&self) -> TransferView {
        match *self {
            Transfer::SoftwareMode => TransferView::SoftwareMode,
            Transfer::HardwareMode => TransferView::HardwareMode,
            Transfer::Close(endpoint) => TransferView::Close(endpoint),
            Transfer::Open(endpoint) => TransferView::Open(endpoint),
            Transfer::Read(endpoint) => TransferView::Read(endpoint),
            Transfer::Write(data) => TransferView::Write(data@),
            Transfer::CloseColor => TransferView::CloseColor,
            Transfer::OpenColor => TransferView::OpenColor,
            Transfer::WriteColor(data) => TransferView::WriteColor(data@),
        }
    }
}

/// The bytes of a request: its command and its data.
pub open spec fn request_bytes(transfer: TransferView) -> Seq<u8> {
    match transfer {
        TransferView::SoftwareMode => seq![0x01u8, 0x03u8, 0x00u8, 0x02u8],
        TransferView::HardwareMode => seq![0x01u8, 0x03u8, 0x00u8, 0x01u8],
        TransferView::Close(endpoint) => seq![0x05u8, 0x01u8, 0x01u8, endpoint],
        TransferView::Open(endpoint) => seq![0x0du8, 0x01u8, endpoint],
        TransferView::Read(endpoint) => seq![0x08u8, 0x01u8, endpoint],
        TransferView::Write(data) => seq![0x06u8, 0x01u8] + data,
        TransferView::CloseColor => seq![0x05u8, 0x01u8, EP_SET_COLOR],
        TransferView::OpenColor => seq![0x0du8, 0x00u8, EP_SET_COLOR],
        TransferView::WriteColor(data) => seq![0x06u8, 0x00u8] + data,
    }
}

/// The packet of a request: zeros but for a one before the request and the request itself.
pub open spec fn packet_of(request: Seq<u8>) -> Reply<Seq<u8>> {
    if HEADER + request.len() > WRITE_SIZE {
        Err(ErrorView::Driver("Corsair HID packet is too large"@))
    } else {
        Ok(
            Seq::new(
                WRITE_SIZE as nat,
                |i: int|
                    if i == 2 {
                        1u8
                    } else if HEADER <= i < HEADER + request.len() {
                        request[i - HEADER]
                    } else {
                        0u8
                    },
            ),
        )
    }
}

/// The packet of a request carries the request.
pub proof fn law_packet_carries_request(request: Seq<u8>)
    requires
        packet_of(request) is Ok,
    ensures
        packet_of(request)->Ok_0.len() == WRITE_SIZE,
        packet_of(request)->Ok_0.subrange(HEADER as int, HEADER + request.len()) == request,
{
    assert(packet_of(request)->Ok_0.subrange(HEADER as int, HEADER + request.len()) =~= request);
}

/// The bytes of a packet.
pub open spec fn packet_outcome(result: Result<Vec<u8>>) -> Reply<Seq<u8>> {
    match result {
        Ok(bytes) => Ok(bytes@),
        Err(error) => Err(error@),
    }
}

fn prefixed(first: u8, second: u8, data: &Vec<u8>) -> (result: Vec<u8>)
    ensures
        result@ == seq![first, second] + data@,
{
    let mut result: Vec<u8> = vec![first, second];
    result.extend_from_slice(data.as_slice());
    assert(result@ =~= seq![first, second] + data@);
    result
}

impl Transfer {
    fn request(&self) -> (bytes: Vec<u8>)
        ensures
            bytes@ == request_bytes(self@),
    {
        let bytes: Vec<u8> = match self {
            Transfer::SoftwareMode => vec![0x01u8, 0x03u8, 0x00u8, 0x02u8],
            Transfer::HardwareMode => vec![0x01u8, 0x03u8, 0x00u8, 0x01u8],
            Transfer::Close(endpoint) => vec![0x05u8, 0x01u8, 0x01u8, *endpoint],
            Transfer::Open(endpoint) => vec![0x0du8, 0x01u8, *endpoint],
            Transfer::Read(endpoint) => vec![0x08u8, 0x01u8, *endpoint],
            Transfer::Write(data) => prefixed(0x06, 0x01, data),
            Transfer::CloseColor => vec![0x05u8, 0x01u8, EP_SET_COLOR],
            Transfer::OpenColor => vec![0x0du8, 0x00u8, EP_SET_COLOR],
            Transfer::WriteColor(data) => prefixed(0x06, 0x00, data),
        };
        assert(bytes@ =~= request_bytes(self@));
        bytes
    }

    /// The packet to write.
    ///
    /// # Errors
    ///
    /// Returns an error when the data does not fit.
    pub fn packet(&self) -> (result: Result<Vec<u8>>)
        ensures
            packet_outcome(result) == packet_of(request_bytes(self@)),
    {
        let request = self.request();
        if request.len() > WRITE_SIZE - HEADER {
            return Err(driver_error("Corsair HID packet is too large".to_owned()));
        }
        let mut packet: Vec<u8> = Vec::new();
        let mut at: usize = 0;
        let ghost wanted = packet_of(request@)->Ok_0;
        while at < WRITE_SIZE
            invariant
                at <= WRITE_SIZE,
                HEADER + request@.len() <= WRITE_SIZE,
                wanted == packet_of(request@)->Ok_0,
                packet@ =~= wanted.take(at as int),
            decreases WRITE_SIZE - at,
        {
            if at == 2 {
                packet.push(1);
            } else if HEADER <= at && at < HEADER + request.len() {
                packet.push(request[at - HEADER]);
            } else {
                packet.push(0);
            }
            at += 1;
        }
        assert(wanted.take(at as int) =~= wanted);
        Ok(packet)
    }
}

// ---------------------------------------------------------------- payloads

/// The data of an endpoint write: the length of what follows, two zeros, the data type, and the
/// payload.
pub open spec fn write_data(data_type: u8, payload: Seq<u8>) -> Seq<u8> {
    corsair::le_bytes(payload.len() as int + 2) + seq![0u8, 0u8, data_type, 0u8] + payload
}

/// The payload of a speed write: the number of channels, then channel and percentage of each.
pub open spec fn speed_payload(channels: Seq<u8>, percent: u8) -> Seq<u8> {
    let duty = if percent > 100 {
        100u8
    } else {
        percent
    };
    Seq::new(
        4 * channels.len() + 1,
        |i: int|
            if i == 0 {
                channels.len() as u8
            } else if (i - 1) % 4 == 0 {
                channels[(i - 1) / 4]
            } else if (i - 1) % 4 == 2 {
                duty
            } else {
                0u8
            },
    )
}

/// The payload of a color write: the color once for every LED.
pub open spec fn color_payload(led_count: u16, rgb: [u8; 3]) -> Seq<u8> {
    Seq::new((3 * led_count) as nat, |i: int| rgb[i % 3])
}

fn build_write(data_type: u8, payload: &Vec<u8>) -> (data: Vec<u8>)
    requires
        payload@.len() + 2 <= 0xffff,
    ensures
        data@ == write_data(data_type, payload@),
{
    let length: usize = payload.len() + 2;
    let mut data: Vec<u8> = vec![
        (length % 256) as u8,
        (length / 256) as u8,
        0u8,
        0u8,
        data_type,
        0u8,
    ];
    data.extend_from_slice(payload.as_slice());
    assert(data@ =~= write_data(data_type, payload@));
    data
}

fn build_speeds(channels: &Vec<u8>, percent: u8) -> (payload: Vec<u8>)
    requires
        channels@.len() <= 255,
    ensures
        payload@ == speed_payload(channels@, percent),
{
    let duty: u8 = if percent > 100 {
        100
    } else {
        percent
    };
    let mut payload: Vec<u8> = Vec::new();
    payload.push(channels.len() as u8);
    let mut at: usize = 0;
    let ghost wanted = speed_payload(channels@, percent);
    while at < channels.len()
        invariant
            at <= channels@.len() <= 255,
            wanted == speed_payload(channels@, percent),
            duty == (if percent > 100 {
                100u8
            } else {
                percent
            }),
            payload@ =~= wanted.take(4 * at + 1),
        decreases channels@.len() - at,
    {
        let ghost before = payload@;
        payload.push(channels[at]);
        payload.push(0);
        payload.push(duty);
        payload.push(0);
        proof {
            let base = 4 * at + 1;
            assert(wanted[base] == channels@[at as int]);
            assert(wanted[base + 1] == 0);
            assert(wanted[base + 2] == duty);
            assert(wanted[base + 3] == 0);
            assert(payload@ =~= wanted.take(4 * (at + 1) + 1));
        }
        at += 1;
    }
    assert(wanted.take(4 * at + 1) =~= wanted);
    payload
}

fn build_colors(led_count: u16, rgb: [u8; 3]) -> (payload: Vec<u8>)
    ensures
        payload@ == color_payload(led_count, rgb),
{
    let mut payload: Vec<u8> = Vec::new();
    let mut led: u16 = 0;
    let ghost wanted = color_payload(led_count, rgb);
    while led < led_count
        invariant
            led <= led_count,
            wanted == color_payload(led_count, rgb),
            payload@ =~= wanted.take(3 * led),
        decreases led_count - led,
    {
        payload.push(rgb[0]);
        payload.push(rgb[1]);
        payload.push(rgb[2]);
        proof {
            let base = 3 * led;
            assert(wanted[base] == rgb[0]);
            assert(wanted[base + 1] == rgb[1]);
            assert(wanted[base + 2] == rgb[2]);
        }
        led += 1;
    }
    assert(wanted.take(3 * led) =~= wanted);
    payload
}

// ---------------------------------------------------------------- jobs

/// What a hub is asked to do.
#[derive(Debug)]
pub enum HubTask {
    /// Read a temperature channel.
    Temperature {
        /// Zero-based channel.
        channel: u8,
    },
    /// Set fans to a duty.
    Fans {
        /// Channels, or none for all.
        channels: Vec<u32>,
        /// Duty.
        percent: u8,
        /// Expected fan subdevices.
        expected_fan_count: Option<u8>,
    },
    /// Set the lights to a color.
    Rgb {
        /// Number of LEDs.
        led_count: u16,
        /// Color.
        rgb: [u8; 3],
    },
    /// Give control back to the hub.
    Release,
    /// Read everything for diagnostics.
    Dump {
        /// Expected fan subdevices.
        expected_fan_count: Option<u8>,
    },
}

/// See [`HubTask`].
pub ghost enum TaskView {
    /// See [`HubTask::Temperature`].
    Temperature {
        /// Zero-based channel.
        channel: u8,
    },
    /// See [`HubTask::Fans`].
    Fans {
        /// Channels, or none for all.
        channels: Seq<u32>,
        /// Duty.
        percent: u8,
        /// Expected fan subdevices.
        expected_fan_count: Option<u8>,
    },
    /// See [`HubTask::Rgb`].
    Rgb {
        /// Number of LEDs.
        led_count: u16,
        /// Color.
        rgb: [u8; 3],
    },
    /// See [`HubTask::Release`].
    Release,
    /// See [`HubTask::Dump`].
    Dump {
        /// Expected fan subdevices.
        expected_fan_count: Option<u8>,
    },
}

impl View for HubTask {
    type V = TaskView;

    open spec fn view(&self) -> TaskView {
        match *self {
            HubTask::Temperature { channel } => TaskView::Temperature { channel },
            HubTask::Fans { channels, percent, expected_fan_count } => TaskView::Fans {
                channels: channels@,
                percent,
                expected_fan_count,
            },
            HubTask::Rgb { led_count, rgb } => TaskView::Rgb { led_count, rgb },
            HubTask::Release => TaskView::Release,
            HubTask::Dump { expected_fan_count } => TaskView::Dump { expected_fan_count },
        }
    }
}

impl HubTask {
    /// The same task again.
    pub fn copy(&self) -> (task: HubTask)
        ensures
            task@ == self@,
    {
        match self {
            HubTask::Temperature { channel } => HubTask::Temperature { channel: *channel },
            HubTask::Fans { channels, percent, expected_fan_count } => HubTask::Fans {
                channels: channels.clone(),
                percent: *percent,
                expected_fan_count: *expected_fan_count,
            },
            HubTask::Rgb { led_count, rgb } => HubTask::Rgb { led_count: *led_count, rgb: *rgb },
            HubTask::Release => HubTask::Release,
            HubTask::Dump { expected_fan_count } => HubTask::Dump {
                expected_fan_count: *expected_fan_count,
            },
        }
    }
}

/// What a hub was last told.
#[derive(Clone, Copy, Debug, PartialEq, Eq, Structural)]
pub struct HubModes {
    /// Software is in control.
    pub software: bool,
    /// The color endpoint is open.
    pub color_open: bool,
}

impl View for HubModes {
    type V = HubModes;

    open spec fn view(&self) -> HubModes {
        *self
    }
}

/// What came of a job.
#[derive(Debug)]
pub enum HubReport {
    /// A temperature in tenths of a degree.
    Tenths(i16),
    /// A fan write.
    Fans(FanWrite),
    /// A color write.
    Rgb(Json),
    /// The hub is in control.
    Released,
    /// A diagnostic dump.
    Dump(String),
}

/// See [`HubReport`].
pub ghost enum ReportView {
    /// See [`HubReport::Tenths`].
    Tenths(i16),
    /// See [`HubReport::Fans`].
    Fans(FanWriteView),
    /// See [`HubReport::Rgb`].
    Rgb(JsonView),
    /// See [`HubReport::Released`].
    Released,
    /// See [`HubReport::Dump`].
    Dump(Seq<char>),
}

impl View for HubReport {
    type V = ReportView;

    open spec fn view(&self) -> ReportView {
        match *self {
            HubReport::Tenths(tenths) => ReportView::Tenths(tenths),
            HubReport::Fans(write) => ReportView::Fans(write@),
            HubReport::Rgb(observed) => ReportView::Rgb(observed@),
            HubReport::Released => ReportView::Released,
            HubReport::Dump(dump) => ReportView::Dump(dump@),
        }
    }
}

/// What the caller of a job does next.
#[derive(Debug)]
pub enum HubAction {
    /// Wait, send a packet, and read its response.
    Transfer {
        /// Milliseconds to wait before.
        pause_ms: u64,
        /// The request.
        transfer: Transfer,
    },
    /// Report the outcome.
    Finish(Result<HubReport>),
}

/// See [`HubAction`].
pub ghost enum HubActionView {
    /// See [`HubAction::Transfer`].
    Transfer {
        /// Milliseconds to wait before.
        pause_ms: u64,
        /// The request.
        transfer: TransferView,
    },
    /// See [`HubAction::Finish`].
    Finish(Reply<ReportView>),
}

impl View for HubAction {
    type V = HubActionView;

    open spec fn view(&self) -> HubActionView {
        match *self {
            HubAction::Transfer { pause_ms, transfer } => HubActionView::Transfer {
                pause_ms,
                transfer: transfer@,
            },
            HubAction::Finish(result) => HubActionView::Finish(views::outcome(result)),
        }
    }
}

/// What came of a transfer.
#[derive(Debug)]
pub enum HubEvent {
    /// The response.
    Answer(Vec<u8>),
    /// The failure.
    Failed(FeatherError),
}

/// See [`HubEvent`].
pub ghost enum HubEventView {
    /// See [`HubEvent::Answer`].
    Answer(Seq<u8>),
    /// See [`HubEvent::Failed`].
    Failed(ErrorView),
}

impl View for HubEvent {
    type V = HubEventView;

    open spec fn view(&self) -> HubEventView {
        match *self {
            HubEvent::Answer(bytes) => HubEventView::Answer(bytes@),
            HubEvent::Failed(error) => HubEventView::Failed(error@),
        }
    }
}

/// What an endpoint is read for.
#[derive(Debug)]
pub enum Purpose {
    /// A temperature.
    Temperatures,
    /// The devices before a fan write.
    Devices,
    /// The speeds before a fan write.
    SpeedsBefore {
        /// The devices.
        topology: LinkTopology,
    },
    /// The speeds after a fan write.
    SpeedsAfter {
        /// The devices.
        topology: LinkTopology,
        /// The channels written.
        selected: Vec<u8>,
    },
    /// The devices of a dump.
    DumpDevices,
    /// The speeds of a dump.
    DumpSpeeds {
        /// The response with the devices.
        devices: Vec<u8>,
    },
    /// The temperatures of a dump.
    DumpTemperatures {
        /// The response with the devices.
        devices: Vec<u8>,
        /// The response with the speeds.
        speeds: Vec<u8>,
    },
}

/// See [`Purpose`].
pub ghost enum PurposeView {
    /// See [`Purpose::Temperatures`].
    Temperatures,
    /// See [`Purpose::Devices`].
    Devices,
    /// See [`Purpose::SpeedsBefore`].
    SpeedsBefore {
        /// The devices.
        topology: TopologyView,
    },
    /// See [`Purpose::SpeedsAfter`].
    SpeedsAfter {
        /// The devices.
        topology: TopologyView,
        /// The channels written.
        selected: Seq<u8>,
    },
    /// See [`Purpose::DumpDevices`].
    DumpDevices,
    /// See [`Purpose::DumpSpeeds`].
    DumpSpeeds {
        /// The response with the devices.
        devices: Seq<u8>,
    },
    /// See [`Purpose::DumpTemperatures`].
    DumpTemperatures {
        /// The response with the devices.
        devices: Seq<u8>,
        /// The response with the speeds.
        speeds: Seq<u8>,
    },
}

impl View for Purpose {
    type V = PurposeView;

    open spec fn view(&self) -> PurposeView {
        match *self {
            Purpose::Temperatures => PurposeView::Temperatures,
            Purpose::Devices => PurposeView::Devices,
            Purpose::SpeedsBefore { topology } => PurposeView::SpeedsBefore {
                topology: topology@,
            },
            Purpose::SpeedsAfter { topology, selected } => PurposeView::SpeedsAfter {
                topology: topology@,
                selected: selected@,
            },
            Purpose::DumpDevices => PurposeView::DumpDevices,
            Purpose::DumpSpeeds { devices } => PurposeView::DumpSpeeds { devices: devices@ },
            Purpose::DumpTemperatures { devices, speeds } => PurposeView::DumpTemperatures {
                devices: devices@,
                speeds: speeds@,
            },
        }
    }
}

/// How far an endpoint has been read.
#[derive(Clone, Copy, Debug, PartialEq, Eq, Structural)]
pub enum ReadStep {
    /// It is being closed, in case it was left open.
    Close,
    /// It is being opened.
    Open,
    /// Its first response is awaited.
    First,
    /// Its second response is awaited.
    Second,
    /// It is being closed again.
    Shut,
}

/// How far an endpoint has been written.
#[derive(Clone, Copy, Debug, PartialEq, Eq, Structural)]
pub enum WriteStep {
    /// It is being closed, in case it was left open.
    Close,
    /// It is being opened.
    Open,
    /// The response to the data is awaited.
    Data,
    /// It is being closed again.
    Shut,
}

/// How far the lights have been set.
#[derive(Clone, Copy, Debug, PartialEq, Eq, Structural)]
pub enum ColorStep {
    /// The endpoint is being closed, in case it was left open.
    Close,
    /// The endpoint is being opened.
    Open,
    /// The response to the data is awaited.
    Data,
}

/// How far a job has come.
#[derive(Debug)]
pub enum HubStage {
    /// The hub is put in hardware mode, from which software mode can be entered.
    Resetting,
    /// The hub is put in software mode.
    Entering,
    /// An endpoint is read.
    Reading {
        /// What for.
        purpose: Purpose,
        /// How far.
        step: ReadStep,
        /// What came so far.
        response: Vec<u8>,
    },
    /// Fan speeds are written.
    Setting {
        /// The devices.
        topology: LinkTopology,
        /// The channels to write.
        selected: Vec<u8>,
        /// Rejected attempts before this one.
        rejected: u8,
        /// How far.
        step: WriteStep,
        /// Status of this attempt.
        status: Option<u8>,
    },
    /// The lights are set.
    Coloring {
        /// How far.
        step: ColorStep,
    },
    /// The hub gets control back.
    Freeing,
    /// The hub gets control back after a dump.
    Restoring {
        /// The dump.
        dump: Result<String>,
    },
    /// The job is over.
    Over,
}

/// See [`HubStage`].
pub ghost enum HubStageView {
    /// See [`HubStage::Resetting`].
    Resetting,
    /// See [`HubStage::Entering`].
    Entering,
    /// See [`HubStage::Reading`].
    Reading {
        /// What for.
        purpose: PurposeView,
        /// How far.
        step: ReadStep,
        /// What came so far.
        response: Seq<u8>,
    },
    /// See [`HubStage::Setting`].
    Setting {
        /// The devices.
        topology: TopologyView,
        /// The channels to write.
        selected: Seq<u8>,
        /// Rejected attempts before this one.
        rejected: u8,
        /// How far.
        step: WriteStep,
        /// Status of this attempt.
        status: Option<u8>,
    },
    /// See [`HubStage::Coloring`].
    Coloring {
        /// How far.
        step: ColorStep,
    },
    /// See [`HubStage::Freeing`].
    Freeing,
    /// See [`HubStage::Restoring`].
    Restoring {
        /// The dump.
        dump: Reply<Seq<char>>,
    },
    /// See [`HubStage::Over`].
    Over,
}

impl View for HubStage {
    type V = HubStageView;

    open spec fn view(&self) -> HubStageView {
        match *self {
            HubStage::Resetting => HubStageView::Resetting,
            HubStage::Entering => HubStageView::Entering,
            HubStage::Reading { purpose, step, response } => HubStageView::Reading {
                purpose: purpose@,
                step,
                response: response@,
            },
            HubStage::Setting { topology, selected, rejected, step, status } => {
                HubStageView::Setting {
                    topology: topology@,
                    selected: selected@,
                    rejected,
                    step,
                    status,
                }
            },
            HubStage::Coloring { step } => HubStageView::Coloring { step },
            HubStage::Freeing => HubStageView::Freeing,
            HubStage::Restoring { dump } => HubStageView::Restoring { dump: views::outcome(dump) },
            HubStage::Over => HubStageView::Over,
        }
    }
}

/// A task that a hub works on.
#[derive(Debug)]
pub struct HubJob {
    /// Device alias.
    pub alias: String,
    /// The task.
    pub task: HubTask,
    /// What the hub was last told.
    pub modes: HubModes,
    /// Whether software was in control before.
    pub was_software: bool,
    /// How far the task has come.
    pub stage: HubStage,
}

/// See [`HubJob`].
pub ghost struct JobView {
    /// See [`HubJob::alias`].
    pub alias: Seq<char>,
    /// See [`HubJob::task`].
    pub task: TaskView,
    /// See [`HubJob::modes`].
    pub modes: HubModes,
    /// See [`HubJob::was_software`].
    pub was_software: bool,
    /// See [`HubJob::stage`].
    pub stage: HubStageView,
}

impl View for HubJob {
    type V = JobView;

    open spec fn view(&self) -> JobView {
        JobView {
            alias: self.alias@,
            task: self.task@,
            modes: self.modes,
            was_software: self.was_software,
            stage: self.stage@,
        }
    }
}

/// The endpoint that a purpose reads, and its data type.
pub open spec fn endpoint_of(purpose: PurposeView) -> (u8, u8) {
    match purpose {
        PurposeView::Temperatures => (EP_TEMPERATURES, DT_TEMPERATURES),
        PurposeView::Devices => (EP_DEVICES, DT_DEVICES),
        PurposeView::SpeedsBefore { .. } => (EP_SPEEDS, DT_SPEEDS),
        PurposeView::SpeedsAfter { .. } => (EP_SPEEDS, DT_SPEEDS),
        PurposeView::DumpDevices => (EP_DEVICES, DT_DEVICES),
        PurposeView::DumpSpeeds { .. } => (EP_SPEEDS, DT_SPEEDS),
        PurposeView::DumpTemperatures { .. } => (EP_TEMPERATURES, DT_TEMPERATURES),
    }
}

/// The modes of a hub in control of itself.
pub open spec fn hardware_modes() -> HubModes {
    HubModes { software: false, color_open: false }
}

/// A job that moves to a stage with a transfer.
pub open spec fn moved(
    job: JobView,
    stage: HubStageView,
    pause_ms: u64,
    transfer: TransferView,
) -> (JobView, HubActionView) {
    (JobView { stage, ..job }, HubActionView::Transfer { pause_ms, transfer })
}

/// A job that ends.
pub open spec fn ended(job: JobView, result: Reply<ReportView>) -> (JobView, HubActionView) {
    (JobView { stage: HubStageView::Over, ..job }, HubActionView::Finish(result))
}

/// A job that starts to read an endpoint.
pub open spec fn reading(job: JobView, purpose: PurposeView, pause_ms: u64) -> (
    JobView,
    HubActionView,
) {
    moved(
        job,
        HubStageView::Reading { purpose, step: ReadStep::Close, response: Seq::empty() },
        pause_ms,
        TransferView::Close(endpoint_of(purpose).0),
    )
}

/// A job that writes a color to the open endpoint.
pub open spec fn color_writing(job: JobView, led_count: u16, rgb: [u8; 3], pause_ms: u64) -> (
    JobView,
    HubActionView,
) {
    if 3 * led_count + 2 > 0xffff {
        ended(job, Err(ErrorView::Driver("Corsair RGB payload is too large"@)))
    } else {
        moved(
            job,
            HubStageView::Coloring { step: ColorStep::Data },
            pause_ms,
            TransferView::WriteColor(write_data(DT_SET_COLOR, color_payload(led_count, rgb))),
        )
    }
}

/// A job whose hub is in software mode and starts on its task.
pub open spec fn begun(job: JobView, pause_ms: u64) -> (JobView, HubActionView) {
    match job.task {
        TaskView::Temperature { .. } => reading(job, PurposeView::Temperatures, pause_ms),
        TaskView::Fans { .. } => reading(job, PurposeView::Devices, pause_ms),
        TaskView::Rgb { led_count, rgb } => if job.modes.color_open {
            color_writing(job, led_count, rgb, pause_ms)
        } else {
            moved(
                job,
                HubStageView::Coloring { step: ColorStep::Close },
                pause_ms,
                TransferView::CloseColor,
            )
        },
        TaskView::Release => ended(job, Ok(ReportView::Released)),
        TaskView::Dump { .. } => reading(job, PurposeView::DumpDevices, pause_ms),
    }
}

/// A job at its start: a release only has work to do in software mode, and any other task
/// enters it first.
pub open spec fn started(job: JobView) -> (JobView, HubActionView) {
    match job.task {
        TaskView::Release => if job.modes.software {
            moved(job, HubStageView::Freeing, 0, TransferView::HardwareMode)
        } else {
            ended(job, Ok(ReportView::Released))
        },
        _ => if job.modes.software {
            begun(job, 0)
        } else {
            moved(job, HubStageView::Resetting, 0, TransferView::HardwareMode)
        },
    }
}

/// A dump that is done: control goes back to the hub if it had it before.
pub open spec fn dump_done(job: JobView, dump: Reply<Seq<char>>) -> (JobView, HubActionView) {
    if job.was_software {
        ended(
            job,
            match dump {
                Ok(text) => Ok(ReportView::Dump(text)),
                Err(error) => Err(error),
            },
        )
    } else {
        moved(job, HubStageView::Restoring { dump }, 0, TransferView::HardwareMode)
    }
}

/// The positions of a temperature channel.
pub open spec fn tenths_at(list: Seq<(u8, i16)>, channel: u8) -> spec_fn(int) -> Option<i16> {
    |at: int|
        if list[at].0 == channel {
            Some(list[at].1)
        } else {
            None
        }
}

/// A status that a write was rejected with.
pub open spec fn status_words(status: Option<u8>) -> Seq<char> {
    match status {
        Some(value) => "0x"@ + text::hex_padded(value as nat, 2),
        None => "missing"@,
    }
}

/// A job that starts to write fan speeds.
pub open spec fn setting(
    job: JobView,
    topology: TopologyView,
    selected: Seq<u8>,
    rejected: u8,
    pause_ms: u64,
) -> (JobView, HubActionView) {
    moved(
        job,
        HubStageView::Setting {
            topology,
            selected,
            rejected,
            step: WriteStep::Close,
            status: None,
        },
        pause_ms,
        TransferView::Close(EP_SET_SPEED),
    )
}

/// A job whose endpoint was read.
pub open spec fn endpoint_read(job: JobView, purpose: PurposeView, response: Seq<u8>) -> (
    JobView,
    HubActionView,
) {
    match (purpose, job.task) {
        (PurposeView::Temperatures, TaskView::Temperature { channel }) => {
            match corsair::temperatures_in(response) {
                Err(error) => ended(job, Err(error)),
                Ok(list) => match search::first(tenths_at(list, channel), 0, list.len() as int) {
                    Some(tenths) => ended(job, Ok(ReportView::Tenths(tenths))),
                    None => ended(
                        job,
                        Err(
                            ErrorView::Driver(
                                "hub '"@ + job.alias + "' did not report temperature channel "@
                                    + corsair::shown(channel),
                            ),
                        ),
                    ),
                },
            }
        },
        (PurposeView::Devices, _) => match corsair::devices_in(response) {
            Err(error) => ended(job, Err(error)),
            Ok(topology) => reading(job, PurposeView::SpeedsBefore { topology }, 0),
        },
        (PurposeView::SpeedsBefore { topology }, TaskView::Fans { channels, .. }) => {
            match corsair::speeds_in(response) {
                Err(error) => ended(job, Err(error)),
                Ok(speeds) => match corsair::selection(channels, topology.devices, speeds) {
                    Err(error) => ended(job, Err(error)),
                    Ok(selected) => if selected.len() == 0 {
                        ended(
                            job,
                            Err(
                                ErrorView::Driver(
                                    "hub '"@ + job.alias
                                        + "' reported no controllable fan channels"@,
                                ),
                            ),
                        )
                    } else if selected.len() > 255 {
                        ended(job, Err(ErrorView::Driver("too many Corsair fan channels"@)))
                    } else {
                        setting(job, topology, selected, 0, 0)
                    },
                },
            }
        },
        (
            PurposeView::SpeedsAfter { topology, selected },
            TaskView::Fans { percent, expected_fan_count, .. },
        ) => match corsair::speeds_in(response) {
            Err(error) => ended(job, Err(error)),
            Ok(speeds) => ended(
                job,
                Ok(
                    ReportView::Fans(
                        corsair::fan_report(
                            job.alias,
                            percent,
                            expected_fan_count,
                            topology.devices,
                            selected,
                            speeds,
                        ),
                    ),
                ),
            ),
        },
        (PurposeView::DumpDevices, _) => reading(
            job,
            PurposeView::DumpSpeeds { devices: response },
            0,
        ),
        (PurposeView::DumpSpeeds { devices }, _) => reading(
            job,
            PurposeView::DumpTemperatures { devices, speeds: response },
            0,
        ),
        (
            PurposeView::DumpTemperatures { devices, speeds },
            TaskView::Dump { expected_fan_count },
        ) => dump_done(
            job,
            diagnostics::dumped(expected_fan_count, devices, speeds, response),
        ),
        _ => ended(job, Err(ErrorView::Driver("Corsair hub job is out of step"@))),
    }
}

/// Whether a response carries a data type.
pub open spec fn carries(response: Seq<u8>, data_type: u8) -> bool {
    response.len() >= 6 && response[4] == data_type && response[5] == 0
}

/// The status in a response.
pub open spec fn status_in(response: Seq<u8>) -> Option<u8> {
    if response.len() > 3 {
        Some(response[3])
    } else {
        None
    }
}

/// What follows the header of a response.
pub open spec fn continued(response: Seq<u8>) -> Seq<u8> {
    if response.len() > 4 {
        response.skip(4)
    } else {
        Seq::empty()
    }
}

/// The next state and action of a job after a response.
pub open spec fn job_answered(job: JobView, answer: Seq<u8>) -> (JobView, HubActionView) {
    match job.stage {
        HubStageView::Resetting => moved(
            job,
            HubStageView::Entering,
            50,
            TransferView::SoftwareMode,
        ),
        HubStageView::Entering => begun(
            JobView { modes: HubModes { software: true, ..job.modes }, ..job },
            50,
        ),
        HubStageView::Freeing => ended(
            JobView { modes: hardware_modes(), ..job },
            Ok(ReportView::Released),
        ),
        HubStageView::Restoring { dump } => ended(
            JobView { modes: hardware_modes(), ..job },
            match dump {
                Ok(text) => Ok(ReportView::Dump(text)),
                Err(error) => Err(error),
            },
        ),
        HubStageView::Reading { purpose, step, response } => {
            let (endpoint, data_type) = endpoint_of(purpose);
            match step {
                ReadStep::Close => moved(
                    job,
                    HubStageView::Reading { purpose, step: ReadStep::Open, response },
                    0,
                    TransferView::Open(endpoint),
                ),
                ReadStep::Open => moved(
                    job,
                    HubStageView::Reading { purpose, step: ReadStep::First, response },
                    0,
                    TransferView::Read(endpoint),
                ),
                ReadStep::First => if carries(answer, data_type) {
                    moved(
                        job,
                        HubStageView::Reading {
                            purpose,
                            step: ReadStep::Second,
                            response: answer,
                        },
                        0,
                        TransferView::Read(endpoint),
                    )
                } else {
                    moved(
                        job,
                        HubStageView::Reading { purpose, step: ReadStep::Shut, response: answer },
                        0,
                        TransferView::Close(endpoint),
                    )
                },
                ReadStep::Second => moved(
                    job,
                    HubStageView::Reading {
                        purpose,
                        step: ReadStep::Shut,
                        response: response + continued(answer),
                    },
                    0,
                    TransferView::Close(endpoint),
                ),
                ReadStep::Shut => endpoint_read(job, purpose, response),
            }
        },
        HubStageView::Setting { topology, selected, rejected, step, status } => match step {
            WriteStep::Close => moved(
                job,
                HubStageView::Setting {
                    topology,
                    selected,
                    rejected,
                    step: WriteStep::Open,
                    status,
                },
                0,
                TransferView::Open(EP_SET_SPEED),
            ),
            WriteStep::Open => moved(
                job,
                HubStageView::Setting {
                    topology,
                    selected,
                    rejected,
                    step: WriteStep::Data,
                    status,
                },
                0,
                TransferView::Write(
                    write_data(
                        DT_SET_SPEED,
                        speed_payload(
                            selected,
                            match job.task {
                                TaskView::Fans { percent, .. } => percent,
                                _ => 0,
                            },
                        ),
                    ),
                ),
            ),
            WriteStep::Data => moved(
                job,
                HubStageView::Setting {
                    topology,
                    selected,
                    rejected,
                    step: WriteStep::Shut,
                    status: status_in(answer),
                },
                0,
                TransferView::Close(EP_SET_SPEED),
            ),
            WriteStep::Shut => if status == Some(0u8) {
                reading(job, PurposeView::SpeedsAfter { topology, selected }, 0)
            } else if rejected < 10 {
                setting(job, topology, selected, (rejected + 1) as u8, 100)
            } else {
                ended(
                    job,
                    Err(
                        ErrorView::Driver(
                            "hub rejected fan speed write with status "@ + status_words(status),
                        ),
                    ),
                )
            },
        },
        HubStageView::Coloring { step } => match (step, job.task) {
            (ColorStep::Close, _) => moved(
                job,
                HubStageView::Coloring { step: ColorStep::Open },
                0,
                TransferView::OpenColor,
            ),
            (ColorStep::Open, TaskView::Rgb { led_count, rgb }) => color_writing(
                JobView { modes: HubModes { color_open: true, ..job.modes }, ..job },
                led_count,
                rgb,
                0,
            ),
            (ColorStep::Data, TaskView::Rgb { led_count, rgb }) => if status_in(answer) == Some(
                0u8,
            ) {
                ended(
                    job,
                    Ok(
                        ReportView::Rgb(
                            JsonView::Object(
                                seq![
                                    ("rgb"@, json::rgb_view(rgb)),
                                    ("led_count"@, json::number_view(led_count as nat)),
                                ],
                            ),
                        ),
                    ),
                )
            } else {
                ended(
                    job,
                    Err(
                        ErrorView::Driver(
                            "hub rejected RGB write with status "@ + status_words(
                                status_in(answer),
                            ),
                        ),
                    ),
                )
            },
            _ => ended(job, Err(ErrorView::Driver("Corsair hub job is out of step"@))),
        },
        HubStageView::Over => ended(
            job,
            Err(ErrorView::Driver("Corsair hub job is out of step"@)),
        ),
    }
}

/// Whether a purpose belongs to a dump.
pub open spec fn for_dump(purpose: PurposeView) -> bool {
    purpose is DumpDevices || purpose is DumpSpeeds || purpose is DumpTemperatures
}

/// The next state and action of a job after a failure: a dump that fails still gives control
/// back to the hub; anything else ends.
pub open spec fn job_failed(job: JobView, failure: ErrorView) -> (JobView, HubActionView) {
    match job.stage {
        HubStageView::Reading { purpose, .. } => if for_dump(purpose) {
            dump_done(job, Err(failure))
        } else {
            ended(job, Err(failure))
        },
        HubStageView::Restoring { dump } => match dump {
            Ok(_) => ended(job, Err(failure)),
            Err(first) => ended(
                job,
                Err(
                    ErrorView::Driver(
                        error::described(first) + "; hardware-mode restore also failed: "@
                            + error::described(failure),
                    ),
                ),
            ),
        },
        _ => ended(job, Err(failure)),
    }
}

/// The next state and action of a job.
pub open spec fn job_next(job: JobView, event: HubEventView) -> (JobView, HubActionView) {
    match event {
        HubEventView::Answer(bytes) => job_answered(job, bytes),
        HubEventView::Failed(failure) => job_failed(job, failure),
    }
}

/// A job that has not started.
pub open spec fn idle_job(alias: Seq<char>, task: TaskView, modes: HubModes) -> JobView {
    JobView { alias, task, modes, was_software: modes.software, stage: HubStageView::Over }
}

/// How many transfers a stage is from the end, at most.
pub open spec fn transfers_left(stage: HubStageView) -> nat {
    match stage {
        HubStageView::Over => 0,
        HubStageView::Freeing => 1,
        HubStageView::Restoring { .. } => 1,
        HubStageView::Coloring { step } => match step {
            ColorStep::Data => 1,
            ColorStep::Open => 2,
            ColorStep::Close => 3,
        },
        HubStageView::Reading { purpose, step, .. } => {
            let steps: nat = match step {
                ReadStep::Shut => 1,
                ReadStep::Second => 2,
                ReadStep::First => 3,
                ReadStep::Open => 4,
                ReadStep::Close => 5,
            };
            match purpose {
                PurposeView::Temperatures => steps,
                PurposeView::SpeedsAfter { .. } => steps,
                PurposeView::DumpTemperatures { .. } => 1 + steps,
                PurposeView::DumpSpeeds { .. } => 6 + steps,
                PurposeView::DumpDevices => 11 + steps,
                PurposeView::SpeedsBefore { .. } => 49 + steps,
                PurposeView::Devices => 54 + steps,
            }
        },
        HubStageView::Setting { rejected, step, .. } => {
            let steps: nat = match step {
                WriteStep::Shut => 1,
                WriteStep::Data => 2,
                WriteStep::Open => 3,
                WriteStep::Close => 4,
            };
            let attempts: nat = if rejected < 10 {
                (10 - rejected) as nat
            } else {
                0
            };
            5 + 4 * attempts + steps
        },
        HubStageView::Entering => 60,
        HubStageView::Resetting => 61,
    }
}

/// A job and its next action.
pub open spec fn pair_view(pair: (HubJob, HubAction)) -> (JobView, HubActionView) {
    (pair.0@, pair.1@)
}

fn find_tenths(list: &Vec<(u8, i16)>, channel: u8) -> (found: Option<i16>)
    ensures
        found == search::first(tenths_at(list@, channel), 0, list@.len() as int),
{
    let mut at: usize = 0;
    let ghost check = tenths_at(list@, channel);
    while at < list.len()
        invariant
            at <= list@.len(),
            check == tenths_at(list@, channel),
            search::first(check, 0, list@.len() as int) == search::first(
                check,
                at as int,
                list@.len() as int,
            ),
        decreases list@.len() - at,
    {
        if list[at].0 == channel {
            assert(check(at as int) == Some(list@[at as int].1));
            return Some(list[at].1);
        }
        at += 1;
    }
    None
}

fn status_text(status: Option<u8>) -> (words: String)
    ensures
        words@ == status_words(status),
{
    match status {
        Some(value) => {
            let mut words = "0x".to_owned();
            text::push_hex(&mut words, value as u64, 2);
            words
        },
        None => "missing".to_owned(),
    }
}

fn read_status(response: &Vec<u8>) -> (status: Option<u8>)
    ensures
        status == status_in(response@),
{
    if response.len() > 3 {
        Some(response[3])
    } else {
        None
    }
}

fn is_zero(status: Option<u8>) -> (result: bool)
    ensures
        result == (status == Some(0u8)),
{
    match status {
        Some(value) => value == 0,
        None => false,
    }
}

impl Purpose {
    fn endpoint(&self) -> (result: (u8, u8))
        ensures
            result == endpoint_of(self@),
    {
        match self {
            Purpose::Temperatures => (EP_TEMPERATURES, DT_TEMPERATURES),
            Purpose::Devices => (EP_DEVICES, DT_DEVICES),
            Purpose::SpeedsBefore { .. } => (EP_SPEEDS, DT_SPEEDS),
            Purpose::SpeedsAfter { .. } => (EP_SPEEDS, DT_SPEEDS),
            Purpose::DumpDevices => (EP_DEVICES, DT_DEVICES),
            Purpose::DumpSpeeds { .. } => (EP_SPEEDS, DT_SPEEDS),
            Purpose::DumpTemperatures { .. } => (EP_TEMPERATURES, DT_TEMPERATURES),
        }
    }
}

impl HubJob {
    /// Starts on a task, and decides the first action.
    pub fn start(alias: &str, task: HubTask, modes: HubModes) -> (result: (HubJob, HubAction))
        ensures
            pair_view(result) == started(idle_job(alias@, task@, modes)),
            result.0.fits(),
    {
        let job = HubJob {
            alias: alias.to_owned(),
            task,
            modes,
            was_software: modes.software,
            stage: HubStage::Over,
        };
        if let HubTask::Release = job.task {
            if modes.software {
                return job.moved(HubStage::Freeing, 0, Transfer::HardwareMode);
            }
            return job.ended(Ok(HubReport::Released));
        }
        if modes.software {
            job.begin(0)
        } else {
            job.moved(HubStage::Resetting, 0, Transfer::HardwareMode)
        }
    }

    fn moved(self, stage: HubStage, pause_ms: u64, transfer: Transfer) -> (result: (
        HubJob,
        HubAction,
    ))
        ensures
            pair_view(result) == moved(self@, stage@, pause_ms, transfer@),
    {
        let mut job = self;
        job.stage = stage;
        (job, HubAction::Transfer { pause_ms, transfer })
    }

    fn ended(self, outcome: Result<HubReport>) -> (result: (HubJob, HubAction))
        ensures
            pair_view(result) == ended(self@, views::outcome(outcome)),
    {
        let mut job = self;
        job.stage = HubStage::Over;
        (job, HubAction::Finish(outcome))
    }

    fn out_of_step(self) -> (result: (HubJob, HubAction))
        ensures
            pair_view(result) == ended(
                self@,
                Err(ErrorView::Driver("Corsair hub job is out of step"@)),
            ),
    {
        self.ended(Err(driver_error("Corsair hub job is out of step".to_owned())))
    }

    fn reading(self, purpose: Purpose, pause_ms: u64) -> (result: (HubJob, HubAction))
        ensures
            pair_view(result) == reading(self@, purpose@, pause_ms),
    {
        let (endpoint, _) = purpose.endpoint();
        let response: Vec<u8> = Vec::new();
        assert(response@ =~= Seq::<u8>::empty());
        self.moved(
            HubStage::Reading { purpose, step: ReadStep::Close, response },
            pause_ms,
            Transfer::Close(endpoint),
        )
    }

    fn color_writing(self, led_count: u16, rgb: [u8; 3], pause_ms: u64) -> (result: (
        HubJob,
        HubAction,
    ))
        ensures
            pair_view(result) == color_writing(self@, led_count, rgb, pause_ms),
    {
        if 3 * (led_count as u32) + 2 > 0xffff {
            return self.ended(Err(driver_error("Corsair RGB payload is too large".to_owned())));
        }
        let payload = build_colors(led_count, rgb);
        let data = build_write(DT_SET_COLOR, &payload);
        self.moved(
            HubStage::Coloring { step: ColorStep::Data },
            pause_ms,
            Transfer::WriteColor(data),
        )
    }

    fn begin(self, pause_ms: u64) -> (result: (HubJob, HubAction))
        ensures
            pair_view(result) == begun(self@, pause_ms),
    {
        match &self.task {
            HubTask::Temperature { .. } => self.reading(Purpose::Temperatures, pause_ms),
            HubTask::Fans { .. } => self.reading(Purpose::Devices, pause_ms),
            HubTask::Rgb { led_count, rgb } => {
                let (count, color) = (*led_count, *rgb);
                if self.modes.color_open {
                    self.color_writing(count, color, pause_ms)
                } else {
                    self.moved(
                        HubStage::Coloring { step: ColorStep::Close },
                        pause_ms,
                        Transfer::CloseColor,
                    )
                }
            },
            HubTask::Release => self.ended(Ok(HubReport::Released)),
            HubTask::Dump { .. } => self.reading(Purpose::DumpDevices, pause_ms),
        }
    }

    fn dump_done(self, dump: Result<String>) -> (result: (HubJob, HubAction))
        ensures
            pair_view(result) == dump_done(self@, views::outcome(dump)),
    {
        if self.was_software {
            self.ended(
                match dump {
                    Ok(output) => Ok(HubReport::Dump(output)),
                    Err(error) => Err(error),
                },
            )
        } else {
            self.moved(HubStage::Restoring { dump }, 0, Transfer::HardwareMode)
        }
    }

    fn setting(
        self,
        topology: LinkTopology,
        selected: Vec<u8>,
        rejected: u8,
        pause_ms: u64,
    ) -> (result: (HubJob, HubAction))
        ensures
            pair_view(result) == setting(self@, topology@, selected@, rejected, pause_ms),
    {
        self.moved(
            HubStage::Setting {
                topology,
                selected,
                rejected,
                step: WriteStep::Close,
                status: None,
            },
            pause_ms,
            Transfer::Close(EP_SET_SPEED),
        )
    }

    fn temperatures_read(self, channel: u8, response: Vec<u8>) -> (result: (HubJob, HubAction))
        requires
            self@.task == (TaskView::Temperature { channel }),
        ensures
            pair_view(result) == endpoint_read(self@, PurposeView::Temperatures, response@),
    {
        match parse_temperatures(response.as_slice()) {
            Err(error) => self.ended(Err(error)),
            Ok(list) => match find_tenths(&list, channel) {
                Some(tenths) => self.ended(Ok(HubReport::Tenths(tenths))),
                None => {
                    let mut message = text::concat3(
                        "hub '",
                        self.alias.as_str(),
                        "' did not report temperature channel ",
                    );
                    text::push_decimal(&mut message, channel as u64);
                    self.ended(Err(driver_error(message)))
                },
            },
        }
    }

    fn speeds_before_read(self, topology: LinkTopology, response: Vec<u8>) -> (result: (
        HubJob,
        HubAction,
    ))
        ensures
            pair_view(result) == endpoint_read(
                self@,
                PurposeView::SpeedsBefore { topology: topology@ },
                response@,
            ),
    {
        let outcome = match &self.task {
            HubTask::Fans { channels, .. } => match parse_speeds(response.as_slice()) {
                Err(error) => Err(error),
                Ok(speeds) => select_channels(channels, &topology.devices, &speeds),
            },
            _ => return self.out_of_step(),
        };
        match outcome {
            Err(error) => self.ended(Err(error)),
            Ok(selected) => {
                if selected.len() == 0 {
                    let message = text::concat3(
                        "hub '",
                        self.alias.as_str(),
                        "' reported no controllable fan channels",
                    );
                    return self.ended(Err(driver_error(message)));
                }
                if selected.len() > 255 {
                    return self.ended(
                        Err(driver_error("too many Corsair fan channels".to_owned())),
                    );
                }
                self.setting(topology, selected, 0, 0)
            },
        }
    }

    fn speeds_after_read(
        self,
        topology: LinkTopology,
        selected: Vec<u8>,
        response: Vec<u8>,
    ) -> (result: (HubJob, HubAction))
        ensures
            pair_view(result) == endpoint_read(
                self@,
                PurposeView::SpeedsAfter { topology: topology@, selected: selected@ },
                response@,
            ),
    {
        let outcome = match &self.task {
            HubTask::Fans { percent, expected_fan_count, .. } => match parse_speeds(
                response.as_slice(),
            ) {
                Err(error) => Err(error),
                Ok(speeds) => Ok(
                    HubReport::Fans(
                        fan_write_result(
                            self.alias.as_str(),
                            *percent,
                            *expected_fan_count,
                            &topology,
                            &selected,
                            &speeds,
                        ),
                    ),
                ),
            },
            _ => return self.out_of_step(),
        };
        self.ended(outcome)
    }

    fn endpoint_read(self, purpose: Purpose, response: Vec<u8>) -> (result: (HubJob, HubAction))
        ensures
            pair_view(result) == endpoint_read(self@, purpose@, response@),
    {
        match purpose {
            Purpose::Temperatures => match &self.task {
                HubTask::Temperature { channel } => {
                    let wanted: u8 = *channel;
                    self.temperatures_read(wanted, response)
                },
                _ => self.out_of_step(),
            },
            Purpose::Devices => match parse_devices(response.as_slice()) {
                Err(error) => self.ended(Err(error)),
                Ok(topology) => self.reading(Purpose::SpeedsBefore { topology }, 0),
            },
            Purpose::SpeedsBefore { topology } => self.speeds_before_read(topology, response),
            Purpose::SpeedsAfter { topology, selected } => self.speeds_after_read(
                topology,
                selected,
                response,
            ),
            Purpose::DumpDevices => self.reading(Purpose::DumpSpeeds { devices: response }, 0),
            Purpose::DumpSpeeds { devices } => self.reading(
                Purpose::DumpTemperatures { devices, speeds: response },
                0,
            ),
            Purpose::DumpTemperatures { devices, speeds } => {
                let dump = match &self.task {
                    HubTask::Dump { expected_fan_count } => diagnostic_dump(
                        *expected_fan_count,
                        &devices,
                        &speeds,
                        &response,
                    ),
                    _ => return self.out_of_step(),
                };
                self.dump_done(dump)
            },
        }
    }

    fn read_next(self, purpose: Purpose, step: ReadStep, response: Vec<u8>, answer: Vec<u8>) -> (result:
        (HubJob, HubAction))
        ensures
            pair_view(result) == job_answered(
                JobView {
                    stage: HubStageView::Reading { purpose: purpose@, step, response: response@ },
                    ..self@
                },
                answer@,
            ),
    {
        let (endpoint, data_type) = purpose.endpoint();
        match step {
            ReadStep::Close => self.moved(
                HubStage::Reading { purpose, step: ReadStep::Open, response },
                0,
                Transfer::Open(endpoint),
            ),
            ReadStep::Open => self.moved(
                HubStage::Reading { purpose, step: ReadStep::First, response },
                0,
                Transfer::Read(endpoint),
            ),
            ReadStep::First => {
                if answer.len() >= 6 && answer[4] == data_type && answer[5] == 0 {
                    self.moved(
                        HubStage::Reading { purpose, step: ReadStep::Second, response: answer },
                        0,
                        Transfer::Read(endpoint),
                    )
                } else {
                    self.moved(
                        HubStage::Reading { purpose, step: ReadStep::Shut, response: answer },
                        0,
                        Transfer::Close(endpoint),
                    )
                }
            },
            ReadStep::Second => {
                let mut whole = response;
                let ghost start = whole@;
                if answer.len() > 4 {
                    let more = corsair::slice_of(answer.as_slice(), 4, answer.len());
                    whole.extend_from_slice(more.as_slice());
                    assert(more@ =~= continued(answer@));
                }
                assert(whole@ =~= start + continued(answer@));
                self.moved(
                    HubStage::Reading { purpose, step: ReadStep::Shut, response: whole },
                    0,
                    Transfer::Close(endpoint),
                )
            },
            ReadStep::Shut => self.endpoint_read(purpose, response),
        }
    }

    fn set_next(
        self,
        topology: LinkTopology,
        selected: Vec<u8>,
        rejected: u8,
        step: WriteStep,
        status: Option<u8>,
        answer: Vec<u8>,
    ) -> (result: (HubJob, HubAction))
        requires
            selected@.len() <= 255,
        ensures
            pair_view(result) == job_answered(
                JobView {
                    stage: HubStageView::Setting {
                        topology: topology@,
                        selected: selected@,
                        rejected,
                        step,
                        status,
                    },
                    ..self@
                },
                answer@,
            ),
    {
        match step {
            WriteStep::Close => self.moved(
                HubStage::Setting { topology, selected, rejected, step: WriteStep::Open, status },
                0,
                Transfer::Open(EP_SET_SPEED),
            ),
            WriteStep::Open => {
                let percent: u8 = match &self.task {
                    HubTask::Fans { percent, .. } => *percent,
                    _ => 0,
                };
                let payload = build_speeds(&selected, percent);
                let data = build_write(DT_SET_SPEED, &payload);
                self.moved(
                    HubStage::Setting {
                        topology,
                        selected,
                        rejected,
                        step: WriteStep::Data,
                        status,
                    },
                    0,
                    Transfer::Write(data),
                )
            },
            WriteStep::Data => {
                let status = read_status(&answer);
                self.moved(
                    HubStage::Setting {
                        topology,
                        selected,
                        rejected,
                        step: WriteStep::Shut,
                        status,
                    },
                    0,
                    Transfer::Close(EP_SET_SPEED),
                )
            },
            WriteStep::Shut => {
                if is_zero(status) {
                    self.reading(Purpose::SpeedsAfter { topology, selected }, 0)
                } else if rejected < 10 {
                    self.setting(topology, selected, rejected + 1, 100)
                } else {
                    let words = status_text(status);
                    let message = text::concat2(
                        "hub rejected fan speed write with status ",
                        words.as_str(),
                    );
                    self.ended(Err(driver_error(message)))
                }
            },
        }
    }

    fn color_next(self, step: ColorStep, answer: Vec<u8>) -> (result: (HubJob, HubAction))
        ensures
            pair_view(result) == job_answered(
                JobView { stage: HubStageView::Coloring { step }, ..self@ },
                answer@,
            ),
    {
        let (led_count, rgb) = match &self.task {
            HubTask::Rgb { led_count, rgb } => (*led_count, *rgb),
            _ => {
                return match step {
                    ColorStep::Close => self.moved(
                        HubStage::Coloring { step: ColorStep::Open },
                        0,
                        Transfer::OpenColor,
                    ),
                    _ => self.out_of_step(),
                };
            },
        };
        match step {
            ColorStep::Close => self.moved(
                HubStage::Coloring { step: ColorStep::Open },
                0,
                Transfer::OpenColor,
            ),
            ColorStep::Open => {
                let mut job = self;
                job.modes = HubModes { software: job.modes.software, color_open: true };
                job.color_writing(led_count, rgb, 0)
            },
            ColorStep::Data => {
                let status = read_status(&answer);
                if is_zero(status) {
                    let mut fields: Vec<(String, Json)> = Vec::new();
                    json::push_field(&mut fields, "rgb", Json::rgb(rgb));
                    json::push_field(&mut fields, "led_count", Json::number(led_count as u64));
                    assert(json::fields_view(fields@) =~= seq![
                        ("rgb"@, json::rgb_view(rgb)),
                        ("led_count"@, json::number_view(led_count as nat)),
                    ]);
                    self.ended(Ok(HubReport::Rgb(Json::Object(fields))))
                } else {
                    let words = status_text(status);
                    let message = text::concat2(
                        "hub rejected RGB write with status ",
                        words.as_str(),
                    );
                    self.ended(Err(driver_error(message)))
                }
            },
        }
    }

    /// Whether a speed write goes to no more channels than its payload can count.
    pub open spec fn fits(self) -> bool {
        self@.stage matches HubStageView::Setting { selected, .. } ==> selected.len() <= 255
    }

    /// Takes what came of the last action, and decides the next one.
    pub fn next(self, event: HubEvent) -> (result: (HubJob, HubAction))
        requires
            self.fits(),
        ensures
            pair_view(result) == job_next(self@, event@),
            result.0.fits(),
    {
        let mut job = self;
        let mut stage = HubStage::Over;
        std::mem::swap(&mut stage, &mut job.stage);
        match event {
            HubEvent::Failed(failure) => match stage {
                HubStage::Reading { purpose, .. } => {
                    let dumping = match purpose {
                        Purpose::DumpDevices => true,
                        Purpose::DumpSpeeds { .. } => true,
                        Purpose::DumpTemperatures { .. } => true,
                        _ => false,
                    };
                    if dumping {
                        job.dump_done(Err(failure))
                    } else {
                        job.ended(Err(failure))
                    }
                },
                HubStage::Restoring { dump } => match dump {
                    Ok(_) => job.ended(Err(failure)),
                    Err(first) => {
                        let first = first.to_text();
                        let second = failure.to_text();
                        job.ended(
                            Err(
                                driver_error(
                                    text::concat3(
                                        first.as_str(),
                                        "; hardware-mode restore also failed: ",
                                        second.as_str(),
                                    ),
                                ),
                            ),
                        )
                    },
                },
                _ => job.ended(Err(failure)),
            },
            HubEvent::Answer(answer) => match stage {
                HubStage::Resetting => job.moved(HubStage::Entering, 50, Transfer::SoftwareMode),
                HubStage::Entering => {
                    job.modes = HubModes { software: true, color_open: job.modes.color_open };
                    job.begin(50)
                },
                HubStage::Freeing => {
                    job.modes = HubModes { software: false, color_open: false };
                    job.ended(Ok(HubReport::Released))
                },
                HubStage::Restoring { dump } => {
                    job.modes = HubModes { software: false, color_open: false };
                    job.ended(
                        match dump {
                            Ok(output) => Ok(HubReport::Dump(output)),
                            Err(error) => Err(error),
                        },
                    )
                },
                HubStage::Reading { purpose, step, response } => job.read_next(
                    purpose,
                    step,
                    response,
                    answer,
                ),
                HubStage::Setting { topology, selected, rejected, step, status } => job.set_next(
                    topology,
                    selected,
                    rejected,
                    step,
                    status,
                    answer,
                ),
                HubStage::Coloring { step } => job.color_next(step, answer),
                HubStage::Over => job.out_of_step(),
            },
        }
    }
}

// ---------------------------------------------------------------- laws

/// Every job ends: whatever the hub answers, each transfer brings it nearer to its end, and a
/// job that awaits an answer is not over.
pub proof fn law_jobs_end(job: JobView, event: HubEventView)
    ensures
        !(job.stage is Over) ==> transfers_left(job_next(job, event).0.stage) < transfers_left(
            job.stage,
        ),
        job_next(job, event).1 is Transfer ==> !(job_next(job, event).0.stage is Over),
        started(job).1 is Transfer ==> !(started(job).0.stage is Over),
        transfers_left(started(job).0.stage) <= 61,
{
}

/// A release reports success only once the hub is in control of itself.
pub proof fn law_release_gives_control_back(job: JobView, event: HubEventView)
    requires
        job.task is Release,
        job.stage is Freeing,
    ensures
        job_next(job, event).1 matches HubActionView::Finish(Ok(_)) ==> {
            &&& job_next(job, event).1 == HubActionView::Finish(Ok(ReportView::Released))
            &&& job_next(job, event).0.modes == hardware_modes()
        },
{
}

/// A dump of a hub that was in control of itself ends only by giving control back, or with the
/// failure to do so: its last transfer is the one to hardware mode.
pub proof fn law_dump_gives_control_back(job: JobView, event: HubEventView)
    requires
        job.task is Dump,
        !job.was_software,
        job.stage matches HubStageView::Reading { purpose, .. } && for_dump(purpose),
    ensures
        match job_next(job, event).1 {
            HubActionView::Finish(_) => false,
            HubActionView::Transfer { transfer, .. } => job_next(job, event).0.stage is Restoring
                ==> transfer is HardwareMode,
        },
{
}

/// The hub that is opened for a device is the first with its vendor, product, interface, and,
/// where one is set, serial number in any case. There is none only where no hub has these.
pub proof fn law_opened_hub_is_the_one_configured(
    infos: Seq<HidInfo>,
    vendor_id: u16,
    product_id: u16,
    unique_id: Option<String>,
    interface: i32,
    expected_fan_count: Option<u8>,
    other: int,
)
    ensures
        ({
            let config = DeviceConfig::CorsairIcueLink {
                vendor_id,
                product_id,
                unique_id,
                interface,
                expected_fan_count,
            };
            let fits = |info: HidInfo|
                {
                    &&& info.vendor_id == vendor_id && info.product_id == product_id
                    &&& info.interface_number == interface
                    &&& unique_id matches Some(wanted) ==> (info.serial_number matches Some(own)
                        && text::lower(own@) == text::lower(wanted@))
                };
            match search::first(match_at(infos, config), 0, infos.len() as int) {
                Some(at) => {
                    &&& 0 <= at < infos.len() && fits(infos[at])
                    &&& 0 <= other < at ==> !fits(infos[other])
                },
                None => 0 <= other < infos.len() ==> !fits(infos[other]),
            }
        }),
{
    let config = DeviceConfig::CorsairIcueLink {
        vendor_id,
        product_id,
        unique_id,
        interface,
        expected_fan_count,
    };
    let check = match_at(infos, config);
    if search::first(check, 0, infos.len() as int) is Some {
        let at = search::lemma_some(check, 0, infos.len() as int);
        if 0 <= other < at {
            assert(check(other) is None);
        }
    } else {
        search::lemma_none(check, 0, infos.len() as int);
        if 0 <= other < infos.len() {
            assert(check(other) is None);
        }
    }
}

proof fn lemma_hubs_found(
    configured: names::Entries<DeviceConfig>,
    infos: Seq<HidInfo>,
    at: int,
    found: Seq<DescriptorView>,
    which: int,
    info: int,
)
    requires
        0 <= at <= configured.len(),
        configured_hubs(configured, infos, at, found) is Ok,
        0 <= which < configured.len(),
        0 <= info < infos.len(),
        matches_info(infos[info], configured[which].1),
    ensures
        ({
            let list = configured_hubs(configured, infos, at, found)->Ok_0;
            let device = crate::drivers::wireview::with_alias(
                described(infos[info]),
                configured[which].0,
            );
            &&& found.len() <= list.len() && list.take(found.len() as int) == found
            &&& at <= which ==> list.contains(device)
            &&& at <= which ==> forall|other: int|
                0 <= other < infos.len() && other != info ==> !matches_info(
                    #[trigger] infos[other],
                    configured[which].1,
                )
        }),
    decreases configured.len() - at,
{
    if at < configured.len() {
        let check = match_at(infos, configured[at].1);
        let count = infos.len() as int;
        let list = configured_hubs(configured, infos, at, found)->Ok_0;
        if search::first(check, 0, count) is None {
            search::lemma_none(check, 0, count);
            if at == which {
                assert(check(info) is None);
            }
            lemma_hubs_found(configured, infos, at + 1, found, which, info);
        } else {
            let first = search::lemma_some(check, 0, count);
            search::lemma_none(check, first + 1, count);
            let device = crate::drivers::wireview::with_alias(
                described(infos[first]),
                configured[at].0,
            );
            lemma_hubs_found(configured, infos, at + 1, found.push(device), which, info);
            assert(list.take(found.len() as int) =~= found) by {
                assert forall|i: int| 0 <= i < found.len() implies list[i] == found[i] by {
                    assert(list.take(found.len() as int + 1)[i] == found.push(device)[i]);
                }
            }
            if at == which {
                assert forall|other: int| 0 <= other < count && other != first implies !matches_info(
                    #[trigger] infos[other],
                    configured[which].1,
                ) by {
                    assert(check(other) is None);
                }
                assert(list[found.len() as int] == list.take(found.len() as int + 1)[found.len() as int]);
                assert(list.contains(device));
            }
        }
    }
}

/// Where the hubs of a configuration were found, each alias has the one hub that fits it, and no
/// alias fits two.
pub proof fn law_configured_hubs_are_found(
    configured: names::Entries<DeviceConfig>,
    infos: Seq<HidInfo>,
    which: int,
    info: int,
)
    requires
        configured_hubs(configured, infos, 0, Seq::empty()) is Ok,
        0 <= which < configured.len(),
        0 <= info < infos.len(),
        matches_info(infos[info], configured[which].1),
    ensures
        configured_hubs(configured, infos, 0, Seq::empty())->Ok_0.contains(
            crate::drivers::wireview::with_alias(described(infos[info]), configured[which].0),
        ),
        forall|other: int|
            0 <= other < infos.len() && other != info ==> !matches_info(
                #[trigger] infos[other],
                configured[which].1,
            ),
{
    lemma_hubs_found(configured, infos, 0, Seq::empty(), which, info);
}

/// A hub is described by its own numbers.
pub proof fn law_hub_description_tells_its_numbers(info: HidInfo)
    ensures
        described(info).driver == "corsair-icue-link"@,
        described(info).id == "hid:"@ + text::hex_padded(info.vendor_id as nat, 4) + ":"@
            + text::hex_padded(info.product_id as nat, 4) + ":"@ + serial_of(info) + ":"@
            + text::signed_decimal(info.interface_number as int),
        names::find(described(info).details, "path"@) == Some(info.path@),
{
    let none = Seq::<(Seq<char>, Seq<char>)>::empty();
    let vendor = text::hex_padded(info.vendor_id as nat, 4);
    let product = text::hex_padded(info.product_id as nat, 4);
    let a = names::inserted(none, "vendor_id"@, vendor);
    let b = names::inserted(a, "product_id"@, product);
    let c = names::inserted(b, "unique_id"@, serial_of(info));
    let d = names::inserted(c, "interface"@, text::signed_decimal(info.interface_number as int));
    names::lemma_inserted_sorted(none, "vendor_id"@, vendor);
    names::lemma_inserted_sorted(a, "product_id"@, product);
    names::lemma_inserted_sorted(b, "unique_id"@, serial_of(info));
    names::lemma_inserted_sorted(
        c,
        "interface"@,
        text::signed_decimal(info.interface_number as int),
    );
    names::lemma_find_inserted(d, "path"@, info.path@, "path"@);
}

} // verus!
