//! Thermal Grizzly WireView Pro II discovery and display control over USB serial.
//!
//! A display change is a conversation over a serial port. [`DisplaySession`] decides every
//! step of it; its caller performs each [`PortAction`] and hands back what came of it.

use vstd::prelude::*;

use crate::config::DeviceConfig;
use crate::drivers::DisplayTarget;
use crate::drivers::Reply;
use crate::error::ErrorView;
use crate::error::FeatherError;
use crate::error::Result;
use crate::json;
use crate::json::Json;
use crate::json::JsonView;
use crate::names;
use crate::names::NameMap;
use crate::text;
use crate::types::DescriptorView;
use crate::types::DeviceDescriptor;
use crate::views;

verus! {

/// USB vendor ID of the serial port.
pub const VENDOR_ID: u16 = 0x0483;

/// USB product ID of the serial port.
pub const PRODUCT_ID: u16 = 0x5740;

/// Bits per second on the serial port.
pub const BAUD_RATE: u32 = 115_200;

/// Milliseconds that a serial operation may take.
pub const IO_TIMEOUT_MS: u64 = 2_000;

/// Milliseconds that the port settles for after a change of its request-to-send line.
pub const RTS_SETTLE_MS: u64 = 10;

/// Asks for the identity of the device.
pub const CMD_READ_VENDOR_DATA: u8 = 0x01;

/// Asks for the configuration.
pub const CMD_READ_CONFIG: u8 = 0x05;

/// Writes a part of the configuration.
pub const CMD_WRITE_CONFIG: u8 = 0x06;

/// Changes the screen.
pub const CMD_SCREEN_CHANGE: u8 = 0x0c;

/// Repaints the current screen.
pub const SCREEN_GOTO_SAME: u8 = 0xef;

/// Where the configuration holds its version.
pub const CONFIG_VERSION_OFFSET: usize = 2;

/// Where the configuration holds the backlight percentage.
pub const BACKLIGHT_DUTY_OFFSET: usize = 44;

/// Configuration bytes in one frame.
pub const CONFIG_FRAME_PAYLOAD: usize = 62;

/// The display stays on.
pub const TIMEOUT_MODE_STATIC: u8 = 0;

/// The display sleeps after its timeout.
pub const TIMEOUT_MODE_SLEEP: u8 = 2;

/// Timeout of a display that stays on.
pub const AWAKE_TIMEOUT_SECONDS: u8 = 30;

/// Timeout of a display that sleeps.
pub const SLEEP_TIMEOUT_SECONDS: u8 = 5;

/// First identity byte.
pub const WIREVIEW_VENDOR_ID: u8 = 0xef;

/// Second identity byte.
pub const WIREVIEW_PRODUCT_ID: u8 = 0x05;

/// The settings of a display that Feather controls.
#[derive(Clone, Copy, Debug, PartialEq, Eq, Structural)]
pub struct DisplaySettings {
    /// Backlight percentage.
    pub brightness_percent: u8,
    /// What happens after the timeout.
    pub timeout_mode: u8,
    /// Timeout in seconds.
    pub timeout_seconds: u8,
}

/// Where a configuration holds the timeout settings.
#[derive(Clone, Copy, Debug, PartialEq, Eq, Structural)]
pub struct DisplayOffsets {
    /// Offset of the timeout mode.
    pub timeout_mode: usize,
    /// Offset of the timeout in seconds.
    pub timeout_seconds: usize,
}

/// A serial port of the host.
#[derive(Debug)]
pub struct SerialPortInfo {
    /// Device path.
    pub path: String,
    /// USB identity, for a USB port.
    pub usb: Option<UsbIdentity>,
}

/// USB identity of a serial port.
#[derive(Debug)]
pub struct UsbIdentity {
    /// Vendor ID.
    pub vid: u16,
    /// Product ID.
    pub pid: u16,
    /// Serial number.
    pub serial_number: Option<String>,
    /// Manufacturer name.
    pub manufacturer: Option<String>,
    /// Product name.
    pub product: Option<String>,
}

/// The serial port of a WireView Pro II.
#[derive(Clone, Debug, PartialEq, Eq)]
pub struct WireViewPort {
    /// Device path.
    pub path: String,
    /// USB serial number.
    pub serial: String,
    /// Manufacturer name.
    pub manufacturer: Option<String>,
    /// Product name.
    pub product: Option<String>,
}

/// See [`WireViewPort`].
pub ghost struct PortView {
    /// See [`WireViewPort::path`].
    pub path: Seq<char>,
    /// See [`WireViewPort::serial`].
    pub serial: Seq<char>,
    /// See [`WireViewPort::manufacturer`].
    pub manufacturer: Option<Seq<char>>,
    /// See [`WireViewPort::product`].
    pub product: Option<Seq<char>>,
}

impl View for WireViewPort {
    type V = PortView;

    open spec fn view(&self) -> PortView {
        PortView {
            path: self.path@,
            serial: self.serial@,
            manufacturer: views::maybe(self.manufacturer),
            product: views::maybe(self.product),
        }
    }
}

fn driver_error(message: String) -> (error: FeatherError)
    ensures
        error@ == ErrorView::Driver(message@),
{
    FeatherError::Driver(message)
}

// ---------------------------------------------------------------- ports

/// The WireView behind a serial port: one with the right USB identity and a serial number.
pub open spec fn port_of(info: SerialPortInfo) -> Option<PortView> {
    match info.usb {
        None => None,
        Some(usb) => if usb.vid != VENDOR_ID || usb.pid != PRODUCT_ID {
            None
        } else {
            match usb.serial_number {
                None => None,
                Some(serial) => if text::blank(serial@) {
                    None
                } else {
                    Some(
                        PortView {
                            path: info.path@,
                            serial: text::trimmed(serial@),
                            manufacturer: views::maybe(usb.manufacturer),
                            product: views::maybe(usb.product),
                        },
                    )
                },
            }
        },
    }
}

/// The WireViews among the first `count` serial ports.
pub open spec fn ports_of(infos: Seq<SerialPortInfo>, count: int) -> Seq<PortView>
    decreases count,
{
    if count <= 0 {
        Seq::empty()
    } else {
        match port_of(infos[count - 1]) {
            Some(port) => ports_of(infos, count - 1).push(port),
            None => ports_of(infos, count - 1),
        }
    }
}

/// The position of the first port with a serial number, whatever the case of its letters.
pub open spec fn port_at(ports: Seq<PortView>, serial: Seq<char>) -> spec_fn(int) -> Option<int> {
    |at: int|
        if text::lower(ports[at].serial) == text::lower(serial) {
            Some(at)
        } else {
            None
        }
}

/// How a WireView is described.
pub open spec fn described(port: PortView) -> DescriptorView {
    let details = Seq::<(Seq<char>, Seq<char>)>::empty();
    let details = names::inserted(details, "serial"@, port.serial);
    let details = names::inserted(details, "port"@, port.path);
    let details = names::inserted(details, "vendor_id"@, text::hex_padded(VENDOR_ID as nat, 4));
    let details = names::inserted(details, "product_id"@, text::hex_padded(PRODUCT_ID as nat, 4));
    let details = match port.manufacturer {
        Some(manufacturer) => names::inserted(details, "manufacturer"@, manufacturer),
        None => details,
    };
    let details = match port.product {
        Some(product) => names::inserted(details, "product"@, product),
        None => details,
    };
    DescriptorView {
        id: "wireview-pro-ii:"@ + port.serial,
        driver: "wire-view-pro-ii"@,
        name: "Thermal Grizzly WireView Pro II"@,
        details,
    }
}

/// A description with the alias that a configuration gives the device.
pub open spec fn with_alias(device: DescriptorView, alias: Seq<char>) -> DescriptorView {
    DescriptorView { details: names::inserted(device.details, "alias"@, alias), ..device }
}

/// The configured WireViews among the first `count` devices that have a port.
pub open spec fn configured_ports(
    configured: names::Entries<DeviceConfig>,
    ports: Seq<PortView>,
    count: int,
) -> Seq<DescriptorView>
    decreases count,
{
    if count <= 0 {
        Seq::empty()
    } else {
        let earlier = configured_ports(configured, ports, count - 1);
        match configured[count - 1].1 {
            DeviceConfig::WireViewProIi { serial } => match crate::search::first(
                port_at(ports, serial@),
                0,
                ports.len() as int,
            ) {
                Some(at) => earlier.push(
                    with_alias(described(ports[at]), configured[count - 1].0),
                ),
                None => earlier,
            },
            _ => earlier,
        }
    }
}

/// Whether some device is a WireView.
pub open spec fn any_wireview(configured: names::Entries<DeviceConfig>) -> bool {
    exists|i: int|
        0 <= i < configured.len() && ((#[trigger] configured[i]).1 is WireViewProIi)
}

fn accept_port(info: &SerialPortInfo) -> (port: Option<WireViewPort>)
    ensures
        views::maybe(port) == port_of(*info),
{
    match &info.usb {
        None => None,
        Some(usb) => {
            if usb.vid != VENDOR_ID || usb.pid != PRODUCT_ID {
                return None;
            }
            match &usb.serial_number {
                None => None,
                Some(serial) => {
                    if text::is_blank(serial.as_str()) {
                        return None;
                    }
                    Some(
                        WireViewPort {
                            path: info.path.clone(),
                            serial: text::trim(serial.as_str()),
                            manufacturer: views::copy_text(&usb.manufacturer),
                            product: views::copy_text(&usb.product),
                        },
                    )
                },
            }
        },
    }
}

/// Keeps the serial ports that belong to a WireView.
pub fn enumerate(infos: &Vec<SerialPortInfo>) -> (ports: Vec<WireViewPort>)
    ensures
        views::list(ports@) == ports_of(infos@, infos@.len() as int),
{
    let mut ports: Vec<WireViewPort> = Vec::new();
    let mut at: usize = 0;
    assert(views::list(ports@) =~= ports_of(infos@, 0));
    while at < infos.len()
        invariant
            at <= infos@.len(),
            views::list(ports@) == ports_of(infos@, at as int),
        decreases infos@.len() - at,
    {
        let ghost before = ports@;
        if let Some(port) = accept_port(&infos[at]) {
            ports.push(port);
            assert(views::list(ports@) =~= views::list(before).push(port@));
        }
        at += 1;
    }
    ports
}

/// The first port with a serial number, whatever the case of its letters.
pub fn find_port<'a>(ports: &'a Vec<WireViewPort>, serial: &str) -> (found: Option<
    &'a WireViewPort,
>)
    ensures
        match crate::search::first(
            port_at(views::list(ports@), serial@),
            0,
            ports@.len() as int,
        ) {
            Some(at) => 0 <= at < ports@.len() && found == Some(&ports@[at]),
            None => found is None,
        },
{
    let mut at: usize = 0;
    let ghost check = port_at(views::list(ports@), serial@);
    while at < ports.len()
        invariant
            at <= ports@.len(),
            check == port_at(views::list(ports@), serial@),
            crate::search::first(check, 0, ports@.len() as int) == crate::search::first(
                check,
                at as int,
                ports@.len() as int,
            ),
        decreases ports@.len() - at,
    {
        assert(views::list(ports@)[at as int] == ports@[at as int]@);
        if text::same_ignoring_case(ports[at].serial.as_str(), serial) {
            assert(check(at as int) == Some(at as int));
            return Some(&ports[at]);
        }
        at += 1;
    }
    None
}

/// Describes a WireView.
pub fn descriptor(port: &WireViewPort) -> (result: DeviceDescriptor)
    ensures
        result@ == described(port@),
{
    let mut details: NameMap<String> = NameMap::new();
    details.insert("serial".to_owned(), port.serial.clone());
    details.insert("port".to_owned(), port.path.clone());
    let mut vendor = String::new();
    text::push_hex(&mut vendor, VENDOR_ID as u64, 4);
    assert(vendor@ =~= text::hex_padded(VENDOR_ID as nat, 4));
    details.insert("vendor_id".to_owned(), vendor);
    let mut product = String::new();
    text::push_hex(&mut product, PRODUCT_ID as u64, 4);
    assert(product@ =~= text::hex_padded(PRODUCT_ID as nat, 4));
    details.insert("product_id".to_owned(), product);
    if let Some(manufacturer) = &port.manufacturer {
        details.insert("manufacturer".to_owned(), manufacturer.clone());
    }
    if let Some(product) = &port.product {
        details.insert("product".to_owned(), product.clone());
    }
    DeviceDescriptor {
        id: text::concat2("wireview-pro-ii:", port.serial.as_str()),
        driver: "wire-view-pro-ii".to_owned(),
        name: "Thermal Grizzly WireView Pro II".to_owned(),
        details,
    }
}

/// Whether a configuration has any WireView, so that ports need enumerating.
pub fn needs_ports(configured: &NameMap<DeviceConfig>) -> (result: bool)
    ensures
        result == any_wireview(configured@),
{
    let mut at: usize = 0;
    let count: usize = configured.len();
    while at < count
        invariant
            count == configured@.len(),
            at <= count,
            forall|i: int| 0 <= i < at ==> !((#[trigger] configured@[i]).1 is WireViewProIi),
        decreases count - at,
    {
        if let DeviceConfig::WireViewProIi { .. } = configured.value_at(at) {
            assert(configured@[at as int].1 is WireViewProIi);
            return true;
        }
        at += 1;
    }
    false
}

/// Describes the configured WireViews that have a port.
pub fn discover_configured(
    configured: &NameMap<DeviceConfig>,
    ports: &Vec<WireViewPort>,
) -> (found: Vec<DeviceDescriptor>)
    ensures
        views::list(found@) == configured_ports(
            configured@,
            views::list(ports@),
            configured@.len() as int,
        ),
{
    let mut found: Vec<DeviceDescriptor> = Vec::new();
    let mut at: usize = 0;
    let count: usize = configured.len();
    assert(views::list(found@) =~= configured_ports(configured@, views::list(ports@), 0));
    while at < count
        invariant
            count == configured@.len(),
            at <= count,
            views::list(found@) == configured_ports(configured@, views::list(ports@), at as int),
        decreases count - at,
    {
        if let DeviceConfig::WireViewProIi { serial } = configured.value_at(at) {
            if let Some(port) = find_port(ports, serial.as_str()) {
                let mut device = descriptor(port);
                device.details.insert("alias".to_owned(), configured.key_at(at).clone());
                let ghost before = found@;
                found.push(device);
                assert(views::list(found@) =~= views::list(before).push(device@));
            }
        }
        at += 1;
    }
    found
}

/// How all displays are described.
pub open spec fn all_described(ports: Seq<PortView>) -> Seq<DescriptorView> {
    Seq::new(ports.len(), |i: int| described(ports[i]))
}

/// Describes every WireView.
pub fn discover_all(ports: &Vec<WireViewPort>) -> (found: Vec<DeviceDescriptor>)
    ensures
        views::list(found@) == all_described(views::list(ports@)),
{
    let mut found: Vec<DeviceDescriptor> = Vec::new();
    let mut at: usize = 0;
    while at < ports.len()
        invariant
            at <= ports@.len(),
            found@.len() == at,
            forall|i: int| 0 <= i < at ==> (#[trigger] found@[i])@ == described(ports@[i]@),
        decreases ports@.len() - at,
    {
        found.push(descriptor(&ports[at]));
        at += 1;
    }
    assert(views::list(found@) =~= all_described(views::list(ports@)));
    found
}

/// The serial number of a WireView selector.
///
/// # Errors
///
/// Returns an error when the selector is for another device type.
pub fn serial(config: &DeviceConfig) -> (result: Result<&str>)
    ensures
        match *config {
            DeviceConfig::WireViewProIi { serial } => result matches Ok(found) && found@
                == serial@,
            _ => result matches Err(error) && error@ == ErrorView::Driver(
                "WireView driver received another device type"@,
            ),
        },
{
    match config {
        DeviceConfig::WireViewProIi { serial } => Ok(serial.as_str()),
        _ => Err(driver_error("WireView driver received another device type".to_owned())),
    }
}

// ---------------------------------------------------------------- messages

/// The bytes that the device greets with.
pub open spec fn welcome_bytes() -> Seq<u8> {
    seq![84u8, 104u8, 101u8, 114u8, 109u8, 97u8, 108u8, 32u8, 71u8, 114u8, 105u8, 122u8, 122u8, 108u8, 121u8, 32u8, 87u8, 105u8, 114u8, 101u8, 86u8, 105u8, 101u8, 119u8, 32u8, 80u8, 114u8, 111u8, 32u8, 73u8, 73u8, 0u8]
}

/// The bytes that the device greets with.
pub fn welcome_message() -> (message: Vec<u8>)
    ensures
        message@ == welcome_bytes(),
{
    let message: Vec<u8> = vec![84u8, 104u8, 101u8, 114u8, 109u8, 97u8, 108u8, 32u8, 71u8, 114u8, 105u8, 122u8, 122u8, 108u8, 121u8, 32u8, 87u8, 105u8, 114u8, 101u8, 86u8, 105u8, 101u8, 119u8, 32u8, 80u8, 114u8, 111u8, 32u8, 73u8, 73u8, 0u8];
    assert(message@ =~= welcome_bytes());
    message
}

/// Whether two lists of bytes are the same.
pub fn same_bytes(left: &[u8], right: &[u8]) -> (equal: bool)
    ensures
        equal == (left@ == right@),
{
    if left.len() != right.len() {
        return false;
    }
    let mut at: usize = 0;
    while at < left.len()
        invariant
            at <= left@.len(),
            left@.len() == right@.len(),
            forall|i: int| 0 <= i < at ==> left@[i] == right@[i],
        decreases left@.len() - at,
    {
        if left[at] != right[at] {
            return false;
        }
        at += 1;
    }
    assert(left@ =~= right@);
    true
}

/// Bytes in hexadecimal with colons between them.
pub open spec fn hex_list(bytes: Seq<u8>) -> Seq<char> {
    text::joined(Seq::new(bytes.len(), |i: int| text::hex_padded(bytes[i] as nat, 2)), ":"@)
}

/// What a welcome message is answered with.
pub open spec fn welcomed(alias: Seq<char>, welcome: Seq<u8>) -> Reply<()> {
    if welcome == welcome_bytes() {
        Ok(())
    } else {
        let shown = if welcome.len() < 4 {
            welcome
        } else {
            welcome.take(4)
        };
        Err(
            ErrorView::Driver(
                "serial device for '"@ + alias
                    + "' returned an unexpected welcome message starting with "@ + hex_list(shown),
            ),
        )
    }
}

/// Checks a welcome message.
///
/// # Errors
///
/// Returns an error when the message is not that of a WireView Pro II.
pub fn validate_welcome(alias: &str, welcome: &[u8]) -> (result: Result<()>)
    ensures
        crate::drivers::done(result) == welcomed(alias@, welcome@),
{
    let expected = welcome_message();
    if same_bytes(welcome, expected.as_slice()) {
        return Ok(());
    }
    let mut parts: Vec<String> = Vec::new();
    let mut at: usize = 0;
    let ghost shown = if welcome@.len() < 4 {
        welcome@
    } else {
        welcome@.take(4)
    };
    let ghost all = Seq::new(shown.len(), |i: int| text::hex_padded(shown[i] as nat, 2));
    while at < welcome.len() && at < 4
        invariant
            at <= shown.len(),
            shown == (if welcome@.len() < 4 {
                welcome@
            } else {
                welcome@.take(4)
            }),
            all == Seq::new(shown.len(), |i: int| text::hex_padded(shown[i] as nat, 2)),
            text::texts(parts@) =~= all.take(at as int),
        decreases shown.len() - at,
    {
        let mut part = String::new();
        text::push_hex(&mut part, welcome[at] as u64, 2);
        assert(part@ =~= all[at as int]);
        let ghost before = parts@;
        parts.push(part);
        assert(text::texts(parts@) =~= text::texts(before).push(part@));
        at += 1;
    }
    assert(all.take(shown.len() as int) =~= all);
    let prefix = text::join(&parts, ":");
    Err(
        driver_error(
            text::concat4(
                "serial device for '",
                alias,
                "' returned an unexpected welcome message starting with ",
                prefix.as_str(),
            ),
        ),
    )
}

/// The firmware version in the identity of a WireView Pro II.
pub open spec fn identified(alias: Seq<char>, identity: Seq<u8>) -> Reply<u8> {
    if identity[0] != WIREVIEW_VENDOR_ID || identity[1] != WIREVIEW_PRODUCT_ID {
        Err(
            ErrorView::Driver(
                "serial device for '"@ + alias + "' returned an unexpected identity "@
                    + text::hex_padded(identity[0] as nat, 2) + ":"@ + text::hex_padded(
                    identity[1] as nat,
                    2,
                ),
            ),
        )
    } else {
        Ok(identity[2])
    }
}

/// Checks the identity of a device and returns its firmware version.
///
/// # Errors
///
/// Returns an error when the identity is not that of a WireView Pro II.
pub fn verify_device(alias: &str, identity: &Vec<u8>) -> (result: Result<u8>)
    requires
        identity@.len() == 3,
    ensures
        crate::error::outcome(result) == identified(alias@, identity@),
{
    if identity[0] != WIREVIEW_VENDOR_ID || identity[1] != WIREVIEW_PRODUCT_ID {
        let mut message = text::concat3(
            "serial device for '",
            alias,
            "' returned an unexpected identity ",
        );
        text::push_hex(&mut message, identity[0] as u64, 2);
        message.append(":");
        text::push_hex(&mut message, identity[1] as u64, 2);
        return Err(driver_error(message));
    }
    Ok(identity[2])
}

/// The error of a serial operation.
pub fn io_error(alias: &str, action: &str, reason: &str) -> (error: FeatherError)
    ensures
        error@ == ErrorView::Driver(
            "could not "@ + action@ + " for WireView device '"@ + alias@ + "': "@ + reason@,
        ),
{
    driver_error(
        text::concat6("could not ", action, " for WireView device '", alias, "': ", reason),
    )
}

// ---------------------------------------------------------------- configuration

/// A version that is not supported.
pub open spec fn unsupported(version: u8) -> ErrorView {
    ErrorView::Driver(
        "unsupported WireView configuration version "@ + text::decimal(version as nat),
    )
}

fn unsupported_error(version: u8) -> (error: FeatherError)
    ensures
        error@ == unsupported(version),
{
    let mut message = "unsupported WireView configuration version ".to_owned();
    text::push_decimal(&mut message, version as u64);
    driver_error(message)
}

/// The size of a configuration of a version.
pub open spec fn size_of_version(version: u8) -> Reply<usize> {
    match version {
        0 => Ok(72),
        1 => Ok(74),
        2 => Ok(96),
        _ => Err(unsupported(version)),
    }
}

/// Where a configuration of a version holds the timeout settings.
pub open spec fn offsets_of_version(version: u8) -> Reply<DisplayOffsets> {
    match version {
        0 => Ok(DisplayOffsets { timeout_mode: 68, timeout_seconds: 71 }),
        1 => Ok(DisplayOffsets { timeout_mode: 69, timeout_seconds: 72 }),
        2 => Ok(DisplayOffsets { timeout_mode: 72, timeout_seconds: 75 }),
        _ => Err(unsupported(version)),
    }
}

/// The size of a configuration of a version.
///
/// # Errors
///
/// Returns an error for a version that is not supported.
pub fn config_size(version: u8) -> (result: Result<usize>)
    ensures
        crate::error::outcome(result) == size_of_version(version),
{
    match version {
        0 => Ok(72),
        1 => Ok(74),
        2 => Ok(96),
        _ => Err(unsupported_error(version)),
    }
}

/// Where a configuration of a version holds the timeout settings.
///
/// # Errors
///
/// Returns an error for a version that is not supported.
pub fn display_offsets(version: u8) -> (result: Result<DisplayOffsets>)
    ensures
        crate::error::outcome(result) == offsets_of_version(version),
{
    match version {
        0 => Ok(DisplayOffsets { timeout_mode: 68, timeout_seconds: 71 }),
        1 => Ok(DisplayOffsets { timeout_mode: 69, timeout_seconds: 72 }),
        2 => Ok(DisplayOffsets { timeout_mode: 72, timeout_seconds: 75 }),
        _ => Err(unsupported_error(version)),
    }
}

/// The name of a timeout mode.
pub open spec fn mode_name(mode: u8) -> Reply<Seq<char>> {
    match mode {
        0 => Ok("static"@),
        1 => Ok("cycle"@),
        2 => Ok("sleep"@),
        _ => Err(
            ErrorView::Driver(
                "WireView returned invalid timeout mode "@ + text::decimal(mode as nat),
            ),
        ),
    }
}

/// The name of a timeout mode.
///
/// # Errors
///
/// Returns an error for a mode that the device does not have.
pub fn timeout_mode_name(mode: u8) -> (result: Result<&'static str>)
    ensures
        views::outcome(result) == mode_name(mode),
{
    match mode {
        0 => Ok("static"),
        1 => Ok("cycle"),
        2 => Ok("sleep"),
        _ => {
            let mut message = "WireView returned invalid timeout mode ".to_owned();
            text::push_decimal(&mut message, mode as u64);
            Err(driver_error(message))
        },
    }
}

/// The byte at an offset, or a message that it is missing.
pub open spec fn byte_at(config: Seq<u8>, offset: int, missing: Seq<char>) -> Reply<u8> {
    if offset < config.len() {
        Ok(config[offset])
    } else {
        Err(ErrorView::Driver("WireView configuration did not contain "@ + missing))
    }
}

fn read_byte(config: &[u8], offset: usize, missing: &str) -> (result: Result<u8>)
    ensures
        crate::error::outcome(result) == byte_at(config@, offset as int, missing@),
{
    if offset < config.len() {
        Ok(config[offset])
    } else {
        Err(driver_error(text::concat2("WireView configuration did not contain ", missing)))
    }
}

/// The display settings in a configuration.
pub open spec fn settings_in(config: Seq<u8>) -> Reply<DisplaySettings> {
    match byte_at(config, CONFIG_VERSION_OFFSET as int, "a version"@) {
        Err(error) => Err(error),
        Ok(version) => match offsets_of_version(version) {
            Err(error) => Err(error),
            Ok(offsets) => match (
                byte_at(config, BACKLIGHT_DUTY_OFFSET as int, "backlight duty"@),
                byte_at(config, offsets.timeout_mode as int, "timeout mode"@),
                byte_at(config, offsets.timeout_seconds as int, "timeout interval"@),
            ) {
                (Err(error), _, _) => Err(error),
                (_, Err(error), _) => Err(error),
                (_, _, Err(error)) => Err(error),
                (Ok(brightness_percent), Ok(timeout_mode), Ok(timeout_seconds)) => {
                    if brightness_percent > 100 {
                        Err(
                            ErrorView::Driver(
                                "WireView returned invalid backlight duty "@ + text::decimal(
                                    brightness_percent as nat,
                                ) + "%"@,
                            ),
                        )
                    } else {
                        match mode_name(timeout_mode) {
                            Err(error) => Err(error),
                            Ok(_) => Ok(
                                DisplaySettings {
                                    brightness_percent,
                                    timeout_mode,
                                    timeout_seconds,
                                },
                            ),
                        }
                    }
                },
            },
        },
    }
}

/// Reads the display settings in a configuration.
///
/// # Errors
///
/// Returns an error when the configuration is too short, of an unsupported version, or holds
/// settings that are out of range.
pub fn display_settings(config: &[u8]) -> (result: Result<DisplaySettings>)
    ensures
        crate::error::outcome(result) == settings_in(config@),
{
    let version: u8 = read_byte(config, CONFIG_VERSION_OFFSET, "a version")?;
    let offsets = display_offsets(version)?;
    let brightness_percent: u8 = read_byte(config, BACKLIGHT_DUTY_OFFSET, "backlight duty")?;
    let timeout_mode: u8 = read_byte(config, offsets.timeout_mode, "timeout mode")?;
    let timeout_seconds: u8 = read_byte(config, offsets.timeout_seconds, "timeout interval")?;
    if brightness_percent > 100 {
        let mut message = "WireView returned invalid backlight duty ".to_owned();
        text::push_decimal(&mut message, brightness_percent as u64);
        message.append("%");
        return Err(driver_error(message));
    }
    timeout_mode_name(timeout_mode)?;
    Ok(DisplaySettings { brightness_percent, timeout_mode, timeout_seconds })
}

/// A brightness over 100%.
pub open spec fn too_bright(brightness: u8) -> ErrorView {
    ErrorView::Driver(
        "WireView brightness "@ + text::decimal(brightness as nat) + "% is over 100%"@,
    )
}

fn too_bright_error(brightness: u8) -> (error: FeatherError)
    ensures
        error@ == too_bright(brightness),
{
    let mut message = "WireView brightness ".to_owned();
    text::push_decimal(&mut message, brightness as u64);
    message.append("% is over 100%");
    driver_error(message)
}

/// The settings that put a display in a state.
pub open spec fn settings_for(target: DisplayTarget) -> Reply<DisplaySettings> {
    match target {
        DisplayTarget::Awake { brightness_percent } => if brightness_percent > 100 {
            Err(too_bright(brightness_percent))
        } else {
            Ok(
                DisplaySettings {
                    brightness_percent,
                    timeout_mode: TIMEOUT_MODE_STATIC,
                    timeout_seconds: AWAKE_TIMEOUT_SECONDS,
                },
            )
        },
        DisplayTarget::Sleep => Ok(
            DisplaySettings {
                brightness_percent: 0,
                timeout_mode: TIMEOUT_MODE_SLEEP,
                timeout_seconds: SLEEP_TIMEOUT_SECONDS,
            },
        ),
    }
}

/// The settings that put a display in a state.
///
/// # Errors
///
/// Returns an error for a brightness over 100%.
pub fn desired_display_settings(target: DisplayTarget) -> (result: Result<DisplaySettings>)
    ensures
        crate::error::outcome(result) == settings_for(target),
{
    match target {
        DisplayTarget::Awake { brightness_percent } => {
            if brightness_percent > 100 {
                return Err(too_bright_error(brightness_percent));
            }
            Ok(
                DisplaySettings {
                    brightness_percent,
                    timeout_mode: TIMEOUT_MODE_STATIC,
                    timeout_seconds: AWAKE_TIMEOUT_SECONDS,
                },
            )
        },
        DisplayTarget::Sleep => Ok(
            DisplaySettings {
                brightness_percent: 0,
                timeout_mode: TIMEOUT_MODE_SLEEP,
                timeout_seconds: SLEEP_TIMEOUT_SECONDS,
            },
        ),
    }
}

/// A byte written at an offset, where the configuration reaches that far.
pub open spec fn written_at(config: Seq<u8>, offset: int, value: u8) -> Seq<u8> {
    if offset < config.len() {
        config.update(offset, value)
    } else {
        config
    }
}

/// A configuration with the display settings written into it, as far as it reaches, and
/// whether all of them found their place.
pub open spec fn with_settings(config: Seq<u8>, settings: DisplaySettings) -> (Seq<u8>, Reply<()>) {
    match byte_at(config, CONFIG_VERSION_OFFSET as int, "a version"@) {
        Err(error) => (config, Err(error)),
        Ok(version) => match (offsets_of_version(version), mode_name(settings.timeout_mode)) {
            (Err(error), _) => (config, Err(error)),
            (_, Err(error)) => (config, Err(error)),
            (Ok(offsets), Ok(_)) => if settings.brightness_percent > 100 {
                (config, Err(too_bright(settings.brightness_percent)))
            } else {
                let lit = written_at(
                    config,
                    BACKLIGHT_DUTY_OFFSET as int,
                    settings.brightness_percent,
                );
                let timed = written_at(lit, offsets.timeout_mode as int, settings.timeout_mode);
                let full = written_at(
                    timed,
                    offsets.timeout_seconds as int,
                    settings.timeout_seconds,
                );
                match (
                    byte_at(config, BACKLIGHT_DUTY_OFFSET as int, "backlight duty"@),
                    byte_at(config, offsets.timeout_mode as int, "timeout mode"@),
                    byte_at(config, offsets.timeout_seconds as int, "timeout interval"@),
                ) {
                    (Err(error), _, _) => (full, Err(error)),
                    (_, Err(error), _) => (full, Err(error)),
                    (_, _, Err(error)) => (full, Err(error)),
                    _ => (full, Ok(())),
                }
            },
        },
    }
}

fn write_byte(config: &mut Vec<u8>, offset: usize, value: u8, missing: &str) -> (result: Result<()>)
    ensures
        final(config)@ == written_at(old(config)@, offset as int, value),
        match byte_at(old(config)@, offset as int, missing@) {
            Ok(_) => result is Ok,
            Err(error) => result matches Err(e) && e@ == error,
        },
{
    if offset < config.len() {
        config[offset] = value;
        Ok(())
    } else {
        Err(driver_error(text::concat2("WireView configuration did not contain ", missing)))
    }
}

/// Writes display settings into a configuration.
///
/// # Errors
///
/// Returns an error when the configuration is too short or of an unsupported version, or when
/// the settings are out of range.
pub fn set_config_display(config: &mut Vec<u8>, settings: DisplaySettings) -> (result: Result<()>)
    ensures
        (final(config)@, crate::drivers::done(result)) == with_settings(old(config)@, settings),
{
    let version: u8 = read_byte(config.as_slice(), CONFIG_VERSION_OFFSET, "a version")?;
    let offsets = display_offsets(version)?;
    timeout_mode_name(settings.timeout_mode)?;
    if settings.brightness_percent > 100 {
        return Err(too_bright_error(settings.brightness_percent));
    }
    write_byte(config, BACKLIGHT_DUTY_OFFSET, settings.brightness_percent, "backlight duty")?;
    write_byte(config, offsets.timeout_mode, settings.timeout_mode, "timeout mode")?;
    write_byte(config, offsets.timeout_seconds, settings.timeout_seconds, "timeout interval")?;
    Ok(())
}

/// The settings that were written are the settings that are read back, and every byte but
/// the three of them keeps its value.
pub proof fn law_settings_read_back(config: Seq<u8>, settings: DisplaySettings)
    requires
        with_settings(config, settings).1 is Ok,
    ensures
        settings_in(with_settings(config, settings).0) == Ok::<DisplaySettings, ErrorView>(
            settings,
        ),
        with_settings(config, settings).0.len() == config.len(),
        forall|i: int|
            0 <= i < config.len() && i != BACKLIGHT_DUTY_OFFSET && i != offsets_of_version(
                config[CONFIG_VERSION_OFFSET as int],
            )->Ok_0.timeout_mode && i != offsets_of_version(
                config[CONFIG_VERSION_OFFSET as int],
            )->Ok_0.timeout_seconds ==> #[trigger] with_settings(config, settings).0[i]
                == config[i],
{
}

/// Settings for a valid target always fit a configuration of the size of its version.
pub proof fn law_settings_fit(config: Seq<u8>, target: DisplayTarget)
    requires
        config.len() > CONFIG_VERSION_OFFSET,
        size_of_version(config[CONFIG_VERSION_OFFSET as int]) == Ok::<usize, ErrorView>(
            config.len() as usize,
        ),
        config.len() <= usize::MAX,
        settings_for(target) is Ok,
    ensures
        with_settings(config, settings_for(target)->Ok_0).1 is Ok,
{
}

// ---------------------------------------------------------------- frames

/// How many frames carry a configuration.
pub open spec fn frame_count(length: int) -> int {
    (length + CONFIG_FRAME_PAYLOAD - 1) / CONFIG_FRAME_PAYLOAD as int
}

/// The part of a configuration that a frame carries.
pub open spec fn frame_payload(config: Seq<u8>, index: int) -> Seq<u8> {
    let start = CONFIG_FRAME_PAYLOAD * index;
    let end = start + CONFIG_FRAME_PAYLOAD;
    config.subrange(
        start,
        if end < config.len() {
            end
        } else {
            config.len() as int
        },
    )
}

/// One frame: the command, the offset of its payload, and the payload.
pub open spec fn frame_of(config: Seq<u8>, index: int) -> Seq<u8> {
    seq![CMD_WRITE_CONFIG, (CONFIG_FRAME_PAYLOAD * index) as u8] + frame_payload(config, index)
}

/// The first `count` frames of a configuration.
pub open spec fn frames_of(config: Seq<u8>, count: int) -> Seq<Seq<u8>> {
    Seq::new(count as nat, |i: int| frame_of(config, i))
}

/// The frames that carry a configuration, unless it is too large for their offsets.
pub open spec fn framed(config: Seq<u8>) -> Reply<Seq<Seq<u8>>> {
    if config.len() > 310 {
        Err(ErrorView::Driver("WireView configuration is too large"@))
    } else {
        Ok(frames_of(config, frame_count(config.len() as int)))
    }
}

/// The bytes of each list.
pub open spec fn byte_lists(lists: Seq<Vec<u8>>) -> Seq<Seq<u8>> {
    Seq::new(lists.len(), |i: int| lists[i]@)
}

/// The outcome of a split into frames.
pub open spec fn frames_outcome(result: Result<Vec<Vec<u8>>>) -> Reply<Seq<Seq<u8>>> {
    match result {
        Ok(frames) => Ok(byte_lists(frames@)),
        Err(error) => Err(error@),
    }
}

/// Splits a configuration into frames.
///
/// # Errors
///
/// Returns an error when an offset would not fit in its byte.
pub fn config_frames(config: &[u8]) -> (result: Result<Vec<Vec<u8>>>)
    ensures
        frames_outcome(result) == framed(config@),
{
    if config.len() > 310 {
        return Err(driver_error("WireView configuration is too large".to_owned()));
    }
    let mut frames: Vec<Vec<u8>> = Vec::new();
    let mut offset: usize = 0;
    let ghost mut index: int = 0;
    while offset < config.len()
        invariant
            config@.len() <= 310,
            offset == CONFIG_FRAME_PAYLOAD * index,
            index >= 0,
            offset < config@.len() + CONFIG_FRAME_PAYLOAD,
            byte_lists(frames@) =~= frames_of(config@, index),
        decreases config@.len() + CONFIG_FRAME_PAYLOAD - offset,
    {
        let mut end: usize = offset + CONFIG_FRAME_PAYLOAD;
        if end > config.len() {
            end = config.len();
        }
        let mut frame: Vec<u8> = Vec::new();
        frame.push(CMD_WRITE_CONFIG);
        frame.push(offset as u8);
        let mut at: usize = offset;
        while at < end
            invariant
                offset <= at <= end <= config@.len(),
                offset <= 248,
                frame@ =~= seq![CMD_WRITE_CONFIG, offset as u8] + config@.subrange(
                    offset as int,
                    at as int,
                ),
            decreases end - at,
        {
            frame.push(config[at]);
            at += 1;
        }
        assert(frame@ =~= frame_of(config@, index));
        let ghost before = frames@;
        frames.push(frame);
        proof {
            assert(byte_lists(frames@) =~= byte_lists(before).push(frame@));
            assert(frames_of(config@, index + 1) =~= frames_of(config@, index).push(
                frame_of(config@, index),
            ));
            index = index + 1;
        }
        offset += CONFIG_FRAME_PAYLOAD;
    }
    assert(index == frame_count(config@.len() as int));
    Ok(frames)
}

/// The payloads of the first `count` frames, one after another.
pub open spec fn payloads(frames: Seq<Seq<u8>>, count: int) -> Seq<u8>
    decreases count,
{
    if count <= 0 {
        Seq::empty()
    } else {
        payloads(frames, count - 1) + frames[count - 1].skip(2)
    }
}

/// The payloads of the frames of a configuration are the configuration.
pub proof fn law_frames_carry_everything(config: Seq<u8>)
    requires
        framed(config) is Ok,
    ensures
        payloads(framed(config)->Ok_0, framed(config)->Ok_0.len() as int) == config,
{
    let count = frame_count(config.len() as int);
    lemma_payloads(config, count, count);
    assert(payloads(frames_of(config, count), count) =~= config);
}

proof fn lemma_payloads(config: Seq<u8>, count: int, upto: int)
    requires
        0 <= upto <= count,
        count == frame_count(config.len() as int),
    ensures
        payloads(frames_of(config, count), upto) == config.take(
            if CONFIG_FRAME_PAYLOAD * upto < config.len() {
                CONFIG_FRAME_PAYLOAD * upto
            } else {
                config.len() as int
            },
        ),
    decreases upto,
{
    let frames = frames_of(config, count);
    if upto <= 0 {
        assert(payloads(frames, upto) =~= config.take(0));
    } else {
        lemma_payloads(config, count, upto - 1);
        assert(frames[upto - 1] == frame_of(config, upto - 1));
        assert(frames[upto - 1].skip(2) =~= frame_payload(config, upto - 1));
        assert(payloads(frames, upto) =~= config.take(
            if CONFIG_FRAME_PAYLOAD * upto < config.len() {
                CONFIG_FRAME_PAYLOAD * upto
            } else {
                config.len() as int
            },
        ));
    }
}

// ---------------------------------------------------------------- display changes

/// A serial operation that can fail.
#[derive(Clone, Copy, Debug, PartialEq, Eq, Structural)]
pub enum PortStep {
    /// Discarding input that was not read.
    ClearInput,
    /// Raising the request-to-send line.
    StartHandshake,
    /// Reading the welcome message.
    ReadWelcome,
    /// Lowering the request-to-send line.
    FinishHandshake,
    /// Asking for the identity.
    RequestIdentity,
    /// Flushing that request.
    FlushIdentityRequest,
    /// Reading the identity.
    ReadIdentity,
    /// Asking for the configuration.
    RequestConfig,
    /// Flushing that request.
    FlushConfigRequest,
    /// Reading the first bytes of the configuration.
    ReadConfigHeader,
    /// Reading the rest of the configuration.
    ReadConfig,
    /// Writing a frame.
    WriteConfig,
    /// Flushing the frames.
    FlushConfig,
    /// Asking for a repaint.
    Repaint,
    /// Flushing that request.
    FlushRepaint,
}

/// The error of a serial operation.
pub open spec fn step_failure(alias: Seq<char>, step: PortStep, reason: Seq<char>) -> ErrorView {
    let action = match step {
        PortStep::ReadWelcome => "read welcome message"@,
        PortStep::RequestIdentity => "request device identity"@,
        PortStep::FlushIdentityRequest => "flush device identity request"@,
        PortStep::ReadIdentity => "read device identity"@,
        PortStep::RequestConfig => "request configuration"@,
        PortStep::FlushConfigRequest => "flush configuration request"@,
        PortStep::ReadConfigHeader => "read configuration header"@,
        PortStep::ReadConfig => "read configuration"@,
        PortStep::WriteConfig => "write configuration"@,
        PortStep::FlushConfig => "flush configuration"@,
        PortStep::Repaint => "refresh display"@,
        _ => "flush display refresh"@,
    };
    match step {
        PortStep::ClearInput => ErrorView::Driver(
            "could not clear WireView device '"@ + alias + "' input: "@ + reason,
        ),
        PortStep::StartHandshake => ErrorView::Driver(
            "could not start WireView device '"@ + alias + "' handshake: "@ + reason,
        ),
        PortStep::FinishHandshake => ErrorView::Driver(
            "could not finish WireView device '"@ + alias + "' handshake: "@ + reason,
        ),
        _ => ErrorView::Driver(
            "could not "@ + action + " for WireView device '"@ + alias + "': "@ + reason,
        ),
    }
}

/// The error of a serial operation.
pub fn step_error(alias: &str, step: PortStep, reason: &str) -> (error: FeatherError)
    ensures
        error@ == step_failure(alias@, step, reason@),
{
    match step {
        PortStep::ClearInput => driver_error(
            text::concat4("could not clear WireView device '", alias, "' input: ", reason),
        ),
        PortStep::StartHandshake => driver_error(
            text::concat4("could not start WireView device '", alias, "' handshake: ", reason),
        ),
        PortStep::FinishHandshake => driver_error(
            text::concat4("could not finish WireView device '", alias, "' handshake: ", reason),
        ),
        PortStep::ReadWelcome => io_error(alias, "read welcome message", reason),
        PortStep::RequestIdentity => io_error(alias, "request device identity", reason),
        PortStep::FlushIdentityRequest => io_error(alias, "flush device identity request", reason),
        PortStep::ReadIdentity => io_error(alias, "read device identity", reason),
        PortStep::RequestConfig => io_error(alias, "request configuration", reason),
        PortStep::FlushConfigRequest => io_error(alias, "flush configuration request", reason),
        PortStep::ReadConfigHeader => io_error(alias, "read configuration header", reason),
        PortStep::ReadConfig => io_error(alias, "read configuration", reason),
        PortStep::WriteConfig => io_error(alias, "write configuration", reason),
        PortStep::FlushConfig => io_error(alias, "flush configuration", reason),
        PortStep::Repaint => io_error(alias, "refresh display", reason),
        PortStep::FlushRepaint => io_error(alias, "flush display refresh", reason),
    }
}

/// The error of a failed port enumeration.
pub fn enumerate_error(reason: &str) -> (error: FeatherError)
    ensures
        error@ == ErrorView::Driver("could not enumerate serial ports: "@ + reason@),
{
    driver_error(text::concat2("could not enumerate serial ports: ", reason))
}

/// The error of a port that cannot be opened.
pub fn open_error(alias: &str, path: &str, reason: &str) -> (error: FeatherError)
    ensures
        error@ == ErrorView::Driver(
            "could not open WireView device '"@ + alias@ + "' at "@ + path@ + ": "@ + reason@,
        ),
{
    driver_error(
        text::concat6("could not open WireView device '", alias, "' at ", path, ": ", reason),
    )
}

/// A WireView that no port belongs to.
pub open spec fn unavailable(alias: Seq<char>, serial: Seq<char>) -> ErrorView {
    ErrorView::Driver(
        "WireView device '"@ + alias + "' with serial '"@ + serial + "' is unavailable"@,
    )
}

/// The port of a WireView.
///
/// # Errors
///
/// Returns an error when no port has the serial number.
pub fn select_port<'a>(alias: &str, ports: &'a Vec<WireViewPort>, serial: &str) -> (result: Result<
    &'a WireViewPort,
>)
    ensures
        match crate::search::first(
            port_at(views::list(ports@), serial@),
            0,
            ports@.len() as int,
        ) {
            Some(at) => 0 <= at < ports@.len() && result == Ok::<&WireViewPort, FeatherError>(
                &ports@[at],
            ),
            None => result matches Err(error) && error@ == unavailable(alias@, serial@),
        },
{
    match find_port(ports, serial) {
        Some(port) => Ok(port),
        None => Err(
            driver_error(
                text::concat5(
                    "WireView device '",
                    alias,
                    "' with serial '",
                    serial,
                    "' is unavailable",
                ),
            ),
        ),
    }
}

/// What the caller of a [`DisplaySession`] does next.
#[derive(Debug)]
pub enum PortAction {
    /// Clear the input, raise the request-to-send line, read bytes, and lower the line.
    Welcome {
        /// Bytes to read.
        count: usize,
    },
    /// Clear the input, write the request, flush it, and read bytes.
    Ask {
        /// Request byte.
        request: u8,
        /// Bytes to read.
        count: usize,
    },
    /// Read more bytes.
    Read {
        /// Bytes to read.
        count: usize,
    },
    /// Clear the input, write the frames, and flush them.
    Write {
        /// Frames in order.
        frames: Vec<Vec<u8>>,
    },
    /// Write the request and flush it.
    Send {
        /// Request bytes.
        request: Vec<u8>,
    },
    /// Close the port and report the outcome.
    Finish(Result<Json>),
}

/// See [`PortAction`].
pub ghost enum ActionView {
    /// See [`PortAction::Welcome`].
    Welcome {
        /// Bytes to read.
        count: int,
    },
    /// See [`PortAction::Ask`].
    Ask {
        /// Request byte.
        request: u8,
        /// Bytes to read.
        count: int,
    },
    /// See [`PortAction::Read`].
    Read {
        /// Bytes to read.
        count: int,
    },
    /// See [`PortAction::Write`].
    Write {
        /// Frames in order.
        frames: Seq<Seq<u8>>,
    },
    /// See [`PortAction::Send`].
    Send {
        /// Request bytes.
        request: Seq<u8>,
    },
    /// See [`PortAction::Finish`].
    Finish(Reply<JsonView>),
}

impl View for PortAction {
    type V = ActionView;

    open spec fn view(&self) -> ActionView {
        match *self {
            PortAction::Welcome { count } => ActionView::Welcome { count: count as int },
            PortAction::Ask { request, count } => ActionView::Ask { request, count: count as int },
            PortAction::Read { count } => ActionView::Read { count: count as int },
            PortAction::Write { frames } => ActionView::Write { frames: byte_lists(frames@) },
            PortAction::Send { request } => ActionView::Send { request: request@ },
            PortAction::Finish(result) => ActionView::Finish(views::outcome(result)),
        }
    }
}

/// What came of a [`PortAction`].
#[derive(Debug)]
pub enum PortEvent {
    /// It succeeded, with the bytes that were read.
    Done(Vec<u8>),
    /// One of its operations failed.
    Failed {
        /// The operation.
        step: PortStep,
        /// Why it failed.
        reason: String,
    },
}

/// See [`PortEvent`].
pub ghost enum EventView {
    /// See [`PortEvent::Done`].
    Done(Seq<u8>),
    /// See [`PortEvent::Failed`].
    Failed {
        /// The operation.
        step: PortStep,
        /// Why it failed.
        reason: Seq<char>,
    },
}

impl View for PortEvent {
    type V = EventView;

    open spec fn view(&self) -> EventView {
        match *self {
            PortEvent::Done(bytes) => EventView::Done(bytes@),
            PortEvent::Failed { step, reason } => EventView::Failed { step, reason: reason@ },
        }
    }
}

/// How far a display change has come.
#[derive(Debug)]
pub enum Stage {
    /// The welcome message is awaited.
    Welcome,
    /// The identity is awaited.
    Identity,
    /// The first bytes of the configuration are awaited.
    Header {
        /// Firmware version of the device.
        firmware: u8,
    },
    /// The rest of the configuration is awaited.
    Body {
        /// Firmware version of the device.
        firmware: u8,
        /// The first bytes of the configuration.
        header: Vec<u8>,
        /// How many bytes follow them.
        rest: usize,
    },
    /// The changed configuration is being written.
    Writing {
        /// Firmware version of the device.
        firmware: u8,
        /// Settings before the change.
        previous: DisplaySettings,
        /// Settings after the change.
        desired: DisplaySettings,
    },
    /// The screen is being repainted.
    Repainting {
        /// Firmware version of the device.
        firmware: u8,
        /// Settings before the change.
        previous: DisplaySettings,
        /// Settings after the change.
        desired: DisplaySettings,
    },
    /// The conversation is over.
    Over,
}

/// See [`Stage`].
pub ghost enum StageView {
    /// See [`Stage::Welcome`].
    Welcome,
    /// See [`Stage::Identity`].
    Identity,
    /// See [`Stage::Header`].
    Header {
        /// Firmware version of the device.
        firmware: u8,
    },
    /// See [`Stage::Body`].
    Body {
        /// Firmware version of the device.
        firmware: u8,
        /// The first bytes of the configuration.
        header: Seq<u8>,
        /// How many bytes follow them.
        rest: int,
    },
    /// See [`Stage::Writing`].
    Writing {
        /// Firmware version of the device.
        firmware: u8,
        /// Settings before the change.
        previous: DisplaySettings,
        /// Settings after the change.
        desired: DisplaySettings,
    },
    /// See [`Stage::Repainting`].
    Repainting {
        /// Firmware version of the device.
        firmware: u8,
        /// Settings before the change.
        previous: DisplaySettings,
        /// Settings after the change.
        desired: DisplaySettings,
    },
    /// See [`Stage::Over`].
    Over,
}

impl View for Stage {
    type V = StageView;

    open spec fn view(&self) -> StageView {
        match *self {
            Stage::Welcome => StageView::Welcome,
            Stage::Identity => StageView::Identity,
            Stage::Header { firmware } => StageView::Header { firmware },
            Stage::Body { firmware, header, rest } => StageView::Body {
                firmware,
                header: header@,
                rest: rest as int,
            },
            Stage::Writing { firmware, previous, desired } => StageView::Writing {
                firmware,
                previous,
                desired,
            },
            Stage::Repainting { firmware, previous, desired } => StageView::Repainting {
                firmware,
                previous,
                desired,
            },
            Stage::Over => StageView::Over,
        }
    }
}

/// A display change in progress.
#[derive(Debug)]
pub struct DisplaySession {
    /// Device alias.
    pub alias: String,
    /// USB serial number of the device.
    pub serial: String,
    /// The state to put the display in.
    pub target: DisplayTarget,
    /// How far the change has come.
    pub stage: Stage,
}

/// See [`DisplaySession`].
pub ghost struct SessionView {
    /// See [`DisplaySession::alias`].
    pub alias: Seq<char>,
    /// See [`DisplaySession::serial`].
    pub serial: Seq<char>,
    /// See [`DisplaySession::target`].
    pub target: DisplayTarget,
    /// See [`DisplaySession::stage`].
    pub stage: StageView,
}

impl View for DisplaySession {
    type V = SessionView;

    open spec fn view(&self) -> SessionView {
        SessionView {
            alias: self.alias@,
            serial: self.serial@,
            target: self.target,
            stage: self.stage@,
        }
    }
}

/// How many bytes a stage awaits.
pub open spec fn awaited(stage: StageView) -> int {
    match stage {
        StageView::Welcome => 32,
        StageView::Identity => 3,
        StageView::Header { .. } => 4,
        StageView::Body { rest, .. } => rest,
        _ => 0,
    }
}

/// What is reported of a display after a change.
pub open spec fn report(
    target: DisplayTarget,
    desired: DisplaySettings,
    previous: DisplaySettings,
    serial: Seq<char>,
    firmware: u8,
) -> Reply<JsonView> {
    match (mode_name(desired.timeout_mode), mode_name(previous.timeout_mode)) {
        (Err(error), _) => Err(error),
        (_, Err(error)) => Err(error),
        (Ok(mode), Ok(previous_mode)) => Ok(
            JsonView::Object(
                seq![
                    (
                        "state"@,
                        JsonView::Text(
                            match target {
                                DisplayTarget::Awake { .. } => "awake"@,
                                DisplayTarget::Sleep => "sleep"@,
                            },
                        ),
                    ),
                    ("brightness_percent"@, json::number_view(desired.brightness_percent as nat)),
                    ("timeout_mode"@, JsonView::Text(mode)),
                    ("timeout_seconds"@, json::number_view(desired.timeout_seconds as nat)),
                    (
                        "previous_brightness_percent"@,
                        json::number_view(previous.brightness_percent as nat),
                    ),
                    ("previous_timeout_mode"@, JsonView::Text(previous_mode)),
                    (
                        "previous_timeout_seconds"@,
                        json::number_view(previous.timeout_seconds as nat),
                    ),
                    ("serial"@, JsonView::Text(serial)),
                    ("firmware_version"@, json::number_view(firmware as nat)),
                ],
            ),
        ),
    }
}

/// The next stage and action once the whole configuration is known: nothing is written where
/// the display is already in its state.
pub open spec fn configured_next(
    session: SessionView,
    firmware: u8,
    config: Seq<u8>,
) -> (StageView, ActionView) {
    match (settings_in(config), settings_for(session.target)) {
        (Err(error), _) => (StageView::Over, ActionView::Finish(Err(error))),
        (_, Err(error)) => (StageView::Over, ActionView::Finish(Err(error))),
        (Ok(previous), Ok(desired)) => if previous == desired {
            (
                StageView::Over,
                ActionView::Finish(
                    report(session.target, desired, previous, session.serial, firmware),
                ),
            )
        } else {
            let (changed, outcome) = with_settings(config, desired);
            match (outcome, framed(changed)) {
                (Err(error), _) => (StageView::Over, ActionView::Finish(Err(error))),
                (_, Err(error)) => (StageView::Over, ActionView::Finish(Err(error))),
                (Ok(_), Ok(frames)) => (
                    StageView::Writing { firmware, previous, desired },
                    ActionView::Write { frames },
                ),
            }
        },
    }
}

/// A reply of another length than the one awaited.
pub open spec fn wrong_length(alias: Seq<char>) -> ErrorView {
    ErrorView::Driver("WireView device '"@ + alias + "' sent a reply of the wrong length"@)
}

/// How many actions a stage is from the end, at most.
pub open spec fn actions_left(stage: StageView) -> nat {
    match stage {
        StageView::Welcome => 6,
        StageView::Identity => 5,
        StageView::Header { .. } => 4,
        StageView::Body { .. } => 3,
        StageView::Writing { .. } => 2,
        StageView::Repainting { .. } => 1,
        StageView::Over => 0,
    }
}

/// The next stage and action of a display change.
pub open spec fn session_next(session: SessionView, event: EventView) -> (StageView, ActionView) {
    match event {
        EventView::Failed { step, reason } => (
            StageView::Over,
            ActionView::Finish(Err(step_failure(session.alias, step, reason))),
        ),
        EventView::Done(bytes) => if bytes.len() != awaited(session.stage) {
            (StageView::Over, ActionView::Finish(Err(wrong_length(session.alias))))
        } else {
            stage_next(session, bytes)
        },
    }
}

/// The next stage and action of a display change after as many bytes as it awaits.
pub open spec fn stage_next(session: SessionView, bytes: Seq<u8>) -> (StageView, ActionView) {
    match session.stage {
        StageView::Welcome => match welcomed(session.alias, bytes) {
            Err(error) => (StageView::Over, ActionView::Finish(Err(error))),
            Ok(_) => (
                StageView::Identity,
                ActionView::Ask { request: CMD_READ_VENDOR_DATA, count: 3 },
            ),
        },
        StageView::Identity => match identified(session.alias, bytes) {
            Err(error) => (StageView::Over, ActionView::Finish(Err(error))),
            Ok(firmware) => (
                StageView::Header { firmware },
                ActionView::Ask { request: CMD_READ_CONFIG, count: 4 },
            ),
        },
        StageView::Header { firmware } => match size_of_version(
            bytes[CONFIG_VERSION_OFFSET as int],
        ) {
            Err(error) => (StageView::Over, ActionView::Finish(Err(error))),
            Ok(size) => (
                StageView::Body { firmware, header: bytes, rest: size - 4 },
                ActionView::Read { count: size - 4 },
            ),
        },
        StageView::Body { firmware, header, .. } => configured_next(
            session,
            firmware,
            header + bytes,
        ),
        StageView::Writing { firmware, previous, desired } => (
            StageView::Repainting { firmware, previous, desired },
            ActionView::Send { request: seq![CMD_SCREEN_CHANGE, SCREEN_GOTO_SAME] },
        ),
        StageView::Repainting { firmware, previous, desired } => (
            StageView::Over,
            ActionView::Finish(
                report(session.target, desired, previous, session.serial, firmware),
            ),
        ),
        StageView::Over => (
            StageView::Over,
            ActionView::Finish(Err(ErrorView::Driver("WireView display change is over"@))),
        ),
    }
}

fn display_report(
    target: DisplayTarget,
    desired: DisplaySettings,
    previous: DisplaySettings,
    serial: &str,
    firmware: u8,
) -> (result: Result<Json>)
    ensures
        views::outcome(result) == report(target, desired, previous, serial@, firmware),
{
    let mode = timeout_mode_name(desired.timeout_mode)?;
    let previous_mode = timeout_mode_name(previous.timeout_mode)?;
    let state = match target {
        DisplayTarget::Awake { .. } => "awake",
        DisplayTarget::Sleep => "sleep",
    };
    let mut fields: Vec<(String, Json)> = Vec::new();
    json::push_field(&mut fields, "state", Json::string(state));
    json::push_field(
        &mut fields,
        "brightness_percent",
        Json::number(desired.brightness_percent as u64),
    );
    json::push_field(&mut fields, "timeout_mode", Json::string(mode));
    json::push_field(&mut fields, "timeout_seconds", Json::number(desired.timeout_seconds as u64));
    json::push_field(
        &mut fields,
        "previous_brightness_percent",
        Json::number(previous.brightness_percent as u64),
    );
    json::push_field(&mut fields, "previous_timeout_mode", Json::string(previous_mode));
    json::push_field(
        &mut fields,
        "previous_timeout_seconds",
        Json::number(previous.timeout_seconds as u64),
    );
    json::push_field(&mut fields, "serial", Json::string(serial));
    json::push_field(&mut fields, "firmware_version", Json::number(firmware as u64));
    let result = Json::Object(fields);
    proof {
        let wanted = report(target, desired, previous, serial@, firmware);
        assert(wanted is Ok);
        assert(json::fields_view(fields@) =~= wanted->Ok_0->Object_0);
    }
    Ok(result)
}

impl DisplaySession {
    /// Starts a display change.
    pub fn start(alias: &str, serial: &str, target: DisplayTarget) -> (started: (Self, PortAction))
        ensures
            started.0@ == (SessionView {
                alias: alias@,
                serial: serial@,
                target,
                stage: StageView::Welcome,
            }),
            started.1@ == (ActionView::Welcome { count: 32 }),
    {
        (
            DisplaySession {
                alias: alias.to_owned(),
                serial: serial.to_owned(),
                target,
                stage: Stage::Welcome,
            },
            PortAction::Welcome { count: 32 },
        )
    }

    fn plan(&self, firmware: u8, config: Vec<u8>) -> (planned: (Stage, PortAction))
        ensures
            (planned.0@, planned.1@) == configured_next(self@, firmware, config@),
    {
        let mut config = config;
        let previous = match display_settings(config.as_slice()) {
            Ok(settings) => settings,
            Err(error) => return (Stage::Over, PortAction::Finish(Err(error))),
        };
        let desired = match desired_display_settings(self.target) {
            Ok(settings) => settings,
            Err(error) => return (Stage::Over, PortAction::Finish(Err(error))),
        };
        if previous == desired {
            return (
                Stage::Over,
                PortAction::Finish(
                    display_report(
                        self.target,
                        desired,
                        previous,
                        self.serial.as_str(),
                        firmware,
                    ),
                ),
            );
        }
        if let Err(error) = set_config_display(&mut config, desired) {
            return (Stage::Over, PortAction::Finish(Err(error)));
        }
        match config_frames(config.as_slice()) {
            Err(error) => (Stage::Over, PortAction::Finish(Err(error))),
            Ok(frames) => (
                Stage::Writing { firmware, previous, desired },
                PortAction::Write { frames },
            ),
        }
    }

    fn awaits(&self) -> (count: usize)
        ensures
            count == awaited(self@.stage),
    {
        match &self.stage {
            Stage::Welcome => 32,
            Stage::Identity => 3,
            Stage::Header { .. } => 4,
            Stage::Body { rest, .. } => *rest,
            _ => 0,
        }
    }

    /// Takes what came of the last action and decides the next one.
    pub fn next(&mut self, event: PortEvent) -> (action: PortAction)
        ensures
            ({
                let (stage, next) = session_next(old(self)@, event@);
                &&& final(self)@ == (SessionView { stage, ..old(self)@ })
                &&& action@ == next
            }),
    {
        let (stage, action) = match event {
            PortEvent::Failed { step, reason } => (
                Stage::Over,
                PortAction::Finish(Err(step_error(self.alias.as_str(), step, reason.as_str()))),
            ),
            PortEvent::Done(bytes) => if bytes.len() != self.awaits() {
                (
                    Stage::Over,
                    PortAction::Finish(
                        Err(
                            driver_error(
                                text::concat3(
                                    "WireView device '",
                                    self.alias.as_str(),
                                    "' sent a reply of the wrong length",
                                ),
                            ),
                        ),
                    ),
                )
            } else {
                match &self.stage {
                    Stage::Welcome => match validate_welcome(self.alias.as_str(), bytes.as_slice()) {
                        Err(error) => (Stage::Over, PortAction::Finish(Err(error))),
                        Ok(()) => (
                            Stage::Identity,
                            PortAction::Ask { request: CMD_READ_VENDOR_DATA, count: 3 },
                        ),
                    },
                    Stage::Identity => match verify_device(self.alias.as_str(), &bytes) {
                        Err(error) => (Stage::Over, PortAction::Finish(Err(error))),
                        Ok(firmware) => (
                            Stage::Header { firmware },
                            PortAction::Ask { request: CMD_READ_CONFIG, count: 4 },
                        ),
                    },
                    Stage::Header { firmware } => match config_size(bytes[CONFIG_VERSION_OFFSET]) {
                        Err(error) => (Stage::Over, PortAction::Finish(Err(error))),
                        Ok(size) => (
                            Stage::Body { firmware: *firmware, header: bytes, rest: size - 4 },
                            PortAction::Read { count: size - 4 },
                        ),
                    },
                    Stage::Body { firmware, header, .. } => {
                        let mut config: Vec<u8> = Vec::new();
                        config.extend_from_slice(header.as_slice());
                        config.extend_from_slice(bytes.as_slice());
                        assert(config@ =~= header@ + bytes@);
                        self.plan(*firmware, config)
                    },
                    Stage::Writing { firmware, previous, desired } => {
                        let request: Vec<u8> = vec![CMD_SCREEN_CHANGE, SCREEN_GOTO_SAME];
                        assert(request@ =~= seq![CMD_SCREEN_CHANGE, SCREEN_GOTO_SAME]);
                        (
                            Stage::Repainting {
                                firmware: *firmware,
                                previous: *previous,
                                desired: *desired,
                            },
                            PortAction::Send { request },
                        )
                    },
                    Stage::Repainting { firmware, previous, desired } => (
                        Stage::Over,
                        PortAction::Finish(
                            display_report(
                                self.target,
                                *desired,
                                *previous,
                                self.serial.as_str(),
                                *firmware,
                            ),
                        ),
                    ),
                    Stage::Over => (
                        Stage::Over,
                        PortAction::Finish(
                            Err(driver_error("WireView display change is over".to_owned())),
                        ),
                    ),
                }
            },
        };
        self.stage = stage;
        action
    }
}

/// Every display change ends: whatever the device sends, each action brings it nearer to its
/// end, and a change that awaits something is not over.
pub proof fn law_display_changes_end(session: SessionView, event: EventView)
    ensures
        !(session.stage is Over) ==> actions_left(session_next(session, event).0) < actions_left(
            session.stage,
        ),
        !(session_next(session, event).1 is Finish) ==> !(session_next(session, event).0 is Over),
{
}

/// A display that is already in its state is not written to.
pub proof fn law_unchanged_display_is_not_written(session: SessionView, firmware: u8, config: Seq<u8>)
    requires
        settings_in(config) is Ok,
        settings_in(config) == settings_for(session.target),
    ensures
        configured_next(session, firmware, config).1 is Finish,
{
}

/// What is written to a display reads back as the settings of its state.
pub proof fn law_written_display_is_in_its_state(session: SessionView, firmware: u8, config: Seq<u8>)
    requires
        configured_next(session, firmware, config).1 is Write,
    ensures
        ({
            let frames = configured_next(session, firmware, config).1->frames;
            settings_in(payloads(frames, frames.len() as int)) == settings_for(session.target)
        }),
{
    let desired = settings_for(session.target)->Ok_0;
    let changed = with_settings(config, desired).0;
    law_settings_read_back(config, desired);
    law_frames_carry_everything(changed);
}

/// Where a configuration of a version has its timeout mode and its timeout interval.
pub open spec fn timeout_bytes(version: u8) -> (int, int) {
    if version == 0 {
        (68, 71)
    } else if version == 1 {
        (69, 72)
    } else {
        (72, 75)
    }
}

/// Settings are written to byte 44, the brightness, and to two bytes that the version tells: 68
/// and 71, 69 and 72, or 72 and 75. Every other byte stays as it is.
pub proof fn law_settings_stand_at_their_bytes(config: Seq<u8>, settings: DisplaySettings)
    ensures
        with_settings(config, settings).1 is Ok <==> {
            &&& config.len() > 2 && config[2] <= 2
            &&& config.len() > timeout_bytes(config[2]).1
            &&& settings.brightness_percent <= 100
            &&& settings.timeout_mode <= 2
        },
        with_settings(config, settings).1 is Ok ==> {
            let written = with_settings(config, settings).0;
            let (mode, seconds) = timeout_bytes(config[2]);
            &&& written.len() == config.len()
            &&& written[44] == settings.brightness_percent
            &&& written[mode] == settings.timeout_mode
            &&& written[seconds] == settings.timeout_seconds
            &&& forall|i: int|
                0 <= i < config.len() && i != 44 && i != mode && i != seconds
                    ==> #[trigger] written[i] == config[i]
        },
{
}

/// Settings are read from the bytes that they are written to, unless they are none that a display
/// can have.
pub proof fn law_settings_are_read_from_their_bytes(config: Seq<u8>)
    ensures
        settings_in(config) is Ok <==> {
            &&& config.len() > 2 && config[2] <= 2
            &&& config.len() > timeout_bytes(config[2]).1
            &&& config[44] <= 100
            &&& config[timeout_bytes(config[2]).0] <= 2
        },
        settings_in(config) matches Ok(settings) ==> {
            &&& settings.brightness_percent == config[44]
            &&& settings.timeout_mode == config[timeout_bytes(config[2]).0]
            &&& settings.timeout_seconds == config[timeout_bytes(config[2]).1]
        },
{
}

/// A display that is put to sleep gets brightness zero, timeout mode two, and five seconds. One
/// that is woken gets its brightness, timeout mode zero, and thirty seconds.
pub proof fn law_targets_have_their_settings(brightness: u8)
    ensures
        settings_for(DisplayTarget::Sleep) matches Ok(settings) && {
            &&& settings.brightness_percent == 0
            &&& settings.timeout_mode == 2
            &&& settings.timeout_seconds == 5
        },
        settings_for(DisplayTarget::Awake { brightness_percent: brightness }) is Ok <==> brightness
            <= 100,
        settings_for(
            DisplayTarget::Awake { brightness_percent: brightness },
        ) matches Ok(settings) ==> {
            &&& settings.brightness_percent == brightness
            &&& settings.timeout_mode == 0
            &&& settings.timeout_seconds == 30
        },
{
}

/// A configuration is written in frames of the command 0x06, the offset, and up to 62 bytes of the
/// configuration from there.
pub proof fn law_frames_say_where_they_belong(config: Seq<u8>, at: int)
    ensures
        framed(config) is Ok <==> config.len() <= 310,
        framed(config) matches Ok(frames) ==> {
            &&& 62 * frames.len() >= config.len()
            &&& 62 * frames.len() < config.len() + 62
            &&& 0 <= at < frames.len() ==> {
                &&& frames[at][0] == 0x06
                &&& frames[at][1] == 62 * at
                &&& frames[at].skip(2) == config.subrange(
                    62 * at,
                    if 62 * at + 62 < config.len() {
                        62 * at + 62
                    } else {
                        config.len() as int
                    },
                )
            }
        },
{
    if let Ok(frames) = framed(config) {
        if 0 <= at < frames.len() {
            assert(frames[at] == frame_of(config, at));
            assert(frames[at].skip(2) =~= frame_payload(config, at));
        }
    }
}

/// A display that is not yet in its state is put there by what is written to it: the configuration
/// that it sent, with the settings of the state and no other change.
pub proof fn law_display_is_put_in_its_state(
    session: SessionView,
    firmware: u8,
    header: Seq<u8>,
    bytes: Seq<u8>,
)
    requires
        session.stage matches StageView::Body { firmware: own, header: first, rest } && own
            == firmware && first == header && rest == bytes.len(),
        session_next(session, EventView::Done(bytes)).1 is Write,
    ensures
        ({
            let config = header + bytes;
            let frames = session_next(session, EventView::Done(bytes)).1->frames;
            let written = payloads(frames, frames.len() as int);
            let (mode, seconds) = timeout_bytes(config[2]);
            &&& config[2] <= 2
            &&& written.len() == config.len()
            &&& match session.target {
                DisplayTarget::Sleep => {
                    &&& written[44] == 0
                    &&& written[mode] == 2
                    &&& written[seconds] == 5
                },
                DisplayTarget::Awake { brightness_percent } => {
                    &&& written[44] == brightness_percent
                    &&& written[mode] == 0
                    &&& written[seconds] == 30
                },
            }
            &&& forall|i: int|
                0 <= i < config.len() && i != 44 && i != mode && i != seconds
                    ==> #[trigger] written[i] == config[i]
        }),
{
    let config = header + bytes;
    let desired = settings_for(session.target)->Ok_0;
    law_settings_stand_at_their_bytes(config, desired);
    law_frames_carry_everything(with_settings(config, desired).0);
    match session.target {
        DisplayTarget::Sleep => {
            law_targets_have_their_settings(0);
        },
        DisplayTarget::Awake { brightness_percent } => {
            law_targets_have_their_settings(brightness_percent);
        },
    }
}

/// A whole configuration with settings that a display can have is either in its state already, or
/// is written.
pub proof fn law_display_changes_are_made(
    session: SessionView,
    firmware: u8,
    header: Seq<u8>,
    bytes: Seq<u8>,
)
    requires
        session.stage matches StageView::Body { firmware: own, header: first, rest } && own
            == firmware && first == header && rest == bytes.len(),
        settings_in(header + bytes) is Ok,
        (header + bytes).len() <= 310,
        session.target matches DisplayTarget::Awake { brightness_percent } ==> brightness_percent
            <= 100,
    ensures
        ({
            let config = header + bytes;
            let (mode, seconds) = timeout_bytes(config[2]);
            let there = match session.target {
                DisplayTarget::Sleep => config[44] == 0 && config[mode] == 2 && config[seconds]
                    == 5,
                DisplayTarget::Awake { brightness_percent } => config[44] == brightness_percent
                    && config[mode] == 0 && config[seconds] == 30,
            };
            &&& there ==> (session_next(session, EventView::Done(bytes)).1 matches ActionView::Finish(
                Ok(_),
            ))
            &&& !there ==> session_next(session, EventView::Done(bytes)).1 is Write
        }),
{
    let config = header + bytes;
    law_settings_are_read_from_their_bytes(config);
    let desired = settings_for(session.target)->Ok_0;
    law_settings_stand_at_their_bytes(config, desired);
}

/// A display is asked for its identity by the command 0x01, three bytes of which the first two are
/// 0xef and 0x05, then for its configuration by the command 0x05, whose size its version tells,
/// and after a write to paint its screen again by the bytes 0x0c and 0xef.
pub proof fn law_displays_are_asked_in_order(session: SessionView, bytes: Seq<u8>)
    requires
        bytes.len() == awaited(session.stage),
    ensures
        ({
            let (stage, action) = session_next(session, EventView::Done(bytes));
            match session.stage {
                StageView::Welcome => if bytes == welcome_bytes() {
                    stage is Identity && action == (ActionView::Ask { request: 0x01, count: 3 })
                } else {
                    action matches ActionView::Finish(Err(_))
                },
                StageView::Identity => if bytes[0] == 0xef && bytes[1] == 0x05 {
                    &&& stage == (StageView::Header { firmware: bytes[2] })
                    &&& action == (ActionView::Ask { request: 0x05, count: 4 })
                } else {
                    action matches ActionView::Finish(Err(_))
                },
                StageView::Header { firmware } => if bytes[2] <= 2 {
                    let rest: int = if bytes[2] == 0 {
                        68
                    } else if bytes[2] == 1 {
                        70
                    } else {
                        92
                    };
                    &&& stage == (StageView::Body { firmware, header: bytes, rest })
                    &&& action == (ActionView::Read { count: rest })
                } else {
                    action matches ActionView::Finish(Err(_))
                },
                StageView::Writing { .. } => {
                    &&& stage is Repainting
                    &&& action == (ActionView::Send { request: seq![0x0cu8, 0xefu8] })
                },
                StageView::Repainting { .. } => action is Finish,
                _ => true,
            }
        }),
        session.stage is Identity ==> bytes.len() == 3,
        session.stage is Header ==> bytes.len() == 4,
{
}

/// A display change fails as soon as one of its steps does.
pub proof fn law_failed_step_ends_the_change(
    session: SessionView,
    step: PortStep,
    why: Seq<char>,
)
    ensures
        session_next(session, EventView::Failed { step, reason: why }).1 matches ActionView::Finish(
            Err(_),
        ),
{
}

/// A serial port is that of a display exactly where it is a USB port with vendor 0x0483, product
/// 0x5740, and a serial number, which counts without white space around it.
pub proof fn law_ports_are_recognised(info: SerialPortInfo)
    ensures
        port_of(info) is Some <==> (info.usb matches Some(usb) && usb.vid == 0x0483 && usb.pid
            == 0x5740 && (usb.serial_number matches Some(serial) && !text::blank(serial@))),
        port_of(info) matches Some(port) ==> port.path == info.path@ && port.serial
            == text::trimmed(info.usb->0.serial_number->0@),
{
}

proof fn lemma_port_listed(infos: Seq<SerialPortInfo>, count: int, at: int)
    requires
        0 <= at < count <= infos.len(),
        port_of(infos[at]) is Some,
    ensures
        ports_of(infos, count).contains(port_of(infos[at])->0),
    decreases count,
{
    let ports = ports_of(infos, count);
    if at == count - 1 {
        assert(ports.last() == port_of(infos[at])->0);
    } else {
        lemma_port_listed(infos, count - 1, at);
        let earlier = ports_of(infos, count - 1);
        let i = choose|i: int| 0 <= i < earlier.len() && earlier[i] == port_of(infos[at])->0;
        assert(ports[i] == earlier[i]);
    }
}

/// Every port of a display is listed.
pub proof fn law_every_display_port_is_listed(infos: Seq<SerialPortInfo>, at: int)
    requires
        0 <= at < infos.len(),
        port_of(infos[at]) is Some,
    ensures
        ports_of(infos, infos.len() as int).contains(port_of(infos[at])->0),
{
    lemma_port_listed(infos, infos.len() as int, at);
}

/// The port that is opened for a display is the first with its serial number, in any case.
pub proof fn law_opened_port_is_the_one_configured(
    ports: Seq<PortView>,
    serial: Seq<char>,
    other: int,
)
    ensures
        match crate::search::first(port_at(ports, serial), 0, ports.len() as int) {
            Some(at) => {
                &&& 0 <= at < ports.len() && text::lower(ports[at].serial) == text::lower(serial)
                &&& 0 <= other < at ==> text::lower(ports[other].serial) != text::lower(serial)
            },
            None => 0 <= other < ports.len() ==> text::lower(ports[other].serial) != text::lower(
                serial,
            ),
        },
{
    let check = port_at(ports, serial);
    if crate::search::first(check, 0, ports.len() as int) is Some {
        let at = crate::search::lemma_some(check, 0, ports.len() as int);
        if 0 <= other < at {
            assert(check(other) is None);
        }
    } else {
        crate::search::lemma_none(check, 0, ports.len() as int);
        if 0 <= other < ports.len() {
            assert(check(other) is None);
        }
    }
}

proof fn lemma_displays_found(
    configured: names::Entries<DeviceConfig>,
    ports: Seq<PortView>,
    count: int,
    which: int,
)
    requires
        0 <= which < count <= configured.len(),
        configured[which].1 is WireViewProIi,
        crate::search::first(
            port_at(ports, configured[which].1->serial@),
            0,
            ports.len() as int,
        ) is Some,
    ensures
        configured_ports(configured, ports, count).contains(
            with_alias(
                described(
                    ports[crate::search::first(
                        port_at(ports, configured[which].1->serial@),
                        0,
                        ports.len() as int,
                    )->0],
                ),
                configured[which].0,
            ),
        ),
    decreases count,
{
    let list = configured_ports(configured, ports, count);
    if which == count - 1 {
        assert(list[list.len() - 1] == list.last());
    } else {
        lemma_displays_found(configured, ports, count - 1, which);
        let earlier = configured_ports(configured, ports, count - 1);
        let device = with_alias(
            described(
                ports[crate::search::first(
                    port_at(ports, configured[which].1->serial@),
                    0,
                    ports.len() as int,
                )->0],
            ),
            configured[which].0,
        );
        let i = choose|i: int| 0 <= i < earlier.len() && earlier[i] == device;
        assert(list[i] == device);
    }
}

/// Each configured display with a port is found, under its alias.
pub proof fn law_configured_displays_are_found(
    configured: names::Entries<DeviceConfig>,
    ports: Seq<PortView>,
    which: int,
    port: int,
)
    requires
        0 <= which < configured.len(),
        configured[which].1 is WireViewProIi,
        0 <= port < ports.len(),
        text::lower(ports[port].serial) == text::lower(configured[which].1->serial@),
    ensures
        exists|i: int|
            {
                &&& 0 <= i < ports.len()
                &&& text::lower((#[trigger] ports[i]).serial) == text::lower(
                    configured[which].1->serial@,
                )
                &&& configured_ports(configured, ports, configured.len() as int).contains(
                    with_alias(described(ports[i]), configured[which].0),
                )
            },
{
    let serial = configured[which].1->serial@;
    law_opened_port_is_the_one_configured(ports, serial, port);
    let i = crate::search::first(port_at(ports, serial), 0, ports.len() as int)->0;
    lemma_displays_found(configured, ports, configured.len() as int, which);
    assert(text::lower(ports[i].serial) == text::lower(serial));
}

/// A display greets with its name and a zero.
pub proof fn law_welcome_is_the_name()
    ensures
        welcome_bytes().len() == 32,
        welcome_bytes()[31] == 0,
        "Thermal Grizzly WireView Pro II"@.len() == 31,
        forall|i: int|
            0 <= i < 31 ==> #[trigger] welcome_bytes()[i]
                == "Thermal Grizzly WireView Pro II"@[i] as u8,
{
    reveal_strlit("Thermal Grizzly WireView Pro II");
    let name = "Thermal Grizzly WireView Pro II"@;
    assert(welcome_bytes() =~= Seq::new(
        32,
        |i: int|
            if i < 31 {
                name[i] as u8
            } else {
                0u8
            },
    ));
}

/// The report of a display change shows the state, and the settings before and after it.
pub proof fn law_display_report_shows_the_change(
    target: DisplayTarget,
    desired: DisplaySettings,
    previous: DisplaySettings,
    serial: Seq<char>,
    firmware: u8,
)
    requires
        report(target, desired, previous, serial, firmware) is Ok,
    ensures
        report(target, desired, previous, serial, firmware)->Ok_0 matches JsonView::Object(fields)
            && {
            &&& fields.len() == 9
            &&& fields[0].0 == "state"@ && fields[0].1 == JsonView::Text(
                if target is Sleep {
                    "sleep"@
                } else {
                    "awake"@
                },
            )
            &&& fields[1].0 == "brightness_percent"@ && fields[1].1 == JsonView::Number(
                json::Number::Positive(desired.brightness_percent as u64),
            )
            &&& fields[3].0 == "timeout_seconds"@ && fields[3].1 == JsonView::Number(
                json::Number::Positive(desired.timeout_seconds as u64),
            )
            &&& fields[4].0 == "previous_brightness_percent"@ && fields[4].1 == JsonView::Number(
                json::Number::Positive(previous.brightness_percent as u64),
            )
            &&& fields[6].0 == "previous_timeout_seconds"@ && fields[6].1 == JsonView::Number(
                json::Number::Positive(previous.timeout_seconds as u64),
            )
            &&& fields[7].0 == "serial"@ && fields[7].1 == JsonView::Text(serial)
        },
{
}

} // verus!
