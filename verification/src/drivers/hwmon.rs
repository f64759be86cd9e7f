//! Linux `hwmon` discovery and sensor selection.

use vstd::prelude::*;

use crate::config::SensorConfig;
use crate::drivers::Reply;
use crate::error;
use crate::error::ErrorView;
use crate::error::FeatherError;
use crate::error::Result;
use crate::names;
use crate::names::NameMap;
use crate::text;
use crate::types::DescriptorView;
use crate::types::DeviceDescriptor;
use crate::views;

verus! {

/// A file in a hwmon directory.
#[derive(Debug)]
pub struct HwmonFile {
    /// File name.
    pub name: String,
    /// Path of the file.
    pub path: String,
    /// Contents of the label file that belongs to it, if that can be read.
    pub label: Option<String>,
}

/// A hwmon directory.
#[derive(Debug)]
pub struct HwmonDirectory {
    /// Path of the directory.
    pub path: String,
    /// Contents of its name file, if that can be read.
    pub chip: Option<String>,
    /// Path of the physical device, or of the directory where there is none.
    pub device: String,
    /// Its files, or why they cannot be listed.
    pub files: std::result::Result<Vec<HwmonFile>, String>,
}

impl View for HwmonDirectory {
    type V = HwmonDirectory;

    open spec fn view(&self) -> HwmonDirectory {
        *self
    }
}

/// The directories of all hwmon chips.
#[derive(Debug)]
pub struct HwmonListing {
    /// Path of the directory that holds them.
    pub base: String,
    /// The directories by path, or why they cannot be listed.
    pub directories: std::result::Result<NameMap<HwmonDirectory>, String>,
}

fn driver_error(message: String) -> (error: FeatherError)
    ensures
        error@ == ErrorView::Driver(message@),
{
    FeatherError::Driver(message)
}

// ---------------------------------------------------------------- files

/// Whether a file name is that of a temperature input.
pub open spec fn is_input(name: Seq<char>) -> bool {
    text::has_prefix(name, "temp"@) && text::has_suffix(name, "_input"@)
}

/// A file name without the endings of an input.
pub open spec fn stem_of(name: Seq<char>) -> Seq<char>
    decreases name.len(),
{
    if name.len() >= 6 && name.skip(name.len() - 6) == seq!['_', 'i', 'n', 'p', 'u', 't'] {
        stem_of(name.take(name.len() - 6))
    } else {
        name
    }
}

fn ends_in_input(chars: &Vec<char>, end: usize) -> (result: bool)
    requires
        end <= chars@.len(),
    ensures
        result == (end >= 6 && chars@.take(end as int).skip(end - 6) == seq![
            '_',
            'i',
            'n',
            'p',
            'u',
            't',
        ]),
{
    if end < 6 {
        return false;
    }
    let ghost tail = chars@.take(end as int).skip(end - 6);
    let result = chars[end - 6] == '_' && chars[end - 5] == 'i' && chars[end - 4] == 'n'
        && chars[end - 3] == 'p' && chars[end - 2] == 'u' && chars[end - 1] == 't';
    proof {
        let wanted = seq!['_', 'i', 'n', 'p', 'u', 't'];
        assert(tail.len() == 6);
        assert(tail[0] == chars@[end - 6]);
        assert(tail[1] == chars@[end - 5]);
        assert(tail[2] == chars@[end - 4]);
        assert(tail[3] == chars@[end - 3]);
        assert(tail[4] == chars@[end - 2]);
        assert(tail[5] == chars@[end - 1]);
        if result {
            assert(tail =~= wanted);
        } else {
            assert(wanted[0] == '_' && wanted[1] == 'i' && wanted[2] == 'n' && wanted[3] == 'p'
                && wanted[4] == 'u' && wanted[5] == 't');
        }
    }
    result
}

/// Removes the endings of an input from a file name.
pub fn input_stem(name: &str) -> (stem: String)
    ensures
        stem@ == stem_of(name@),
{
    let chars = text::to_chars(name);
    let mut end: usize = chars.len();
    assert(chars@.take(end as int) =~= name@);
    while ends_in_input(&chars, end)
        invariant
            chars@ == name@,
            end <= chars@.len(),
            stem_of(name@) == stem_of(chars@.take(end as int)),
        decreases end,
    {
        assert(chars@.take(end as int).take(end - 6) =~= chars@.take(end - 6));
        end -= 6;
    }
    let stem = text::from_chars(&chars, 0, end);
    assert(stem@ =~= chars@.take(end as int));
    stem
}

/// The name of the label file that belongs to an input.
pub fn label_file(name: &str) -> (file: String)
    ensures
        file@ == stem_of(name@) + "_label"@,
{
    let stem = input_stem(name);
    text::concat2(stem.as_str(), "_label")
}

/// Whether a file name is that of a temperature input.
pub fn is_temp_input(name: &str) -> (result: bool)
    ensures
        result == is_input(name@),
{
    text::starts_with(name, "temp") && text::ends_with(name, "_input")
}

/// A temperature input.
#[derive(Debug)]
pub struct HwmonInput {
    /// Path of the input.
    pub path: String,
    /// Its name without its ending.
    pub stem: String,
    /// Its label.
    pub label: String,
}

/// See [`HwmonInput`].
pub ghost struct InputView {
    /// See [`HwmonInput::path`].
    pub path: Seq<char>,
    /// See [`HwmonInput::stem`].
    pub stem: Seq<char>,
    /// See [`HwmonInput::label`].
    pub label: Seq<char>,
}

impl View for HwmonInput {
    type V = InputView;

    open spec fn view(&self) -> InputView {
        InputView { path: self.path@, stem: self.stem@, label: self.label@ }
    }
}

/// The input that a file is.
pub open spec fn input_of(file: HwmonFile) -> InputView {
    InputView {
        path: file.path@,
        stem: stem_of(file.name@),
        label: match file.label {
            Some(label) => text::trimmed(label@),
            None => stem_of(file.name@),
        },
    }
}

/// The inputs among the first `count` files, by file name in ascending order.
pub open spec fn inputs_upto(files: Seq<HwmonFile>, count: int) -> names::Entries<InputView>
    decreases count,
{
    if count <= 0 {
        Seq::empty()
    } else if is_input(files[count - 1].name@) {
        names::inserted(
            inputs_upto(files, count - 1),
            files[count - 1].name@,
            input_of(files[count - 1]),
        )
    } else {
        inputs_upto(files, count - 1)
    }
}

/// The inputs of a directory.
pub open spec fn inputs_of(directory: HwmonDirectory) -> Reply<names::Entries<InputView>> {
    match directory.files {
        Ok(files) => Ok(inputs_upto(files@, files@.len() as int)),
        Err(reason) => Err(
            ErrorView::Driver("could not scan "@ + directory.path@ + ": "@ + reason@),
        ),
    }
}

fn sorted_temp_inputs(directory: &HwmonDirectory) -> (result: Result<NameMap<HwmonInput>>)
    ensures
        views::outcome(result) == inputs_of(*directory),
{
    match &directory.files {
        Err(reason) => Err(
            driver_error(
                text::concat4("could not scan ", directory.path.as_str(), ": ", reason.as_str()),
            ),
        ),
        Ok(files) => {
            let mut inputs: NameMap<HwmonInput> = NameMap::new();
            let mut at: usize = 0;
            while at < files.len()
                invariant
                    at <= files@.len(),
                    inputs@ == inputs_upto(files@, at as int),
                decreases files@.len() - at,
            {
                let file = &files[at];
                if is_temp_input(file.name.as_str()) {
                    let stem = input_stem(file.name.as_str());
                    let label = match &file.label {
                        Some(label) => text::trim(label.as_str()),
                        None => stem.clone(),
                    };
                    inputs.insert(
                        file.name.clone(),
                        HwmonInput { path: file.path.clone(), stem, label },
                    );
                }
                at += 1;
            }
            Ok(inputs)
        },
    }
}

/// The directories in order of their paths.
pub open spec fn in_order(entries: names::Entries<HwmonDirectory>) -> Seq<HwmonDirectory> {
    Seq::new(entries.len(), |i: int| entries[i].1)
}

/// The directories of a listing.
pub open spec fn scanned(listing: HwmonListing) -> Reply<Seq<HwmonDirectory>> {
    match listing.directories {
        Ok(directories) => Ok(in_order(directories@)),
        Err(reason) => Err(ErrorView::Driver("could not scan "@ + listing.base@ + ": "@ + reason@)),
    }
}

fn sorted_directories(listing: &HwmonListing) -> (result: Result<&NameMap<HwmonDirectory>>)
    ensures
        match result {
            Ok(directories) => scanned(*listing) == Ok::<Seq<HwmonDirectory>, ErrorView>(
                in_order(directories@),
            ),
            Err(error) => scanned(*listing) == Err::<Seq<HwmonDirectory>, ErrorView>(error@),
        },
{
    match &listing.directories {
        Ok(directories) => Ok(directories),
        Err(reason) => Err(
            driver_error(
                text::concat4("could not scan ", listing.base.as_str(), ": ", reason.as_str()),
            ),
        ),
    }
}

// ---------------------------------------------------------------- selection

/// Whether a directory belongs to a chip and a physical device: the device is given by its
/// path, by the end of it, or by a part of it.
pub open spec fn belongs(directory: HwmonDirectory, chip: Seq<char>, device: Seq<char>) -> bool {
    &&& directory.chip matches Some(name) && text::trimmed(name@) == chip
    &&& {
        ||| directory.device@ == device
        ||| text::has_suffix(directory.device@, device)
        ||| text::contains_text(directory.device@, "/"@ + device + "/"@)
    }
}

/// The paths of the inputs with a label among the first `count`.
pub open spec fn labelled(inputs: names::Entries<InputView>, label: Seq<char>, count: int) -> Seq<
    Seq<char>,
>
    decreases count,
{
    if count <= 0 {
        Seq::empty()
    } else if inputs[count - 1].1.label == label {
        labelled(inputs, label, count - 1).push(inputs[count - 1].1.path)
    } else {
        labelled(inputs, label, count - 1)
    }
}

/// The paths that a selector means in the directories from `at` on, after those found so far.
pub open spec fn matches_from(
    directories: Seq<HwmonDirectory>,
    chip: Seq<char>,
    device: Seq<char>,
    label: Seq<char>,
    at: int,
    found: Seq<Seq<char>>,
) -> Reply<Seq<Seq<char>>>
    decreases directories.len() - at,
{
    if at >= directories.len() {
        Ok(found)
    } else if !belongs(directories[at], chip, device) {
        matches_from(directories, chip, device, label, at + 1, found)
    } else {
        match inputs_of(directories[at]) {
            Err(error) => Err(error),
            Ok(inputs) => matches_from(
                directories,
                chip,
                device,
                label,
                at + 1,
                found + labelled(inputs, label, inputs.len() as int),
            ),
        }
    }
}

/// The paths that a selector means.
pub open spec fn matching(
    listing: HwmonListing,
    chip: Seq<char>,
    device: Seq<char>,
    label: Seq<char>,
) -> Reply<Seq<Seq<char>>> {
    match scanned(listing) {
        Err(error) => Err(error),
        Ok(directories) => matches_from(directories, chip, device, label, 0, Seq::empty()),
    }
}

/// The path that a selector means: there has to be exactly one.
pub open spec fn resolved(listing: HwmonListing, sensor: SensorConfig) -> Reply<Seq<char>> {
    match sensor {
        SensorConfig::LinuxHwmon { device, chip, label } => {
            match matching(listing, chip@, device@, label@) {
                Err(error) => Err(error),
                Ok(paths) => {
                    let name = "hwmon sensor "@ + chip@ + "/"@ + label@ + " on '"@ + device@;
                    if paths.len() == 1 {
                        Ok(paths[0])
                    } else if paths.len() == 0 {
                        Err(ErrorView::Driver(name + "' was not found"@))
                    } else {
                        Err(
                            ErrorView::Driver(
                                name + "' is ambiguous ("@ + text::decimal(paths.len())
                                    + " matches)"@,
                            ),
                        )
                    }
                },
            }
        },
        _ => Err(ErrorView::Driver("sensor is not a hwmon source"@)),
    }
}

fn directory_belongs(directory: &HwmonDirectory, chip: &str, device: &str) -> (result: bool)
    ensures
        result == belongs(*directory, chip@, device@),
{
    match &directory.chip {
        None => false,
        Some(name) => {
            let name = text::trim(name.as_str());
            if !text::same(name.as_str(), chip) {
                return false;
            }
            let physical = directory.device.as_str();
            let part = text::concat3("/", device, "/");
            text::same(physical, device) || text::ends_with(physical, device) || text::contains(
                physical,
                part.as_str(),
            )
        },
    }
}

fn push_labelled(inputs: &NameMap<HwmonInput>, label: &str, found: &mut Vec<String>)
    ensures
        text::texts(final(found)@) == text::texts(old(found)@) + labelled(
            inputs@,
            label@,
            inputs@.len() as int,
        ),
{
    let count: usize = inputs.len();
    let mut at: usize = 0;
    assert(text::texts(found@) =~= text::texts(old(found)@) + labelled(inputs@, label@, 0));
    while at < count
        invariant
            count == inputs@.len(),
            at <= count,
            text::texts(found@) =~= text::texts(old(found)@) + labelled(
                inputs@,
                label@,
                at as int,
            ),
        decreases count - at,
    {
        let input = inputs.value_at(at);
        if text::same(input.label.as_str(), label) {
            let path = input.path.clone();
            let ghost before = found@;
            found.push(path);
            assert(text::texts(found@) =~= text::texts(before).push(path@));
        }
        at += 1;
    }
}

/// Finds the input that a sensor reads.
///
/// # Errors
///
/// Returns an error when a directory cannot be listed, or unless exactly one input matches.
pub fn resolve(listing: &HwmonListing, sensor: &SensorConfig) -> (result: Result<String>)
    ensures
        views::outcome(result) == resolved(*listing, *sensor),
{
    let (device, chip, label) = match sensor {
        SensorConfig::LinuxHwmon { device, chip, label } => (
            device.as_str(),
            chip.as_str(),
            label.as_str(),
        ),
        _ => return Err(driver_error("sensor is not a hwmon source".to_owned())),
    };
    let directories = sorted_directories(listing)?;
    let count: usize = directories.len();
    let mut found: Vec<String> = Vec::new();
    let mut at: usize = 0;
    let ghost list = in_order(directories@);
    let ghost wanted = matches_from(list, chip@, device@, label@, 0, Seq::empty());
    assert(text::texts(found@) =~= Seq::<Seq<char>>::empty());
    while at < count
        invariant
            count == directories@.len(),
            at <= count,
            list == in_order(directories@),
            scanned(*listing) == Ok::<Seq<HwmonDirectory>, ErrorView>(list),
            wanted == matches_from(list, chip@, device@, label@, 0, Seq::empty()),
            wanted == matches_from(
                list,
                chip@,
                device@,
                label@,
                at as int,
                text::texts(found@),
            ),
            sensor matches SensorConfig::LinuxHwmon { device: d, chip: c, label: l } && d@
                == device@ && c@ == chip@ && l@ == label@,
        decreases count - at,
    {
        let directory = directories.value_at(at);
        assert(*directory == list[at as int]);
        if directory_belongs(directory, chip, device) {
            let inputs = sorted_temp_inputs(directory)?;
            push_labelled(&inputs, label, &mut found);
        }
        at += 1;
    }
    assert(text::texts(found@).len() == found@.len());
    if found.len() == 1 {
        let path = found[0].clone();
        assert(path@ == text::texts(found@)[0]);
        return Ok(path);
    }
    let mut message = text::concat6("hwmon sensor ", chip, "/", label, " on '", device);
    if found.len() == 0 {
        message.append("' was not found");
    } else {
        message.append("' is ambiguous (");
        text::push_decimal(&mut message, found.len() as u64);
        message.append(" matches)");
    }
    Err(driver_error(message))
}

/// What is wrong with each sensor that reads hwmon.
pub open spec fn sensor_fault(
    listing: HwmonListing,
    sensors: names::Entries<SensorConfig>,
) -> spec_fn(int) -> Option<ErrorView> {
    |at: int|
        if sensors[at].1 is LinuxHwmon {
            match resolved(listing, sensors[at].1) {
                Ok(_) => None,
                Err(error) => Some(
                    ErrorView::Driver(
                        "sensor '"@ + sensors[at].0 + "': "@ + error::described(error),
                    ),
                ),
            }
        } else {
            None
        }
}

/// Whether every sensor that reads hwmon has exactly one input.
pub open spec fn checked(
    listing: HwmonListing,
    sensors: names::Entries<SensorConfig>,
) -> Reply<()> {
    match crate::search::first(sensor_fault(listing, sensors), 0, sensors.len() as int) {
        None => Ok(()),
        Some(fault) => Err(fault),
    }
}

/// Checks that every sensor that reads hwmon has exactly one input.
///
/// # Errors
///
/// Returns the first sensor that does not, with the reason.
pub fn validate_sensors(listing: &HwmonListing, sensors: &NameMap<SensorConfig>) -> (result: Result<
    (),
>)
    ensures
        crate::drivers::done(result) == checked(*listing, sensors@),
{
    let count: usize = sensors.len();
    let mut at: usize = 0;
    let ghost check = sensor_fault(*listing, sensors@);
    while at < count
        invariant
            count == sensors@.len(),
            at <= count,
            check == sensor_fault(*listing, sensors@),
            crate::search::first(check, 0, count as int) == crate::search::first(
                check,
                at as int,
                count as int,
            ),
        decreases count - at,
    {
        let sensor = sensors.value_at(at);
        if let SensorConfig::LinuxHwmon { .. } = sensor {
            if let Err(error) = resolve(listing, sensor) {
                let reason = error.to_text();
                return Err(
                    driver_error(
                        text::concat4(
                            "sensor '",
                            sensors.key_at(at).as_str(),
                            "': ",
                            reason.as_str(),
                        ),
                    ),
                );
            }
        }
        at += 1;
    }
    Ok(())
}

// ---------------------------------------------------------------- discovery

/// The chip of a directory.
pub open spec fn chip_of(directory: HwmonDirectory) -> Seq<char> {
    match directory.chip {
        Some(name) => text::trimmed(name@),
        None => "unknown"@,
    }
}

/// How an input is described.
pub open spec fn described_input(directory: HwmonDirectory, input: InputView) -> DescriptorView {
    let details = Seq::<(Seq<char>, Seq<char>)>::empty();
    let details = names::inserted(details, "chip"@, chip_of(directory));
    let details = names::inserted(details, "device"@, directory.device@);
    let details = names::inserted(details, "label"@, input.label);
    let details = names::inserted(details, "input"@, input.path);
    DescriptorView {
        id: "hwmon:"@ + directory.device@ + ":"@ + input.stem,
        driver: "linux-hwmon"@,
        name: chip_of(directory) + "/"@ + input.label,
        details,
    }
}

/// The descriptions of the inputs of a directory.
pub open spec fn described_inputs(
    directory: HwmonDirectory,
    inputs: names::Entries<InputView>,
) -> Seq<DescriptorView> {
    Seq::new(inputs.len(), |i: int| described_input(directory, inputs[i].1))
}

/// The inputs of the directories from `at` on, after those found so far.
pub open spec fn discovered_from(
    directories: Seq<HwmonDirectory>,
    at: int,
    found: Seq<DescriptorView>,
) -> Reply<Seq<DescriptorView>>
    decreases directories.len() - at,
{
    if at >= directories.len() {
        Ok(found)
    } else {
        match inputs_of(directories[at]) {
            Err(error) => Err(error),
            Ok(inputs) => discovered_from(
                directories,
                at + 1,
                found + described_inputs(directories[at], inputs),
            ),
        }
    }
}

/// Everything that discovery finds.
pub open spec fn discovered(listing: HwmonListing) -> Reply<Seq<DescriptorView>> {
    match scanned(listing) {
        Err(error) => Err(error),
        Ok(directories) => discovered_from(directories, 0, Seq::empty()),
    }
}

fn describe_input(directory: &HwmonDirectory, chip: &str, input: &HwmonInput) -> (device:
    DeviceDescriptor)
    requires
        chip@ == chip_of(*directory),
    ensures
        device@ == described_input(*directory, input@),
{
    let mut details: NameMap<String> = NameMap::new();
    details.insert("chip".to_owned(), chip.to_owned());
    details.insert("device".to_owned(), directory.device.clone());
    details.insert("label".to_owned(), input.label.clone());
    details.insert("input".to_owned(), input.path.clone());
    DeviceDescriptor {
        id: text::concat4("hwmon:", directory.device.as_str(), ":", input.stem.as_str()),
        driver: "linux-hwmon".to_owned(),
        name: text::concat3(chip, "/", input.label.as_str()),
        details,
    }
}

/// Describes every temperature input.
///
/// # Errors
///
/// Returns an error when a directory cannot be listed.
pub fn discover(listing: &HwmonListing) -> (result: Result<Vec<DeviceDescriptor>>)
    ensures
        crate::drivers::descriptors(result) == discovered(*listing),
{
    let directories = sorted_directories(listing)?;
    let total: usize = directories.len();
    let mut found: Vec<DeviceDescriptor> = Vec::new();
    let mut at: usize = 0;
    let ghost list = in_order(directories@);
    assert(views::list(found@) =~= Seq::<DescriptorView>::empty());
    while at < total
        invariant
            total == directories@.len(),
            at <= total,
            list == in_order(directories@),
            scanned(*listing) == Ok::<Seq<HwmonDirectory>, ErrorView>(list),
            discovered_from(list, 0, Seq::empty()) == discovered_from(
                list,
                at as int,
                views::list(found@),
            ),
        decreases total - at,
    {
        let directory = directories.value_at(at);
        assert(*directory == list[at as int]);
        let inputs = sorted_temp_inputs(directory)?;
        let chip = match &directory.chip {
            Some(name) => text::trim(name.as_str()),
            None => "unknown".to_owned(),
        };
        let ghost start = found@;
        let ghost described = described_inputs(*directory, inputs@);
        let count: usize = inputs.len();
        let mut i: usize = 0;
        assert(views::list(found@) =~= views::list(start) + described.take(0));
        while i < count
            invariant
                count == inputs@.len(),
                i <= count,
                chip@ == chip_of(*directory),
                described == described_inputs(*directory, inputs@),
                views::list(found@) =~= views::list(start) + described.take(i as int),
            decreases count - i,
        {
            let device = describe_input(directory, chip.as_str(), inputs.value_at(i));
            let ghost before = found@;
            found.push(device);
            proof {
                assert(views::list(found@) =~= views::list(before).push(device@));
                assert(described.take(i + 1) =~= described.take(i as int).push(
                    described[i as int],
                ));
            }
            i += 1;
        }
        assert(described.take(count as int) =~= described);
        at += 1;
    }
    Ok(found)
}

// ---------------------------------------------------------------- laws

/// Whether a file of a directory is the temperature input with a label: its name starts with
/// `temp` and ends with `_input`, and its label, or its name without that end where it has none,
/// is the one asked for.
pub open spec fn input_labelled(file: HwmonFile, label: Seq<char>) -> bool {
    &&& text::has_prefix(file.name@, "temp"@)
    &&& text::has_suffix(file.name@, "_input"@)
    &&& match file.label {
        Some(own) => text::trimmed(own@) == label,
        None => stem_of(file.name@) == label,
    }
}

/// Whether a directory has a temperature input with a label at a path.
pub open spec fn offers(directory: HwmonDirectory, label: Seq<char>, path: Seq<char>) -> bool {
    directory.files matches Ok(files) && exists|k: int|
        0 <= k < files@.len() && input_labelled(#[trigger] files@[k], label) && files@[k].path@
            == path
}

/// Whether a directory is that of a chip at a device.
pub open spec fn is_chip_at(directory: HwmonDirectory, chip: Seq<char>, device: Seq<char>) -> bool {
    &&& directory.chip matches Some(name) && text::trimmed(name@) == chip
    &&& {
        ||| directory.device@ == device
        ||| text::has_suffix(directory.device@, device)
        ||| text::contains_text(directory.device@, "/"@ + device + "/"@)
    }
}

proof fn lemma_entry_of_file(files: Seq<HwmonFile>, count: int, at: int) -> (k: int)
    requires
        0 <= count <= files.len(),
        0 <= at < inputs_upto(files, count).len(),
    ensures
        0 <= k < count,
        is_input(files[k].name@),
        inputs_upto(files, count)[at] == (files[k].name@, input_of(files[k])),
    decreases count,
{
    if count <= 0 {
        0
    } else {
        let earlier = inputs_upto(files, count - 1);
        let file = files[count - 1];
        if !is_input(file.name@) {
            lemma_entry_of_file(files, count - 1, at)
        } else {
            names::lemma_slot(earlier, file.name@);
            let slot = names::slot(earlier, file.name@) as int;
            if at == slot {
                count - 1
            } else if names::has(earlier, file.name@) || at < slot {
                lemma_entry_of_file(files, count - 1, at)
            } else {
                lemma_entry_of_file(files, count - 1, at - 1)
            }
        }
    }
}

proof fn lemma_labelled(inputs: names::Entries<InputView>, label: Seq<char>, count: int, at: int)
    -> (k: int)
    requires
        0 <= count <= inputs.len(),
        0 <= at < labelled(inputs, label, count).len(),
    ensures
        0 <= k < count,
        inputs[k].1.label == label,
        inputs[k].1.path == labelled(inputs, label, count)[at],
    decreases count,
{
    if count <= 0 {
        0
    } else if inputs[count - 1].1.label == label && at == labelled(inputs, label, count - 1).len() {
        count - 1
    } else {
        lemma_labelled(inputs, label, count - 1, at)
    }
}

proof fn lemma_matches(
    directories: Seq<HwmonDirectory>,
    chip: Seq<char>,
    device: Seq<char>,
    label: Seq<char>,
    at: int,
    found: Seq<Seq<char>>,
    which: int,
)
    requires
        0 <= at,
        matches_from(directories, chip, device, label, at, found) is Ok,
    ensures
        ({
            let paths = matches_from(directories, chip, device, label, at, found)->Ok_0;
            &&& found.len() <= paths.len()
            &&& found.len() <= which < paths.len() ==> exists|d: int|
                at <= d < directories.len() && is_chip_at(#[trigger] directories[d], chip, device)
                    && offers(directories[d], label, paths[which])
            &&& 0 <= which < found.len() ==> paths[which] == found[which]
        }),
    decreases directories.len() - at,
{
    if at < directories.len() {
        let directory = directories[at];
        if !belongs(directory, chip, device) {
            lemma_matches(directories, chip, device, label, at + 1, found, which);
        } else {
            let inputs = inputs_of(directory)->Ok_0;
            let added = labelled(inputs, label, inputs.len() as int);
            lemma_matches(directories, chip, device, label, at + 1, found + added, which);
            let paths = matches_from(directories, chip, device, label, at, found)->Ok_0;
            if found.len() <= which < found.len() + added.len() {
                let files = directory.files->Ok_0@;
                let k = lemma_labelled(
                    inputs,
                    label,
                    inputs.len() as int,
                    which - found.len(),
                );
                let f = lemma_entry_of_file(files, files.len() as int, k);
                assert(input_labelled(files[f], label));
                assert(paths[which] == added[which - found.len()]);
                assert(offers(directory, label, paths[which]));
                assert(is_chip_at(directories[at], chip, device));
            }
        }
    }
}

/// A sensor resolves only to the input of a directory of its chip, at its device, with its label.
pub proof fn law_resolved_input_is_the_one_configured(
    listing: HwmonListing,
    device: String,
    chip: String,
    label: String,
)
    requires
        resolved(listing, (SensorConfig::LinuxHwmon { device, chip, label })) is Ok,
    ensures
        listing.directories matches Ok(directories) && exists|d: int|
            0 <= d < directories@.len() && is_chip_at(
                (#[trigger] directories@[d]).1,
                chip@,
                device@,
            ) && offers(
                directories@[d].1,
                label@,
                resolved(listing, (SensorConfig::LinuxHwmon { device, chip, label }))->Ok_0,
            ),
{
    let directories = scanned(listing)->Ok_0;
    let entries = listing.directories->Ok_0@;
    lemma_matches(directories, chip@, device@, label@, 0, Seq::empty(), 0);
    let path = resolved(listing, (SensorConfig::LinuxHwmon { device, chip, label }))->Ok_0;
    let d = choose|d: int|
        0 <= d < directories.len() && is_chip_at(#[trigger] directories[d], chip@, device@)
            && offers(directories[d], label@, path);
    assert(entries[d].1 == directories[d]);
}

proof fn lemma_has_input(files: Seq<HwmonFile>, count: int, k: int) -> (at: int)
    requires
        0 <= k < count <= files.len(),
        is_input(files[k].name@),
        forall|j: int| k < j < count ==> (#[trigger] files[j]).name@ != files[k].name@,
    ensures
        0 <= at < inputs_upto(files, count).len(),
        inputs_upto(files, count)[at] == (files[k].name@, input_of(files[k])),
    decreases count,
{
    let earlier = inputs_upto(files, count - 1);
    let file = files[count - 1];
    names::lemma_slot(earlier, file.name@);
    let slot = names::slot(earlier, file.name@) as int;
    if k == count - 1 {
        slot
    } else {
        let at = lemma_has_input(files, count - 1, k);
        if !is_input(file.name@) || at < slot || names::has(earlier, file.name@) {
            at
        } else {
            at + 1
        }
    }
}

proof fn lemma_some_labelled(inputs: names::Entries<InputView>, label: Seq<char>, count: int, k: int)
    requires
        0 <= k < count <= inputs.len(),
        inputs[k].1.label == label,
    ensures
        labelled(inputs, label, count).len() > 0,
    decreases count,
{
    if k < count - 1 {
        lemma_some_labelled(inputs, label, count - 1, k);
    }
}

/// Whether a directory of a chip at a device has an input with a label.
pub open spec fn has_match(
    directory: HwmonDirectory,
    chip: Seq<char>,
    device: Seq<char>,
    label: Seq<char>,
) -> bool {
    &&& is_chip_at(directory, chip, device)
    &&& directory.files matches Ok(files) && {
        &&& exists|k: int| 0 <= k < files@.len() && input_labelled(#[trigger] files@[k], label)
        &&& forall|j: int, k: int|
            0 <= j < k < files@.len() ==> (#[trigger] files@[j]).name@ != (#[trigger] files@[k]).name@
    }
}

proof fn lemma_matches_counted(
    directories: Seq<HwmonDirectory>,
    chip: Seq<char>,
    device: Seq<char>,
    label: Seq<char>,
    at: int,
    found: Seq<Seq<char>>,
    left: int,
    right: int,
)
    requires
        0 <= at <= right < directories.len(),
        left < right,
        has_match(directories[right], chip, device, label),
        at <= left ==> has_match(directories[left], chip, device, label),
        matches_from(directories, chip, device, label, at, found) is Ok,
    ensures
        matches_from(directories, chip, device, label, at, found)->Ok_0.len() >= found.len() + (
        if at <= left {
            2int
        } else {
            1int
        }),
    decreases directories.len() - at,
{
    let directory = directories[at];
    if belongs(directory, chip, device) {
        let inputs = inputs_of(directory)->Ok_0;
        let added = labelled(inputs, label, inputs.len() as int);
        if at == left || at == right {
            let files = directory.files->Ok_0@;
            let k = choose|k: int| 0 <= k < files.len() && input_labelled(#[trigger] files[k], label);
            let slot = lemma_has_input(files, files.len() as int, k);
            lemma_some_labelled(inputs, label, inputs.len() as int, slot);
        }
        if at < right {
            lemma_matches_counted(
                directories,
                chip,
                device,
                label,
                at + 1,
                found + added,
                left,
                right,
            );
        } else {
            lemma_matches(directories, chip, device, label, at + 1, found + added, 0);
        }
    } else {
        lemma_matches_counted(directories, chip, device, label, at + 1, found, left, right);
    }
}

/// A sensor that two directories have does not resolve.
pub proof fn law_ambiguous_input_is_refused(
    listing: HwmonListing,
    device: String,
    chip: String,
    label: String,
    left: int,
    right: int,
)
    requires
        listing.directories matches Ok(directories) && 0 <= left < right < directories@.len()
            && has_match(directories@[left].1, chip@, device@, label@) && has_match(
            directories@[right].1,
            chip@,
            device@,
            label@,
        ),
    ensures
        resolved(listing, (SensorConfig::LinuxHwmon { device, chip, label })) is Err,
{
    let directories = scanned(listing)->Ok_0;
    if matches_from(directories, chip@, device@, label@, 0, Seq::empty()) is Ok {
        lemma_matches_counted(
            directories,
            chip@,
            device@,
            label@,
            0,
            Seq::empty(),
            left,
            right,
        );
    }
}

/// An input that is the only one of its chip, device, and label is found.
pub proof fn law_single_input_is_found(
    listing: HwmonListing,
    device: String,
    chip: String,
    label: String,
    paths: Seq<Seq<char>>,
)
    requires
        matching(listing, chip@, device@, label@) == Ok::<Seq<Seq<char>>, ErrorView>(paths),
        paths.len() == 1,
    ensures
        resolved(listing, (SensorConfig::LinuxHwmon { device, chip, label })) == Ok::<
            Seq<char>,
            ErrorView,
        >(paths[0]),
{
}

proof fn lemma_discovered(
    directories: Seq<HwmonDirectory>,
    at: int,
    found: Seq<DescriptorView>,
    directory: int,
    device: DescriptorView,
)
    requires
        0 <= at,
        discovered_from(directories, at, found) is Ok,
        found.contains(device) || (at <= directory < directories.len() && (inputs_of(
            directories[directory],
        ) matches Ok(inputs) && described_inputs(directories[directory], inputs).contains(device))),
    ensures
        discovered_from(directories, at, found)->Ok_0.contains(device),
    decreases directories.len() - at,
{
    if at < directories.len() {
        let inputs = inputs_of(directories[at])->Ok_0;
        let added = described_inputs(directories[at], inputs);
        if found.contains(device) {
            let i = choose|i: int| 0 <= i < found.len() && found[i] == device;
            assert((found + added)[i] == device);
        } else if at == directory {
            let i = choose|i: int| 0 <= i < added.len() && added[i] == device;
            assert((found + added)[found.len() + i] == device);
        }
        lemma_discovered(directories, at + 1, found + added, directory, device);
    }
}

/// Discovery lists every temperature input of every directory under its device, its chip, and its
/// label, with the path to read it from.
pub proof fn law_every_input_is_listed(listing: HwmonListing, directory: int, file: int)
    requires
        discovered(listing) is Ok,
        listing.directories matches Ok(directories) && 0 <= directory < directories@.len() && (
        directories@[directory].1.files matches Ok(files) && 0 <= file < files@.len()
            && text::has_prefix(files@[file].name@, "temp"@) && text::has_suffix(
            files@[file].name@,
            "_input"@,
        ) && forall|j: int|
            file < j < files@.len() ==> (#[trigger] files@[j]).name@ != files@[file].name@),
    ensures
        ({
            let chosen = listing.directories->Ok_0@[directory].1;
            let input = chosen.files->Ok_0@[file];
            let label = match input.label {
                Some(own) => text::trimmed(own@),
                None => stem_of(input.name@),
            };
            exists|i: int|
                {
                    let told = #[trigger] discovered(listing)->Ok_0[i];
                    &&& 0 <= i < discovered(listing)->Ok_0.len()
                    &&& told.driver == "linux-hwmon"@
                    &&& told.id == "hwmon:"@ + chosen.device@ + ":"@ + stem_of(input.name@)
                    &&& told.name == chip_of(chosen) + "/"@ + label
                    &&& names::find(told.details, "input"@) == Some(input.path@)
                }
        }),
{
    let directories = scanned(listing)->Ok_0;
    let chosen = directories[directory];
    assert(chosen == listing.directories->Ok_0@[directory].1);
    let files = chosen.files->Ok_0@;
    let inputs = inputs_upto(files, files.len() as int);
    lemma_inputs_readable(directories, 0, Seq::empty(), directory);
    let at = lemma_has_input(files, files.len() as int, file);
    let told = described_input(chosen, input_of(files[file]));
    assert(described_inputs(chosen, inputs)[at] == told);
    lemma_discovered(directories, 0, Seq::empty(), directory, told);
    let list = discovered(listing)->Ok_0;
    let i = choose|i: int| 0 <= i < list.len() && list[i] == told;
    let none = Seq::<(Seq<char>, Seq<char>)>::empty();
    let one = names::inserted(none, "chip"@, chip_of(chosen));
    let two = names::inserted(one, "device"@, chosen.device@);
    let three = names::inserted(two, "label"@, input_of(files[file]).label);
    names::lemma_inserted_sorted(none, "chip"@, chip_of(chosen));
    names::lemma_inserted_sorted(one, "device"@, chosen.device@);
    names::lemma_inserted_sorted(two, "label"@, input_of(files[file]).label);
    names::lemma_find_inserted(three, "input"@, files[file].path@, "input"@);
    assert(list[i] == told);
}

proof fn lemma_inputs_readable(
    directories: Seq<HwmonDirectory>,
    at: int,
    found: Seq<DescriptorView>,
    directory: int,
)
    requires
        0 <= at <= directory < directories.len(),
        discovered_from(directories, at, found) is Ok,
    ensures
        inputs_of(directories[directory]) is Ok,
    decreases directories.len() - at,
{
    if at < directory {
        let inputs = inputs_of(directories[at])->Ok_0;
        lemma_inputs_readable(
            directories,
            at + 1,
            found + described_inputs(directories[at], inputs),
            directory,
        );
    }
}

} // verus!
