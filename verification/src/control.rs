//! Operator control of the engine: profiles, overrides, release and resume, and reload.

use vstd::prelude::*;

use crate::config::Config;
use crate::config::Nanos;
use crate::config::OutputConfig;
use crate::drivers;
use crate::drivers::Call;
use crate::drivers::Hardware;
use crate::drivers::Reply;
use crate::engine;
use crate::engine::Engine;
use crate::error::ErrorView;
use crate::error::FeatherError;
use crate::error::Result;
use crate::names;
use crate::names::NameMap;
use crate::policy;
use crate::policy::ActiveOverride;
use crate::policy::EngineModel;
use crate::policy::OverrideValue;
use crate::policy::RuntimeView;
use crate::search;
use crate::text;
use crate::types::copy_descriptors;
use crate::types::DescriptorView;
use crate::types::DeviceDescriptor;
use crate::types::Health;
use crate::validation;
use crate::validation::output_device;
use crate::views;

verus! {

// ---------------------------------------------------------------- discovery

/// The devices to report once the hardware gave an answer: what it found, or what was known
/// before where it failed.
pub open spec fn known_devices(known: Seq<DescriptorView>, reply: Reply<Seq<DescriptorView>>) -> Reply<
    Seq<DescriptorView>,
> {
    match reply {
        Ok(found) => Ok(found),
        Err(error) => if known.len() == 0 {
            Err(error)
        } else {
            Ok(known)
        },
    }
}

/// The state once the hardware gave an answer.
pub open spec fn with_found(model: EngineModel, reply: Reply<Seq<DescriptorView>>) -> EngineModel {
    match reply {
        Ok(found) => EngineModel { devices: found, ..model },
        Err(_) => model,
    }
}

// ---------------------------------------------------------------- overrides

/// The latest point that the monotonic clock can tell.
pub const CLOCK_LIMIT: u128 = 9_223_372_036_854_775_807_999_999_999;

/// An override whose duration is zero.
pub open spec fn zero_duration() -> ErrorView {
    ErrorView::Daemon("override duration must be greater than zero"@)
}

/// An output that does not exist.
pub open spec fn unknown_output(output: Seq<char>) -> ErrorView {
    ErrorView::Daemon("unknown output '"@ + output + "'"@)
}

/// An output of another kind.
pub open spec fn wrong_kind(output: Seq<char>, kind: Seq<char>) -> ErrorView {
    ErrorView::Daemon("output '"@ + output + "' is not "@ + kind)
}

/// A fan override that is below the minimum and not confirmed.
pub open spec fn below_minimum(output: Seq<char>, percent: u8, minimum: u8) -> ErrorView {
    ErrorView::Daemon(
        "fan override "@ + text::decimal(percent as nat) + "% is below output '"@ + output
            + "' minimum "@ + text::decimal(minimum as nat)
            + "%; use --allow-below-minimum to confirm"@,
    )
}

/// An output without a temporary value.
pub open spec fn no_override(output: Seq<char>) -> ErrorView {
    ErrorView::Daemon("output '"@ + output + "' has no active override"@)
}

/// Whether the active profile assigns an output that is not released.
pub open spec fn controlled(model: EngineModel, output: Seq<char>) -> bool {
    &&& engine::active_assignments(model) matches Some(assignments) && names::has(
        assignments,
        output,
    )
    &&& !names::has(model.released, output)
}

/// An output that the active profile does not control.
pub open spec fn not_controlled(output: Seq<char>) -> ErrorView {
    ErrorView::Daemon("output '"@ + output + "' is not controlled by the active profile"@)
}

/// What keeps an override from being accepted once its kind and value were.
pub open spec fn override_refused(
    model: EngineModel,
    output: Seq<char>,
    ttl: Nanos,
    now: Nanos,
) -> Option<ErrorView> {
    if !controlled(model, output) {
        Some(not_controlled(output))
    } else if now + ttl > CLOCK_LIMIT {
        Some(ErrorView::Daemon("override duration is too large"@))
    } else {
        None
    }
}

/// What keeps a fan override from being accepted.
pub open spec fn fan_override_refused(
    model: EngineModel,
    output: Seq<char>,
    percent: u8,
    ttl: Nanos,
    allow_below_minimum: bool,
    now: Nanos,
) -> Option<ErrorView> {
    if ttl == 0 {
        Some(zero_duration())
    } else if percent > 100 {
        Some(ErrorView::Daemon("fan override percentage must be at most 100"@))
    } else {
        match names::find(model.config.outputs@, output) {
            None => Some(unknown_output(output)),
            Some(OutputConfig::Fan { minimum_percent, .. }) => {
                if percent < minimum_percent && !allow_below_minimum {
                    Some(below_minimum(output, percent, minimum_percent))
                } else {
                    override_refused(model, output, ttl, now)
                }
            },
            Some(_) => Some(wrong_kind(output, "a fan"@)),
        }
    }
}

/// What keeps a color override from being accepted.
pub open spec fn rgb_override_refused(
    model: EngineModel,
    output: Seq<char>,
    ttl: Nanos,
    now: Nanos,
) -> Option<ErrorView> {
    if ttl == 0 {
        Some(zero_duration())
    } else {
        match names::find(model.config.outputs@, output) {
            None => Some(unknown_output(output)),
            Some(OutputConfig::Rgb { .. }) => override_refused(model, output, ttl, now),
            Some(_) => Some(wrong_kind(output, "RGB"@)),
        }
    }
}

/// What keeps a display override from being accepted.
pub open spec fn display_override_refused(
    model: EngineModel,
    output: Seq<char>,
    ttl: Nanos,
    now: Nanos,
) -> Option<ErrorView> {
    if ttl == 0 {
        Some(zero_duration())
    } else {
        match names::find(model.config.outputs@, output) {
            None => Some(unknown_output(output)),
            Some(OutputConfig::Display { .. }) => override_refused(model, output, ttl, now),
            Some(_) => Some(wrong_kind(output, "a display"@)),
        }
    }
}

/// The state once an override was accepted.
pub open spec fn with_override(
    model: EngineModel,
    output: Seq<char>,
    value: OverrideValue,
    ttl: Nanos,
    now: Nanos,
) -> EngineModel {
    EngineModel {
        overrides: names::inserted(
            model.overrides,
            output,
            ActiveOverride { value, expires_at: (now + ttl) as u128 },
        ),
        ..model
    }
}

/// Whether an override was refused for a reason, or accepted without one.
pub open spec fn override_step<H: Hardware>(
    before: Engine<H>,
    after: Engine<H>,
    result: Result<()>,
    refused: Option<ErrorView>,
    output: Seq<char>,
    value: OverrideValue,
    ttl: Nanos,
    now: Nanos,
) -> bool {
    match refused {
        Some(reason) => drivers::done(result) == Err::<(), ErrorView>(reason) && engine::untouched(
            before,
            after,
        ),
        None => result is Ok && engine::became(
            before,
            after,
            with_override(before@, output, value, ttl, now),
        ),
    }
}

impl<H: Hardware> Engine<H> {
    /// Discovers devices, and falls back on those known before.
    ///
    /// # Errors
    ///
    /// Returns the error of the discovery when no devices were known before.
    pub fn devices(&mut self) -> (result: Result<Vec<DeviceDescriptor>>)
        ensures
            ({
                let call = final(self).hardware.calls().last();
                &&& final(self).hardware.calls() == old(self).hardware.calls().push(call)
                &&& call matches Call::Discover { reply } && {
                    &&& drivers::descriptors(result) == known_devices(old(self)@.devices, reply)
                    &&& final(self)@ == with_found(old(self)@, reply)
                }
            }),
    {
        match self.hardware.discover() {
            Ok(found) => {
                self.devices = copy_descriptors(&found);
                Ok(found)
            },
            Err(error) => {
                if self.devices.len() == 0 {
                    Err(error)
                } else {
                    Ok(copy_descriptors(&self.devices))
                }
            },
        }
    }

    /// The names of the profiles, in order.
    pub fn profiles(&self) -> (list: Vec<String>)
        ensures
            text::texts(list@) == names::names(self@.config.profiles@),
    {
        self.config.profiles.keys()
    }

    /// The name of the active profile.
    pub fn active_profile(&self) -> (name: &str)
        ensures
            name@ == self@.active_profile,
    {
        self.active_profile.as_str()
    }

    fn is_controlled(&self, output: &str) -> (result: bool)
        ensures
            result == controlled(self@, output@),
    {
        let assigned = match self.config.profiles.get(self.active_profile.as_str()) {
            Some(profile) => profile.outputs.contains_key(output),
            None => false,
        };
        assigned && !self.released.contains_key(output)
    }

    fn add_override(&mut self, output: &str, value: OverrideValue, ttl: Nanos, now: Nanos) -> (result:
        Result<()>)
        ensures
            override_step(
                *old(self),
                *final(self),
                result,
                override_refused(old(self)@, output@, ttl, now),
                output@,
                value,
                ttl,
                now,
            ),
    {
        if !self.is_controlled(output) {
            return Err(
                FeatherError::Daemon(
                    text::concat3(
                        "output '",
                        output,
                        "' is not controlled by the active profile",
                    ),
                ),
            );
        }
        let expires_at: Nanos = match now.checked_add(ttl) {
            Some(end) => end,
            None => {
                return Err(FeatherError::Daemon("override duration is too large".to_owned()));
            },
        };
        if expires_at > CLOCK_LIMIT {
            return Err(FeatherError::Daemon("override duration is too large".to_owned()));
        }
        self.overrides.insert(output.to_owned(), ActiveOverride { value, expires_at });
        Ok(())
    }

    /// Sets a fan to a duty for a time.
    ///
    /// # Errors
    ///
    /// Returns an error when the duration or the duty is out of range, the output is not a fan
    /// that the active profile controls, or the duty is below its minimum without confirmation.
    pub fn set_fan_override(
        &mut self,
        output: &str,
        percent: u8,
        ttl: Nanos,
        allow_below_minimum: bool,
        now: Nanos,
    ) -> (result: Result<()>)
        ensures
            override_step(
                *old(self),
                *final(self),
                result,
                fan_override_refused(
                    old(self)@,
                    output@,
                    percent,
                    ttl,
                    allow_below_minimum,
                    now,
                ),
                output@,
                OverrideValue::Fan(percent),
                ttl,
                now,
            ),
    {
        if ttl == 0 {
            return Err(
                FeatherError::Daemon("override duration must be greater than zero".to_owned()),
            );
        }
        if percent > 100 {
            return Err(
                FeatherError::Daemon("fan override percentage must be at most 100".to_owned()),
            );
        }
        match self.config.outputs.get(output) {
            None => {
                return Err(FeatherError::Daemon(text::concat3("unknown output '", output, "'")));
            },
            Some(OutputConfig::Fan { minimum_percent, .. }) => {
                if percent < *minimum_percent && !allow_below_minimum {
                    let mut message = "fan override ".to_owned();
                    text::push_decimal(&mut message, percent as u64);
                    message.append("% is below output '");
                    message.append(output);
                    message.append("' minimum ");
                    text::push_decimal(&mut message, *minimum_percent as u64);
                    message.append("%; use --allow-below-minimum to confirm");
                    return Err(FeatherError::Daemon(message));
                }
            },
            Some(_) => {
                return Err(
                    FeatherError::Daemon(text::concat4("output '", output, "' is not ", "a fan")),
                );
            },
        }
        self.add_override(output, OverrideValue::Fan(percent), ttl, now)
    }

    /// Sets lights to a color for a time.
    ///
    /// # Errors
    ///
    /// Returns an error when the duration is out of range or the output is not RGB and
    /// controlled by the active profile.
    pub fn set_rgb_override(&mut self, output: &str, rgb: [u8; 3], ttl: Nanos, now: Nanos) -> (result:
        Result<()>)
        ensures
            override_step(
                *old(self),
                *final(self),
                result,
                rgb_override_refused(old(self)@, output@, ttl, now),
                output@,
                OverrideValue::Rgb(rgb),
                ttl,
                now,
            ),
    {
        if ttl == 0 {
            return Err(
                FeatherError::Daemon("override duration must be greater than zero".to_owned()),
            );
        }
        match self.config.outputs.get(output) {
            None => {
                return Err(FeatherError::Daemon(text::concat3("unknown output '", output, "'")));
            },
            Some(OutputConfig::Rgb { .. }) => {},
            Some(_) => {
                return Err(
                    FeatherError::Daemon(text::concat4("output '", output, "' is not ", "RGB")),
                );
            },
        }
        self.add_override(output, OverrideValue::Rgb(rgb), ttl, now)
    }

    /// Turns a display on or off for a time.
    ///
    /// # Errors
    ///
    /// Returns an error when the duration is out of range or the output is not a display that
    /// the active profile controls.
    pub fn set_display_override(&mut self, output: &str, enabled: bool, ttl: Nanos, now: Nanos) -> (result:
        Result<()>)
        ensures
            override_step(
                *old(self),
                *final(self),
                result,
                display_override_refused(old(self)@, output@, ttl, now),
                output@,
                OverrideValue::Display(enabled),
                ttl,
                now,
            ),
    {
        if ttl == 0 {
            return Err(
                FeatherError::Daemon("override duration must be greater than zero".to_owned()),
            );
        }
        match self.config.outputs.get(output) {
            None => {
                return Err(FeatherError::Daemon(text::concat3("unknown output '", output, "'")));
            },
            Some(OutputConfig::Display { .. }) => {},
            Some(_) => {
                return Err(
                    FeatherError::Daemon(
                        text::concat4("output '", output, "' is not ", "a display"),
                    ),
                );
            },
        }
        self.add_override(output, OverrideValue::Display(enabled), ttl, now)
    }

    /// Ends the override of an output, or all of them.
    ///
    /// # Errors
    ///
    /// Returns an error when a named output has no override.
    pub fn clear_overrides(&mut self, output: Option<&str>) -> (result: Result<()>)
        ensures
            final(self).hardware == old(self).hardware,
            match output {
                None => result is Ok && final(self)@ == (EngineModel {
                    overrides: Seq::empty(),
                    ..old(self)@
                }),
                Some(name) => if names::has(old(self)@.overrides, name@) {
                    result is Ok && final(self)@ == (EngineModel {
                        overrides: names::removed(old(self)@.overrides, name@),
                        ..old(self)@
                    })
                } else {
                    &&& final(self)@ == old(self)@
                    &&& result matches Err(error) && error@ == no_override(name@)
                },
            },
    {
        match output {
            None => {
                self.overrides = NameMap::new();
                Ok(())
            },
            Some(name) => {
                if self.overrides.remove(name).is_none() {
                    return Err(
                        FeatherError::Daemon(
                            text::concat3("output '", name, "' has no active override"),
                        ),
                    );
                }
                Ok(())
            },
        }
    }

    /// Reads diagnostic HID data from a configured device.
    ///
    /// # Errors
    ///
    /// Returns an error when the device is not configured, or the error of the hardware.
    pub fn debug_hid_dump(&mut self, device: &str) -> (result: Result<String>)
        ensures
            if names::has(old(self)@.config.devices@, device@) {
                &&& final(self)@ == old(self)@
                &&& final(self).hardware.calls() == old(self).hardware.calls().push(
                    Call::Dump { device: device@, reply: views::outcome(result) },
                )
            } else {
                &&& engine::untouched(*old(self), *final(self))
                &&& result matches Err(error) && error@ == drivers::unknown_device(device@)
            },
    {
        if !self.config.devices.contains_key(device) {
            return Err(drivers::unknown_device_error(device));
        }
        self.hardware.debug_hid_dump(device)
    }

    /// Gives all devices back to their hardware policy.
    pub fn shutdown(&mut self)
        ensures
            final(self)@ == old(self)@,
            final(self).hardware.calls() == old(self).hardware.calls().push(Call::Shutdown),
    {
        self.hardware.shutdown();
    }
}

// ---------------------------------------------------------------- devices of outputs

/// A set of names, in order.
pub type Names = names::Entries<()>;

/// The devices of the first `count` outputs.
pub open spec fn devices_of(outputs: names::Entries<OutputConfig>, count: int) -> Names
    decreases count,
{
    if count <= 0 {
        Seq::empty()
    } else {
        names::inserted(
            devices_of(outputs, count - 1),
            validation::device_of(outputs[count - 1].1),
            (),
        )
    }
}

/// The devices of the outputs among the first `count` names, without those in `excluded`.
pub open spec fn devices_named(
    config: Config,
    outputs: Seq<Seq<char>>,
    excluded: Names,
    count: int,
) -> Names
    decreases count,
{
    if count <= 0 {
        Seq::empty()
    } else {
        let earlier = devices_named(config, outputs, excluded, count - 1);
        let name = outputs[count - 1];
        if names::has(excluded, name) {
            earlier
        } else {
            match names::find(config.outputs@, name) {
                Some(output) => names::inserted(earlier, validation::device_of(output), ()),
                None => earlier,
            }
        }
    }
}

/// The devices of the outputs that a profile assigns, without those in `excluded`.
pub open spec fn profile_devices_of(config: Config, profile: Seq<char>, excluded: Names) -> Names {
    match names::find(config.profiles@, profile) {
        Some(found) => devices_named(
            config,
            names::names(found.outputs@),
            excluded,
            found.outputs@.len() as int,
        ),
        None => Seq::empty(),
    }
}

/// The devices that the active profile controls.
pub open spec fn controlled_devices(model: EngineModel) -> Names {
    profile_devices_of(model.config, model.active_profile, model.released)
}

/// The names among the first `count` that are not in `other`.
pub open spec fn without(left: Names, other: Names, count: int) -> Seq<Seq<char>>
    decreases count,
{
    if count <= 0 {
        Seq::empty()
    } else if names::has(other, left[count - 1].0) {
        without(left, other, count - 1)
    } else {
        without(left, other, count - 1).push(left[count - 1].0)
    }
}

/// The outputs that belong to a device.
pub open spec fn output_on(outputs: names::Entries<OutputConfig>, device: Seq<char>) -> spec_fn(
    int,
) -> Option<int> {
    |at: int|
        if validation::device_of(outputs[at].1) == device {
            Some(at)
        } else {
            None
        }
}

/// Entries without the outputs of a device among the first `count`.
pub open spec fn dropped<V>(
    entries: names::Entries<V>,
    outputs: names::Entries<OutputConfig>,
    device: Seq<char>,
    count: int,
) -> names::Entries<V>
    decreases count,
{
    if count <= 0 {
        entries
    } else {
        let earlier = dropped(entries, outputs, device, count - 1);
        if validation::device_of(outputs[count - 1].1) == device {
            names::removed(earlier, outputs[count - 1].0)
        } else {
            earlier
        }
    }
}

/// The state once a device was given back: nothing is known of its outputs, and they have no
/// overrides.
pub open spec fn forgotten(model: EngineModel, device: Seq<char>) -> EngineModel {
    let outputs = model.config.outputs@;
    EngineModel {
        outputs: dropped(model.outputs, outputs, device, outputs.len() as int),
        overrides: dropped(model.overrides, outputs, device, outputs.len() as int),
        ..model
    }
}

/// What comes of giving a device back: it is released once, through its first output, and
/// forgotten if that worked.
pub open spec fn release_step<H: Hardware>(
    before: Engine<H>,
    after: Engine<H>,
    result: Reply<()>,
    device: Seq<char>,
) -> bool {
    let outputs = before@.config.outputs@;
    match search::first(output_on(outputs, device), 0, outputs.len() as int) {
        None => result == Err::<(), ErrorView>(
            ErrorView::Daemon("device '"@ + device + "' has no configured outputs"@),
        ) && engine::untouched(before, after),
        Some(at) => {
            let call = after.hardware.calls().last();
            &&& after.hardware.calls() == before.hardware.calls().push(call)
            &&& match call {
                Call::Release { alias, config, reply } => {
                    &&& alias == outputs[at].0 && config == outputs[at].1
                    &&& result == reply
                    &&& after@ == (match reply {
                        Ok(_) => forgotten(before@, device),
                        Err(_) => before@,
                    })
                },
                _ => false,
            }
        },
    }
}

/// A run of releases through every state between them: each worked, and if the run failed, the
/// next did not.
pub open spec fn release_run<H: Hardware>(
    before: Engine<H>,
    after: Engine<H>,
    result: Reply<()>,
    devices: Seq<Seq<char>>,
    states: Seq<Engine<H>>,
) -> bool {
    &&& 0 < states.len() <= devices.len() + 1
    &&& states[0] == before
    &&& forall|i: int|
        0 <= i < states.len() - 1 ==> release_step(
            #[trigger] states[i],
            states[i + 1],
            Ok::<(), ErrorView>(()),
            devices[i],
        )
    &&& match result {
        Ok(_) => states.len() == devices.len() + 1 && states.last() == after,
        Err(_) => states.len() <= devices.len() && release_step(
            states.last(),
            after,
            result,
            devices[states.len() - 1],
        ),
    }
}

/// Whether devices were given back in order until one could not be.
pub open spec fn released_all<H: Hardware>(
    before: Engine<H>,
    after: Engine<H>,
    result: Reply<()>,
    devices: Seq<Seq<char>>,
) -> bool {
    exists|states: Seq<Engine<H>>| #[trigger] release_run(before, after, result, devices, states)
}

impl<H: Hardware> Engine<H> {
    fn forget(&mut self, device: &str)
        ensures
            engine::became(*old(self), *final(self), forgotten(old(self)@, device@)),
    {
        let ghost model = self@;
        let ghost outputs = model.config.outputs@;
        let count: usize = self.config.outputs.len();
        let mut at: usize = 0;
        while at < count
            invariant
                model == old(self)@,
                outputs == model.config.outputs@,
                count == outputs.len(),
                at <= count,
                self.hardware == old(self).hardware,
                self@ == (EngineModel {
                    outputs: dropped(model.outputs, outputs, device@, at as int),
                    overrides: dropped(model.overrides, outputs, device@, at as int),
                    ..model
                }),
            decreases count - at,
        {
            if text::same(output_device(self.config.outputs.value_at(at)), device) {
                let name = self.config.outputs.key_at(at);
                let _ = self.outputs.remove(name.as_str());
                let _ = self.overrides.remove(name.as_str());
            }
            at += 1;
        }
    }

    fn release_device(&mut self, device: &str) -> (result: Result<()>)
        ensures
            release_step(*old(self), *final(self), drivers::done(result), device@),
            final(self)@.config == old(self)@.config,
            final(self)@.released == old(self)@.released,
            final(self)@.active_profile == old(self)@.active_profile,
    {
        let ghost outputs = self@.config.outputs@;
        let ghost check = output_on(outputs, device@);
        let count: usize = self.config.outputs.len();
        let mut at: usize = 0;
        while at < count
            invariant
                *self == *old(self),
                outputs == self@.config.outputs@,
                check == output_on(outputs, device@),
                count == outputs.len(),
                at <= count,
                search::first(check, 0, count as int) == search::first(
                    check,
                    at as int,
                    count as int,
                ),
            decreases count - at,
        {
            let output = self.config.outputs.value_at(at);
            if text::same(output_device(output), device) {
                assert(check(at as int) == Some(at as int));
                self.hardware.release(self.config.outputs.key_at(at).as_str(), output)?;
                self.forget(device);
                return Ok(());
            }
            at += 1;
        }
        Err(
            FeatherError::Daemon(
                text::concat3("device '", device, "' has no configured outputs"),
            ),
        )
    }

    fn release_devices(&mut self, devices: &Vec<String>) -> (result: Result<()>)
        ensures
            released_all(
                *old(self),
                *final(self),
                drivers::done(result),
                text::texts(devices@),
            ),
            final(self)@.config == old(self)@.config,
            final(self)@.released == old(self)@.released,
            final(self)@.active_profile == old(self)@.active_profile,
    {
        let ghost before = *self;
        let ghost wanted = text::texts(devices@);
        let ghost mut states: Seq<Engine<H>> = seq![*self];
        let mut at: usize = 0;
        while at < devices.len()
            invariant
                before == *old(self),
                self@.config == before@.config,
                self@.released == before@.released,
                self@.active_profile == before@.active_profile,
                wanted == text::texts(devices@),
                at <= devices@.len(),
                states.len() == at + 1,
                states[0] == before,
                states.last() == *self,
                forall|i: int|
                    0 <= i < at ==> release_step(
                        #[trigger] states[i],
                        states[i + 1],
                        Ok::<(), ErrorView>(()),
                        wanted[i],
                    ),
            decreases devices@.len() - at,
        {
            let ghost earlier = states;
            let result = self.release_device(devices[at].as_str());
            if let Err(error) = result {
                assert(release_run(before, *self, Err(error@), wanted, states));
                return Err(error);
            }
            proof {
                states = states.push(*self);
                assert forall|i: int| 0 <= i < at + 1 implies release_step(
                    #[trigger] states[i],
                    states[i + 1],
                    Ok::<(), ErrorView>(()),
                    wanted[i],
                ) by {
                    assert(states[i] == earlier[i]);
                    if i < at {
                        assert(states[i + 1] == earlier[i + 1]);
                    }
                }
            }
            at += 1;
        }
        assert(release_run(before, *self, Ok(()), wanted, states));
        Ok(())
    }

    fn profile_devices(&self, profile: &str, excluded: &NameMap<()>) -> (devices: NameMap<()>)
        ensures
            devices@ == profile_devices_of(self@.config, profile@, excluded@),
            names::sorted(devices@),
    {
        let mut devices: NameMap<()> = NameMap::new();
        if let Some(found) = self.config.profiles.get(profile) {
            let ghost wanted = names::names(found.outputs@);
            let count: usize = found.outputs.len();
            let mut at: usize = 0;
            while at < count
                invariant
                    count == found.outputs@.len(),
                    wanted == names::names(found.outputs@),
                    at <= count,
                    names::sorted(devices@),
                    devices@ == devices_named(self@.config, wanted, excluded@, at as int),
                decreases count - at,
            {
                let name = found.outputs.key_at(at).as_str();
                if !excluded.contains_key(name) {
                    if let Some(output) = self.config.outputs.get(name) {
                        devices.insert(output_device(output).to_owned(), ());
                    }
                }
                at += 1;
            }
        }
        devices
    }
}

fn names_without(left: &NameMap<()>, other: &NameMap<()>) -> (list: Vec<String>)
    ensures
        text::texts(list@) == without(left@, other@, left@.len() as int),
{
    let mut list: Vec<String> = Vec::new();
    let count: usize = left.len();
    let mut at: usize = 0;
    assert(text::texts(list@) =~= without(left@, other@, 0));
    while at < count
        invariant
            count == left@.len(),
            at <= count,
            text::texts(list@) == without(left@, other@, at as int),
        decreases count - at,
    {
        let name = left.key_at(at);
        if !other.contains_key(name.as_str()) {
            let copy = name.clone();
            let ghost earlier = list@;
            list.push(copy);
            assert(text::texts(list@) =~= text::texts(earlier).push(copy@));
        }
        at += 1;
    }
    list
}

// ---------------------------------------------------------------- profiles

/// The devices that a change of profile gives back, in order: those controlled so far that the
/// next profile does not assign.
pub open spec fn left_behind(model: EngineModel, profile: Seq<char>) -> Seq<Seq<char>> {
    let current = controlled_devices(model);
    without(
        current,
        profile_devices_of(model.config, profile, Seq::empty()),
        current.len() as int,
    )
}

/// The state once another profile is active.
pub open spec fn with_profile(model: EngineModel, profile: Seq<char>) -> EngineModel {
    EngineModel {
        active_profile: profile,
        overrides: Seq::empty(),
        released: Seq::empty(),
        outputs: Seq::empty(),
        ..model
    }
}

/// What comes of a change of profile.
pub open spec fn profile_step<H: Hardware>(
    before: Engine<H>,
    after: Engine<H>,
    result: Reply<()>,
    profile: Seq<char>,
) -> bool {
    if !names::has(before@.config.profiles@, profile) {
        result == Err::<(), ErrorView>(ErrorView::Daemon("unknown profile '"@ + profile + "'"@))
            && engine::untouched(before, after)
    } else {
        exists|freed: Engine<H>|
            {
                &&& #[trigger] released_all(before, freed, result, left_behind(before@, profile))
                &&& match result {
                    Ok(_) => engine::became(freed, after, with_profile(freed@, profile)),
                    Err(_) => freed == after,
                }
            }
    }
}

impl<H: Hardware> Engine<H> {
    /// Makes another profile active. Devices that only the current one controls are given back;
    /// overrides and releases end.
    ///
    /// # Errors
    ///
    /// Returns an error when the profile does not exist or a device cannot be given back.
    pub fn set_profile(&mut self, profile: &str) -> (result: Result<()>)
        ensures
            profile_step(*old(self), *final(self), drivers::done(result), profile@),
            final(self)@.config == old(self)@.config,
            result is Ok ==> final(self)@.active_profile == profile@ && names::has(
                final(self)@.config.profiles@,
                profile@,
            ),
            result is Err ==> final(self)@.active_profile == old(self)@.active_profile,
    {
        if !self.config.profiles.contains_key(profile) {
            return Err(FeatherError::Daemon(text::concat3("unknown profile '", profile, "'")));
        }
        let none: NameMap<()> = NameMap::new();
        let current = self.profile_devices(self.active_profile.as_str(), &self.released);
        let next = self.profile_devices(profile, &none);
        let leaving = names_without(&current, &next);
        let ghost before = *self;
        let outcome = self.release_devices(&leaving);
        let ghost freed = *self;
        assert(released_all(
            before,
            freed,
            drivers::done(outcome),
            left_behind(before@, profile@),
        ));
        outcome?;
        self.active_profile = profile.to_owned();
        self.overrides = NameMap::new();
        self.released = NameMap::new();
        self.outputs = NameMap::new();
        Ok(())
    }
}

// ---------------------------------------------------------------- release and resume

/// The devices that a command about an output, or about all of them, means.
pub open spec fn selected(config: Config, output: Option<Seq<char>>) -> Reply<Names> {
    match output {
        None => Ok(devices_of(config.outputs@, config.outputs@.len() as int)),
        Some(name) => match names::find(config.outputs@, name) {
            None => Err(unknown_output(name)),
            Some(found) => Ok(
                names::inserted(
                    Seq::<(Seq<char>, ())>::empty(),
                    validation::device_of(found),
                    (),
                ),
            ),
        },
    }
}

/// The outputs among the first `count` that belong to one of a set of devices.
pub open spec fn outputs_of_devices(
    outputs: names::Entries<OutputConfig>,
    devices: Names,
    count: int,
) -> Seq<Seq<char>>
    decreases count,
{
    if count <= 0 {
        Seq::empty()
    } else {
        let earlier = outputs_of_devices(outputs, devices, count - 1);
        if names::has(devices, validation::device_of(outputs[count - 1].1)) {
            earlier.push(outputs[count - 1].0)
        } else {
            earlier
        }
    }
}

/// The state once the first `count` outputs are left to their hardware policy.
pub open spec fn noted_releases(
    model: EngineModel,
    targets: Seq<Seq<char>>,
    count: int,
) -> EngineModel
    decreases count,
{
    if count <= 0 {
        model
    } else {
        let earlier = noted_releases(model, targets, count - 1);
        let name = targets[count - 1];
        let runtime = engine::runtime_of(earlier, name);
        EngineModel {
            released: names::inserted(earlier.released, name, ()),
            overrides: names::removed(earlier.overrides, name),
            outputs: names::inserted(
                earlier.outputs,
                name,
                RuntimeView { health: Some(Health::Released), last_target: None, ..runtime },
            ),
            ..earlier
        }
    }
}

/// The state once the first `count` outputs are under control again.
pub open spec fn noted_resumes(model: EngineModel, targets: Seq<Seq<char>>, count: int) -> EngineModel
    decreases count,
{
    if count <= 0 {
        model
    } else {
        let earlier = noted_resumes(model, targets, count - 1);
        EngineModel {
            released: names::removed(earlier.released, targets[count - 1]),
            outputs: names::removed(earlier.outputs, targets[count - 1]),
            ..earlier
        }
    }
}

/// The affected outputs of a command.
pub open spec fn affected(result: Result<Vec<String>>) -> Reply<Seq<Seq<char>>> {
    match result {
        Ok(list) => Ok(text::texts(list@)),
        Err(error) => Err(error@),
    }
}

/// What comes of a release: the devices are given back in order, and once all of them are,
/// every output on them is left to its hardware policy.
pub open spec fn release_command<H: Hardware>(
    before: Engine<H>,
    after: Engine<H>,
    result: Reply<Seq<Seq<char>>>,
    output: Option<Seq<char>>,
) -> bool {
    match selected(before@.config, output) {
        Err(error) => result == Err::<Seq<Seq<char>>, ErrorView>(error) && engine::untouched(
            before,
            after,
        ),
        Ok(devices) => {
            let outputs = before@.config.outputs@;
            let targets = outputs_of_devices(outputs, devices, outputs.len() as int);
            exists|freed: Engine<H>, outcome: Reply<()>|
                {
                    &&& #[trigger] released_all(before, freed, outcome, names::names(devices))
                    &&& match outcome {
                        Err(error) => result == Err::<Seq<Seq<char>>, ErrorView>(error) && freed
                            == after,
                        Ok(_) => result == Ok::<Seq<Seq<char>>, ErrorView>(targets)
                            && engine::became(
                            freed,
                            after,
                            noted_releases(freed@, targets, targets.len() as int),
                        ),
                    }
                }
        },
    }
}

/// What comes of a resume: every output on the devices is under control again.
pub open spec fn resume_command<H: Hardware>(
    before: Engine<H>,
    after: Engine<H>,
    result: Reply<Seq<Seq<char>>>,
    output: Option<Seq<char>>,
) -> bool {
    match selected(before@.config, output) {
        Err(error) => result == Err::<Seq<Seq<char>>, ErrorView>(error) && engine::untouched(
            before,
            after,
        ),
        Ok(devices) => {
            let outputs = before@.config.outputs@;
            let targets = outputs_of_devices(outputs, devices, outputs.len() as int);
            &&& result == Ok::<Seq<Seq<char>>, ErrorView>(targets)
            &&& engine::became(
                before,
                after,
                noted_resumes(before@, targets, targets.len() as int),
            )
        },
    }
}

/// The name of a choice of outputs.
pub open spec fn chosen(output: Option<&str>) -> Option<Seq<char>> {
    match output {
        Some(name) => Some(name@),
        None => None,
    }
}

impl<H: Hardware> Engine<H> {
    fn selected_devices(&self, output: Option<&str>) -> (result: Result<NameMap<()>>)
        ensures
            views::outcome(result) == selected(self@.config, chosen(output)),
            result matches Ok(devices) ==> names::sorted(devices@),
    {
        let mut devices: NameMap<()> = NameMap::new();
        match output {
            Some(name) => match self.config.outputs.get(name) {
                None => Err(FeatherError::Daemon(text::concat3("unknown output '", name, "'"))),
                Some(found) => {
                    devices.insert(output_device(found).to_owned(), ());
                    Ok(devices)
                },
            },
            None => {
                let count: usize = self.config.outputs.len();
                let mut at: usize = 0;
                while at < count
                    invariant
                        count == self@.config.outputs@.len(),
                        at <= count,
                        names::sorted(devices@),
                        devices@ == devices_of(self@.config.outputs@, at as int),
                    decreases count - at,
                {
                    let device = output_device(self.config.outputs.value_at(at));
                    devices.insert(device.to_owned(), ());
                    at += 1;
                }
                Ok(devices)
            },
        }
    }

    fn outputs_for_devices(&self, devices: &NameMap<()>) -> (list: Vec<String>)
        ensures
            text::texts(list@) == outputs_of_devices(
                self@.config.outputs@,
                devices@,
                self@.config.outputs@.len() as int,
            ),
    {
        let mut list: Vec<String> = Vec::new();
        let count: usize = self.config.outputs.len();
        let mut at: usize = 0;
        assert(text::texts(list@) =~= outputs_of_devices(self@.config.outputs@, devices@, 0));
        while at < count
            invariant
                count == self@.config.outputs@.len(),
                at <= count,
                text::texts(list@) == outputs_of_devices(
                    self@.config.outputs@,
                    devices@,
                    at as int,
                ),
            decreases count - at,
        {
            if devices.contains_key(output_device(self.config.outputs.value_at(at))) {
                let name = self.config.outputs.key_at(at).clone();
                let ghost earlier = list@;
                list.push(name);
                assert(text::texts(list@) =~= text::texts(earlier).push(name@));
            }
            at += 1;
        }
        list
    }

    /// Gives the device of an output, or all devices, back to the hardware policy, and returns
    /// every output on them.
    ///
    /// # Errors
    ///
    /// Returns an error when the output does not exist or a device cannot be given back.
    pub fn release_outputs(&mut self, output: Option<&str>) -> (result: Result<Vec<String>>)
        ensures
            release_command(*old(self), *final(self), affected(result), chosen(output)),
            final(self)@.config == old(self)@.config,
            final(self)@.active_profile == old(self)@.active_profile,
    {
        let ghost before = *self;
        let devices = self.selected_devices(output)?;
        let list = devices.keys();
        let outcome = self.release_devices(&list);
        let ghost freed = *self;
        assert(released_all(before, freed, drivers::done(outcome), names::names(devices@)));
        outcome?;
        let targets = self.outputs_for_devices(&devices);
        let ghost wanted = text::texts(targets@);
        let mut at: usize = 0;
        while at < targets.len()
            invariant
                at <= targets@.len(),
                wanted == text::texts(targets@),
                self.hardware == freed.hardware,
                self@ == noted_releases(freed@, wanted, at as int),
                self@.config == freed@.config,
                self@.active_profile == freed@.active_profile,
            decreases targets@.len() - at,
        {
            let name = targets[at].as_str();
            self.released.insert(name.to_owned(), ());
            let _ = self.overrides.remove(name);
            let ghost model = self@;
            let mut runtime = self.take_runtime(name);
            runtime.health = Some(Health::Released);
            runtime.last_target = None;
            self.put_runtime(name, runtime, Ghost(model));
            at += 1;
        }
        Ok(targets)
    }

    /// Takes the device of an output, or all devices, under control again, and returns every
    /// output on them.
    ///
    /// # Errors
    ///
    /// Returns an error when the output does not exist.
    pub fn resume_outputs(&mut self, output: Option<&str>) -> (result: Result<Vec<String>>)
        ensures
            resume_command(*old(self), *final(self), affected(result), chosen(output)),
            final(self)@.config == old(self)@.config,
            final(self)@.active_profile == old(self)@.active_profile,
    {
        let ghost before = *self;
        let devices = self.selected_devices(output)?;
        let targets = self.outputs_for_devices(&devices);
        let ghost wanted = text::texts(targets@);
        let mut at: usize = 0;
        while at < targets.len()
            invariant
                at <= targets@.len(),
                wanted == text::texts(targets@),
                self.hardware == before.hardware,
                self@ == noted_resumes(before@, wanted, at as int),
                self@.config == before@.config,
                self@.active_profile == before@.active_profile,
            decreases targets@.len() - at,
        {
            let name = targets[at].as_str();
            let _ = self.released.remove(name);
            let _ = self.outputs.remove(name);
            at += 1;
        }
        Ok(targets)
    }
}

// ---------------------------------------------------------------- reload

/// The profile that stays active over a reload: the current one if the new configuration has
/// it, its default otherwise.
pub open spec fn kept_profile(model: EngineModel, candidate: Config) -> Seq<char> {
    if names::has(candidate.profiles@, model.active_profile) {
        model.active_profile
    } else {
        candidate.default_profile@
    }
}

/// The state once another configuration is active.
pub open spec fn reloaded(
    model: EngineModel,
    candidate: Config,
    devices: Seq<DescriptorView>,
) -> EngineModel {
    EngineModel {
        config: candidate,
        active_profile: kept_profile(model, candidate),
        generation: if model.generation < u64::MAX {
            (model.generation + 1) as u64
        } else {
            u64::MAX
        },
        last_sensor_poll: None,
        readings: Seq::empty(),
        sensor_errors: Seq::empty(),
        outputs: Seq::empty(),
        overrides: Seq::empty(),
        released: Seq::empty(),
        devices,
        ..model
    }
}

/// What comes of a reload: the hardware checks the new configuration, then every controlled
/// device is given back, then the new configuration is activated. A failure before the last
/// step leaves the old configuration in place.
pub open spec fn reload_step<H: Hardware>(
    before: Engine<H>,
    after: Engine<H>,
    result: Reply<()>,
    candidate: Config,
) -> bool {
    exists|checked: Engine<H>, freed: Engine<H>, outcome: Reply<()>| #[trigger]
        reload_run(before, checked, freed, after, outcome, result, candidate)
}

/// A reload through every state between its steps.
pub open spec fn reload_run<H: Hardware>(
    before: Engine<H>,
    checked: Engine<H>,
    freed: Engine<H>,
    after: Engine<H>,
    outcome: Reply<()>,
    result: Reply<()>,
    candidate: Config,
) -> bool {
    let call = checked.hardware.calls().last();
    &&& checked@ == before@
    &&& checked.hardware.calls() == before.hardware.calls().push(call)
    &&& match call {
        Call::Preflight { config, reply } => {
            &&& config == candidate
            &&& match reply {
                Err(error) => result == Err::<(), ErrorView>(error) && checked == after,
                Ok(devices) => {
                    &&& released_all(
                        checked,
                        freed,
                        outcome,
                        names::names(controlled_devices(before@)),
                    )
                    &&& match outcome {
                        Err(error) => result == Err::<(), ErrorView>(error) && freed == after,
                        Ok(_) => {
                            &&& result == Ok::<(), ErrorView>(())
                            &&& after.hardware.calls() == freed.hardware.calls().push(
                                Call::Commit { config: candidate },
                            )
                            &&& after@ == reloaded(freed@, candidate, devices)
                        },
                    }
                },
            }
        },
        _ => false,
    }
}

impl<H: Hardware> Engine<H> {
    /// Activates another configuration.
    ///
    /// # Errors
    ///
    /// Returns an error when the hardware does not fit the configuration or a device cannot be
    /// given back.
    pub fn reload(&mut self, candidate: Config) -> (result: Result<()>)
        ensures
            reload_step(*old(self), *final(self), drivers::done(result), candidate),
            result is Ok ==> final(self)@.config == candidate && final(self)@.active_profile
                == kept_profile(old(self)@, candidate),
            result is Err ==> final(self)@.config == old(self)@.config
                && final(self)@.active_profile == old(self)@.active_profile,
    {
        let ghost before = *self;
        let devices = match self.hardware.preflight(&candidate) {
            Ok(devices) => devices,
            Err(error) => {
                assert(reload_run(before, *self, *self, *self, Ok(()), Err(error@), candidate));
                return Err(error);
            },
        };
        let ghost checked = *self;
        let active_profile = if candidate.profiles.contains_key(self.active_profile.as_str()) {
            self.active_profile.clone()
        } else {
            candidate.default_profile.clone()
        };
        let held = self.profile_devices(self.active_profile.as_str(), &self.released);
        let list = held.keys();
        let outcome = self.release_devices(&list);
        let ghost freed = *self;
        assert(released_all(
            checked,
            freed,
            drivers::done(outcome),
            names::names(controlled_devices(before@)),
        ));
        if let Err(error) = outcome {
            assert(reload_run(
                before,
                checked,
                freed,
                *self,
                Err(error@),
                Err(error@),
                candidate,
            ));
            return Err(error);
        }
        self.hardware.commit_config(&candidate);
        self.config = candidate;
        self.active_profile = active_profile;
        if self.generation < u64::MAX {
            self.generation = self.generation + 1;
        }
        self.last_sensor_poll = None;
        self.readings = NameMap::new();
        self.sensor_errors = NameMap::new();
        self.outputs = NameMap::new();
        self.overrides = NameMap::new();
        self.released = NameMap::new();
        self.devices = devices;
        assert(reload_run(before, checked, freed, *self, Ok(()), Ok(()), candidate));
        Ok(())
    }
}

} // verus!
