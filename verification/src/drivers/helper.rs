//! The work of an NVIDIA helper process.

use vstd::prelude::*;

use crate::celsius::Celsius;
use crate::drivers;
use crate::drivers::nvidia;
use crate::drivers::nvidia::FanCapabilities;
use crate::drivers::nvidia::GpuInfo;
use crate::drivers::nvidia::HelperFans;
use crate::drivers::nvidia::HelperRequest;
use crate::drivers::nvidia::HelperResponse;
use crate::drivers::nvidia::HelperResult;
use crate::drivers::Reply;
use crate::error;
use crate::error::ErrorView;
use crate::error::FeatherError;
use crate::error::Result;
use crate::json::Json;
use crate::json::JsonView;
use crate::names;
use crate::names::NameMap;
use crate::search;
use crate::text;
use crate::types::DescriptorView;
use crate::types::DeviceDescriptor;
use crate::views;

verus! {

// ---------------------------------------------------------------- GPUs

/// What the GPU library gives back, or why it failed.
pub type Answer<T> = std::result::Result<T, String>;

/// See [`Answer`].
pub type AnswerView<T> = std::result::Result<T, Seq<char>>;

/// The view of an answer.
pub open spec fn said<T>(answer: Answer<T>) -> AnswerView<T> {
    match answer {
        Ok(value) => Ok(value),
        Err(reason) => Err(reason@),
    }
}

/// Why a GPU could not be read.
#[derive(Debug)]
pub enum GpuFault {
    /// It could not be opened.
    Open(String),
    /// It did not tell its UUID.
    Uuid(String),
}

/// The GPU library of a machine.
///
/// Nothing is promised of what it gives back; each call only adds itself, with its arguments and
/// its answer, to the calls made so far.
pub trait Gpus: Sized {
    /// The calls made so far, in order.
    open spec fn calls(&self) -> Seq<GpuCall> {
        Seq::empty()
    }

    /// Loads the library.
    ///
    /// # Errors
    ///
    /// Returns why it cannot be loaded.
    fn load(&mut self) -> (answer: Answer<()>)
        ensures
            final(self).calls() == old(self).calls().push(GpuCall::Load { answer: said(answer) }),
    ;

    /// Unloads the library.
    fn unload(&mut self)
        ensures
            final(self).calls() == old(self).calls().push(GpuCall::Unload),
    ;

    /// Counts the GPUs.
    ///
    /// # Errors
    ///
    /// Returns why they cannot be counted.
    fn count(&mut self) -> (answer: Answer<u32>)
        ensures
            final(self).calls() == old(self).calls().push(GpuCall::Count { answer: said(answer) }),
    ;

    /// Reads a GPU.
    ///
    /// # Errors
    ///
    /// Returns why it cannot be read.
    fn read(&mut self, index: u32) -> (answer: std::result::Result<GpuInfo, GpuFault>)
        ensures
            final(self).calls() == old(self).calls().push(GpuCall::Read { index, answer }),
    ;

    /// Finds a GPU.
    ///
    /// # Errors
    ///
    /// Returns why it cannot be found.
    fn find(&mut self, uuid: &str) -> (answer: Answer<()>)
        ensures
            final(self).calls() == old(self).calls().push(
                GpuCall::Find { uuid: uuid@, answer: said(answer) },
            ),
    ;

    /// Reads the core temperature of a GPU.
    ///
    /// # Errors
    ///
    /// Returns why it cannot be read.
    fn temperature(&mut self, uuid: &str) -> (answer: Answer<Celsius>)
        ensures
            final(self).calls() == old(self).calls().push(
                GpuCall::Temperature { uuid: uuid@, answer: said(answer) },
            ),
    ;

    /// Counts the fans of a GPU.
    ///
    /// # Errors
    ///
    /// Returns why they cannot be counted.
    fn count_fans(&mut self, uuid: &str) -> (answer: Answer<u32>)
        ensures
            final(self).calls() == old(self).calls().push(
                GpuCall::CountFans { uuid: uuid@, answer: said(answer) },
            ),
    ;

    /// The lowest and the highest duty of the fans of a GPU, if it tells them.
    fn fan_range(&mut self, uuid: &str) -> (answer: Option<(u32, u32)>)
        ensures
            final(self).calls() == old(self).calls().push(
                GpuCall::FanRange { uuid: uuid@, answer },
            ),
    ;

    /// Sets a fan of a GPU.
    ///
    /// # Errors
    ///
    /// Returns why it cannot be set.
    fn set_fan(&mut self, uuid: &str, fan: u32, duty: u32) -> (answer: Answer<()>)
        ensures
            final(self).calls() == old(self).calls().push(
                GpuCall::SetFan { uuid: uuid@, fan, duty, answer: said(answer) },
            ),
    ;

    /// Gives a fan of a GPU back to its own policy.
    ///
    /// # Errors
    ///
    /// Returns why it cannot be given back.
    fn reset_fan(&mut self, uuid: &str, fan: u32) -> (answer: Answer<()>)
        ensures
            final(self).calls() == old(self).calls().push(
                GpuCall::ResetFan { uuid: uuid@, fan, answer: said(answer) },
            ),
    ;
}

/// One call of the GPU library, with what it gave back.
pub ghost enum GpuCall {
    /// [`Gpus::load`].
    Load {
        /// Whether it was loaded.
        answer: AnswerView<()>,
    },
    /// [`Gpus::unload`].
    Unload,
    /// [`Gpus::count`].
    Count {
        /// The number.
        answer: AnswerView<u32>,
    },
    /// [`Gpus::read`].
    Read {
        /// Index of the GPU.
        index: u32,
        /// The GPU.
        answer: std::result::Result<GpuInfo, GpuFault>,
    },
    /// [`Gpus::find`].
    Find {
        /// UUID of the GPU.
        uuid: Seq<char>,
        /// Whether it was found.
        answer: AnswerView<()>,
    },
    /// [`Gpus::temperature`].
    Temperature {
        /// UUID of the GPU.
        uuid: Seq<char>,
        /// The temperature.
        answer: AnswerView<Celsius>,
    },
    /// [`Gpus::count_fans`].
    CountFans {
        /// UUID of the GPU.
        uuid: Seq<char>,
        /// The number.
        answer: AnswerView<u32>,
    },
    /// [`Gpus::fan_range`].
    FanRange {
        /// UUID of the GPU.
        uuid: Seq<char>,
        /// The range.
        answer: Option<(u32, u32)>,
    },
    /// [`Gpus::set_fan`].
    SetFan {
        /// UUID of the GPU.
        uuid: Seq<char>,
        /// Index of the fan.
        fan: u32,
        /// The duty.
        duty: u32,
        /// Whether it was set.
        answer: AnswerView<()>,
    },
    /// [`Gpus::reset_fan`].
    ResetFan {
        /// UUID of the GPU.
        uuid: Seq<char>,
        /// Index of the fan.
        fan: u32,
        /// Whether it was given back.
        answer: AnswerView<()>,
    },
}

/// The driver in a helper process.
pub struct HelperDriver<G> {
    /// The GPU library.
    pub gpus: G,
    /// Whether the library is loaded.
    pub loaded: bool,
    /// What is known of the fans.
    pub fans: HelperFans,
}

/// See [`HelperDriver`].
pub ghost struct DriverView {
    /// See [`HelperDriver::loaded`].
    pub loaded: bool,
    /// See [`HelperFans::controlled`].
    pub controlled: names::Entries<()>,
    /// See [`HelperFans::capabilities`].
    pub capabilities: names::Entries<FanCapabilities>,
    /// See [`Gpus::calls`].
    pub calls: Seq<GpuCall>,
}

impl<G: Gpus> View for HelperDriver<G> {
    type V = DriverView;

    open spec fn view(&self) -> DriverView {
        DriverView {
            loaded: self.loaded,
            controlled: self.fans.controlled@,
            capabilities: self.fans.capabilities@,
            calls: self.gpus.calls(),
        }
    }
}

/// The state after a call.
pub open spec fn called(before: DriverView, call: GpuCall) -> DriverView {
    DriverView { calls: before.calls.push(call), ..before }
}

/// A failure of the GPU library.
pub open spec fn failed(context: Seq<char>, reason: Seq<char>) -> ErrorView {
    ErrorView::Driver(context + ": "@ + reason)
}

// ---------------------------------------------------------------- library

/// The loading of the library.
pub open spec fn load_call(answer: AnswerView<()>) -> GpuCall {
    GpuCall::Load { answer }
}

/// The library was loaded, unless it was already.
pub open spec fn loaded(before: DriverView, after: DriverView, reply: Reply<()>) -> bool {
    if before.loaded {
        after == before && reply == Ok::<(), ErrorView>(())
    } else {
        exists|answer: AnswerView<()>|
            {
                let tried = called(before, #[trigger] load_call(answer));
                match answer {
                    Ok(_) => {
                        &&& after == (DriverView { loaded: true, ..tried })
                        &&& reply == Ok::<(), ErrorView>(())
                    },
                    Err(reason) => {
                        &&& after == tried
                        &&& reply == Err::<(), ErrorView>(
                            failed("could not load or initialize libnvidia-ml.so.1"@, reason),
                        )
                    },
                }
            }
    }
}

/// The search for a GPU.
pub open spec fn find_call(uuid: Seq<char>, answer: AnswerView<()>) -> GpuCall {
    GpuCall::Find { uuid, answer }
}

/// A GPU was looked for.
pub open spec fn looked_for(
    before: DriverView,
    after: DriverView,
    alias: Seq<char>,
    uuid: Seq<char>,
    reply: Reply<()>,
) -> bool {
    exists|answer: AnswerView<()>|
        {
            &&& after == called(before, #[trigger] find_call(uuid, answer))
            &&& reply == (match answer {
                Ok(_) => Ok(()),
                Err(reason) => Err(failed("device '"@ + alias + "' is unavailable"@, reason)),
            })
        }
}

/// A GPU was found, after the library was loaded.
pub open spec fn found(
    before: DriverView,
    after: DriverView,
    alias: Seq<char>,
    uuid: Seq<char>,
    reply: Reply<()>,
) -> bool {
    exists|ready: DriverView, start: Reply<()>|
        {
            &&& #[trigger] loaded(before, ready, start)
            &&& match start {
                Err(error) => after == ready && reply == Err::<(), ErrorView>(error),
                Ok(_) => looked_for(ready, after, alias, uuid, reply),
            }
        }
}

impl<G: Gpus> HelperDriver<G> {
    /// A driver that has not loaded the library.
    pub fn new(gpus: G) -> (driver: Self)
        ensures
            driver@ == (DriverView {
                loaded: false,
                controlled: Seq::empty(),
                capabilities: Seq::empty(),
                calls: gpus.calls(),
            }),
            driver.gpus == gpus,
    {
        let driver = HelperDriver {
            gpus,
            loaded: false,
            fans: HelperFans::new(),
        };
        assert(driver@.controlled =~= Seq::empty());
        assert(driver@.capabilities =~= Seq::empty());
        driver
    }

    fn load(&mut self) -> (result: Result<()>)
        ensures
            loaded(old(self)@, final(self)@, drivers::done(result)),
    {
        if self.loaded {
            return Ok(());
        }
        let answer = self.gpus.load();
        assert(self@ == called(old(self)@, load_call(said(answer))));
        match answer {
            Ok(_) => {
                self.loaded = true;
                Ok(())
            },
            Err(reason) => Err(
                nvidia::nvidia_error(
                    "could not load or initialize libnvidia-ml.so.1",
                    reason.as_str(),
                ),
            ),
        }
    }

    fn find(&mut self, alias: &str, uuid: &str) -> (result: Result<()>)
        ensures
            found(old(self)@, final(self)@, alias@, uuid@, drivers::done(result)),
    {
        let start = self.load();
        let ghost ready = self@;
        assert(loaded(old(self)@, ready, drivers::done(start)));
        start?;
        let answer = self.gpus.find(uuid);
        assert(self@ == called(ready, find_call(uuid@, said(answer))));
        let result = match answer {
            Ok(_) => Ok(()),
            Err(reason) => {
                let context = text::concat3("device '", alias, "' is unavailable");
                Err(nvidia::nvidia_error(context.as_str(), reason.as_str()))
            },
        };
        assert(looked_for(ready, self@, alias@, uuid@, drivers::done(result)));
        result
    }
}

// ---------------------------------------------------------------- temperature

/// The reading of a temperature.
pub open spec fn temperature_call(uuid: Seq<char>, answer: AnswerView<Celsius>) -> GpuCall {
    GpuCall::Temperature { uuid, answer }
}

/// A temperature was read of a GPU that was found.
pub open spec fn temperature_asked(
    before: DriverView,
    after: DriverView,
    alias: Seq<char>,
    uuid: Seq<char>,
    reply: Reply<Celsius>,
) -> bool {
    exists|answer: AnswerView<Celsius>|
        {
            &&& after == called(before, #[trigger] temperature_call(uuid, answer))
            &&& reply == (match answer {
                Ok(value) => Ok(value),
                Err(reason) => Err(
                    failed("could not read '"@ + alias + "' temperature"@, reason),
                ),
            })
        }
}

/// The temperature of a GPU was read.
pub open spec fn temperature_read(
    before: DriverView,
    after: DriverView,
    alias: Seq<char>,
    uuid: Seq<char>,
    reply: Reply<Celsius>,
) -> bool {
    exists|ready: DriverView, start: Reply<()>|
        {
            &&& #[trigger] found(before, ready, alias, uuid, start)
            &&& match start {
                Err(error) => after == ready && reply == Err::<Celsius, ErrorView>(error),
                Ok(_) => temperature_asked(ready, after, alias, uuid, reply),
            }
        }
}

/// The outcome of an operation that gives a plain value back.
pub open spec fn plain<T>(result: Result<T>) -> Reply<T> {
    match result {
        Ok(value) => Ok(value),
        Err(error) => Err(error@),
    }
}

impl<G: Gpus> HelperDriver<G> {
    fn read_temperature(&mut self, alias: &str, uuid: &str) -> (result: Result<Celsius>)
        ensures
            temperature_read(old(self)@, final(self)@, alias@, uuid@, plain(result)),
    {
        let start = self.find(alias, uuid);
        let ghost ready = self@;
        assert(found(old(self)@, ready, alias@, uuid@, drivers::done(start)));
        start?;
        let answer = self.gpus.temperature(uuid);
        assert(self@ == called(ready, temperature_call(uuid@, said(answer))));
        let result = match answer {
            Ok(value) => Ok(value),
            Err(reason) => {
                let context = text::concat3("could not read '", alias, "' temperature");
                Err(nvidia::nvidia_error(context.as_str(), reason.as_str()))
            },
        };
        assert(temperature_asked(ready, self@, alias@, uuid@, plain(result)));
        result
    }
}

// ---------------------------------------------------------------- fan capabilities

/// The counting of fans.
pub open spec fn fans_call(uuid: Seq<char>, answer: AnswerView<u32>) -> GpuCall {
    GpuCall::CountFans { uuid, answer }
}

/// The question for a range.
pub open spec fn range_call(uuid: Seq<char>, answer: Option<(u32, u32)>) -> GpuCall {
    GpuCall::FanRange { uuid, answer }
}

/// The range of counted fans was asked for, and everything noted.
pub open spec fn range_asked(
    before: DriverView,
    after: DriverView,
    uuid: Seq<char>,
    count: u32,
    reply: Reply<FanCapabilities>,
) -> bool {
    exists|answer: Option<(u32, u32)>|
        {
            let asked = called(before, #[trigger] range_call(uuid, answer));
            let known = nvidia::capabilities_of(count, answer);
            &&& after == (DriverView {
                capabilities: names::inserted(before.capabilities, uuid, known),
                ..asked
            })
            &&& reply == Ok::<FanCapabilities, ErrorView>(known)
        }
}

/// A GPU that was found was asked for its fans.
pub open spec fn fans_asked(
    before: DriverView,
    after: DriverView,
    alias: Seq<char>,
    uuid: Seq<char>,
    reply: Reply<FanCapabilities>,
) -> bool {
    exists|answer: AnswerView<u32>|
        {
            let counted = called(before, #[trigger] fans_call(uuid, answer));
            match answer {
                Err(reason) => after == counted && reply == Err::<FanCapabilities, ErrorView>(
                    failed("could not count fans for '"@ + alias + "'"@, reason),
                ),
                Ok(count) => range_asked(counted, after, uuid, count, reply),
            }
        }
}

/// What the fans of a GPU can do was found out, unless it is known.
pub open spec fn fans_known(
    before: DriverView,
    after: DriverView,
    alias: Seq<char>,
    uuid: Seq<char>,
    reply: Reply<FanCapabilities>,
) -> bool {
    match names::find(before.capabilities, uuid) {
        Some(known) => after == before && reply == Ok::<FanCapabilities, ErrorView>(known),
        None => exists|ready: DriverView, start: Reply<()>|
            {
                &&& #[trigger] found(before, ready, alias, uuid, start)
                &&& match start {
                    Err(error) => after == ready && reply == Err::<FanCapabilities, ErrorView>(
                        error,
                    ),
                    Ok(_) => fans_asked(ready, after, alias, uuid, reply),
                }
            },
    }
}

impl<G: Gpus> HelperDriver<G> {
    fn fan_capabilities(&mut self, alias: &str, uuid: &str) -> (result: Result<FanCapabilities>)
        ensures
            fans_known(old(self)@, final(self)@, alias@, uuid@, plain(result)),
    {
        if let Some(known) = self.fans.cached(uuid) {
            return Ok(known);
        }
        let start = self.find(alias, uuid);
        let ghost ready = self@;
        assert(found(old(self)@, ready, alias@, uuid@, drivers::done(start)));
        start?;
        let answer = self.gpus.count_fans(uuid);
        let ghost counted = self@;
        assert(counted == called(ready, fans_call(uuid@, said(answer))));
        match answer {
            Err(reason) => {
                let context = text::concat3("could not count fans for '", alias, "'");
                let error = nvidia::nvidia_error(context.as_str(), reason.as_str());
                assert(fans_asked(
                    ready,
                    self@,
                    alias@,
                    uuid@,
                    Err::<FanCapabilities, ErrorView>(error@),
                ));
                Err(error)
            },
            Ok(count) => {
                let range = self.gpus.fan_range(uuid);
                let known = nvidia::fan_capabilities(count, range);
                self.fans.remember(uuid, known);
                assert(self@ == (DriverView {
                    capabilities: names::inserted(counted.capabilities, uuid@, known),
                    ..called(counted, range_call(uuid@, range))
                }));
                assert(range_asked(
                    counted,
                    self@,
                    uuid@,
                    count,
                    Ok::<FanCapabilities, ErrorView>(known),
                ));
                assert(fans_asked(
                    ready,
                    self@,
                    alias@,
                    uuid@,
                    Ok::<FanCapabilities, ErrorView>(known),
                ));
                Ok(known)
            },
        }
    }
}

// ---------------------------------------------------------------- fan writes

/// The state after several calls.
pub open spec fn called_all(before: DriverView, calls: Seq<GpuCall>) -> DriverView {
    DriverView { calls: before.calls + calls, ..before }
}

/// The setting of the first fans, one for each answer.
pub open spec fn set_calls(
    uuid: Seq<char>,
    fans: Seq<u32>,
    duty: u32,
    answers: Seq<AnswerView<()>>,
) -> Seq<GpuCall> {
    Seq::new(
        answers.len(),
        |i: int| GpuCall::SetFan { uuid, fan: fans[i], duty, answer: answers[i] },
    )
}

/// Every call succeeded.
pub open spec fn all_done(answers: Seq<AnswerView<()>>) -> bool {
    forall|i: int| 0 <= i < answers.len() ==> (#[trigger] answers[i]) is Ok
}

/// A fan that could not be set.
pub open spec fn set_failure(alias: Seq<char>, fan: u32, reason: Seq<char>) -> ErrorView {
    failed("could not set '"@ + alias + "' fan "@ + text::decimal(fan as nat), reason)
}

/// Fans of a GPU that was found were set up to the first failure.
pub open spec fn fans_set(
    before: DriverView,
    after: DriverView,
    alias: Seq<char>,
    uuid: Seq<char>,
    fans: Seq<u32>,
    duty: u32,
    reply: Reply<()>,
) -> bool {
    exists|answers: Seq<AnswerView<()>>|
        {
            &&& after == called_all(before, #[trigger] set_calls(uuid, fans, duty, answers))
            &&& answers.len() <= fans.len()
            &&& match reply {
                Ok(_) => answers.len() == fans.len() && all_done(answers),
                Err(error) => {
                    &&& answers.len() > 0
                    &&& all_done(answers.drop_last())
                    &&& answers.last() matches Err(reason) && error == set_failure(
                        alias,
                        fans[answers.len() - 1],
                        reason,
                    )
                },
            }
        }
}

/// Fans of a GPU were set, after it was found.
pub open spec fn duty_written(
    before: DriverView,
    after: DriverView,
    alias: Seq<char>,
    uuid: Seq<char>,
    fans: Seq<u32>,
    duty: u32,
    reply: Reply<()>,
) -> bool {
    exists|ready: DriverView, start: Reply<()>|
        {
            &&& #[trigger] found(before, ready, alias, uuid, start)
            &&& match start {
                Err(error) => after == ready && reply == Err::<(), ErrorView>(error),
                Ok(_) => fans_set(ready, after, alias, uuid, fans, duty, reply),
            }
        }
}

/// The fans and the duty of a write.
///
/// A GPU whose lowest duty is above its highest has no duty to give.
pub open spec fn write_plan(
    alias: Seq<char>,
    channels: Seq<u32>,
    percent: u8,
    known: FanCapabilities,
) -> Reply<(Seq<u32>, u32)> {
    match nvidia::fan_selection(channels, known.count, alias) {
        Err(error) => Err(error),
        Ok(fans) => if known.minimum > known.maximum {
            Err(ErrorView::Driver("device '"@ + alias + "' reports an invalid fan range"@))
        } else {
            Ok((fans, nvidia::clamped(percent, known)))
        },
    }
}

/// A planned write was carried out.
pub open spec fn plan_written(
    before: DriverView,
    after: DriverView,
    alias: Seq<char>,
    uuid: Seq<char>,
    plan: Reply<(Seq<u32>, u32)>,
    known: FanCapabilities,
    reply: Reply<JsonView>,
) -> bool {
    match plan {
        Err(error) => after == before && reply == Err::<JsonView, ErrorView>(error),
        Ok((fans, duty)) => exists|written: Reply<()>|
            {
                &&& #[trigger] duty_written(before, after, alias, uuid, fans, duty, written)
                &&& reply == (match written {
                    Ok(_) => Ok(nvidia::fan_report(fans, duty, known)),
                    Err(error) => Err(error),
                })
            },
    }
}

/// The state once the fans of a GPU are being set.
pub open spec fn under_control(before: DriverView, uuid: Seq<char>) -> DriverView {
    DriverView { controlled: names::inserted(before.controlled, uuid, ()), ..before }
}

/// The fans of a GPU were set. Whatever comes of it, the GPU counts as controlled.
pub open spec fn fans_written(
    before: DriverView,
    after: DriverView,
    alias: Seq<char>,
    uuid: Seq<char>,
    channels: Seq<u32>,
    percent: u8,
    reply: Reply<JsonView>,
) -> bool {
    exists|asked: DriverView, known: Reply<FanCapabilities>|
        {
            &&& #[trigger] fans_known(under_control(before, uuid), asked, alias, uuid, known)
            &&& match known {
                Err(error) => after == asked && reply == Err::<JsonView, ErrorView>(error),
                Ok(known) => plan_written(
                    asked,
                    after,
                    alias,
                    uuid,
                    write_plan(alias, channels, percent, known),
                    known,
                    reply,
                ),
            }
        }
}

/// The outcome of a fan write.
pub open spec fn reported(result: Result<Json>) -> Reply<JsonView> {
    match result {
        Ok(report) => Ok(report@),
        Err(error) => Err(error@),
    }
}

impl<G: Gpus> HelperDriver<G> {
    fn write_duty(&mut self, alias: &str, uuid: &str, fans: &Vec<u32>, duty: u32) -> (result:
        Result<()>)
        ensures
            duty_written(
                old(self)@,
                final(self)@,
                alias@,
                uuid@,
                fans@,
                duty,
                drivers::done(result),
            ),
    {
        let start = self.find(alias, uuid);
        let ghost ready = self@;
        assert(found(old(self)@, ready, alias@, uuid@, drivers::done(start)));
        start?;
        let ghost mut answers: Seq<AnswerView<()>> = Seq::empty();
        let mut at: usize = 0;
        assert(self@ == called_all(ready, set_calls(uuid@, fans@, duty, answers)));
        while at < fans.len()
            invariant
                at <= fans@.len(),
                answers.len() == at,
                all_done(answers),
                found(old(self)@, ready, alias@, uuid@, Ok::<(), ErrorView>(())),
                self@ == called_all(ready, set_calls(uuid@, fans@, duty, answers)),
            decreases fans@.len() - at,
        {
            let fan: u32 = fans[at];
            let answer = self.gpus.set_fan(uuid, fan, duty);
            let ghost call = GpuCall::SetFan { uuid: uuid@, fan, duty, answer: said(answer) };
            let ghost earlier = answers;
            proof {
                answers = answers.push(said(answer));
                assert(answers.drop_last() =~= earlier);
                assert(set_calls(uuid@, fans@, duty, answers) =~= set_calls(
                    uuid@,
                    fans@,
                    duty,
                    earlier,
                ).push(call));
                assert(self@.calls =~= ready.calls + set_calls(uuid@, fans@, duty, answers));
            }
            if let Err(reason) = answer {
                let mut context = text::concat3("could not set '", alias, "' fan ");
                text::push_decimal(&mut context, fan as u64);
                let error = nvidia::nvidia_error(context.as_str(), reason.as_str());
                assert(error@ == set_failure(alias@, fan, reason@));
                assert(fans_set(
                    ready,
                    self@,
                    alias@,
                    uuid@,
                    fans@,
                    duty,
                    Err::<(), ErrorView>(error@),
                ));
                return Err(error);
            }
            at += 1;
        }
        assert(fans_set(ready, self@, alias@, uuid@, fans@, duty, Ok::<(), ErrorView>(())));
        Ok(())
    }

    fn plan_write(alias: &str, channels: &Vec<u32>, percent: u8, known: FanCapabilities) -> (result:
        Result<(Vec<u32>, u32)>)
        ensures
            match result {
                Ok(plan) => write_plan(alias@, channels@, percent, known) == Ok::<
                    (Seq<u32>, u32),
                    ErrorView,
                >((plan.0@, plan.1)),
                Err(error) => write_plan(alias@, channels@, percent, known) == Err::<
                    (Seq<u32>, u32),
                    ErrorView,
                >(error@),
            },
    {
        let fans = nvidia::selected_channels(channels, known.count, alias)?;
        if known.minimum > known.maximum {
            return Err(
                FeatherError::Driver(
                    text::concat3("device '", alias, "' reports an invalid fan range"),
                ),
            );
        }
        Ok((fans, nvidia::clamp_percent(percent, known)))
    }

    fn set_fans(&mut self, alias: &str, uuid: &str, channels: &Vec<u32>, percent: u8) -> (result:
        Result<Json>)
        ensures
            fans_written(
                old(self)@,
                final(self)@,
                alias@,
                uuid@,
                channels@,
                percent,
                reported(result),
            ),
    {
        self.fans.take_control(uuid);
        assert(self@ == under_control(old(self)@, uuid@));
        let asked = self.fan_capabilities(alias, uuid);
        let ghost then = self@;
        assert(fans_known(under_control(old(self)@, uuid@), then, alias@, uuid@, plain(asked)));
        let known = asked?;
        let (fans, duty) = Self::plan_write(alias, channels, percent, known)?;
        let written = self.write_duty(alias, uuid, &fans, duty);
        assert(duty_written(
            then,
            self@,
            alias@,
            uuid@,
            fans@,
            duty,
            drivers::done(written),
        ));
        written?;
        Ok(nvidia::fan_write_report(&fans, duty, known))
    }
}

// ---------------------------------------------------------------- release

/// The giving back of the first fans, one for each answer.
pub open spec fn reset_calls(uuid: Seq<char>, answers: Seq<AnswerView<()>>) -> Seq<GpuCall> {
    Seq::new(
        answers.len(),
        |i: int| GpuCall::ResetFan { uuid, fan: i as u32, answer: answers[i] },
    )
}

/// The fans that could not be given back, with the reasons.
pub open spec fn reset_failures(answers: Seq<AnswerView<()>>) -> Seq<Seq<char>>
    decreases answers.len(),
{
    if answers.len() == 0 {
        Seq::empty()
    } else {
        let earlier = reset_failures(answers.drop_last());
        match answers.last() {
            Ok(_) => earlier,
            Err(reason) => earlier.push(
                "fan "@ + text::decimal((answers.len() - 1) as nat) + ": "@ + reason,
            ),
        }
    }
}

/// All fans of a GPU that was found were given back. It is controlled until none fails.
pub open spec fn fans_reset(
    before: DriverView,
    after: DriverView,
    alias: Seq<char>,
    uuid: Seq<char>,
    count: u32,
    reply: Reply<()>,
) -> bool {
    exists|answers: Seq<AnswerView<()>>|
        {
            let tried = called_all(before, #[trigger] reset_calls(uuid, answers));
            &&& answers.len() == count
            &&& match nvidia::restore_failure(alias, reset_failures(answers)) {
                None => {
                    &&& after == (DriverView {
                        controlled: names::removed(before.controlled, uuid),
                        ..tried
                    })
                    &&& reply == Ok::<(), ErrorView>(())
                },
                Some(error) => after == tried && reply == Err::<(), ErrorView>(error),
            }
        }
}

/// The known fans of a GPU were given back, after it was found.
pub open spec fn policy_restored(
    before: DriverView,
    after: DriverView,
    alias: Seq<char>,
    uuid: Seq<char>,
    count: u32,
    reply: Reply<()>,
) -> bool {
    exists|ready: DriverView, start: Reply<()>|
        {
            &&& #[trigger] found(before, ready, alias, uuid, start)
            &&& match start {
                Err(error) => after == ready && reply == Err::<(), ErrorView>(error),
                Ok(_) => fans_reset(ready, after, alias, uuid, count, reply),
            }
        }
}

/// A GPU was given back to its own fan policy.
pub open spec fn gpu_released(
    before: DriverView,
    after: DriverView,
    alias: Seq<char>,
    uuid: Seq<char>,
    reply: Reply<()>,
) -> bool {
    exists|asked: DriverView, known: Reply<FanCapabilities>|
        {
            &&& #[trigger] fans_known(before, asked, alias, uuid, known)
            &&& match known {
                Err(error) => after == asked && reply == Err::<(), ErrorView>(error),
                Ok(known) => policy_restored(asked, after, alias, uuid, known.count, reply),
            }
        }
}

/// GPUs that could not be given back, with the errors.
pub type Leftovers = Seq<(Seq<char>, ErrorView)>;

/// The view of a list of GPUs that could not be given back.
pub open spec fn leftovers(list: Seq<(String, FeatherError)>) -> Leftovers {
    Seq::new(list.len(), |i: int| (list[i].0@, list[i].1@))
}

/// Some GPUs were given back, one after another, whatever came of it.
pub open spec fn gpus_released(
    before: DriverView,
    after: DriverView,
    gpus: Seq<Seq<char>>,
    failures: Leftovers,
) -> bool
    decreases gpus.len(),
{
    if gpus.len() == 0 {
        after == before && failures.len() == 0
    } else {
        exists|middle: DriverView, reply: Reply<()>|
            {
                &&& #[trigger] gpu_released(middle, after, gpus.last(), gpus.last(), reply)
                &&& match reply {
                    Ok(_) => gpus_released(before, middle, gpus.drop_last(), failures),
                    Err(error) => {
                        &&& failures.len() > 0
                        &&& failures.last() == (gpus.last(), error)
                        &&& gpus_released(
                            before,
                            middle,
                            gpus.drop_last(),
                            failures.drop_last(),
                        )
                    },
                }
            }
    }
}

/// All controlled GPUs were given back.
pub open spec fn control_ended(before: DriverView, after: DriverView, failures: Leftovers) -> bool {
    gpus_released(before, after, names::names(before.controlled), failures)
}

/// The state once the library is unloaded.
pub open spec fn unloaded(before: DriverView) -> DriverView {
    DriverView {
        loaded: false,
        controlled: before.controlled,
        capabilities: Seq::empty(),
        calls: if before.loaded {
            before.calls.push(GpuCall::Unload)
        } else {
            before.calls
        },
    }
}

/// Everything was given back and the library unloaded.
pub open spec fn shut_down(before: DriverView, after: DriverView, failures: Leftovers) -> bool {
    exists|released: DriverView|
        #[trigger] control_ended(before, released, failures) && after == unloaded(released)
}

impl<G: Gpus> HelperDriver<G> {
    fn restore_policy(&mut self, alias: &str, uuid: &str, count: u32) -> (result: Result<()>)
        ensures
            policy_restored(
                old(self)@,
                final(self)@,
                alias@,
                uuid@,
                count,
                drivers::done(result),
            ),
    {
        let start = self.find(alias, uuid);
        let ghost ready = self@;
        assert(found(old(self)@, ready, alias@, uuid@, drivers::done(start)));
        start?;
        let mut failures: Vec<String> = Vec::new();
        let ghost mut answers: Seq<AnswerView<()>> = Seq::empty();
        let mut fan: u32 = 0;
        assert(self@ == called_all(ready, reset_calls(uuid@, answers)));
        assert(text::texts(failures@) =~= reset_failures(answers));
        while fan < count
            invariant
                fan <= count,
                answers.len() == fan,
                text::texts(failures@) == reset_failures(answers),
                self@ == called_all(ready, reset_calls(uuid@, answers)),
            decreases count - fan,
        {
            let answer = self.gpus.reset_fan(uuid, fan);
            let ghost call = GpuCall::ResetFan { uuid: uuid@, fan, answer: said(answer) };
            let ghost earlier = answers;
            proof {
                answers = answers.push(said(answer));
                assert(answers.drop_last() =~= earlier);
                assert(reset_calls(uuid@, answers) =~= reset_calls(uuid@, earlier).push(call));
                assert(self@.calls =~= ready.calls + reset_calls(uuid@, answers));
            }
            if let Err(reason) = answer {
                let mut message = "fan ".to_owned();
                text::push_decimal(&mut message, fan as u64);
                message.append(": ");
                message.append(reason.as_str());
                let ghost listed = failures@;
                failures.push(message);
                assert(text::texts(failures@) =~= text::texts(listed).push(message@));
            }
            fan += 1;
        }
        let result = self.fans.released(alias, uuid, &failures);
        assert(fans_reset(ready, self@, alias@, uuid@, count, drivers::done(result)));
        result
    }

    fn release(&mut self, alias: &str, uuid: &str) -> (result: Result<()>)
        ensures
            gpu_released(old(self)@, final(self)@, alias@, uuid@, drivers::done(result)),
    {
        let asked = self.fan_capabilities(alias, uuid);
        assert(fans_known(old(self)@, self@, alias@, uuid@, plain(asked)));
        let known = asked?;
        self.restore_policy(alias, uuid, known.count)
    }

    /// Gives every controlled GPU back and unloads the library.
    ///
    /// Returns the GPUs that could not be given back, with the errors.
    pub fn shutdown(&mut self) -> (failures: Vec<(String, FeatherError)>)
        ensures
            shut_down(old(self)@, final(self)@, leftovers(failures@)),
    {
        let mut failures: Vec<(String, FeatherError)> = Vec::new();
        let gpus = self.fans.controlled.keys();
        let ghost list = text::texts(gpus@);
        let mut at: usize = 0;
        assert(leftovers(failures@).len() == 0);
        while at < gpus.len()
            invariant
                at <= gpus@.len(),
                list == text::texts(gpus@),
                gpus_released(old(self)@, self@, list.take(at as int), leftovers(failures@)),
            decreases gpus@.len() - at,
        {
            let ghost middle = self@;
            let ghost earlier = failures@;
            let result = self.release(gpus[at].as_str(), gpus[at].as_str());
            proof {
                let next = list.take(at + 1);
                assert(next.drop_last() =~= list.take(at as int));
                assert(next.last() == gpus@[at as int]@);
                assert(gpu_released(
                    middle,
                    self@,
                    next.last(),
                    next.last(),
                    drivers::done(result),
                ));
            }
            if let Err(error) = result {
                failures.push((gpus[at].clone(), error));
                assert(leftovers(failures@).drop_last() =~= leftovers(earlier));
            }
            at += 1;
        }
        let ghost released = self@;
        assert(list.take(at as int) =~= list);
        assert(control_ended(old(self)@, released, leftovers(failures@)));
        self.fans.capabilities = NameMap::new();
        if self.loaded {
            self.gpus.unload();
            self.loaded = false;
        }
        assert(self@.capabilities =~= Seq::empty());
        assert(self@ == unloaded(released));
        failures
    }
}

// ---------------------------------------------------------------- discovery

/// What came of reading a GPU.
pub type GpuAnswer = std::result::Result<GpuInfo, GpuFault>;

/// The reading of the first GPUs, one for each answer.
pub open spec fn read_calls(answers: Seq<GpuAnswer>) -> Seq<GpuCall> {
    Seq::new(answers.len(), |i: int| GpuCall::Read { index: i as u32, answer: answers[i] })
}

/// Every GPU was read.
pub open spec fn all_read(answers: Seq<GpuAnswer>) -> bool {
    forall|i: int| 0 <= i < answers.len() ==> (#[trigger] answers[i]) is Ok
}

/// How the GPUs that were read are described, each under the index that it was read at.
pub open spec fn descriptions(answers: Seq<GpuAnswer>) -> Seq<DescriptorView> {
    Seq::new(
        answers.len(),
        |i: int| nvidia::described_gpu(GpuInfo { index: i as u32, ..answers[i]->Ok_0 }),
    )
}

/// A GPU that could not be read.
pub open spec fn read_failure(index: nat, fault: GpuFault) -> ErrorView {
    match fault {
        GpuFault::Open(reason) => failed("could not open GPU "@ + text::decimal(index), reason@),
        GpuFault::Uuid(reason) => failed(
            "could not read GPU "@ + text::decimal(index) + " UUID"@,
            reason@,
        ),
    }
}

/// Counted GPUs were read up to the first failure.
pub open spec fn gpus_read(
    before: DriverView,
    after: DriverView,
    count: u32,
    reply: Reply<Seq<DescriptorView>>,
) -> bool {
    exists|answers: Seq<GpuAnswer>|
        {
            &&& after == called_all(before, #[trigger] read_calls(answers))
            &&& answers.len() <= count
            &&& match reply {
                Ok(list) => {
                    &&& answers.len() == count
                    &&& all_read(answers)
                    &&& list == descriptions(answers)
                },
                Err(error) => {
                    &&& answers.len() > 0
                    &&& all_read(answers.drop_last())
                    &&& answers.last() matches Err(fault) && error == read_failure(
                        (answers.len() - 1) as nat,
                        fault,
                    )
                },
            }
        }
}

/// The counting of GPUs.
pub open spec fn count_call(answer: AnswerView<u32>) -> GpuCall {
    GpuCall::Count { answer }
}

/// The GPUs of a loaded library were counted and read.
pub open spec fn gpus_counted(
    before: DriverView,
    after: DriverView,
    reply: Reply<Seq<DescriptorView>>,
) -> bool {
    exists|answer: AnswerView<u32>|
        {
            let counted = called(before, #[trigger] count_call(answer));
            match answer {
                Err(reason) => after == counted && reply == Err::<Seq<DescriptorView>, ErrorView>(
                    failed("could not count GPUs"@, reason),
                ),
                Ok(count) => gpus_read(counted, after, count, reply),
            }
        }
}

/// All GPUs were described.
pub open spec fn gpus_described(
    before: DriverView,
    after: DriverView,
    reply: Reply<Seq<DescriptorView>>,
) -> bool {
    exists|ready: DriverView, start: Reply<()>|
        {
            &&& #[trigger] loaded(before, ready, start)
            &&& match start {
                Err(error) => after == ready && reply == Err::<Seq<DescriptorView>, ErrorView>(
                    error,
                ),
                Ok(_) => gpus_counted(ready, after, reply),
            }
        }
}

fn fault_error(index: u32, fault: GpuFault) -> (error: FeatherError)
    ensures
        error@ == read_failure(index as nat, fault),
{
    match fault {
        GpuFault::Open(reason) => {
            let mut context = "could not open GPU ".to_owned();
            text::push_decimal(&mut context, index as u64);
            nvidia::nvidia_error(context.as_str(), reason.as_str())
        },
        GpuFault::Uuid(reason) => {
            let mut context = "could not read GPU ".to_owned();
            text::push_decimal(&mut context, index as u64);
            context.append(" UUID");
            nvidia::nvidia_error(context.as_str(), reason.as_str())
        },
    }
}

impl<G: Gpus> HelperDriver<G> {
    fn read_gpus(&mut self, count: u32) -> (result: Result<Vec<DeviceDescriptor>>)
        ensures
            gpus_read(old(self)@, final(self)@, count, drivers::descriptors(result)),
    {
        let mut list: Vec<DeviceDescriptor> = Vec::new();
        let ghost mut answers: Seq<GpuAnswer> = Seq::empty();
        let mut index: u32 = 0;
        assert(self@ == called_all(old(self)@, read_calls(answers)));
        assert(views::list(list@) =~= descriptions(answers));
        while index < count
            invariant
                index <= count,
                answers.len() == index,
                all_read(answers),
                views::list(list@) == descriptions(answers),
                self@ == called_all(old(self)@, read_calls(answers)),
            decreases count - index,
        {
            let answer = self.gpus.read(index);
            let ghost call = GpuCall::Read { index, answer };
            let ghost earlier = answers;
            proof {
                answers = answers.push(answer);
                assert(answers.drop_last() =~= earlier);
                assert(read_calls(answers) =~= read_calls(earlier).push(call));
                assert(self@.calls =~= old(self)@.calls + read_calls(answers));
            }
            match answer {
                Ok(gpu) => {
                    let gpu = GpuInfo {
                        index,
                        uuid: gpu.uuid,
                        name: gpu.name,
                        fan_range: gpu.fan_range,
                        temperature: gpu.temperature,
                        fans: gpu.fans,
                    };
                    let described = nvidia::describe_gpu(&gpu);
                    let ghost before = list@;
                    list.push(described);
                    assert(views::list(list@) =~= views::list(before).push(described@));
                    assert(descriptions(answers) =~= descriptions(earlier).push(described@));
                },
                Err(fault) => {
                    return Err(fault_error(index, fault));
                },
            }
            index += 1;
        }
        Ok(list)
    }

    fn discover_all(&mut self) -> (result: Result<Vec<DeviceDescriptor>>)
        ensures
            gpus_described(old(self)@, final(self)@, drivers::descriptors(result)),
    {
        let start = self.load();
        let ghost ready = self@;
        assert(loaded(old(self)@, ready, drivers::done(start)));
        start?;
        let answer = self.gpus.count();
        let ghost counted = self@;
        assert(counted == called(ready, count_call(said(answer))));
        let result = match answer {
            Err(reason) => Err(nvidia::nvidia_error("could not count GPUs", reason.as_str())),
            Ok(count) => self.read_gpus(count),
        };
        assert(gpus_counted(ready, self@, drivers::descriptors(result)));
        result
    }
}

// ---------------------------------------------------------------- requests

/// See [`HelperResult`].
pub ghost enum ResultView {
    /// See [`HelperResult::Devices`].
    Devices(Seq<DescriptorView>),
    /// See [`HelperResult::Temperature`].
    Temperature(Celsius),
    /// See [`HelperResult::Value`].
    Value(JsonView),
    /// See [`HelperResult::Unit`].
    Unit,
}

/// What a result holds.
pub open spec fn held(result: HelperResult) -> ResultView {
    match result {
        HelperResult::Devices(devices) => ResultView::Devices(views::list(devices@)),
        HelperResult::Temperature(value) => ResultView::Temperature(value),
        HelperResult::Value(value) => ResultView::Value(value@),
        HelperResult::Unit => ResultView::Unit,
    }
}

/// The outcome of a request.
pub open spec fn outcome(result: Result<HelperResult>) -> Reply<ResultView> {
    match result {
        Ok(value) => Ok(held(value)),
        Err(error) => Err(error@),
    }
}

/// A request was carried out.
pub open spec fn executed(
    before: DriverView,
    after: DriverView,
    request: nvidia::RequestView,
    reply: Reply<ResultView>,
) -> bool {
    match request {
        nvidia::RequestView::DiscoverAll => match reply {
            Ok(ResultView::Devices(list)) => gpus_described(before, after, Ok(list)),
            Ok(_) => false,
            Err(error) => gpus_described(before, after, Err(error)),
        },
        nvidia::RequestView::ReadTemperature { alias, uuid } => match reply {
            Ok(ResultView::Temperature(value)) => temperature_read(
                before,
                after,
                alias,
                uuid,
                Ok(value),
            ),
            Ok(_) => false,
            Err(error) => temperature_read(before, after, alias, uuid, Err(error)),
        },
        nvidia::RequestView::SetFans { alias, uuid, channels, percent } => match reply {
            Ok(ResultView::Value(report)) => fans_written(
                before,
                after,
                alias,
                uuid,
                channels,
                percent,
                Ok(report),
            ),
            Ok(_) => false,
            Err(error) => fans_written(
                before,
                after,
                alias,
                uuid,
                channels,
                percent,
                Err(error),
            ),
        },
        nvidia::RequestView::Release { alias, uuid } => match reply {
            Ok(ResultView::Unit) => gpu_released(before, after, alias, uuid, Ok(())),
            Ok(_) => false,
            Err(error) => gpu_released(before, after, alias, uuid, Err(error)),
        },
        nvidia::RequestView::Shutdown => {
            &&& reply == Ok::<ResultView, ErrorView>(ResultView::Unit)
            &&& exists|failures: Leftovers| #[trigger] shut_down(before, after, failures)
        },
        nvidia::RequestView::Stop => {
            &&& reply == Ok::<ResultView, ErrorView>(ResultView::Unit)
            &&& after == before
        },
    }
}

impl<G: Gpus> HelperDriver<G> {
    /// Carries a request out.
    ///
    /// # Errors
    ///
    /// Returns why the request failed.
    pub fn execute(&mut self, request: &HelperRequest) -> (result: Result<HelperResult>)
        ensures
            executed(old(self)@, final(self)@, request@, outcome(result)),
    {
        match request {
            HelperRequest::DiscoverAll => {
                let result = self.discover_all();
                match result {
                    Ok(devices) => Ok(HelperResult::Devices(devices)),
                    Err(error) => Err(error),
                }
            },
            HelperRequest::ReadTemperature { alias, uuid } => {
                let result = self.read_temperature(alias.as_str(), uuid.as_str());
                match result {
                    Ok(value) => Ok(HelperResult::Temperature(value)),
                    Err(error) => Err(error),
                }
            },
            HelperRequest::SetFans { alias, uuid, channels, percent } => {
                let result = self.set_fans(alias.as_str(), uuid.as_str(), channels, *percent);
                match result {
                    Ok(report) => Ok(HelperResult::Value(report)),
                    Err(error) => Err(error),
                }
            },
            HelperRequest::Release { alias, uuid } => {
                let result = self.release(alias.as_str(), uuid.as_str());
                match result {
                    Ok(_) => Ok(HelperResult::Unit),
                    Err(error) => Err(error),
                }
            },
            HelperRequest::Shutdown => {
                let failures = self.shutdown();
                assert(shut_down(old(self)@, self@, leftovers(failures@)));
                Ok(HelperResult::Unit)
            },
            HelperRequest::Stop => Ok(HelperResult::Unit),
        }
    }
}

/// What a helper does with one line of input.
#[derive(Debug)]
pub struct Served {
    /// The answer to send, if any.
    pub response: Option<HelperResponse>,
    /// Whether the helper ends.
    pub last: bool,
}

/// A request was carried out and answered.
pub open spec fn answered(
    before: DriverView,
    after: DriverView,
    request: nvidia::RequestView,
    response: HelperResponse,
) -> bool {
    match response {
        HelperResponse::Success { result } => executed(before, after, request, Ok(held(result))),
        HelperResponse::Error { message } => exists|why: ErrorView|
            {
                &&& #[trigger] executed(before, after, request, Err(why))
                &&& message@ == error::described(why)
            },
    }
}

impl<G: Gpus> HelperDriver<G> {
    /// Takes one request, or why a line of input is none.
    pub fn serve(&mut self, decoded: std::result::Result<HelperRequest, String>) -> (served: Served)
        ensures
            match decoded {
                Err(reason) => {
                    &&& final(self)@ == old(self)@
                    &&& !served.last
                    &&& served.response matches Some(HelperResponse::Error { message }) && message@
                        == "invalid NVIDIA helper request: "@ + reason@
                },
                Ok(HelperRequest::Stop) => {
                    &&& final(self)@ == old(self)@
                    &&& served.last
                    &&& served.response is None
                },
                Ok(request) => {
                    &&& served.last == (request is Shutdown)
                    &&& served.response matches Some(response) && answered(
                        old(self)@,
                        final(self)@,
                        request@,
                        response,
                    )
                },
            },
    {
        match decoded {
            Err(reason) => Served {
                response: Some(nvidia::invalid_request(reason.as_str())),
                last: false,
            },
            Ok(HelperRequest::Stop) => Served { response: None, last: true },
            Ok(request) => {
                let last = request.is_last();
                let result = self.execute(&request);
                assert(executed(old(self)@, self@, request@, outcome(result)));
                let response = nvidia::helper_response(result);
                Served { response: Some(response), last }
            },
        }
    }
}

// ---------------------------------------------------------------- laws

/// A planned write goes to fans that the GPU has, at a duty within its range.
pub proof fn law_writes_stay_in_range(
    alias: Seq<char>,
    channels: Seq<u32>,
    percent: u8,
    known: FanCapabilities,
)
    ensures
        write_plan(alias, channels, percent, known) matches Ok((fans, duty)) ==> {
            &&& known.minimum <= duty <= known.maximum
            &&& forall|i: int| 0 <= i < fans.len() ==> #[trigger] fans[i] < known.count
        },
{
    if let Ok((fans, duty)) = write_plan(alias, channels, percent, known) {
        let check = nvidia::absent_fan(channels, known.count, alias);
        assert forall|i: int| 0 <= i < fans.len() implies #[trigger] fans[i] < known.count by {
            if channels.len() > 0 {
                search::lemma_none(check, 0, channels.len() as int);
                assert(check(i) is None);
            }
        }
    }
}

/// A GPU whose fans were to be set is under control, even where a write failed.
pub proof fn law_written_gpu_is_controlled(
    before: DriverView,
    after: DriverView,
    alias: Seq<char>,
    uuid: Seq<char>,
    channels: Seq<u32>,
    percent: u8,
    reply: Reply<JsonView>,
)
    requires
        names::sorted(before.controlled),
        fans_written(before, after, alias, uuid, channels, percent, reply),
    ensures
        after.controlled == names::inserted(before.controlled, uuid, ()),
        names::has(after.controlled, uuid),
{
    names::lemma_find_inserted(before.controlled, uuid, (), uuid);
}

/// A GPU leaves control exactly when all its fans were given back.
pub proof fn law_release_ends_control(
    before: DriverView,
    after: DriverView,
    alias: Seq<char>,
    uuid: Seq<char>,
    reply: Reply<()>,
)
    requires
        gpu_released(before, after, alias, uuid, reply),
    ensures
        after.controlled == (match reply {
            Ok(_) => names::removed(before.controlled, uuid),
            Err(_) => before.controlled,
        }),
{
}

/// A list of GPUs holds one.
pub open spec fn lists(failures: Leftovers, uuid: Seq<char>) -> bool {
    exists|i: int| 0 <= i < failures.len() && #[trigger] failures[i].0 == uuid
}

proof fn lemma_released_leave(
    before: DriverView,
    after: DriverView,
    gpus: Seq<Seq<char>>,
    failures: Leftovers,
    uuid: Seq<char>,
)
    requires
        names::sorted(before.controlled),
        gpus_released(before, after, gpus, failures),
        forall|i: int| 0 <= i < gpus.len() ==> names::has(before.controlled, #[trigger] gpus[i]),
        gpus.no_duplicates(),
    ensures
        names::sorted(after.controlled),
        names::has(after.controlled, uuid) <==> lists(failures, uuid) || (names::has(
            before.controlled,
            uuid,
        ) && !gpus.contains(uuid)),
        lists(failures, uuid) ==> gpus.contains(uuid),
    decreases gpus.len(),
{
    if gpus.len() > 0 {
        let last = gpus.last();
        let (middle, reply) = choose|middle: DriverView, reply: Reply<()>|
            {
                &&& #[trigger] gpu_released(middle, after, last, last, reply)
                &&& match reply {
                    Ok(_) => gpus_released(before, middle, gpus.drop_last(), failures),
                    Err(error) => {
                        &&& failures.len() > 0
                        &&& failures.last() == (last, error)
                        &&& gpus_released(
                            before,
                            middle,
                            gpus.drop_last(),
                            failures.drop_last(),
                        )
                    },
                }
            };
        let earlier = match reply {
            Ok(_) => failures,
            Err(_) => failures.drop_last(),
        };
        lemma_released_leave(before, middle, gpus.drop_last(), earlier, uuid);
        law_release_ends_control(middle, after, last, last, reply);
        assert(gpus =~= gpus.drop_last().push(last));
        assert(gpus.contains(uuid) <==> gpus.drop_last().contains(uuid) || uuid == last) by {
            if gpus.drop_last().contains(uuid) {
                let i = gpus.drop_last().index_of(uuid);
                assert(gpus[i] == uuid);
            }
            if uuid == last {
                assert(gpus[gpus.len() - 1] == uuid);
            }
        }
        match reply {
            Ok(_) => {
                names::lemma_removed_sorted(middle.controlled, last);
                names::lemma_find_removed(middle.controlled, last, uuid);
            },
            Err(_) => {
                assert(lists(failures, uuid) <==> lists(earlier, uuid) || uuid == last) by {
                    if lists(earlier, uuid) {
                        let i = choose|i: int|
                            0 <= i < earlier.len() && #[trigger] earlier[i].0 == uuid;
                        assert(failures[i].0 == uuid);
                    }
                    if uuid == last {
                        assert(failures[failures.len() - 1].0 == uuid);
                    }
                    if lists(failures, uuid) {
                        let i = choose|i: int|
                            0 <= i < failures.len() && #[trigger] failures[i].0 == uuid;
                        if i < earlier.len() {
                            assert(earlier[i].0 == uuid);
                        }
                    }
                }
            },
        }
        if uuid == last {
            assert(!gpus.drop_last().contains(uuid)) by {
                if gpus.drop_last().contains(uuid) {
                    let i = gpus.drop_last().index_of(uuid);
                    assert(gpus[i] == gpus[gpus.len() - 1]);
                }
            }
        }
    }
}

/// After a shutdown the library is unloaded, nothing is known of any fan, and the GPUs under
/// control are those that could not be given back.
pub proof fn law_shutdown_keeps_only_failures(
    before: DriverView,
    after: DriverView,
    failures: Leftovers,
)
    requires
        names::sorted(before.controlled),
        shut_down(before, after, failures),
    ensures
        !after.loaded,
        after.capabilities.len() == 0,
        forall|uuid: Seq<char>|
            #[trigger] names::has(after.controlled, uuid) <==> lists(failures, uuid),
{
    let gpus = names::names(before.controlled);
    let released = choose|released: DriverView|
        #[trigger] control_ended(before, released, failures) && after == unloaded(released);
    assert forall|i: int| 0 <= i < gpus.len() implies names::has(
        before.controlled,
        #[trigger] gpus[i],
    ) by {
        names::lemma_find_at(before.controlled, i);
    }
    assert forall|i: int, j: int| 0 <= i < gpus.len() && 0 <= j < gpus.len() && i != j implies gpus[i]
        != gpus[j] by {
        names::lemma_find_at(before.controlled, i);
        names::lemma_find_at(before.controlled, j);
    }
    assert forall|uuid: Seq<char>|
        #[trigger] names::has(after.controlled, uuid) <==> lists(failures, uuid) by {
        lemma_released_leave(before, released, gpus, failures, uuid);
        names::lemma_has(before.controlled, uuid);
        if names::has(before.controlled, uuid) {
            let i = choose|i: int|
                0 <= i < before.controlled.len() && #[trigger] before.controlled[i].0 == uuid;
            assert(gpus[i] == uuid);
        }
    }
}

proof fn lemma_found_keeps(
    before: DriverView,
    after: DriverView,
    alias: Seq<char>,
    uuid: Seq<char>,
    reply: Reply<()>,
)
    requires
        found(before, after, alias, uuid, reply),
    ensures
        after.capabilities == before.capabilities,
        after.controlled == before.controlled,
        before.calls.len() <= after.calls.len(),
{
}

proof fn lemma_fans_known(
    before: DriverView,
    after: DriverView,
    alias: Seq<char>,
    uuid: Seq<char>,
    known: FanCapabilities,
)
    requires
        names::sorted(before.capabilities),
        fans_known(before, after, alias, uuid, Ok::<FanCapabilities, ErrorView>(known)),
    ensures
        names::find(after.capabilities, uuid) == Some(known),
{
    if names::find(before.capabilities, uuid) is None {
        let (ready, start) = choose|ready: DriverView, start: Reply<()>|
            {
                &&& #[trigger] found(before, ready, alias, uuid, start)
                &&& match start {
                    Err(error) => after == ready && Ok::<FanCapabilities, ErrorView>(known)
                        == Err::<FanCapabilities, ErrorView>(error),
                    Ok(_) => fans_asked(
                        ready,
                        after,
                        alias,
                        uuid,
                        Ok::<FanCapabilities, ErrorView>(known),
                    ),
                }
            };
        lemma_found_keeps(before, ready, alias, uuid, start);
        let answer = choose|answer: AnswerView<u32>|
            {
                let counted = called(ready, #[trigger] fans_call(uuid, answer));
                match answer {
                    Err(reason) => false,
                    Ok(count) => range_asked(
                        counted,
                        after,
                        uuid,
                        count,
                        Ok::<FanCapabilities, ErrorView>(known),
                    ),
                }
            };
        assert(answer is Ok);
        names::lemma_find_inserted(before.capabilities, uuid, known, uuid);
    }
}

/// The call at an index among the last calls of a log.
pub open spec fn late_call(calls: Seq<GpuCall>, count: int, at: int) -> GpuCall {
    calls[calls.len() - count + at]
}

/// Whether a call set a fan to a duty.
pub open spec fn sets(call: GpuCall, uuid: Seq<char>, fan: u32, duty: int) -> bool {
    call matches GpuCall::SetFan { uuid: own, fan: set, duty: given, answer } && own == uuid && set
        == fan && given == duty && answer is Ok
}

/// Whether a call gave a fan back.
pub open spec fn resets(call: GpuCall, uuid: Seq<char>, fan: int) -> bool {
    call matches GpuCall::ResetFan { uuid: own, fan: given, answer } && own == uuid && given == fan
        && answer is Ok
}

/// Whether the last calls of a log set fans to a duty: they are as many as the fans, in their
/// order, and each succeeded.
pub open spec fn ends_with_sets(
    calls: Seq<GpuCall>,
    uuid: Seq<char>,
    fans: Seq<u32>,
    duty: int,
) -> bool {
    &&& fans.len() <= calls.len()
    &&& forall|i: int|
        0 <= i < fans.len() ==> sets(
            #[trigger] late_call(calls, fans.len() as int, i),
            uuid,
            fans[i],
            duty,
        )
}

/// A write that succeeds has set every selected fan of the GPU, and those alone, one after the
/// other, to the duty that was asked for, moved into the range of the fans.
pub proof fn law_successful_write_sets_the_fans(
    before: DriverView,
    after: DriverView,
    alias: Seq<char>,
    uuid: Seq<char>,
    channels: Seq<u32>,
    percent: u8,
    report: JsonView,
)
    requires
        names::sorted(before.capabilities),
        fans_written(
            before,
            after,
            alias,
            uuid,
            channels,
            percent,
            Ok::<JsonView, ErrorView>(report),
        ),
    ensures
        names::find(after.capabilities, uuid) matches Some(known) && {
            &&& known.count > 0 && known.minimum <= known.maximum
            &&& ends_with_sets(
                after.calls,
                uuid,
                if channels.len() == 0 {
                    Seq::new(known.count as nat, |i: int| i as u32)
                } else {
                    channels
                },
                if percent < known.minimum {
                    known.minimum as int
                } else if percent > known.maximum {
                    known.maximum as int
                } else {
                    percent as int
                },
            )
        },
{
    let (asked, known) = choose|asked: DriverView, known: Reply<FanCapabilities>|
        {
            &&& #[trigger] fans_known(under_control(before, uuid), asked, alias, uuid, known)
            &&& match known {
                Err(error) => after == asked && Ok::<JsonView, ErrorView>(report) == Err::<
                    JsonView,
                    ErrorView,
                >(error),
                Ok(known) => plan_written(
                    asked,
                    after,
                    alias,
                    uuid,
                    write_plan(alias, channels, percent, known),
                    known,
                    Ok::<JsonView, ErrorView>(report),
                ),
            }
        };
    let known = known->Ok_0;
    lemma_fans_known(under_control(before, uuid), asked, alias, uuid, known);
    let (fans, duty) = write_plan(alias, channels, percent, known)->Ok_0;
    nvidia::law_gpu_fans_are_selected(channels, known.count, alias);
    let written = choose|written: Reply<()>|
        {
            &&& #[trigger] duty_written(asked, after, alias, uuid, fans, duty, written)
            &&& Ok::<JsonView, ErrorView>(report) == (match written {
                Ok(_) => Ok(nvidia::fan_report(fans, duty, known)),
                Err(error) => Err(error),
            })
        };
    let (ready, start) = choose|ready: DriverView, start: Reply<()>|
        {
            &&& #[trigger] found(asked, ready, alias, uuid, start)
            &&& match start {
                Err(error) => after == ready && written == Err::<(), ErrorView>(error),
                Ok(_) => fans_set(ready, after, alias, uuid, fans, duty, written),
            }
        };
    lemma_found_keeps(asked, ready, alias, uuid, start);
    let answers = choose|answers: Seq<AnswerView<()>>|
        {
            &&& after == called_all(ready, #[trigger] set_calls(uuid, fans, duty, answers))
            &&& answers.len() == fans.len()
            &&& all_done(answers)
        };
    let wanted = if channels.len() == 0 {
        Seq::new(known.count as nat, |i: int| i as u32)
    } else {
        channels
    };
    assert(fans =~= wanted);
    assert forall|i: int| 0 <= i < fans.len() implies sets(
        #[trigger] late_call(after.calls, fans.len() as int, i),
        uuid,
        fans[i],
        duty as int,
    ) by {
        assert(after.calls[after.calls.len() - fans.len() + i] == set_calls(
            uuid,
            fans,
            duty,
            answers,
        )[i]);
        assert(answers[i] is Ok);
    }
}

proof fn lemma_all_reset(answers: Seq<AnswerView<()>>)
    ensures
        reset_failures(answers).len() == 0 <==> all_done(answers),
    decreases answers.len(),
{
    if answers.len() > 0 {
        let front = answers.drop_last();
        lemma_all_reset(front);
        if all_done(answers) {
            assert forall|i: int| 0 <= i < front.len() implies (#[trigger] front[i]) is Ok by {
                assert(answers[i] is Ok);
            }
        }
        if all_done(front) && answers.last() is Ok {
            assert forall|i: int| 0 <= i < answers.len() implies (#[trigger] answers[i]) is Ok by {
                if i < front.len() {
                    assert(front[i] is Ok);
                }
            }
        }
    }
}

/// A GPU that is given back without an error had every one of its fans reset, one after the other,
/// and each reset succeeded. It is under control no more.
pub proof fn law_released_gpu_had_its_fans_reset(
    before: DriverView,
    after: DriverView,
    alias: Seq<char>,
    uuid: Seq<char>,
)
    requires
        names::sorted(before.capabilities),
        names::sorted(before.controlled),
        gpu_released(before, after, alias, uuid, Ok::<(), ErrorView>(())),
    ensures
        !names::has(after.controlled, uuid),
        names::find(after.capabilities, uuid) matches Some(known) && known.count
            <= after.calls.len() && (forall|i: int|
            0 <= i < known.count ==> resets(
                #[trigger] late_call(after.calls, known.count as int, i),
                uuid,
                i,
            )),
{
    let (asked, known) = choose|asked: DriverView, known: Reply<FanCapabilities>|
        {
            &&& #[trigger] fans_known(before, asked, alias, uuid, known)
            &&& match known {
                Err(error) => false,
                Ok(known) => policy_restored(
                    asked,
                    after,
                    alias,
                    uuid,
                    known.count,
                    Ok::<(), ErrorView>(()),
                ),
            }
        };
    let known = known->Ok_0;
    lemma_fans_known(before, asked, alias, uuid, known);
    let (ready, start) = choose|ready: DriverView, start: Reply<()>|
        {
            &&& #[trigger] found(asked, ready, alias, uuid, start)
            &&& match start {
                Err(error) => false,
                Ok(_) => fans_reset(
                    ready,
                    after,
                    alias,
                    uuid,
                    known.count,
                    Ok::<(), ErrorView>(()),
                ),
            }
        };
    lemma_found_keeps(asked, ready, alias, uuid, start);
    let answers = choose|answers: Seq<AnswerView<()>>|
        {
            let tried = called_all(ready, #[trigger] reset_calls(uuid, answers));
            &&& answers.len() == known.count
            &&& match nvidia::restore_failure(alias, reset_failures(answers)) {
                None => after == (DriverView {
                    controlled: names::removed(ready.controlled, uuid),
                    ..tried
                }),
                Some(error) => false,
            }
        };
    lemma_all_reset(answers);
    law_release_ends_control(before, after, alias, uuid, Ok::<(), ErrorView>(()));
    names::lemma_find_removed(before.controlled, uuid, uuid);
    assert forall|i: int| 0 <= i < known.count implies resets(
        #[trigger] late_call(after.calls, known.count as int, i),
        uuid,
        i,
    ) by {
        assert(after.calls[after.calls.len() - known.count + i] == reset_calls(uuid, answers)[i]);
        assert(answers[i] is Ok);
    }
}

/// A temperature is what the GPU library told of that GPU last.
pub proof fn law_temperature_is_that_of_the_gpu(
    before: DriverView,
    after: DriverView,
    alias: Seq<char>,
    uuid: Seq<char>,
    value: Celsius,
)
    requires
        temperature_read(before, after, alias, uuid, Ok::<Celsius, ErrorView>(value)),
    ensures
        after.calls.len() > before.calls.len(),
        after.calls.last() == (GpuCall::Temperature { uuid, answer: Ok(value) }),
{
    let (ready, start) = choose|ready: DriverView, start: Reply<()>|
        {
            &&& #[trigger] found(before, ready, alias, uuid, start)
            &&& match start {
                Err(error) => false,
                Ok(_) => temperature_asked(
                    ready,
                    after,
                    alias,
                    uuid,
                    Ok::<Celsius, ErrorView>(value),
                ),
            }
        };
    lemma_found_keeps(before, ready, alias, uuid, start);
}

/// A helper does what it is asked to: a request that succeeds has set the fans that it names to
/// its duty, reset the fans of the GPU that it names, or read the temperature of that GPU last. The
/// request to stop touches nothing.
pub proof fn law_requests_are_carried_out(
    before: DriverView,
    after: DriverView,
    request: nvidia::RequestView,
    result: ResultView,
)
    requires
        names::sorted(before.capabilities),
        names::sorted(before.controlled),
        executed(before, after, request, Ok::<ResultView, ErrorView>(result)),
    ensures
        request matches nvidia::RequestView::ReadTemperature { uuid, .. } ==> (
        result matches ResultView::Temperature(value) && after.calls.last() == (
        GpuCall::Temperature { uuid, answer: Ok(value) })),
        request matches nvidia::RequestView::SetFans { uuid, channels, percent, .. } ==> (
        names::find(after.capabilities, uuid) matches Some(known) && known.minimum <= known.maximum
            && (forall|i: int|
            0 <= i < channels.len() ==> sets(
                #[trigger] late_call(after.calls, channels.len() as int, i),
                uuid,
                channels[i],
                if percent < known.minimum {
                    known.minimum as int
                } else if percent > known.maximum {
                    known.maximum as int
                } else {
                    percent as int
                },
            ))),
        request matches nvidia::RequestView::Release { uuid, .. } ==> (names::find(
            after.capabilities,
            uuid,
        ) matches Some(known) && (forall|i: int|
            0 <= i < known.count ==> resets(
                #[trigger] late_call(after.calls, known.count as int, i),
                uuid,
                i,
            ))),
        request is Stop ==> after == before,
{
    match request {
        nvidia::RequestView::ReadTemperature { alias, uuid } => {
            law_temperature_is_that_of_the_gpu(
                before,
                after,
                alias,
                uuid,
                result->Temperature_0,
            );
        },
        nvidia::RequestView::SetFans { alias, uuid, channels, percent } => {
            law_successful_write_sets_the_fans(
                before,
                after,
                alias,
                uuid,
                channels,
                percent,
                result->Value_0,
            );
        },
        nvidia::RequestView::Release { alias, uuid } => {
            law_released_gpu_had_its_fans_reset(before, after, alias, uuid);
        },
        _ => {},
    }
}

} // verus!
