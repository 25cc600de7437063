//! A capability of a backend, with a record of the calls that were made on it.
//!
//! What a backend does on a call is its own. A function that has only the
//! recorded capability can make no call behind the record's back, so a contract
//! over the record says which calls were made, in which order, and that there were
//! no others. Calls beside the record, by whoever has the capability itself, are not
//! recorded; the executor only takes it from the backend and hands the record on.

use crate::charge::ChargeControl;
use crate::error::HpdError;
use crate::fan_curve::{FanCurveControl, FanCurveSelection};
use crate::gpu_clock::{GpuClockConstraints, GpuClockRange, GpuClockRangeControl};
use crate::platform_profile::PlatformProfile;
use crate::power::{PowerEnvelope, PowerEnvelopeTarget};
use crate::profile::ProfileName;
use vstd::prelude::*;

verus! {

/// What the hardware was told to do.
pub enum Order {
    Target(PowerEnvelopeTarget),
    Profile(ProfileName),
    Threshold(u8),
    Curve(FanCurveSelection),
    AutoFans,
    Range(GpuClockRange),
    AutoClock,
}

/// What the hardware was found to hold.
pub enum Holding {
    Target(Result<PowerEnvelopeTarget, HpdError>),
    Profile(Result<ProfileName, HpdError>),
    Threshold(Result<u8, HpdError>),
    Curve(Result<Option<FanCurveSelection>, HpdError>),
    Range(Result<Option<GpuClockRange>, HpdError>),
    Clocks(Result<GpuClockConstraints, HpdError>),
}

/// One call: an order with its end, or a question with its answer.
pub enum Call {
    Told(Order, Result<(), HpdError>),
    Asked(Holding),
}

/// Whether `log` goes on from `before`.
pub open spec fn goes_on(before: Seq<Call>, log: Seq<Call>) -> bool {
    &&& before.len() <= log.len()
    &&& forall|i: int| 0 <= i < before.len() ==> #[trigger] log[i] == before[i]
}

/// A capability, and the calls that were made on it so far.
pub struct Recorded<'a, C: ?Sized> {
    capability: &'a C,
    record: Ghost<Seq<Call>>,
}

impl<'a, C: ?Sized> Recorded<'a, C> {
    /// The capability.
    pub closed spec fn capability(self) -> &'a C {
        self.capability
    }

    /// The calls so far, in order.
    pub closed spec fn log(self) -> Seq<Call> {
        self.record@
    }

    /// A capability on which no call was made yet.
    pub fn new(capability: &'a C) -> (r: Self)
        ensures
            r.capability() == capability,
            r.log() == Seq::<Call>::empty(),
    {
        Recorded { capability, record: Ghost(Seq::empty()) }
    }
}

impl<'a, C: PowerEnvelope + ?Sized> Recorded<'a, C> {
    /// Program an envelope.
    pub fn set_target(&mut self, target: &PowerEnvelopeTarget) -> (r: Result<(), HpdError>)
        ensures
            final(self).capability() == old(self).capability(),
            final(self).log() == old(self).log().push(Call::Told(Order::Target(*target), r)),
            call_ensures(C::set_target, (old(self).capability(), target), r),
    {
        let r = self.capability.set_target(target);
        self.record = Ghost(self.record@.push(Call::Told(Order::Target(*target), r)));
        r
    }

    /// The envelope that the hardware holds now.
    pub fn get_target(&mut self) -> (r: Result<PowerEnvelopeTarget, HpdError>)
        ensures
            final(self).capability() == old(self).capability(),
            final(self).log() == old(self).log().push(Call::Asked(Holding::Target(r))),
            call_ensures(C::get_target, (old(self).capability(),), r),
    {
        let r = self.capability.get_target();
        self.record = Ghost(self.record@.push(Call::Asked(Holding::Target(r))));
        r
    }
}

impl<'a, C: PlatformProfile + ?Sized> Recorded<'a, C> {
    /// Switch to a profile.
    pub fn set_active_profile(&mut self, profile: &ProfileName) -> (r: Result<(), HpdError>)
        ensures
            final(self).capability() == old(self).capability(),
            final(self).log() == old(self).log().push(Call::Told(Order::Profile(*profile), r)),
            call_ensures(C::set_active_profile, (old(self).capability(), profile), r),
    {
        let r = self.capability.set_active_profile(profile);
        self.record = Ghost(self.record@.push(Call::Told(Order::Profile(*profile), r)));
        r
    }

    /// The profile that the firmware is in.
    pub fn get_active_profile(&mut self) -> (r: Result<ProfileName, HpdError>)
        ensures
            final(self).capability() == old(self).capability(),
            final(self).log() == old(self).log().push(Call::Asked(Holding::Profile(r))),
            call_ensures(C::get_active_profile, (old(self).capability(),), r),
    {
        let r = self.capability.get_active_profile();
        self.record = Ghost(self.record@.push(Call::Asked(Holding::Profile(r))));
        r
    }
}

impl<'a, C: ChargeControl + ?Sized> Recorded<'a, C> {
    /// Stop charging at `threshold` percent.
    pub fn set_end_threshold(&mut self, threshold: u8) -> (r: Result<(), HpdError>)
        ensures
            final(self).capability() == old(self).capability(),
            final(self).log() == old(self).log().push(Call::Told(Order::Threshold(threshold), r)),
            call_ensures(C::set_end_threshold, (old(self).capability(), threshold), r),
    {
        let r = self.capability.set_end_threshold(threshold);
        self.record = Ghost(self.record@.push(Call::Told(Order::Threshold(threshold), r)));
        r
    }

    /// The percentage at which charging stops.
    pub fn get_end_threshold(&mut self) -> (r: Result<u8, HpdError>)
        ensures
            final(self).capability() == old(self).capability(),
            final(self).log() == old(self).log().push(Call::Asked(Holding::Threshold(r))),
            call_ensures(C::get_end_threshold, (old(self).capability(),), r),
    {
        let r = self.capability.get_end_threshold();
        self.record = Ghost(self.record@.push(Call::Asked(Holding::Threshold(r))));
        r
    }
}

impl<'a, C: FanCurveControl + ?Sized> Recorded<'a, C> {
    /// Program a selection.
    pub fn apply(&mut self, selection: &FanCurveSelection) -> (r: Result<(), HpdError>)
        ensures
            final(self).capability() == old(self).capability(),
            final(self).log() == old(self).log().push(Call::Told(Order::Curve(*selection), r)),
            call_ensures(C::apply, (old(self).capability(), selection), r),
    {
        let r = self.capability.apply(selection);
        self.record = Ghost(self.record@.push(Call::Told(Order::Curve(*selection), r)));
        r
    }

    /// Hand the fans back to the firmware.
    pub fn reset_fans(&mut self) -> (r: Result<(), HpdError>)
        ensures
            final(self).capability() == old(self).capability(),
            final(self).log() == old(self).log().push(Call::Told(Order::AutoFans, r)),
            call_ensures(C::reset_to_auto, (old(self).capability(),), r),
    {
        let r = self.capability.reset_to_auto();
        self.record = Ghost(self.record@.push(Call::Told(Order::AutoFans, r)));
        r
    }

    /// The selection that the fans run.
    pub fn active_selection(&mut self) -> (r: Result<Option<FanCurveSelection>, HpdError>)
        ensures
            final(self).capability() == old(self).capability(),
            final(self).log() == old(self).log().push(Call::Asked(Holding::Curve(r))),
            call_ensures(C::active_selection, (old(self).capability(),), r),
    {
        let r = self.capability.active_selection();
        self.record = Ghost(self.record@.push(Call::Asked(Holding::Curve(r))));
        r
    }
}

impl<'a, C: GpuClockRangeControl + ?Sized> Recorded<'a, C> {
    /// Hold the clock to a range.
    pub fn set_range(&mut self, range: &GpuClockRange) -> (r: Result<(), HpdError>)
        ensures
            final(self).capability() == old(self).capability(),
            final(self).log() == old(self).log().push(Call::Told(Order::Range(*range), r)),
            call_ensures(C::set_range, (old(self).capability(), range), r),
    {
        let r = self.capability.set_range(range);
        self.record = Ghost(self.record@.push(Call::Told(Order::Range(*range), r)));
        r
    }

    /// Hand the clock back to the firmware.
    pub fn reset_clock(&mut self) -> (r: Result<(), HpdError>)
        ensures
            final(self).capability() == old(self).capability(),
            final(self).log() == old(self).log().push(Call::Told(Order::AutoClock, r)),
            call_ensures(C::reset_to_auto, (old(self).capability(),), r),
    {
        let r = self.capability.reset_to_auto();
        self.record = Ghost(self.record@.push(Call::Told(Order::AutoClock, r)));
        r
    }

    /// The range that the clock is held to.
    pub fn active_range(&mut self) -> (r: Result<Option<GpuClockRange>, HpdError>)
        ensures
            final(self).capability() == old(self).capability(),
            final(self).log() == old(self).log().push(Call::Asked(Holding::Range(r))),
            call_ensures(C::active_range, (old(self).capability(),), r),
    {
        let r = self.capability.active_range();
        self.record = Ghost(self.record@.push(Call::Asked(Holding::Range(r))));
        r
    }

    /// The clocks that the device accepts.
    pub fn constraints(&mut self) -> (r: Result<GpuClockConstraints, HpdError>)
        ensures
            final(self).capability() == old(self).capability(),
            final(self).log() == old(self).log().push(Call::Asked(Holding::Clocks(r))),
            call_ensures(C::constraints, (old(self).capability(),), r),
    {
        let r = self.capability.constraints();
        self.record = Ghost(self.record@.push(Call::Asked(Holding::Clocks(r))));
        r
    }
}

} // verus!
