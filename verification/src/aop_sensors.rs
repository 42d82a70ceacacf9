//! What the sensors behind the sensor processor share: the latest reading, and
//! how it is handed out.

use vstd::prelude::*;

use crate::aop_als::{
    calibration_message, get_lux_offset, get_name, interval_message, lux_offset_of, name_message,
    set_calibration, set_interval,
};
use crate::aop::FakehidListener;
use crate::errno::Errno;

verus! {

/// Micro-units per unit of a channel's value.
pub const MICRO: u64 = 1_000_000;

/// The largest reading that is kept: its whole part and its micro part both fit
/// a signed 32-bit number. Larger ones are kept as this.
pub const MAX_MICRO: u64 = 2_147_483_647_999_999;

/// Finds the reading in a report.
pub trait MessageProcessor {
    /// The reading in a report, in micro-units.
    spec fn reading(&self, message: Seq<u8>) -> Option<u64>;

    /// The reading that `message` carries, if it carries one.
    fn process(&self, message: &[u8]) -> (r: Option<u64>)
        ensures
            r == self.reading(message@),
    ;
}

/// What a sensor's listener and its device share: the latest reading, if there
/// was one.
pub struct AopSensorData<T: MessageProcessor> {
    ty: u32,
    value: u64,
    valid: bool,
    msg_proc: T,
}

/// A reading as it is kept.
pub open spec fn capped(v: u64) -> u64 {
    if v > MAX_MICRO {
        MAX_MICRO
    } else {
        v
    }
}

/// How a value is to be handed out.
#[derive(Clone, Copy, Debug, PartialEq, Eq, Structural)]
pub enum InfoMask {
    Processed,
    Raw,
    Other,
}

/// How a value that was handed out is meant.
#[derive(Clone, Copy, Debug, PartialEq, Eq, Structural)]
pub enum ValueKind {
    IntPlusMicro,
    Int,
}

/// A value that was handed out.
#[derive(Clone, Copy, Debug, PartialEq, Eq, Structural)]
pub struct Value {
    pub val: i32,
    pub val2: i32,
    pub kind: ValueKind,
}

/// What a read of a channel gives.
pub open spec fn read_result(ty: u32, reading: Option<u64>, chan: u32, mask: InfoMask) -> Result<
    Value,
    Errno,
> {
    if ty != chan {
        Err(Errno::EINVAL)
    } else {
        match reading {
            None => Err(Errno::ENODATA),
            Some(micro) => match mask {
                InfoMask::Processed => Ok(
                    Value {
                        val: (micro / 1_000_000) as i32,
                        val2: (micro % 1_000_000) as i32,
                        kind: ValueKind::IntPlusMicro,
                    },
                ),
                InfoMask::Raw => Ok(
                    Value {
                        val: (micro / 1_000_000) as i32,
                        val2: (micro % 1_000_000) as i32,
                        kind: ValueKind::Int,
                    },
                ),
                InfoMask::Other => Err(Errno::EINVAL),
            },
        }
    }
}

impl<T: MessageProcessor> AopSensorData<T> {
    /// The latest reading.
    pub closed spec fn latest(&self) -> Option<u64> {
        if self.valid {
            Some(self.value)
        } else {
            None
        }
    }

    /// The type of the channel.
    pub closed spec fn ty(&self) -> u32 {
        self.ty
    }

    /// What finds the reading in a report.
    pub closed spec fn processor(&self) -> T {
        self.msg_proc
    }

    /// What is kept is never too large.
    pub closed spec fn wf(&self) -> bool {
        self.value <= MAX_MICRO
    }

    /// The latest reading is never too large.
    pub proof fn latest_is_capped(&self)
        requires
            self.wf(),
        ensures
            self.latest() matches Some(v) ==> v <= MAX_MICRO,
    {
    }

    /// A channel of a type, without a reading.
    pub fn new(ty: u32, msg_proc: T) -> (d: AopSensorData<T>)
        ensures
            d.wf(),
            d.latest() is None,
            d.ty() == ty,
            d.processor() == msg_proc,
    {
        AopSensorData { ty, value: 0, valid: false, msg_proc }
    }

    /// Reads a channel. A sensor that has not reported yet has no reading,
    /// which is not a reading of zero.
    pub fn read_raw(&self, chan: u32, mask: InfoMask) -> (r: Result<Value, Errno>)
        requires
            self.wf(),
        ensures
            r == read_result(self.ty(), self.latest(), chan, mask),
    {
        if self.ty != chan {
            return Err(Errno::EINVAL);
        }
        if !self.valid {
            return Err(Errno::ENODATA);
        }
        let val: i32 = (self.value / MICRO) as i32;
        let val2: i32 = (self.value % MICRO) as i32;
        match mask {
            InfoMask::Processed => Ok(Value { val, val2, kind: ValueKind::IntPlusMicro }),
            InfoMask::Raw => Ok(Value { val, val2, kind: ValueKind::Int }),
            InfoMask::Other => Err(Errno::EINVAL),
        }
    }
}

impl<T: MessageProcessor> FakehidListener for AopSensorData<T> {
    open spec fn ready(&self) -> bool {
        self.wf()
    }

    /// A report is never refused. One without a reading leaves the latest in
    /// place.
    open spec fn takes(before: Self, data: Seq<u8>, after: Self, r: Result<(), Errno>) -> bool {
        &&& r is Ok
        &&& after.ty() == before.ty()
        &&& after.processor() == before.processor()
        &&& after.latest() == (match before.processor().reading(data) {
            Some(v) => Some(capped(v)),
            None => before.latest(),
        })
    }

    fn process_fakehid_report(&mut self, data: &[u8]) -> (r: Result<(), Errno>) {
        match self.msg_proc.process(data) {
            None => {},
            Some(v) => {
                self.value = if v > MAX_MICRO {
                    MAX_MICRO
                } else {
                    v
                };
                self.valid = true;
            },
        }
        Ok(())
    }
}

/// The one channel of a sensor's device.
#[derive(Clone, Copy, Debug, PartialEq, Eq, Structural)]
pub struct ChannelSpec {
    pub ty: u32,
    /// Whether values have a sign: `u` says that they have none.
    pub sign: char,
    pub realbits: u8,
    pub storagebits: u8,
    /// Which ways of handing a value out the channel has.
    pub info_mask: usize,
}

/// The channel of a type, whose values are unsigned and 32 bits wide.
pub open spec fn channel_of(ty: u32, info_mask: usize) -> ChannelSpec {
    ChannelSpec { ty, sign: 'u', realbits: 32, storagebits: 32, info_mask }
}

/// A sensor's device on its way to being registered.
pub struct IIODevice {
    pub name: &'static str,
    pub channel: ChannelSpec,
}

/// The registration of a sensor's device.
pub struct IIORegistration {
    dev: IIODevice,
    registered: bool,
}

impl IIODevice {
    /// Describes a device, unless its memory could not be had.
    pub fn describe(allocated: bool, name: &'static str, ty: u32, info_mask: usize) -> (r: Result<
        IIODevice,
        Errno,
    >)
        ensures
            match r {
                Ok(d) => allocated && d.name@ == name@ && d.channel == channel_of(ty, info_mask),
                Err(e) => !allocated && e == Errno::ENOMEM,
            },
    {
        if !allocated {
            return Err(Errno::ENOMEM);
        }
        Ok(
            IIODevice {
                name,
                channel: ChannelSpec { ty, sign: 'u', realbits: 32, storagebits: 32, info_mask },
            },
        )
    }
}

impl IIORegistration {
    pub closed spec fn is_registered(&self) -> bool {
        self.registered
    }

    pub closed spec fn device(&self) -> IIODevice {
        self.dev
    }

    /// Holds a device that was to be registered, given what registering it
    /// returned.
    pub fn new(dev: IIODevice, ret: i32) -> (r: Result<IIORegistration, i32>)
        ensures
            match r {
                Ok(reg) => ret >= 0 && reg.is_registered() && reg.device() == dev,
                Err(e) => ret < 0 && e == ret,
            },
    {
        if ret < 0 {
            return Err(ret);
        }
        Ok(IIORegistration { dev, registered: true })
    }

    /// The channel of the device.
    pub fn channel(&self) -> (c: ChannelSpec)
        ensures
            c == self.device().channel,
    {
        self.dev.channel
    }

    /// Gives the registration up, and says whether there was one.
    pub fn unregister(&mut self) -> (was: bool)
        ensures
            was == old(self).is_registered(),
            !final(self).is_registered(),
            final(self).device() == old(self).device(),
    {
        let was = self.registered;
        self.registered = false;
        was
    }
}

// ---------------------------------------------------------------------------
// Bringing a sensor up.
// ---------------------------------------------------------------------------
/// The steps of bringing a sensor up. The light sensor has to be identified and
/// calibrated, the lid's sensor has not. What goes to the sensor is carried.
#[derive(Debug, PartialEq, Eq)]
pub enum SensorAsk<B = Vec<u8>> {
    FindCore,
    FindService,
    /// Read the property that this asks for, and tell it.
    Identify(B),
    Subscribe,
    /// Read the calibration file, and tell what it holds.
    LoadCalibration,
    /// Set the property that this sets.
    Calibrate(B),
    /// Set the property that this sets.
    SetInterval(B),
    Register,
    Done,
    Failed(Errno),
    /// End the subscription, and fail.
    Unsubscribe(Errno),
}

pub type SensorAskView = SensorAsk<Seq<u8>>;

impl View for SensorAsk {
    type V = SensorAskView;

    open spec fn view(&self) -> SensorAskView {
        match self {
            SensorAsk::FindCore => SensorAsk::FindCore,
            SensorAsk::FindService => SensorAsk::FindService,
            SensorAsk::Identify(b) => SensorAsk::Identify(b@),
            SensorAsk::Subscribe => SensorAsk::Subscribe,
            SensorAsk::LoadCalibration => SensorAsk::LoadCalibration,
            SensorAsk::Calibrate(b) => SensorAsk::Calibrate(b@),
            SensorAsk::SetInterval(b) => SensorAsk::SetInterval(b@),
            SensorAsk::Register => SensorAsk::Register,
            SensorAsk::Done => SensorAsk::Done,
            SensorAsk::Failed(e) => SensorAsk::Failed(*e),
            SensorAsk::Unsubscribe(e) => SensorAsk::Unsubscribe(*e),
        }
    }
}

/// Bringing a sensor up.
#[derive(Debug, PartialEq, Eq)]
pub struct SensorProbe<B = Vec<u8>> {
    pub ask: SensorAsk<B>,
    pub light: bool,
    /// Where the light stands in a report, once the sensor is identified.
    pub offset: Option<usize>,
}

pub type SensorProbeView = SensorProbe<Seq<u8>>;

impl View for SensorProbe {
    type V = SensorProbeView;

    open spec fn view(&self) -> SensorProbeView {
        SensorProbe { ask: self.ask@, light: self.light, offset: self.offset }
    }
}

/// What comes after a step that worked and gave these bytes.
pub open spec fn sensor_after(m: SensorProbeView, b: Seq<u8>) -> SensorProbeView {
    match m.ask {
        SensorAsk::FindCore => SensorProbe { ask: SensorAsk::FindService, ..m },
        SensorAsk::FindService => SensorProbe {
            ask: if m.light {
                SensorAsk::Identify(name_message())
            } else {
                SensorAsk::Subscribe
            },
            ..m
        },
        SensorAsk::Identify(_) => match lux_offset_of(b) {
            Some(offset) => SensorProbe {
                ask: SensorAsk::Subscribe,
                offset: Some(offset),
                ..m
            },
            None => SensorProbe { ask: SensorAsk::Failed(Errno::EIO), ..m },
        },
        SensorAsk::Subscribe => SensorProbe {
            ask: if m.light {
                SensorAsk::LoadCalibration
            } else {
                SensorAsk::Register
            },
            ..m
        },
        SensorAsk::LoadCalibration => SensorProbe {
            ask: SensorAsk::Calibrate(calibration_message(b)),
            ..m
        },
        SensorAsk::Calibrate(_) => SensorProbe {
            ask: SensorAsk::SetInterval(interval_message()),
            ..m
        },
        SensorAsk::SetInterval(_) => SensorProbe { ask: SensorAsk::Register, ..m },
        SensorAsk::Register => SensorProbe { ask: SensorAsk::Done, ..m },
        _ => m,
    }
}

pub open spec fn sensor_over(a: SensorAskView) -> bool {
    a is Done || a is Failed || a is Unsubscribe
}

/// Whether the sensor is not subscribed yet.
pub open spec fn unsubscribed(a: SensorAskView) -> bool {
    a is FindCore || a is FindService || a is Identify || a is Subscribe
}

/// What comes after a step, given what it gave: the bytes that were to be told,
/// and none for a step that has nothing to tell.
pub open spec fn sensor_next(m: SensorProbeView, r: Result<Seq<u8>, Errno>) -> SensorProbeView {
    if sensor_over(m.ask) {
        m
    } else {
        match r {
            Ok(b) => sensor_after(m, b),
            Err(e) => SensorProbe {
                ask: if unsubscribed(m.ask) {
                    SensorAsk::Failed(e)
                } else {
                    SensorAsk::Unsubscribe(e)
                },
                ..m
            },
        }
    }
}

impl SensorProbe {
    pub fn start(light: bool) -> (m: SensorProbe)
        ensures
            m@ == (SensorProbe { ask: SensorAskView::FindCore, light, offset: None }),
    {
        SensorProbe { ask: SensorAsk::FindCore, light, offset: None }
    }

    fn after(&mut self, b: &[u8])
        ensures
            final(self)@ == sensor_after(old(self)@, b@),
    {
        let next = match &self.ask {
            SensorAsk::FindCore => SensorAsk::FindService,
            SensorAsk::FindService => {
                if self.light {
                    SensorAsk::Identify(get_name())
                } else {
                    SensorAsk::Subscribe
                }
            },
            SensorAsk::Identify(_) => match get_lux_offset(b) {
                Ok(offset) => {
                    self.offset = Some(offset);
                    SensorAsk::Subscribe
                },
                Err(e) => SensorAsk::Failed(e),
            },
            SensorAsk::Subscribe => {
                if self.light {
                    SensorAsk::LoadCalibration
                } else {
                    SensorAsk::Register
                }
            },
            SensorAsk::LoadCalibration => SensorAsk::Calibrate(set_calibration(b)),
            SensorAsk::Calibrate(_) => SensorAsk::SetInterval(set_interval()),
            SensorAsk::SetInterval(_) => SensorAsk::Register,
            SensorAsk::Register => SensorAsk::Done,
            _ => {
                return ;
            },
        };
        self.ask = next;
    }

    /// Notes how the step went, and what it gave.
    pub fn done(&mut self, r: Result<&[u8], Errno>)
        ensures
            final(self)@ == sensor_next(
                old(self)@,
                match r {
                    Ok(b) => Ok(b@),
                    Err(e) => Err(e),
                },
            ),
    {
        match &self.ask {
            SensorAsk::Done | SensorAsk::Failed(_) | SensorAsk::Unsubscribe(_) => {
                return ;
            },
            _ => {},
        }
        match r {
            Ok(b) => self.after(b),
            Err(e) => {
                let next = match &self.ask {
                    SensorAsk::FindCore
                    | SensorAsk::FindService
                    | SensorAsk::Identify(_)
                    | SensorAsk::Subscribe => SensorAsk::Failed(e),
                    _ => SensorAsk::Unsubscribe(e),
                };
                self.ask = next;
            },
        }
    }
}

// ---------------------------------------------------------------------------
// Laws.
// ---------------------------------------------------------------------------
/// A sensor that fails to come up does not stay subscribed.
pub proof fn failed_sensor_is_unsubscribed(m: SensorProbeView, e: Errno)
    requires
        !sensor_over(m.ask),
    ensures
        unsubscribed(m.ask) ==> sensor_next(m, Err(e)).ask == SensorAskView::Failed(e),
        !unsubscribed(m.ask) ==> sensor_next(m, Err(e)).ask == SensorAskView::Unsubscribe(e),
{
}

/// The light sensor is calibrated with its file: the bytes that were read are
/// what the property is set to, and only then is the interval set.
pub proof fn light_is_calibrated_with_its_file(m: SensorProbeView, file: Seq<u8>, told: Seq<u8>)
    requires
        m.ask is LoadCalibration,
    ensures
        sensor_next(m, Ok(file)).ask == SensorAskView::Calibrate(calibration_message(file)),
        sensor_next(sensor_next(m, Ok(file)), Ok(told)).ask == SensorAskView::SetInterval(
            interval_message(),
        ),
{
}

/// What is handed out is what was kept: the whole part and the micro part make
/// up the reading, and neither is cut off.
pub proof fn parts_make_up_reading(ty: u32, micro: u64)
    requires
        micro <= MAX_MICRO,
    ensures
        ({
            let v = read_result(ty, Some(micro), ty, InfoMask::Processed)->Ok_0;
            v.val * 1_000_000 + v.val2 == micro && 0 <= v.val && 0 <= v.val2 < 1_000_000
        }),
{
}

/// The light sensor comes up in this order: its core and its service are found, it is
/// asked for its name, which says where the light stands, it is subscribed, its
/// calibration is loaded and handed over, its interval is set, and its device is
/// registered.
pub proof fn light_sensor_comes_up(
    a: Seq<u8>,
    b: Seq<u8>,
    name: Seq<u8>,
    c: Seq<u8>,
    file: Seq<u8>,
    d: Seq<u8>,
    e: Seq<u8>,
    f: Seq<u8>,
)
    requires
        lux_offset_of(name) is Some,
    ensures
        ({
            let m0 = SensorProbe { ask: SensorAskView::FindCore, light: true, offset: None };
            let m1 = sensor_next(m0, Ok(a));
            let m2 = sensor_next(m1, Ok(b));
            let m3 = sensor_next(m2, Ok(name));
            let m4 = sensor_next(m3, Ok(c));
            let m5 = sensor_next(m4, Ok(file));
            let m6 = sensor_next(m5, Ok(d));
            let m7 = sensor_next(m6, Ok(e));
            let m8 = sensor_next(m7, Ok(f));
            &&& m1.ask == SensorAskView::FindService
            &&& m2.ask == SensorAskView::Identify(name_message())
            &&& m3.ask == SensorAskView::Subscribe
            &&& m3.offset == lux_offset_of(name)
            &&& m4.ask == SensorAskView::LoadCalibration
            &&& m5.ask == SensorAskView::Calibrate(calibration_message(file))
            &&& m6.ask == SensorAskView::SetInterval(interval_message())
            &&& m7.ask == SensorAskView::Register
            &&& m8.ask == SensorAskView::Done
            &&& m8.offset == lux_offset_of(name)
        }),
{
}

/// A light sensor of a name that is not known fails before it is subscribed.
pub proof fn unknown_sensor_fails(m: SensorProbeView, name: Seq<u8>)
    requires
        m.ask is Identify,
        lux_offset_of(name) is None,
    ensures
        sensor_next(m, Ok(name)).ask == SensorAskView::Failed(Errno::EIO),
{
}

/// The sensor of the lid is neither asked for its name nor calibrated.
pub proof fn lid_sensor_comes_up(a: Seq<u8>, b: Seq<u8>, c: Seq<u8>, d: Seq<u8>)
    ensures
        ({
            let m0 = SensorProbe { ask: SensorAskView::FindCore, light: false, offset: None };
            let m1 = sensor_next(m0, Ok(a));
            let m2 = sensor_next(m1, Ok(b));
            let m3 = sensor_next(m2, Ok(c));
            let m4 = sensor_next(m3, Ok(d));
            &&& m1.ask == SensorAskView::FindService
            &&& m2.ask == SensorAskView::Subscribe
            &&& m3.ask == SensorAskView::Register
            &&& m4.ask == SensorAskView::Done
            &&& m4.offset is None
        }),
{
}

/// A step that fails before the subscription stands ends the probe, one that fails after
/// it ends the subscription first; either way with the error of the step.
pub proof fn failing_step_ends_the_probe(light: bool, offset: Option<usize>, b: Seq<u8>, e: Errno)
    ensures
        ({
            let at = |ask: SensorAskView|
                sensor_next(SensorProbe { ask, light, offset }, Err(e)).ask;
            &&& at(SensorAsk::FindCore) == SensorAskView::Failed(e)
            &&& at(SensorAsk::FindService) == SensorAskView::Failed(e)
            &&& at(SensorAsk::Identify(b)) == SensorAskView::Failed(e)
            &&& at(SensorAsk::Subscribe) == SensorAskView::Failed(e)
            &&& at(SensorAsk::LoadCalibration) == SensorAskView::Unsubscribe(e)
            &&& at(SensorAsk::Calibrate(b)) == SensorAskView::Unsubscribe(e)
            &&& at(SensorAsk::SetInterval(b)) == SensorAskView::Unsubscribe(e)
            &&& at(SensorAsk::Register) == SensorAskView::Unsubscribe(e)
        }),
{
}

/// A read of another type of channel is refused, whatever was reported; one before the
/// first report has no data; and the two ways of handing a value out differ in how it is
/// meant alone. A reading of 12 345 678 is 12 and 345 678 millionths.
pub proof fn reads_are_answered(ty: u32, other: u32, reading: Option<u64>, mask: InfoMask, v: u64)
    requires
        other != ty,
    ensures
        read_result(ty, reading, other, mask) == Err::<Value, Errno>(Errno::EINVAL),
        read_result(ty, None, ty, mask) == Err::<Value, Errno>(Errno::ENODATA),
        read_result(ty, Some(v), ty, InfoMask::Other) == Err::<Value, Errno>(Errno::EINVAL),
        read_result(ty, Some(12_345_678), ty, InfoMask::Processed) == Ok::<Value, Errno>(
            Value { val: 12, val2: 345_678, kind: ValueKind::IntPlusMicro },
        ),
        read_result(ty, Some(v), ty, InfoMask::Raw) == Ok::<Value, Errno>(
            Value {
                kind: ValueKind::Int,
                ..read_result(ty, Some(v), ty, InfoMask::Processed)->Ok_0
            },
        ),
{
}

/// A reading is kept as it is up to the largest that two signed 32-bit numbers can hold,
/// and as that one from there on.
pub proof fn readings_are_capped(v: u64)
    ensures
        v <= 2_147_483_647_999_999 ==> capped(v) == v,
        v >= 2_147_483_647_999_999 ==> capped(v) == 2_147_483_647_999_999,
        capped(v) / 1_000_000 <= 0x7fff_ffff,
{
}

/// A channel's values are unsigned and have 32 bits of 32.
pub proof fn channel_is_described(ty: u32, info_mask: usize)
    ensures
        channel_of(ty, info_mask).ty == ty,
        channel_of(ty, info_mask).sign == 'u',
        channel_of(ty, info_mask).realbits == 32,
        channel_of(ty, info_mask).storagebits == 32,
        channel_of(ty, info_mask).info_mask == info_mask,
{
}

} // verus!
