//! What has to be changed in the machine's description before the enclave and
//! its sensor can be used, and the mark that the one registration leaves there.

use vstd::prelude::*;

use crate::errno::Errno;
use crate::uuid::{zero_uuid, Uuid};

verus! {

/// What is known of the enclave's address translator.
#[derive(Clone, Copy, Debug, PartialEq, Eq, Structural)]
pub struct DartState {
    pub available: bool,
    pub has_offset: bool,
    pub has_range: bool,
}

/// What is added to a node: properties, and the status that enables it.
#[derive(Clone, Copy, Debug, PartialEq, Eq, Structural)]
pub enum Change {
    DmaOffset,
    DmaRange,
    StatusOkay,
}

/// The cells of the offset between what the enclave and the translator call an
/// address, the most significant first.
pub fn dma_offset_cells() -> (c: (u32, u32))
    ensures
        cells_value(c) == 0x100_0000_0000,
{
    (0x100, 0)
}

/// The cells of the range of addresses: where it starts and how long it is.
pub fn dma_range_cells() -> (c: ((u32, u32), (u32, u32)))
    ensures
        cells_value(c.0) == 0,
        cells_value(c.1) == 0x1_0000_0000,
{
    ((0, 0), (1, 0))
}

/// The number that two cells hold.
pub open spec fn cells_value(c: (u32, u32)) -> int {
    c.0 * 0x1_0000_0000 + c.1
}

/// The cells that mark a registration, by the address that was registered.
pub fn registration_cells(iova: u64) -> (c: (u32, u32))
    ensures
        cells_value(c) == iova,
{
    ((iova / 0x1_0000_0000) as u32, (iova % 0x1_0000_0000) as u32)
}

/// Two registrations leave different marks.
pub proof fn marks_differ(a: (u32, u32), b: (u32, u32))
    requires
        cells_value(a) == cells_value(b),
    ensures
        a == b,
{
}

/// An identity that was read, unless it is all zeros.
pub open spec fn identity_of(parsed: Option<Uuid>) -> Option<Uuid> {
    if parsed == Some(zero_uuid()) {
        None
    } else {
        parsed
    }
}

/// The identity that the firmware handed over, as far as it could be read. One
/// that is all zeros is none.
pub fn preboot_uuid(parsed: Option<Uuid>) -> (r: Option<Uuid>)
    ensures
        r == identity_of(parsed),
{
    match parsed {
        None => None,
        Some(u) => {
            if u.is_zero() {
                None
            } else {
                Some(u)
            }
        },
    }
}

// ---------------------------------------------------------------------------
// The enclave and its translator.
// ---------------------------------------------------------------------------
/// Which changes a translator needs. Properties come before the status, since
/// the translator starts when its status is set.
pub open spec fn dart_changes(d: DartState) -> Seq<Change> {
    let offset = if d.has_offset {
        Seq::empty()
    } else {
        seq![Change::DmaOffset]
    };
    let range = if d.has_range {
        Seq::empty()
    } else {
        seq![Change::DmaRange]
    };
    let status = if d.available {
        Seq::empty()
    } else {
        seq![Change::StatusOkay]
    };
    offset + range + status
}

/// The plan for a translator, or why there is none.
pub open spec fn dart_plan(sep_found: bool, dart: Option<DartState>) -> Result<Seq<Change>, Errno> {
    match dart {
        Some(d) => if !sep_found {
            Err(Errno::ENODEV)
        } else if d.available && !(d.has_offset && d.has_range) {
            Err(Errno::EBUSY)
        } else {
            Ok(dart_changes(d))
        },
        None => Err(Errno::ENODEV),
    }
}

/// The changes that the translator needs, in order. One that is running without
/// its properties cannot be helped: they only count when it starts.
pub fn plan_dart(sep_found: bool, dart: Option<DartState>) -> (r: Result<Vec<Change>, Errno>)
    ensures
        match r {
            Ok(v) => sep_found && dart is Some && v@ == dart_changes(dart->0) && (dart->0.available
                ==> dart->0.has_offset && dart->0.has_range),
            Err(e) => if !sep_found || dart is None {
                e == Errno::ENODEV
            } else {
                e == Errno::EBUSY && dart->0.available && !(dart->0.has_offset
                    && dart->0.has_range)
            },
        },
        match r {
            Ok(v) => dart_plan(sep_found, dart) == Ok::<Seq<Change>, Errno>(v@),
            Err(e) => dart_plan(sep_found, dart) == Err::<Seq<Change>, Errno>(e),
        },
{
    if !sep_found {
        return Err(Errno::ENODEV);
    }
    let d = match dart {
        None => {
            return Err(Errno::ENODEV);
        },
        Some(d) => d,
    };
    if d.available && (!d.has_offset || !d.has_range) {
        return Err(Errno::EBUSY);
    }
    let mut v: Vec<Change> = Vec::new();
    if !d.has_offset {
        v.push(Change::DmaOffset);
    }
    if !d.has_range {
        v.push(Change::DmaRange);
    }
    if !d.available {
        v.push(Change::StatusOkay);
    }
    assert(v@ =~= dart_changes(d));
    Ok(v)
}

/// A translator is never enabled by a change before it has both properties.
pub proof fn properties_before_status(d: DartState, i: int)
    requires
        0 <= i < dart_changes(d).len(),
        dart_changes(d)[i] == Change::StatusOkay,
    ensures
        i == dart_changes(d).len() - 1,
        d.has_offset || dart_changes(d)[0] == Change::DmaOffset,
        d.has_range || dart_changes(d)[i - 1] == Change::DmaRange,
{
}

#[derive(Clone, Copy, Debug, PartialEq, Eq, Structural)]
pub enum Stage {
    Dart,
    Sep,
    SepChange,
    Over,
}

/// What is to be done next.
#[derive(Clone, Copy, Debug, PartialEq, Eq, Structural)]
pub enum Ask {
    /// See whether the enclave's own node is enabled.
    LookAtSep,
    /// Enable the enclave's own node.
    EnableSep,
    Done,
    Failed(Errno),
}

/// What happened. A set of changes is applied as a whole or not at all, and
/// nothing is applied where there is none.
#[derive(Clone, Copy, Debug)]
pub enum Event {
    DartChanged(Result<(), Errno>),
    SepAvailable(bool),
    SepChanged(Result<(), Errno>),
}

/// Enabling the enclave once the changes to its translator are planned.
#[derive(Clone, Copy, Debug, PartialEq, Eq, Structural)]
pub struct EnableSep {
    pub stage: Stage,
}

pub open spec fn enable_step(m: EnableSep, e: Event) -> (EnableSep, Ask) {
    match (m.stage, e) {
        (Stage::Dart, Event::DartChanged(Ok(_))) => (
            EnableSep { stage: Stage::Sep },
            Ask::LookAtSep,
        ),
        (Stage::Dart, Event::DartChanged(Err(e))) => (
            EnableSep { stage: Stage::Over },
            Ask::Failed(e),
        ),
        (Stage::Sep, Event::SepAvailable(true)) => (EnableSep { stage: Stage::Over }, Ask::Done),
        (Stage::Sep, Event::SepAvailable(false)) => (
            EnableSep { stage: Stage::SepChange },
            Ask::EnableSep,
        ),
        (Stage::SepChange, Event::SepChanged(Ok(_))) => (
            EnableSep { stage: Stage::Over },
            Ask::Done,
        ),
        (Stage::SepChange, Event::SepChanged(Err(e))) => (
            EnableSep { stage: Stage::Over },
            Ask::Failed(e),
        ),
        _ => (EnableSep { stage: Stage::Over }, Ask::Failed(Errno::EINVAL)),
    }
}

impl EnableSep {
    pub fn start() -> (m: EnableSep)
        ensures
            m == (EnableSep { stage: Stage::Dart }),
    {
        EnableSep { stage: Stage::Dart }
    }

    fn go(&mut self, stage: Stage, ask: Ask) -> (a: Ask)
        ensures
            (*final(self), a) == (EnableSep { stage }, ask),
    {
        self.stage = stage;
        ask
    }

    pub fn step(&mut self, e: Event) -> (a: Ask)
        ensures
            (*final(self), a) == enable_step(*old(self), e),
    {
        match (self.stage, e) {
            (Stage::Dart, Event::DartChanged(r)) => match r {
                Ok(_) => self.go(Stage::Sep, Ask::LookAtSep),
                Err(e) => self.go(Stage::Over, Ask::Failed(e)),
            },
            (Stage::Sep, Event::SepAvailable(there)) => {
                if there {
                    self.go(Stage::Over, Ask::Done)
                } else {
                    self.go(Stage::SepChange, Ask::EnableSep)
                }
            },
            (Stage::SepChange, Event::SepChanged(r)) => match r {
                Ok(_) => self.go(Stage::Over, Ask::Done),
                Err(e) => self.go(Stage::Over, Ask::Failed(e)),
            },
            _ => self.go(Stage::Over, Ask::Failed(Errno::EINVAL)),
        }
    }
}

/// The enclave is enabled only after its translator's changes took effect.
pub proof fn translator_comes_first(m: EnableSep, e: Event)
    ensures
        enable_step(m, e).1 == Ask::EnableSep ==> m.stage is Sep,
        enable_step(m, e).0.stage is Sep ==> m.stage is Dart && (e matches Event::DartChanged(r)
            && r is Ok),
{
}

// ---------------------------------------------------------------------------
// The sensor and its bus.
// ---------------------------------------------------------------------------
/// The first node whose register base is `base`, among all that have one.
pub fn node_at_address(bases: &Vec<Option<u64>>, base: u64) -> (r: Option<usize>)
    ensures
        match r {
            Some(i) => i < bases.len() && bases@[i as int] == Some(base) && forall|j: int|
                0 <= j < i ==> bases@[j] != Some(base),
            None => forall|j: int| 0 <= j < bases.len() ==> bases@[j] != Some(base),
        },
{
    let mut i: usize = 0;
    while i < bases.len()
        invariant
            i <= bases.len(),
            forall|j: int| 0 <= j < i ==> bases@[j] != Some(base),
        decreases bases.len() - i,
    {
        if let Some(b) = bases[i] {
            if b == base {
                return Some(i);
            }
        }
        i = i + 1;
    }
    None
}

/// The first child whose register is `value`.
pub fn child_with_reg(regs: &Vec<Option<u32>>, value: u32) -> (r: Option<usize>)
    ensures
        match r {
            Some(i) => i < regs.len() && regs@[i as int] == Some(value) && forall|j: int|
                0 <= j < i ==> regs@[j] != Some(value),
            None => forall|j: int| 0 <= j < regs.len() ==> regs@[j] != Some(value),
        },
{
    let mut i: usize = 0;
    while i < regs.len()
        invariant
            i <= regs.len(),
            forall|j: int| 0 <= j < i ==> regs@[j] != Some(value),
        decreases regs.len() - i,
    {
        if let Some(b) = regs[i] {
            if b == value {
                return Some(i);
            }
        }
        i = i + 1;
    }
    None
}

/// What is done to the sensor's bus, as one set of changes.
#[derive(Clone, Copy, Debug, PartialEq, Eq, Structural)]
pub enum SensorPlan {
    Nothing,
    /// Enable the bus: the sensor's node is there already, and a second one
    /// would be two devices at one place.
    EnableBus,
    /// Make the sensor's node, the bus being enabled.
    CreateNode,
    /// Enable the bus and then make the sensor's node.
    EnableBusAndCreateNode,
}

/// What is done to a bus, or why nothing can be.
pub open spec fn sensor_plan(controller: Option<bool>, occupied: bool) -> Result<
    SensorPlan,
    Errno,
> {
    match controller {
        None => Err(Errno::ENODEV),
        Some(true) => Ok(
            if occupied {
                SensorPlan::Nothing
            } else {
                SensorPlan::CreateNode
            },
        ),
        Some(false) => Ok(
            if occupied {
                SensorPlan::EnableBus
            } else {
                SensorPlan::EnableBusAndCreateNode
            },
        ),
    }
}

/// The plan for a bus, given whether it is enabled and whether the sensor's
/// place on it is taken.
pub fn enable_spi_sensor(controller: Option<bool>, occupied: bool) -> (r: Result<
    SensorPlan,
    Errno,
>)
    ensures
        r == sensor_plan(controller, occupied),
{
    match controller {
        None => Err(Errno::ENODEV),
        Some(enabled) => {
            if enabled && occupied {
                Ok(SensorPlan::Nothing)
            } else if occupied {
                Ok(SensorPlan::EnableBus)
            } else if enabled {
                Ok(SensorPlan::CreateNode)
            } else {
                Ok(SensorPlan::EnableBusAndCreateNode)
            }
        },
    }
}

/// A property of the sensor's node.
#[derive(Clone, Copy, Debug, PartialEq, Eq, Structural)]
pub enum SensorProp {
    Compatible,
    /// The chip select.
    Reg(u32),
    MaxFrequency(u32),
    CsSetupDelayNs(u32),
    CsHoldDelayNs(u32),
    /// The clock idles high. That the second edge is not meant is said by the
    /// absence of another property.
    Cpol,
}

/// The properties of the sensor's node, in order.
pub open spec fn sensor_props() -> Seq<SensorProp> {
    seq![
        SensorProp::Compatible,
        SensorProp::Reg(0),
        SensorProp::MaxFrequency(8_000_000),
        SensorProp::CsSetupDelayNs(20),
        SensorProp::CsHoldDelayNs(20),
        SensorProp::Cpol,
    ]
}

/// The sensor's node while it is described.
#[derive(Clone, Copy, Debug, PartialEq, Eq, Structural)]
pub struct SensorNode {
    pub described: usize,
}

impl SensorNode {
    /// Starts the description, unless the node could not be made.
    pub fn create(made: bool) -> (r: Result<SensorNode, Errno>)
        ensures
            match r {
                Ok(n) => made && n.described == 0,
                Err(e) => !made && e == Errno::ENOMEM,
            },
    {
        if !made {
            return Err(Errno::ENOMEM);
        }
        Ok(SensorNode { described: 0 })
    }

    /// The property to add next, if one is left.
    pub fn next(&self) -> (p: Option<SensorProp>)
        ensures
            p == (if self.described < 6 {
                Some(sensor_props()[self.described as int])
            } else {
                None
            }),
    {
        match self.described {
            0 => Some(SensorProp::Compatible),
            1 => Some(SensorProp::Reg(0)),
            2 => Some(SensorProp::MaxFrequency(8_000_000)),
            3 => Some(SensorProp::CsSetupDelayNs(20)),
            4 => Some(SensorProp::CsHoldDelayNs(20)),
            5 => Some(SensorProp::Cpol),
            _ => None,
        }
    }

    /// Notes how adding it went. The first refusal ends the description.
    pub fn added(&mut self, rc: i32) -> (r: Result<(), i32>)
        requires
            old(self).described < 6,
        ensures
            match r {
                Ok(_) => rc == 0 && final(self).described == old(self).described + 1,
                Err(e) => rc != 0 && e == rc && *final(self) == *old(self),
            },
    {
        if rc != 0 {
            return Err(rc);
        }
        self.described = self.described + 1;
        Ok(())
    }
}

/// An identity of zeros is none, and any other is taken as it was read.
pub proof fn zero_identity_is_none(u: Uuid)
    ensures
        identity_of(None) is None,
        identity_of(Some(Uuid { lo: 0, hi: 0 })) is None,
        u.lo != 0 || u.hi != 0 ==> identity_of(Some(u)) == Some(u),
{
}

/// What is done to a translator: one that runs with both properties is left alone, one
/// that runs without either is busy, and one that does not run gets what it lacks, the
/// offset first and the status last. Without the enclave or the translator there is no
/// plan.
pub proof fn translators_are_planned_for(available: bool, offset: bool, range: bool)
    ensures
        ({
            let d = Some(DartState { available, has_offset: offset, has_range: range });
            &&& dart_plan(false, d) == Err::<Seq<Change>, Errno>(Errno::ENODEV)
            &&& dart_plan(true, None) == Err::<Seq<Change>, Errno>(Errno::ENODEV)
            &&& available && offset && range ==> dart_plan(true, d) == Ok::<Seq<Change>, Errno>(
                Seq::empty(),
            )
            &&& available && !(offset && range) ==> dart_plan(true, d) == Err::<
                Seq<Change>,
                Errno,
            >(Errno::EBUSY)
            &&& !available && !offset && !range ==> dart_plan(true, d) == Ok::<Seq<Change>, Errno>(
                seq![Change::DmaOffset, Change::DmaRange, Change::StatusOkay],
            )
            &&& !available && offset && !range ==> dart_plan(true, d) == Ok::<Seq<Change>, Errno>(
                seq![Change::DmaRange, Change::StatusOkay],
            )
            &&& !available && !offset && range ==> dart_plan(true, d) == Ok::<Seq<Change>, Errno>(
                seq![Change::DmaOffset, Change::StatusOkay],
            )
            &&& !available && offset && range ==> dart_plan(true, d) == Ok::<Seq<Change>, Errno>(
                seq![Change::StatusOkay],
            )
        }),
{
    let d = DartState { available, has_offset: offset, has_range: range };
    assert(available && offset && range ==> dart_changes(d) =~= Seq::empty());
    assert(!available && !offset && !range ==> dart_changes(d) =~= seq![
        Change::DmaOffset,
        Change::DmaRange,
        Change::StatusOkay,
    ]);
    assert(!available && offset && !range ==> dart_changes(d) =~= seq![
        Change::DmaRange,
        Change::StatusOkay,
    ]);
    assert(!available && !offset && range ==> dart_changes(d) =~= seq![
        Change::DmaOffset,
        Change::StatusOkay,
    ]);
    assert(!available && offset && range ==> dart_changes(d) =~= seq![Change::StatusOkay]);
}

/// The enclave is enabled in this order: its translator is changed, its own node is looked
/// at, and the node is enabled unless it is already. A change that fails ends it with its
/// error.
pub proof fn enclave_is_enabled_in_order(e: Errno)
    ensures
        ({
            let m0 = EnableSep { stage: Stage::Dart };
            let (m1, a1) = enable_step(m0, Event::DartChanged(Ok(())));
            let (m2, a2) = enable_step(m1, Event::SepAvailable(false));
            let (m3, a3) = enable_step(m2, Event::SepChanged(Ok(())));
            &&& a1 == Ask::LookAtSep
            &&& a2 == Ask::EnableSep
            &&& a3 == Ask::Done
            &&& enable_step(m1, Event::SepAvailable(true)).1 == Ask::Done
            &&& enable_step(m0, Event::DartChanged(Err(e))).1 == Ask::Failed(e)
            &&& enable_step(m2, Event::SepChanged(Err(e))).1 == Ask::Failed(e)
        }),
{
}

/// What is done to the sensor's bus: it is enabled unless it is, and the sensor's node is
/// made unless its place is taken.
pub proof fn buses_are_planned_for(occupied: bool)
    ensures
        sensor_plan(None, occupied) == Err::<SensorPlan, Errno>(Errno::ENODEV),
        sensor_plan(Some(true), true) == Ok::<SensorPlan, Errno>(SensorPlan::Nothing),
        sensor_plan(Some(true), false) == Ok::<SensorPlan, Errno>(SensorPlan::CreateNode),
        sensor_plan(Some(false), true) == Ok::<SensorPlan, Errno>(SensorPlan::EnableBus),
        sensor_plan(Some(false), false) == Ok::<SensorPlan, Errno>(
            SensorPlan::EnableBusAndCreateNode,
        ),
{
}

/// The six properties of the sensor's node in their order: what it is, chip select 0, 8
/// MHz, twenty nanoseconds before and behind, and a clock that idles high.
pub proof fn sensor_is_described()
    ensures
        sensor_props().len() == 6,
        sensor_props()[0] == SensorProp::Compatible,
        sensor_props()[1] == SensorProp::Reg(0),
        sensor_props()[2] == SensorProp::MaxFrequency(8_000_000),
        sensor_props()[3] == SensorProp::CsSetupDelayNs(20),
        sensor_props()[4] == SensorProp::CsHoldDelayNs(20),
        sensor_props()[5] == SensorProp::Cpol,
{
}

} // verus!
