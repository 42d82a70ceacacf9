//! What differs from one machine to the next, named once for each machine that
//! is supported.

use vstd::prelude::*;

use crate::bytes::{copy_range, same};
use crate::errno::Errno;

verus! {

/// How the shared-memory table is brought to the enclave.
#[derive(Clone, Copy, Debug, PartialEq, Eq, Structural)]
pub enum Bootstrap {
    /// Cold boot: the boot endpoint's handshake.
    Boot,
    /// Warm attach: one registration message with the table's address and size.
    WarmRegister,
}

/// Where the 16-byte identity of the system comes from.
#[derive(Clone, Copy, Debug, PartialEq, Eq, Structural)]
pub enum IdentitySource {
    /// What the firmware handed to this boot. It is never invented.
    Chosen,
    /// An identifier that was provisioned on the host's first bring-up.
    HostPersisted,
}

/// The bus mode of the sensor. The first has the clock idle low and samples on
/// the second edge, the second has it idle high and samples on the first.
#[derive(Clone, Copy, Debug, PartialEq, Eq, Structural)]
pub enum SpiMode {
    Mode1,
    Mode2,
}

impl SpiMode {
    /// The mode bits as the bus takes them.
    pub fn wire(self) -> (bits: u32)
        ensures
            bits == (match self {
                SpiMode::Mode1 => 1u32,
                SpiMode::Mode2 => 2u32,
            }),
    {
        match self {
            SpiMode::Mode1 => 1,
            SpiMode::Mode2 => 2,
        }
    }

    pub fn name(self) -> (s: &'static str)
        ensures
            s@ == (match self {
                SpiMode::Mode1 => "mode 1 (CPOL=0 CPHA=1)"@,
                SpiMode::Mode2 => "mode 2 (CPOL=1 CPHA=0)"@,
            }),
    {
        match self {
            SpiMode::Mode1 => "mode 1 (CPOL=0 CPHA=1)",
            SpiMode::Mode2 => "mode 2 (CPOL=1 CPHA=0)",
        }
    }
}

/// How the sensor is reached and what it should call itself.
#[derive(Clone, Copy, Debug, PartialEq, Eq, Structural)]
pub struct SensorProfile {
    /// The controller's base, for diagnostics alone.
    pub controller_base: u64,
    pub chip_select: u32,
    pub max_hz: u32,
    pub cs_setup_ns: u32,
    pub cs_hold_ns: u32,
    pub mode: SpiMode,
    pub expected_id: u16,
    /// Whether images may be captured over this transport.
    pub capture_qualified: bool,
}

/// The words of the request that makes the identity key bag.
#[derive(Clone, Copy, Debug, PartialEq, Eq, Structural)]
pub struct KeybagCreate {
    /// First word: the variant, which the reply repeats.
    pub variant: u32,
    /// Third word: the bag's type.
    pub bag_type: u32,
    /// Fourth word: the parent's handle.
    pub arg: i32,
}

/// Which machine a profile is for.
#[derive(Clone, Copy, Debug, PartialEq, Eq, Structural)]
pub enum Machine {
    T8103,
    T6020,
}

impl Machine {
    pub fn name(self) -> (s: &'static str)
        ensures
            s@ == (match self {
                Machine::T8103 => "T8103/J313"@,
                Machine::T6020 => "T6020/J414s"@,
            }),
    {
        match self {
            Machine::T8103 => "T8103/J313",
            Machine::T6020 => "T6020/J414s",
        }
    }
}

/// Everything that the drivers have to know of the machine they run on.
#[derive(Clone, Copy, Debug)]
pub struct PlatformProfile {
    pub machine: Machine,
    /// The capacity of the shared-memory window.
    pub shmem_capacity: usize,
    /// The name of the first shared-memory item, byte by byte.
    pub shmem_first_item: (u8, u8, u8, u8),
    pub bootstrap: Bootstrap,
    pub identity: IdentitySource,
    pub sensor: SensorProfile,
    /// Whether the enclave only takes addresses below 4 GiB, so that a static
    /// address range has to be declared for it.
    pub dart_range_required: bool,
    pub keybag_create: KeybagCreate,
}

impl PlatformProfile {
    /// The reserved-memory region that holds the enclave's firmware.
    pub fn firmware_region(&self) -> (s: &'static str)
        ensures
            s@ == "sepfw"@,
    {
        "sepfw"
    }

    /// The name of the first shared-memory item.
    pub fn first_item(&self) -> (n: [u8; 4])
        ensures
            n@ == seq![
                self.shmem_first_item.0,
                self.shmem_first_item.1,
                self.shmem_first_item.2,
                self.shmem_first_item.3,
            ],
    {
        let n: [u8; 4] = [
            self.shmem_first_item.0,
            self.shmem_first_item.1,
            self.shmem_first_item.2,
            self.shmem_first_item.3,
        ];
        assert(n@ =~= seq![
            self.shmem_first_item.0,
            self.shmem_first_item.1,
            self.shmem_first_item.2,
            self.shmem_first_item.3,
        ]);
        n
    }
}

pub open spec fn sensor_on(base: u64, mode: SpiMode) -> SensorProfile {
    SensorProfile {
        controller_base: base,
        chip_select: 0,
        max_hz: 8_000_000,
        cs_setup_ns: 20,
        cs_hold_ns: 20,
        mode,
        expected_id: 0x3352,
        capture_qualified: false,
    }
}

/// The two profiles. The first item is `CNIP` on one machine and `CINP` on the
/// other.
pub open spec fn profile_of(m: Machine) -> PlatformProfile {
    match m {
        Machine::T8103 => PlatformProfile {
            machine: m,
            shmem_capacity: 0x3_0000,
            shmem_first_item: (0x43, 0x4e, 0x49, 0x50),
            bootstrap: Bootstrap::Boot,
            identity: IdentitySource::Chosen,
            sensor: sensor_on(0x2_3510_8000, SpiMode::Mode1),
            dart_range_required: false,
            keybag_create: KeybagCreate { variant: 0, bag_type: 0x2_0000, arg: 0 },
        },
        Machine::T6020 => PlatformProfile {
            machine: m,
            shmem_capacity: 0x4_0000,
            shmem_first_item: (0x43, 0x49, 0x4e, 0x50),
            bootstrap: Bootstrap::WarmRegister,
            identity: IdentitySource::HostPersisted,
            sensor: sensor_on(0x3_9b10_8000, SpiMode::Mode2),
            dart_range_required: true,
            keybag_create: KeybagCreate { variant: 5, bag_type: 0, arg: (-1int) as i32 },
        },
    }
}

fn sensor_profile(base: u64, mode: SpiMode) -> (s: SensorProfile)
    ensures
        s == sensor_on(base, mode),
{
    SensorProfile {
        controller_base: base,
        chip_select: 0,
        max_hz: 8_000_000,
        cs_setup_ns: 20,
        cs_hold_ns: 20,
        mode,
        expected_id: 0x3352,
        capture_qualified: false,
    }
}

/// The profile of a machine.
pub fn profile(m: Machine) -> (p: PlatformProfile)
    ensures
        p == profile_of(m),
{
    match m {
        Machine::T8103 => PlatformProfile {
            machine: m,
            shmem_capacity: 0x3_0000,
            shmem_first_item: (0x43, 0x4e, 0x49, 0x50),
            bootstrap: Bootstrap::Boot,
            identity: IdentitySource::Chosen,
            sensor: sensor_profile(0x2_3510_8000, SpiMode::Mode1),
            dart_range_required: false,
            keybag_create: KeybagCreate { variant: 0, bag_type: 0x2_0000, arg: 0 },
        },
        Machine::T6020 => PlatformProfile {
            machine: m,
            shmem_capacity: 0x4_0000,
            shmem_first_item: (0x43, 0x49, 0x4e, 0x50),
            bootstrap: Bootstrap::WarmRegister,
            identity: IdentitySource::HostPersisted,
            sensor: sensor_profile(0x3_9b10_8000, SpiMode::Mode2),
            dart_range_required: true,
            keybag_create: KeybagCreate { variant: 5, bag_type: 0, arg: -1 },
        },
    }
}

/// Whether an entry of a zero-separated list starts at `i`.
pub open spec fn starts_entry(list: Seq<u8>, i: int) -> bool {
    0 <= i < list.len() && (i == 0 || list[i - 1] == 0)
}

/// Whether the bytes from `i` up to the next zero, or up to the end, are `c`.
pub open spec fn entry_is(list: Seq<u8>, i: int, c: Seq<u8>) -> bool {
    &&& i + c.len() <= list.len()
    &&& forall|k: int| 0 <= k < c.len() ==> c[k] != 0 && #[trigger] list[i + k] == c[k]
    &&& i + c.len() == list.len() || list[i + c.len()] == 0
}

/// Whether a zero-separated list has the whole entry `c`.
pub open spec fn declares(list: Seq<u8>, c: Seq<u8>) -> bool {
    exists|i: int| #[trigger] starts_entry(list, i) && entry_is(list, i, c)
}

/// The end of the entry that starts at `at`: the next zero, or the end.
fn entry_end(list: &[u8], at: usize) -> (end: usize)
    requires
        at < list.len(),
    ensures
        at <= end <= list.len(),
        forall|k: int| at <= k < end ==> list@[k] != 0,
        end == list.len() || list@[end as int] == 0,
{
    let mut end: usize = at;
    while end < list.len() && list[end] != 0
        invariant
            at <= end <= list.len(),
            forall|k: int| at <= k < end ==> list@[k] != 0,
        decreases list.len() - end,
    {
        end = end + 1;
    }
    end
}

/// Whether a zero-separated list has the whole entry `compatible`.
fn list_has(list: &[u8], compatible: &[u8]) -> (r: bool)
    ensures
        r == declares(list@, compatible@),
{
    let mut at: usize = 0;
    while at < list.len()
        invariant
            at <= list.len(),
            at == 0 || list@[at - 1] == 0,
            forall|i: int|
                i < at && #[trigger] starts_entry(list@, i) ==> !entry_is(list@, i, compatible@),
        ensures
            !declares(list@, compatible@),
        decreases list.len() - at,
    {
        let end = entry_end(list, at);
        let name = copy_range(list, at, end);
        if same(&name, compatible) {
            proof {
                assert(starts_entry(list@, at as int));
                assert forall|k: int| 0 <= k < compatible@.len() implies compatible@[k] != 0
                    && #[trigger] list@[at + k] == compatible@[k] by {
                    assert(name@[k] == list@[at + k]);
                }
                assert(entry_is(list@, at as int, compatible@));
            }
            return true;
        }
        proof {
            assert forall|i: int|
                i < end + 1 && #[trigger] starts_entry(list@, i) implies !entry_is(
                list@,
                i,
                compatible@,
            ) by {
                if i == at {
                    if entry_is(list@, i, compatible@) {
                        let n = compatible@.len();
                        if at + n < end {
                            assert(list@[at + n] != 0);
                        }
                        if at + n > end {
                            assert(list@[at + (end - at)] == compatible@[end - at]);
                        }
                        assert(name@ =~= compatible@) by {
                            assert forall|k: int| 0 <= k < n implies name@[k] == compatible@[k] by {
                                assert(list@[at + k] == compatible@[k]);
                            }
                        }
                    }
                } else if i > at {
                    assert(list@[i - 1] != 0);
                }
            }
        }
        if end == list.len() {
            break;
        }
        at = end + 1;
    }
    false
}

/// Whether the machine, whose zero-separated list of names is `list`, declares
/// `compatible`. Whole entries are compared, so that no name matches a longer
/// one.
pub fn machine_has(list: Option<&[u8]>, compatible: &[u8]) -> (r: bool)
    ensures
        r == (list is Some && declares(list->0@, compatible@)),
{
    match list {
        None => false,
        Some(l) => list_has(l, compatible),
    }
}

/// `apple,t8103`.
pub open spec fn name_t8103() -> Seq<u8> {
    seq![0x61u8, 0x70, 0x70, 0x6c, 0x65, 0x2c, 0x74, 0x38, 0x31, 0x30, 0x33]
}

/// `apple,t6020`.
pub open spec fn name_t6020() -> Seq<u8> {
    seq![0x61u8, 0x70, 0x70, 0x6c, 0x65, 0x2c, 0x74, 0x36, 0x30, 0x32, 0x30]
}

/// The profile of the machine that has this list of names.
pub open spec fn detected(list: Option<Seq<u8>>) -> Result<PlatformProfile, Errno> {
    match list {
        Some(names) => if declares(names, name_t8103()) {
            Ok(profile_of(Machine::T8103))
        } else if declares(names, name_t6020()) {
            Ok(profile_of(Machine::T6020))
        } else {
            Err(Errno::ENODEV)
        },
        None => Err(Errno::ENODEV),
    }
}

/// The profile of the running machine. An unsupported one is refused, not
/// guessed at.
pub fn detect(list: Option<&[u8]>) -> (r: Result<PlatformProfile, Errno>)
    ensures
        r == detected(
            match list {
                Some(names) => Some(names@),
                None => None,
            },
        ),
{
    let a: [u8; 11] = [0x61, 0x70, 0x70, 0x6c, 0x65, 0x2c, 0x74, 0x38, 0x31, 0x30, 0x33];
    let b: [u8; 11] = [0x61, 0x70, 0x70, 0x6c, 0x65, 0x2c, 0x74, 0x36, 0x30, 0x32, 0x30];
    assert(a@ =~= name_t8103());
    assert(b@ =~= name_t6020());
    if machine_has(list, a.as_slice()) {
        return Ok(profile(Machine::T8103));
    }
    if machine_has(list, b.as_slice()) {
        return Ok(profile(Machine::T6020));
    }
    Err(Errno::ENODEV)
}

/// What the first machine is like.
pub proof fn first_machine()
    ensures
        ({
            let p = profile_of(Machine::T8103);
            &&& p.machine == Machine::T8103
            &&& p.shmem_capacity == 0x3_0000
            &&& p.shmem_first_item == (0x43u8, 0x4eu8, 0x49u8, 0x50u8)
            &&& p.bootstrap == Bootstrap::Boot
            &&& p.identity == IdentitySource::Chosen
            &&& p.sensor.controller_base == 0x2_3510_8000
            &&& p.sensor.mode == SpiMode::Mode1
            &&& !p.dart_range_required
            &&& p.keybag_create.variant == 0
            &&& p.keybag_create.bag_type == 0x2_0000
            &&& p.keybag_create.arg == 0
        }),
{
}

/// What the second machine is like.
pub proof fn second_machine()
    ensures
        ({
            let p = profile_of(Machine::T6020);
            &&& p.machine == Machine::T6020
            &&& p.shmem_capacity == 0x4_0000
            &&& p.shmem_first_item == (0x43u8, 0x49u8, 0x4eu8, 0x50u8)
            &&& p.bootstrap == Bootstrap::WarmRegister
            &&& p.identity == IdentitySource::HostPersisted
            &&& p.sensor.controller_base == 0x3_9b10_8000
            &&& p.sensor.mode == SpiMode::Mode2
            &&& p.dart_range_required
            &&& p.keybag_create.variant == 5
            &&& p.keybag_create.bag_type == 0
            &&& p.keybag_create.arg == -1
        }),
{
}

/// What the sensor is like on either machine: chip select 0, 8 MHz, twenty nanoseconds
/// before and behind, the number 0x3352, and no images over this transport.
pub proof fn sensor_on_either_machine(m: Machine)
    ensures
        ({
            let s = profile_of(m).sensor;
            &&& s.chip_select == 0
            &&& s.max_hz == 8_000_000
            &&& s.cs_setup_ns == 20
            &&& s.cs_hold_ns == 20
            &&& s.expected_id == 0x3352
            &&& !s.capture_qualified
        }),
{
}

/// A machine declares a name that stands alone, in front of others or behind them, and
/// none that is only the start of one it declares.
pub proof fn whole_names_are_declared(c: Seq<u8>, other: Seq<u8>, x: u8)
    requires
        c.len() > 0,
        forall|k: int| 0 <= k < c.len() ==> c[k] != 0,
        x != 0,
    ensures
        declares(c, c),
        declares(c + seq![0u8], c),
        declares(c + seq![0u8] + other, c),
        declares(other + seq![0u8] + c, c),
        !declares(Seq::empty(), c),
        !declares(c.push(x), c),
{
    let alone = c + seq![0u8];
    let front = c + seq![0u8] + other;
    let behind = other + seq![0u8] + c;
    assert(starts_entry(c, 0) && entry_is(c, 0, c));
    assert(starts_entry(alone, 0) && entry_is(alone, 0, c));
    assert(starts_entry(front, 0) && entry_is(front, 0, c));
    let at = other.len() + 1;
    assert(behind[at - 1] == 0);
    assert forall|k: int| 0 <= k < c.len() implies c[k] != 0 && #[trigger] behind[at + k] == c[k] by {
    }
    assert(starts_entry(behind, at as int) && entry_is(behind, at as int, c));
    let longer = c.push(x);
    assert forall|i: int| #[trigger] starts_entry(longer, i) implies !entry_is(longer, i, c) by {
        if i > 0 {
            assert(longer[i - 1] == c[i - 1]);
        }
    }
}

/// The machine is known by its names: the first machine before the second, and no other.
pub proof fn machines_are_detected(names: Seq<u8>)
    ensures
        detected(None) == Err::<PlatformProfile, Errno>(Errno::ENODEV),
        declares(
            names,
            seq![0x61u8, 0x70, 0x70, 0x6c, 0x65, 0x2c, 0x74, 0x38, 0x31, 0x30, 0x33],
        ) ==> detected(Some(names)) == Ok::<PlatformProfile, Errno>(profile_of(Machine::T8103)),
        declares(
            names,
            seq![0x61u8, 0x70, 0x70, 0x6c, 0x65, 0x2c, 0x74, 0x36, 0x30, 0x32, 0x30],
        ) && !declares(
            names,
            seq![0x61u8, 0x70, 0x70, 0x6c, 0x65, 0x2c, 0x74, 0x38, 0x31, 0x30, 0x33],
        ) ==> detected(Some(names)) == Ok::<PlatformProfile, Errno>(profile_of(Machine::T6020)),
        detected(Some(Seq::empty())) == Err::<PlatformProfile, Errno>(Errno::ENODEV),
{
}

} // verus!
