//! The machine: its profile, its description, the shared table and the file
//! behind the store.

use apple_sep::dt;
use apple_sep::dt::{
    Ask, Change, DartState, EnableSep, Event, SensorNode, SensorPlan, SensorProp,
};
use apple_sep::errno::Errno;
use apple_sep::profile;
use apple_sep::profile::{Bootstrap, IdentitySource, Machine, SpiMode};
use apple_sep::shmem;
use apple_sep::shmem::Region;
use apple_sep::store_file;
use apple_sep::store_file::Exact;
use apple_sep::uuid::Uuid;

#[test]
fn machines_are_told_by_whole_names() {
    let list = b"apple,j414s\0apple,t6020\0apple,arm-platform\0";
    assert!(profile::machine_has(Some(&list[..]), b"apple,t6020"));
    assert!(profile::machine_has(Some(&list[..]), b"apple,arm-platform"));
    assert!(!profile::machine_has(Some(&list[..]), b"apple,t60"));
    assert!(!profile::machine_has(Some(&b"apple,t6020x\0"[..]), b"apple,t6020"));
    assert!(profile::machine_has(Some(&b"apple,t6020"[..]), b"apple,t6020"));
    assert!(!profile::machine_has(None, b"apple,t6020"));
    assert_eq!(profile::detect(Some(&list[..])).unwrap().machine, Machine::T6020);
    assert_eq!(
        profile::detect(Some(&b"apple,j313\0apple,t8103\0"[..])).unwrap().machine,
        Machine::T8103
    );
    assert!(matches!(profile::detect(Some(&b"apple,t8112\0"[..])), Err(Errno::ENODEV)));
    assert!(matches!(profile::detect(None), Err(Errno::ENODEV)));
}

#[test]
fn profiles_state_the_machines() {
    let air = profile::profile(Machine::T8103);
    assert_eq!(air.machine.name(), "T8103/J313");
    assert_eq!(air.first_item(), *b"CNIP");
    assert_eq!(air.shmem_capacity, 0x30000);
    assert_eq!((air.bootstrap, air.identity), (Bootstrap::Boot, IdentitySource::Chosen));
    assert_eq!(air.sensor.controller_base, 0x2_3510_8000);
    assert_eq!(air.sensor.mode.wire(), 1);
    assert_eq!(air.sensor.mode.name(), "mode 1 (CPOL=0 CPHA=1)");
    assert!(!air.dart_range_required);
    assert_eq!(
        (air.keybag_create.variant, air.keybag_create.bag_type, air.keybag_create.arg),
        (0, 0x20000, 0)
    );
    let pro = profile::profile(Machine::T6020);
    assert_eq!(pro.machine.name(), "T6020/J414s");
    assert_eq!(pro.first_item(), *b"CINP");
    assert_eq!(pro.shmem_capacity, 0x40000);
    assert_eq!(
        (pro.bootstrap, pro.identity),
        (Bootstrap::WarmRegister, IdentitySource::HostPersisted)
    );
    assert_eq!(pro.sensor.mode, SpiMode::Mode2);
    assert_eq!(pro.sensor.mode.wire(), 2);
    assert_eq!(pro.sensor.expected_id, air.sensor.expected_id);
    assert_eq!(pro.firmware_region(), "sepfw");
    assert_eq!(
        (pro.keybag_create.variant, pro.keybag_create.bag_type, pro.keybag_create.arg),
        (5, 0, -1)
    );
}

fn u32_at(b: &[u8], at: usize) -> usize {
    u32::from_le_bytes([b[at], b[at + 1], b[at + 2], b[at + 3]]) as usize
}

#[test]
fn the_table_leads_to_the_items() {
    let opla = vec![0xaa; 0x3ffd];
    let ipis = vec![0xbb; 10];
    let buf = shmem::build(&opla, &ipis, 0x30000, b"CINP").unwrap();
    assert_eq!(buf.len(), 0x30000);
    let names: Vec<&[u8]> = (0..4).map(|i| &buf[16 * i..16 * i + 4]).collect();
    assert_eq!(names, [&b"CINP"[..], b"OPLA", b"IPIS", b"llun"]);
    let places: Vec<(usize, usize)> =
        (0..4).map(|i| (u32_at(&buf, 16 * i + 4), u32_at(&buf, 16 * i + 8))).collect();
    assert_eq!(places, [(0x8000, 0x4000), (0x8000, 0xc000), (0x4000, 0x14000), (0, 0)]);
    assert_eq!((u32_at(&buf, 0x4000), buf[0x4004]), (1, 0));
    assert_eq!(u32_at(&buf, 0xc000), 0x3ffd);
    assert_eq!(buf[0xc004..0xc004 + 0x3ffd], opla[..]);
    assert_eq!(u32_at(&buf, 0x14000), 10);
    assert_eq!(buf[0x14004..0x1400e], ipis[..]);
    assert!(buf[64..0x4000].iter().all(|b| *b == 0));
    assert!(buf[0x1400e..].iter().all(|b| *b == 0));
}

#[test]
fn a_table_that_does_not_fit_is_refused() {
    assert_eq!(shmem::build(&[1], &[2], 0x13fff, b"CINP"), Err(Errno::EINVAL));
    assert!(shmem::build(&[1], &[2], 0x14000, b"CINP").is_ok());
    let r = Region::place(0x4000, 1, 0x8000);
    assert_eq!((r.size, r.end()), (0x8000, 0xc000));
    let odd = Region { offset: 0x4000, size: 0x8001, payload_len: 1 };
    assert_eq!(shmem::verify_layout(&odd, &r, &r, 0xc000, 0x40000), Err(Errno::EINVAL));
    assert_eq!(shmem::verify_layout(&r, &r, &r, 0xc000, 0x40000), Err(Errno::EINVAL));
    let o = Region::place(0xc000, 1, 0);
    let i = Region::place(0x10000, 1, 0);
    assert_eq!(shmem::verify_layout(&r, &o, &i, 0x14000, 0x40000), Ok(()));
}

#[test]
fn manifests_have_to_be_there() {
    assert_eq!(shmem::manifest_len(false, Ok(4)), Err(Errno::EIO));
    assert_eq!(shmem::manifest_len(true, Err(Errno::EINVAL)), Err(Errno::EINVAL));
    assert_eq!(shmem::manifest_len(true, Ok(0)), Err(Errno::ENODATA));
    assert_eq!(shmem::manifest_len(true, Ok(4)), Ok(4));
}

#[test]
fn the_translator_gets_its_properties_first() {
    let bare = DartState { available: false, has_offset: false, has_range: false };
    assert_eq!(
        dt::plan_dart(true, Some(bare)).unwrap(),
        [Change::DmaOffset, Change::DmaRange, Change::StatusOkay]
    );
    let done = DartState { available: true, has_offset: true, has_range: true };
    assert!(dt::plan_dart(true, Some(done)).unwrap().is_empty());
    let late = DartState { available: true, has_offset: true, has_range: false };
    assert_eq!(dt::plan_dart(true, Some(late)), Err(Errno::EBUSY));
    assert_eq!(dt::plan_dart(false, Some(bare)), Err(Errno::ENODEV));
    assert_eq!(dt::plan_dart(true, None), Err(Errno::ENODEV));
    assert_eq!(dt::dma_offset_cells(), (0x100, 0));
    assert_eq!(dt::dma_range_cells(), ((0, 0), (1, 0)));
    assert_eq!(dt::registration_cells(0x12_3456_789a), (0x12, 0x3456_789a));
}

#[test]
fn the_enclave_is_enabled_last() {
    let mut m = EnableSep::start();
    assert_eq!(m.step(Event::DartChanged(Ok(()))), Ask::LookAtSep);
    assert_eq!(m.step(Event::SepAvailable(false)), Ask::EnableSep);
    assert_eq!(m.step(Event::SepChanged(Ok(()))), Ask::Done);
    let mut failed = EnableSep::start();
    assert_eq!(failed.step(Event::DartChanged(Err(Errno::EBUSY))), Ask::Failed(Errno::EBUSY));
    let mut there = EnableSep::start();
    there.step(Event::DartChanged(Ok(())));
    assert_eq!(there.step(Event::SepAvailable(true)), Ask::Done);
    let mut late = EnableSep::start();
    late.step(Event::DartChanged(Ok(())));
    late.step(Event::SepAvailable(false));
    assert_eq!(late.step(Event::SepChanged(Err(Errno::ENOMEM))), Ask::Failed(Errno::ENOMEM));
}

#[test]
fn nodes_are_found_by_place() {
    let bases = vec![None, Some(4), Some(9), Some(4)];
    assert_eq!(dt::node_at_address(&bases, 4), Some(1));
    assert_eq!(dt::node_at_address(&bases, 5), None);
    assert_eq!(dt::child_with_reg(&vec![Some(1), None, Some(0)], 0), Some(2));
    assert_eq!(dt::child_with_reg(&vec![], 0), None);
    assert_eq!(dt::enable_spi_sensor(None, false), Err(Errno::ENODEV));
    assert_eq!(dt::enable_spi_sensor(Some(true), true), Ok(SensorPlan::Nothing));
    assert_eq!(dt::enable_spi_sensor(Some(false), true), Ok(SensorPlan::EnableBus));
    assert_eq!(dt::enable_spi_sensor(Some(true), false), Ok(SensorPlan::CreateNode));
    assert_eq!(
        dt::enable_spi_sensor(Some(false), false),
        Ok(SensorPlan::EnableBusAndCreateNode)
    );
}

#[test]
fn the_sensor_node_is_described_in_full() {
    assert_eq!(SensorNode::create(false), Err(Errno::ENOMEM));
    let mut n = SensorNode::create(true).unwrap();
    let mut props = Vec::new();
    while let Some(p) = n.next() {
        props.push(p);
        n.added(0).unwrap();
    }
    assert_eq!(
        props,
        [
            SensorProp::Compatible,
            SensorProp::Reg(0),
            SensorProp::MaxFrequency(8_000_000),
            SensorProp::CsSetupDelayNs(20),
            SensorProp::CsHoldDelayNs(20),
            SensorProp::Cpol,
        ]
    );
    let mut refused = SensorNode::create(true).unwrap();
    assert_eq!(refused.added(-12), Err(-12));
    assert_eq!(refused.next(), Some(SensorProp::Compatible));
}

#[test]
fn an_identity_of_zeros_is_none() {
    let u = Uuid { lo: 1, hi: 0 };
    assert_eq!(dt::preboot_uuid(Some(u)), Some(u));
    assert_eq!(dt::preboot_uuid(Some(Uuid::zero())), None);
    assert_eq!(dt::preboot_uuid(None), None);
}

#[test]
fn a_transfer_goes_on_until_all_went_through() {
    let mut m = Exact::start(100, 10);
    assert_eq!(m.next(), Some((100, 10)));
    assert_eq!(m.moved(4), Ok(()));
    assert_eq!(m.next(), Some((104, 6)));
    assert_eq!(m.moved(0), Err(-5));
    assert_eq!(m.moved(-28), Err(-28));
    assert_eq!(m.moved(6), Ok(()));
    assert_eq!(m.next(), None);
    assert_eq!(store_file::block_exact(512, 512), Ok(()));
    assert_eq!(store_file::block_exact(511, 512), Err(-5));
    assert_eq!(store_file::block_exact(-30, 512), Err(-30));
    assert_eq!(store_file::size(-1), Err(Errno::EIO));
    assert_eq!(store_file::size(77), Ok(77));
    assert_eq!(store_file::result_of(-9), Err(-9));
    assert_eq!(store_file::result_of(9), Ok(9));
}
