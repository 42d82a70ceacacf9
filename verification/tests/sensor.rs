//! What goes to the fingerprint sensor, and what comes back.

use apple_sep::crc::crc16_ansi;
use apple_sep::errno::Errno;
use apple_sep::sensor;
use apple_sep::sensor::{
    CaptureError, CsTiming, Geometry, Identifier, Offset12, Params, ParamsError, Poll, PollStep,
    PowerSource, Status,
};

fn sealed(mut body: Vec<u8>) -> Vec<u8> {
    let crc = crc16_ansi(&body);
    body.extend_from_slice(&crc.to_le_bytes());
    body
}

fn status(state: u8, at12: u32) -> Status {
    let mut raw = [0u8; 16];
    raw[7] = state;
    raw[12..16].copy_from_slice(&at12.to_le_bytes());
    Status::from_raw(&raw)
}

#[test]
fn check_of_the_known_digits() {
    assert_eq!(crc16_ansi(b"123456789"), 0xbb3d);
}

#[test]
fn commands_carry_operation_and_length() {
    assert_eq!(sensor::idle(), [0x80, 0x30, 0, 7, 0, 0, 0]);
    assert_eq!(sensor::start_capture(), [0x80, 0x40, 0, 7, 0, 0, 0]);
    assert_eq!(sensor::setup_patch_enable(), [0x80, 0x60, 0, 7, 0, 0, 0]);
    assert_eq!(sensor::get_sensor_serial(), [0x80, 0x70, 0, 7, 0, 0, 0]);
    let s = sensor::get_status();
    assert_eq!(s.len(), 23);
    assert_eq!(s[..7], [0x80, 0x10, 0, 7, 0, 0, 0]);
    assert!(s[7..].iter().all(|b| *b == 0xff));
    assert_eq!(sensor::read_reply_ready(0x1b), Ok(vec![0x80, 0x13, 0, 11, 0, 0, 0, 0x1b, 0, 0, 0]));
    assert_eq!(sensor::read_reply_ready(0x4f).is_ok(), true);
    assert_eq!(sensor::read_reply_ready(0x50), Err(Errno::EINVAL));
}

#[test]
fn frames_carry_their_payload() {
    let f = sensor::frame(0x72, &[1, 2, 3]).unwrap();
    assert_eq!(f, [0x80, 0x72, 0, 10, 0, 0, 0, 1, 2, 3]);
    assert!(sensor::frame(0x72, &[0; 64]).is_ok());
    assert_eq!(sensor::frame(0x72, &[0; 65]), Err(Errno::EINVAL));
    let s = sensor::session_share(&[9; 40]);
    assert_eq!(s.len(), 47);
    assert_eq!(s[..7], [0x80, 0x72, 0, 47, 0, 0, 0]);
    let c = sensor::challenge(&[8; 64]);
    assert_eq!(c.len(), 71);
    assert_eq!(c[..7], [0x80, 0x73, 0, 71, 0, 0, 0]);
}

#[test]
fn encrypted_frame_passes_its_own_check() {
    let g = Geometry::transparent();
    assert_eq!((g.declared(), g.payload_capacity()), (0x4d, 0x44));
    let f = sensor::encrypted_frame(&Params::new(vec![7; 10]), &g).unwrap();
    assert_eq!(f.len(), 0x12b);
    assert_eq!(f[..7], [0x80, 0x55, 0, 0x4d, 0, 0, 0]);
    assert_eq!(f[7..17], [7; 10]);
    assert_eq!(crc16_ansi(&f[..0x4b]).to_le_bytes(), f[0x4b..0x4d]);
    assert!(f[0x4d..].iter().all(|b| *b == 0));
    assert_eq!(Geometry::coverage().declared(), 0x40);
    assert_eq!(Geometry::operation().declared(), 0x40);
    assert_eq!(Geometry::module_challenge().declared(), 0x49);
}

#[test]
fn parameters_have_to_be_there_and_to_fit() {
    let g = Geometry::coverage();
    let none = Params::new(vec![]);
    assert!(none.is_empty());
    assert_eq!(sensor::encrypted_frame(&none, &g), Err(ParamsError::Empty));
    let full = Params::new(vec![1; 0x37]);
    assert!(sensor::encrypted_frame(&full, &g).is_ok());
    let over = Params::new(vec![1; 0x38]);
    assert_eq!(sensor::encrypted_frame(&over, &g), Err(ParamsError::TooLong(0x38, 0x37)));
    assert_eq!(sensor::parameters_sent(Ok(())), Ok(()));
    assert_eq!(
        sensor::parameters_sent(Err(Errno::EIO)),
        Err(ParamsError::Transfer(Errno::EIO))
    );
}

#[test]
fn wiped_parameters_are_zeros() {
    let mut p = Params::new(vec![5; 0x37]);
    p.wipe();
    assert_eq!(p.len(), 0x37);
    let f = sensor::encrypted_frame(&p, &Geometry::coverage()).unwrap();
    assert!(f[7..0x3e].iter().all(|b| *b == 0));
}

#[test]
fn meaning_of_the_status_depends_on_the_state() {
    assert_eq!(status(0, 0x3352).offset12(), Offset12::Identifier(0x3352));
    assert_eq!(status(7, 0x12345).offset12(), Offset12::Available(0x12345));
    assert_eq!(status(9, 0x3352).offset12(), Offset12::Undefined);
    assert_eq!(status(0, 0x3352).identifier_to_register(), Some(Identifier(0x3352)));
    assert_eq!(status(0, 0).identifier_to_register(), None);
    assert_eq!(status(17, 0x3352).identifier_to_register(), None);
    let mut rx = vec![0xee; 23];
    rx[7..].copy_from_slice(&[0; 16]);
    rx[7 + 8] = 0x29;
    let s = Status::decode(&rx);
    assert_eq!(s.patch_ack(), sensor::PATCH_ACCEPTED);
    assert_eq!(s.state(), 0);
    assert!(!s.is_silent());
    assert!(status(0, 0).is_silent());
    assert_eq!(s.raw().len(), 16);
}

#[test]
fn wait_takes_only_the_lengths_it_was_told() {
    let mut p = Poll::until_ready(0x33);
    assert_eq!(p.on_status(Ok(status(7, 0x4b))), PollStep::Sleep(5));
    assert_eq!(p.on_slept(), PollStep::Status);
    assert_eq!(p.on_status(Ok(status(0, 0x33))), PollStep::Sleep(5));
    assert_eq!(p.on_status(Ok(status(7, 0x33))), PollStep::Ready(0x33));
    assert_eq!(p.on_status(Err(Errno::EIO)), PollStep::Failed(Errno::EIO));
    let mut m = Poll::until_module_reply();
    assert_eq!(m.on_status(Ok(status(7, 0x4f))), PollStep::Ready(0x4f));
    assert_eq!(m.on_status(Ok(status(7, 0x4b))), PollStep::Ready(0x4b));
}

#[test]
fn wait_ends_after_the_last_look() {
    let mut p = Poll::until_ready(0x1b);
    for _ in 0..200 {
        assert_eq!(p.on_slept(), PollStep::Status);
        assert_eq!(p.on_status(Ok(status(19, 0))), PollStep::Sleep(5));
    }
    assert_eq!(p.on_slept(), PollStep::Failed(Errno::ETIMEDOUT));
}

#[test]
fn serial_needs_a_sound_reply() {
    let mut body = vec![0; 9];
    body.extend(1..=16u8);
    let reply = sealed(body);
    assert_eq!(reply.len(), sensor::SENSOR_SERIAL_REPLY_LEN);
    let serial = sensor::read_sensor_serial(&reply).ok().unwrap();
    assert_eq!(serial.bytes(), (1..=16u8).collect::<Vec<u8>>());
    let mut torn = reply;
    torn[12] ^= 1;
    assert_eq!(sensor::read_sensor_serial(&torn).err(), Some(Errno::EIO));
    assert_eq!(sensor::framed_verified(&[0; 4], 0, 3), Err(Errno::EINVAL));
    assert_eq!(sensor::framed(&[1, 2, 3, 4], 1, 2), Ok(vec![2, 3]));
    assert_eq!(sensor::framed(&[1, 2, 3, 4], 3, 2), Err(Errno::EINVAL));
}

#[test]
fn replies_give_their_payload() {
    let mut reply: Vec<u8> = (0..0x33).collect();
    assert_eq!(sensor::read_session_reply(&reply), reply[9..49]);
    reply = (0..0x4b).collect();
    assert_eq!(sensor::read_challenge_reply(&reply), reply[9..73]);
    assert_eq!(sensor::read_module_reply(&reply), reply[9..0x49]);
    reply = (0..0x4f).collect();
    assert_eq!(sensor::read_module_reply(&reply), reply[9..0x4d]);
    assert_eq!(sensor::send_patch(&[]), Err(Errno::EINVAL));
    assert_eq!(sensor::send_patch(&[3]), Ok(&[3u8][..]));
}

#[test]
fn captures_are_checked() {
    for bad in [0, 2, 0x10001] {
        assert_eq!(sensor::capture_command(bad), Err(CaptureError::Length(bad)));
    }
    assert_eq!(
        sensor::capture_command(0x1234),
        Ok(vec![0x80, 0x13, 0, 11, 0, 0, 0, 0x34, 0x12, 0, 0])
    );
    let image = sealed(vec![1, 2, 3]);
    let mut c = sensor::read_capture(5, Ok(image.clone())).ok().unwrap();
    assert_eq!(c.bytes(), image);
    c.wipe();
    assert_eq!(c.bytes(), [0; 5]);
    assert_eq!(
        sensor::read_capture(5, Err(Errno::EIO)).err(),
        Some(CaptureError::Bus(Errno::EIO))
    );
    let computed = crc16_ansi(&[1, 2, 3]);
    assert_eq!(
        sensor::read_capture(5, Ok(vec![1, 2, 3, 0, 0])).err(),
        Some(CaptureError::Checksum { advertised: 0, computed })
    );
}

#[test]
fn settings_are_read() {
    assert_eq!(CsTiming::from_wire(2), CsTiming::Hardware);
    assert!(CsTiming::from_wire(2).is_hardware());
    assert_eq!(CsTiming::from_wire(1), CsTiming::HookBypassed);
    assert_eq!(CsTiming::from_wire(-3), CsTiming::Software);
    assert_eq!(PowerSource::from_wire(1), PowerSource::NodeProperty);
    assert_eq!(PowerSource::from_wire(2), PowerSource::ChipLine);
    assert_eq!(PowerSource::from_wire(0), PowerSource::Absent);
    assert_eq!(sensor::power_line(-1), None);
    assert_eq!(sensor::power_line(0), Some(0));
}
