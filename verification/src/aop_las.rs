//! The lid's angle sensor: the angle in its reports.

use vstd::prelude::*;

use crate::aop_sensors::MessageProcessor;

verus! {

/// Finds the angle in a report: its second byte, in degrees.
pub struct MsgProc;

impl MessageProcessor for MsgProc {
    open spec fn reading(&self, message: Seq<u8>) -> Option<u64> {
        if message.len() > 1 {
            Some((message[1] * 1_000_000) as u64)
        } else {
            None
        }
    }

    fn process(&self, message: &[u8]) -> (r: Option<u64>) {
        if message.len() > 1 {
            Some(message[1] as u64 * 1_000_000)
        } else {
            None
        }
    }
}

/// The angle is the second byte of a report, whatever stands around it, in degrees; a
/// degree is a million of what readings are counted in. A report of one byte has none.
pub proof fn angle_is_the_second_byte(first: u8, angle: u8, rest: Seq<u8>)
    ensures
        MsgProc.reading(seq![first, angle] + rest) == Some((angle as int * 1_000_000) as u64),
        MsgProc.reading(seq![first]) is None,
        MsgProc.reading(Seq::empty()) is None,
{
    assert((seq![first, angle] + rest)[1] == angle);
}

} // verus!
