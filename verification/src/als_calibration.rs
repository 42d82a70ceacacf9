//! The calibration that some machines supply for their light sensor.

use vstd::prelude::*;

use crate::bytes::{group_le, read_u64, u64_at, u64_le, u64_reads_back};
use crate::errno::Errno;

verus! {

pub const PAYLOAD_SIZE: usize = 80;

pub const OPERATION: u64 = 0x0746_b8d6_6515_2e31;

pub const BODY_LENGTH: u64 = 56;

/// Whether a payload has the right size, names the right operation and states
/// the length of its body. What the body holds is the sensor's business.
pub open spec fn is_payload(data: Seq<u8>) -> bool {
    &&& data.len() == 80
    &&& u64_at(data, 0) == 0x0746_b8d6_6515_2e31
    &&& u64_at(data, 8) == 56
}

/// Refuses what is not a payload.
pub fn validate(data: &[u8]) -> (r: Result<(), Errno>)
    ensures
        match r {
            Ok(_) => is_payload(data@),
            Err(e) => !is_payload(data@) && e == Errno::EINVAL,
        },
{
    if data.len() != PAYLOAD_SIZE {
        return Err(Errno::EINVAL);
    }
    if read_u64(data, 0) != OPERATION || read_u64(data, 8) != BODY_LENGTH {
        return Err(Errno::EINVAL);
    }
    Ok(())
}

/// Takes a payload that was loaded, unchanged, or hands on why it could not be.
pub fn load(file: Result<Vec<u8>, Errno>) -> (r: Result<Vec<u8>, Errno>)
    ensures
        r == (match file {
            Err(e) => Err::<Vec<u8>, Errno>(e),
            Ok(data) => if is_payload(data@) {
                Ok(data)
            } else {
                Err(Errno::EINVAL)
            },
        }),
{
    match file {
        Err(e) => Err(e),
        Ok(data) => match validate(&data) {
            Err(e) => Err(e),
            Ok(_) => Ok(data),
        },
    }
}

/// A payload is made of the operation, the length of the body, and 64 bytes: with another
/// operation, another length or another size it is none.
pub proof fn payload_is_laid_out(operation: u64, length: u64, rest: Seq<u8>)
    ensures
        is_payload(u64_le(operation as int) + u64_le(length as int) + rest) <==> operation
            == 0x0746_b8d6_6515_2e31 && length == 56 && rest.len() == 64,
{
    broadcast use group_le;

    let data = u64_le(operation as int) + u64_le(length as int) + rest;
    assert(data.subrange(0, 8) =~= u64_le(operation as int));
    assert(data.subrange(8, 16) =~= u64_le(length as int));
    u64_reads_back(data, 0, operation as int);
    u64_reads_back(data, 8, length as int);
}

} // verus!
