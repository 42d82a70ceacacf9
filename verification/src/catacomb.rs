//! The files in which the enclave's identity blobs are kept.
//!
//! The blob is opaque. Its file is a header with the blob's length and check,
//! and the blob.

use crate::bytes::{
    group_le, put_bytes, put_u16, put_u32, read_u16, read_u32, u16_at, u16_le, u32_at, u32_le,
};
use crate::crc::{crc16_ccitt, crc16_ccitt_false};
use crate::errno::Errno;
use vstd::prelude::*;

verus! {

pub const PRIVATE_TYPE_CATACOMB_MASTER: u8 = 0xF2;

pub const PRIVATE_TYPE_CATACOMB_OWNER: u8 = 0xF3;

pub const PRIVATE_TYPE_CATACOMB_USER: u8 = 0xF4;

pub const HEADER: usize = 16;

pub const MAX_CATACOMB: usize = 0x10_0000;

/// The first eight bytes of a file.
pub open spec fn magic() -> Seq<u8> {
    seq![0x53u8, 0x45, 0x50, 0x43, 0x54, 0x4d, 0x42, 0x31]
}

pub open spec fn kind_is_file(kind: u8) -> bool {
    kind == PRIVATE_TYPE_CATACOMB_MASTER || kind == PRIVATE_TYPE_CATACOMB_OWNER || kind
        == PRIVATE_TYPE_CATACOMB_USER
}

/// Where the file of a kind is kept.
pub open spec fn path_of(kind: u8) -> Option<&'static str> {
    if kind == PRIVATE_TYPE_CATACOMB_MASTER {
        Some("/var/lib/apple-sep-catacomb-master.bin")
    } else if kind == PRIVATE_TYPE_CATACOMB_OWNER {
        Some("/var/lib/apple-sep-catacomb-owner.bin")
    } else if kind == PRIVATE_TYPE_CATACOMB_USER {
        Some("/var/lib/apple-sep-catacomb-user.bin")
    } else {
        None
    }
}

/// The file of a kind.
pub fn path_for(kind: u8) -> (r: Option<&'static str>)
    ensures
        r == path_of(kind),
{
    if kind == PRIVATE_TYPE_CATACOMB_MASTER {
        Some("/var/lib/apple-sep-catacomb-master.bin")
    } else if kind == PRIVATE_TYPE_CATACOMB_OWNER {
        Some("/var/lib/apple-sep-catacomb-owner.bin")
    } else if kind == PRIVATE_TYPE_CATACOMB_USER {
        Some("/var/lib/apple-sep-catacomb-user.bin")
    } else {
        None
    }
}

pub fn is_kind(kind: u8) -> (r: bool)
    ensures
        r == kind_is_file(kind),
{
    kind == PRIVATE_TYPE_CATACOMB_MASTER || kind == PRIVATE_TYPE_CATACOMB_OWNER || kind
        == PRIVATE_TYPE_CATACOMB_USER
}

/// The bytes of the file for a blob: magic, length, check, two zero bytes, and
/// the blob.
pub open spec fn file_of(blob: Seq<u8>) -> Seq<u8> {
    magic() + u32_le(blob.len() as int) + u16_le(crc16_ccitt(blob) as int) + seq![0u8, 0u8] + blob
}

/// The file's bytes for a blob of a kind.
pub fn write(kind: u8, blob: &[u8]) -> (r: Result<Vec<u8>, Errno>)
    ensures
        match r {
            Ok(bytes) => kind_is_file(kind) && blob.len() <= MAX_CATACOMB && bytes@ == file_of(
                blob@,
            ),
            Err(e) => if !kind_is_file(kind) {
                e == Errno::EINVAL
            } else {
                blob.len() > MAX_CATACOMB && e == Errno::ENOSPC
            },
        },
{
    broadcast use group_le;

    if !is_kind(kind) {
        return Err(Errno::EINVAL);
    }
    if blob.len() > MAX_CATACOMB {
        return Err(Errno::ENOSPC);
    }
    let mut out: Vec<u8> = vec![0x53u8, 0x45, 0x50, 0x43, 0x54, 0x4d, 0x42, 0x31];
    assert(out@ =~= magic());
    put_u32(&mut out, blob.len() as u32);
    put_u16(&mut out, crc16_ccitt_false(blob));
    out.push(0);
    out.push(0);
    put_bytes(&mut out, blob);
    assert(out@ =~= file_of(blob@));
    Ok(out)
}

/// The blob in a file, if the file is whole: the magic, a length that agrees
/// with the file's, and a check that agrees with the blob.
pub open spec fn blob_of(file: Seq<u8>) -> Option<Seq<u8>> {
    if file.len() < HEADER || file.subrange(0, 8) != magic() {
        None
    } else {
        let len = u32_at(file, 8);
        let blob = file.subrange(16, 16 + len);
        if len == 0 || len > MAX_CATACOMB || file.len() != HEADER + len || crc16_ccitt(blob)
            != u16_at(file, 12) {
            None
        } else {
            Some(blob)
        }
    }
}

fn has_magic(file: &[u8]) -> (r: bool)
    requires
        file.len() >= 8,
    ensures
        r == (file@.subrange(0, 8) == magic()),
{
    let r = file[0] == 0x53 && file[1] == 0x45 && file[2] == 0x50 && file[3] == 0x43 && file[4]
        == 0x54 && file[5] == 0x4d && file[6] == 0x42 && file[7] == 0x31;
    proof {
        let s = file@.subrange(0, 8);
        if r {
            assert(s =~= magic());
        } else if s == magic() {
            assert(s[0] == 0x53 && s[1] == 0x45 && s[2] == 0x50 && s[3] == 0x43 && s[4] == 0x54
                && s[5] == 0x4d && s[6] == 0x42 && s[7] == 0x31);
        }
    }
    r
}

/// Reads the blob of a kind out of its file.
pub fn read(kind: u8, file: &[u8]) -> (r: Option<Vec<u8>>)
    ensures
        match r {
            Some(b) => kind_is_file(kind) && blob_of(file@) == Some(b@),
            None => !kind_is_file(kind) || blob_of(file@) is None,
        },
{
    if !is_kind(kind) || file.len() < HEADER {
        return None;
    }
    if !has_magic(file) {
        return None;
    }
    let len: usize = read_u32(file, 8) as usize;
    let crc: u16 = read_u16(file, 12);
    if len == 0 || len > MAX_CATACOMB || file.len() != HEADER + len {
        return None;
    }
    let blob = vstd::slice::slice_subrange(file, HEADER, HEADER + len);
    if crc16_ccitt_false(blob) != crc {
        return None;
    }
    Some(crate::bytes::copy_of(blob))
}

/// A blob that is written is read back.
pub proof fn read_gives_back_write(blob: Seq<u8>)
    requires
        0 < blob.len() <= MAX_CATACOMB,
    ensures
        blob_of(file_of(blob)) == Some(blob),
{
    broadcast use group_le;

    let f = file_of(blob);
    assert(f.subrange(0, 8) =~= magic());
    assert(f.subrange(8, 12) =~= u32_le(blob.len() as int));
    crate::bytes::u32_at_subrange(f, 8, 12, 0);
    assert(f.subrange(12, 14) =~= u16_le(crc16_ccitt(blob) as int));
    assert(u16_at(f.subrange(12, 14), 0) == u16_at(f, 12));
    assert(f.subrange(16, 16 + blob.len() as int) =~= blob);
}

/// Where a blob stands in its file: eight bytes that say what the file is, the
/// blob's length, the check, two zeros, and the blob.
pub proof fn file_is_laid_out(blob: Seq<u8>)
    requires
        blob.len() <= MAX_CATACOMB,
    ensures
        file_of(blob).len() == 16 + blob.len(),
        file_of(blob).subrange(0, 8) == seq![0x53u8, 0x45, 0x50, 0x43, 0x54, 0x4d, 0x42, 0x31],
        u32_at(file_of(blob), 8) == blob.len(),
        u16_at(file_of(blob), 12) == crc16_ccitt(blob),
        file_of(blob)[14] == 0,
        file_of(blob)[15] == 0,
        file_of(blob).subrange(16, 16 + blob.len() as int) == blob,
{
    broadcast use group_le;

    let f = file_of(blob);
    assert(f.subrange(0, 8) =~= magic());
    assert(f.subrange(8, 12) =~= u32_le(blob.len() as int));
    assert(f.subrange(12, 14) =~= u16_le(crc16_ccitt(blob) as int));
    crate::bytes::u32_reads_back(f, 8, blob.len() as int);
    crate::bytes::u16_reads_back(f, 12, crc16_ccitt(blob) as int);
    assert(f.subrange(16, 16 + blob.len() as int) =~= blob);
}

/// There are three kinds of files.
pub proof fn kinds_of_files(kind: u8)
    ensures
        kind_is_file(kind) <==> 0xf2 <= kind <= 0xf4,
{
}

/// Three kinds have a file of their own.
pub proof fn files_have_their_places(kind: u8)
    ensures
        path_of(0xf2) == Some("/var/lib/apple-sep-catacomb-master.bin"),
        path_of(0xf3) == Some("/var/lib/apple-sep-catacomb-owner.bin"),
        path_of(0xf4) == Some("/var/lib/apple-sep-catacomb-user.bin"),
        kind != 0xf2 && kind != 0xf3 && kind != 0xf4 ==> path_of(kind) is None,
{
}

} // verus!
