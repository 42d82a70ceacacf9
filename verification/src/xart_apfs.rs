//! A narrow, read-only lookup in the container's file system: where the record
//! store's file stands.
//!
//! Tree shapes, encryption and fragmented files that it does not know, and bad
//! metadata, make it fail. That an extent was found does not authorize writes
//! to it.
//!
//! The lookup follows pointers from block to block. It works on the blocks that
//! have been read so far and stops at the first one that is missing; its caller
//! reads that block and starts the lookup again.

use crate::bytes::{read_u16, read_u32, read_u64, u16_at, u32_at, u64_at};
use crate::errno::Errno;
use vstd::prelude::*;

verus! {

pub const BLOCK: usize = 4096;

pub const XART_ROLE: u16 = 0x100;

pub const FILE_SIZE: u64 = 0x600000;

/// Why the lookup stopped.
#[derive(Clone, Copy, Debug, PartialEq, Eq, Structural)]
pub enum Stop {
    /// It failed.
    Fail(Errno),
    /// It needs this block.
    Need(u64),
}

struct Entry {
    paddr: u64,
    data: Result<Vec<u8>, Errno>,
}

/// The blocks that have been read so far, or could not be read.
pub struct Blocks {
    entries: Vec<Entry>,
}

impl Blocks {
    closed spec fn lookup(&self, paddr: u64, n: int) -> Option<Result<Seq<u8>, Errno>>
        decreases n,
    {
        if n <= 0 {
            None
        } else if self.entries@[n - 1].paddr == paddr {
            match self.entries@[n - 1].data {
                Ok(d) => Some(Ok(d@)),
                Err(e) => Some(Err(e)),
            }
        } else {
            self.lookup(paddr, n - 1)
        }
    }

    /// What is known of a block.
    pub closed spec fn block(&self, paddr: u64) -> Option<Result<Seq<u8>, Errno>> {
        self.lookup(paddr, self.entries.len() as int)
    }

    pub closed spec fn wf(&self) -> bool {
        forall|i: int|
            0 <= i < self.entries.len() && (#[trigger] self.entries@[i]).data is Ok
                ==> self.entries@[i].data->Ok_0.len() == BLOCK
    }

    pub fn new() -> (b: Blocks)
        ensures
            b.wf(),
            forall|p: u64| b.block(p) is None,
    {
        Blocks { entries: Vec::new() }
    }

    /// Adds a block that was read, or the reason why it could not be.
    pub fn add_block(&mut self, paddr: u64, data: Result<Vec<u8>, Errno>)
        requires
            old(self).wf(),
            data is Ok ==> data->Ok_0.len() == BLOCK,
        ensures
            final(self).wf(),
            final(self).block(paddr) == Some(
                match data {
                    Ok(d) => Ok(d@),
                    Err(e) => Err(e),
                },
            ),
            forall|p: u64| p != paddr ==> final(self).block(p) == old(self).block(p),
    {
        let ghost n = self.entries.len() as int;
        self.entries.push(Entry { paddr, data });
        proof {
            assert forall|p: u64| p != paddr implies self.block(p) == old(self).block(p) by {
                lookup_prefix(*old(self), *self, p, n);
            }
        }
    }

    /// The block's bytes.
    fn get(&self, paddr: u64) -> (r: Result<&Vec<u8>, Stop>)
        requires
            self.wf(),
        ensures
            match r {
                Ok(d) => self.block(paddr) == Some(Ok::<Seq<u8>, Errno>(d@)) && d.len() == BLOCK,
                Err(Stop::Need(p)) => p == paddr && self.block(paddr) is None,
                Err(Stop::Fail(e)) => self.block(paddr) == Some(Err::<Seq<u8>, Errno>(e)),
            },
    {
        let mut i: usize = self.entries.len();
        while i > 0
            invariant
                i <= self.entries.len(),
                self.wf(),
                self.block(paddr) == self.lookup(paddr, i as int),
            decreases i,
        {
            if self.entries[i - 1].paddr == paddr {
                return match &self.entries[i - 1].data {
                    Ok(d) => Ok(d),
                    Err(e) => Err(Stop::Fail(*e)),
                };
            }
            i = i - 1;
        }
        Err(Stop::Need(paddr))
    }
}

proof fn lookup_prefix(a: Blocks, b: Blocks, p: u64, n: int)
    requires
        0 <= n <= a.entries.len() <= b.entries.len(),
        forall|i: int| 0 <= i < a.entries.len() ==> a.entries@[i] == b.entries@[i],
    ensures
        a.lookup(p, n) == b.lookup(p, n),
    decreases n,
{
    if n > 0 {
        lookup_prefix(a, b, p, n - 1);
    }
}

/// The two running sums after the first `n` words behind the checksum field.
pub open spec fn fletcher(data: Seq<u8>, n: int) -> (int, int)
    decreases n,
{
    if n <= 0 {
        (0, 0)
    } else {
        let (a, b) = fletcher(data, n - 1);
        let s1 = (a + u32_at(data, 8 + 4 * (n - 1))) % 0xffff_ffff;
        (s1, (b + s1) % 0xffff_ffff)
    }
}

/// The file system's checksum of a block.
pub open spec fn block_checksum(data: Seq<u8>) -> int {
    let (s1, s2) = fletcher(data, 1022);
    let c1 = (0xffff_ffff - (s1 + s2) % 0xffff_ffff) % 0xffff_ffff;
    let c2 = (0xffff_ffff - (s1 + c1) % 0xffff_ffff) % 0xffff_ffff;
    0x1_0000_0000 * c2 + c1
}

fn checksum(data: &Vec<u8>) -> (c: u64)
    requires
        data.len() == BLOCK,
    ensures
        c == block_checksum(data@),
{
    let m: u64 = 0xffff_ffff;
    let mut s1: u64 = 0;
    let mut s2: u64 = 0;
    let mut n: usize = 0;
    while n < 1022
        invariant
            n <= 1022,
            data.len() == BLOCK,
            m == 0xffff_ffff,
            s1 < m,
            s2 < m,
            (s1 as int, s2 as int) == fletcher(data@, n as int),
        decreases 1022 - n,
    {
        let value: u64 = read_u32(data, 8 + 4 * n) as u64;
        s1 = (s1 + value) % m;
        s2 = (s2 + s1) % m;
        n = n + 1;
    }
    let c1: u64 = (m - (s1 + s2) % m) % m;
    let c2: u64 = (m - (s1 + c1) % m) % m;
    0x1_0000_0000 * c2 + c1
}

/// The object in a block of a device of `size` bytes: the block has to lie in
/// the device and its checksum has to agree.
pub open spec fn object(b: Blocks, size: u64, paddr: u64) -> Result<Seq<u8>, Stop> {
    if paddr * 4096 + 4096 > size {
        Err(Stop::Fail(Errno::EINVAL))
    } else {
        match b.block(paddr) {
            None => Err(Stop::Need(paddr)),
            Some(Err(e)) => Err(Stop::Fail(e)),
            Some(Ok(d)) => if u64_at(d, 0) != block_checksum(d) {
                Err(Stop::Fail(Errno::EIO))
            } else {
                Ok(d)
            },
        }
    }
}

fn read_object(b: &Blocks, size: u64, paddr: u64) -> (r: Result<&Vec<u8>, Stop>)
    requires
        b.wf(),
    ensures
        match r {
            Ok(d) => object(*b, size, paddr) == Ok::<Seq<u8>, Stop>(d@) && d.len() == BLOCK,
            Err(s) => object(*b, size, paddr) == Err::<Seq<u8>, Stop>(s),
        },
{
    if size < BLOCK as u64 || paddr > (size - BLOCK as u64) / (BLOCK as u64) {
        return Err(Stop::Fail(Errno::EINVAL));
    }
    match b.get(paddr) {
        Ok(d) => {
            if read_u64(d, 0) != checksum(d) {
                return Err(Stop::Fail(Errno::EIO));
            }
            Ok(d)
        },
        Err(s) => Err(s),
    }
}

/// Where the values of a node end: before the root's own record, in a root.
pub open spec fn values_end(node: Seq<u8>) -> int {
    if (u16_at(node, 32) as u16) & 1 != 0 {
        4096 - 40
    } else {
        4096
    }
}

/// Where entry `i` of a leaf stands: the bounds of its key and of its value.
/// Keys grow from behind the table, values are counted back from the end.
pub open spec fn entry_bounds(node: Seq<u8>, i: int, fixed: bool) -> (int, int, int, int) {
    let toc = 56 + u16_at(node, 40);
    let key_start = toc + u16_at(node, 42);
    let item = toc + if fixed {
        i * 4
    } else {
        i * 8
    };
    let ks = key_start + u16_at(node, item);
    if fixed {
        let vs = values_end(node) - u16_at(node, item + 2);
        (ks, ks + 16, vs, vs + 16)
    } else {
        let vs = values_end(node) - u16_at(node, item + 4);
        (ks, ks + u16_at(node, item + 2), vs, vs + u16_at(node, item + 6))
    }
}

/// Why entry `i` of a node cannot be read.
pub open spec fn entry_error(node: Seq<u8>, i: int, fixed: bool) -> Option<Errno> {
    let count = u32_at(node, 36);
    let toc = 56 + u16_at(node, 40);
    let key_start = toc + u16_at(node, 42);
    let (ks, ke, vs, ve) = entry_bounds(node, i, fixed);
    if u16_at(node, 34) != 0 || ((u16_at(node, 32) as u16) & 4 != 0) != fixed {
        Some(Errno::ENOTSUPP)
    } else if i >= count || count > 512 {
        Some(Errno::EINVAL)
    } else if key_start > values_end(node) || toc + (if fixed {
        count * 4
    } else {
        count * 8
    }) > key_start {
        Some(Errno::EINVAL)
    } else if ke > values_end(node) || vs < key_start || ve > values_end(node) {
        Some(Errno::EINVAL)
    } else {
        None
    }
}

pub open spec fn entry_key(node: Seq<u8>, i: int, fixed: bool) -> Seq<u8> {
    let (ks, ke, vs, ve) = entry_bounds(node, i, fixed);
    node.subrange(ks, ke)
}

pub open spec fn entry_value(node: Seq<u8>, i: int, fixed: bool) -> Seq<u8> {
    let (ks, ke, vs, ve) = entry_bounds(node, i, fixed);
    node.subrange(vs, ve)
}

/// Entry `index` of a leaf node: its key and its value.
fn node_entry(node: &Vec<u8>, index: usize, fixed: bool) -> (r: Result<(&[u8], &[u8]), Errno>)
    requires
        node.len() == BLOCK,
    ensures
        match r {
            Ok((k, v)) => entry_error(node@, index as int, fixed) is None && k@ == entry_key(
                node@,
                index as int,
                fixed,
            ) && v@ == entry_value(node@, index as int, fixed),
            Err(e) => entry_error(node@, index as int, fixed) == Some(e),
        },
{
    if read_u16(node, 34) != 0 {
        return Err(Errno::ENOTSUPP);
    }
    let flags: u16 = read_u16(node, 32);
    if (flags & 4 != 0) != fixed {
        return Err(Errno::ENOTSUPP);
    }
    let count: usize = read_u32(node, 36) as usize;
    if index >= count || count > 512 {
        return Err(Errno::EINVAL);
    }
    let toc: usize = 56 + read_u16(node, 40) as usize;
    let key_start: usize = toc + read_u16(node, 42) as usize;
    let val_end: usize = if flags & 1 != 0 {
        BLOCK - 40
    } else {
        BLOCK
    };
    let table: usize = if fixed {
        count * 4
    } else {
        count * 8
    };
    if key_start > val_end || toc + table > key_start {
        return Err(Errno::EINVAL);
    }
    let item: usize = toc + if fixed {
        index * 4
    } else {
        index * 8
    };
    let kl: usize;
    let vo: usize;
    let vl: usize;
    let ko: usize = read_u16(node, item) as usize;
    if fixed {
        kl = 16;
        vo = read_u16(node, item + 2) as usize;
        vl = 16;
    } else {
        kl = read_u16(node, item + 2) as usize;
        vo = read_u16(node, item + 4) as usize;
        vl = read_u16(node, item + 6) as usize;
    }
    if vo > val_end {
        return Err(Errno::EINVAL);
    }
    let ks: usize = key_start + ko;
    let ke: usize = ks + kl;
    let vs: usize = val_end - vo;
    let ve: usize = vs + vl;
    if ke > val_end || vs < key_start || ve > val_end {
        return Err(Errno::EINVAL);
    }
    Ok(
        (
            vstd::slice::slice_subrange(node.as_slice(), ks, ke),
            vstd::slice::slice_subrange(node.as_slice(), vs, ve),
        ),
    )
}

/// Of the first `n` entries of an object map, the one for `oid` with the
/// latest transaction up to `xid`.
pub open spec fn latest_mapping(tree: Seq<u8>, oid: u64, xid: u64, n: int) -> Result<
    Option<int>,
    Errno,
>
    decreases n,
{
    if n <= 0 {
        Ok(None)
    } else {
        match latest_mapping(tree, oid, xid, n - 1) {
            Err(e) => Err(e),
            Ok(sel) => match entry_error(tree, n - 1, true) {
                Some(e) => Err(e),
                None => {
                    let key = entry_key(tree, n - 1, true);
                    if u64_at(key, 0) == oid && u64_at(key, 8) <= xid && (sel is None || u64_at(
                        key,
                        8,
                    ) > u64_at(entry_key(tree, sel->0, true), 8)) {
                        Ok(Some(n - 1))
                    } else {
                        Ok(sel)
                    }
                },
            },
        }
    }
}

/// Where the object map at `omap_paddr` has object `oid` as of transaction
/// `xid`.
pub open spec fn mapped(b: Blocks, size: u64, omap_paddr: u64, oid: u64, xid: u64) -> Result<
    u64,
    Stop,
> {
    match object(b, size, omap_paddr) {
        Err(s) => Err(s),
        Ok(omap) => if u64_at(omap, 8) != omap_paddr {
            Err(Stop::Fail(Errno::EINVAL))
        } else {
            match object(b, size, u64_at(omap, 48) as u64) {
                Err(s) => Err(s),
                Ok(tree) => if u64_at(tree, 8) != u64_at(omap, 48) || u16_at(tree, 34) != 0 || (
                u16_at(tree, 32) as u16) & 4 == 0 {
                    Err(Stop::Fail(Errno::ENOTSUPP))
                } else {
                    match latest_mapping(tree, oid, xid, u32_at(tree, 36)) {
                        Err(e) => Err(Stop::Fail(e)),
                        Ok(None) => Err(Stop::Fail(Errno::ENODATA)),
                        Ok(Some(i)) => {
                            let val = entry_value(tree, i, true);
                            if (u32_at(val, 0) as u32) & 1 != 0 || u32_at(val, 4) != BLOCK {
                                Err(Stop::Fail(Errno::ENOTSUPP))
                            } else {
                                Ok(u64_at(val, 8) as u64)
                            }
                        },
                    }
                },
            }
        },
    }
}

fn find_mapping(tree: &Vec<u8>, oid: u64, xid: u64) -> (r: Result<Option<usize>, Errno>)
    requires
        tree.len() == BLOCK,
    ensures
        match r {
            Ok(Some(i)) => latest_mapping(tree@, oid, xid, u32_at(tree@, 36)) == Ok::<
                Option<int>,
                Errno,
            >(Some(i as int)) && entry_error(tree@, i as int, true) is None,
            Ok(None) => latest_mapping(tree@, oid, xid, u32_at(tree@, 36)) == Ok::<
                Option<int>,
                Errno,
            >(None),
            Err(e) => latest_mapping(tree@, oid, xid, u32_at(tree@, 36)) == Err::<
                Option<int>,
                Errno,
            >(e),
        },
{
    let count: usize = read_u32(tree, 36) as usize;
    let mut sel: Option<usize> = None;
    let mut sel_xid: u64 = 0;
    let mut n: usize = 0;
    while n < count
        invariant
            n <= count,
            tree.len() == BLOCK,
            count == u32_at(tree@, 36),
            latest_mapping(tree@, oid, xid, n as int) == Ok::<Option<int>, Errno>(
                match sel {
                    Some(i) => Some(i as int),
                    None => None,
                },
            ),
            sel is Some ==> entry_error(tree@, sel->0 as int, true) is None && sel_xid == u64_at(
                entry_key(tree@, sel->0 as int, true),
                8,
            ),
        decreases count - n,
    {
        match node_entry(tree, n, true) {
            Err(e) => {
                proof {
                    mapping_error_stays(tree@, oid, xid, n as int, count as int, e);
                }
                return Err(e);
            },
            Ok((key, _)) => {
                let key_xid: u64 = read_u64(key, 8);
                if read_u64(key, 0) == oid && key_xid <= xid && (sel.is_none() || key_xid
                    > sel_xid) {
                    sel = Some(n);
                    sel_xid = key_xid;
                }
            },
        }
        n = n + 1;
    }
    Ok(sel)
}

proof fn mapping_error_stays(tree: Seq<u8>, oid: u64, xid: u64, n: int, count: int, e: Errno)
    requires
        0 <= n < count,
        latest_mapping(tree, oid, xid, n) is Ok,
        entry_error(tree, n, true) == Some(e),
    ensures
        latest_mapping(tree, oid, xid, count) == Err::<Option<int>, Errno>(e),
    decreases count - n,
{
    if count > n + 1 {
        mapping_error_stays(tree, oid, xid, n, count - 1, e);
    }
}

fn omap_lookup(b: &Blocks, size: u64, omap_paddr: u64, oid: u64, xid: u64) -> (r: Result<
    u64,
    Stop,
>)
    requires
        b.wf(),
    ensures
        r == mapped(*b, size, omap_paddr, oid, xid),
{
    let omap = match read_object(b, size, omap_paddr) {
        Ok(d) => d,
        Err(s) => {
            return Err(s);
        },
    };
    if read_u64(omap, 8) != omap_paddr {
        return Err(Stop::Fail(Errno::EINVAL));
    }
    let tree_paddr: u64 = read_u64(omap, 48);
    let tree = match read_object(b, size, tree_paddr) {
        Ok(d) => d,
        Err(s) => {
            return Err(s);
        },
    };
    if read_u64(tree, 8) != tree_paddr || read_u16(tree, 34) != 0 || read_u16(tree, 32) & 4 == 0 {
        return Err(Stop::Fail(Errno::ENOTSUPP));
    }
    match find_mapping(tree, oid, xid) {
        Err(e) => Err(Stop::Fail(e)),
        Ok(None) => Err(Stop::Fail(Errno::ENODATA)),
        Ok(Some(i)) => match node_entry(tree, i, true) {
            Err(e) => Err(Stop::Fail(e)),
            Ok((_, val)) => {
                if read_u32(val, 0) & 1 != 0 || read_u32(val, 4) != BLOCK as u32 {
                    return Err(Stop::Fail(Errno::ENOTSUPP));
                }
                Ok(read_u64(val, 8))
            },
        },
    }
}

/// The name in a directory key is `.gl`.
pub open spec fn names_store(key: Seq<u8>) -> bool {
    let n = u32_at(key, 8) % 0x400;
    n == 4 && key[12] == 0x2e && key[13] == 0x67 && key[14] == 0x6c
}

/// Whether entry `i` is a directory record of the root directory.
pub open spec fn is_root_entry(root: Seq<u8>, i: int) -> bool {
    let key = entry_key(root, i, false);
    key.len() >= 12 && entry_value(root, i, false).len() >= 8 && u64_at(key, 0)
        == 0x9000_0000_0000_0002
}

/// The file that the root directory has under the name `.gl`, among the first
/// `n` entries. There may be only one.
pub open spec fn store_file(root: Seq<u8>, n: int) -> Result<Option<u64>, Errno>
    decreases n,
{
    if n <= 0 {
        Ok(None)
    } else {
        let key = entry_key(root, n - 1, false);
        let len = u32_at(key, 8) % 0x400;
        match store_file(root, n - 1) {
            Err(e) => Err(e),
            Ok(found) => if entry_error(root, n - 1, false) is Some {
                Err(entry_error(root, n - 1, false)->0)
            } else if !is_root_entry(root, n - 1) {
                Ok(found)
            } else if len == 0 || 12 + len > key.len() || key[12 + len - 1] != 0 {
                Err(Errno::EINVAL)
            } else if !names_store(key) {
                Ok(found)
            } else if found is Some {
                Err(Errno::ENOTSUPP)
            } else {
                Ok(Some(u64_at(entry_value(root, n - 1, false), 0) as u64))
            },
        }
    }
}

proof fn store_file_error_stays(root: Seq<u8>, n: int, count: int)
    requires
        0 <= n <= count,
        store_file(root, n) is Err,
    ensures
        store_file(root, count) == store_file(root, n),
    decreases count - n,
{
    if count > n {
        store_file_error_stays(root, n, count - 1);
    }
}

fn find_store_file(root: &Vec<u8>) -> (r: Result<Option<u64>, Errno>)
    requires
        root.len() == BLOCK,
    ensures
        r == store_file(root@, u32_at(root@, 36)),
{
    let count: usize = read_u32(root, 36) as usize;
    let mut found: Option<u64> = None;
    let mut n: usize = 0;
    while n < count
        invariant
            n <= count,
            root.len() == BLOCK,
            count == u32_at(root@, 36),
            store_file(root@, n as int) == Ok::<Option<u64>, Errno>(found),
        decreases count - n,
    {
        proof {
            if store_file(root@, n + 1) is Err {
                store_file_error_stays(root@, n + 1, count as int);
            }
        }
        match node_entry(root, n, false) {
            Err(e) => {
                return Err(e);
            },
            Ok((key, val)) => {
                if key.len() >= 12 && val.len() >= 8 && read_u64(key, 0) == 0x9000_0000_0000_0002 {
                    let len: usize = (read_u32(key, 8) % 0x400) as usize;
                    if len == 0 || 12 + len > key.len() || key[12 + len - 1] != 0 {
                        return Err(Errno::EINVAL);
                    }
                    if len == 4 && key[12] == 0x2e && key[13] == 0x67 && key[14] == 0x6c {
                        if found.is_some() {
                            return Err(Errno::ENOTSUPP);
                        }
                        found = Some(read_u64(val, 0));
                    }
                }
            },
        }
        n = n + 1;
    }
    Ok(found)
}

/// The private number of a file, from its record among the first `n` entries.
pub open spec fn private_number(root: Seq<u8>, file: u64, n: int) -> Result<Option<u64>, Errno>
    decreases n,
{
    if n <= 0 {
        Ok(None)
    } else {
        let key = entry_key(root, n - 1, false);
        let val = entry_value(root, n - 1, false);
        match private_number(root, file, n - 1) {
            Err(e) => Err(e),
            Ok(found) => if entry_error(root, n - 1, false) is Some {
                Err(entry_error(root, n - 1, false)->0)
            } else if key.len() < 8 || u64_at(key, 0) != (0x3000_0000_0000_0000u64 | file) {
                Ok(found)
            } else if val.len() < 92 || found is Some {
                Err(Errno::EINVAL)
            } else {
                Ok(Some(u64_at(val, 8) as u64))
            },
        }
    }
}

proof fn private_error_stays(root: Seq<u8>, file: u64, n: int, count: int)
    requires
        0 <= n <= count,
        private_number(root, file, n) is Err,
    ensures
        private_number(root, file, count) == private_number(root, file, n),
    decreases count - n,
{
    if count > n {
        private_error_stays(root, file, n, count - 1);
    }
}

fn find_private(root: &Vec<u8>, file: u64) -> (r: Result<Option<u64>, Errno>)
    requires
        root.len() == BLOCK,
    ensures
        r == private_number(root@, file, u32_at(root@, 36)),
{
    let count: usize = read_u32(root, 36) as usize;
    let wanted: u64 = 0x3000_0000_0000_0000u64 | file;
    let mut found: Option<u64> = None;
    let mut n: usize = 0;
    while n < count
        invariant
            n <= count,
            root.len() == BLOCK,
            count == u32_at(root@, 36),
            wanted == (0x3000_0000_0000_0000u64 | file),
            private_number(root@, file, n as int) == Ok::<Option<u64>, Errno>(found),
        decreases count - n,
    {
        proof {
            if private_number(root@, file, n + 1) is Err {
                private_error_stays(root@, file, n + 1, count as int);
            }
        }
        match node_entry(root, n, false) {
            Err(e) => {
                return Err(e);
            },
            Ok((key, val)) => {
                if key.len() >= 8 && read_u64(key, 0) == wanted {
                    if val.len() < 92 || found.is_some() {
                        return Err(Errno::EINVAL);
                    }
                    found = Some(read_u64(val, 8));
                }
            },
        }
        n = n + 1;
    }
    Ok(found)
}

/// Where the one extent of a file starts, from its records among the first `n`
/// entries: it covers the whole file and lies in the device.
pub open spec fn sole_extent(root: Seq<u8>, size: u64, private_id: u64, n: int) -> Result<
    Option<u64>,
    Errno,
>
    decreases n,
{
    if n <= 0 {
        Ok(None)
    } else {
        let key = entry_key(root, n - 1, false);
        let val = entry_value(root, n - 1, false);
        match sole_extent(root, size, private_id, n - 1) {
            Err(e) => Err(e),
            Ok(found) => if entry_error(root, n - 1, false) is Some {
                Err(entry_error(root, n - 1, false)->0)
            } else if key.len() < 16 || u64_at(key, 0) != (0x8000_0000_0000_0000u64 | private_id) {
                Ok(found)
            } else if val.len() < 24 || u64_at(key, 8) != 0 || u64_at(val, 0) != FILE_SIZE
                || u64_at(val, 16) != 0 {
                Err(Errno::ENOTSUPP)
            } else if u64_at(val, 8) * 4096 + FILE_SIZE > size || found is Some {
                Err(Errno::EINVAL)
            } else {
                Ok(Some((u64_at(val, 8) * 4096) as u64))
            },
        }
    }
}

proof fn extent_error_stays(root: Seq<u8>, size: u64, private_id: u64, n: int, count: int)
    requires
        0 <= n <= count,
        sole_extent(root, size, private_id, n) is Err,
    ensures
        sole_extent(root, size, private_id, count) == sole_extent(root, size, private_id, n),
    decreases count - n,
{
    if count > n {
        extent_error_stays(root, size, private_id, n, count - 1);
    }
}

fn find_extent(root: &Vec<u8>, size: u64, private_id: u64) -> (r: Result<Option<u64>, Errno>)
    requires
        root.len() == BLOCK,
    ensures
        r == sole_extent(root@, size, private_id, u32_at(root@, 36)),
{
    let count: usize = read_u32(root, 36) as usize;
    let wanted: u64 = 0x8000_0000_0000_0000u64 | private_id;
    let mut found: Option<u64> = None;
    let mut n: usize = 0;
    while n < count
        invariant
            n <= count,
            root.len() == BLOCK,
            count == u32_at(root@, 36),
            wanted == (0x8000_0000_0000_0000u64 | private_id),
            sole_extent(root@, size, private_id, n as int) == Ok::<Option<u64>, Errno>(found),
        decreases count - n,
    {
        proof {
            if sole_extent(root@, size, private_id, n + 1) is Err {
                extent_error_stays(root@, size, private_id, n + 1, count as int);
            }
        }
        match node_entry(root, n, false) {
            Err(e) => {
                return Err(e);
            },
            Ok((key, val)) => {
                if key.len() >= 16 && read_u64(key, 0) == wanted {
                    if val.len() < 24 || read_u64(key, 8) != 0 || read_u64(val, 0) != FILE_SIZE
                        || read_u64(val, 16) != 0 {
                        return Err(Errno::ENOTSUPP);
                    }
                    let paddr: u64 = read_u64(val, 8);
                    if size < FILE_SIZE || paddr > (size - FILE_SIZE) / 4096 || found.is_some() {
                        return Err(Errno::EINVAL);
                    }
                    found = Some(paddr * 4096);
                }
            },
        }
        n = n + 1;
    }
    Ok(found)
}

/// Where the store's file stands on a volume.
pub open spec fn store_extent(b: Blocks, size: u64, vol: Seq<u8>, xid: u64) -> Result<u64, Stop> {
    if u64_at(vol, 264) % 2 == 0 {
        Err(Stop::Fail(Errno::ENOTSUPP))
    } else {
        let oid = u64_at(vol, 136) as u64;
        match mapped(b, size, u64_at(vol, 128) as u64, oid, xid) {
            Err(s) => Err(s),
            Ok(paddr) => match object(b, size, paddr) {
                Err(s) => Err(s),
                Ok(root) => if u64_at(root, 8) != oid || u16_at(root, 34) != 0 || (u16_at(
                    root,
                    32,
                ) as u16) & 4 != 0 {
                    Err(Stop::Fail(Errno::ENOTSUPP))
                } else {
                    extent_in_root(root, size)
                },
            },
        }
    }
}

pub open spec fn extent_in_root(root: Seq<u8>, size: u64) -> Result<u64, Stop> {
    let count = u32_at(root, 36);
    match store_file(root, count) {
        Err(e) => Err(Stop::Fail(e)),
        Ok(None) => Err(Stop::Fail(Errno::ENODATA)),
        Ok(Some(file)) => match private_number(root, file, count) {
            Err(e) => Err(Stop::Fail(e)),
            Ok(None) => Err(Stop::Fail(Errno::ENODATA)),
            Ok(Some(id)) => match sole_extent(root, size, id, count) {
                Err(e) => Err(Stop::Fail(e)),
                Ok(None) => Err(Stop::Fail(Errno::ENODATA)),
                Ok(Some(start)) => Ok(start),
            },
        },
    }
}

fn xart_extent(b: &Blocks, size: u64, vol: &Vec<u8>, xid: u64) -> (r: Result<u64, Stop>)
    requires
        b.wf(),
        vol.len() == BLOCK,
    ensures
        r == store_extent(*b, size, vol@, xid),
{
    if read_u64(vol, 264) % 2 == 0 {
        return Err(Stop::Fail(Errno::ENOTSUPP));
    }
    let root_oid: u64 = read_u64(vol, 136);
    let root_paddr: u64 = match omap_lookup(b, size, read_u64(vol, 128), root_oid, xid) {
        Ok(p) => p,
        Err(s) => {
            return Err(s);
        },
    };
    let root = match read_object(b, size, root_paddr) {
        Ok(d) => d,
        Err(s) => {
            return Err(s);
        },
    };
    if read_u64(root, 8) != root_oid || read_u16(root, 34) != 0 || read_u16(root, 32) & 4 != 0 {
        return Err(Stop::Fail(Errno::ENOTSUPP));
    }
    let file: u64 = match find_store_file(root) {
        Err(e) => {
            return Err(Stop::Fail(e));
        },
        Ok(None) => {
            return Err(Stop::Fail(Errno::ENODATA));
        },
        Ok(Some(f)) => f,
    };
    let id: u64 = match find_private(root, file) {
        Err(e) => {
            return Err(Stop::Fail(e));
        },
        Ok(None) => {
            return Err(Stop::Fail(Errno::ENODATA));
        },
        Ok(Some(i)) => i,
    };
    match find_extent(root, size, id) {
        Err(e) => Err(Stop::Fail(e)),
        Ok(None) => Err(Stop::Fail(Errno::ENODATA)),
        Ok(Some(start)) => Ok(start),
    }
}

/// The object that record `i` of a mapping block stands for is there, and is
/// the one meant.
#[verifier::opaque]
pub open spec fn mapped_object(b: Blocks, size: u64, map: Seq<u8>, xid: u64, i: int) -> Result<
    (),
    Stop,
> {
    let at = 40 + i * 40;
    if u32_at(map, at + 8) != BLOCK {
        Err(Stop::Fail(Errno::ENOTSUPP))
    } else {
        match object(b, size, u64_at(map, at + 32) as u64) {
            Err(s) => Err(s),
            Ok(o) => if u64_at(o, 8) != u64_at(map, at + 24) || u64_at(o, 16) != xid || u32_at(
                o,
                24,
            ) != u32_at(map, at) {
                Err(Stop::Fail(Errno::EINVAL))
            } else {
                Ok(())
            },
        }
    }
}

pub open spec fn mapped_objects(b: Blocks, size: u64, map: Seq<u8>, xid: u64, n: int) -> Result<
    (),
    Stop,
>
    decreases n,
{
    if n <= 0 {
        Ok(())
    } else {
        match mapped_objects(b, size, map, xid, n - 1) {
            Err(s) => Err(s),
            Ok(_) => mapped_object(b, size, map, xid, n - 1),
        }
    }
}

proof fn objects_error_stays(b: Blocks, size: u64, map: Seq<u8>, xid: u64, n: int, count: int)
    requires
        0 <= n <= count,
        mapped_objects(b, size, map, xid, n) is Err,
    ensures
        mapped_objects(b, size, map, xid, count) == mapped_objects(b, size, map, xid, n),
    decreases count - n,
{
    if count > n {
        objects_error_stays(b, size, map, xid, n, count - 1);
    }
}

/// Mapping block `j` of a checkpoint with `maps` of them: of the right kind and
/// transaction, marked as the last exactly where it is, with all its objects.
#[verifier::opaque]
pub open spec fn mapping_block(
    b: Blocks,
    size: u64,
    paddr: u64,
    xid: u64,
    is_last: bool,
) -> Result<(), Stop> {
    match object(b, size, paddr) {
        Err(s) => Err(s),
        Ok(map) => if u32_at(map, 24) % 0x1_0000 != 12 || u64_at(map, 16) != xid {
            Err(Stop::Fail(Errno::EINVAL))
        } else if (u32_at(map, 32) % 2 == 1) != is_last {
            Err(Stop::Fail(Errno::EINVAL))
        } else if u32_at(map, 36) > 101 {
            Err(Stop::Fail(Errno::EINVAL))
        } else {
            mapped_objects(b, size, map, xid, u32_at(map, 36))
        },
    }
}

fn check_mapping(b: &Blocks, size: u64, paddr: u64, xid: u64, is_last: bool) -> (r: Result<
    (),
    Stop,
>)
    requires
        b.wf(),
    ensures
        r == mapping_block(*b, size, paddr, xid, is_last),
{
    proof {
        reveal(mapping_block);
    }
    let map = match read_object(b, size, paddr) {
        Ok(d) => d,
        Err(s) => {
            return Err(s);
        },
    };
    if read_u32(map, 24) % 0x1_0000 != 12 || read_u64(map, 16) != xid {
        return Err(Stop::Fail(Errno::EINVAL));
    }
    if (read_u32(map, 32) % 2 == 1) != is_last {
        return Err(Stop::Fail(Errno::EINVAL));
    }
    let count: usize = read_u32(map, 36) as usize;
    if count > 101 {
        return Err(Stop::Fail(Errno::EINVAL));
    }
    check_objects(b, size, map, xid, count)
}

fn check_objects(b: &Blocks, size: u64, map: &Vec<u8>, xid: u64, count: usize) -> (r: Result<
    (),
    Stop,
>)
    requires
        b.wf(),
        map.len() == BLOCK,
        count <= 101,
    ensures
        r == mapped_objects(*b, size, map@, xid, count as int),
{
    let mut last: Result<(), Stop> = Ok(());
    let mut n: usize = 0;
    while n < count
        invariant
            b.wf(),
            map.len() == BLOCK,
            n <= count <= 101,
            mapped_objects(*b, size, map@, xid, n as int) == last,
            last is Ok,
        decreases count - n,
    {
        let r = check_object(b, size, map, xid, n);
        assert(mapped_objects(*b, size, map@, xid, n + 1) == r);
        if r.is_err() {
            proof {
                objects_error_stays(*b, size, map@, xid, n + 1, count as int);
            }
            return r;
        }
        last = r;
        n = n + 1;
    }
    last
}

fn check_object(b: &Blocks, size: u64, map: &Vec<u8>, xid: u64, i: usize) -> (r: Result<(), Stop>)
    requires
        b.wf(),
        map.len() == BLOCK,
        i < 101,
    ensures
        r == mapped_object(*b, size, map@, xid, i as int),
{
    proof {
        reveal(mapped_object);
    }
    let at: usize = 40 + i * 40;
    if read_u32(map, at + 8) != BLOCK as u32 {
        return Err(Stop::Fail(Errno::ENOTSUPP));
    }
    let o = match read_object(b, size, read_u64(map, at + 32)) {
        Ok(d) => d,
        Err(s) => {
            return Err(s);
        },
    };
    if read_u64(o, 8) != read_u64(map, at + 24) || read_u64(o, 16) != xid || read_u32(o, 24)
        != read_u32(map, at) {
        return Err(Stop::Fail(Errno::EINVAL));
    }
    Ok(())
}

/// The descriptor ring: where it stands and how many blocks it has.
#[derive(Clone, Copy, Debug, PartialEq, Eq, Structural)]
pub struct Ring {
    pub base: u64,
    pub count: u64,
}

/// The block of the ring that is `j` places after `index`.
#[verifier::opaque]
pub open spec fn ring_block(ring: Ring, index: int, j: int) -> int {
    ring.base + (index + j) % (ring.count as int)
}

fn ring_at(ring: Ring, index: u64, j: u64) -> (p: u64)
    requires
        0 < ring.count <= 1024,
        ring.base + ring.count <= u64::MAX,
        index < ring.count,
        j < ring.count,
    ensures
        p == ring_block(ring, index as int, j as int),
{
    proof {
        reveal(ring_block);
    }
    ring.base + (index + j) % ring.count
}

pub open spec fn mapping_blocks(
    b: Blocks,
    size: u64,
    ring: Ring,
    index: int,
    maps: int,
    xid: u64,
    n: int,
) -> Result<(), Stop>
    decreases n,
{
    if n <= 0 {
        Ok(())
    } else {
        match mapping_blocks(b, size, ring, index, maps, xid, n - 1) {
            Err(s) => Err(s),
            Ok(_) => mapping_block(
                b,
                size,
                ring_block(ring, index, n - 1) as u64,
                xid,
                n == maps,
            ),
        }
    }
}

proof fn mappings_error_stays(
    b: Blocks,
    size: u64,
    ring: Ring,
    index: int,
    maps: int,
    xid: u64,
    n: int,
    count: int,
)
    requires
        0 <= n <= count,
        mapping_blocks(b, size, ring, index, maps, xid, n) is Err,
    ensures
        mapping_blocks(b, size, ring, index, maps, xid, count) == mapping_blocks(
            b,
            size,
            ring,
            index,
            maps,
            xid,
            n,
        ),
    decreases count - n,
{
    if count > n {
        mappings_error_stays(b, size, ring, index, maps, xid, n, count - 1);
    }
}

/// Whether a superblock closes a complete checkpoint. A superblock whose
/// checksum agrees is not one by itself: its mapping blocks come before it in
/// the ring, and each of them and each of their objects has to be right.
pub open spec fn checkpoint(b: Blocks, size: u64, sb: Seq<u8>, sb_paddr: u64, ring: Ring) -> Result<
    (),
    Stop,
> {
    let index = u32_at(sb, 136);
    let len = u32_at(sb, 140);
    if u64_at(sb, 112) != ring.base || u32_at(sb, 104) != ring.count {
        Err(Stop::Fail(Errno::ENOTSUPP))
    } else if index >= ring.count || len < 2 || len > ring.count {
        Err(Stop::Fail(Errno::EINVAL))
    } else if ring_block(ring, index, len - 1) != sb_paddr {
        Err(Stop::Fail(Errno::EINVAL))
    } else {
        mapping_blocks(b, size, ring, index, len - 1, u64_at(sb, 16) as u64, len - 1)
    }
}

fn valid_checkpoint(b: &Blocks, size: u64, sb: &Vec<u8>, sb_paddr: u64, ring: Ring) -> (r: Result<
    (),
    Stop,
>)
    requires
        b.wf(),
        sb.len() == BLOCK,
        0 < ring.count <= 1024,
        ring.base + ring.count <= u64::MAX,
    ensures
        r == checkpoint(*b, size, sb@, sb_paddr, ring),
{
    if read_u64(sb, 112) != ring.base || read_u32(sb, 104) as u64 != ring.count {
        return Err(Stop::Fail(Errno::ENOTSUPP));
    }
    let index: u64 = read_u32(sb, 136) as u64;
    let len: u64 = read_u32(sb, 140) as u64;
    if index >= ring.count || len < 2 || len > ring.count {
        return Err(Stop::Fail(Errno::EINVAL));
    }
    let last: u64 = ring_at(ring, index, len - 1);
    if last != sb_paddr {
        return Err(Stop::Fail(Errno::EINVAL));
    }
    let xid: u64 = read_u64(sb, 16);
    check_mappings(b, size, ring, index, len - 1, xid)
}

fn check_mappings(b: &Blocks, size: u64, ring: Ring, index: u64, maps: u64, xid: u64) -> (r: Result<
    (),
    Stop,
>)
    requires
        b.wf(),
        maps < ring.count <= 1024,
        ring.base + ring.count <= u64::MAX,
        index < ring.count,
    ensures
        r == mapping_blocks(*b, size, ring, index as int, maps as int, xid, maps as int),
{
    let mut last: Result<(), Stop> = Ok(());
    let mut n: u64 = 0;
    while n < maps
        invariant
            b.wf(),
            n <= maps < ring.count <= 1024,
            ring.base + ring.count <= u64::MAX,
            index < ring.count,
            mapping_blocks(*b, size, ring, index as int, maps as int, xid, n as int) == last,
            last is Ok,
        decreases maps - n,
    {
        let paddr: u64 = ring_at(ring, index, n);
        let r = check_mapping(b, size, paddr, xid, n + 1 == maps);
        assert(mapping_blocks(*b, size, ring, index as int, maps as int, xid, n + 1) == r);
        if r.is_err() {
            proof {
                mappings_error_stays(
                    *b,
                    size,
                    ring,
                    index as int,
                    maps as int,
                    xid,
                    n + 1,
                    maps as int,
                );
            }
            return r;
        }
        last = r;
        n = n + 1;
    }
    last
}

/// The marks of a container superblock for `blocks` blocks.
pub open spec fn is_container(sb: Seq<u8>, blocks: u64) -> bool {
    &&& u32_at(sb, 32) == 0x4253_584e
    &&& u32_at(sb, 36) == BLOCK
    &&& u64_at(sb, 40) == blocks
    &&& u64_at(sb, 56) == 0
    &&& u64_at(sb, 64) == 2
}

/// Of the first `n` blocks of the ring, the superblock of the latest complete
/// checkpoint. Blocks that cannot be read or are not right are passed over.
pub open spec fn latest_checkpoint(b: Blocks, size: u64, blocks: u64, ring: Ring, n: int) -> Result<
    Option<Seq<u8>>,
    Stop,
>
    decreases n,
{
    if n <= 0 {
        Ok(None)
    } else {
        let paddr = (ring.base + n - 1) as u64;
        match latest_checkpoint(b, size, blocks, ring, n - 1) {
            Err(s) => Err(s),
            Ok(best) => match object(b, size, paddr) {
                Err(Stop::Need(p)) => Err(Stop::Need(p)),
                Err(Stop::Fail(_)) => Ok(best),
                Ok(c) => if !is_container(c, blocks) {
                    Ok(best)
                } else {
                    match checkpoint(b, size, c, paddr, ring) {
                        Err(Stop::Need(p)) => Err(Stop::Need(p)),
                        Err(Stop::Fail(_)) => Ok(best),
                        Ok(_) => if u64_at(c, 16) > (match best {
                            Some(d) => u64_at(d, 16),
                            None => 0,
                        }) {
                            Ok(Some(c))
                        } else {
                            Ok(best)
                        },
                    }
                },
            },
        }
    }
}

proof fn checkpoint_error_stays(b: Blocks, size: u64, blocks: u64, ring: Ring, n: int, count: int)
    requires
        0 <= n <= count,
        latest_checkpoint(b, size, blocks, ring, n) is Err,
    ensures
        latest_checkpoint(b, size, blocks, ring, count) == latest_checkpoint(
            b,
            size,
            blocks,
            ring,
            n,
        ),
    decreases count - n,
{
    if count > n {
        checkpoint_error_stays(b, size, blocks, ring, n, count - 1);
    }
}

fn find_checkpoint(b: &Blocks, size: u64, blocks: u64, ring: Ring) -> (r: Result<
    Option<&Vec<u8>>,
    Stop,
>)
    requires
        b.wf(),
        0 < ring.count <= 1024,
        ring.base + ring.count <= u64::MAX,
    ensures
        match r {
            Ok(Some(d)) => d.len() == BLOCK && latest_checkpoint(
                *b,
                size,
                blocks,
                ring,
                ring.count as int,
            ) == Ok::<Option<Seq<u8>>, Stop>(Some(d@)),
            Ok(None) => latest_checkpoint(*b, size, blocks, ring, ring.count as int) == Ok::<
                Option<Seq<u8>>,
                Stop,
            >(None),
            Err(s) => latest_checkpoint(*b, size, blocks, ring, ring.count as int) == Err::<
                Option<Seq<u8>>,
                Stop,
            >(s),
        },
{
    let mut best: Option<&Vec<u8>> = None;
    let mut best_xid: u64 = 0;
    let mut n: u64 = 0;
    while n < ring.count
        invariant
            b.wf(),
            n <= ring.count,
            0 < ring.count <= 1024,
            ring.base + ring.count <= u64::MAX,
            latest_checkpoint(*b, size, blocks, ring, n as int) == Ok::<Option<Seq<u8>>, Stop>(
                match best {
                    Some(d) => Some(d@),
                    None => None,
                },
            ),
            match best {
                Some(d) => d.len() == BLOCK && best_xid == u64_at(d@, 16),
                None => best_xid == 0,
            },
        decreases ring.count - n,
    {
        proof {
            if latest_checkpoint(*b, size, blocks, ring, n + 1) is Err {
                checkpoint_error_stays(*b, size, blocks, ring, n + 1, ring.count as int);
            }
        }
        let paddr: u64 = ring.base + n;
        match read_object(b, size, paddr) {
            Err(Stop::Need(p)) => {
                return Err(Stop::Need(p));
            },
            Err(Stop::Fail(_)) => {},
            Ok(c) => {
                let xid: u64 = read_u64(c, 16);
                if read_u32(c, 32) == 0x4253_584e && read_u32(c, 36) == BLOCK as u32 && read_u64(
                    c,
                    40,
                ) == blocks && read_u64(c, 56) == 0 && read_u64(c, 64) == 2 {
                    match valid_checkpoint(b, size, c, paddr, ring) {
                        Err(Stop::Need(p)) => {
                            return Err(Stop::Need(p));
                        },
                        Err(Stop::Fail(_)) => {},
                        Ok(_) => {
                            if xid > best_xid {
                                best_xid = xid;
                                best = Some(c);
                            }
                        },
                    }
                }
            },
        }
        n = n + 1;
    }
    Ok(best)
}

/// The store's extent, from the first `n` volumes of a container. One volume
/// may have the store's role.
pub open spec fn in_volumes(b: Blocks, size: u64, sb: Seq<u8>, n: int) -> Result<Option<u64>, Stop>
    decreases n,
{
    if n <= 0 {
        Ok(None)
    } else {
        let xid = u64_at(sb, 16) as u64;
        let oid = u64_at(sb, 184 + (n - 1) * 8) as u64;
        match in_volumes(b, size, sb, n - 1) {
            Err(s) => Err(s),
            Ok(found) => if oid == 0 {
                Ok(found)
            } else {
                match mapped(b, size, u64_at(sb, 160) as u64, oid, xid) {
                    Err(s) => Err(s),
                    Ok(paddr) => match object(b, size, paddr) {
                        Err(s) => Err(s),
                        Ok(vol) => if u32_at(vol, 32) != 0x4253_5041 || u64_at(vol, 8) != oid
                            || u64_at(vol, 16) > xid {
                            Err(Stop::Fail(Errno::EINVAL))
                        } else if u16_at(vol, 964) != XART_ROLE {
                            Ok(found)
                        } else {
                            match store_extent(b, size, vol, u64_at(vol, 16) as u64) {
                                Err(s) => Err(s),
                                Ok(start) => if found is Some {
                                    Err(Stop::Fail(Errno::ENOTSUPP))
                                } else {
                                    Ok(Some(start))
                                },
                            }
                        },
                    },
                }
            },
        }
    }
}

proof fn volumes_error_stays(b: Blocks, size: u64, sb: Seq<u8>, n: int, count: int)
    requires
        0 <= n <= count,
        in_volumes(b, size, sb, n) is Err,
    ensures
        in_volumes(b, size, sb, count) == in_volumes(b, size, sb, n),
    decreases count - n,
{
    if count > n {
        volumes_error_stays(b, size, sb, n, count - 1);
    }
}

fn search_volumes(b: &Blocks, size: u64, sb: &Vec<u8>) -> (r: Result<Option<u64>, Stop>)
    requires
        b.wf(),
        sb.len() == BLOCK,
    ensures
        r == in_volumes(*b, size, sb@, 100),
{
    let xid: u64 = read_u64(sb, 16);
    let omap: u64 = read_u64(sb, 160);
    let mut found: Option<u64> = None;
    let mut n: usize = 0;
    while n < 100
        invariant
            b.wf(),
            sb.len() == BLOCK,
            n <= 100,
            xid == u64_at(sb@, 16),
            omap == u64_at(sb@, 160),
            in_volumes(*b, size, sb@, n as int) == Ok::<Option<u64>, Stop>(found),
        decreases 100 - n,
    {
        proof {
            if in_volumes(*b, size, sb@, n + 1) is Err {
                volumes_error_stays(*b, size, sb@, n + 1, 100);
            }
        }
        let oid: u64 = read_u64(sb, 184 + n * 8);
        if oid != 0 {
            let paddr: u64 = match omap_lookup(b, size, omap, oid, xid) {
                Ok(p) => p,
                Err(s) => {
                    return Err(s);
                },
            };
            let vol = match read_object(b, size, paddr) {
                Ok(d) => d,
                Err(s) => {
                    return Err(s);
                },
            };
            if read_u32(vol, 32) != 0x4253_5041 || read_u64(vol, 8) != oid || read_u64(vol, 16)
                > xid {
                return Err(Stop::Fail(Errno::EINVAL));
            }
            if read_u16(vol, 964) == XART_ROLE {
                match xart_extent(b, size, vol, read_u64(vol, 16)) {
                    Err(s) => {
                        return Err(s);
                    },
                    Ok(start) => {
                        if found.is_some() {
                            return Err(Stop::Fail(Errno::ENOTSUPP));
                        }
                        found = Some(start);
                    },
                }
            }
        }
        n = n + 1;
    }
    Ok(found)
}

/// Where the store's file stands on a device of `device_size` bytes.
pub open spec fn located(b: Blocks, device_size: u64) -> Result<u64, Stop> {
    match object(b, device_size, 0) {
        Err(s) => Err(s),
        Ok(base) => {
            let blocks = u64_at(base, 40) as u64;
            let ring = Ring { base: u64_at(base, 112) as u64, count: u32_at(base, 104) as u64 };
            if u32_at(base, 32) != 0x4253_584e || u32_at(base, 36) != BLOCK {
                Err(Stop::Fail(Errno::ENOTSUPP))
            } else if blocks == 0 || blocks * 4096 > device_size || u64_at(base, 56) != 0 || u64_at(
                base,
                64,
            ) != 2 {
                Err(Stop::Fail(Errno::ENOTSUPP))
            } else if ring.count >= 0x8000_0000 {
                Err(Stop::Fail(Errno::ENOTSUPP))
            } else if ring.count == 0 || ring.count > 1024 || ring.base + ring.count > blocks {
                Err(Stop::Fail(Errno::EINVAL))
            } else {
                let size = (blocks * 4096) as u64;
                match latest_checkpoint(b, size, blocks, ring, ring.count as int) {
                    Err(s) => Err(s),
                    Ok(None) => Err(Stop::Fail(Errno::ENODATA)),
                    Ok(Some(sb)) => match in_volumes(b, size, sb, 100) {
                        Err(s) => Err(s),
                        Ok(None) => Err(Stop::Fail(Errno::ENODATA)),
                        Ok(Some(start)) => Ok(start),
                    },
                }
            }
        },
    }
}

/// Finds the byte offset of the store's file, which has to be one contiguous
/// extent of the store's size.
pub fn locate(b: &Blocks, device_size: u64) -> (r: Result<u64, Stop>)
    requires
        b.wf(),
    ensures
        r == located(*b, device_size),
{
    let base = match read_object(b, device_size, 0) {
        Ok(d) => d,
        Err(s) => {
            return Err(s);
        },
    };
    if read_u32(base, 32) != 0x4253_584e || read_u32(base, 36) != BLOCK as u32 {
        return Err(Stop::Fail(Errno::ENOTSUPP));
    }
    let blocks: u64 = read_u64(base, 40);
    if blocks == 0 || blocks > device_size / (BLOCK as u64) || read_u64(base, 56) != 0 || read_u64(
        base,
        64,
    ) != 2 {
        return Err(Stop::Fail(Errno::ENOTSUPP));
    }
    let size: u64 = blocks * (BLOCK as u64);
    let desc_count: u32 = read_u32(base, 104);
    if desc_count >= 0x8000_0000 {
        return Err(Stop::Fail(Errno::ENOTSUPP));
    }
    let ring = Ring { base: read_u64(base, 112), count: desc_count as u64 };
    if ring.count == 0 || ring.count > 1024 || ring.count > blocks || ring.base > blocks
        - ring.count {
        return Err(Stop::Fail(Errno::EINVAL));
    }
    let sb = match find_checkpoint(b, size, blocks, ring) {
        Err(s) => {
            return Err(s);
        },
        Ok(None) => {
            return Err(Stop::Fail(Errno::ENODATA));
        },
        Ok(Some(d)) => d,
    };
    match search_volumes(b, size, sb) {
        Err(s) => Err(s),
        Ok(None) => Err(Stop::Fail(Errno::ENODATA)),
        Ok(Some(start)) => Ok(start),
    }
}

/// What is found lies in the device: a lookup never hands out an extent that
/// ends behind it.
pub proof fn located_extent_fits(b: Blocks, device_size: u64)
    ensures
        located(b, device_size) is Ok ==> located(b, device_size)->Ok_0 + FILE_SIZE <= device_size
            && located(b, device_size)->Ok_0 % 4096 == 0,
{
    if located(b, device_size) is Ok {
        let base = object(b, device_size, 0)->Ok_0;
        let blocks = u64_at(base, 40) as u64;
        let ring = Ring { base: u64_at(base, 112) as u64, count: u32_at(base, 104) as u64 };
        let size = (blocks * 4096) as u64;
        let sb = latest_checkpoint(b, size, blocks, ring, ring.count as int)->Ok_0->0;
        volume_extent_fits(b, size, sb, 100);
    }
}

proof fn volume_extent_fits(b: Blocks, size: u64, sb: Seq<u8>, n: int)
    ensures
        in_volumes(b, size, sb, n) matches Ok(Some(start)) ==> start + FILE_SIZE <= size && start
            % 4096 == 0,
    decreases n,
{
    if n > 0 {
        volume_extent_fits(b, size, sb, n - 1);
        let oid = u64_at(sb, 184 + (n - 1) * 8) as u64;
        let m = mapped(b, size, u64_at(sb, 160) as u64, oid, u64_at(sb, 16) as u64);
        if m is Ok {
            let vol = object(b, size, m->Ok_0);
            if vol is Ok {
                let v = vol->Ok_0;
                let rm = mapped(
                    b,
                    size,
                    u64_at(v, 128) as u64,
                    u64_at(v, 136) as u64,
                    u64_at(v, 16) as u64,
                );
                if rm is Ok {
                    let root = object(b, size, rm->Ok_0);
                    if root is Ok {
                        let r = root->Ok_0;
                        let file_id = store_file(r, u32_at(r, 36))->Ok_0->0;
                        let private_id = private_number(r, file_id, u32_at(r, 36))->Ok_0->0;
                        extent_fits(r, size, private_id, u32_at(r, 36));
                    }
                }
            }
        }
    }
}

proof fn extent_fits(root: Seq<u8>, size: u64, id: u64, n: int)
    ensures
        sole_extent(root, size, id, n) matches Ok(Some(start)) ==> start + FILE_SIZE <= size
            && start % 4096 == 0,
    decreases n,
{
    if n > 0 {
        extent_fits(root, size, id, n - 1);
    }
}

/// All that is known of blocks in `a` is known in `b`.
pub open spec fn extends(a: Blocks, b: Blocks) -> bool {
    forall|p: u64| #[trigger] a.block(p) is Some ==> b.block(p) == a.block(p)
}

/// A lookup that came to an end comes to the same end once more blocks are known,
/// and one that did not asks for a block that is not known yet: reading what it
/// asks for and starting anew gives what one pass over the whole device would.
pub proof fn lookup_is_settled_for_good(a: Blocks, b: Blocks, device_size: u64)
    requires
        extends(a, b),
    ensures
        located(a, device_size) matches Err(Stop::Need(p)) ==> a.block(p) is None,
        !(located(a, device_size) matches Err(Stop::Need(_))) ==> located(b, device_size)
            == located(a, device_size),
{
    object_stays(a, b, device_size, 0);
    if object(a, device_size, 0) is Ok {
        let base = object(a, device_size, 0)->Ok_0;
        let blocks = u64_at(base, 40) as u64;
        let ring = Ring { base: u64_at(base, 112) as u64, count: u32_at(base, 104) as u64 };
        let size = (blocks * 4096) as u64;
        latest_checkpoint_stays(a, b, size, blocks, ring, ring.count as int);
        let r = latest_checkpoint(a, size, blocks, ring, ring.count as int);
        if r is Ok && r->Ok_0 is Some {
            in_volumes_stays(a, b, size, r->Ok_0->0, 100);
        }
    }
}

proof fn object_stays(a: Blocks, b: Blocks, size: u64, p: u64)
    requires
        extends(a, b),
    ensures
        object(a, size, p) matches Err(Stop::Need(q)) ==> a.block(q) is None,
        !(object(a, size, p) matches Err(Stop::Need(_))) ==> object(b, size, p) == object(
            a,
            size,
            p,
        ),
{
    if a.block(p) is Some {
        assert(b.block(p) == a.block(p));
    }
}

proof fn mapped_stays(a: Blocks, b: Blocks, size: u64, omap: u64, oid: u64, xid: u64)
    requires
        extends(a, b),
    ensures
        mapped(a, size, omap, oid, xid) matches Err(Stop::Need(q)) ==> a.block(q) is None,
        !(mapped(a, size, omap, oid, xid) matches Err(Stop::Need(_))) ==> mapped(
            b,
            size,
            omap,
            oid,
            xid,
        ) == mapped(a, size, omap, oid, xid),
{
    object_stays(a, b, size, omap);
    if object(a, size, omap) is Ok {
        object_stays(a, b, size, u64_at(object(a, size, omap)->Ok_0, 48) as u64);
    }
}

proof fn store_extent_stays(a: Blocks, b: Blocks, size: u64, vol: Seq<u8>, xid: u64)
    requires
        extends(a, b),
    ensures
        store_extent(a, size, vol, xid) matches Err(Stop::Need(q)) ==> a.block(q) is None,
        !(store_extent(a, size, vol, xid) matches Err(Stop::Need(_))) ==> store_extent(
            b,
            size,
            vol,
            xid,
        ) == store_extent(a, size, vol, xid),
{
    let oid = u64_at(vol, 136) as u64;
    let omap = u64_at(vol, 128) as u64;
    mapped_stays(a, b, size, omap, oid, xid);
    if mapped(a, size, omap, oid, xid) is Ok {
        object_stays(a, b, size, mapped(a, size, omap, oid, xid)->Ok_0);
    }
}

proof fn mapped_objects_stay(a: Blocks, b: Blocks, size: u64, map: Seq<u8>, xid: u64, n: int)
    requires
        extends(a, b),
    ensures
        mapped_objects(a, size, map, xid, n) matches Err(Stop::Need(q)) ==> a.block(q) is None,
        !(mapped_objects(a, size, map, xid, n) matches Err(Stop::Need(_))) ==> mapped_objects(
            b,
            size,
            map,
            xid,
            n,
        ) == mapped_objects(a, size, map, xid, n),
    decreases n,
{
    if n > 0 {
        reveal(mapped_object);
        mapped_objects_stay(a, b, size, map, xid, n - 1);
        object_stays(a, b, size, u64_at(map, 40 + (n - 1) * 40 + 32) as u64);
    }
}

proof fn mapping_blocks_stay(
    a: Blocks,
    b: Blocks,
    size: u64,
    ring: Ring,
    index: int,
    maps: int,
    xid: u64,
    n: int,
)
    requires
        extends(a, b),
    ensures
        mapping_blocks(a, size, ring, index, maps, xid, n) matches Err(Stop::Need(q)) ==> a.block(
            q,
        ) is None,
        !(mapping_blocks(a, size, ring, index, maps, xid, n) matches Err(Stop::Need(_)))
            ==> mapping_blocks(b, size, ring, index, maps, xid, n) == mapping_blocks(
            a,
            size,
            ring,
            index,
            maps,
            xid,
            n,
        ),
    decreases n,
{
    if n > 0 {
        reveal(mapping_block);
        mapping_blocks_stay(a, b, size, ring, index, maps, xid, n - 1);
        let p = ring_block(ring, index, n - 1) as u64;
        object_stays(a, b, size, p);
        if object(a, size, p) is Ok {
            let map = object(a, size, p)->Ok_0;
            mapped_objects_stay(a, b, size, map, xid, u32_at(map, 36));
        }
    }
}

proof fn latest_checkpoint_stays(
    a: Blocks,
    b: Blocks,
    size: u64,
    blocks: u64,
    ring: Ring,
    n: int,
)
    requires
        extends(a, b),
    ensures
        latest_checkpoint(a, size, blocks, ring, n) matches Err(Stop::Need(q)) ==> a.block(
            q,
        ) is None,
        !(latest_checkpoint(a, size, blocks, ring, n) matches Err(Stop::Need(_)))
            ==> latest_checkpoint(b, size, blocks, ring, n) == latest_checkpoint(
            a,
            size,
            blocks,
            ring,
            n,
        ),
    decreases n,
{
    if n > 0 {
        latest_checkpoint_stays(a, b, size, blocks, ring, n - 1);
        let p = (ring.base + n - 1) as u64;
        object_stays(a, b, size, p);
        if object(a, size, p) is Ok {
            let c = object(a, size, p)->Ok_0;
            let len = u32_at(c, 140);
            mapping_blocks_stay(
                a,
                b,
                size,
                ring,
                u32_at(c, 136),
                len - 1,
                u64_at(c, 16) as u64,
                len - 1,
            );
        }
    }
}

proof fn in_volumes_stays(a: Blocks, b: Blocks, size: u64, sb: Seq<u8>, n: int)
    requires
        extends(a, b),
    ensures
        in_volumes(a, size, sb, n) matches Err(Stop::Need(q)) ==> a.block(q) is None,
        !(in_volumes(a, size, sb, n) matches Err(Stop::Need(_))) ==> in_volumes(b, size, sb, n)
            == in_volumes(a, size, sb, n),
    decreases n,
{
    if n > 0 {
        in_volumes_stays(a, b, size, sb, n - 1);
        let xid = u64_at(sb, 16) as u64;
        let oid = u64_at(sb, 184 + (n - 1) * 8) as u64;
        let omap = u64_at(sb, 160) as u64;
        mapped_stays(a, b, size, omap, oid, xid);
        if mapped(a, size, omap, oid, xid) is Ok {
            let p = mapped(a, size, omap, oid, xid)->Ok_0;
            object_stays(a, b, size, p);
            if object(a, size, p) is Ok {
                let vol = object(a, size, p)->Ok_0;
                store_extent_stays(a, b, size, vol, u64_at(vol, 16) as u64);
            }
        }
    }
}

// ---------------------------------------------------------------------------
// What the parts of the lookup find.
// ---------------------------------------------------------------------------
/// Place `i` of the ring holds a superblock that closes a complete checkpoint: a
/// block in order, with the marks `NXSB` of a container of so many blocks of 4096
/// bytes and no features but the second, whose checkpoint stands.
pub open spec fn closes_checkpoint(b: Blocks, size: u64, blocks: u64, ring: Ring, i: int) -> bool {
    let paddr = (ring.base + i) as u64;
    &&& object(b, size, paddr) is Ok
    &&& ({
        let c = object(b, size, paddr)->Ok_0;
        &&& c.subrange(32, 36) == seq![0x4eu8, 0x58, 0x53, 0x42]
        &&& u32_at(c, 36) == 4096
        &&& u64_at(c, 40) == blocks
        &&& u64_at(c, 56) == 0
        &&& u64_at(c, 64) == 2
        &&& checkpoint(b, size, c, paddr, ring) is Ok
    })
}

/// The four bytes of a mark, read as a number.
proof fn mark_bytes(c: Seq<u8>, m: Seq<u8>, at: int, v: int)
    requires
        0 <= at,
        at + 4 <= c.len(),
        m.len() == 4,
        v == m[0] + 0x100 * m[1] + 0x1_0000 * m[2] + 0x100_0000 * m[3],
    ensures
        c.subrange(at, at + 4) == m <==> u32_at(c, at) == v,
{
    broadcast use crate::bytes::group_le;

    let s = c.subrange(at, at + 4);
    assert(u32_at(c, at) == u32_at(s, 0));
    assert(u32_at(m, 0) == v);
    crate::bytes::u32_le_of_bytes(s);
    crate::bytes::u32_le_of_bytes(m);
}

/// The superblock that the search of the ring gives stands at some place of the
/// ring and closes a complete checkpoint there, and no place of the ring closes
/// one under a higher transaction number. If the search gives none, no place
/// closes one under a number above zero.
pub proof fn latest_checkpoint_is_the_latest(
    b: Blocks,
    size: u64,
    blocks: u64,
    ring: Ring,
    n: int,
    i: int,
)
    requires
        b.wf(),
        0 <= i < n,
        ring.base + n <= u64::MAX,
        closes_checkpoint(b, size, blocks, ring, i),
    ensures
        ({
            let xid = u64_at(object(b, size, (ring.base + i) as u64)->Ok_0, 16);
            match latest_checkpoint(b, size, blocks, ring, n) {
                Ok(Some(sb)) => xid <= u64_at(sb, 16),
                Ok(None) => xid == 0,
                Err(_) => true,
            }
        }),
    decreases n,
{
    let paddr = (ring.base + n - 1) as u64;
    broadcast use crate::bytes::group_le;

    if i == n - 1 {
        let c = object(b, size, paddr)->Ok_0;
        object_is_block(b, size, paddr);
        mark_bytes(c, seq![0x4eu8, 0x58, 0x53, 0x42], 32, 0x4253_584e);
    } else {
        latest_checkpoint_is_the_latest(b, size, blocks, ring, n - 1, i);
    }
}

/// What the search of the ring gives is the block of a place that closes a
/// complete checkpoint.
pub proof fn latest_checkpoint_closes_one(b: Blocks, size: u64, blocks: u64, ring: Ring, n: int)
    requires
        b.wf(),
        ring.base + n <= u64::MAX,
        latest_checkpoint(b, size, blocks, ring, n) matches Ok(Some(_)),
    ensures
        exists|i: int|
            #![trigger closes_checkpoint(b, size, blocks, ring, i)]
            0 <= i < n && closes_checkpoint(b, size, blocks, ring, i) && object(
                b,
                size,
                (ring.base + i) as u64,
            )->Ok_0 == latest_checkpoint(b, size, blocks, ring, n)->Ok_0->0,
    decreases n,
{
    if n > 0 {
        let paddr = (ring.base + n - 1) as u64;
        let before = latest_checkpoint(b, size, blocks, ring, n - 1);
        let now = latest_checkpoint(b, size, blocks, ring, n);
        if now == before {
            latest_checkpoint_closes_one(b, size, blocks, ring, n - 1);
            let i = choose|i: int|
                #![trigger closes_checkpoint(b, size, blocks, ring, i)]
                0 <= i < n - 1 && closes_checkpoint(b, size, blocks, ring, i) && object(
                    b,
                    size,
                    (ring.base + i) as u64,
                )->Ok_0 == before->Ok_0->0;
            assert(closes_checkpoint(b, size, blocks, ring, i));
        } else {
            let c = object(b, size, paddr)->Ok_0;
            object_is_block(b, size, paddr);
            mark_bytes(c, seq![0x4eu8, 0x58, 0x53, 0x42], 32, 0x4253_584e);
            assert(closes_checkpoint(b, size, blocks, ring, n - 1));
        }
    }
}

proof fn object_is_block(b: Blocks, size: u64, paddr: u64)
    requires
        b.wf(),
    ensures
        object(b, size, paddr) matches Ok(d) ==> d.len() == 4096 && b.block(paddr) == Some(
            Ok::<Seq<u8>, Errno>(d),
        ) && paddr * 4096 + 4096 <= size,
{
    if object(b, size, paddr) is Ok {
        known_is_block(b, paddr, b.entries.len() as int);
    }
}

proof fn known_is_block(b: Blocks, paddr: u64, n: int)
    requires
        b.wf(),
        0 <= n <= b.entries.len(),
    ensures
        b.lookup(paddr, n) matches Some(Ok(d)) ==> d.len() == 4096,
    decreases n,
{
    if n > 0 {
        known_is_block(b, paddr, n - 1);
    }
}

/// A complete checkpoint is whole: its superblock speaks of the very ring it was
/// found in and stands behind its mapping blocks there, all of which are of the
/// superblock's own transaction, and of which the last, and only the last, says
/// that it is.
pub proof fn checkpoint_is_whole(
    b: Blocks,
    size: u64,
    sb: Seq<u8>,
    sb_paddr: u64,
    ring: Ring,
    j: int,
)
    requires
        0 < ring.count,
        ring.base + ring.count <= u64::MAX,
        checkpoint(b, size, sb, sb_paddr, ring) is Ok,
        0 <= j < u32_at(sb, 140) - 1,
    ensures
        u64_at(sb, 112) == ring.base && u32_at(sb, 104) == ring.count,
        2 <= u32_at(sb, 140) <= ring.count,
        sb_paddr == ring.base + (u32_at(sb, 136) + u32_at(sb, 140) - 1) % (ring.count as int),
        ({
            let m = object(b, size, (ring.base + (u32_at(sb, 136) + j) % (ring.count as int)) as u64);
            &&& m is Ok
            &&& u64_at(m->Ok_0, 16) == u64_at(sb, 16)
            &&& u32_at(m->Ok_0, 24) % 0x1_0000 == 12
            &&& (u32_at(m->Ok_0, 32) % 2 == 1) <==> j == u32_at(sb, 140) - 2
        }),
{
    reveal(ring_block);
    let maps = u32_at(sb, 140) - 1;
    let index = u32_at(sb, 136);
    let xid = u64_at(sb, 16) as u64;
    assert(u64_at(sb, 16) == xid) by {
        broadcast use crate::bytes::group_le;

    }
    mapping_block_stands(b, size, ring, index, maps, xid, maps, j);
    reveal(mapping_block);
}

proof fn mapping_block_stands(
    b: Blocks,
    size: u64,
    ring: Ring,
    index: int,
    maps: int,
    xid: u64,
    n: int,
    j: int,
)
    requires
        0 <= j < n,
        mapping_blocks(b, size, ring, index, maps, xid, n) is Ok,
    ensures
        mapping_block(b, size, ring_block(ring, index, j) as u64, xid, j + 1 == maps) is Ok,
    decreases n,
{
    if j < n - 1 {
        mapping_block_stands(b, size, ring, index, maps, xid, n - 1, j);
    }
}

/// Each object that a mapping block of a complete checkpoint lists stands where
/// it says: one block in order, under the listed number and kind, of the
/// checkpoint's transaction.
pub proof fn listed_object_stands(
    b: Blocks,
    size: u64,
    paddr: u64,
    xid: u64,
    is_last: bool,
    i: int,
)
    requires
        mapping_block(b, size, paddr, xid, is_last) is Ok,
        0 <= i < u32_at(object(b, size, paddr)->Ok_0, 36),
    ensures
        ({
            let map = object(b, size, paddr)->Ok_0;
            let o = object(b, size, u64_at(map, 72 + 40 * i) as u64);
            &&& u32_at(map, 36) <= 101
            &&& u32_at(map, 48 + 40 * i) == 4096
            &&& o is Ok
            &&& u64_at(o->Ok_0, 8) == u64_at(map, 64 + 40 * i)
            &&& u64_at(o->Ok_0, 16) == xid
            &&& u32_at(o->Ok_0, 24) == u32_at(map, 40 + 40 * i)
        }),
{
    reveal(mapping_block);
    let map = object(b, size, paddr)->Ok_0;
    object_stands(b, size, map, xid, u32_at(map, 36), i);
    reveal(mapped_object);
    assert(40 + i * 40 == 40 + 40 * i);
}

proof fn object_stands(b: Blocks, size: u64, map: Seq<u8>, xid: u64, n: int, i: int)
    requires
        0 <= i < n,
        mapped_objects(b, size, map, xid, n) is Ok,
    ensures
        mapped_object(b, size, map, xid, i) is Ok,
    decreases n,
{
    if i < n - 1 {
        object_stands(b, size, map, xid, n - 1, i);
    }
}

/// Of an object map's entries the one that counts is for the object that is
/// looked for, not of a later transaction than asked for, and of all those it is
/// the latest; if none counts, there is no such entry.
pub proof fn latest_mapping_is_the_latest(tree: Seq<u8>, oid: u64, xid: u64, n: int, i: int)
    requires
        0 <= i < n,
    ensures
        ({
            let key = entry_key(tree, i, true);
            let fits = u64_at(key, 0) == oid && u64_at(key, 8) <= xid;
            match latest_mapping(tree, oid, xid, n) {
                Ok(Some(k)) => {
                    let chosen = entry_key(tree, k, true);
                    &&& 0 <= k < n
                    &&& u64_at(chosen, 0) == oid && u64_at(chosen, 8) <= xid
                    &&& fits ==> u64_at(key, 8) <= u64_at(chosen, 8)
                },
                Ok(None) => !fits,
                Err(_) => true,
            }
        }),
    decreases n,
{
    reveal_with_fuel(latest_mapping, 2);
    if n - 1 > 0 && i < n - 1 {
        latest_mapping_is_the_latest(tree, oid, xid, n - 1, i);
    } else if n - 1 > 0 {
        latest_mapping_is_the_latest(tree, oid, xid, n - 1, 0);
    }
}

/// Where an object map puts an object: the map stands at its own address, its
/// tree where the map says, and the answer is the address in the entry that
/// counts, whose flags do not say that it is gone and whose size is one block.
pub proof fn mapped_is_what_the_map_says(
    b: Blocks,
    size: u64,
    omap_paddr: u64,
    oid: u64,
    xid: u64,
)
    requires
        mapped(b, size, omap_paddr, oid, xid) is Ok,
    ensures
        ({
            let omap = object(b, size, omap_paddr);
            let tree = object(b, size, u64_at(omap->Ok_0, 48) as u64);
            &&& omap is Ok && u64_at(omap->Ok_0, 8) == omap_paddr
            &&& tree is Ok && u64_at(tree->Ok_0, 8) == u64_at(omap->Ok_0, 48)
            &&& exists|k: int|
                #![trigger entry_key(tree->Ok_0, k, true)]
                0 <= k < u32_at(tree->Ok_0, 36) && u64_at(entry_key(tree->Ok_0, k, true), 0) == oid
                    && u64_at(entry_key(tree->Ok_0, k, true), 8) <= xid && mapped(
                    b,
                    size,
                    omap_paddr,
                    oid,
                    xid,
                )->Ok_0 == u64_at(entry_value(tree->Ok_0, k, true), 8) && (u32_at(
                    entry_value(tree->Ok_0, k, true),
                    0,
                ) as u32) & 1 == 0 && u32_at(entry_value(tree->Ok_0, k, true), 4) == 4096
        }),
{
    broadcast use crate::bytes::group_le;

    let omap = object(b, size, omap_paddr)->Ok_0;
    let tree = object(b, size, u64_at(omap, 48) as u64)->Ok_0;
    let n = u32_at(tree, 36);
    let k = latest_mapping(tree, oid, xid, n)->Ok_0->0;
    if n > 0 {
        latest_mapping_is_the_latest(tree, oid, xid, n, 0);
    }
    assert(u64_at(entry_key(tree, k, true), 0) == oid);
}

/// An entry of the root directory with the name `.gl`.
pub open spec fn is_store_name(root: Seq<u8>, i: int) -> bool {
    let key = entry_key(root, i, false);
    let val = entry_value(root, i, false);
    &&& key.len() >= 16 && val.len() >= 8
    &&& u64_at(key, 0) == 0x9000_0000_0000_0002
    &&& u32_at(key, 8) % 0x400 == 4
    &&& key.subrange(12, 16) == seq![0x2eu8, 0x67, 0x6c, 0]
}

/// The store's file is the one that an entry of the root directory names `.gl`,
/// and no two entries do.
pub proof fn store_file_is_named(root: Seq<u8>, n: int)
    requires
        store_file(root, n) is Ok,
    ensures
        match store_file(root, n)->Ok_0 {
            Some(f) => exists|i: int|
                #![trigger is_store_name(root, i)]
                0 <= i < n && is_store_name(root, i) && f == u64_at(entry_value(root, i, false), 0)
                    && forall|j: int|
                    0 <= j < n && #[trigger] is_store_name(root, j) ==> j == i,
            None => forall|j: int| 0 <= j < n ==> !#[trigger] is_store_name(root, j),
        },
    decreases n,
{
    broadcast use crate::bytes::group_le;

    if n > 0 {
        store_file_is_named(root, n - 1);
        let key = entry_key(root, n - 1, false);
        assert(is_store_name(root, n - 1) <==> is_root_entry(root, n - 1) && names_store(key)) by {
            if is_store_name(root, n - 1) {
                assert(key.subrange(12, 16)[0] == 0x2e);
                assert(key.subrange(12, 16)[1] == 0x67);
                assert(key.subrange(12, 16)[2] == 0x6c);
            } else if is_root_entry(root, n - 1) && names_store(key) {
                assert(key[12 + 4 - 1] == 0);
                assert(key.subrange(12, 16) =~= seq![0x2eu8, 0x67, 0x6c, 0]);
            }
        }
        match store_file(root, n - 1)->Ok_0 {
            Some(f) => {
                let i = choose|i: int|
                    #![trigger is_store_name(root, i)]
                    0 <= i < n - 1 && is_store_name(root, i) && f == u64_at(
                        entry_value(root, i, false),
                        0,
                    ) && forall|j: int|
                        0 <= j < n - 1 && #[trigger] is_store_name(root, j) ==> j == i;
                assert(is_store_name(root, i));
            },
            None => {
                if is_store_name(root, n - 1) {
                    assert(store_file(root, n)->Ok_0 == Some(
                        u64_at(entry_value(root, n - 1, false), 0) as u64,
                    ));
                }
            },
        }
    }
}

/// The record of a file with this number.
pub open spec fn is_inode_of(root: Seq<u8>, file: u64, i: int) -> bool {
    let key = entry_key(root, i, false);
    key.len() >= 8 && u64_at(key, 0) == (0x3000_0000_0000_0000u64 | file)
}

/// A file's private number is the one in its record, and it has no two.
pub proof fn private_number_is_recorded(root: Seq<u8>, file: u64, n: int)
    requires
        private_number(root, file, n) is Ok,
    ensures
        match private_number(root, file, n)->Ok_0 {
            Some(p) => exists|i: int|
                #![trigger is_inode_of(root, file, i)]
                0 <= i < n && is_inode_of(root, file, i) && p == u64_at(
                    entry_value(root, i, false),
                    8,
                ) && forall|j: int| 0 <= j < n && #[trigger] is_inode_of(root, file, j) ==> j == i,
            None => forall|j: int| 0 <= j < n ==> !#[trigger] is_inode_of(root, file, j),
        },
    decreases n,
{
    broadcast use crate::bytes::group_le;

    if n > 0 {
        private_number_is_recorded(root, file, n - 1);
        if let Some(p) = private_number(root, file, n - 1)->Ok_0 {
            let i = choose|i: int|
                #![trigger is_inode_of(root, file, i)]
                0 <= i < n - 1 && is_inode_of(root, file, i) && p == u64_at(
                    entry_value(root, i, false),
                    8,
                ) && forall|j: int| 0 <= j < n - 1 && #[trigger] is_inode_of(root, file, j) ==> j == i;
            assert(is_inode_of(root, file, i));
        } else if is_inode_of(root, file, n - 1) {
            assert(private_number(root, file, n)->Ok_0 == Some(
                u64_at(entry_value(root, n - 1, false), 8) as u64,
            ));
        }
    }
}

/// A record of an extent of the file with this private number.
pub open spec fn is_extent_of(root: Seq<u8>, private_id: u64, i: int) -> bool {
    let key = entry_key(root, i, false);
    key.len() >= 16 && u64_at(key, 0) == (0x8000_0000_0000_0000u64 | private_id)
}

/// The extent that is handed out is the only one of its file, covers six
/// mebibytes from the file's start, is not encrypted, and starts at the block that
/// its record names.
pub proof fn extent_is_the_only_one(root: Seq<u8>, size: u64, private_id: u64, n: int)
    requires
        sole_extent(root, size, private_id, n) is Ok,
    ensures
        match sole_extent(root, size, private_id, n)->Ok_0 {
            Some(start) => exists|i: int|
                #![trigger is_extent_of(root, private_id, i)]
                0 <= i < n && is_extent_of(root, private_id, i) && start == 4096 * u64_at(
                    entry_value(root, i, false),
                    8,
                ) && u64_at(entry_key(root, i, false), 8) == 0 && u64_at(
                    entry_value(root, i, false),
                    0,
                ) == 6 * 1024 * 1024 && u64_at(entry_value(root, i, false), 16) == 0 && forall|
                    j: int,
                |
                    0 <= j < n && #[trigger] is_extent_of(root, private_id, j) ==> j == i,
            None => forall|j: int| 0 <= j < n ==> !#[trigger] is_extent_of(root, private_id, j),
        },
    decreases n,
{
    broadcast use crate::bytes::group_le;

    if n > 0 {
        extent_is_the_only_one(root, size, private_id, n - 1);
        if let Some(start) = sole_extent(root, size, private_id, n - 1)->Ok_0 {
            let i = choose|i: int|
                #![trigger is_extent_of(root, private_id, i)]
                0 <= i < n - 1 && is_extent_of(root, private_id, i) && start == 4096 * u64_at(
                    entry_value(root, i, false),
                    8,
                ) && u64_at(entry_key(root, i, false), 8) == 0 && u64_at(
                    entry_value(root, i, false),
                    0,
                ) == 6 * 1024 * 1024 && u64_at(entry_value(root, i, false), 16) == 0 && forall|
                    j: int,
                |
                    0 <= j < n - 1 && #[trigger] is_extent_of(root, private_id, j) ==> j == i;
            assert(is_extent_of(root, private_id, i));
        } else if is_extent_of(root, private_id, n - 1) {
            assert(is_extent_of(root, private_id, n - 1));
        }
    }
}

/// Volume `i` of a container, as of the container's transaction: its superblock,
/// if it can be had.
pub open spec fn volume_at(b: Blocks, size: u64, sb: Seq<u8>, i: int) -> Option<Seq<u8>> {
    let oid = u64_at(sb, 184 + 8 * i) as u64;
    match mapped(b, size, u64_at(sb, 160) as u64, oid, u64_at(sb, 16) as u64) {
        Ok(paddr) => if oid != 0 && object(b, size, paddr) is Ok {
            Some(object(b, size, paddr)->Ok_0)
        } else {
            None
        },
        Err(_) => None,
    }
}

/// What is found is on the one volume with the store's role, which is 0x100: the
/// volume bears the mark `APSB` and its own number, is no newer than the
/// container, and its store extent is the one handed out. If nothing is found, no
/// volume has that role.
pub proof fn store_is_on_its_volume(b: Blocks, size: u64, sb: Seq<u8>, n: int, j: int)
    requires
        in_volumes(b, size, sb, n) is Ok,
        0 <= j < n,
    ensures
        volume_at(b, size, sb, j) is Some && u16_at(volume_at(b, size, sb, j)->0, 964) == 0x100
            ==> (in_volumes(b, size, sb, n)->Ok_0 matches Some(start) && store_extent(
            b,
            size,
            volume_at(b, size, sb, j)->0,
            u64_at(volume_at(b, size, sb, j)->0, 16) as u64,
        ) == Ok::<u64, Stop>(start)),
        volume_at(b, size, sb, j) matches Some(vol) ==> u32_at(vol, 32) == 0x4253_5041 && u64_at(
            vol,
            8,
        ) == u64_at(sb, 184 + 8 * j) && u64_at(vol, 16) <= u64_at(sb, 16),
    decreases n,
{
    broadcast use crate::bytes::group_le;

    assert(184 + (n - 1) * 8 == 184 + 8 * (n - 1));
    if j < n - 1 {
        store_is_on_its_volume(b, size, sb, n - 1, j);
    }
}

/// What is found was found somewhere: one of the volumes has the store's role.
pub proof fn found_store_has_a_volume(b: Blocks, size: u64, sb: Seq<u8>, n: int)
    requires
        in_volumes(b, size, sb, n) matches Ok(Some(_)),
    ensures
        exists|j: int|
            0 <= j < n && (#[trigger] volume_at(b, size, sb, j)) is Some && u16_at(
                volume_at(b, size, sb, j)->0,
                964,
            ) == 0x100,
    decreases n,
{
    broadcast use crate::bytes::group_le;

    assert(184 + (n - 1) * 8 == 184 + 8 * (n - 1));
    if n > 0 {
        if in_volumes(b, size, sb, n - 1) matches Ok(Some(_)) {
            found_store_has_a_volume(b, size, sb, n - 1);
            let j = choose|j: int|
                0 <= j < n - 1 && (#[trigger] volume_at(b, size, sb, j)) is Some && u16_at(
                    volume_at(b, size, sb, j)->0,
                    964,
                ) == 0x100;
            assert(volume_at(b, size, sb, j) is Some);
        } else {
            assert(volume_at(b, size, sb, n - 1) is Some);
        }
    }
}

/// A lookup that succeeds went by the latest complete checkpoint: whichever place
/// of the descriptor ring that the first block describes closes one, the
/// superblock whose volumes were searched has no lower transaction number.
pub proof fn located_by_the_latest_checkpoint(b: Blocks, device_size: u64, i: int)
    requires
        b.wf(),
        located(b, device_size) is Ok,
    ensures
        ({
            let base = object(b, device_size, 0)->Ok_0;
            let blocks = u64_at(base, 40) as u64;
            let size = (4096 * blocks) as u64;
            let ring = Ring { base: u64_at(base, 112) as u64, count: u32_at(base, 104) as u64 };
            exists|k: int|
                #![trigger closes_checkpoint(b, size, blocks, ring, k)]
                0 <= k < ring.count && closes_checkpoint(b, size, blocks, ring, k) && ({
                    let sb = object(b, size, (ring.base + k) as u64)->Ok_0;
                    &&& in_volumes(b, size, sb, 100) == Ok::<Option<u64>, Stop>(
                        Some(located(b, device_size)->Ok_0),
                    )
                    &&& 0 <= i < ring.count && closes_checkpoint(b, size, blocks, ring, i)
                        ==> u64_at(object(b, size, (ring.base + i) as u64)->Ok_0, 16) <= u64_at(
                        sb,
                        16,
                    )
                })
        }),
{
    broadcast use crate::bytes::group_le;

    let base = object(b, device_size, 0)->Ok_0;
    let blocks = u64_at(base, 40) as u64;
    let size = (4096 * blocks) as u64;
    let ring = Ring { base: u64_at(base, 112) as u64, count: u32_at(base, 104) as u64 };
    let n = ring.count as int;
    latest_checkpoint_closes_one(b, size, blocks, ring, n);
    let k = choose|k: int|
        #![trigger closes_checkpoint(b, size, blocks, ring, k)]
        0 <= k < n && closes_checkpoint(b, size, blocks, ring, k) && object(
            b,
            size,
            (ring.base + k) as u64,
        )->Ok_0 == latest_checkpoint(b, size, blocks, ring, n)->Ok_0->0;
    assert(closes_checkpoint(b, size, blocks, ring, k));
    if 0 <= i < n && closes_checkpoint(b, size, blocks, ring, i) {
        latest_checkpoint_is_the_latest(b, size, blocks, ring, n, i);
    }
}

/// The sum of the first `n` words behind a block's first eight bytes.
pub open spec fn sum_of_words(data: Seq<u8>, n: int) -> int
    decreases n,
{
    if n <= 0 {
        0
    } else {
        sum_of_words(data, n - 1) + u32_at(data, 4 + 4 * n)
    }
}

/// The sum of the sums of the first word, the first two, and so on up to the first `n`.
pub open spec fn sum_of_sums(data: Seq<u8>, n: int) -> int
    decreases n,
{
    if n <= 0 {
        0
    } else {
        sum_of_sums(data, n - 1) + sum_of_words(data, n)
    }
}

/// The running sums are the sum of the words and the sum of their sums, modulo two to the
/// 32nd less one.
proof fn running_sums(data: Seq<u8>, n: int)
    ensures
        fletcher(data, n).0 == sum_of_words(data, n) % 0xffff_ffff,
        fletcher(data, n).1 == sum_of_sums(data, n) % 0xffff_ffff,
    decreases n,
{
    if n > 0 {
        running_sums(data, n - 1);
        let m: int = 0xffff_ffff;
        let w = u32_at(data, 8 + 4 * (n - 1));
        vstd::arithmetic::div_mod::lemma_add_mod_noop(sum_of_words(data, n - 1), w, m);
        vstd::arithmetic::div_mod::lemma_add_mod_noop(fletcher(data, n - 1).0, w, m);
        vstd::arithmetic::div_mod::lemma_mod_twice(sum_of_words(data, n - 1), m);
        let s1 = fletcher(data, n).0;
        assert(s1 == sum_of_words(data, n) % m);
        vstd::arithmetic::div_mod::lemma_add_mod_noop(
            sum_of_sums(data, n - 1),
            sum_of_words(data, n),
            m,
        );
    }
}

/// The checksum of a block is over the 1022 words behind it, and closes the block: with
/// its two words behind them, the low one first, the sum of all words and the sum of their
/// sums are both multiples of two to the 32nd less one.
pub proof fn checksum_closes_the_block(data: Seq<u8>)
    ensures
        ({
            let m: int = 0xffff_ffff;
            let c1 = block_checksum(data) % 0x1_0000_0000;
            let c2 = block_checksum(data) / 0x1_0000_0000;
            let words = sum_of_words(data, 1022);
            let sums = sum_of_sums(data, 1022);
            &&& 0 <= c1 < m && 0 <= c2 < m
            &&& (words + c1 + c2) % m == 0
            &&& (sums + (words + c1) + (words + c1 + c2)) % m == 0
        }),
{
    let m: int = 0xffff_ffff;
    let (s1, s2) = fletcher(data, 1022);
    running_sums(data, 1022);
    let words = sum_of_words(data, 1022);
    let sums = sum_of_sums(data, 1022);
    let c1 = (m - (s1 + s2) % m) % m;
    let c2 = (m - (s1 + c1) % m) % m;
    assert(block_checksum(data) == 0x1_0000_0000 * c2 + c1);
    let q1 = words / m;
    let q2 = sums / m;
    assert(words == m * q1 + s1 && sums == m * q2 + s2);
    assert((s1 + s2 + c1) % m == 0);
    assert((s1 + c1 + c2) % m == 0);
    let k1 = (s1 + s2 + c1) / m;
    let k2 = (s1 + c1 + c2) / m;
    assert(words + c1 + c2 == m * (q1 + k2));
    assert(sums + (words + c1) + (words + c1 + c2) == m * (2 * q1 + q2 + k1 + k2));
    vstd::arithmetic::div_mod::lemma_mod_multiples_basic(q1 + k2, m);
    vstd::arithmetic::div_mod::lemma_mod_multiples_basic(2 * q1 + q2 + k1 + k2, m);
}

/// A block is good where it lies in the device and its first eight bytes are its checksum;
/// one that is not known yet is asked for, and what could not be read fails as the reading
/// did.
pub proof fn blocks_are_checked(b: Blocks, size: u64, paddr: u64)
    ensures
        4096 * (paddr + 1) > size ==> object(b, size, paddr) == Err::<Seq<u8>, Stop>(
            Stop::Fail(Errno::EINVAL),
        ),
        4096 * (paddr + 1) <= size && b.block(paddr) is None ==> object(b, size, paddr) == Err::<
            Seq<u8>,
            Stop,
        >(Stop::Need(paddr)),
        4096 * (paddr + 1) <= size ==> (b.block(paddr) matches Some(Err(e)) ==> object(
            b,
            size,
            paddr,
        ) == Err::<Seq<u8>, Stop>(Stop::Fail(e))),
        4096 * (paddr + 1) <= size ==> (b.block(paddr) matches Some(Ok(d)) ==> object(
            b,
            size,
            paddr,
        ) == if u64_at(d, 0) == block_checksum(d) {
            Ok::<Seq<u8>, Stop>(d)
        } else {
            Err::<Seq<u8>, Stop>(Stop::Fail(Errno::EIO))
        }),
{
}

/// Where an entry of varying length stands in a leaf: the table starts 56 bytes in and as
/// far on as the word at 40 says, keys start as far behind as the word at 42 says, and of
/// the four words of an entry the first two are the place and length of its key, the
/// others the distance of its value from the end of the values, and its length.
pub proof fn varying_entry_stands(node: Seq<u8>, i: int)
    ensures
        ({
            let at = 56 + u16_at(node, 40) + 8 * i;
            let key = 56 + u16_at(node, 40) + u16_at(node, 42) + u16_at(node, at);
            let value = values_end(node) - u16_at(node, at + 4);
            &&& entry_key(node, i, false) == node.subrange(key, key + u16_at(node, at + 2))
            &&& entry_value(node, i, false) == node.subrange(value, value + u16_at(node, at + 6))
        }),
        (u16_at(node, 32) as u16) & 1 == 0 ==> values_end(node) == 4096,
        (u16_at(node, 32) as u16) & 1 != 0 ==> values_end(node) == 4056,
{
}

/// Where an entry of fixed length stands in a leaf: two words each, for the place of a key
/// of sixteen bytes and the distance of a value of sixteen from the end of the values.
pub proof fn fixed_entry_stands(node: Seq<u8>, i: int)
    ensures
        ({
            let at = 56 + u16_at(node, 40) + 4 * i;
            let key = 56 + u16_at(node, 40) + u16_at(node, 42) + u16_at(node, at);
            let value = values_end(node) - u16_at(node, at + 2);
            &&& entry_key(node, i, true) == node.subrange(key, key + 16)
            &&& entry_value(node, i, true) == node.subrange(value, value + 16)
        }),
{
}

/// An entry is not read from a node that is no leaf or of the other kind; nor behind the
/// last, or from a node that claims more than 512; nor where the table, its key or its
/// value does not lie where it should.
pub proof fn entries_are_refused(node: Seq<u8>, i: int, fixed: bool)
    ensures
        u16_at(node, 34) != 0 ==> entry_error(node, i, fixed) == Some(Errno::ENOTSUPP),
        fixed && (u16_at(node, 32) as u16) & 4 == 0 ==> entry_error(node, i, fixed) == Some(
            Errno::ENOTSUPP,
        ),
        !fixed && (u16_at(node, 32) as u16) & 4 != 0 ==> entry_error(node, i, fixed) == Some(
            Errno::ENOTSUPP,
        ),
        entry_error(node, i, fixed) is None ==> {
            let count = u32_at(node, 36);
            let table = 56 + u16_at(node, 40);
            let keys = table + u16_at(node, 42);
            &&& i < count <= 512
            &&& table + (if fixed {
                4 * count
            } else {
                8 * count
            }) <= keys <= values_end(node)
            &&& entry_bounds(node, i, fixed).1 <= values_end(node)
            &&& entry_bounds(node, i, fixed).2 >= keys
            &&& entry_bounds(node, i, fixed).3 <= values_end(node)
        },
        entry_error(node, i, fixed) matches Some(e) ==> e == Errno::ENOTSUPP || e == Errno::EINVAL,
{
}

/// What the first block of a container has to say: the mark `NXSB`, blocks of 4096 bytes,
/// as many as the device holds at the most, no features but the second, and a ring of 1 to
/// 1024 blocks within.
pub proof fn first_block_is_judged(b: Blocks, device_size: u64)
    requires
        object(b, device_size, 0) is Ok,
    ensures
        ({
            let base = object(b, device_size, 0)->Ok_0;
            let unsupported = Err::<u64, Stop>(Stop::Fail(Errno::ENOTSUPP));
            &&& u32_at(base, 32) != 0x4253_584e ==> located(b, device_size) == unsupported
            &&& u32_at(base, 36) != 4096 ==> located(b, device_size) == unsupported
            &&& u64_at(base, 40) == 0 ==> located(b, device_size) == unsupported
            &&& 4096 * u64_at(base, 40) > device_size ==> located(b, device_size) == unsupported
            &&& u64_at(base, 56) != 0 ==> located(b, device_size) == unsupported
            &&& u64_at(base, 64) != 2 ==> located(b, device_size) == unsupported
            &&& located(b, device_size) is Ok ==> 1 <= u32_at(base, 104) <= 1024 && u64_at(
                base,
                112,
            ) + u32_at(base, 104) <= u64_at(base, 40)
        }),
{
    let base = object(b, device_size, 0)->Ok_0;
    assert(0 <= u32_at(base, 40) && 0 <= u32_at(base, 44));
}

/// Where a volume keeps the store: the volume is not encrypted, its map at 128 puts the
/// tree whose number stands at 136, the tree is a leaf of varying entries under that
/// number, and there the file is named, has its number, and has its extent.
pub proof fn store_is_reached_on_its_volume(b: Blocks, size: u64, vol: Seq<u8>, xid: u64)
    requires
        store_extent(b, size, vol, xid) is Ok,
    ensures
        ({
            let oid = u64_at(vol, 136) as u64;
            let paddr = mapped(b, size, u64_at(vol, 128) as u64, oid, xid);
            let root = object(b, size, paddr->Ok_0)->Ok_0;
            let count = u32_at(root, 36);
            let file = store_file(root, count)->Ok_0->0;
            let id = private_number(root, file, count)->Ok_0->0;
            &&& u64_at(vol, 264) % 2 == 1
            &&& paddr is Ok && object(b, size, paddr->Ok_0) is Ok
            &&& u64_at(root, 8) == oid
            &&& u16_at(root, 34) == 0
            &&& (u16_at(root, 32) as u16) & 4 == 0
            &&& store_file(root, count) matches Ok(Some(_))
            &&& private_number(root, file, count) matches Ok(Some(_))
            &&& sole_extent(root, size, id, count) == Ok::<Option<u64>, Errno>(
                Some(store_extent(b, size, vol, xid)->Ok_0),
            )
        }),
{
}

} // verus!
