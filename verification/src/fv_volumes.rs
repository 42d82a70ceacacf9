//! Which key bag the class keys of a volume were loaded from, and how often.

use vstd::prelude::*;

use crate::errno::Errno;
use crate::uuid::Uuid;

verus! {

pub const FV_MAX_VOLUME_MAPS: usize = 32;

/// A volume, the bag that holds its class keys, and how often they were loaded.
#[derive(Clone, Copy, Debug, PartialEq, Eq, Structural)]
pub struct VolumeMap {
    pub apfs: Uuid,
    pub bag: Uuid,
    pub refs: u32,
}

/// The volumes whose class keys are loaded.
pub struct Volumes {
    maps: Vec<VolumeMap>,
}

/// Where a volume stands, looked for from `from` on.
pub open spec fn place(maps: Seq<VolumeMap>, apfs: Uuid, from: int) -> Option<int>
    decreases maps.len() - from,
{
    if from >= maps.len() || from < 0 {
        None
    } else if maps[from].apfs == apfs {
        Some(from)
    } else {
        place(maps, apfs, from + 1)
    }
}

proof fn place_is_there(maps: Seq<VolumeMap>, apfs: Uuid, from: int)
    requires
        0 <= from,
    ensures
        place(maps, apfs, from) matches Some(i) ==> from <= i < maps.len() && maps[i].apfs == apfs,
        place(maps, apfs, from) is None ==> forall|j: int|
            from <= j < maps.len() ==> (#[trigger] maps[j]).apfs != apfs,
    decreases maps.len() - from,
{
    if from < maps.len() && maps[from].apfs != apfs {
        place_is_there(maps, apfs, from + 1);
    }
}

/// Where no volume stands twice, one that stands at `i` is found there.
pub proof fn place_of(maps: Seq<VolumeMap>, apfs: Uuid, from: int, i: int)
    requires
        0 <= from <= i < maps.len(),
        maps[i].apfs == apfs,
        no_twice(maps),
    ensures
        place(maps, apfs, from) == Some(i),
    decreases i - from,
{
    if from < i {
        assert(maps[from].apfs != maps[i].apfs);
        place_of(maps, apfs, from + 1, i);
    }
}

pub open spec fn no_twice(maps: Seq<VolumeMap>) -> bool {
    forall|i: int, j: int|
        0 <= i < j < maps.len() ==> (#[trigger] maps[i]).apfs != (#[trigger] maps[j]).apfs
}

/// The bag of a volume: the recorded one, or the one of the volume's own name.
pub open spec fn bag_of(maps: Seq<VolumeMap>, apfs: Uuid) -> Uuid {
    match place(maps, apfs, 0) {
        Some(i) => maps[i].bag,
        None => apfs,
    }
}

/// What comes of recording that a volume's keys were loaded from a bag.
pub open spec fn recorded(maps: Seq<VolumeMap>, apfs: Uuid, bag: Uuid) -> Result<
    Seq<VolumeMap>,
    Errno,
> {
    match place(maps, apfs, 0) {
        Some(i) => if maps[i].bag != bag {
            Err(Errno::EINVAL)
        } else if maps[i].refs == u32::MAX {
            Err(Errno::EOVERFLOW)
        } else {
            Ok(maps.update(i, VolumeMap { refs: (maps[i].refs + 1) as u32, ..maps[i] }))
        },
        None => if maps.len() >= 32 {
            Err(Errno::ENOSPC)
        } else {
            Ok(maps.push(VolumeMap { apfs, bag, refs: 1 }))
        },
    }
}

/// What comes of recording that they were unloaded. The last of the volumes
/// takes the place of one that leaves.
pub open spec fn unrecorded(maps: Seq<VolumeMap>, apfs: Uuid, bag: Uuid) -> Result<
    Seq<VolumeMap>,
    Errno,
> {
    match place(maps, apfs, 0) {
        None => Err(Errno::ENOENT),
        Some(i) => if maps[i].bag != bag {
            Err(Errno::EINVAL)
        } else if maps[i].refs > 1 {
            Ok(maps.update(i, VolumeMap { refs: (maps[i].refs - 1) as u32, ..maps[i] }))
        } else {
            Ok(maps.update(i, maps.last()).drop_last())
        },
    }
}

impl Volumes {
    pub closed spec fn view(&self) -> Seq<VolumeMap> {
        self.maps@
    }

    /// No volume stands twice, none stands without having been loaded, and
    /// there are not too many.
    pub open spec fn wf(&self) -> bool {
        &&& no_twice(self@)
        &&& self@.len() <= 32
        &&& forall|i: int| 0 <= i < self@.len() ==> (#[trigger] self@[i]).refs > 0
    }

    pub fn new() -> (v: Volumes)
        ensures
            v.wf(),
            v@ == Seq::<VolumeMap>::empty(),
    {
        Volumes { maps: Vec::new() }
    }

    fn find(&self, apfs: Uuid) -> (r: Option<usize>)
        ensures
            match r {
                Some(i) => place(self@, apfs, 0) == Some(i as int) && i < self@.len(),
                None => place(self@, apfs, 0) is None,
            },
    {
        let mut i: usize = 0;
        while i < self.maps.len()
            invariant
                i <= self.maps.len(),
                place(self@, apfs, 0) == place(self@, apfs, i as int),
            decreases self.maps.len() - i,
        {
            if self.maps[i].apfs == apfs {
                return Some(i);
            }
            i = i + 1;
        }
        None
    }

    /// The bag to name when a volume's keys are used.
    pub fn resolve(&self, apfs: Uuid) -> (bag: Uuid)
        ensures
            bag == bag_of(self@, apfs),
    {
        match self.find(apfs) {
            Some(i) => self.maps[i].bag,
            None => apfs,
        }
    }

    /// Records that a volume's keys were loaded from a bag.
    pub fn record(&mut self, apfs: Uuid, bag: Uuid) -> (r: Result<(), Errno>)
        requires
            old(self).wf(),
        ensures
            final(self).wf(),
            match recorded(old(self)@, apfs, bag) {
                Ok(maps) => r is Ok && final(self)@ == maps,
                Err(e) => r == Err::<(), Errno>(e) && final(self)@ == old(self)@,
            },
    {
        proof {
            place_is_there(self@, apfs, 0);
        }
        match self.find(apfs) {
            Some(i) => {
                let m = self.maps[i];
                if m.bag != bag {
                    return Err(Errno::EINVAL);
                }
                if m.refs == u32::MAX {
                    return Err(Errno::EOVERFLOW);
                }
                self.maps.set(i, VolumeMap { refs: m.refs + 1, ..m });
                Ok(())
            },
            None => {
                if self.maps.len() >= FV_MAX_VOLUME_MAPS {
                    return Err(Errno::ENOSPC);
                }
                self.maps.push(VolumeMap { apfs, bag, refs: 1 });
                Ok(())
            },
        }
    }

    /// Records that a volume's keys were unloaded once.
    pub fn unrecord(&mut self, apfs: Uuid, bag: Uuid) -> (r: Result<(), Errno>)
        requires
            old(self).wf(),
        ensures
            final(self).wf(),
            match unrecorded(old(self)@, apfs, bag) {
                Ok(maps) => r is Ok && final(self)@ == maps,
                Err(e) => r == Err::<(), Errno>(e) && final(self)@ == old(self)@,
            },
    {
        match self.find(apfs) {
            None => Err(Errno::ENOENT),
            Some(i) => {
                let m = self.maps[i];
                if m.bag != bag {
                    return Err(Errno::EINVAL);
                }
                if m.refs > 1 {
                    self.maps.set(i, VolumeMap { refs: m.refs - 1, ..m });
                } else {
                    let _ = self.maps.swap_remove(i);
                    assert(self@ =~= old(self)@.update(i as int, old(self)@.last()).drop_last());
                }
                Ok(())
            },
        }
    }
}

/// Taking a record back leaves the volumes as they were before it.
pub proof fn unrecord_undoes_record(maps: Seq<VolumeMap>, apfs: Uuid, bag: Uuid)
    requires
        no_twice(maps),
        forall|i: int| 0 <= i < maps.len() ==> (#[trigger] maps[i]).refs > 0,
        recorded(maps, apfs, bag) is Ok,
    ensures
        unrecorded(recorded(maps, apfs, bag)->Ok_0, apfs, bag) == Ok::<Seq<VolumeMap>, Errno>(
            maps,
        ),
{
    place_is_there(maps, apfs, 0);
    let after = recorded(maps, apfs, bag)->Ok_0;
    match place(maps, apfs, 0) {
        Some(i) => {
            place_of(after, apfs, 0, i);
            assert(unrecorded(after, apfs, bag)->Ok_0 =~= maps);
        },
        None => {
            let i = maps.len() as int;
            place_of(after, apfs, 0, i);
            assert(unrecorded(after, apfs, bag)->Ok_0 =~= maps);
        },
    }
}

/// Once a volume is recorded its keys are asked of the recorded bag.
pub proof fn recorded_bag_is_named(maps: Seq<VolumeMap>, apfs: Uuid, bag: Uuid)
    requires
        no_twice(maps),
        recorded(maps, apfs, bag) is Ok,
    ensures
        bag_of(recorded(maps, apfs, bag)->Ok_0, apfs) == bag,
{
    place_is_there(maps, apfs, 0);
    let after = recorded(maps, apfs, bag)->Ok_0;
    match place(maps, apfs, 0) {
        Some(i) => {
            place_of(after, apfs, 0, i);
        },
        None => {
            place_of(after, apfs, 0, maps.len() as int);
        },
    }
}

/// The first record of a volume stands behind the others with one load, and a second load
/// from the same bag counts up and adds nothing.
pub proof fn loads_are_counted(maps: Seq<VolumeMap>, apfs: Uuid, bag: Uuid)
    requires
        no_twice(maps),
        maps.len() < 32,
        place(maps, apfs, 0) is None,
    ensures
        ({
            let once = recorded(maps, apfs, bag)->Ok_0;
            let twice = recorded(once, apfs, bag)->Ok_0;
            &&& recorded(maps, apfs, bag) is Ok
            &&& once == maps.push(VolumeMap { apfs, bag, refs: 1 })
            &&& recorded(once, apfs, bag) is Ok
            &&& twice == maps.push(VolumeMap { apfs, bag, refs: 2 })
            &&& unrecorded(twice, apfs, bag) == Ok::<Seq<VolumeMap>, Errno>(once)
            &&& unrecorded(once, apfs, bag) == Ok::<Seq<VolumeMap>, Errno>(maps)
        }),
{
    let once = maps.push(VolumeMap { apfs, bag, refs: 1 });
    let twice = maps.push(VolumeMap { apfs, bag, refs: 2 });
    let n = maps.len() as int;
    place_is_there(maps, apfs, 0);
    assert forall|i: int, j: int| 0 <= i < j < once.len() implies (#[trigger] once[i]).apfs != (
    #[trigger] once[j]).apfs by {
        if j == n {
            assert(maps[i].apfs != apfs);
        } else {
            assert(maps[i].apfs != maps[j].apfs);
        }
    }
    assert forall|i: int, j: int| 0 <= i < j < twice.len() implies (#[trigger] twice[i]).apfs != (
    #[trigger] twice[j]).apfs by {
        if j == n {
            assert(maps[i].apfs != apfs);
        } else {
            assert(maps[i].apfs != maps[j].apfs);
        }
    }
    place_of(once, apfs, 0, n);
    place_of(twice, apfs, 0, n);
    assert(once.update(n, VolumeMap { apfs, bag, refs: 2 }) =~= twice);
    assert(twice.update(n, VolumeMap { apfs, bag, refs: 1 }) =~= once);
    assert(once.update(n, once.last()).drop_last() =~= maps);
}

/// Loads that are refused: of a volume under another bag, past the largest count, or of
/// one more than thirty-two volumes. Unloads that are refused: of a volume that was not
/// loaded, or under another bag.
pub proof fn refused_records(maps: Seq<VolumeMap>, apfs: Uuid, bag: Uuid, i: int)
    requires
        no_twice(maps),
    ensures
        0 <= i < maps.len() && maps[i].apfs == apfs && maps[i].bag != bag ==> recorded(
            maps,
            apfs,
            bag,
        ) == Err::<Seq<VolumeMap>, Errno>(Errno::EINVAL) && unrecorded(maps, apfs, bag) == Err::<
            Seq<VolumeMap>,
            Errno,
        >(Errno::EINVAL),
        0 <= i < maps.len() && maps[i].apfs == apfs && maps[i].bag == bag && maps[i].refs
            == u32::MAX ==> recorded(maps, apfs, bag) == Err::<Seq<VolumeMap>, Errno>(
            Errno::EOVERFLOW,
        ),
        (forall|j: int| 0 <= j < maps.len() ==> (#[trigger] maps[j]).apfs != apfs) && maps.len()
            >= 32 ==> recorded(maps, apfs, bag) == Err::<Seq<VolumeMap>, Errno>(Errno::ENOSPC),
        (forall|j: int| 0 <= j < maps.len() ==> (#[trigger] maps[j]).apfs != apfs) ==> unrecorded(
            maps,
            apfs,
            bag,
        ) == Err::<Seq<VolumeMap>, Errno>(Errno::ENOENT),
{
    place_is_there(maps, apfs, 0);
    if 0 <= i < maps.len() && maps[i].apfs == apfs {
        place_of(maps, apfs, 0, i);
    }
}

/// The keys of a volume that was not loaded are asked of the bag of its own name, those of
/// one that was of its bag.
pub proof fn bags_are_named(maps: Seq<VolumeMap>, apfs: Uuid, i: int)
    requires
        no_twice(maps),
    ensures
        (forall|j: int| 0 <= j < maps.len() ==> (#[trigger] maps[j]).apfs != apfs) ==> bag_of(
            maps,
            apfs,
        ) == apfs,
        0 <= i < maps.len() && maps[i].apfs == apfs ==> bag_of(maps, apfs) == maps[i].bag,
{
    place_is_there(maps, apfs, 0);
    if 0 <= i < maps.len() && maps[i].apfs == apfs {
        place_of(maps, apfs, 0, i);
    }
}

} // verus!
