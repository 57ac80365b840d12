//! The tracer's table of processes. Each process gets a sandbox pid (vpid) from 1 up to
//! `PID_LIMIT`, handed out in sequence and reused once free; the table remembers the
//! host pid of the process in each slot, and maps host pids back to vpids. The
//! processes themselves (their tasks) are kept by the tracer under the same vpids.
use vstd::prelude::*;
use vstd::set_lib::{lemma_int_range, lemma_len_subset, lemma_map_size, set_int_range};
use heapless::FnvIndexMap;
use crate::protocol::{SysPid, VPid};

verus! {

/// The number of sandbox pids.
pub const PID_LIMIT: u32 = 32768;

#[verifier::external_type_specification]
#[verifier::external_body]
#[verifier::reject_recursive_types(T)]
pub struct ExHeaplessVec<T, const N: usize>(heapless::Vec<T, N>);

/// The slots of the table: the host pid of the process whose vpid is the index plus
/// one, if there is one.
pub type Slots = heapless::Vec<Option<u32>, 32768>;

/// What the slots hold.
pub uninterp spec fn slots_view(v: Slots) -> Seq<Option<u32>>;

/// `heapless::Vec::new`: an empty vector, boxed. It holds nothing.
#[verifier::external_body]
fn slots_new() -> (r: Box<Slots>)
    ensures
        slots_view(*r) == Seq::<Option<u32>>::empty(),
{
    Box::new(heapless::Vec::new())
}

/// `heapless::Vec::len`: the number of items.
#[verifier::external_body]
fn slots_len(v: &Slots) -> (r: usize)
    ensures
        r == slots_view(*v).len(),
        r <= PID_LIMIT,
{
    v.len()
}

/// Indexing a `heapless::Vec` (through its slice): the item at `i`, which must exist.
#[verifier::external_body]
fn slots_get(v: &Slots, i: usize) -> (r: Option<u32>)
    requires
        i < slots_view(*v).len(),
    ensures
        r == slots_view(*v)[i as int],
{
    v[i]
}

/// Assigning through the index of a `heapless::Vec`: the item at `i` is replaced.
#[verifier::external_body]
fn slots_set(v: &mut Slots, i: usize, x: Option<u32>)
    requires
        i < slots_view(*old(v)).len(),
    ensures
        slots_view(*final(v)) == slots_view(*old(v)).update(i as int, x),
{
    v[i] = x;
}

/// `heapless::Vec::push`: appends `x` where there is room, and hands it back where
/// the vector is full.
#[verifier::external_body]
fn slots_push(v: &mut Slots, x: Option<u32>) -> (r: Result<(), Option<u32>>)
    ensures
        slots_view(*old(v)).len() < PID_LIMIT ==> (r is Ok && slots_view(*final(v))
            == slots_view(*old(v)).push(x)),
        slots_view(*old(v)).len() >= PID_LIMIT ==> (r matches Err(y) && y == x && slots_view(*final(v))
            == slots_view(*old(v))),
{
    v.push(x)
}

/// The map from host pids to vpids: a `heapless::FnvIndexMap`, held whole so that its
/// hasher's types need not be declared.
#[verifier::external_body]
pub struct PidMap {
    map: FnvIndexMap<u32, u32, 32768>,
}

/// What the map holds.
pub uninterp spec fn pid_map_view(m: PidMap) -> Map<u32, u32>;

/// `FnvIndexMap::new`, boxed: an empty map.
#[verifier::external_body]
fn pid_map_new() -> (r: Box<PidMap>)
    ensures
        pid_map_view(*r).dom() == Set::<u32>::empty(),
{
    Box::new(PidMap { map: FnvIndexMap::new() })
}

/// `FnvIndexMap::get`: the value of `key`, if it has one.
#[verifier::external_body]
fn pid_map_get(m: &PidMap, key: u32) -> (r: Option<u32>)
    ensures
        r == (if pid_map_view(*m).contains_key(key) {
            Some(pid_map_view(*m)[key])
        } else {
            None
        }),
{
    m.map.get(&key).copied()
}

/// `FnvIndexMap::insert`: a key already present gets the new value and its old one is
/// returned; a new key is added where fewer than `N` keys are held, and otherwise the
/// pair is handed back. The map holds finitely many keys.
#[verifier::external_body]
fn pid_map_insert(m: &mut PidMap, key: u32, value: u32) -> (r: Result<Option<u32>, (u32, u32)>)
    requires
        pid_map_view(*old(m)).dom().finite(),
    ensures
        pid_map_view(*old(m)).contains_key(key) ==> (r matches Ok(Some(prev)) && prev
            == pid_map_view(*old(m))[key] && pid_map_view(*final(m)) == pid_map_view(*old(m)).insert(key, value)),
        !pid_map_view(*old(m)).contains_key(key) && pid_map_view(*old(m)).dom().len() < PID_LIMIT
            ==> (r matches Ok(None) && pid_map_view(*final(m)) == pid_map_view(*old(m)).insert(key, value)),
        !pid_map_view(*old(m)).contains_key(key) && pid_map_view(*old(m)).dom().len() >= PID_LIMIT
            ==> (r matches Err(pair) && pair == (key, value) && pid_map_view(*final(m)) == pid_map_view(*old(m))),
{
    m.map.insert(key, value)
}

/// `FnvIndexMap::remove`: the key's value, if it had one, and the map without it.
#[verifier::external_body]
fn pid_map_remove(m: &mut PidMap, key: u32) -> (r: Option<u32>)
    ensures
        r == (if pid_map_view(*old(m)).contains_key(key) {
            Some(pid_map_view(*old(m))[key])
        } else {
            None
        }),
        pid_map_view(*final(m)) == pid_map_view(*old(m)).remove(key),
{
    m.map.remove(&key)
}

/// The slot of a vpid, if it is one the table can hold.
pub fn table_index_for_vpid(vpid: VPid) -> (r: Option<usize>)
    ensures
        1 <= vpid.0 <= PID_LIMIT ==> r == Some((vpid.0 - 1) as usize),
        !(1 <= vpid.0 <= PID_LIMIT) ==> r is None,
{
    if vpid.0 >= 1 && vpid.0 <= PID_LIMIT {
        Some((vpid.0 - 1) as usize)
    } else {
        None
    }
}

/// The vpid after `vpid`, going round from the last to the first.
pub fn next_vpid_in_sequence(vpid: VPid) -> (r: VPid)
    requires
        vpid.0 <= PID_LIMIT,
    ensures
        vpid.0 == PID_LIMIT ==> r.0 == 1,
        vpid.0 != PID_LIMIT ==> r.0 == vpid.0 + 1,
{
    if vpid.0 == PID_LIMIT {
        VPid(1)
    } else {
        VPid(vpid.0 + 1)
    }
}

/// The next vpid in sequence, as a value.
pub open spec fn next_in_sequence(v: u32) -> u32 {
    if v == PID_LIMIT {
        1
    } else {
        (v + 1) as u32
    }
}

/// The vpids in use, and the host pid of each.
pub struct ProcessTable {
    table: Box<Slots>,
    map_sys_to_v: Box<PidMap>,
    next_vpid: VPid,
}

impl ProcessTable {
    /// The host pid in each slot.
    pub closed spec fn slots(&self) -> Seq<Option<u32>> {
        slots_view(*self.table)
    }

    /// The vpid of each host pid.
    pub closed spec fn sys_to_v(&self) -> Map<u32, u32> {
        pid_map_view(*self.map_sys_to_v)
    }

    /// Where the search for a free vpid starts.
    pub closed spec fn next(&self) -> u32 {
        self.next_vpid.0
    }

    /// Whether `vpid` is in use, and by which host pid.
    pub open spec fn process_of(&self, vpid: u32) -> Option<u32> {
        if 1 <= vpid <= self.slots().len() {
            self.slots()[vpid - 1]
        } else {
            None
        }
    }

    /// The slots and the map agree: each occupied slot's host pid maps to its vpid,
    /// and each mapped host pid occupies the slot of its vpid.
    pub open spec fn wf(&self) -> bool {
        &&& self.slots().len() <= PID_LIMIT
        &&& 1 <= self.next() <= PID_LIMIT
        &&& self.sys_to_v().dom().finite()
        &&& forall|i: int|
            0 <= i < self.slots().len() ==> (#[trigger] self.slots()[i] matches Some(sp) ==> (
            self.sys_to_v().contains_key(sp) && self.sys_to_v()[sp] == i + 1))
        &&& forall|sp: u32|
            #[trigger] self.sys_to_v().contains_key(sp) ==> 1 <= self.sys_to_v()[sp]
                <= self.slots().len() && self.slots()[self.sys_to_v()[sp] - 1] == Some(sp)
    }

    /// An empty table; the first vpid handed out is 1.
    pub fn new() -> (r: Self)
        ensures
            r.wf(),
            r.slots() == Seq::<Option<u32>>::empty(),
            r.sys_to_v().dom() == Set::<u32>::empty(),
            r.next() == 1,
    {
        let table = slots_new();
        let map_sys_to_v = pid_map_new();
        let r = ProcessTable { table, map_sys_to_v, next_vpid: VPid(1) };
        proof {
            assert(r.sys_to_v().dom() =~= Set::<u32>::empty());
        }
        r
    }

    /// The vpid of the process with host pid `sys_pid`.
    pub fn syspid_to_v(&self, sys_pid: SysPid) -> (r: Option<VPid>)
        ensures
            self.sys_to_v().contains_key(sys_pid.0) ==> r == Some(VPid(self.sys_to_v()[sys_pid.0])),
            !self.sys_to_v().contains_key(sys_pid.0) ==> r is None,
    {
        match pid_map_get(&self.map_sys_to_v, sys_pid.0) {
            Some(v) => Some(VPid(v)),
            None => None,
        }
    }

    /// Whether the slot of `vpid` is free.
    fn is_free(&self, vpid: VPid) -> (r: bool)
        requires
            1 <= vpid.0 <= PID_LIMIT,
        ensures
            r == (self.process_of(vpid.0) is None),
    {
        let index = (vpid.0 - 1) as usize;
        if index >= slots_len(&self.table) {
            true
        } else {
            slots_get(&self.table, index).is_none()
        }
    }

    /// Find a free vpid, starting at the next one in sequence and going round once.
    /// The search stops at a free vpid and does not step past it.
    fn allocate_vpid(&mut self) -> (r: Option<VPid>)
        requires
            old(self).wf(),
        ensures
            final(self).wf(),
            final(self).slots() == old(self).slots(),
            final(self).sys_to_v() == old(self).sys_to_v(),
            r matches Some(v) ==> v.0 == final(self).next() && final(self).process_of(v.0) is None,
            r is None ==> forall|v: u32| 1 <= v <= PID_LIMIT ==> #[trigger] old(self).process_of(v) is Some,
    {
        let ghost start = self.next_vpid.0;
        let mut count: u32 = 0;
        while count < PID_LIMIT
            invariant
                self.wf(),
                self.slots() == old(self).slots(),
                self.sys_to_v() == old(self).sys_to_v(),
                1 <= start <= PID_LIMIT,
                count <= PID_LIMIT,
                self.next() == (if start + count > PID_LIMIT { start + count - PID_LIMIT } else { start + count }),
                forall|v: u32|
                    1 <= v <= PID_LIMIT && (if v >= start { v - start } else { v + PID_LIMIT - start }) < count
                        ==> #[trigger] self.process_of(v) is Some,
            decreases PID_LIMIT - count,
        {
            let vpid = self.next_vpid;
            let ghost before = *self;
            if self.is_free(vpid) {
                return Some(vpid);
            }
            self.next_vpid = next_vpid_in_sequence(vpid);
            count = count + 1;
            proof {
                assert forall|v: u32|
                    1 <= v <= PID_LIMIT && (if v >= start { v - start } else { v + PID_LIMIT - start })
                        < count implies #[trigger] self.process_of(v) is Some by {
                    assert(self.slots() == before.slots());
                    if (if v >= start { v - start } else { v + PID_LIMIT - start }) == count - 1 {
                        assert(v == vpid.0);
                    }
                    assert(before.process_of(v) is Some);
                }
            }
        }
        proof {
            assert forall|v: u32| 1 <= v <= PID_LIMIT implies #[trigger] old(self).process_of(v) is Some by {
                assert(self.process_of(v) is Some);
            }
        }
        None
    }

    /// Take a free vpid for the process with host pid `sys_pid`: the slot of that vpid
    /// records it, growing the table as far as needed, and the map gets the host pid.
    /// `None` where every vpid is in use.
    pub fn insert(&mut self, sys_pid: SysPid) -> (r: Option<VPid>)
        requires
            old(self).wf(),
            !old(self).sys_to_v().contains_key(sys_pid.0),
        ensures
            final(self).wf(),
            r is None ==> final(self).slots() == old(self).slots() && final(self).sys_to_v()
                == old(self).sys_to_v() && forall|v: u32|
                1 <= v <= PID_LIMIT ==> #[trigger] old(self).process_of(v) is Some,
            r matches Some(v) ==> inserted(*old(self), *final(self), sys_pid.0, v.0),
    {
        let vpid = match self.allocate_vpid() {
            None => return None,
            Some(v) => v,
        };
        let ghost s0 = self.slots();
        let ghost m = self.sys_to_v();
        let index = (vpid.0 - 1) as usize;
        let min_table_len = index + 1;
        while slots_len(&self.table) < min_table_len
            invariant
                self.sys_to_v() == old(self).sys_to_v(),
                m == old(self).sys_to_v(),
                m.dom().finite(),
                s0.len() <= PID_LIMIT,
                index < s0.len() ==> s0[index as int] is None,
                forall|i: int|
                    0 <= i < s0.len() ==> (#[trigger] s0[i] matches Some(sp) ==> (m.contains_key(sp)
                        && m[sp] == i + 1)),
                forall|sp: u32|
                    #[trigger] m.contains_key(sp) ==> 1 <= m[sp] <= s0.len() && s0[m[sp] - 1] == Some(sp),
                self.next() == vpid.0,
                1 <= vpid.0 <= PID_LIMIT,
                index == vpid.0 - 1,
                min_table_len == index + 1,
                self.slots().len() <= PID_LIMIT,
                self.slots().len() <= min_table_len || self.slots() == s0,
                s0.len() <= self.slots().len(),
                self.slots().subrange(0, s0.len() as int) == s0,
                forall|i: int| s0.len() <= i < self.slots().len() ==> self.slots()[i] is None,
            decreases min_table_len - self.slots().len(),
        {
            let _ = slots_push(&mut self.table, None);
        }
        let ghost s1 = self.slots();
        proof {
            assert forall|i: int| 0 <= i < s0.len() implies s1[i] == s0[i] by {
                assert(s1.subrange(0, s0.len() as int)[i] == s0[i]);
            }
            assert(s1[index as int] is None);
            lemma_free_slot_bounds_map(s1, m, index as int);
        }
        slots_set(&mut self.table, index, Some(sys_pid.0));
        let _ = pid_map_insert(&mut self.map_sys_to_v, sys_pid.0, vpid.0);
        proof {
            let s2 = self.slots();
            let m2 = self.sys_to_v();
            assert(s2 == s1.update(index as int, Some(sys_pid.0)));
            assert(m2 == m.insert(sys_pid.0, vpid.0));
            assert forall|i: int| 0 <= i < s2.len() implies (#[trigger] s2[i] matches Some(sp) ==> (
                m2.contains_key(sp) && m2[sp] == i + 1)) by {
                if i != index && i < s0.len() {
                    assert(s2[i] == s0[i]);
                }
            }
            assert forall|sp: u32| #[trigger] m2.contains_key(sp) implies 1 <= m2[sp] <= s2.len()
                && s2[m2[sp] - 1] == Some(sp) by {
                if sp != sys_pid.0 {
                    assert(m.contains_key(sp));
                    assert(s1[m[sp] - 1] == Some(sp));
                }
            }
            assert forall|w: u32| w != vpid.0 implies #[trigger] self.process_of(w) == old(self).process_of(w) by {
                if 1 <= w <= s2.len() {
                    if w - 1 < s0.len() {
                        assert(s2[w - 1] == s0[w - 1]);
                    }
                }
            }
        }
        Some(vpid)
    }

    /// The host pid of the process with sandbox pid `vpid`, if there is one. A vpid the
    /// table can hold must lie within its slots so far.
    pub fn get(&self, vpid: VPid) -> (r: Option<SysPid>)
        requires
            self.wf(),
            1 <= vpid.0 <= PID_LIMIT ==> vpid.0 <= self.slots().len(),
        ensures
            r == match self.process_of(vpid.0) {
                Some(sp) => Some(SysPid(sp)),
                None => None,
            },
    {
        let index = match table_index_for_vpid(vpid) {
            None => return None,
            Some(index) => index,
        };
        match slots_get(&self.table, index) {
            Some(sp) => Some(SysPid(sp)),
            None => None,
        }
    }

    /// Free the slot of `vpid`, and forget its host pid; the host pid it held is
    /// returned.
    pub fn remove(&mut self, vpid: VPid) -> (r: Option<SysPid>)
        requires
            old(self).wf(),
            1 <= vpid.0 <= old(self).slots().len(),
        ensures
            final(self).wf(),
            removed(*old(self), *final(self), vpid.0),
            r == match old(self).process_of(vpid.0) {
                Some(sp) => Some(SysPid(sp)),
                None => None,
            },
    {
        let index = (vpid.0 - 1) as usize;
        let prev = slots_get(&self.table, index);
        slots_set(&mut self.table, index, None);
        match prev {
            Some(sp) => {
                let _ = pid_map_remove(&mut self.map_sys_to_v, sp);
                proof {
                    let s0 = old(self).slots();
                    let m0 = old(self).sys_to_v();
                    assert forall|i: int| 0 <= i < self.slots().len() implies (#[trigger] self.slots()[i] matches Some(p) ==> (
                        self.sys_to_v().contains_key(p) && self.sys_to_v()[p] == i + 1)) by {
                        if i != index {
                            assert(self.slots()[i] == s0[i]);
                            if let Some(p) = s0[i] {
                                assert(m0[p] == i + 1);
                                assert(p != sp);
                            }
                        }
                    }
                    assert forall|p: u32| #[trigger] self.sys_to_v().contains_key(p) implies 1 <= self.sys_to_v()[p]
                        <= self.slots().len() && self.slots()[self.sys_to_v()[p] - 1] == Some(p) by {
                        assert(m0.contains_key(p));
                        assert(s0[m0[p] - 1] == Some(p));
                        assert(m0[p] - 1 != index);
                    }
                    assert(self.sys_to_v().dom() =~= m0.dom().remove(sp));
                }
                Some(SysPid(sp))
            },
            None => {
                proof {
                    let s0 = old(self).slots();
                    assert forall|p: u32| #[trigger] self.sys_to_v().contains_key(p) implies 1 <= self.sys_to_v()[p]
                        <= self.slots().len() && self.slots()[self.sys_to_v()[p] - 1] == Some(p) by {
                        assert(s0[self.sys_to_v()[p] - 1] == Some(p));
                    }
                    assert forall|i: int| 0 <= i < self.slots().len() implies (#[trigger] self.slots()[i] matches Some(p) ==> (
                        self.sys_to_v().contains_key(p) && self.sys_to_v()[p] == i + 1)) by {
                        if i != index {
                            assert(self.slots()[i] == s0[i]);
                        }
                    }
                }
                None
            },
        }
    }
}

/// `new` is `old` with host pid `sp` given the free vpid `v`.
pub open spec fn inserted(old: ProcessTable, new: ProcessTable, sp: u32, v: u32) -> bool {
    &&& old.process_of(v) is None
    &&& 1 <= v <= PID_LIMIT
    &&& new.process_of(v) == Some(sp)
    &&& forall|w: u32| w != v ==> #[trigger] new.process_of(w) == old.process_of(w)
    &&& new.sys_to_v() == old.sys_to_v().insert(sp, v)
}

/// `new` is `old` with the slot of `v` freed and its host pid, if any, forgotten.
pub open spec fn removed(old: ProcessTable, new: ProcessTable, v: u32) -> bool {
    &&& new.process_of(v) is None
    &&& forall|w: u32| w != v ==> #[trigger] new.process_of(w) == old.process_of(w)
    &&& new.sys_to_v() == match old.process_of(v) {
        Some(sp) => old.sys_to_v().remove(sp),
        None => old.sys_to_v(),
    }
}

/// Removing a process just inserted undoes the insertion: its host pid comes back, the
/// vpids in use are those from before, and so is the map of host pids.
pub proof fn lemma_insert_then_remove(t0: ProcessTable, t1: ProcessTable, t2: ProcessTable, sp: u32, v: u32)
    requires
        t0.wf(),
        !t0.sys_to_v().contains_key(sp),
        inserted(t0, t1, sp, v),
        removed(t1, t2, v),
    ensures
        t1.process_of(v) == Some(sp),
        forall|w: u32| #[trigger] t2.process_of(w) == t0.process_of(w),
        t2.sys_to_v() == t0.sys_to_v(),
{
    assert forall|w: u32| #[trigger] t2.process_of(w) == t0.process_of(w) by {
        if w != v {
            assert(t1.process_of(w) == t0.process_of(w));
        }
    }
    assert(t2.sys_to_v() =~= t0.sys_to_v());
}

/// Where a slot is free, fewer host pids are mapped than the table can hold.
proof fn lemma_free_slot_bounds_map(slots: Seq<Option<u32>>, m: Map<u32, u32>, free: int)
    requires
        0 <= free < PID_LIMIT,
        slots.len() <= PID_LIMIT,
        free < slots.len() ==> slots[free] is None,
        m.dom().finite(),
        forall|sp: u32|
            #[trigger] m.contains_key(sp) ==> 1 <= m[sp] <= slots.len() && slots[m[sp] - 1] == Some(sp),
    ensures
        m.dom().len() < PID_LIMIT,
{
    let f = |sp: u32| (m[sp] - 1) as int;
    let image = m.dom().map(f);
    assert(vstd::relations::injective_on(f, m.dom())) by {
        assert forall|a: u32, b: u32| m.dom().contains(a) && m.dom().contains(b) && #[trigger] f(a)
            == #[trigger] f(b) implies a == b by {
            assert(slots[m[a] - 1] == Some(a));
            assert(slots[m[b] - 1] == Some(b));
        }
    }
    lemma_map_size(m.dom(), image, f);
    let range = set_int_range(0, slots.len() as int).remove(free);
    lemma_int_range(0, slots.len() as int);
    assert forall|i: int| #[trigger] image.contains(i) implies range.contains(i) by {
        let sp = choose|sp: u32| m.dom().contains(sp) && f(sp) == i;
        assert(slots[m[sp] - 1] == Some(sp));
    }
    assert(image.subset_of(range));
    lemma_len_subset(image, range);
}

} // verus!
