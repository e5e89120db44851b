use vstd::prelude::*;

use crate::error::EnvError;

verus! {

/// One slot of a pointer array (`argv` or `environ`) as read from memory: the
/// address it holds, 0 for a null slot, and for a non-null slot the bytes of the
/// C string it points to, without the terminating NUL.
#[derive(Debug)]
pub struct ArgSlot {
    pub addr: usize,
    pub bytes: Vec<u8>,
}

impl ArgSlot {
    /// A null slot.
    pub fn null() -> (r: ArgSlot)
        ensures
            r.addr == 0,
            r.bytes@.len() == 0,
    {
        ArgSlot { addr: 0, bytes: Vec::new() }
    }

    /// A slot holding `addr`, which points at the string `bytes`.
    pub fn new(addr: usize, bytes: Vec<u8>) -> (r: ArgSlot)
        ensures
            r.addr == addr,
            r.bytes@ == bytes@,
    {
        ArgSlot { addr, bytes }
    }
}

/// The strings laid out as in memory: each one followed by its NUL terminator.
pub open spec fn joined(strs: Seq<Seq<u8>>) -> Seq<u8>
    decreases strs.len(),
{
    if strs.len() == 0 {
        Seq::empty()
    } else {
        joined(strs.drop_last()) + strs.last() + seq![0u8]
    }
}

/// The strings that the slots point to.
pub open spec fn strings_of(slots: Seq<ArgSlot>) -> Seq<Seq<u8>> {
    slots.map_values(|s: ArgSlot| s.bytes@)
}

/// A scan of at most `count` slots visits exactly the first `n`: all of them
/// are non-null, and the scan ends at `count`, at the end of what was read, or
/// at a null slot.
pub open spec fn stops_at(count: nat, slots: Seq<ArgSlot>, n: nat) -> bool {
    &&& n <= count
    &&& n <= slots.len()
    &&& forall|j: int| 0 <= j < n ==> slots[j].addr != 0
    &&& (n == count || n == slots.len() || slots[n as int].addr == 0)
}

/// The number of slots that a scan of at most `count` slots visits.
pub open spec fn visited_count(count: nat, slots: Seq<ArgSlot>) -> nat {
    choose|n: nat| stops_at(count, slots, n)
}

/// The first `n` slots are all non-null.
pub open spec fn leading_nonnull(slots: Seq<ArgSlot>, n: int) -> bool {
    forall|i: int| 0 <= i < n ==> slots[i].addr != 0
}

/// Every string's terminator has an address, all the strings together fit in
/// memory, and the strings up to the first null slot lie one after another, each
/// starting right after the previous one's terminator (the layout the OS gives
/// `argv` and `environ`).
pub open spec fn slots_fit(slots: Seq<ArgSlot>) -> bool {
    &&& forall|j: int| 0 <= j < slots.len() ==> slots[j].addr + slots[j].bytes@.len() <= usize::MAX
    &&& joined(strings_of(slots)).len() <= usize::MAX
    &&& forall|j: int|
        1 <= j < slots.len() && leading_nonnull(slots, j + 1) ==> #[trigger] slots[j].addr
            == slots[j - 1].addr + slots[j - 1].bytes@.len() + 1
}

/// What a scan finds: the address of the first byte, the address of the last
/// visited string's terminator, how many strings were visited, a copy of each,
/// their total length with terminators, and the pointer array's address.
pub struct RegionView {
    pub begin: nat,
    pub end: nat,
    pub count: nat,
    pub saved: Seq<Seq<u8>>,
    pub byte_len: nat,
    pub array: nat,
}

impl RegionView {
    pub open spec fn wf(self) -> bool {
        &&& self.count >= 1
        &&& self.saved.len() == self.count
        &&& self.byte_len == joined(self.saved).len()
        &&& self.begin <= self.end
        &&& self.end + 1 == self.begin + self.byte_len
    }
}

/// The result of scanning at most `count` slots of the pointer array at `array`.
pub open spec fn scan_spec(count: usize, array: usize, slots: Seq<ArgSlot>) -> Result<
    RegionView,
    EnvError,
> {
    if array == 0 {
        Err(EnvError::NullPointer)
    } else if slots.len() == 0 || slots[0].addr == 0 {
        Err(EnvError::PointsToNull { ptr: array })
    } else if count == 0 {
        Err(EnvError::FailedToGetString { ptr: array })
    } else {
        let n = visited_count(count as nat, slots);
        let last = slots[n - 1];
        let saved = strings_of(slots).take(n as int);
        Ok(
            RegionView {
                begin: slots[0].addr as nat,
                end: (last.addr + last.bytes@.len()) as nat,
                count: n,
                saved,
                byte_len: joined(saved).len(),
                array: array as nat,
            },
        )
    }
}

/// A region of NUL-terminated strings found by [`scan`].
#[derive(Debug)]
pub struct MemRegion {
    begin_addr: usize,
    end_addr: usize,
    count: usize,
    saved: Vec<Vec<u8>>,
    byte_len: usize,
    ptr: usize,
}

impl View for MemRegion {
    type V = RegionView;

    closed spec fn view(&self) -> RegionView {
        RegionView {
            begin: self.begin_addr as nat,
            end: self.end_addr as nat,
            count: self.count as nat,
            saved: self.saved@.map_values(|v: Vec<u8>| v@),
            byte_len: self.byte_len as nat,
            array: self.ptr as nat,
        }
    }
}

impl Clone for MemRegion {
    fn clone(&self) -> (r: Self)
        ensures
            r@ == self@,
    {
        let r = MemRegion {
            begin_addr: self.begin_addr,
            end_addr: self.end_addr,
            count: self.count,
            saved: self.saved.clone(),
            byte_len: self.byte_len,
            ptr: self.ptr,
        };
        assert(r@.saved =~= self@.saved);
        r
    }
}

impl MemRegion {
    /// Address of the first byte of the first string.
    pub fn begin_addr(&self) -> (r: usize)
        ensures
            r == self@.begin,
    {
        self.begin_addr
    }

    /// Address of the terminator of the last visited string.
    pub fn end_addr(&self) -> (r: usize)
        ensures
            r == self@.end,
    {
        self.end_addr
    }

    /// Number of strings visited.
    pub fn count(&self) -> (r: usize)
        ensures
            r == self@.count,
    {
        self.count
    }

    /// Total length of the visited strings, terminators included.
    pub fn byte_len(&self) -> (r: usize)
        ensures
            r == self@.byte_len,
    {
        self.byte_len
    }

    /// Address of the pointer array.
    pub fn ptr(&self) -> (r: usize)
        ensures
            r == self@.array,
    {
        self.ptr
    }

    /// The saved copy of the visited strings, in order.
    pub fn saved(&self) -> (r: &Vec<Vec<u8>>)
        ensures
            r@.map_values(|v: Vec<u8>| v@) == self@.saved,
    {
        &self.saved
    }
}

proof fn lemma_stops_unique(count: nat, slots: Seq<ArgSlot>, n: nat, m: nat)
    requires
        stops_at(count, slots, n),
        stops_at(count, slots, m),
    ensures
        n == m,
{
    if n < m {
        assert(slots[n as int].addr != 0);
    } else if m < n {
        assert(slots[m as int].addr != 0);
    }
}

proof fn lemma_visited_is(count: nat, slots: Seq<ArgSlot>, n: nat)
    requires
        stops_at(count, slots, n),
    ensures
        visited_count(count, slots) == n,
{
    let m = visited_count(count, slots);
    assert(stops_at(count, slots, m));
    lemma_stops_unique(count, slots, n, m);
}

pub(crate) proof fn lemma_joined_step(strs: Seq<Seq<u8>>, i: int)
    requires
        0 <= i < strs.len(),
    ensures
        joined(strs.take(i + 1)) == joined(strs.take(i)) + strs[i] + seq![0u8],
{
    assert(strs.take(i + 1).drop_last() =~= strs.take(i));
}

proof fn lemma_joined_take_len(strs: Seq<Seq<u8>>, n: int)
    requires
        0 <= n <= strs.len(),
    ensures
        joined(strs.take(n)).len() <= joined(strs).len(),
    decreases strs.len(),
{
    if n == strs.len() {
        assert(strs.take(n) =~= strs);
    } else {
        let d = strs.drop_last();
        assert(d.take(n) =~= strs.take(n));
        lemma_joined_take_len(d, n);
    }
}

/// For a pointer array whose first slot is non-null and which holds a null slot
/// at `z`, before `count`: the scan visits exactly the `z` non-null slots before
/// it, whatever `count` is, and saves a copy of each of their strings, in order.
pub proof fn lemma_scan_stops_at_null(count: usize, array: usize, slots: Seq<ArgSlot>, z: nat)
    requires
        array != 0,
        0 < z < count,
        z < slots.len(),
        slots[z as int].addr == 0,
        forall|j: int| 0 <= j < z ==> slots[j].addr != 0,
    ensures
        scan_spec(count, array, slots) is Ok,
        scan_spec(count, array, slots)->Ok_0.count == z,
        scan_spec(count, array, slots)->Ok_0.saved == strings_of(slots).take(z as int),
{
    lemma_visited_is(count as nat, slots, z);
}

/// Whether the slots meet what [`scan`] requires: see [`slots_fit`].
pub fn slots_laid_out(slots: &Vec<ArgSlot>) -> (r: bool)
    ensures
        r == slots_fit(slots@),
{
    let ghost strs = strings_of(slots@);
    let mut total: usize = 0;
    let mut lead = true;
    let mut i: usize = 0;
    while i < slots.len()
        invariant
            i <= slots@.len(),
            strs == strings_of(slots@),
            total == joined(strs.take(i as int)).len(),
            forall|j: int| 0 <= j < i ==> slots@[j].addr + slots@[j].bytes@.len() <= usize::MAX,
            lead == leading_nonnull(slots@, i as int),
            forall|j: int|
                1 <= j < i && leading_nonnull(slots@, j + 1) ==> #[trigger] slots@[j].addr
                    == slots@[j - 1].addr + slots@[j - 1].bytes@.len() + 1,
        decreases slots@.len() - i,
    {
        let a = slots[i].addr;
        let len = slots[i].bytes.len();
        if a > usize::MAX - len {
            assert(!(slots@[i as int].addr + slots@[i as int].bytes@.len() <= usize::MAX));
            return false;
        }
        if lead && a != 0 && i >= 1 {
            let p = slots[i - 1].addr;
            let pl = slots[i - 1].bytes.len();
            if p + pl == usize::MAX || a != p + pl + 1 {
                proof {
                    assert(leading_nonnull(slots@, i + 1));
                    assert(slots@[i as int].addr != slots@[i - 1].addr + slots@[i - 1].bytes@.len()
                        + 1);
                }
                return false;
            }
        }
        proof {
            lemma_joined_step(strs, i as int);
            lemma_joined_take_len(strs, i + 1);
        }
        if total >= usize::MAX - len {
            return false;
        }
        total = total + len + 1;
        proof {
            if lead && a != 0 {
                assert(leading_nonnull(slots@, i + 1));
            }
            if leading_nonnull(slots@, i + 1) {
                assert(slots@[i as int].addr != 0);
            }
        }
        lead = lead && a != 0;
        i = i + 1;
    }
    assert(strs.take(i as int) =~= strs);
    true
}

/// Scans at most `count` slots of the pointer array at `array`, stopping at the
/// first null slot whatever `count` says, and records the span of the visited
/// strings together with a copy of each.
pub fn scan(count: usize, array: usize, slots: &Vec<ArgSlot>) -> (r: Result<MemRegion, EnvError>)
    requires
        slots_fit(slots@),
    ensures
        match r {
            Ok(m) => scan_spec(count, array, slots@) == Ok::<RegionView, EnvError>(m@),
            Err(e) => scan_spec(count, array, slots@) == Err::<RegionView, EnvError>(e),
        },
        r is Ok ==> r->Ok_0@.wf(),
{
    if array == 0 {
        return Err(EnvError::NullPointer);
    }
    if slots.len() == 0 || slots[0].addr == 0 {
        return Err(EnvError::PointsToNull { ptr: array });
    }
    if count == 0 {
        return Err(EnvError::FailedToGetString { ptr: array });
    }
    let ghost strs = strings_of(slots@);
    let mut n: usize = 0;
    let mut saved: Vec<Vec<u8>> = Vec::new();
    let mut byte_len: usize = 0;
    while n < count && n < slots.len() && slots[n].addr != 0
        invariant
            n <= count,
            n <= slots@.len(),
            forall|j: int| 0 <= j < n ==> slots@[j].addr != 0,
            saved@.map_values(|v: Vec<u8>| v@) == strs.take(n as int),
            byte_len == joined(strs.take(n as int)).len(),
            strs == strings_of(slots@),
            slots_fit(slots@),
            slots@[0].addr != 0,
            n >= 1 ==> slots@[n - 1].addr + slots@[n - 1].bytes@.len() + 1 == slots@[0].addr
                + byte_len,
        decreases count - n,
    {
        let bytes = slots[n].bytes.clone();
        proof {
            assert(bytes@ =~= slots@[n as int].bytes@);
            if n >= 1 {
                assert(leading_nonnull(slots@, n + 1));
                assert(slots@[n as int].addr == slots@[n - 1].addr + slots@[n - 1].bytes@.len() + 1);
            }
            lemma_joined_step(strs, n as int);
            lemma_joined_take_len(strs, n + 1);
        }
        byte_len = byte_len + slots[n].bytes.len() + 1;
        saved.push(bytes);
        n = n + 1;
        proof {
            assert(saved@.map_values(|v: Vec<u8>| v@) =~= strs.take(n as int));
        }
    }
    proof {
        lemma_visited_is(count as nat, slots@, n as nat);
    }
    let last = n - 1;
    let end_addr = slots[last].addr + slots[last].bytes.len();
    let region = MemRegion { begin_addr: slots[0].addr, end_addr, count: n, saved, byte_len, ptr: array };
    proof {
        assert(region@.saved =~= strs.take(n as int));
    }
    Ok(region)
}

/// The environment region, where a scan of the environment array finds one: an
/// environment that cannot be scanned only leaves the environment out of the
/// span, it is no error.
pub fn from_env(count: usize, array: usize, slots: &Vec<ArgSlot>) -> (r: Option<MemRegion>)
    requires
        slots_fit(slots@),
    ensures
        match scan_spec(count, array, slots@) {
            Ok(v) => r is Some && r->Some_0@ == v,
            Err(_) => r is None,
        },
        r is Some ==> r->Some_0@.wf(),
{
    match scan(count, array, slots) {
        Ok(m) => Some(m),
        Err(_) => None,
    }
}

/// The start address and the end address (the last visited terminator) of the
/// strings that a scan of the argument array finds.
pub fn argv_addrs(count: usize, array: usize, slots: &Vec<ArgSlot>) -> (r: Result<
    (usize, usize),
    EnvError,
>)
    requires
        slots_fit(slots@),
    ensures
        match scan_spec(count, array, slots@) {
            Ok(v) => r == Ok::<(usize, usize), EnvError>((v.begin as usize, v.end as usize)),
            Err(e) => r == Err::<(usize, usize), EnvError>(e),
        },
        r is Ok ==> r->Ok_0.0 <= r->Ok_0.1,
{
    match scan(count, array, slots) {
        Ok(m) => Ok((m.begin_addr(), m.end_addr())),
        Err(e) => Err(e),
    }
}

} // verus!
