//! The address ranges that the plugin process has reserved.

use crate::errno::{einval, enoent, eperm, SysError, SysResult, EINVAL, ENOENT, EPERM};
use std::cmp::Ordering;
use vstd::prelude::*;

verus! {

/// Identifier for an address space in the VM.
#[derive(Clone, Copy, Debug, PartialEq, Eq, Structural)]
pub enum IoSpace {
    Ioport,
    Mmio,
}

/// A reservation: its first address and its length.
#[derive(Clone, Copy, Debug)]
pub struct Range(pub u64, pub u64);

/// Two ranges are the same reservation when they start at the same address.
impl PartialEq for Range {
    fn eq(&self, other: &Range) -> (r: bool) {
        self.0 == other.0
    }
}

impl vstd::std_specs::cmp::PartialEqSpecImpl for Range {
    open spec fn obeys_eq_spec() -> bool {
        true
    }

    open spec fn eq_spec(&self, other: &Range) -> bool {
        self.0 == other.0
    }
}

impl Eq for Range {

}

/// Ranges are ordered by their first addresses alone.
impl PartialOrd for Range {
    fn partial_cmp(&self, other: &Range) -> (r: Option<Ordering>) {
        self.0.partial_cmp(&other.0)
    }
}

impl vstd::std_specs::cmp::PartialOrdSpecImpl for Range {
    open spec fn obeys_partial_cmp_spec() -> bool {
        true
    }

    open spec fn partial_cmp_spec(&self, other: &Range) -> Option<Ordering> {
        if self.0 < other.0 {
            Some(Ordering::Less)
        } else if self.0 == other.0 {
            Some(Ordering::Equal)
        } else {
            Some(Ordering::Greater)
        }
    }
}

impl Range {
    /// Whether `addr` lies in this range.
    pub open spec fn covers(self, addr: int) -> bool {
        self.0 <= addr < self.0 + self.1
    }
}

/// The address `addr` lies in one of the ranges of `m`, which maps first addresses to lengths.
pub open spec fn covered(m: Map<u64, u64>, addr: int) -> bool {
    exists|s: u64| #[trigger] m.dom().contains(s) && Range(s, m[s]).covers(addr)
}

/// The `length` addresses from `start` on share an address with a range of `m`.
pub open spec fn overlaps(m: Map<u64, u64>, start: int, length: int) -> bool {
    exists|a: int| start <= a < start + length && #[trigger] covered(m, a)
}

/// No two ranges of `m` share an address.
pub open spec fn disjoint(m: Map<u64, u64>) -> bool {
    forall|s: u64, t: u64, a: int|
        #![trigger Range(s, m[s]).covers(a), Range(t, m[t]).covers(a)]
        m.dom().contains(s) && m.dom().contains(t) && Range(s, m[s]).covers(a) && Range(
            t,
            m[t],
        ).covers(a) ==> s == t
}

/// No range of `m` is empty, none reaches past the last address but one, and no two of them
/// overlap.
pub open spec fn regular(m: Map<u64, u64>) -> bool {
    &&& disjoint(m)
    &&& forall|s: u64| #[trigger] m.dom().contains(s) ==> m[s] > 0 && s + m[s] <= u64::MAX
}

/// Of the ranges that start at or before an address, only the one that starts last can cover it.
pub proof fn lemma_nearest_decides(m: Map<u64, u64>, start: u64, addr: u64)
    requires
        regular(m),
        m.dom().contains(start),
        start <= addr,
        forall|s: u64| #[trigger] m.dom().contains(s) && s <= addr ==> s <= start,
    ensures
        covered(m, addr as int) == Range(start, m[start]).covers(addr as int),
{
    if covered(m, addr as int) {
        let s = choose|s: u64| #[trigger]
            m.dom().contains(s) && Range(s, m[s]).covers(addr as int);
        assert(s <= start);
        assert(Range(s, m[s]).covers(start as int));
        assert(Range(start, m[start]).covers(start as int));
    }
}

/// The reservations of one address space, in the order of their first addresses.
struct Regions {
    ranges: Vec<Range>,
}

/// Every range is non-empty and ends before the last address, and each ends before the next
/// one starts.
spec fn ordered(ranges: Seq<Range>) -> bool {
    &&& forall|i: int|
        0 <= i < ranges.len() ==> (#[trigger] ranges[i]).1 > 0 && ranges[i].0 + ranges[i].1
            <= u64::MAX
    &&& forall|i: int, j: int|
        0 <= i < j < ranges.len() ==> (#[trigger] ranges[i]).0 + ranges[i].1 <= (
        #[trigger] ranges[j]).0
}

/// Some range of `ranges` starts at `start`.
spec fn has_start(ranges: Seq<Range>, start: u64) -> bool {
    exists|i: int| 0 <= i < ranges.len() && (#[trigger] ranges[i]).0 == start
}

spec fn start_index(ranges: Seq<Range>, start: u64) -> int {
    choose|i: int| 0 <= i < ranges.len() && (#[trigger] ranges[i]).0 == start
}

spec fn as_map(ranges: Seq<Range>) -> Map<u64, u64> {
    Map::new(
        |s: u64| has_start(ranges, s),
        |s: u64| ranges[start_index(ranges, s)].1,
    )
}

proof fn lemma_entry(ranges: Seq<Range>, i: int)
    requires
        ordered(ranges),
        0 <= i < ranges.len(),
    ensures
        as_map(ranges).dom().contains(ranges[i].0),
        as_map(ranges)[ranges[i].0] == ranges[i].1,
{
    let s = ranges[i].0;
    assert(has_start(ranges, s));
    let k = start_index(ranges, s);
    assert(0 <= k < ranges.len() && ranges[k].0 == s);
    if k < i {
        assert(ranges[k].0 + ranges[k].1 <= ranges[i].0);
    } else if i < k {
        assert(ranges[i].0 + ranges[i].1 <= ranges[k].0);
    }
}

proof fn lemma_covered(ranges: Seq<Range>, addr: int)
    requires
        ordered(ranges),
    ensures
        covered(as_map(ranges), addr) == exists|i: int|
            0 <= i < ranges.len() && (#[trigger] ranges[i]).covers(addr),
{
    let m = as_map(ranges);
    if covered(m, addr) {
        let s = choose|s: u64| #[trigger] m.dom().contains(s) && Range(s, m[s]).covers(addr);
        let k = start_index(ranges, s);
        assert(has_start(ranges, s));
        assert(ranges[k].covers(addr));
    }
    if exists|i: int| 0 <= i < ranges.len() && (#[trigger] ranges[i]).covers(addr) {
        let i = choose|i: int| 0 <= i < ranges.len() && (#[trigger] ranges[i]).covers(addr);
        lemma_entry(ranges, i);
        assert(m.dom().contains(ranges[i].0));
    }
}

proof fn lemma_disjoint(ranges: Seq<Range>)
    requires
        ordered(ranges),
    ensures
        disjoint(as_map(ranges)),
{
    let m = as_map(ranges);
    assert forall|s: u64, t: u64, a: int|
        #![trigger Range(s, m[s]).covers(a), Range(t, m[t]).covers(a)]
        m.dom().contains(s) && m.dom().contains(t) && Range(s, m[s]).covers(a) && Range(
            t,
            m[t],
        ).covers(a) implies s == t by {
        assert(has_start(ranges, s) && has_start(ranges, t));
        let i = start_index(ranges, s);
        let j = start_index(ranges, t);
        assert(ranges[i].covers(a) && ranges[j].covers(a));
        if i < j {
            assert(ranges[i].0 + ranges[i].1 <= ranges[j].0);
        } else if j < i {
            assert(ranges[j].0 + ranges[j].1 <= ranges[i].0);
        }
    }
}

proof fn lemma_inserted(ranges: Seq<Range>, k: int, r: Range)
    requires
        ordered(ranges),
        ordered(ranges.insert(k, r)),
        0 <= k <= ranges.len(),
    ensures
        as_map(ranges.insert(k, r)) == as_map(ranges).insert(r.0, r.1),
{
    let new = ranges.insert(k, r);
    let m = as_map(ranges).insert(r.0, r.1);
    assert(new[k] == r);
    lemma_entry(new, k);
    assert forall|s: u64| as_map(new).dom().contains(s) == #[trigger] m.dom().contains(s) by {
        if has_start(new, s) {
            let i = start_index(new, s);
            if i < k {
                assert(ranges[i] == new[i]);
                assert(has_start(ranges, s));
            } else if i > k {
                assert(ranges[i - 1] == new[i]);
                assert(has_start(ranges, s));
            }
        }
        if has_start(ranges, s) {
            let i = start_index(ranges, s);
            if i < k {
                assert(new[i].0 == s);
            } else {
                assert(new[i + 1].0 == s);
            }
        }
    }
    assert forall|s: u64| #[trigger] m.dom().contains(s) implies as_map(new)[s] == m[s] by {
        if s != r.0 {
            let i = start_index(ranges, s);
            assert(has_start(ranges, s));
            let j = if i < k {
                i
            } else {
                i + 1
            };
            assert(new[j] == ranges[i]);
            lemma_entry(new, j);
        }
    }
    assert(as_map(new) =~= m);
}

proof fn lemma_removed(ranges: Seq<Range>, k: int)
    requires
        ordered(ranges),
        0 <= k < ranges.len(),
    ensures
        ordered(ranges.remove(k)),
        as_map(ranges.remove(k)) == as_map(ranges).remove(ranges[k].0),
{
    let new = ranges.remove(k);
    assert(new.len() == ranges.len() - 1);
    assert forall|i: int| 0 <= i < new.len() implies #[trigger] new[i] == ranges[if i < k {
        i
    } else {
        i + 1
    }] by {}
    assert(ordered(new));
    let gone = ranges[k].0;
    let m = as_map(ranges).remove(gone);
    assert forall|s: u64| as_map(new).dom().contains(s) == #[trigger] m.dom().contains(s) by {
        if has_start(new, s) {
            let i = start_index(new, s);
            let j = if i < k {
                i
            } else {
                i + 1
            };
            assert(ranges[j].0 == s);
            if j < k {
                assert(ranges[j].0 + ranges[j].1 <= ranges[k].0);
            } else {
                assert(ranges[k].0 + ranges[k].1 <= ranges[j].0);
            }
        }
        if has_start(ranges, s) && s != gone {
            let i = start_index(ranges, s);
            let j = if i < k {
                i
            } else {
                i - 1
            };
            assert(new[j].0 == s);
        }
    }
    assert forall|s: u64| #[trigger] m.dom().contains(s) implies as_map(new)[s] == m[s] by {
        assert(has_start(ranges, s));
        let i = start_index(ranges, s);
        let j = if i < k {
            i
        } else {
            i - 1
        };
        assert(new[j] == ranges[i]);
        lemma_entry(new, j);
    }
    assert(as_map(new) =~= m);
}

impl Regions {
    spec fn wf(self) -> bool {
        ordered(self.ranges@)
    }

    spec fn map(self) -> Map<u64, u64> {
        as_map(self.ranges@)
    }

    /// How many ranges start at or before `addr`.
    fn count_up_to(&self, addr: u64) -> (n: usize)
        requires
            self.wf(),
        ensures
            n <= self.ranges@.len(),
            forall|i: int| 0 <= i < n ==> (#[trigger] self.ranges@[i]).0 <= addr,
            forall|i: int| n <= i < self.ranges@.len() ==> (#[trigger] self.ranges@[i]).0 > addr,
    {
        let mut low: usize = 0;
        let mut high: usize = self.ranges.len();
        while low < high
            invariant
                self.wf(),
                low <= high <= self.ranges@.len(),
                forall|i: int| 0 <= i < low ==> (#[trigger] self.ranges@[i]).0 <= addr,
                forall|i: int|
                    high <= i < self.ranges@.len() ==> (#[trigger] self.ranges@[i]).0 > addr,
            decreases high - low,
        {
            let mid: usize = low + (high - low) / 2;
            if self.ranges[mid] <= Range(addr, 0) {
                assert forall|i: int| 0 <= i <= mid implies (#[trigger] self.ranges@[i]).0
                    <= addr by {
                    if i < mid {
                        assert(self.ranges@[i].0 + self.ranges@[i].1 <= self.ranges@[mid as int].0);
                    }
                }
                low = mid + 1;
            } else {
                assert forall|i: int| mid <= i < self.ranges@.len() implies (
                #[trigger] self.ranges@[i]).0 > addr by {
                    if mid < i {
                        assert(self.ranges@[mid as int].0 + self.ranges@[mid as int].1
                            <= self.ranges@[i].0);
                    }
                }
                high = mid;
            }
        }
        low
    }
}

/// What a reservation of `length` addresses from `start` on is answered where `m` is reserved.
pub open spec fn reserve_outcome(m: Map<u64, u64>, start: u64, length: u64) -> SysResult<()> {
    if length == 0 {
        Err(SysError { code: EINVAL })
    } else if covered(m, start as int) {
        Err(SysError { code: EPERM })
    } else if start + length > u64::MAX {
        Err(SysError { code: EINVAL })
    } else if overlaps(m, start as int, length as int) {
        Err(SysError { code: EPERM })
    } else {
        Ok(())
    }
}

/// What is reserved after that.
pub open spec fn reserved_after(m: Map<u64, u64>, start: u64, length: u64) -> Map<u64, u64> {
    if reserve_outcome(m, start, length) is Ok {
        m.insert(start, length)
    } else {
        m
    }
}

/// What a release of the reservation at `start` is answered where `m` is reserved.
pub open spec fn unreserve_outcome(m: Map<u64, u64>, start: u64) -> SysResult<()> {
    if m.dom().contains(start) {
        Ok(())
    } else {
        Err(SysError { code: ENOENT })
    }
}

/// State shared by every VCPU, grouped together to make edits to the state coherent across
/// VCPUs.
pub struct SharedVcpuState {
    ioport_regions: Regions,
    mmio_regions: Regions,
}

impl SharedVcpuState {
    /// The reservations in each space are non-empty, end before the last address and do not
    /// overlap.
    pub closed spec fn wf(self) -> bool {
        forall|space: IoSpace| (#[trigger] self.in_space(space)).wf()
    }

    /// The reservations in `space`: the length of each, by its first address.
    pub closed spec fn regions(self, space: IoSpace) -> Map<u64, u64> {
        self.in_space(space).map()
    }

    spec fn in_space(self, space: IoSpace) -> Regions {
        match space {
            IoSpace::Ioport => self.ioport_regions,
            IoSpace::Mmio => self.mmio_regions,
        }
    }

    /// What [`SharedVcpuState::wf`] says of the reservations in one space.
    pub proof fn lemma_wf(self, space: IoSpace)
        requires
            self.wf(),
        ensures
            regular(self.regions(space)),
    {
        let ranges = self.in_space(space).ranges@;
        lemma_disjoint(ranges);
        assert forall|s: u64| #[trigger] self.regions(space).dom().contains(s) implies self.regions(
            space,
        )[s] > 0 && s + self.regions(space)[s] <= u64::MAX by {
            assert(has_start(ranges, s));
            let i = start_index(ranges, s);
            assert(0 <= i < ranges.len() && ranges[i].0 == s);
        }
    }

    fn get_regions(&self, space: IoSpace) -> (r: &Regions)
        ensures
            *r == self.in_space(space),
    {
        match space {
            IoSpace::Ioport => &self.ioport_regions,
            IoSpace::Mmio => &self.mmio_regions,
        }
    }

    fn get_regions_mut(&mut self, space: IoSpace) -> (r: &mut Regions)
        ensures
            *r == old(self).in_space(space),
            final(self).in_space(space) == *final(r),
            forall|other: IoSpace|
                other != space ==> #[trigger] final(self).in_space(other) == old(self).in_space(
                    other,
                ),
    {
        match space {
            IoSpace::Ioport => &mut self.ioport_regions,
            IoSpace::Mmio => &mut self.mmio_regions,
        }
    }

    /// Reserves the given range for handling by the plugin process.
    ///
    /// This will reject any reservation that overlaps with an existing reservation.
    pub fn reserve_range(&mut self, space: IoSpace, start: u64, length: u64) -> (r: SysResult<()>)
        requires
            old(self).wf(),
        ensures
            final(self).wf(),
            r == reserve_outcome(old(self).regions(space), start, length),
            final(self).regions(space) == reserved_after(old(self).regions(space), start, length),
            r is Ok <==> length > 0 && start + length <= u64::MAX && forall|s: u64| #[trigger]
                old(self).regions(space).dom().contains(s) ==> s + old(self).regions(space)[s]
                    <= start || start + length <= s,
            r is Ok ==> final(self).regions(space) == old(self).regions(space).insert(
                start,
                length,
            ),
            r is Err ==> final(self).regions(space) == old(self).regions(space),
            forall|other: IoSpace|
                other != space ==> #[trigger] final(self).regions(other) == old(self).regions(other),
    {
        proof {
            self.lemma_wf(space);
            law_granted_when_apart(self.regions(space), start, length);
        }
        self.reserve_if_free(space, start, length)
    }

    fn reserve_if_free(&mut self, space: IoSpace, start: u64, length: u64) -> (r: SysResult<()>)
        requires
            old(self).wf(),
        ensures
            final(self).wf(),
            r == reserve_outcome(old(self).regions(space), start, length),
            final(self).regions(space) == reserved_after(old(self).regions(space), start, length),
            forall|other: IoSpace|
                other != space ==> #[trigger] final(self).regions(other) == old(self).regions(other),
    {
        if length == 0 {
            return Err(SysError::new(einval()));
        }
        // Reject all cases where this reservation starts in another reservation.
        if self.is_reserved(space, start) {
            return Err(SysError::new(eperm()));
        }
        let last_address: u64 = match start.checked_add(length) {
            Some(end) => end - 1,
            None => return Err(SysError::new(einval())),
        };
        let ghost m = self.regions(space);
        let ghost ranges = self.in_space(space).ranges@;
        let regions = self.get_regions_mut(space);
        let n: usize = regions.count_up_to(last_address);
        // Reject all cases where another reservation starts in this one.
        if n > 0 && regions.ranges[n - 1].0 >= start {
            proof {
                let hit = ranges[n - 1];
                assert(hit.covers(hit.0 as int));
                lemma_covered(ranges, hit.0 as int);
                assert(overlaps(m, start as int, length as int));
            }
            return Err(SysError::new(eperm()));
        }
        regions.ranges.insert(n, Range(start, length));
        proof {
            let new = ranges.insert(n as int, Range(start, length));
            lemma_covered(ranges, start as int);
            if overlaps(m, start as int, length as int) {
                let a = choose|a: int| start <= a < start + length && #[trigger] covered(m, a);
                lemma_covered(ranges, a);
                let i = choose|i: int| 0 <= i < ranges.len() && (#[trigger] ranges[i]).covers(a);
                assert(ranges[i].0 <= a <= last_address);
                assert(i < n);
                if i < n - 1 {
                    assert(ranges[i].0 + ranges[i].1 <= ranges[n - 1].0);
                }
                assert(ranges[i].covers(start as int));
            }
            assert forall|i: int| 0 <= i < n implies (#[trigger] ranges[i]).0 + ranges[i].1
                <= start by {
                if i < n - 1 {
                    assert(ranges[i].0 + ranges[i].1 <= ranges[n - 1].0);
                }
                assert(!ranges[i].covers(start as int));
            }
            assert forall|i: int, j: int| 0 <= i < j < new.len() implies (#[trigger] new[i]).0
                + new[i].1 <= (#[trigger] new[j]).0 by {
                if i < n && j > n {
                    assert(new[i] == ranges[i] && new[j] == ranges[j - 1]);
                } else if i > n {
                    assert(new[i] == ranges[i - 1] && new[j] == ranges[j - 1]);
                } else if j < n {
                    assert(new[i] == ranges[i] && new[j] == ranges[j]);
                } else if i == n {
                    assert(new[j] == ranges[j - 1]);
                } else {
                    assert(new[i] == ranges[i]);
                }
            }
            assert forall|i: int| 0 <= i < new.len() implies (#[trigger] new[i]).1 > 0 && new[i].0
                + new[i].1 <= u64::MAX by {
                if i < n {
                    assert(new[i] == ranges[i]);
                } else if i > n {
                    assert(new[i] == ranges[i - 1]);
                }
            }
            lemma_inserted(ranges, n as int, Range(start, length));
        }
        Ok(())
    }

    /// Releases a reservation previously made at `start` in the given `space`.
    pub fn unreserve_range(&mut self, space: IoSpace, start: u64) -> (r: SysResult<()>)
        requires
            old(self).wf(),
        ensures
            final(self).wf(),
            r == unreserve_outcome(old(self).regions(space), start),
            final(self).regions(space) == old(self).regions(space).remove(start),
            r is Ok <==> old(self).regions(space).dom().contains(start),
            r matches Err(error) ==> error.code == ENOENT,
            forall|other: IoSpace|
                other != space ==> #[trigger] final(self).regions(other) == old(self).regions(other),
    {
        let ghost ranges = self.in_space(space).ranges@;
        let regions = self.get_regions_mut(space);
        let n: usize = regions.count_up_to(start);
        if n > 0 && regions.ranges[n - 1] == Range(start, 0) {
            proof {
                lemma_entry(ranges, n - 1);
                lemma_removed(ranges, n - 1);
            }
            let _ = regions.ranges.remove(n - 1);
            Ok(())
        } else {
            proof {
                if has_start(ranges, start) {
                    let i = start_index(ranges, start);
                    assert(0 <= i < ranges.len() && ranges[i].0 == start);
                    assert(i < n);
                    if i < n - 1 {
                        assert(ranges[i].0 + ranges[i].1 <= ranges[n - 1].0);
                    }
                }
                assert(as_map(ranges).remove(start) =~= as_map(ranges));
            }
            Err(SysError::new(enoent()))
        }
    }

    /// Whether `addr` lies in a reservation.
    pub fn is_reserved(&self, space: IoSpace, addr: u64) -> (r: bool)
        requires
            self.wf(),
        ensures
            r == covered(self.regions(space), addr as int),
            r <==> exists|s: u64| #[trigger]
                self.regions(space).dom().contains(s) && s <= addr < s + self.regions(space)[s],
    {
        proof {
            self.lemma_wf(space);
        }
        let ghost m = self.regions(space);
        if let Some(Range(start, len)) = self.first_before(space, addr) {
            proof {
                lemma_nearest_decides(m, start, addr);
            }
            let offset: u64 = addr - start;
            if offset < len {
                return true;
            }
        }
        false
    }

    /// The reservation with the greatest first address that is at most `addr`, if there is one.
    /// No reservation reaches the last address, for which there is none in any case.
    pub fn first_before(&self, io_space: IoSpace, addr: u64) -> (r: Option<Range>)
        requires
            self.wf(),
        ensures
            r matches Some(found) ==> addr < u64::MAX && self.regions(io_space).dom().contains(
                found.0,
            ) && self.regions(io_space)[found.0] == found.1 && found.0 <= addr,
            r matches Some(found) ==> forall|s: u64| #[trigger]
                self.regions(io_space).dom().contains(s) && s <= addr ==> s <= found.0,
            r is None ==> addr == u64::MAX || forall|s: u64| #[trigger]
                self.regions(io_space).dom().contains(s) ==> s > addr,
    {
        let regions = self.get_regions(io_space);
        if addr == u64::MAX {
            return None;
        }
        let n: usize = regions.count_up_to(addr);
        let ghost ranges = regions.ranges@;
        assert forall|s: u64| #[trigger]
            self.regions(io_space).dom().contains(s) && s <= addr implies n > 0 && s <= ranges[n
            - 1].0 by {
            assert(has_start(ranges, s));
            let i = start_index(ranges, s);
            assert(0 <= i < ranges.len() && ranges[i].0 == s);
            assert(i < n);
            if i < n - 1 {
                assert(ranges[i].0 + ranges[i].1 <= ranges[n - 1].0);
            }
        }
        if n == 0 {
            None
        } else {
            proof {
                lemma_entry(ranges, n - 1);
            }
            Some(regions.ranges[n - 1])
        }
    }
}

impl Default for SharedVcpuState {
    fn default() -> (r: SharedVcpuState)
        ensures
            r.wf(),
            forall|space: IoSpace| #[trigger] r.regions(space) == Map::<u64, u64>::empty(),
    {
        let r = SharedVcpuState {
            ioport_regions: Regions { ranges: Vec::new() },
            mmio_regions: Regions { ranges: Vec::new() },
        };
        proof {
            assert(as_map(Seq::<Range>::empty()) =~= Map::<u64, u64>::empty());
            assert forall|space: IoSpace| (#[trigger] r.in_space(space)).wf() && r.regions(space)
                == Map::<u64, u64>::empty() by {
                assert(r.in_space(space).ranges@ =~= Seq::<Range>::empty());
            }
        }
        r
    }
}

/// A reservation is granted just when it is not empty, ends before the last address and shares
/// no address with an existing one.
pub proof fn law_granted_when_free(m: Map<u64, u64>, start: u64, length: u64)
    ensures
        reserve_outcome(m, start, length) is Ok <==> (length > 0 && start + length <= u64::MAX
            && !overlaps(m, start as int, length as int)),
{
    if length > 0 && covered(m, start as int) {
        assert(overlaps(m, start as int, length as int));
    }
}

/// A reservation is granted just when it is not empty, ends before the last address, and lies
/// before or after each of the existing ones.
pub proof fn law_granted_when_apart(m: Map<u64, u64>, start: u64, length: u64)
    requires
        regular(m),
    ensures
        reserve_outcome(m, start, length) is Ok <==> (length > 0 && start + length <= u64::MAX
            && forall|s: u64| #[trigger]
            m.dom().contains(s) ==> s + m[s] <= start || start + length <= s),
        reserve_outcome(m, start, length) is Ok ==> reserved_after(m, start, length) == m.insert(
            start,
            length,
        ),
        reserve_outcome(m, start, length) is Err ==> reserved_after(m, start, length) == m,
{
    law_granted_when_free(m, start, length);
    if length > 0 {
        if overlaps(m, start as int, length as int) {
            let a = choose|a: int| start <= a < start + length && #[trigger] covered(m, a);
            let s = choose|s: u64| #[trigger] m.dom().contains(s) && Range(s, m[s]).covers(a);
            assert(!(s + m[s] <= start || start + length <= s));
        }
        if exists|s: u64| #[trigger]
            m.dom().contains(s) && !(s + m[s] <= start || start + length <= s) {
            let s = choose|s: u64| #[trigger]
                m.dom().contains(s) && !(s + m[s] <= start || start + length <= s);
            let a: int = if s <= start {
                start as int
            } else {
                s as int
            };
            assert(Range(s, m[s]).covers(a));
            assert(covered(m, a));
        }
    }
}

/// Why a reservation is refused: an empty one, or one past the last address that begins at a free
/// one, is invalid, and any other that touches an existing one is not permitted.
pub proof fn law_refusals(m: Map<u64, u64>, start: u64, length: u64)
    requires
        regular(m),
    ensures
        length == 0 ==> reserve_outcome(m, start, length) == Err::<(), SysError>(
            SysError { code: EINVAL },
        ),
        length > 0 && (exists|s: u64| #[trigger] m.dom().contains(s) && s <= start < s + m[s])
            ==> reserve_outcome(m, start, length) == Err::<(), SysError>(SysError { code: EPERM }),
        length > 0 && start + length <= u64::MAX && (exists|s: u64| #[trigger]
            m.dom().contains(s) && s < start + length && start < s + m[s]) ==> reserve_outcome(
            m,
            start,
            length,
        ) == Err::<(), SysError>(SysError { code: EPERM }),
        length > 0 && start + length > u64::MAX && !(exists|s: u64| #[trigger]
            m.dom().contains(s) && s <= start < s + m[s]) ==> reserve_outcome(m, start, length)
            == Err::<(), SysError>(SysError { code: EINVAL }),
{
    law_granted_when_apart(m, start, length);
    law_covered_by_one(m, start as int);
}

/// An address is covered just when it lies at or after the start of some reservation, by less than
/// its length.
pub proof fn law_covered_by_one(m: Map<u64, u64>, addr: int)
    ensures
        covered(m, addr) <==> exists|s: u64| #[trigger] m.dom().contains(s) && s <= addr < s + m[s],
{
    if exists|s: u64| #[trigger] m.dom().contains(s) && s <= addr < s + m[s] {
        let s = choose|s: u64| #[trigger] m.dom().contains(s) && s <= addr < s + m[s];
        assert(Range(s, m[s]).covers(addr));
    }
    if covered(m, addr) {
        let s = choose|s: u64| #[trigger] m.dom().contains(s) && Range(s, m[s]).covers(addr);
        assert(s <= addr < s + m[s]);
    }
}

/// Of two reservations, the one that starts first ends before the other starts. None is empty, and
/// none reaches the last address.
pub proof fn law_reservations_are_apart(m: Map<u64, u64>, s: u64, t: u64)
    requires
        regular(m),
        m.dom().contains(s),
        m.dom().contains(t),
    ensures
        s < t ==> s + m[s] <= t,
        0 < m[s],
        s + m[s] <= u64::MAX,
{
    if s < t && s + m[s] > t {
        assert(Range(s, m[s]).covers(t as int));
        assert(Range(t, m[t]).covers(t as int));
    }
}

/// Whatever is asked for, the reservations stay non-empty, within the address space and
/// disjoint.
pub proof fn law_stays_regular(m: Map<u64, u64>, start: u64, length: u64)
    requires
        regular(m),
    ensures
        regular(reserved_after(m, start, length)),
        regular(m.remove(start)),
{
    law_granted_when_free(m, start, length);
    let n = reserved_after(m, start, length);
    assert forall|s: u64, t: u64, a: int|
        #![trigger Range(s, n[s]).covers(a), Range(t, n[t]).covers(a)]
        n.dom().contains(s) && n.dom().contains(t) && Range(s, n[s]).covers(a) && Range(
            t,
            n[t],
        ).covers(a) implies s == t by {
        if s != t && reserve_outcome(m, start, length) is Ok {
            if s == start {
                assert(m.dom().contains(t) && Range(t, m[t]).covers(a));
                assert(covered(m, a));
            } else if t == start {
                assert(m.dom().contains(s) && Range(s, m[s]).covers(a));
                assert(covered(m, a));
            } else {
                assert(Range(s, m[s]).covers(a) && Range(t, m[t]).covers(a));
            }
        }
    }
    let k = m.remove(start);
    assert forall|s: u64, t: u64, a: int|
        #![trigger Range(s, k[s]).covers(a), Range(t, k[t]).covers(a)]
        k.dom().contains(s) && k.dom().contains(t) && Range(s, k[s]).covers(a) && Range(
            t,
            k[t],
        ).covers(a) implies s == t by {
        assert(Range(s, m[s]).covers(a) && Range(t, m[t]).covers(a));
    }
}

/// A granted reservation covers its own addresses and leaves all others as they were.
pub proof fn law_reserve_covers(m: Map<u64, u64>, start: u64, length: u64, addr: int)
    requires
        regular(m),
        reserve_outcome(m, start, length) is Ok,
    ensures
        covered(reserved_after(m, start, length), addr) <==> (covered(m, addr) || start <= addr
            < start + length),
{
    let n = m.insert(start, length);
    if covered(n, addr) {
        let s = choose|s: u64| #[trigger] n.dom().contains(s) && Range(s, n[s]).covers(addr);
        if s != start {
            assert(m.dom().contains(s) && Range(s, m[s]).covers(addr));
        }
    }
    if covered(m, addr) {
        let s = choose|s: u64| #[trigger] m.dom().contains(s) && Range(s, m[s]).covers(addr);
        if s == start {
            assert(Range(s, m[s]).covers(start as int));
        }
        assert(n.dom().contains(s) && Range(s, n[s]).covers(addr));
    }
    if start <= addr < start + length {
        assert(n.dom().contains(start) && Range(start, n[start]).covers(addr));
    }
}

/// After a reservation has been granted, every further one that shares an address with it is
/// rejected.
pub proof fn law_second_rejected(
    m: Map<u64, u64>,
    start: u64,
    length: u64,
    again: u64,
    again_length: u64,
)
    requires
        regular(m),
        reserve_outcome(m, start, length) is Ok,
        again < start + length,
        start < again + again_length,
    ensures
        reserve_outcome(reserved_after(m, start, length), again, again_length) is Err,
{
    let n = reserved_after(m, start, length);
    let a: int = if again <= start {
        start as int
    } else {
        again as int
    };
    law_reserve_covers(m, start, length, a);
    law_granted_when_free(n, again, again_length);
    if again_length > 0 {
        assert(again <= a < again + again_length && covered(n, a));
    }
}

/// Releasing a reservation gives back just its own addresses.
pub proof fn law_unreserve_uncovers(m: Map<u64, u64>, start: u64, addr: int)
    requires
        regular(m),
        m.dom().contains(start),
    ensures
        covered(m.remove(start), addr) <==> (covered(m, addr) && !Range(start, m[start]).covers(
            addr,
        )),
{
    let n = m.remove(start);
    if covered(n, addr) {
        let s = choose|s: u64| #[trigger] n.dom().contains(s) && Range(s, n[s]).covers(addr);
        assert(m.dom().contains(s) && Range(s, m[s]).covers(addr));
    }
    if covered(m, addr) && !Range(start, m[start]).covers(addr) {
        let s = choose|s: u64| #[trigger] m.dom().contains(s) && Range(s, m[s]).covers(addr);
        assert(n.dom().contains(s) && Range(s, n[s]).covers(addr));
    }
}

/// Releasing a reservation that was just granted puts everything back as it was.
pub proof fn law_unreserve_undoes_reserve(m: Map<u64, u64>, start: u64, length: u64)
    requires
        regular(m),
        reserve_outcome(m, start, length) is Ok,
    ensures
        unreserve_outcome(reserved_after(m, start, length), start) is Ok,
        reserved_after(m, start, length).remove(start) == m,
{
    if m.dom().contains(start) {
        assert(Range(start, m[start]).covers(start as int));
    }
    assert(m.insert(start, length).remove(start) =~= m);
}

/// A released reservation can be made again, and everything is then as it was.
pub proof fn law_reserve_undoes_unreserve(m: Map<u64, u64>, start: u64)
    requires
        regular(m),
        m.dom().contains(start),
    ensures
        reserve_outcome(m.remove(start), start, m[start]) is Ok,
        reserved_after(m.remove(start), start, m[start]) == m,
{
    let n = m.remove(start);
    let length = m[start];
    law_granted_when_free(n, start, length);
    if overlaps(n, start as int, length as int) {
        let a = choose|a: int| start <= a < start + length && #[trigger] covered(n, a);
        law_unreserve_uncovers(m, start, a);
    }
    assert(n.insert(start, length) =~= m);
}

/// A released reservation cannot be released twice.
pub proof fn law_unreserve_once(m: Map<u64, u64>, start: u64)
    ensures
        unreserve_outcome(m.remove(start), start) == Err::<(), SysError>(
            SysError { code: ENOENT },
        ),
{
}

/// Ranges compare as their first addresses do, and their lengths do not count: just one of less,
/// equal and greater holds, and it turns round with the ranges.
pub proof fn law_ranges_compare_by_start(a: Range, b: Range)
    ensures
        vstd::std_specs::cmp::PartialEqSpec::eq_spec(&a, &b) <==> a.0 == b.0,
        vstd::std_specs::cmp::PartialOrdSpec::partial_cmp_spec(&a, &b) == Some(Ordering::Less)
            <==> a.0 < b.0,
        vstd::std_specs::cmp::PartialOrdSpec::partial_cmp_spec(&a, &b) == Some(Ordering::Equal)
            <==> a.0 == b.0,
        vstd::std_specs::cmp::PartialOrdSpec::partial_cmp_spec(&a, &b) == Some(Ordering::Greater)
            <==> a.0 > b.0,
{
}

} // verus!
