use vstd::prelude::*;
use x86_64::structures::paging::{Page, PhysFrame, Size4KiB};
use x86_64::{PhysAddr, VirtAddr};

verus! {

/// First address that a physical address may not reach (physical addresses have 52 bits).
pub const PHYS_LIMIT: u64 = 0x10_0000_0000_0000;

/// First address above the lower half of the canonical virtual address space.
pub const LOWER_HALF_END: u64 = 0x8000_0000_0000;

/// The start of the 4 KiB frame or page that holds `addr`.
pub open spec fn frame_of(addr: int) -> int {
    addr - addr % 4096
}

/// Whether bits 48 to 63 of a virtual address repeat bit 47.
pub open spec fn canonical(addr: u64) -> bool {
    addr < LOWER_HALF_END || addr >= 0xFFFF_8000_0000_0000u64
}

/// Start address of the physical frame that holds `addr`, computed by the paging crate.
/// Its documentation: `PhysAddr::new` panics when a bit from 52 up is set, and
/// `PhysFrame::containing_address` aligns the address down to the frame size.
#[verifier::external_body]
fn containing_frame(addr: u64) -> (f: u64)
    requires
        addr < PHYS_LIMIT,
    ensures
        f == frame_of(addr as int),
{
    PhysFrame::<Size4KiB>::containing_address(PhysAddr::new(addr)).start_address().as_u64()
}

/// Start address of the 4 KiB page that holds virtual address `addr`, computed by the paging
/// crate. Its documentation: `VirtAddr::new` panics on a non-canonical address, and
/// `Page::containing_address` aligns the address down to the page size.
#[verifier::external_body]
fn containing_page(addr: u64) -> (p: u64)
    requires
        canonical(addr),
    ensures
        p == frame_of(addr as int),
{
    Page::<Size4KiB>::containing_address(VirtAddr::new(addr)).start_address().as_u64()
}

/// One entry of the boot loader's memory map.
#[derive(Clone, Copy, Debug, PartialEq, Eq, Structural)]
pub struct MemoryArea {
    pub start: u64,
    pub end: u64,
    /// Whether the boot loader marks the area as available RAM.
    pub available: bool,
}

/// The lowest 4 KiB boundary at or above `addr`.
pub open spec fn align_up(addr: int) -> int {
    if addr % 4096 == 0 {
        addr
    } else {
        addr - addr % 4096 + 4096
    }
}

/// The frames that lie wholly inside an area, in address order: from its start rounded up
/// to a frame boundary, every frame that ends at or before the area's end.
pub open spec fn area_frames(a: MemoryArea) -> Seq<u64> {
    let s = align_up(a.start as int);
    if s + 4096 <= a.end {
        Seq::new(((a.end - s) / 4096) as nat, |i: int| (s + 4096 * i) as u64)
    } else {
        Seq::empty()
    }
}

/// The usable frames of a memory map: those of its available areas, area after area.
pub open spec fn usable_frames(areas: Seq<MemoryArea>) -> Seq<u64>
    decreases areas.len(),
{
    if areas.len() == 0 {
        Seq::empty()
    } else {
        usable_frames(areas.drop_last()) + if areas.last().available {
            area_frames(areas.last())
        } else {
            Seq::empty()
        }
    }
}

/// How many usable frames an area gives: its frame count when available, none otherwise.
fn frames_in(a: MemoryArea) -> (count: u64)
    ensures
        count == (if a.available { area_frames(a).len() } else { 0 }),
        count > 0 ==> {
            let first = align_up(a.start as int);
            &&& first <= u64::MAX
            &&& first % 4096 == 0
            &&& first == a.start + (4096 - a.start % 4096) % 4096
            &&& first <= a.end
            &&& count == (a.end - first) / 4096
        },
{
    if !a.available {
        return 0;
    }
    let rem = a.start % 4096;
    let pad: u64 = (4096 - rem) % 4096;
    if a.start > a.end || a.end - a.start < pad {
        return 0;
    }
    let first = a.start + pad;
    if a.end - first < 4096 {
        return 0;
    }
    (a.end - first) / 4096
}

/// Hands out the usable frames of the boot memory map one after the other.
pub struct BootInfoFrameAllocator {
    memory_map: Vec<MemoryArea>,
    next: usize,
}

impl BootInfoFrameAllocator {
    /// The memory map the allocator walks.
    pub closed spec fn areas(&self) -> Seq<MemoryArea> {
        self.memory_map@
    }

    /// How many frames it has handed out (or tried to).
    pub closed spec fn allocated(&self) -> nat {
        self.next as nat
    }

    /// An allocator that starts at the first usable frame of `memory_map`.
    pub fn init(memory_map: Vec<MemoryArea>) -> (a: Self)
        ensures
            a.areas() == memory_map@,
            a.allocated() == 0,
    {
        BootInfoFrameAllocator { memory_map, next: 0 }
    }

    /// The address from which the next frame would be taken, if the map has one more.
    fn next_address(&self) -> (r: Option<u64>)
        ensures
            match r {
                Some(addr) => {
                    &&& self.allocated() < usable_frames(self.areas()).len()
                    &&& usable_frames(self.areas())[self.allocated() as int] == frame_of(addr as int)
                },
                None => self.allocated() >= usable_frames(self.areas()).len(),
            },
    {
        let ghost areas = self.memory_map@;
        let n = self.next;
        let mut remaining: u64 = n as u64;
        let mut i: usize = 0;
        while i < self.memory_map.len()
            invariant
                areas == self.memory_map@,
                n == self.next,
                i <= areas.len(),
                usable_frames(areas.take(i as int)).len() + remaining == n,
            decreases areas.len() - i,
        {
            let a = self.memory_map[i];
            proof {
                assert(areas.take(i + 1).drop_last() =~= areas.take(i as int));
                assert(areas.take(i + 1).last() == a);
                lemma_usable_prefix(areas, i + 1);
            }
            let count = frames_in(a);
            if remaining < count {
                let first: u64 = a.start + (4096 - a.start % 4096) % 4096;
                assert(4096 * remaining + 4096 <= a.end - first) by (nonlinear_arith)
                    requires
                        remaining < count,
                        count == (a.end - first) / 4096,
                        first <= a.end,
                ;
                let addr: u64 = first + 4096 * remaining;
                proof {
                    let pre = usable_frames(areas.take(i as int));
                    assert(usable_frames(areas.take(i + 1)) == pre + area_frames(a));
                    assert(usable_frames(areas)[n as int] == area_frames(a)[remaining as int]);
                    assert(addr % 4096 == 0) by (nonlinear_arith)
                        requires
                            addr == first + 4096 * remaining,
                            first % 4096 == 0,
                    ;
                }
                return Some(addr);
            }
            remaining = remaining - count;
            i = i + 1;
        }
        proof {
            assert(areas.take(i as int) =~= areas);
        }
        None
    }

    /// How many frames the allocator has handed out (or tried to).
    pub fn allocated_count(&self) -> (n: usize)
        ensures
            n == self.allocated(),
    {
        self.next
    }

    /// Whether the next frame, if there is one, has a valid physical address (below 2^52),
    /// as `allocate_frame` needs.
    pub fn next_frame_addressable(&self) -> (r: bool)
        ensures
            r == (self.allocated() < usable_frames(self.areas()).len() ==> usable_frames(
                self.areas(),
            )[self.allocated() as int] < PHYS_LIMIT),
    {
        match self.next_address() {
            Some(addr) => addr < PHYS_LIMIT,
            None => true,
        }
    }

    /// The next usable frame, if the map has one more; counts the attempt either way.
    pub fn allocate_frame(&mut self) -> (f: Option<u64>)
        requires
            old(self).allocated() < usize::MAX,
            old(self).allocated() < usable_frames(old(self).areas()).len() ==> usable_frames(
                old(self).areas(),
            )[old(self).allocated() as int] < PHYS_LIMIT,
        ensures
            final(self).areas() == old(self).areas(),
            final(self).allocated() == old(self).allocated() + 1,
            f == if old(self).allocated() < usable_frames(old(self).areas()).len() {
                Some(usable_frames(old(self).areas())[old(self).allocated() as int])
            } else {
                None::<u64>
            },
    {
        let found = self.next_address();
        self.next = self.next + 1;
        match found {
            Some(addr) => Some(containing_frame(addr)),
            None => None,
        }
    }
}

/// Every frame that the allocator can hand out is 4 KiB aligned and lies wholly inside an
/// area that the memory map marks available.
pub proof fn lemma_usable_frame_in_available_area(areas: Seq<MemoryArea>, j: int)
    requires
        0 <= j < usable_frames(areas).len(),
    ensures
        usable_frames(areas)[j] % 4096 == 0,
        exists|k: int|
            0 <= k < areas.len() && #[trigger] areas[k].available && areas[k].start
                <= usable_frames(areas)[j] && usable_frames(areas)[j] + 4096 <= areas[k].end,
    decreases areas.len(),
{
    let init = areas.drop_last();
    let a = areas.last();
    let pre = usable_frames(init);
    if j < pre.len() {
        lemma_usable_frame_in_available_area(init, j);
        let k = choose|k: int|
            0 <= k < init.len() && #[trigger] init[k].available && init[k].start <= pre[j]
                && pre[j] + 4096 <= init[k].end;
        assert(areas[k] == init[k]);
    } else {
        let i = j - pre.len();
        let s = align_up(a.start as int);
        assert(4096 * i + 4096 <= a.end - s) by (nonlinear_arith)
            requires
                0 <= i < (a.end - s) / 4096,
                s + 4096 <= a.end,
        ;
        assert((s + 4096 * i) % 4096 == 0) by (nonlinear_arith)
            requires
                s % 4096 == 0,
        ;
        assert(areas[areas.len() - 1] == a);
        assert(usable_frames(areas)[j] == s + 4096 * i);
    }
}

/// Every 4 KiB frame that lies wholly inside an available area of the map is among the
/// frames the allocator hands out.
pub proof fn lemma_available_frame_is_usable(areas: Seq<MemoryArea>, k: int, f: int)
    requires
        0 <= k < areas.len(),
        areas[k].available,
        f % 4096 == 0,
        areas[k].start <= f,
        f + 4096 <= areas[k].end,
    ensures
        usable_frames(areas).contains(f as u64),
    decreases areas.len(),
{
    let init = areas.drop_last();
    let pre = usable_frames(init);
    if k < areas.len() - 1 {
        assert(init[k] == areas[k]);
        lemma_available_frame_is_usable(init, k, f);
        let j = choose|j: int| 0 <= j < pre.len() && pre[j] == f as u64;
        assert(usable_frames(areas)[j] == f as u64);
    } else {
        let a = areas.last();
        let s = align_up(a.start as int);
        assert(s <= f);
        let i = (f - s) / 4096;
        assert(f == s + 4096 * i && 0 <= i < (a.end - s) / 4096) by (nonlinear_arith)
            requires
                s % 4096 == 0,
                f % 4096 == 0,
                s <= f,
                f + 4096 <= a.end,
                i == (f - s) / 4096,
        ;
        assert(usable_frames(areas)[pre.len() + i] == f as u64);
    }
}

/// The pages from the one holding `first` to the one holding `last`, both included.
pub open spec fn page_range(first: int, last: int) -> Seq<u64> {
    Seq::new(
        ((frame_of(last) - frame_of(first)) / 4096 + 1) as nat,
        |i: int| (frame_of(first) + 4096 * i) as u64,
    )
}

/// The identity mapping of a linear frame buffer of `len` bytes at `fb`: each page from the
/// one holding `fb` to the one holding `fb + len` (both included), paired with the physical
/// frame at the same address. The range must lie in the lower half: every higher-half page
/// address has bits from 52 up set, so it is no physical address at all.
pub fn framebuffer_mapping(fb: u64, len: u64) -> (m: Vec<(u64, u64)>)
    requires
        fb as int + len as int + 4096 < LOWER_HALF_END,
    ensures
        m@ == page_range(fb as int, fb + len).map_values(|p: u64| (p, p)),
{
    let first = containing_page(fb);
    let last = containing_page(fb + len);
    let ghost want = page_range(fb as int, fb + len).map_values(|p: u64| (p, p));
    let mut m: Vec<(u64, u64)> = Vec::new();
    let mut page = first;
    while page <= last
        invariant
            first == frame_of(fb as int),
            last == frame_of(fb + len),
            first <= page <= last + 4096,
            (page - first) % 4096 == 0,
            last + 4096 < LOWER_HALF_END,
            want == page_range(fb as int, fb + len).map_values(|p: u64| (p, p)),
            m@.len() == (page - first) / 4096,
            forall|i: int| 0 <= i < m@.len() ==> #[trigger] m@[i] == want[i],
        decreases last + 4096 - page,
    {
        let frame = containing_frame(page);
        m.push((page, frame));
        proof {
            let i = (page - first) / 4096;
            assert(page == first + 4096 * i);
            assert(want[i] == (page, page));
        }
        page = page + 4096;
    }
    assert(m@ =~= want);
    m
}

/// The frame that a new mapping of physical address `phy_addr` points to: the 4 KiB frame
/// holding it, as the paging crate computes it.
pub fn create_mapping(phy_addr: u64) -> (frame: u64)
    requires
        phy_addr < PHYS_LIMIT,
    ensures
        frame == frame_of(phy_addr as int),
{
    containing_frame(phy_addr)
}

/// Bytes covered by a list of memory areas.
pub open spec fn total_size(areas: Seq<MemoryArea>) -> int
    decreases areas.len(),
{
    if areas.len() == 0 {
        0
    } else {
        total_size(areas.drop_last()) + areas.last().end - areas.last().start
    }
}

proof fn lemma_total_size_nonneg(areas: Seq<MemoryArea>)
    requires
        forall|i: int| 0 <= i < areas.len() ==> areas[i].start <= areas[i].end,
    ensures
        0 <= total_size(areas),
    decreases areas.len(),
{
    if areas.len() > 0 {
        lemma_total_size_nonneg(areas.drop_last());
    }
}

proof fn lemma_total_size_prefix(areas: Seq<MemoryArea>, k: int)
    requires
        0 <= k <= areas.len(),
        forall|i: int| 0 <= i < areas.len() ==> areas[i].start <= areas[i].end,
    ensures
        0 <= total_size(areas.take(k)) <= total_size(areas),
    decreases areas.len() - k,
{
    lemma_total_size_nonneg(areas.take(k));
    if k < areas.len() {
        lemma_total_size_prefix(areas, k + 1);
        assert(areas.take(k + 1).drop_last() =~= areas.take(k));
    } else {
        assert(areas.take(k) =~= areas);
    }
}

/// The amount of memory the areas describe, summed area by area.
pub fn memory_size(areas: &[MemoryArea]) -> (size: u64)
    requires
        forall|i: int| 0 <= i < areas@.len() ==> areas@[i].start <= areas@[i].end,
        total_size(areas@) <= u64::MAX,
    ensures
        size == total_size(areas@),
{
    let mut size: u64 = 0;
    let mut i: usize = 0;
    while i < areas.len()
        invariant
            i <= areas@.len(),
            forall|j: int| 0 <= j < areas@.len() ==> areas@[j].start <= areas@[j].end,
            total_size(areas@) <= u64::MAX,
            size == total_size(areas@.take(i as int)),
        decreases areas@.len() - i,
    {
        proof {
            lemma_total_size_prefix(areas@, i + 1);
            assert(areas@.take(i + 1).drop_last() =~= areas@.take(i as int));
        }
        size = size + (areas[i].end - areas[i].start);
        i = i + 1;
    }
    assert(areas@.take(i as int) =~= areas@);
    size
}

/// The usable frames of a prefix of the map are a prefix of the usable frames of the map.
proof fn lemma_usable_prefix(areas: Seq<MemoryArea>, k: int)
    requires
        0 <= k <= areas.len(),
    ensures
        usable_frames(areas.take(k)).len() <= usable_frames(areas).len(),
        forall|j: int|
            0 <= j < usable_frames(areas.take(k)).len() ==> usable_frames(areas.take(k))[j]
                == usable_frames(areas)[j],
    decreases areas.len() - k,
{
    if k < areas.len() {
        lemma_usable_prefix(areas, k + 1);
        assert(areas.take(k + 1).drop_last() =~= areas.take(k));
    } else {
        assert(areas.take(k) =~= areas);
    }
}

} // verus!
