//! Address-space layout: the areas an address space maps, and where the
//! loadable segments of an ELF image, its stack and its shared runtime go.
//! The page tables and frames that realise a layout live with the kernel's
//! memory management, outside this crate.
use vstd::prelude::*;

verus! {

/// Bytes per page.
pub const PAGE_SIZE: usize = 0x1000;

/// Lowest address of the region shared with every address space.
pub const SHARED_BASE: usize = 0x8700_0000;

/// How an area's pages are backed.
#[derive(Clone, Copy, Debug, PartialEq, Eq, Structural)]
pub enum MapType {
    /// Each virtual page maps the physical page with the same number.
    Identical,
    /// Each virtual page gets a freshly allocated frame.
    Framed,
}

/// Access rights of an area, as page-table flag bits.
#[derive(Clone, Copy, Debug, PartialEq, Eq, Structural)]
pub struct MapPermission {
    pub bits: u8,
}

impl MapPermission {
    pub const R: u8 = 2;
    pub const W: u8 = 4;
    pub const X: u8 = 8;
    pub const U: u8 = 16;
}

/// The page holding address `va`.
pub open spec fn floor_page(va: int) -> int {
    va / (PAGE_SIZE as int)
}

/// The first page wholly at or above address `va`.
pub open spec fn ceil_page(va: int) -> int {
    (va + PAGE_SIZE - 1) / (PAGE_SIZE as int)
}

/// A contiguous range of virtual pages mapped the same way.
#[derive(Clone, Copy, Debug, PartialEq, Eq, Structural)]
pub struct MapArea {
    pub start_vpn: usize,
    pub end_vpn: usize,
    pub map_type: MapType,
    pub map_perm: MapPermission,
}

/// The area covering the pages that addresses `start_va..end_va` touch.
pub open spec fn area_of(start_va: int, end_va: int, map_type: MapType, map_perm: MapPermission) -> MapArea {
    MapArea {
        start_vpn: floor_page(start_va) as usize,
        end_vpn: ceil_page(end_va) as usize,
        map_type,
        map_perm,
    }
}

impl MapArea {
    /// The area covering the pages that addresses `start_va..end_va` touch.
    pub fn new(start_va: usize, end_va: usize, map_type: MapType, map_perm: MapPermission) -> (r: Self)
        requires
            end_va + PAGE_SIZE - 1 <= usize::MAX,
        ensures
            r == area_of(start_va as int, end_va as int, map_type, map_perm),
    {
        MapArea {
            start_vpn: start_va / PAGE_SIZE,
            end_vpn: (end_va + (PAGE_SIZE - 1)) / PAGE_SIZE,
            map_type,
            map_perm,
        }
    }

    /// An area with the same pages, backing and rights as `another`.
    pub fn from_another(another: &MapArea) -> (r: Self)
        ensures
            r == *another,
    {
        MapArea {
            start_vpn: another.start_vpn,
            end_vpn: another.end_vpn,
            map_type: another.map_type,
            map_perm: another.map_perm,
        }
    }
}

/// One page mapped on its own, outside any area: page `vpn` of the address
/// space shows physical page `ppn`, with page-table flag bits `flags`.
#[derive(Clone, Copy, Debug, PartialEq, Eq, Structural)]
pub struct PageMapping {
    pub vpn: usize,
    pub ppn: usize,
    pub flags: u8,
}

/// How many pages an area spans.
pub open spec fn area_pages(a: MapArea) -> int {
    if a.start_vpn <= a.end_vpn { a.end_vpn - a.start_vpn } else { 0 }
}

/// The mapping of page `vpn` of area `a`: to the same page number when
/// `a` is identical, to `frame` otherwise; with `a`'s rights as flags.
pub open spec fn page_mapping_of(a: MapArea, vpn: int, frame: usize) -> PageMapping {
    PageMapping {
        vpn: vpn as usize,
        ppn: if a.map_type == MapType::Identical { vpn as usize } else { frame },
        flags: a.map_perm.bits,
    }
}

/// The mappings that mapping area `a` creates, page by page from its
/// first; a framed area's pages go to `frames`, in order.
pub open spec fn area_mappings(a: MapArea, frames: Seq<usize>) -> Seq<PageMapping> {
    Seq::new(
        area_pages(a) as nat,
        |k: int| page_mapping_of(a, a.start_vpn + k, if a.map_type == MapType::Framed { frames[k] } else { 0 }),
    )
}

impl MapArea {
    /// The mapping of page `vpn` of this area: to the page of the same
    /// number when identical, to the freshly allocated `frame` when framed.
    pub fn map_one(&self, vpn: usize, frame: Option<usize>) -> (r: PageMapping)
        requires
            self.map_type == MapType::Framed ==> frame is Some,
        ensures
            r == page_mapping_of(*self, vpn as int, match frame { Some(f) => f, None => 0 }),
    {
        let ppn = match self.map_type {
            MapType::Identical => vpn,
            MapType::Framed => match frame {
                Some(f) => f,
                None => 0,
            },
        };
        PageMapping { vpn, ppn, flags: self.map_perm.bits }
    }

    /// The mappings that mapping this area creates, page by page; a framed
    /// area takes one of `frames` per page, in order.
    pub fn map(&self, frames: &Vec<usize>) -> (r: Vec<PageMapping>)
        requires
            self.map_type == MapType::Framed ==> frames.len() == area_pages(*self),
        ensures
            r@ == area_mappings(*self, frames@),
    {
        let mut out: Vec<PageMapping> = Vec::new();
        let mut vpn: usize = self.start_vpn;
        while vpn < self.end_vpn
            invariant
                self.start_vpn <= vpn,
                vpn <= self.end_vpn || self.end_vpn < self.start_vpn,
                vpn < self.end_vpn || vpn == self.start_vpn || vpn == self.end_vpn,
                self.map_type == MapType::Framed ==> frames.len() == area_pages(*self),
                out@ == area_mappings(*self, frames@).take(vpn - self.start_vpn),
            decreases self.end_vpn - vpn,
        {
            let k = vpn - self.start_vpn;
            let frame = if self.map_type == MapType::Framed { Some(frames[k]) } else { None };
            out.push(self.map_one(vpn, frame));
            vpn = vpn + 1;
            proof {
                assert(out@ =~= area_mappings(*self, frames@).take(vpn - self.start_vpn));
            }
        }
        proof {
            assert(area_mappings(*self, frames@).take(vpn - self.start_vpn) =~= area_mappings(*self, frames@));
        }
        out
    }

    /// The pages that unmapping this area removes, in order (a framed
    /// area's frames are freed with them).
    pub fn unmap(&self) -> (r: Vec<usize>)
        ensures
            r@ == Seq::new(area_pages(*self) as nat, |k: int| (self.start_vpn + k) as usize),
    {
        let mut out: Vec<usize> = Vec::new();
        let mut vpn: usize = self.start_vpn;
        while vpn < self.end_vpn
            invariant
                self.start_vpn <= vpn,
                vpn <= self.end_vpn || vpn == self.start_vpn,
                out@ == Seq::new(area_pages(*self) as nat, |k: int| (self.start_vpn + k) as usize).take(
                    vpn - self.start_vpn,
                ),
            decreases self.end_vpn - vpn,
        {
            out.push(vpn);
            vpn = vpn + 1;
            proof {
                assert(out@ =~= Seq::new(area_pages(*self) as nat, |k: int| (self.start_vpn + k) as usize).take(
                    vpn - self.start_vpn,
                ));
            }
        }
        proof {
            assert(Seq::new(area_pages(*self) as nat, |k: int| (self.start_vpn + k) as usize).take(
                vpn - self.start_vpn,
            ) =~= Seq::new(area_pages(*self) as nat, |k: int| (self.start_vpn + k) as usize));
        }
        out
    }

    /// Whether unmapping page `vpn` frees a frame: only a framed area holds
    /// frames of its own.
    pub fn unmap_one(&self, _vpn: usize) -> (frees_frame: bool)
        ensures
            frees_frame == (self.map_type == MapType::Framed),
    {
        match self.map_type {
            MapType::Framed => true,
            _ => false,
        }
    }
}

/// One step of copying an image into an area: bytes `start..end` of the
/// image go to the beginning of page `vpn`.
#[derive(Clone, Copy, Debug, PartialEq, Eq, Structural)]
pub struct PageCopy {
    pub vpn: usize,
    pub start: usize,
    pub end: usize,
}

/// How many pages copying `len` bytes touches: one page-sized piece after
/// another, and one empty piece when there is nothing to copy.
pub open spec fn copy_page_count(len: int) -> int {
    if len == 0 { 1 } else { (len + PAGE_SIZE - 1) / (PAGE_SIZE as int) }
}

/// The steps of copying `len` bytes into the pages from `start_vpn` on:
/// piece `k` is bytes `k * PAGE_SIZE` up to the next page boundary or the
/// end, into page `start_vpn + k`.
pub open spec fn page_copies(start_vpn: int, len: int) -> Seq<PageCopy> {
    Seq::new(
        copy_page_count(len) as nat,
        |k: int| PageCopy {
            vpn: (start_vpn + k) as usize,
            start: (k * PAGE_SIZE) as usize,
            end: (if len < (k + 1) * PAGE_SIZE { len } else { (k + 1) * PAGE_SIZE }) as usize,
        },
    )
}

impl MapArea {
    /// How `len` bytes of data are copied into this area, page by page from
    /// its first page; the memory manager does the copying (each page it
    /// copies to must be mapped).
    pub fn copy_data(&self, len: usize) -> (r: Vec<PageCopy>)
        requires
            len + PAGE_SIZE <= usize::MAX,
            self.start_vpn + copy_page_count(len as int) <= usize::MAX,
        ensures
            r@ == page_copies(self.start_vpn as int, len as int),
    {
        let n: usize = if len == 0 { 1 } else { (len + (PAGE_SIZE - 1)) / PAGE_SIZE };
        proof {
            assert(n * PAGE_SIZE <= len + PAGE_SIZE);
        }
        let mut out: Vec<PageCopy> = Vec::new();
        let mut k: usize = 0;
        while k < n
            invariant
                k <= n,
                n == copy_page_count(len as int),
                self.start_vpn + n <= usize::MAX,
                n * PAGE_SIZE <= len + PAGE_SIZE,
                len + PAGE_SIZE <= usize::MAX,
                out@ == page_copies(self.start_vpn as int, len as int).take(k as int),
            decreases n - k,
        {
            let start = k * PAGE_SIZE;
            let end = if len < start + PAGE_SIZE { len } else { start + PAGE_SIZE };
            out.push(PageCopy { vpn: self.start_vpn + k, start, end });
            k = k + 1;
            proof {
                assert(out@ =~= page_copies(self.start_vpn as int, len as int).take(k as int));
            }
        }
        proof {
            assert(page_copies(self.start_vpn as int, len as int).take(k as int) =~= page_copies(
                self.start_vpn as int,
                len as int,
            ));
        }
        out
    }

    /// The same steps as `copy_data`.
    pub fn copy(&self, len: usize) -> (r: Vec<PageCopy>)
        requires
            len + PAGE_SIZE <= usize::MAX,
            self.start_vpn + copy_page_count(len as int) <= usize::MAX,
        ensures
            r@ == page_copies(self.start_vpn as int, len as int),
    {
        self.copy_data(len)
    }

    /// The pages that copying `len` bytes from the kernel's own mapping
    /// touches; each is copied whole from the kernel's page of the same
    /// number.
    pub fn copy_kernel_data(&self, len: usize) -> (r: Vec<usize>)
        requires
            len + PAGE_SIZE <= usize::MAX,
            self.start_vpn + copy_page_count(len as int) <= usize::MAX,
        ensures
            r@ == page_copies(self.start_vpn as int, len as int).map_values(|c: PageCopy| c.vpn),
    {
        let steps = self.copy_data(len);
        let mut pages: Vec<usize> = Vec::new();
        let mut i: usize = 0;
        while i < steps.len()
            invariant
                i <= steps.len(),
                pages@ == steps@.take(i as int).map_values(|c: PageCopy| c.vpn),
            decreases steps.len() - i,
        {
            pages.push(steps[i].vpn);
            i = i + 1;
            proof {
                assert(pages@ =~= steps@.take(i as int).map_values(|c: PageCopy| c.vpn));
            }
        }
        proof {
            assert(steps@.take(i as int) =~= steps@);
        }
        pages
    }
}

/// The areas of an address space, in the order they were added, and the
/// pages it maps on their own, in the order they were mapped.
pub struct MemorySet {
    areas: Vec<MapArea>,
    pages: Vec<PageMapping>,
}

impl MemorySet {
    /// The areas, oldest first.
    pub closed spec fn view(&self) -> Seq<MapArea> {
        self.areas@
    }

    /// The single-page mappings, oldest first.
    pub closed spec fn pages(&self) -> Seq<PageMapping> {
        self.pages@
    }

    /// The single-page mappings, oldest first.
    pub fn page_mappings(&self) -> (r: &Vec<PageMapping>)
        ensures
            r@ == self.pages(),
    {
        &self.pages
    }

    /// The areas, oldest first.
    pub fn areas(&self) -> (r: &Vec<MapArea>)
        ensures
            r@ == self@,
    {
        &self.areas
    }

    /// An address space with no area.
    pub fn new_bare() -> (r: Self)
        ensures
            r@ == Seq::<MapArea>::empty(),
            r.pages() == Seq::<PageMapping>::empty(),
    {
        MemorySet { areas: Vec::new(), pages: Vec::new() }
    }

    /// Maps page `vpn` to physical page `ppn` with flags `flags`.
    fn map_page(&mut self, vpn: usize, ppn: usize, flags: u8)
        ensures
            final(self)@ == old(self)@,
            final(self).pages() == old(self).pages().push(PageMapping { vpn, ppn, flags }),
    {
        self.pages.push(PageMapping { vpn, ppn, flags });
    }

    /// Adds an area.
    pub fn push(&mut self, map_area: MapArea)
        ensures
            final(self)@ == old(self)@.push(map_area),
            final(self).pages() == old(self).pages(),
    {
        self.areas.push(map_area);
    }

    /// Adds a framed area over `start_va..end_va` with rights `permission`.
    pub fn insert_framed_area(&mut self, start_va: usize, end_va: usize, permission: MapPermission)
        requires
            end_va + PAGE_SIZE - 1 <= usize::MAX,
        ensures
            final(self)@ == old(self)@.push(area_of(start_va as int, end_va as int, MapType::Framed, permission)),
            final(self).pages() == old(self).pages(),
    {
        self.push(MapArea::new(start_va, end_va, MapType::Framed, permission));
    }

    /// Removes the first area starting at page `start_vpn` and returns it so
    /// that its pages can be unmapped; `None` when there is no such area.
    pub fn remove_area_with_start_vpn(&mut self, start_vpn: usize) -> (r: Option<MapArea>)
        ensures
            final(self).pages() == old(self).pages(),
            ({
                let a = old(self)@;
                match r {
                    Some(area) => exists|i: int| 0 <= i < a.len() && #[trigger] a[i] == area
                        && area.start_vpn == start_vpn
                        && (forall|j: int| 0 <= j < i ==> (#[trigger] a[j]).start_vpn != start_vpn)
                        && final(self)@ == a.remove(i),
                    None => final(self)@ == a && forall|j: int| 0 <= j < a.len() ==> (#[trigger] a[j]).start_vpn != start_vpn,
                }
            }),
    {
        let mut idx: usize = 0;
        while idx < self.areas.len()
            invariant
                self@ == old(self)@,
                self.pages() == old(self).pages(),
                idx <= self.areas.len(),
                forall|j: int| 0 <= j < idx ==> (#[trigger] self@[j]).start_vpn != start_vpn,
            decreases self.areas.len() - idx,
        {
            if self.areas[idx].start_vpn == start_vpn {
                let area = self.areas.remove(idx);
                proof {
                    assert(old(self)@[idx as int] == area);
                }
                return Some(area);
            }
            idx = idx + 1;
        }
        None
    }

    /// Forgets every area.
    pub fn recycle_data_pages(&mut self)
        ensures
            final(self)@ == Seq::<MapArea>::empty(),
            final(self).pages() == old(self).pages(),
    {
        self.areas.clear();
    }

    /// An address space with the trampoline page and the same areas as
    /// `user_space`, in order (the memory manager copies their contents
    /// page by page).
    pub fn from_existed_user(user_space: &MemorySet, cfg: &SpaceConfig) -> (r: MemorySet)
        ensures
            r@ == user_space@,
            r.pages() == seq![trampoline_page(*cfg)],
    {
        let mut memory_set = MemorySet::new_bare();
        memory_set.map_trampoline(cfg);
        let mut i: usize = 0;
        while i < user_space.areas.len()
            invariant
                i <= user_space.areas.len(),
                memory_set@ == user_space@.take(i as int),
                memory_set.pages() == seq![trampoline_page(*cfg)],
            decreases user_space.areas.len() - i,
        {
            let new_area = MapArea::from_another(&user_space.areas[i]);
            memory_set.push(new_area);
            i = i + 1;
            proof {
                assert(memory_set@ =~= user_space@.take(i as int));
            }
        }
        proof {
            assert(user_space@.take(i as int) =~= user_space@);
        }
        memory_set
    }
}

/// Removing by start page undoes adding an area whose start page no other
/// area has: the area found is the one added, and the areas are as before.
pub proof fn lemma_remove_undoes_insert(areas: Seq<MapArea>, area: MapArea, i: int)
    requires
        forall|j: int| 0 <= j < areas.len() ==> (#[trigger] areas[j]).start_vpn != area.start_vpn,
        0 <= i < areas.len() + 1,
        areas.push(area)[i].start_vpn == area.start_vpn,
    ensures
        i == areas.len(),
        areas.push(area)[i] == area,
        areas.push(area).remove(i) == areas,
{
    if i < areas.len() {
        assert(areas.push(area)[i] == areas[i]);
    }
    assert(areas.push(area).remove(areas.len() as int) =~= areas);
}

/// A program header of an ELF image, as plain values.
#[derive(Clone, Copy, Debug, PartialEq, Eq, Structural)]
pub struct ProgramHeader {
    pub is_load: bool,
    pub virtual_addr: u64,
    pub mem_size: u64,
    pub offset: u64,
    pub file_size: u64,
    pub readable: bool,
    pub writable: bool,
    pub executable: bool,
}

/// A range `start..end` of bytes of an image.
#[derive(Clone, Copy, Debug, PartialEq, Eq, Structural)]
pub struct ByteRange {
    pub start: usize,
    pub end: usize,
}

/// An area to map, with the bytes of the image to copy to its start.
#[derive(Clone, Copy, Debug, PartialEq, Eq, Structural)]
pub struct SegmentPlan {
    pub area: MapArea,
    pub data: Option<ByteRange>,
}

/// The rights of a user segment: user access plus the segment's own flags.
pub open spec fn user_perm(ph: ProgramHeader) -> MapPermission {
    MapPermission {
        bits: MapPermission::U | (if ph.readable { MapPermission::R } else { 0u8 })
            | (if ph.writable { MapPermission::W } else { 0u8 })
            | (if ph.executable { MapPermission::X } else { 0u8 }),
    }
}

/// Where a loadable segment of a user program goes.
pub open spec fn user_segment(ph: ProgramHeader) -> SegmentPlan {
    SegmentPlan {
        area: area_of(ph.virtual_addr as int, ph.virtual_addr + ph.mem_size, MapType::Framed, user_perm(ph)),
        data: Some(ByteRange { start: ph.offset as usize, end: (ph.offset + ph.file_size) as usize }),
    }
}

/// A user program's segment addresses fit the machine word.
pub open spec fn user_segment_ok(ph: ProgramHeader) -> bool {
    ph.is_load ==> {
        &&& ph.virtual_addr + ph.mem_size + PAGE_SIZE - 1 <= usize::MAX
        &&& ph.offset + ph.file_size <= usize::MAX
    }
}

/// The segments of a user program: one framed area per loadable header, in order.
pub open spec fn user_plan(hs: Seq<ProgramHeader>) -> Seq<SegmentPlan>
    decreases hs.len(),
{
    if hs.len() == 0 {
        Seq::empty()
    } else if hs.last().is_load {
        user_plan(hs.drop_last()).push(user_segment(hs.last()))
    } else {
        user_plan(hs.drop_last())
    }
}

/// The page just past the last loadable segment (0 when there is none).
pub open spec fn user_max_end_vpn(hs: Seq<ProgramHeader>) -> usize
    decreases hs.len(),
{
    if hs.len() == 0 {
        0
    } else if hs.last().is_load {
        user_segment(hs.last()).area.end_vpn
    } else {
        user_max_end_vpn(hs.drop_last())
    }
}

/// Where the loadable segments of a user program go, and the page just past
/// the last one.
pub fn plan_elf_segments(headers: &Vec<ProgramHeader>) -> (r: (Vec<SegmentPlan>, usize))
    requires
        forall|i: int| 0 <= i < headers.len() ==> user_segment_ok(#[trigger] headers@[i]),
    ensures
        r.0@ == user_plan(headers@),
        r.1 == user_max_end_vpn(headers@),
{
    let mut plans: Vec<SegmentPlan> = Vec::new();
    let mut max_end_vpn: usize = 0;
    let mut i: usize = 0;
    while i < headers.len()
        invariant
            i <= headers.len(),
            forall|k: int| 0 <= k < headers.len() ==> user_segment_ok(#[trigger] headers@[k]),
            plans@ == user_plan(headers@.take(i as int)),
            max_end_vpn == user_max_end_vpn(headers@.take(i as int)),
        decreases headers.len() - i,
    {
        let ph = headers[i];
        proof {
            assert(headers@.take(i as int + 1).drop_last() =~= headers@.take(i as int));
            assert(headers@.take(i as int + 1).last() == ph);
            assert(user_segment_ok(headers@[i as int]));
        }
        if ph.is_load {
            let start_va = ph.virtual_addr as usize;
            let end_va = (ph.virtual_addr + ph.mem_size) as usize;
            let r_bit: u8 = if ph.readable { MapPermission::R } else { 0u8 };
            let w_bit: u8 = if ph.writable { MapPermission::W } else { 0u8 };
            let x_bit: u8 = if ph.executable { MapPermission::X } else { 0u8 };
            let map_perm = MapPermission { bits: MapPermission::U | r_bit | w_bit | x_bit };
            let map_area = MapArea::new(start_va, end_va, MapType::Framed, map_perm);
            max_end_vpn = map_area.end_vpn;
            let data = Some(ByteRange { start: ph.offset as usize, end: (ph.offset + ph.file_size) as usize });
            plans.push(SegmentPlan { area: map_area, data });
        }
        i = i + 1;
    }
    proof {
        assert(headers@.take(i as int) =~= headers@);
    }
    (plans, max_end_vpn)
}

/// The stack of a program whose segments end at page `max_end_vpn`: one
/// guard page above them, then `stack_size` bytes. Returns the stack's area
/// and its top address.
pub fn plan_user_stack(max_end_vpn: usize, stack_size: usize, map_perm: MapPermission) -> (r: (MapArea, usize))
    requires
        max_end_vpn * PAGE_SIZE + PAGE_SIZE + stack_size + PAGE_SIZE - 1 <= usize::MAX,
    ensures
        ({
            let bottom = max_end_vpn * PAGE_SIZE + PAGE_SIZE;
            let top = bottom + stack_size;
            &&& r.1 == top
            &&& r.0 == area_of(bottom, top, MapType::Framed, map_perm)
        }),
{
    let bottom = max_end_vpn * PAGE_SIZE + PAGE_SIZE;
    let top = bottom + stack_size;
    (MapArea::new(bottom, top, MapType::Framed, map_perm), top)
}

/// The state of the module-layout walk: segments placed so far, the first
/// page-aligned address not yet claimed, and the page past the last area.
pub struct LayoutState {
    pub plans: Seq<SegmentPlan>,
    pub last_end_va: int,
    pub max_end_vpn: usize,
}

/// One step of the module-layout walk. A loadable segment that ends at or
/// below the claimed addresses is skipped. One that starts below them but
/// ends above starts at the claimed limit instead, and its end moves down
/// by the same amount, counted without `shift`. The segment is placed at
/// `base` above its own address, less `shift`, and the claimed limit moves
/// to its end rounded up to a page.
pub open spec fn layout_step(
    st: LayoutState,
    ph: ProgramHeader,
    base: int,
    shift: int,
    map_type: MapType,
    map_perm: MapPermission,
) -> LayoutState {
    let top = ph.virtual_addr + ph.mem_size + base;
    if !ph.is_load || top <= st.last_end_va {
        st
    } else {
        let start0 = ph.virtual_addr + base - shift;
        let end0 = top - shift;
        let overlap = start0 < st.last_end_va && end0 > st.last_end_va;
        let start = if overlap { st.last_end_va } else { start0 };
        let end = if overlap { top - (st.last_end_va - start0) } else { end0 };
        let area = area_of(start, end, map_type, map_perm);
        let plan = SegmentPlan {
            area,
            data: Some(ByteRange { start: ph.offset as usize, end: (ph.offset + ph.file_size) as usize }),
        };
        LayoutState {
            plans: st.plans.push(plan),
            last_end_va: if top % 0x1000 == 0 { top } else { (top / 0x1000) * 0x1000 + 0x1000 },
            max_end_vpn: area.end_vpn,
        }
    }
}

/// Whether one step of the walk stays within the machine word and within a
/// page of overlap (the loader refuses more).
pub open spec fn layout_step_ok(st: LayoutState, ph: ProgramHeader, base: int, shift: int) -> bool {
    let top = ph.virtual_addr + ph.mem_size + base;
    ph.is_load ==> {
        &&& top <= usize::MAX
        &&& top > st.last_end_va ==> {
            let start0 = ph.virtual_addr + base - shift;
            let end0 = top - shift;
            let overlap = start0 < st.last_end_va && end0 > st.last_end_va;
            let end = if overlap { top - (st.last_end_va - start0) } else { end0 };
            &&& start0 >= 0
            &&& end0 >= 0
            &&& overlap ==> st.last_end_va - start0 < PAGE_SIZE
            &&& end + PAGE_SIZE - 1 <= usize::MAX
            &&& ph.offset + ph.file_size <= usize::MAX
            &&& (top / 0x1000) * 0x1000 + 0x1000 <= usize::MAX
        }
    }
}

/// The walk's state after the first `hs.len()` headers.
pub open spec fn layout_walk(
    hs: Seq<ProgramHeader>,
    base: int,
    shift: int,
    map_type: MapType,
    map_perm: MapPermission,
) -> LayoutState
    decreases hs.len(),
{
    if hs.len() == 0 {
        LayoutState { plans: Seq::empty(), last_end_va: 0, max_end_vpn: 0 }
    } else {
        layout_step(layout_walk(hs.drop_last(), base, shift, map_type, map_perm), hs.last(), base, shift, map_type, map_perm)
    }
}

/// Whether every step of the walk is within bounds.
pub open spec fn layout_walk_ok(
    hs: Seq<ProgramHeader>,
    base: int,
    shift: int,
    map_type: MapType,
    map_perm: MapPermission,
) -> bool
    decreases hs.len(),
{
    hs.len() == 0 || (layout_walk_ok(hs.drop_last(), base, shift, map_type, map_perm)
        && layout_step_ok(layout_walk(hs.drop_last(), base, shift, map_type, map_perm), hs.last(), base, shift))
}

proof fn lemma_layout_walk_ok_prefix(
    hs: Seq<ProgramHeader>,
    base: int,
    shift: int,
    map_type: MapType,
    map_perm: MapPermission,
    n: int,
)
    requires
        layout_walk_ok(hs, base, shift, map_type, map_perm),
        0 <= n <= hs.len(),
    ensures
        layout_walk_ok(hs.take(n), base, shift, map_type, map_perm),
    decreases hs.len() - n,
{
    if n < hs.len() {
        lemma_layout_walk_ok_prefix(hs, base, shift, map_type, map_perm, n + 1);
        assert(hs.take(n + 1).drop_last() =~= hs.take(n));
    } else {
        assert(hs.take(n) =~= hs);
    }
}

/// What the walk keeps true when nothing is shifted: every placed area
/// ends at or below the claimed limit, which is page-aligned, and the
/// areas come in address order without overlapping.
pub open spec fn walk_unshifted_inv(st: LayoutState) -> bool {
    &&& st.last_end_va >= 0
    &&& st.last_end_va % (PAGE_SIZE as int) == 0
    &&& forall|i: int| 0 <= i < st.plans.len() ==> (#[trigger] st.plans[i]).area.end_vpn * PAGE_SIZE <= st.last_end_va
    &&& forall|i: int, j: int| 0 <= i < j < st.plans.len() ==> (#[trigger] st.plans[i]).area.end_vpn <= (#[trigger] st.plans[j]).area.start_vpn
}

proof fn lemma_walk_unshifted_inv(
    hs: Seq<ProgramHeader>,
    base: int,
    map_type: MapType,
    map_perm: MapPermission,
)
    requires
        layout_walk_ok(hs, base, 0, map_type, map_perm),
        base >= 0,
    ensures
        walk_unshifted_inv(layout_walk(hs, base, 0, map_type, map_perm)),
    decreases hs.len(),
{
    if hs.len() > 0 {
        let prev = hs.drop_last();
        lemma_walk_unshifted_inv(prev, base, map_type, map_perm);
        let st = layout_walk(prev, base, 0, map_type, map_perm);
        let ph = hs.last();
        let top = ph.virtual_addr + ph.mem_size + base;
        if ph.is_load && top > st.last_end_va {
            let start0 = ph.virtual_addr + base;
            let overlap = start0 < st.last_end_va && top > st.last_end_va;
            let start = if overlap { st.last_end_va } else { start0 };
            let end = if overlap { top - (st.last_end_va - start0) } else { top };
            let new_last = if top % 0x1000 == 0 { top } else { (top / 0x1000) * 0x1000 + 0x1000 };
            let area = area_of(start, end, map_type, map_perm);
            let nst = layout_walk(hs, base, 0, map_type, map_perm);
            assert(start >= st.last_end_va);
            assert(end <= top);
            assert(start >= 0 && end >= 0);
            assert(area.start_vpn == start / 0x1000);
            assert(area.end_vpn == (end + 0x1000 - 1) / 0x1000);
            assert(st.last_end_va / 0x1000 <= start / 0x1000);
            assert((st.last_end_va / 0x1000) * 0x1000 == st.last_end_va);
            assert(new_last % 0x1000 == 0);
            assert(((end + 0x1000 - 1) / 0x1000) * 0x1000 <= new_last);
            assert forall|i: int| 0 <= i < st.plans.len() implies (#[trigger] st.plans[i]).area.end_vpn <= area.start_vpn by {
                assert(st.plans[i].area.end_vpn * 0x1000 <= st.last_end_va);
            }
            assert(nst.plans == st.plans.push(SegmentPlan {
                area,
                data: Some(ByteRange { start: ph.offset as usize, end: (ph.offset + ph.file_size) as usize }),
            }));
            assert forall|i: int| 0 <= i < nst.plans.len() implies (#[trigger] nst.plans[i]).area.end_vpn * PAGE_SIZE <= nst.last_end_va by {
                if i < st.plans.len() {
                    assert(nst.plans[i] == st.plans[i]);
                }
            }
        }
    }
}

/// Segments of a module loaded without a shift are placed in address
/// order and never overlap: each area ends at or below the start of every
/// later one.
pub proof fn lemma_lkm_areas_disjoint(
    hs: Seq<ProgramHeader>,
    base: int,
    map_type: MapType,
    map_perm: MapPermission,
    i: int,
    j: int,
)
    requires
        layout_walk_ok(hs, base, 0, map_type, map_perm),
        base >= 0,
        0 <= i < j < layout_walk(hs, base, 0, map_type, map_perm).plans.len(),
    ensures
        layout_walk(hs, base, 0, map_type, map_perm).plans[i].area.end_vpn
            <= layout_walk(hs, base, 0, map_type, map_perm).plans[j].area.start_vpn,
{
    lemma_walk_unshifted_inv(hs, base, map_type, map_perm);
}

/// Places the loadable segments of a module image loaded `base` above its
/// link addresses, less `shift`, walking the headers in order and skipping
/// or clipping a segment that reaches into addresses already claimed (see
/// `layout_step`). Returns the segments and the page past the last one
/// placed.
pub fn plan_lkm_segments(
    headers: &Vec<ProgramHeader>,
    base: usize,
    shift: usize,
    map_type: MapType,
    map_perm: MapPermission,
) -> (r: (Vec<SegmentPlan>, usize))
    requires
        layout_walk_ok(headers@, base as int, shift as int, map_type, map_perm),
    ensures
        r.0@ == layout_walk(headers@, base as int, shift as int, map_type, map_perm).plans,
        r.1 == layout_walk(headers@, base as int, shift as int, map_type, map_perm).max_end_vpn,
{
    let ghost b = base as int;
    let ghost sh = shift as int;
    let mut plans: Vec<SegmentPlan> = Vec::new();
    let mut max_end_vpn: usize = 0;
    let mut last_end_va: usize = 0;
    let mut i: usize = 0;
    while i < headers.len()
        invariant
            i <= headers.len(),
            layout_walk_ok(headers@, b, sh, map_type, map_perm),
            b == base,
            sh == shift,
            plans@ == layout_walk(headers@.take(i as int), b, sh, map_type, map_perm).plans,
            last_end_va == layout_walk(headers@.take(i as int), b, sh, map_type, map_perm).last_end_va,
            max_end_vpn == layout_walk(headers@.take(i as int), b, sh, map_type, map_perm).max_end_vpn,
        decreases headers.len() - i,
    {
        let ph = headers[i];
        proof {
            assert(headers@.take(i as int + 1).drop_last() =~= headers@.take(i as int));
            assert(headers@.take(i as int + 1).last() == ph);
            lemma_layout_walk_ok_prefix(headers@, b, sh, map_type, map_perm, i as int + 1);
        }
        if ph.is_load {
            let top = (ph.virtual_addr + ph.mem_size) as usize + base;
            if top > last_end_va {
                let mut start = ph.virtual_addr as usize + base - shift;
                let mut end = top - shift;
                if start < last_end_va && end > last_end_va {
                    let diff = last_end_va - start;
                    start = last_end_va;
                    end = top - diff;
                }
                let map_area = MapArea::new(start, end, map_type, map_perm);
                max_end_vpn = map_area.end_vpn;
                let data = Some(ByteRange { start: ph.offset as usize, end: (ph.offset + ph.file_size) as usize });
                plans.push(SegmentPlan { area: map_area, data });
                if top % 0x1000 == 0 {
                    last_end_va = top;
                } else {
                    last_end_va = (top / 0x1000) * 0x1000 + 0x1000;
                }
            }
        }
        i = i + 1;
    }
    proof {
        assert(headers@.take(i as int) =~= headers@);
    }
    (plans, max_end_vpn)
}


/// Where a module image is loaded, below the shared region.
pub const LKM_BASE: usize = 0x8600_0000;

/// The areas of a list of segment plans, in order.
pub open spec fn plan_areas(plans: Seq<SegmentPlan>) -> Seq<MapArea> {
    plans.map_values(|p: SegmentPlan| p.area)
}

/// Read, write and execute.
pub open spec fn rwx() -> MapPermission {
    MapPermission { bits: MapPermission::R | MapPermission::W | MapPermission::X }
}

impl MemorySet {
    /// Adds the areas of `plans`, in order.
    pub fn push_plans(&mut self, plans: &Vec<SegmentPlan>)
        ensures
            final(self)@ == old(self)@ + plan_areas(plans@),
            final(self).pages() == old(self).pages(),
    {
        let mut i: usize = 0;
        while i < plans.len()
            invariant
                i <= plans.len(),
                self@ == old(self)@ + plan_areas(plans@.take(i as int)),
                self.pages() == old(self).pages(),
            decreases plans.len() - i,
        {
            self.push(plans[i].area);
            i = i + 1;
            proof {
                assert(plan_areas(plans@.take(i as int)) =~= plan_areas(plans@.take(i - 1)).push(plans@[i - 1].area));
            }
        }
        proof {
            assert(plans@.take(i as int) =~= plans@);
        }
    }

    /// Maps a module image `base` above its link addresses: its loadable
    /// segments, identically mapped with read, write and execute rights and
    /// never claiming an address twice, then a stack of `stack_size` bytes one
    /// guard page above them. Returns the segments, whose bytes the memory
    /// manager copies in.
    pub fn add_lkm(&mut self, headers: &Vec<ProgramHeader>, base: usize, stack_size: usize) -> (r: Vec<SegmentPlan>)
        requires
            layout_walk_ok(headers@, base as int, 0, MapType::Identical, rwx()),
            layout_walk(headers@, base as int, 0, MapType::Identical, rwx()).max_end_vpn * PAGE_SIZE
                + PAGE_SIZE + stack_size + PAGE_SIZE - 1 <= usize::MAX,
        ensures
            ({
                let walk = layout_walk(headers@, base as int, 0, MapType::Identical, rwx());
                let bottom = walk.max_end_vpn * PAGE_SIZE + PAGE_SIZE;
                &&& r@ == walk.plans
                &&& final(self)@ == old(self)@ + plan_areas(walk.plans)
                    + seq![area_of(bottom, bottom + stack_size, MapType::Framed, rwx())]
                &&& final(self).pages() == old(self).pages()
            }),
    {
        let perm = MapPermission { bits: MapPermission::R | MapPermission::W | MapPermission::X };
        let (plans, max_end_vpn) = plan_lkm_segments(headers, base, 0, MapType::Identical, perm);
        self.push_plans(&plans);
        let (stack, _top) = plan_user_stack(max_end_vpn, stack_size, perm);
        self.push(stack);
        plans
    }
}

impl MemorySet {
    /// Maps a whole module image of `image_len` bytes identically at
    /// `LKM_BASE`, readable, writable and executable; returns the plan that
    /// copies the image to the area's start.
    pub fn init_module(&mut self, image_len: usize) -> (r: SegmentPlan)
        requires
            LKM_BASE + image_len + PAGE_SIZE - 1 <= usize::MAX,
        ensures
            r == (SegmentPlan {
                area: area_of(LKM_BASE as int, LKM_BASE + image_len, MapType::Identical, rwx()),
                data: Some(ByteRange { start: 0, end: image_len }),
            }),
            final(self)@ == old(self)@.push(r.area),
            final(self).pages() == old(self).pages(),
    {
        let perm = MapPermission { bits: MapPermission::R | MapPermission::W | MapPermission::X };
        let area = MapArea::new(LKM_BASE, LKM_BASE + image_len, MapType::Identical, perm);
        self.push(area);
        SegmentPlan { area, data: Some(ByteRange { start: 0, end: image_len }) }
    }
}

/// The rights of the shared runtime's segments.
pub open spec fn rwxu() -> MapPermission {
    MapPermission { bits: MapPermission::R | MapPermission::W | MapPermission::X | MapPermission::U }
}

/// The rights of a user stack.
pub open spec fn rwu() -> MapPermission {
    MapPermission { bits: MapPermission::R | MapPermission::W | MapPermission::U }
}

/// The rights of the trap-context page.
pub open spec fn rw() -> MapPermission {
    MapPermission { bits: MapPermission::R | MapPermission::W }
}

/// Whether a user program and the shared runtime can be laid out in one
/// address space built with `cfg` for process `space_id`.
pub open spec fn user_layout_ok(
    shared: Seq<ProgramHeader>,
    user: Seq<ProgramHeader>,
    cfg: SpaceConfig,
    space_id: int,
) -> bool {
    &&& layout_walk_ok(shared, LKM_BASE as int, SHARED_BASE as int, MapType::Framed, rwxu())
    &&& program_layout_ok(user, cfg, space_id)
}

/// Whether a user program can be laid out in an address space built with
/// `cfg` for process `space_id`.
pub open spec fn program_layout_ok(user: Seq<ProgramHeader>, cfg: SpaceConfig, space_id: int) -> bool {
    &&& forall|i: int| 0 <= i < user.len() ==> user_segment_ok(#[trigger] user[i])
    &&& user_stack_bottom(user) + cfg.user_stack_size + PAGE_SIZE - 1 <= usize::MAX
    &&& cfg.trampoline + PAGE_SIZE - 1 <= usize::MAX
    &&& BITMAP_BASE + PAGE_SIZE * space_id <= usize::MAX
}

/// The page just above the guard page over a user program's image: the
/// bottom of its stack.
pub open spec fn user_stack_bottom(user: Seq<ProgramHeader>) -> int {
    user_max_end_vpn(user) * PAGE_SIZE + PAGE_SIZE
}

/// The areas of a user program laid out with `cfg`: its segments, its
/// stack and the trap-context page.
pub open spec fn program_areas(user: Seq<ProgramHeader>, cfg: SpaceConfig) -> Seq<MapArea> {
    let bottom = user_stack_bottom(user);
    plan_areas(user_plan(user)) + seq![
        area_of(bottom, bottom + cfg.user_stack_size, MapType::Framed, rwu()),
        area_of(cfg.trap_context as int, cfg.trampoline as int, MapType::Framed, rw()),
    ]
}

/// Where the shared runtime's segments go in a user address space.
pub open spec fn shared_plan(shared: Seq<ProgramHeader>) -> Seq<SegmentPlan> {
    layout_walk(shared, LKM_BASE as int, SHARED_BASE as int, MapType::Framed, rwxu()).plans
}

/// The areas of a user address space: the shared runtime's segments, then
/// the program's areas.
pub open spec fn user_space_areas(shared: Seq<ProgramHeader>, user: Seq<ProgramHeader>, cfg: SpaceConfig) -> Seq<MapArea> {
    plan_areas(shared_plan(shared)) + program_areas(user, cfg)
}

/// The single pages of the address space of user process `space_id`: the
/// trampoline, the shared region, then the bitmaps.
pub open spec fn user_space_pages(cfg: SpaceConfig, space_id: int) -> Seq<PageMapping> {
    seq![trampoline_page(cfg)] + shared_identity_pages(user_rwx_flags()) + bitmap_user_pages(space_id)
}

impl MemorySet {
    /// Pushes a user program's segments, its stack one guard page above
    /// them and its trap-context page; returns the segments and the stack's
    /// top.
    fn push_program(&mut self, user: &Vec<ProgramHeader>, cfg: &SpaceConfig) -> (r: (Vec<SegmentPlan>, usize))
        requires
            forall|i: int| 0 <= i < user.len() ==> user_segment_ok(#[trigger] user@[i]),
            user_stack_bottom(user@) + cfg.user_stack_size + PAGE_SIZE - 1 <= usize::MAX,
            cfg.trampoline + PAGE_SIZE - 1 <= usize::MAX,
        ensures
            r.0@ == user_plan(user@),
            r.1 == user_stack_bottom(user@) + cfg.user_stack_size,
            final(self)@ == old(self)@ + program_areas(user@, *cfg),
            final(self).pages() == old(self).pages(),
    {
        let (user_plans, max_end_vpn) = plan_elf_segments(user);
        self.push_plans(&user_plans);
        let stack_perm = MapPermission { bits: MapPermission::R | MapPermission::W | MapPermission::U };
        let (stack, user_stack_top) = plan_user_stack(max_end_vpn, cfg.user_stack_size, stack_perm);
        self.push(stack);
        let trap_perm = MapPermission { bits: MapPermission::R | MapPermission::W };
        self.insert_framed_area(cfg.trap_context, cfg.trampoline, trap_perm);
        proof {
            assert(self@ =~= old(self)@ + program_areas(user@, *cfg));
        }
        (user_plans, user_stack_top)
    }

    /// The address space of user process `space_id`: the trampoline page;
    /// the shared runtime's segments, placed as a module loaded at
    /// `LKM_BASE` and shifted down by `SHARED_BASE`; the program's own
    /// segments, its stack one guard page above them and its trap-context
    /// page; then the shared region and the bitmaps. Returns the address
    /// space, the segments whose bytes the memory manager copies in (the
    /// runtime's, then the program's), and the top of the user stack.
    pub fn from_elf(
        shared: &Vec<ProgramHeader>,
        user: &Vec<ProgramHeader>,
        cfg: &SpaceConfig,
        space_id: usize,
    ) -> (r: (MemorySet, Vec<SegmentPlan>, Vec<SegmentPlan>, usize))
        requires
            user_layout_ok(shared@, user@, *cfg, space_id as int),
        ensures
            r.1@ == shared_plan(shared@),
            r.2@ == user_plan(user@),
            r.3 == user_stack_bottom(user@) + cfg.user_stack_size,
            r.0@ == user_space_areas(shared@, user@, *cfg),
            r.0.pages() == user_space_pages(*cfg, space_id as int),
    {
        let mut memory_set = MemorySet::new_bare();
        memory_set.map_trampoline(cfg);
        let shared_perm = MapPermission {
            bits: MapPermission::R | MapPermission::W | MapPermission::X | MapPermission::U,
        };
        let (shared_plans, _shared_end) = plan_lkm_segments(shared, LKM_BASE, SHARED_BASE, MapType::Framed, shared_perm);
        memory_set.push_plans(&shared_plans);
        let (user_plans, user_stack_top) = memory_set.push_program(user, cfg);
        memory_set.push_shared();
        memory_set.bitmap_user(space_id);
        proof {
            assert(memory_set@ =~= user_space_areas(shared@, user@, *cfg));
            assert(memory_set.pages() =~= user_space_pages(*cfg, space_id as int));
        }
        (memory_set, shared_plans, user_plans, user_stack_top)
    }

    /// The address space of a user program without the shared runtime's
    /// segments: its own segments, its stack one guard page above them and
    /// its trap-context page, then the shared region. Returns the address
    /// space, the segments whose bytes the memory manager copies in, and the
    /// top of the user stack. The process number plays no part.
    pub fn from_elf_no_use(user: &Vec<ProgramHeader>, cfg: &SpaceConfig, _space_id: usize) -> (r: (MemorySet, Vec<SegmentPlan>, usize))
        requires
            program_layout_ok(user@, *cfg, 0),
        ensures
            r.1@ == user_plan(user@),
            r.2 == user_stack_bottom(user@) + cfg.user_stack_size,
            r.0@ == program_areas(user@, *cfg),
            r.0.pages() == shared_identity_pages(user_rwx_flags()),
    {
        let mut memory_set = MemorySet::new_bare();
        let (user_plans, user_stack_top) = memory_set.push_program(user, cfg);
        memory_set.push_shared();
        proof {
            assert(memory_set@ =~= program_areas(user@, *cfg));
            assert(memory_set.pages() =~= shared_identity_pages(user_rwx_flags()));
        }
        (memory_set, user_plans, user_stack_top)
    }
}

/// Where the kernel's bitmap lies, in every address space.
pub const SYS_BITMAP_VA: usize = 0x8741_0000;

/// Where a user address space sees its own bitmap.
pub const USER_BITMAP_VA: usize = 0x8742_0000;

/// Physical address of the first process bitmap; process `i`'s lies `i`
/// pages above.
pub const BITMAP_BASE: usize = 0x8740_0000;

/// Pages of the shared region.
pub const SHARED_PAGES: usize = 1024;

/// Addresses an address space is built with: the trampoline page at the top
/// of every space, the trap-context page just below it, where the
/// trampoline's code lies in the kernel image, and the size of a user stack.
#[derive(Clone, Copy, Debug, PartialEq, Eq, Structural)]
pub struct SpaceConfig {
    pub trampoline: usize,
    pub trap_context: usize,
    pub strampoline: usize,
    pub user_stack_size: usize,
}

/// Read and execute.
pub open spec fn rx() -> MapPermission {
    MapPermission { bits: MapPermission::R | MapPermission::X }
}

/// The page-table flags of the kernel's own view of the shared pages.
pub open spec fn kernel_rwx_flags() -> u8 {
    MapPermission::R | MapPermission::X | MapPermission::W
}

/// The page-table flags of a user's view of the shared pages.
pub open spec fn user_rwx_flags() -> u8 {
    MapPermission::R | MapPermission::X | MapPermission::U | MapPermission::W
}

/// The trampoline page of an address space.
pub open spec fn trampoline_page(cfg: SpaceConfig) -> PageMapping {
    PageMapping {
        vpn: (cfg.trampoline / PAGE_SIZE) as usize,
        ppn: (cfg.strampoline / PAGE_SIZE) as usize,
        flags: MapPermission::R | MapPermission::X,
    }
}

/// The identity mapping of the shared region's pages, with flags `flags`.
pub open spec fn shared_identity_pages(flags: u8) -> Seq<PageMapping> {
    Seq::new(
        SHARED_PAGES as nat,
        |i: int| {
            let p = (SHARED_BASE / PAGE_SIZE + i) as usize;
            PageMapping { vpn: p, ppn: p, flags }
        },
    )
}

/// What the kernel maps of the shared region and the bitmaps: the shared
/// pages at their own addresses and again from address 0, the bitmaps of
/// processes 1 to 8 and the kernel's bitmap, all at their own addresses.
pub open spec fn shared_kernel_pages() -> Seq<PageMapping> {
    shared_identity_pages(kernel_rwx_flags())
        + Seq::new(
        SHARED_PAGES as nat,
        |i: int| PageMapping { vpn: i as usize, ppn: (SHARED_BASE / PAGE_SIZE + i) as usize, flags: kernel_rwx_flags() },
    )
        + Seq::new(
        8,
        |i: int| {
            let p = (BITMAP_BASE / PAGE_SIZE + 1 + i) as usize;
            PageMapping { vpn: p, ppn: p, flags: kernel_rwx_flags() }
        },
    )
        + seq![
        PageMapping {
            vpn: SYS_BITMAP_VA / PAGE_SIZE,
            ppn: SYS_BITMAP_VA / PAGE_SIZE,
            flags: kernel_rwx_flags(),
        },
    ]
}

/// What a user address space maps of the bitmaps: its own bitmap at
/// `USER_BITMAP_VA`, and the kernel's at its own address.
pub open spec fn bitmap_user_pages(space_id: int) -> Seq<PageMapping> {
    seq![
        PageMapping {
            vpn: USER_BITMAP_VA / PAGE_SIZE,
            ppn: (BITMAP_BASE / PAGE_SIZE + space_id) as usize,
            flags: user_rwx_flags(),
        },
        PageMapping { vpn: SYS_BITMAP_VA / PAGE_SIZE, ppn: SYS_BITMAP_VA / PAGE_SIZE, flags: user_rwx_flags() },
    ]
}

impl MemorySet {
    /// Maps the trampoline page (it belongs to no area).
    pub fn map_trampoline(&mut self, cfg: &SpaceConfig)
        ensures
            final(self)@ == old(self)@,
            final(self).pages() == old(self).pages().push(trampoline_page(*cfg)),
    {
        self.map_page(cfg.trampoline / PAGE_SIZE, cfg.strampoline / PAGE_SIZE, MapPermission::R | MapPermission::X);
    }

    /// Appends the identity mapping of the shared region's pages.
    fn map_shared_identity(&mut self, flags: u8)
        ensures
            final(self)@ == old(self)@,
            final(self).pages() == old(self).pages() + shared_identity_pages(flags),
    {
        let first: usize = SHARED_BASE / PAGE_SIZE;
        let mut i: usize = 0;
        while i < SHARED_PAGES
            invariant
                i <= SHARED_PAGES,
                first == SHARED_BASE / PAGE_SIZE,
                self@ == old(self)@,
                self.pages() == old(self).pages() + shared_identity_pages(flags).take(i as int),
            decreases SHARED_PAGES - i,
        {
            self.map_page(first + i, first + i, flags);
            i = i + 1;
            proof {
                assert(shared_identity_pages(flags).take(i as int) =~= shared_identity_pages(flags).take(
                    i - 1,
                ).push(shared_identity_pages(flags)[i - 1]));
            }
        }
        proof {
            assert(shared_identity_pages(flags).take(i as int) =~= shared_identity_pages(flags));
        }
    }

    /// Maps, for the kernel, the shared region at its own addresses and
    /// again from address 0, the bitmaps of processes 1 to 8 and the
    /// kernel's bitmap.
    pub fn push_shared_kernel(&mut self)
        ensures
            final(self)@ == old(self)@,
            final(self).pages() == old(self).pages() + shared_kernel_pages(),
    {
        let flags: u8 = MapPermission::R | MapPermission::X | MapPermission::W;
        let first: usize = SHARED_BASE / PAGE_SIZE;
        self.map_shared_identity(flags);
        let ghost after_identity = self.pages();
        let ghost low = Seq::new(
            SHARED_PAGES as nat,
            |i: int| PageMapping { vpn: i as usize, ppn: (SHARED_BASE / PAGE_SIZE + i) as usize, flags: kernel_rwx_flags() },
        );
        let mut i: usize = 0;
        while i < SHARED_PAGES
            invariant
                i <= SHARED_PAGES,
                first == SHARED_BASE / PAGE_SIZE,
                flags == kernel_rwx_flags(),
                self@ == old(self)@,
                low == Seq::new(
                    SHARED_PAGES as nat,
                    |i: int| PageMapping { vpn: i as usize, ppn: (SHARED_BASE / PAGE_SIZE + i) as usize, flags: kernel_rwx_flags() },
                ),
                self.pages() == after_identity + low.take(i as int),
            decreases SHARED_PAGES - i,
        {
            self.map_page(i, first + i, flags);
            i = i + 1;
            proof {
                assert(low.take(i as int) =~= low.take(i - 1).push(low[i - 1]));
            }
        }
        proof {
            assert(low.take(i as int) =~= low);
        }
        let ghost after_low = self.pages();
        let ghost bitmaps = Seq::new(
            8,
            |i: int| {
                let p = (BITMAP_BASE / PAGE_SIZE + 1 + i) as usize;
                PageMapping { vpn: p, ppn: p, flags: kernel_rwx_flags() }
            },
        );
        let bitmap_first: usize = BITMAP_BASE / PAGE_SIZE;
        let mut pid: usize = 1;
        while pid < 9
            invariant
                1 <= pid <= 9,
                bitmap_first == BITMAP_BASE / PAGE_SIZE,
                flags == kernel_rwx_flags(),
                self@ == old(self)@,
                bitmaps == Seq::new(
                    8,
                    |i: int| {
                        let p = (BITMAP_BASE / PAGE_SIZE + 1 + i) as usize;
                        PageMapping { vpn: p, ppn: p, flags: kernel_rwx_flags() }
                    },
                ),
                self.pages() == after_low + bitmaps.take(pid - 1),
            decreases 9 - pid,
        {
            self.map_page(bitmap_first + pid, bitmap_first + pid, flags);
            pid = pid + 1;
            proof {
                assert(bitmaps.take(pid - 1) =~= bitmaps.take(pid - 2).push(bitmaps[pid - 2]));
            }
        }
        proof {
            assert(bitmaps.take(8) =~= bitmaps);
        }
        self.map_page(SYS_BITMAP_VA / PAGE_SIZE, SYS_BITMAP_VA / PAGE_SIZE, flags);
        proof {
            assert(self.pages() =~= old(self).pages() + shared_kernel_pages());
        }
    }

    /// Maps, for user process `space_id`, its own bitmap at
    /// `USER_BITMAP_VA` and the kernel's bitmap at its own address.
    pub fn bitmap_user(&mut self, space_id: usize)
        requires
            BITMAP_BASE + PAGE_SIZE * space_id <= usize::MAX,
        ensures
            final(self)@ == old(self)@,
            final(self).pages() == old(self).pages() + bitmap_user_pages(space_id as int),
    {
        let flags: u8 = MapPermission::R | MapPermission::X | MapPermission::U | MapPermission::W;
        self.map_page(USER_BITMAP_VA / PAGE_SIZE, BITMAP_BASE / PAGE_SIZE + space_id, flags);
        self.map_page(SYS_BITMAP_VA / PAGE_SIZE, SYS_BITMAP_VA / PAGE_SIZE, flags);
        proof {
            assert(self.pages() =~= old(self).pages() + bitmap_user_pages(space_id as int));
        }
    }

    /// Maps the shared region at its own addresses, for a user.
    pub fn push_shared(&mut self)
        ensures
            final(self)@ == old(self)@,
            final(self).pages() == old(self).pages() + shared_identity_pages(user_rwx_flags()),
    {
        self.map_shared_identity(MapPermission::R | MapPermission::X | MapPermission::U | MapPermission::W);
    }
}


/// Where the kernel image's sections begin and end, as the linker placed
/// them.
#[derive(Clone, Copy, Debug, PartialEq, Eq, Structural)]
pub struct KernelSections {
    pub stext: usize,
    pub etext: usize,
    pub srodata: usize,
    pub erodata: usize,
    pub sdata: usize,
    pub edata: usize,
    pub sbss_with_stack: usize,
    pub ebss: usize,
    pub ekernel: usize,
}

/// The end of the physical memory the kernel maps after its image.
pub const KERNEL_MEMORY_END: usize = 0x85ff_0000;

/// Read only.
pub open spec fn read_only() -> MapPermission {
    MapPermission { bits: MapPermission::R }
}

/// Read and write.
pub open spec fn rw_perm() -> MapPermission {
    MapPermission { bits: MapPermission::R | MapPermission::W }
}

/// The kernel's own areas, all mapped identically: code readable and
/// executable, read-only data readable, data and bss readable and
/// writable, and the physical memory after the image with every right.
pub open spec fn kernel_areas(k: KernelSections) -> Seq<MapArea> {
    seq![
        area_of(k.stext as int, k.etext as int, MapType::Identical, rx()),
        area_of(k.srodata as int, k.erodata as int, MapType::Identical, read_only()),
        area_of(k.sdata as int, k.edata as int, MapType::Identical, rw_perm()),
        area_of(k.sbss_with_stack as int, k.ebss as int, MapType::Identical, rw_perm()),
        area_of(k.ekernel as int, KERNEL_MEMORY_END as int, MapType::Identical, rwx()),
    ]
}

/// The memory-mapped register ranges `(base, length)`, mapped identically
/// with every right.
pub open spec fn mmio_areas(mmio: Seq<(usize, usize)>) -> Seq<MapArea> {
    mmio.map_values(|p: (usize, usize)| area_of(p.0 as int, p.0 + p.1, MapType::Identical, rwx()))
}

/// The section ends fit the machine word once rounded up to a page.
pub open spec fn kernel_sections_ok(k: KernelSections) -> bool {
    &&& k.etext + PAGE_SIZE - 1 <= usize::MAX
    &&& k.erodata + PAGE_SIZE - 1 <= usize::MAX
    &&& k.edata + PAGE_SIZE - 1 <= usize::MAX
    &&& k.ebss + PAGE_SIZE - 1 <= usize::MAX
}

impl MemorySet {
    /// The kernel's address space: the trampoline page, the kernel's own
    /// areas, the shared region and bitmaps as the kernel sees them, and the
    /// memory-mapped registers `mmio`.
    pub fn new_kernel(sections: &KernelSections, mmio: &Vec<(usize, usize)>, cfg: &SpaceConfig) -> (r: MemorySet)
        requires
            kernel_sections_ok(*sections),
            forall|i: int| 0 <= i < mmio.len() ==> (#[trigger] mmio@[i]).0 + mmio@[i].1 + PAGE_SIZE - 1 <= usize::MAX,
        ensures
            r@ == kernel_areas(*sections) + mmio_areas(mmio@),
            r.pages() == seq![trampoline_page(*cfg)] + shared_kernel_pages(),
    {
        let mut memory_set = MemorySet::new_bare();
        memory_set.map_trampoline(cfg);
        let rx_perm = MapPermission { bits: MapPermission::R | MapPermission::X };
        let r_perm = MapPermission { bits: MapPermission::R };
        let rw = MapPermission { bits: MapPermission::R | MapPermission::W };
        let rwx_perm = MapPermission { bits: MapPermission::R | MapPermission::W | MapPermission::X };
        memory_set.push(MapArea::new(sections.stext, sections.etext, MapType::Identical, rx_perm));
        memory_set.push(MapArea::new(sections.srodata, sections.erodata, MapType::Identical, r_perm));
        memory_set.push(MapArea::new(sections.sdata, sections.edata, MapType::Identical, rw));
        memory_set.push(MapArea::new(sections.sbss_with_stack, sections.ebss, MapType::Identical, rw));
        memory_set.push(MapArea::new(sections.ekernel, KERNEL_MEMORY_END, MapType::Identical, rwx_perm));
        memory_set.push_shared_kernel();
        let ghost head = memory_set@;
        let mut i: usize = 0;
        while i < mmio.len()
            invariant
                i <= mmio.len(),
                forall|j: int| 0 <= j < mmio.len() ==> (#[trigger] mmio@[j]).0 + mmio@[j].1 + PAGE_SIZE - 1 <= usize::MAX,
                rwx_perm == rwx(),
                memory_set@ == head + mmio_areas(mmio@.take(i as int)),
                memory_set.pages() == seq![trampoline_page(*cfg)] + shared_kernel_pages(),
            decreases mmio.len() - i,
        {
            let (base, len) = mmio[i];
            proof {
                assert(mmio@[i as int].0 + mmio@[i as int].1 + PAGE_SIZE - 1 <= usize::MAX);
            }
            memory_set.push(MapArea::new(base, base + len, MapType::Identical, rwx_perm));
            i = i + 1;
            proof {
                assert(mmio_areas(mmio@.take(i as int)) =~= mmio_areas(mmio@.take(i - 1)).push(
                    area_of(base as int, base + len, MapType::Identical, rwx()),
                ));
            }
        }
        proof {
            assert(mmio@.take(i as int) =~= mmio@);
            assert(head =~= kernel_areas(*sections));
        }
        memory_set
    }
}


/// Whether the walk over `headers` stays within bounds, and if so the page
/// past the last area it places: `None` exactly when some step would
/// overflow the machine word or overlap claimed addresses by a page or more.
pub fn check_layout(
    headers: &Vec<ProgramHeader>,
    base: usize,
    shift: usize,
    map_type: MapType,
    map_perm: MapPermission,
) -> (r: Option<usize>)
    ensures
        r is Some <==> layout_walk_ok(headers@, base as int, shift as int, map_type, map_perm),
        r matches Some(v) ==> v == layout_walk(headers@, base as int, shift as int, map_type, map_perm).max_end_vpn,
{
    let ghost b = base as int;
    let ghost sh = shift as int;
    let max: u128 = usize::MAX as u128;
    let page: u128 = PAGE_SIZE as u128;
    let mut last: u128 = 0;
    let mut max_end_vpn: usize = 0;
    let mut i: usize = 0;
    while i < headers.len()
        invariant
            i <= headers.len(),
            b == base && sh == shift,
            max == usize::MAX,
            page == PAGE_SIZE,
            layout_walk_ok(headers@.take(i as int), b, sh, map_type, map_perm),
            last == layout_walk(headers@.take(i as int), b, sh, map_type, map_perm).last_end_va,
            max_end_vpn == layout_walk(headers@.take(i as int), b, sh, map_type, map_perm).max_end_vpn,
            last <= max,
        decreases headers.len() - i,
    {
        let ph = headers[i];
        proof {
            assert(headers@.take(i as int + 1).drop_last() =~= headers@.take(i as int));
            assert(headers@.take(i as int + 1).last() == ph);
        }
        if ph.is_load {
            let top: u128 = ph.virtual_addr as u128 + ph.mem_size as u128 + base as u128;
            if top > max {
                proof {
                    lemma_walk_not_ok_extends(headers@, b, sh, map_type, map_perm, i as int + 1);
                }
                return None;
            }
            if top > last {
                let lo: u128 = ph.virtual_addr as u128 + base as u128;
                if lo < shift as u128 || top < shift as u128 {
                    proof {
                        lemma_walk_not_ok_extends(headers@, b, sh, map_type, map_perm, i as int + 1);
                    }
                    return None;
                }
                let start0: u128 = lo - shift as u128;
                let end0: u128 = top - shift as u128;
                let overlap = start0 < last && end0 > last;
                let end: u128 = if overlap { top - (last - start0) } else { end0 };
                if (overlap && last - start0 >= page) || end + page - 1 > max
                    || ph.offset as u128 + ph.file_size as u128 > max || (top / 0x1000) * 0x1000 + 0x1000 > max {
                    proof {
                        lemma_walk_not_ok_extends(headers@, b, sh, map_type, map_perm, i as int + 1);
                    }
                    return None;
                }
                let start: u128 = if overlap { last } else { start0 };
                let area = MapArea::new(start as usize, end as usize, map_type, map_perm);
                max_end_vpn = area.end_vpn;
                if top % 0x1000 == 0 {
                    last = top;
                } else {
                    last = (top / 0x1000) * 0x1000 + 0x1000;
                }
            }
        }
        i = i + 1;
    }
    proof {
        assert(headers@.take(i as int) =~= headers@);
    }
    Some(max_end_vpn)
}

proof fn lemma_walk_not_ok_extends(
    hs: Seq<ProgramHeader>,
    base: int,
    shift: int,
    map_type: MapType,
    map_perm: MapPermission,
    n: int,
)
    requires
        0 <= n <= hs.len(),
        !layout_walk_ok(hs.take(n), base, shift, map_type, map_perm),
    ensures
        !layout_walk_ok(hs, base, shift, map_type, map_perm),
{
    if layout_walk_ok(hs, base, shift, map_type, map_perm) {
        lemma_layout_walk_ok_prefix(hs, base, shift, map_type, map_perm, n);
    }
}


/// Whether user program `user` can be laid out in an address space built
/// with `cfg` for process `space_id`.
pub fn check_program(user: &Vec<ProgramHeader>, cfg: &SpaceConfig, space_id: usize) -> (r: bool)
    ensures
        r == program_layout_ok(user@, *cfg, space_id as int),
{
    let max: u128 = usize::MAX as u128;
    let page: u128 = PAGE_SIZE as u128;
    let mut max_end_vpn: usize = 0;
    let mut i: usize = 0;
    while i < user.len()
        invariant
            i <= user.len(),
            max == usize::MAX,
            page == PAGE_SIZE,
            forall|k: int| 0 <= k < i ==> user_segment_ok(#[trigger] user@[k]),
            max_end_vpn == user_max_end_vpn(user@.take(i as int)),
        decreases user.len() - i,
    {
        let ph = user[i];
        proof {
            assert(user@.take(i as int + 1).drop_last() =~= user@.take(i as int));
            assert(user@.take(i as int + 1).last() == ph);
        }
        if ph.is_load {
            if ph.virtual_addr as u128 + ph.mem_size as u128 + page - 1 > max
                || ph.offset as u128 + ph.file_size as u128 > max {
                proof {
                    assert(!user_segment_ok(user@[i as int]));
                }
                return false;
            }
            let start_va = ph.virtual_addr as usize;
            let end_va = (ph.virtual_addr + ph.mem_size) as usize;
            max_end_vpn = MapArea::new(start_va, end_va, MapType::Framed, MapPermission { bits: 0 }).end_vpn;
        }
        i = i + 1;
    }
    proof {
        assert(user@.take(i as int) =~= user@);
    }
    let top: u128 = max_end_vpn as u128 * page + page + cfg.user_stack_size as u128;
    top + page - 1 <= max && cfg.trampoline as u128 + page - 1 <= max
        && BITMAP_BASE as u128 + page * space_id as u128 <= max
}

/// Whether user program `user` and the shared runtime `shared` can be laid
/// out together in an address space built with `cfg` for process `space_id`.
pub fn check_user_layout(
    shared: &Vec<ProgramHeader>,
    user: &Vec<ProgramHeader>,
    cfg: &SpaceConfig,
    space_id: usize,
) -> (r: bool)
    ensures
        r == user_layout_ok(shared@, user@, *cfg, space_id as int),
{
    let perm = MapPermission { bits: MapPermission::R | MapPermission::W | MapPermission::X | MapPermission::U };
    check_layout(shared, LKM_BASE, SHARED_BASE, MapType::Framed, perm).is_some() && check_program(user, cfg, space_id)
}


/// The loadable headers of a program, in order.
pub open spec fn loadable_headers(hs: Seq<ProgramHeader>) -> Seq<ProgramHeader> {
    hs.filter(|h: ProgramHeader| h.is_load)
}

/// Plan `p` is made for header `h`: its bytes are exactly `h`'s file image
/// (`offset..offset + file_size`); its framed area runs from the page
/// holding `h`'s first address to the page past its last, is open to user
/// code, and is readable, writable or executable exactly as `h` says.
pub open spec fn plan_fits_header(p: SegmentPlan, h: ProgramHeader) -> bool {
    &&& p.data == Some(ByteRange { start: h.offset as usize, end: (h.offset + h.file_size) as usize })
    &&& p.area.map_perm.bits & 0x10 != 0
    &&& (p.area.map_perm.bits & 0x2 != 0) == h.readable
    &&& (p.area.map_perm.bits & 0x4 != 0) == h.writable
    &&& (p.area.map_perm.bits & 0x8 != 0) == h.executable
    &&& p.area.map_perm.bits & 0xe1 == 0
    &&& p.area.start_vpn == (h.virtual_addr / 0x1000) as usize
    &&& p.area.end_vpn == ((h.virtual_addr + h.mem_size + 0xfff) / 0x1000) as usize
    &&& p.area.map_type == MapType::Framed
}

/// The rights of a user segment, bit by bit.
proof fn lemma_user_perm_bits(h: ProgramHeader)
    ensures
        user_perm(h).bits & 0x10 != 0,
        (user_perm(h).bits & 0x2 != 0) == h.readable,
        (user_perm(h).bits & 0x4 != 0) == h.writable,
        (user_perm(h).bits & 0x8 != 0) == h.executable,
        user_perm(h).bits & 0xe1 == 0,
{
    let r = h.readable;
    let w = h.writable;
    let x = h.executable;
    let b: u8 = user_perm(h).bits;
    assert(b == 16u8 | (if r { 2u8 } else { 0u8 }) | (if w { 4u8 } else { 0u8 }) | (if x { 8u8 } else { 0u8 }));
    assert(b == 16u8 | (if r { 2u8 } else { 0u8 }) | (if w { 4u8 } else { 0u8 }) | (if x { 8u8 } else { 0u8 }) ==> {
        &&& b & 0x10 != 0
        &&& (b & 0x2 != 0) == r
        &&& (b & 0x4 != 0) == w
        &&& (b & 0x8 != 0) == x
        &&& b & 0xe1 == 0
    }) by (bit_vector);
}

/// A user program's segment plans follow its loadable headers one for one,
/// in order. Each plan's area runs from the page holding the segment's
/// first address to the page past its last (its memory size), is framed,
/// carries the segment's own rights plus user access, and each plan copies
/// exactly the segment's file image, bytes `offset..offset + file_size` of
/// the file, never its memory size: the rest of the segment (its .bss)
/// stays zero.
pub proof fn lemma_user_plan_copies_file_image(hs: Seq<ProgramHeader>)
    ensures
        user_plan(hs).len() == loadable_headers(hs).len(),
        forall|i: int| 0 <= i < user_plan(hs).len() ==> #[trigger] plan_fits_header(user_plan(hs)[i], loadable_headers(hs)[i]),
    decreases hs.len(),
{
    reveal(Seq::filter);
    if hs.len() > 0 {
        let pre = hs.drop_last();
        lemma_user_plan_copies_file_image(pre);
        assert(loadable_headers(hs) == (if hs.last().is_load {
            loadable_headers(pre).push(hs.last())
        } else {
            loadable_headers(pre)
        }));
        assert forall|i: int| 0 <= i < user_plan(hs).len() implies #[trigger] plan_fits_header(user_plan(hs)[i], loadable_headers(hs)[i]) by {
            if i < user_plan(pre).len() {
                assert(loadable_headers(hs)[i] == loadable_headers(pre)[i]);
                assert(user_plan(hs)[i] == user_plan(pre)[i]);
            } else {
                lemma_user_perm_bits(hs.last());
            }
        }
    } else {
        assert(loadable_headers(hs) =~= Seq::<ProgramHeader>::empty());
    }
}

/// The kernel's own areas are its sections mapped identically, each from
/// the page holding its start to the page past its end, with these rights:
/// code readable and executable, read-only data readable only, data and
/// bss readable and writable (never executable), and the memory after the
/// image readable, writable and executable.
pub proof fn lemma_kernel_section_rights(k: KernelSections)
    ensures
        kernel_areas(k).len() == 5,
        forall|i: int| 0 <= i < 5 ==> (#[trigger] kernel_areas(k)[i]).map_type == MapType::Identical,
        kernel_areas(k)[0].map_perm.bits == MapPermission::R | MapPermission::X,
        kernel_areas(k)[1].map_perm.bits == MapPermission::R,
        kernel_areas(k)[2].map_perm.bits == MapPermission::R | MapPermission::W,
        kernel_areas(k)[3].map_perm.bits == MapPermission::R | MapPermission::W,
        kernel_areas(k)[4].map_perm.bits == MapPermission::R | MapPermission::W | MapPermission::X,
        kernel_areas(k)[0].start_vpn == (k.stext / 0x1000) as usize,
        kernel_areas(k)[0].end_vpn == ((k.etext + 0xfff) / 0x1000) as usize,
        kernel_areas(k)[1].start_vpn == (k.srodata / 0x1000) as usize,
        kernel_areas(k)[1].end_vpn == ((k.erodata + 0xfff) / 0x1000) as usize,
        kernel_areas(k)[2].start_vpn == (k.sdata / 0x1000) as usize,
        kernel_areas(k)[2].end_vpn == ((k.edata + 0xfff) / 0x1000) as usize,
        kernel_areas(k)[3].start_vpn == (k.sbss_with_stack / 0x1000) as usize,
        kernel_areas(k)[3].end_vpn == ((k.ebss + 0xfff) / 0x1000) as usize,
        kernel_areas(k)[4].start_vpn == (k.ekernel / 0x1000) as usize,
        kernel_areas(k)[4].end_vpn == ((KERNEL_MEMORY_END + 0xfff) / 0x1000) as usize,
{
}

/// How one loadable segment of a module is placed when it reaches past the
/// addresses already claimed. Without overlap, both of its ends move by the
/// same amount (`base` up, `shift` down), so its area spans exactly the
/// pages of the segment so moved. When it starts below the claimed limit
/// and ends above, it starts at the limit and its end moves down by the
/// part that overlapped (counted without `shift`). Either way its bytes
/// are the segment's file image and the claimed limit becomes its moved-up
/// end rounded up to a page.
pub proof fn lemma_layout_step_places_segment(
    st: LayoutState,
    ph: ProgramHeader,
    base: int,
    shift: int,
    map_type: MapType,
    map_perm: MapPermission,
)
    requires
        ph.is_load,
        ph.virtual_addr + ph.mem_size + base > st.last_end_va,
    ensures
        ({
            let lo = ph.virtual_addr + base - shift;
            let hi = ph.virtual_addr + ph.mem_size + base - shift;
            let top = ph.virtual_addr + ph.mem_size + base;
            let next = layout_step(st, ph, base, shift, map_type, map_perm);
            let p = next.plans.last();
            &&& next.plans.len() == st.plans.len() + 1
            &&& next.plans.drop_last() == st.plans
            &&& p.data == Some(ByteRange { start: ph.offset as usize, end: (ph.offset + ph.file_size) as usize })
            &&& p.area.map_type == map_type && p.area.map_perm == map_perm
            &&& !(lo < st.last_end_va && hi > st.last_end_va) ==> {
                &&& p.area.start_vpn == (lo / 0x1000) as usize
                &&& p.area.end_vpn == ((hi + 0xfff) / 0x1000) as usize
            }
            &&& (lo < st.last_end_va && hi > st.last_end_va) ==> {
                &&& p.area.start_vpn == (st.last_end_va / 0x1000) as usize
                &&& p.area.end_vpn == ((top - (st.last_end_va - lo) + 0xfff) / 0x1000) as usize
            }
            &&& next.last_end_va == (if top % 0x1000 == 0 { top } else { (top / 0x1000 + 1) * 0x1000 })
            &&& next.max_end_vpn == p.area.end_vpn
        }),
{
    let next = layout_step(st, ph, base, shift, map_type, map_perm);
    assert(next.plans.drop_last() =~= st.plans);
}

/// A header that is not loadable, or whose moved-up end lies within the
/// addresses already claimed, places nothing.
pub proof fn lemma_layout_step_skips(
    st: LayoutState,
    ph: ProgramHeader,
    base: int,
    shift: int,
    map_type: MapType,
    map_perm: MapPermission,
)
    requires
        !ph.is_load || ph.virtual_addr + ph.mem_size + base <= st.last_end_va,
    ensures
        layout_step(st, ph, base, shift, map_type, map_perm) == st,
{
}


/// The page past a program's image is the page past its last loadable
/// segment (rounded up from that segment's memory end), or 0 when it has
/// none.
pub proof fn lemma_image_end_is_last_load(hs: Seq<ProgramHeader>)
    ensures
        loadable_headers(hs).len() == 0 ==> user_max_end_vpn(hs) == 0,
        loadable_headers(hs).len() > 0 ==> {
            let h = loadable_headers(hs).last();
            user_max_end_vpn(hs) == ((h.virtual_addr + h.mem_size + 0xfff) / 0x1000) as usize
        },
    decreases hs.len(),
{
    reveal(Seq::filter);
    if hs.len() > 0 {
        lemma_image_end_is_last_load(hs.drop_last());
    }
}

/// A user program's areas are its segments' areas in order, then its stack,
/// which leaves one unmapped guard page above the image and spans
/// `user_stack_size` bytes rounded up to pages, readable, writable and
/// open to user code, then the trap-context page `trap_context..trampoline`,
/// readable and writable but closed to user code; both framed.
pub proof fn lemma_program_areas_layout(user: Seq<ProgramHeader>, cfg: SpaceConfig)
    ensures
        ({
            let a = program_areas(user, cfg);
            let n = user_plan(user).len() as int;
            let image_end = user_max_end_vpn(user) as int;
            &&& a.len() == n + 2
            &&& forall|i: int| 0 <= i < n ==> #[trigger] a[i] == user_plan(user)[i].area
            &&& a[n].start_vpn == (image_end + 1) as usize
            &&& a[n].end_vpn == ((image_end * 0x1000 + 0x1000 + cfg.user_stack_size + 0xfff) / 0x1000) as usize
            &&& a[n].map_type == MapType::Framed
            &&& a[n].map_perm.bits == 2u8 | 4u8 | 16u8
            &&& a[n + 1].start_vpn == (cfg.trap_context / 0x1000) as usize
            &&& a[n + 1].end_vpn == ((cfg.trampoline + 0xfff) / 0x1000) as usize
            &&& a[n + 1].map_type == MapType::Framed
            &&& a[n + 1].map_perm.bits == 2u8 | 4u8
        }),
{
    let a = program_areas(user, cfg);
    let n = user_plan(user).len() as int;
    assert forall|i: int| 0 <= i < n implies #[trigger] a[i] == user_plan(user)[i].area by {
        assert(plan_areas(user_plan(user))[i] == user_plan(user)[i].area);
    }
    assert(((user_max_end_vpn(user) * 0x1000 + 0x1000) / 0x1000) == user_max_end_vpn(user) + 1);
}

/// The memory-mapped register ranges `(base, length)` are mapped one area
/// each, in order, identically, from the page holding the base to the page
/// past the range, readable, writable and executable.
pub proof fn lemma_mmio_areas(mmio: Seq<(usize, usize)>)
    ensures
        mmio_areas(mmio).len() == mmio.len(),
        forall|i: int| 0 <= i < mmio.len() ==> {
            let a = #[trigger] mmio_areas(mmio)[i];
            &&& a.start_vpn == (mmio[i].0 / 0x1000) as usize
            &&& a.end_vpn == ((mmio[i].0 + mmio[i].1 + 0xfff) / 0x1000) as usize
            &&& a.map_type == MapType::Identical
            &&& a.map_perm.bits == 2u8 | 4u8 | 8u8
        },
{
}

/// What the kernel maps page by page: the 1024 shared pages at their own
/// addresses, then the same physical pages again from virtual page 0, then
/// the bitmaps of processes 1 to 8 and the kernel's bitmap at their own
/// addresses; all readable, writable and executable (flags 14), none open
/// to user code.
pub proof fn lemma_shared_kernel_pages()
    ensures
        shared_kernel_pages().len() == 2057,
        forall|i: int| 0 <= i < 2057 ==> (#[trigger] shared_kernel_pages()[i]).flags == 14u8,
        forall|i: int| 0 <= i < 1024 ==> (#[trigger] shared_kernel_pages()[i]).vpn == 0x87000 + i
            && shared_kernel_pages()[i].ppn == 0x87000 + i,
        forall|i: int| 1024 <= i < 2048 ==> (#[trigger] shared_kernel_pages()[i]).vpn == i - 1024
            && shared_kernel_pages()[i].ppn == 0x87000 + (i - 1024),
        forall|i: int| 2048 <= i < 2056 ==> (#[trigger] shared_kernel_pages()[i]).vpn == 0x87401 + (i - 2048)
            && shared_kernel_pages()[i].ppn == 0x87401 + (i - 2048),
        shared_kernel_pages()[2056].vpn == 0x87410 && shared_kernel_pages()[2056].ppn == 0x87410,
{
    lemma_flag_values();
}

/// What a user address space maps page by page: the trampoline page
/// (readable and executable) at the top, the 1024 shared pages at their own
/// addresses, then its own bitmap (page `space_id` above the first bitmap)
/// at `USER_BITMAP_VA` and the kernel's bitmap at its own address; all but
/// the trampoline (flags 10) readable, writable, executable and open to
/// user code (flags 30).
pub proof fn lemma_user_space_pages(cfg: SpaceConfig, space_id: int)
    ensures
        user_space_pages(cfg, space_id).len() == 1027,
        user_space_pages(cfg, space_id)[0].vpn == (cfg.trampoline / 0x1000) as usize,
        user_space_pages(cfg, space_id)[0].ppn == (cfg.strampoline / 0x1000) as usize,
        user_space_pages(cfg, space_id)[0].flags == 10u8,
        forall|i: int| 1 <= i <= 1024 ==> (#[trigger] user_space_pages(cfg, space_id)[i]).vpn == 0x87000 + (i - 1)
            && user_space_pages(cfg, space_id)[i].ppn == 0x87000 + (i - 1)
            && user_space_pages(cfg, space_id)[i].flags == 30u8,
        user_space_pages(cfg, space_id)[1025].vpn == 0x87420,
        user_space_pages(cfg, space_id)[1025].ppn == (0x87400 + space_id) as usize,
        user_space_pages(cfg, space_id)[1025].flags == 30u8,
        user_space_pages(cfg, space_id)[1026].vpn == 0x87410,
        user_space_pages(cfg, space_id)[1026].ppn == 0x87410,
        user_space_pages(cfg, space_id)[1026].flags == 30u8,
{
    lemma_flag_values();
}

/// The page-table flag words used above: 14 is R, W and X; 30 adds U;
/// 10 is R and X.
proof fn lemma_flag_values()
    ensures
        kernel_rwx_flags() == 14u8,
        user_rwx_flags() == 30u8,
        MapPermission::R | MapPermission::X == 10u8,
{
    assert(2u8 | 8u8 | 4u8 == 14u8) by (bit_vector);
    assert(2u8 | 8u8 | 16u8 | 4u8 == 30u8) by (bit_vector);
    assert(2u8 | 8u8 == 10u8) by (bit_vector);
}


/// The rights words the layouts use, as page-table flag bits (R = 2,
/// W = 4, X = 8, U = 16): a module and the kernel's free memory get R, W
/// and X (14); the shared runtime also U (30); a user stack R, W and U
/// (22); the trap-context page and kernel data R and W (6); kernel code R
/// and X (10); read-only data R (2).
pub proof fn lemma_rights_words()
    ensures
        rwx().bits == 14,
        rwxu().bits == 30,
        rwu().bits == 22,
        rw().bits == 6,
        rw_perm().bits == 6,
        rx().bits == 10,
        read_only().bits == 2,
{
    assert(2u8 | 4u8 | 8u8 == 14u8) by (bit_vector);
    assert(2u8 | 4u8 | 8u8 | 16u8 == 30u8) by (bit_vector);
    assert(2u8 | 4u8 | 16u8 == 22u8) by (bit_vector);
    assert(2u8 | 4u8 == 6u8) by (bit_vector);
    assert(2u8 | 8u8 == 10u8) by (bit_vector);
}

} // verus!
