use coroutine_os::lkm::{get_symbol_addr_from_elf, Symbol};
use coroutine_os::memory_set::{check_layout, check_program, check_user_layout, PageCopy, 
    plan_elf_segments, plan_lkm_segments, plan_user_stack, ByteRange, KernelSections, MapArea,
    MapPermission, MapType, MemorySet, PageMapping, ProgramHeader, SpaceConfig, LKM_BASE,
    PAGE_SIZE, SHARED_BASE,
};

fn cfg() -> SpaceConfig {
    let trampoline = usize::MAX - PAGE_SIZE + 1;
    SpaceConfig {
        trampoline,
        trap_context: trampoline - PAGE_SIZE,
        strampoline: 0x8020_5000,
        user_stack_size: 0x2000,
    }
}

fn perm(bits: u8) -> MapPermission {
    MapPermission { bits }
}

fn ph(is_load: bool, va: u64, mem: u64, off: u64, file: u64, r: bool, w: bool, x: bool) -> ProgramHeader {
    ProgramHeader {
        is_load,
        virtual_addr: va,
        mem_size: mem,
        offset: off,
        file_size: file,
        readable: r,
        writable: w,
        executable: x,
    }
}

#[test]
fn map_area_rounds_to_pages() {
    let a = MapArea::new(0x1234, 0x5001, MapType::Framed, perm(2));
    assert_eq!(a.start_vpn, 1);
    assert_eq!(a.end_vpn, 6);
    let b = MapArea::new(0x2000, 0x3000, MapType::Identical, perm(4));
    assert_eq!((b.start_vpn, b.end_vpn), (2, 3));
    assert_eq!(MapArea::from_another(&b), b);
}

#[test]
fn insert_and_remove_areas() {
    let mut ms = MemorySet::new_bare();
    ms.insert_framed_area(0x1000, 0x3000, perm(6));
    ms.insert_framed_area(0x8000, 0x9000, perm(2));
    ms.insert_framed_area(0x1000, 0x2000, perm(4));
    assert_eq!(ms.areas().len(), 3);
    let removed = ms.remove_area_with_start_vpn(1).unwrap();
    assert_eq!(removed.end_vpn, 3);
    assert_eq!(ms.areas().len(), 2);
    assert_eq!(ms.areas()[0].start_vpn, 8);
    assert_eq!(ms.areas()[1].map_perm, perm(4));
    assert!(ms.remove_area_with_start_vpn(42).is_none());
    assert_eq!(ms.areas().len(), 2);
    let copy = MemorySet::from_existed_user(&ms, &cfg());
    assert_eq!(copy.areas(), ms.areas());
    assert_eq!(
        copy.page_mappings(),
        &vec![PageMapping { vpn: usize::MAX / PAGE_SIZE, ppn: 0x80205, flags: 2 | 8 }]
    );
    ms.recycle_data_pages();
    assert!(ms.areas().is_empty());
}

#[test]
fn user_segments_and_stack() {
    let headers = vec![
        ph(true, 0x1_0000, 0x1800, 0x1000, 0x1800, true, false, true),
        ph(false, 0, 0x100, 0, 0, true, false, false),
        ph(true, 0x1_2000, 0x2100, 0x3000, 0x1000, true, true, false),
    ];
    let (plans, end) = plan_elf_segments(&headers);
    assert_eq!(plans.len(), 2);
    assert_eq!(plans[0].area.start_vpn, 0x10);
    assert_eq!(plans[0].area.end_vpn, 0x12);
    assert_eq!(plans[0].area.map_perm, perm(16 | 2 | 8));
    assert_eq!(plans[0].data, Some(ByteRange { start: 0x1000, end: 0x2800 }));
    assert_eq!(plans[1].area.map_perm, perm(16 | 2 | 4));
    assert_eq!(plans[1].area.end_vpn, 0x15);
    assert_eq!(end, 0x15);
    let (stack, top) = plan_user_stack(end, 0x2000, perm(2 | 4 | 16));
    assert_eq!(top, 0x15 * PAGE_SIZE + PAGE_SIZE + 0x2000);
    assert_eq!(stack.start_vpn, 0x16);
    assert_eq!(stack.end_vpn, 0x18);
}

#[test]
fn module_segments_skip_and_clip_overlap() {
    let headers = vec![
        ph(true, 0x0, 0x1800, 0x0, 0x1800, true, false, true),
        // ends below what the first segment claimed: skipped
        ph(true, 0x100, 0x100, 0x100, 0x100, true, false, false),
        // starts inside the first segment's last page: clipped to the claimed limit
        ph(true, 0x1c00, 0x1000, 0x1c00, 0x800, true, true, false),
        ph(false, 0x9000, 0x1000, 0, 0, true, false, false),
    ];
    let base = 0x8000_0000usize;
    let (plans, end) = plan_lkm_segments(&headers, base, 0, MapType::Identical, perm(14));
    assert_eq!(plans.len(), 2);
    assert_eq!(plans[0].area.start_vpn, base / PAGE_SIZE);
    assert_eq!(plans[0].area.end_vpn, base / PAGE_SIZE + 2);
    // second: start moves to base + 0x2000; end = top - (0x2000 - 0x1c00)
    assert_eq!(plans[1].area.start_vpn, base / PAGE_SIZE + 2);
    assert_eq!(plans[1].area.end_vpn, (base + 0x2c00 - 0x400 + PAGE_SIZE - 1) / PAGE_SIZE);
    assert_eq!(plans[1].data, Some(ByteRange { start: 0x1c00, end: 0x2400 }));
    assert_eq!(end, plans[1].area.end_vpn);
    assert!(plans[0].area.end_vpn <= plans[1].area.start_vpn);
}

#[test]
fn removing_a_fresh_area_restores_the_space() {
    let mut ms = MemorySet::new_bare();
    ms.insert_framed_area(0x1000, 0x3000, perm(6));
    ms.insert_framed_area(0x8000, 0x9000, perm(2));
    let before = ms.areas().clone();
    ms.insert_framed_area(0x20_000, 0x22_000, perm(4));
    let removed = ms.remove_area_with_start_vpn(0x20).unwrap();
    assert_eq!(removed, MapArea::new(0x20_000, 0x22_000, MapType::Framed, perm(4)));
    assert_eq!(ms.areas(), &before);
}

#[test]
fn add_lkm_pushes_segments_then_stack() {
    let headers = vec![ph(true, 0x0, 0x1800, 0x0, 0x1800, true, false, true)];
    let mut ms = MemorySet::new_bare();
    let plans = ms.add_lkm(&headers, LKM_BASE, 0x4000);
    assert_eq!(plans.len(), 1);
    let areas = ms.areas();
    assert_eq!(areas.len(), 2);
    assert_eq!(areas[0].map_type, MapType::Identical);
    assert_eq!(areas[0].start_vpn, LKM_BASE / PAGE_SIZE);
    assert_eq!(areas[1].map_type, MapType::Framed);
    assert_eq!(areas[1].start_vpn, LKM_BASE / PAGE_SIZE + 3);
    assert_eq!(areas[1].end_vpn, LKM_BASE / PAGE_SIZE + 7);
}

#[test]
fn from_elf_lays_out_runtime_program_stack_and_trap_page() {
    let shared = vec![ph(true, SHARED_BASE as u64 - LKM_BASE as u64 + 0x1000, 0x1000, 0, 0x1000, true, true, true)];
    let user = vec![ph(true, 0x1_0000, 0x1000, 0x1000, 0x800, true, false, true)];
    let c = cfg();
    let (ms, shared_plans, user_plans, top) = MemorySet::from_elf(&shared, &user, &c, 3);
    assert_eq!(shared_plans.len(), 1);
    assert_eq!(shared_plans[0].area.start_vpn, 0x1000 / PAGE_SIZE);
    assert_eq!(shared_plans[0].area.map_perm, perm(2 | 4 | 8 | 16));
    assert_eq!(user_plans.len(), 1);
    assert_eq!(top, 0x11 * PAGE_SIZE + PAGE_SIZE + 0x2000);
    let areas = ms.areas();
    assert_eq!(areas.len(), 4);
    assert_eq!(areas[2].start_vpn, 0x12);
    assert_eq!(areas[2].map_perm, perm(2 | 4 | 16));
    assert_eq!(areas[3].start_vpn, c.trap_context / PAGE_SIZE);
    assert_eq!(areas[3].end_vpn, c.trampoline / PAGE_SIZE);
    let pages = ms.page_mappings();
    assert_eq!(pages.len(), 1 + 1024 + 2);
    assert_eq!(pages[0], PageMapping { vpn: c.trampoline / PAGE_SIZE, ppn: 0x80205, flags: 2 | 8 });
    assert_eq!(pages[1], PageMapping { vpn: 0x87000, ppn: 0x87000, flags: 2 | 8 | 16 | 4 });
    assert_eq!(pages[1024].vpn, 0x873ff);
    assert_eq!(pages[1025], PageMapping { vpn: 0x87420, ppn: 0x87403, flags: 2 | 8 | 16 | 4 });
    assert_eq!(pages[1026], PageMapping { vpn: 0x87410, ppn: 0x87410, flags: 2 | 8 | 16 | 4 });
}

#[test]
fn from_elf_no_use_has_program_and_shared_region_only() {
    let user = vec![ph(true, 0x1_0000, 0x1000, 0x1000, 0x800, true, true, false)];
    let (ms, plans, top) = MemorySet::from_elf_no_use(&user, &cfg(), 5);
    assert_eq!(plans.len(), 1);
    assert_eq!(top, 0x12 * PAGE_SIZE + 0x2000);
    assert_eq!(ms.areas().len(), 3);
    assert_eq!(ms.page_mappings().len(), 1024);
}

#[test]
fn kernel_space_maps_sections_shared_region_and_registers() {
    let k = KernelSections {
        stext: 0x8020_0000,
        etext: 0x8020_3800,
        srodata: 0x8020_4000,
        erodata: 0x8020_5000,
        sdata: 0x8020_5000,
        edata: 0x8020_6000,
        sbss_with_stack: 0x8020_6000,
        ebss: 0x8030_0000,
        ekernel: 0x8030_0000,
    };
    let mmio = vec![(0x1000_0000usize, 0x1000usize), (0x0c00_0000, 0x40_0000)];
    let ms = MemorySet::new_kernel(&k, &mmio, &cfg());
    let a = ms.areas();
    assert_eq!(a.len(), 7);
    assert_eq!((a[0].start_vpn, a[0].end_vpn), (0x80200, 0x80204));
    assert_eq!(a[0].map_perm, perm(2 | 8));
    assert_eq!(a[1].map_perm, perm(2));
    assert_eq!(a[3].map_perm, perm(2 | 4));
    assert_eq!((a[4].start_vpn, a[4].end_vpn), (0x80300, 0x85ff0));
    assert_eq!((a[6].start_vpn, a[6].end_vpn), (0xc000, 0xc400));
    assert!(a.iter().all(|x| x.map_type == MapType::Identical));
    let p = ms.page_mappings();
    assert_eq!(p.len(), 1 + 1024 + 1024 + 8 + 1);
    assert_eq!(p[1025], PageMapping { vpn: 0, ppn: 0x87000, flags: 2 | 8 | 4 });
    assert_eq!(p[2049], PageMapping { vpn: 0x87401, ppn: 0x87401, flags: 2 | 8 | 4 });
    assert_eq!(p[2057], PageMapping { vpn: 0x87410, ppn: 0x87410, flags: 2 | 8 | 4 });
}

#[test]
fn user_bitmap_pages_follow_the_process_number() {
    let mut ms = MemorySet::new_bare();
    ms.bitmap_user(8);
    assert_eq!(
        ms.page_mappings(),
        &vec![
            PageMapping { vpn: 0x87420, ppn: 0x87408, flags: 30 },
            PageMapping { vpn: 0x87410, ppn: 0x87410, flags: 30 },
        ]
    );
    assert!(ms.areas().is_empty());
}

#[test]
fn copy_steps_split_data_at_page_boundaries() {
    let a = MapArea::new(0x10_000, 0x14_000, MapType::Framed, perm(6));
    let steps = a.copy_data(0x2100);
    assert_eq!(
        steps,
        vec![
            PageCopy { vpn: 0x10, start: 0, end: 0x1000 },
            PageCopy { vpn: 0x11, start: 0x1000, end: 0x2000 },
            PageCopy { vpn: 0x12, start: 0x2000, end: 0x2100 },
        ]
    );
    assert_eq!(a.copy(0x2100), steps);
    assert_eq!(a.copy_data(0), vec![PageCopy { vpn: 0x10, start: 0, end: 0 }]);
    assert_eq!(a.copy_data(0x1000), vec![PageCopy { vpn: 0x10, start: 0, end: 0x1000 }]);
    assert_eq!(a.copy_kernel_data(0x3001), vec![0x10, 0x11, 0x12, 0x13]);
}

#[test]
fn symbol_lookup_takes_the_last_entry_with_the_name() {
    let syms = vec![
        Symbol { name: b"cpu_run".to_vec(), value: 0x1200 },
        Symbol { name: b"init_cpu_test".to_vec(), value: 0x1400 },
        Symbol { name: b"cpu_run".to_vec(), value: 0x1800 },
        Symbol { name: b"cpu".to_vec(), value: 0x10 },
    ];
    assert_eq!(get_symbol_addr_from_elf(&syms, &b"cpu_run".to_vec()), 0x1800);
    assert_eq!(get_symbol_addr_from_elf(&syms, &b"init_cpu_test".to_vec()), 0x1400);
    assert_eq!(get_symbol_addr_from_elf(&syms, &b"missing".to_vec()), 0);
    assert_eq!(get_symbol_addr_from_elf(&Vec::new(), &b"cpu".to_vec()), 0);
}

#[test]
fn layout_checks_accept_and_refuse() {
    let good = vec![
        ph(true, 0x0, 0x1800, 0x0, 0x1800, true, false, true),
        ph(true, 0x1c00, 0x1000, 0x1c00, 0x800, true, true, false),
    ];
    let base = 0x8000_0000usize;
    let (_, end) = plan_lkm_segments(&good, base, 0, MapType::Identical, perm(14));
    assert_eq!(check_layout(&good, base, 0, MapType::Identical, perm(14)), Some(end));
    // a second segment reaching a whole page into the first: refused
    let deep = vec![
        ph(true, 0x0, 0x3000, 0x0, 0x3000, true, false, true),
        ph(true, 0x1000, 0x3000, 0x1000, 0x800, true, true, false),
    ];
    assert_eq!(check_layout(&deep, base, 0, MapType::Identical, perm(14)), None);
    // a shift larger than the addresses: refused
    assert_eq!(check_layout(&good, 0, 0x1000_0000, MapType::Framed, perm(30)), None);
    assert_eq!(check_layout(&Vec::new(), 0, 0, MapType::Framed, perm(30)), Some(0));

    let user = vec![ph(true, 0x1_0000, 0x1000, 0x1000, 0x800, true, false, true)];
    assert!(check_program(&user, &cfg(), 3));
    let huge = vec![ph(true, u64::MAX - 0x10, 0x100, 0, 0, true, false, true)];
    assert!(!check_program(&huge, &cfg(), 3));
    let mut big_stack = cfg();
    big_stack.user_stack_size = usize::MAX - 0x1000;
    assert!(!check_program(&user, &big_stack, 3));
    assert!(!check_program(&user, &cfg(), usize::MAX / 2));
    let shared = vec![ph(true, SHARED_BASE as u64 - LKM_BASE as u64 + 0x1000, 0x1000, 0, 0x1000, true, true, true)];
    assert!(check_user_layout(&shared, &user, &cfg(), 3));
    let below = vec![ph(true, 0, 0x1000, 0, 0x1000, true, true, true)];
    assert!(!check_user_layout(&below, &user, &cfg(), 3));
}

#[test]
fn mapping_an_area_page_by_page() {
    let ident = MapArea::new(0x3000, 0x5000, MapType::Identical, perm(6));
    assert_eq!(
        ident.map(&Vec::new()),
        vec![PageMapping { vpn: 3, ppn: 3, flags: 6 }, PageMapping { vpn: 4, ppn: 4, flags: 6 }]
    );
    let framed = MapArea::new(0x3000, 0x6000, MapType::Framed, perm(22));
    assert_eq!(
        framed.map(&vec![0x900, 0x905, 0x901]),
        vec![
            PageMapping { vpn: 3, ppn: 0x900, flags: 22 },
            PageMapping { vpn: 4, ppn: 0x905, flags: 22 },
            PageMapping { vpn: 5, ppn: 0x901, flags: 22 },
        ]
    );
    assert_eq!(framed.map_one(7, Some(0x42)), PageMapping { vpn: 7, ppn: 0x42, flags: 22 });
    assert_eq!(ident.map_one(7, None), PageMapping { vpn: 7, ppn: 7, flags: 6 });
    assert_eq!(framed.unmap(), vec![3, 4, 5]);
    assert!(framed.unmap_one(3));
    assert!(!ident.unmap_one(3));
    let empty = MapArea::new(0x5000, 0x5000, MapType::Framed, perm(2));
    assert!(empty.map(&Vec::new()).is_empty());
    assert!(empty.unmap().is_empty());
}

#[test]
fn init_module_maps_the_whole_image() {
    let mut ms = MemorySet::new_bare();
    let plan = ms.init_module(0x2345);
    assert_eq!(plan.area.start_vpn, LKM_BASE / PAGE_SIZE);
    assert_eq!(plan.area.end_vpn, LKM_BASE / PAGE_SIZE + 3);
    assert_eq!(plan.area.map_type, MapType::Identical);
    assert_eq!(plan.area.map_perm, perm(14));
    assert_eq!(plan.data, Some(ByteRange { start: 0, end: 0x2345 }));
    assert_eq!(ms.areas(), &vec![plan.area]);
}

#[test]
fn copy_into_an_empty_area_still_starts_at_its_first_page() {
    let empty = MapArea::new(0x7000, 0x7000, MapType::Framed, perm(6));
    assert_eq!(
        empty.copy_data(0x1800),
        vec![PageCopy { vpn: 7, start: 0, end: 0x1000 }, PageCopy { vpn: 8, start: 0x1000, end: 0x1800 }]
    );
    assert_eq!(empty.copy_data(0), vec![PageCopy { vpn: 7, start: 0, end: 0 }]);
}
