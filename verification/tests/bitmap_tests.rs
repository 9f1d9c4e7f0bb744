use coroutine_os::bitmap::{
    check_bitmap_should_yield, get_right_one_mask, update_bitmap, BitMap, PRIO_NUM, PROCESS_NUM,
};
use std::collections::BTreeSet;

#[test]
fn bitmap_new_is_empty() {
    let b = BitMap::new();
    assert_eq!(b.0, 0);
    assert_eq!(b.get_priority(), PRIO_NUM);
}

#[test]
fn bitmap_set_then_get() {
    let mut b = BitMap::new();
    b.set(3, true);
    assert!(b.get(3));
    assert!(!b.get(2));
    assert_eq!(b.0, 0b1000);
    b.set(3, false);
    assert!(!b.get(3));
    assert_eq!(b.0, 0);
}

#[test]
fn bitmap_priority_is_lowest_set_bit() {
    let mut b = BitMap(0b1010_0000);
    assert_eq!(b.get_priority(), 5);
    b.set(1, true);
    assert_eq!(b.get_priority(), 1);
    // bits above the priority range do not count
    let high = BitMap(1 << 9);
    assert_eq!(high.get_priority(), PRIO_NUM);
}

#[test]
fn bitmap_inner_gives_the_word() {
    let mut b = BitMap(5);
    *b.inner() = 9;
    assert_eq!(b.0, 9);
}

#[test]
fn right_one_mask_values() {
    assert_eq!(get_right_one_mask(0), 0);
    assert_eq!(get_right_one_mask(0b1100), 0b100);
    assert_eq!(get_right_one_mask(0b1000_0000), 0b1000_0000);
    assert_eq!(get_right_one_mask(1 << 8), 0);
    assert_eq!(get_right_one_mask(usize::MAX), 1);
}

#[test]
fn should_yield_when_kernel_has_more_urgent_work() {
    assert!(check_bitmap_should_yield(BitMap(0b001), BitMap(0b100)));
    assert!(!check_bitmap_should_yield(BitMap(0b100), BitMap(0b100)));
    assert!(!check_bitmap_should_yield(BitMap(0), BitMap(0b1)));
    assert!(check_bitmap_should_yield(BitMap(0b1), BitMap(0)));
}

#[test]
fn update_bitmap_merges_and_selects() {
    let maps = vec![0b100, 0, 0b110, 0b1000, 0, 0b100, 0, 0];
    assert_eq!(maps.len(), PROCESS_NUM);
    let mut pids = BTreeSet::new();
    pids.insert(7);
    let sys = update_bitmap(&maps, &mut pids);
    assert_eq!(sys.0, 0b1110);
    let got: Vec<usize> = pids.into_iter().collect();
    assert_eq!(got, vec![3]);
}

#[test]
fn update_bitmap_all_empty() {
    let maps = vec![0; PROCESS_NUM];
    let mut pids = BTreeSet::new();
    pids.insert(2);
    let sys = update_bitmap(&maps, &mut pids);
    assert_eq!(sys.0, 0);
    assert!(pids.is_empty());
}

#[test]
fn update_bitmap_ties_select_all_holders() {
    let maps = vec![0b1, 0b11, 0, 0, 0, 0, 0, 0b1];
    let mut pids = BTreeSet::new();
    let sys = update_bitmap(&maps, &mut pids);
    assert_eq!(sys.0, 0b11);
    let got: Vec<usize> = pids.into_iter().collect();
    assert_eq!(got, vec![1, 2, 8]);
}
