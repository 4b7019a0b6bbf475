use vanadinite::mem::address::{
    PageSize, PhysicalAddress, VirtualAddress, USERSPACE_END, USERSPACE_START,
};
use vanadinite::mem::address_map::{AddressMap, AddressRegionKind};
use vanadinite::mem::region::MemoryRegion;

fn span(start: u64, end: u64) -> core::ops::Range<VirtualAddress> {
    VirtualAddress::new(start)..VirtualAddress::new(end)
}

fn backing(start: u64, pages: u64) -> MemoryRegion {
    MemoryRegion::new(PhysicalAddress::new(start), pages, PageSize::Kilopage)
}

/// The regions of the map as (start, end, occupied, kind), in address order,
/// put together from the two listings.
fn layout(map: &AddressMap) -> Vec<(u64, u64, bool, AddressRegionKind)> {
    let mut all: Vec<(u64, u64, bool, AddressRegionKind)> = Vec::new();
    for r in map.occupied_regions() {
        assert!(!r.is_unoccupied());
        all.push((r.span.start.as_u64(), r.span.end.as_u64(), true, r.kind));
    }
    for r in map.unoccupied_regions() {
        assert!(r.is_unoccupied());
        all.push((r.span.start.as_u64(), r.span.end.as_u64(), false, r.kind));
    }
    all.sort_by_key(|r| r.0);
    all
}

/// Checks that the regions cover the userspace without gap or overlap, that
/// none is empty, and that no two unoccupied regions touch.
fn assert_partition(map: &AddressMap) {
    let all = layout(map);
    assert!(!all.is_empty());
    assert_eq!(all[0].0, USERSPACE_START);
    assert_eq!(all[all.len() - 1].1, USERSPACE_END);
    for i in 0..all.len() {
        assert!(all[i].0 < all[i].1);
        if !all[i].2 {
            assert_eq!(all[i].3, AddressRegionKind::Unoccupied);
        }
        if i + 1 < all.len() {
            assert_eq!(all[i].1, all[i + 1].0);
            assert!(all[i].2 || all[i + 1].2);
        }
    }
}

#[test]
fn new_map_is_one_unoccupied_region() {
    let map = AddressMap::new();
    assert_eq!(
        layout(&map),
        vec![(USERSPACE_START, USERSPACE_END, false, AddressRegionKind::Unoccupied)]
    );
    assert_eq!(USERSPACE_START, 0);
    assert_eq!(USERSPACE_END, 0x40_0000_0000);
    assert_partition(&map);
}

#[test]
fn allocate_in_the_middle_cuts_three_regions() {
    let mut map = AddressMap::new();
    assert_eq!(map.allocate(span(0x1000, 0x3000), backing(0x8000_0000, 2), AddressRegionKind::Stack), Ok(()));
    assert_eq!(
        layout(&map),
        vec![
            (0, 0x1000, false, AddressRegionKind::Unoccupied),
            (0x1000, 0x3000, true, AddressRegionKind::Stack),
            (0x3000, USERSPACE_END, false, AddressRegionKind::Unoccupied),
        ]
    );
    assert_partition(&map);
}

#[test]
fn allocate_at_the_start_cuts_two_regions() {
    let mut map = AddressMap::new();
    assert_eq!(map.allocate(span(0, 0x2000), backing(0x8000_0000, 2), AddressRegionKind::Text), Ok(()));
    assert_eq!(
        layout(&map),
        vec![
            (0, 0x2000, true, AddressRegionKind::Text),
            (0x2000, USERSPACE_END, false, AddressRegionKind::Unoccupied),
        ]
    );
    assert_partition(&map);
}

#[test]
fn allocate_at_the_end_cuts_two_regions() {
    let mut map = AddressMap::new();
    let start = USERSPACE_END - 0x1000;
    assert_eq!(map.allocate(span(start, USERSPACE_END), backing(0x8000_0000, 1), AddressRegionKind::Tls), Ok(()));
    assert_eq!(
        layout(&map),
        vec![
            (0, start, false, AddressRegionKind::Unoccupied),
            (start, USERSPACE_END, true, AddressRegionKind::Tls),
        ]
    );
    assert_partition(&map);
}

#[test]
fn allocate_the_whole_range_leaves_one_region() {
    let mut map = AddressMap::new();
    assert_eq!(
        map.allocate(span(USERSPACE_START, USERSPACE_END), backing(0, 1), AddressRegionKind::Data),
        Ok(())
    );
    assert_eq!(layout(&map), vec![(0, USERSPACE_END, true, AddressRegionKind::Data)]);
    assert_partition(&map);
    assert_eq!(map.unoccupied_regions().len(), 0);
}

#[test]
fn allocate_fills_a_hole_exactly() {
    let mut map = AddressMap::new();
    assert!(map.allocate(span(0x1000, 0x2000), backing(0x1000, 1), AddressRegionKind::Data).is_ok());
    assert!(map.allocate(span(0x3000, 0x4000), backing(0x2000, 1), AddressRegionKind::Data).is_ok());
    assert!(map.allocate(span(0x2000, 0x3000), backing(0x3000, 1), AddressRegionKind::Guard).is_ok());
    assert_eq!(
        layout(&map),
        vec![
            (0, 0x1000, false, AddressRegionKind::Unoccupied),
            (0x1000, 0x2000, true, AddressRegionKind::Data),
            (0x2000, 0x3000, true, AddressRegionKind::Guard),
            (0x3000, 0x4000, true, AddressRegionKind::Data),
            (0x4000, USERSPACE_END, false, AddressRegionKind::Unoccupied),
        ]
    );
    assert_partition(&map);
}

#[test]
fn allocate_then_free_returns_the_backing_and_the_map() {
    let mut map = AddressMap::new();
    assert!(map.allocate(span(0x10000, 0x20000), backing(0x9000_0000, 16), AddressRegionKind::Data).is_ok());
    let before = layout(&map);
    assert!(map.allocate(span(0x40000, 0x48000), backing(0x8000_0000, 8), AddressRegionKind::Channel).is_ok());
    let freed = map.free(span(0x40000, 0x48000));
    assert_eq!(freed, Ok(backing(0x8000_0000, 8)));
    assert_eq!(layout(&map), before);
    assert_partition(&map);
}

#[test]
fn allocate_then_free_round_trips_next_to_occupied_regions() {
    let mut map = AddressMap::new();
    assert!(map.allocate(span(0x1000, 0x2000), backing(0x1000, 1), AddressRegionKind::Data).is_ok());
    assert!(map.allocate(span(0x5000, 0x6000), backing(0x2000, 1), AddressRegionKind::Data).is_ok());
    let before = layout(&map);
    for (start, end) in [(0x2000, 0x5000), (0x2000, 0x3000), (0x4000, 0x5000), (0x3000, 0x4000)] {
        assert!(map.allocate(span(start, end), backing(0x7000, 3), AddressRegionKind::UserAllocated).is_ok());
        assert_partition(&map);
        assert_eq!(map.free(span(start, end)), Ok(backing(0x7000, 3)));
        assert_eq!(layout(&map), before);
    }
}

#[test]
fn a_stack_allocated_and_freed_leaves_one_region() {
    let mut map = AddressMap::new();
    assert_eq!(map.allocate(span(0x1000, 0x3000), backing(0x8000_0000, 2), AddressRegionKind::Stack), Ok(()));
    assert_eq!(map.free(span(0x1000, 0x3000)), Ok(backing(0x8000_0000, 2)));
    assert_eq!(
        layout(&map),
        vec![(USERSPACE_START, USERSPACE_END, false, AddressRegionKind::Unoccupied)]
    );
}

#[test]
fn freeing_the_first_of_two_adjacent_regions_keeps_the_second() {
    let mut map = AddressMap::new();
    assert_eq!(map.allocate(span(0x1000, 0x2000), backing(0x8000_0000, 1), AddressRegionKind::Data), Ok(()));
    assert_eq!(map.allocate(span(0x2000, 0x3000), backing(0x8000_1000, 1), AddressRegionKind::Data), Ok(()));
    assert_eq!(map.free(span(0x1000, 0x2000)), Ok(backing(0x8000_0000, 1)));
    assert_eq!(
        layout(&map),
        vec![
            (0, 0x2000, false, AddressRegionKind::Unoccupied),
            (0x2000, 0x3000, true, AddressRegionKind::Data),
            (0x3000, USERSPACE_END, false, AddressRegionKind::Unoccupied),
        ]
    );
    let occupied = map.occupied_regions();
    assert_eq!(occupied.len(), 1);
    assert_eq!(occupied[0].region, Some(backing(0x8000_1000, 1)));
}

#[test]
fn freeing_between_two_occupied_regions_leaves_a_hole() {
    let mut map = AddressMap::new();
    assert!(map.allocate(span(0, 0x1000), backing(0x1000, 1), AddressRegionKind::Text).is_ok());
    assert!(map.allocate(span(0x1000, 0x2000), backing(0x2000, 1), AddressRegionKind::Data).is_ok());
    assert!(map.allocate(span(0x2000, 0x3000), backing(0x3000, 1), AddressRegionKind::Data).is_ok());
    assert_eq!(map.free(span(0x1000, 0x2000)), Ok(backing(0x2000, 1)));
    assert_eq!(
        layout(&map),
        vec![
            (0, 0x1000, true, AddressRegionKind::Text),
            (0x1000, 0x2000, false, AddressRegionKind::Unoccupied),
            (0x2000, 0x3000, true, AddressRegionKind::Data),
            (0x3000, USERSPACE_END, false, AddressRegionKind::Unoccupied),
        ]
    );
}

#[test]
fn free_merges_with_both_neighbours() {
    let mut map = AddressMap::new();
    assert!(map.allocate(span(0x1000, 0x2000), backing(0x1000, 1), AddressRegionKind::Data).is_ok());
    assert!(map.allocate(span(0x2000, 0x3000), backing(0x2000, 1), AddressRegionKind::Data).is_ok());
    assert!(map.allocate(span(0x3000, 0x4000), backing(0x3000, 1), AddressRegionKind::Data).is_ok());
    assert!(map.free(span(0x1000, 0x2000)).is_ok());
    assert!(map.free(span(0x3000, 0x4000)).is_ok());
    assert_eq!(
        layout(&map),
        vec![
            (0, 0x2000, false, AddressRegionKind::Unoccupied),
            (0x2000, 0x3000, true, AddressRegionKind::Data),
            (0x3000, USERSPACE_END, false, AddressRegionKind::Unoccupied),
        ]
    );
    assert!(map.free(span(0x2000, 0x3000)).is_ok());
    assert_eq!(
        layout(&map),
        vec![(USERSPACE_START, USERSPACE_END, false, AddressRegionKind::Unoccupied)]
    );
}

#[test]
fn free_at_the_start_of_the_userspace_merges_forward() {
    let mut map = AddressMap::new();
    assert!(map.allocate(span(0, 0x1000), backing(0x1000, 1), AddressRegionKind::Data).is_ok());
    assert_eq!(map.free(span(0, 0x1000)), Ok(backing(0x1000, 1)));
    assert_eq!(
        layout(&map),
        vec![(USERSPACE_START, USERSPACE_END, false, AddressRegionKind::Unoccupied)]
    );
}

#[test]
fn free_at_the_end_of_the_userspace_merges_backward() {
    let mut map = AddressMap::new();
    let start = USERSPACE_END - 0x2000;
    assert!(map.allocate(span(start, USERSPACE_END), backing(0x1000, 2), AddressRegionKind::Data).is_ok());
    assert_eq!(map.free(span(start, USERSPACE_END)), Ok(backing(0x1000, 2)));
    assert_eq!(
        layout(&map),
        vec![(USERSPACE_START, USERSPACE_END, false, AddressRegionKind::Unoccupied)]
    );
}

#[test]
fn freeing_in_either_order_gives_the_same_partition() {
    let build = || {
        let mut map = AddressMap::new();
        assert!(map.allocate(span(0x1000, 0x2000), backing(0x1000, 1), AddressRegionKind::Data).is_ok());
        assert!(map.allocate(span(0x2000, 0x4000), backing(0x2000, 2), AddressRegionKind::Stack).is_ok());
        assert!(map.allocate(span(0x4000, 0x5000), backing(0x4000, 1), AddressRegionKind::Text).is_ok());
        assert!(map.allocate(span(0x8000, 0x9000), backing(0x5000, 1), AddressRegionKind::Tls).is_ok());
        map
    };
    let pairs = [
        ((0x1000, 0x2000), (0x2000, 0x4000)),
        ((0x2000, 0x4000), (0x4000, 0x5000)),
        ((0x1000, 0x2000), (0x4000, 0x5000)),
        ((0x4000, 0x5000), (0x8000, 0x9000)),
    ];
    for (a, b) in pairs {
        let mut first = build();
        assert!(first.free(span(a.0, a.1)).is_ok());
        assert_partition(&first);
        assert!(first.free(span(b.0, b.1)).is_ok());
        let mut second = build();
        assert!(second.free(span(b.0, b.1)).is_ok());
        assert_partition(&second);
        assert!(second.free(span(a.0, a.1)).is_ok());
        assert_eq!(layout(&first), layout(&second));
        assert_partition(&first);
    }
}

#[test]
fn allocate_over_an_occupied_region_fails_and_changes_nothing() {
    let mut map = AddressMap::new();
    assert!(map.allocate(span(0x2000, 0x4000), backing(0x1000, 2), AddressRegionKind::Data).is_ok());
    let before = layout(&map);
    let overlapping = [
        (0x2000, 0x4000),
        (0x1000, 0x3000),
        (0x3000, 0x5000),
        (0x2800, 0x3000),
        (0x1000, 0x5000),
        (0x3fff, 0x4001),
        (0x1fff, 0x2001),
        (0, USERSPACE_END),
    ];
    for (start, end) in overlapping {
        assert_eq!(
            map.allocate(span(start, end), backing(0x9000, 1), AddressRegionKind::UserAllocated),
            Err(())
        );
        assert_eq!(layout(&map), before);
    }
    assert_eq!(map.occupied_regions()[0].region, Some(backing(0x1000, 2)));
}

#[test]
fn allocate_beyond_the_userspace_fails() {
    let mut map = AddressMap::new();
    let before = layout(&map);
    assert_eq!(
        map.allocate(span(USERSPACE_END - 0x1000, USERSPACE_END + 1), backing(0, 1), AddressRegionKind::Data),
        Err(())
    );
    assert_eq!(
        map.allocate(span(USERSPACE_END, USERSPACE_END + 0x1000), backing(0, 1), AddressRegionKind::Data),
        Err(())
    );
    assert_eq!(
        map.allocate(span(0xFFFF_FFC0_0000_0000, 0xFFFF_FFC0_0000_1000), backing(0, 1), AddressRegionKind::Data),
        Err(())
    );
    assert_eq!(layout(&map), before);
}

#[test]
fn allocate_next_to_an_occupied_region_succeeds() {
    let mut map = AddressMap::new();
    assert!(map.allocate(span(0x2000, 0x4000), backing(0x1000, 2), AddressRegionKind::Data).is_ok());
    assert!(map.allocate(span(0x4000, 0x5000), backing(0x3000, 1), AddressRegionKind::Data).is_ok());
    assert!(map.allocate(span(0x1000, 0x2000), backing(0x4000, 1), AddressRegionKind::Data).is_ok());
    assert_partition(&map);
    assert_eq!(map.occupied_regions().len(), 3);
}

#[test]
fn free_needs_the_exact_span_of_an_occupied_region() {
    let mut map = AddressMap::new();
    assert!(map.allocate(span(0x2000, 0x4000), backing(0x1000, 2), AddressRegionKind::Data).is_ok());
    let before = layout(&map);
    let wrong = [
        (0x2000, 0x3000),
        (0x3000, 0x4000),
        (0x1000, 0x4000),
        (0x2000, 0x5000),
        (0x2800, 0x3000),
        (0, 0x2000),
        (0x4000, USERSPACE_END),
        (0x5000, 0x6000),
        (0x4000, 0x2000),
        (0x2000, 0x2000),
        (USERSPACE_END, USERSPACE_END + 0x1000),
        (0, u64::MAX),
    ];
    for (start, end) in wrong {
        assert_eq!(map.free(span(start, end)), Err(()));
        assert_eq!(layout(&map), before);
    }
    assert_eq!(map.free(span(0x2000, 0x4000)), Ok(backing(0x1000, 2)));
    assert_eq!(map.free(span(0x2000, 0x4000)), Err(()));
}

#[test]
fn free_of_an_unoccupied_region_fails() {
    let mut map = AddressMap::new();
    assert_eq!(map.free(span(USERSPACE_START, USERSPACE_END)), Err(()));
    assert_eq!(
        layout(&map),
        vec![(USERSPACE_START, USERSPACE_END, false, AddressRegionKind::Unoccupied)]
    );
}

#[test]
fn find_gives_the_first_region_that_ends_at_or_after_the_address() {
    let mut map = AddressMap::new();
    assert!(map.allocate(span(0x1000, 0x3000), backing(0x1000, 2), AddressRegionKind::Stack).is_ok());
    let found = |map: &AddressMap, address: u64| {
        map.find(VirtualAddress::new(address)).map(|r| (r.span.start.as_u64(), r.span.end.as_u64(), r.kind))
    };
    assert_eq!(found(&map, 0), Some((0, 0x1000, AddressRegionKind::Unoccupied)));
    assert_eq!(found(&map, 0x800), Some((0, 0x1000, AddressRegionKind::Unoccupied)));
    assert_eq!(found(&map, 0x1000), Some((0, 0x1000, AddressRegionKind::Unoccupied)));
    assert_eq!(found(&map, 0x1001), Some((0x1000, 0x3000, AddressRegionKind::Stack)));
    assert_eq!(found(&map, 0x2fff), Some((0x1000, 0x3000, AddressRegionKind::Stack)));
    assert_eq!(found(&map, 0x3000), Some((0x1000, 0x3000, AddressRegionKind::Stack)));
    assert_eq!(found(&map, 0x3001), Some((0x3000, USERSPACE_END, AddressRegionKind::Unoccupied)));
    assert_eq!(found(&map, USERSPACE_END), Some((0x3000, USERSPACE_END, AddressRegionKind::Unoccupied)));
    assert_eq!(found(&map, USERSPACE_END + 1), None);
    assert_eq!(found(&map, u64::MAX), None);
}

#[test]
fn the_map_stays_a_partition_through_many_operations() {
    let mut map = AddressMap::new();
    let mut held: Vec<(u64, u64)> = Vec::new();
    let mut seed: u64 = 0x2545_F491_4F6C_DD1D;
    for round in 0..400u64 {
        seed ^= seed << 13;
        seed ^= seed >> 7;
        seed ^= seed << 17;
        let page = (seed >> 8) % 64;
        let pages = 1 + (seed >> 20) % 4;
        let start = page * 0x1000;
        let end = start + pages * 0x1000;
        if seed % 3 == 0 && !held.is_empty() {
            let at = (seed >> 32) as usize % held.len();
            let (s, e) = held.remove(at);
            assert_eq!(map.free(span(s, e)), Ok(backing(s, (e - s) / 0x1000)));
        } else {
            let free = held.iter().all(|&(s, e)| e <= start || end <= s);
            let done = map.allocate(span(start, end), backing(start, pages), AddressRegionKind::Data);
            assert_eq!(done.is_ok(), free, "round {}", round);
            if free {
                held.push((start, end));
            }
        }
        assert_partition(&map);
        let mut expected = held.clone();
        expected.sort();
        let occupied: Vec<(u64, u64)> = map
            .occupied_regions()
            .iter()
            .map(|r| (r.span.start.as_u64(), r.span.end.as_u64()))
            .collect();
        assert_eq!(occupied, expected);
    }
}

#[test]
fn regions_know_their_page_size() {
    let region = MemoryRegion::new(PhysicalAddress::new(0x8020_0000), 4, PageSize::Megapage);
    assert_eq!(region.page_size(), PageSize::Megapage);
    assert_eq!(PageSize::Kilopage.to_byte_size(), 4096);
    assert_eq!(PageSize::Megapage.to_byte_size(), 2 * 1024 * 1024);
    assert_eq!(PageSize::Gigapage.to_byte_size(), 1024 * 1024 * 1024);
}

#[test]
fn addresses_split_into_table_indices() {
    let va = VirtualAddress::new(0x12_3456_7abc);
    let expected = [
        (0x12_3456_7abcu64 >> 12) & 0x1ff,
        (0x12_3456_7abcu64 >> 21) & 0x1ff,
        (0x12_3456_7abcu64 >> 30) & 0x1ff,
    ];
    assert_eq!(va.vpns(), expected);
    assert_eq!(VirtualAddress::new(0xFFFF_FFC0_0000_0000).vpns()[2], 256);
    assert_eq!(VirtualAddress::new(0x40_0000_0000 - 1).vpns(), [511, 511, 255]);
}

#[test]
fn offsets_do_not_wrap() {
    let va = VirtualAddress::new(0x1000);
    assert_eq!(va.offset(0x234).as_u64(), 0x1234);
    assert_eq!(va.checked_offset(0x234), Some(VirtualAddress::new(0x1234)));
    assert_eq!(VirtualAddress::new(u64::MAX).checked_offset(1), None);
    assert_eq!(VirtualAddress::new(u64::MAX - 1).checked_offset(1), Some(VirtualAddress::new(u64::MAX)));
    assert_eq!(VirtualAddress::new(1).checked_offset(u64::MAX), None);
}

#[test]
fn the_kernel_half_starts_where_it_says() {
    assert!(!VirtualAddress::new(0).is_kernel_region());
    assert!(!VirtualAddress::new(USERSPACE_END).is_kernel_region());
    assert!(!VirtualAddress::new(0xFFFF_FFBF_FFFF_FFFF).is_kernel_region());
    assert!(VirtualAddress::new(0xFFFF_FFC0_0000_0000).is_kernel_region());
    assert!(VirtualAddress::new(u64::MAX).is_kernel_region());
    let range = VirtualAddress::userspace_range();
    assert_eq!((range.start.as_u64(), range.end.as_u64()), (0, USERSPACE_END));
    assert_eq!(PhysicalAddress::new(0x8020_3456).ppn(), 0x8_0203);
}
