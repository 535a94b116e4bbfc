use pesim_rs::sim_engine::engine_alloc::{PSEUDO_BANKS_PER_LOGICAL_BANK, engine_alloc};
use pesim_rs::sim_engine::sim::engine_cfg;

#[test]
fn allocation_uses_only_configured_coordinate_ranges() {
    let mut allocator = engine_alloc::new(1..3, 2..4, 3..5, 4..6);

    let allocated = allocator.alloc_cgo(1);

    assert_eq!(allocated.len(), 16 * PSEUDO_BANKS_PER_LOGICAL_BANK as usize);
    assert!(allocated.contains(&engine_cfg::CGO {
        ch: 1,
        ra: 2,
        bg: 3,
        ba: 4,
        pb: 0,
    }));
    assert!(allocated.contains(&engine_cfg::CGO {
        ch: 2,
        ra: 3,
        bg: 4,
        ba: 5,
        pb: PSEUDO_BANKS_PER_LOGICAL_BANK - 1,
    }));
    assert!(!allocated.contains(&engine_cfg::CGO {
        ch: 0,
        ra: 2,
        bg: 3,
        ba: 4,
        pb: 0,
    }));
}

#[test]
fn allocation_kind_is_exclusive_even_for_the_same_asid() {
    let mut allocator = engine_alloc::new(0..1, 0..1, 0..1, 1..2);

    assert_eq!(
        allocator.alloc_fgo(7).len(),
        PSEUDO_BANKS_PER_LOGICAL_BANK as usize
    );
    assert!(allocator.alloc_cgo(7).is_empty());
    assert_eq!(
        allocator.alloc_fgo(7).len(),
        PSEUDO_BANKS_PER_LOGICAL_BANK as usize
    );
}
