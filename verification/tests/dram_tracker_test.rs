use pesim_rs::memory::dram_tracker::{dram_tracker, dramsim3_mem_event, local_addr_bulk, timing_target};
use pesim_rs::memory::mem_portal::dram_req;
use pesim_rs::sim_engine::engine_alloc::PSEUDO_BANK_CACHELINES;

fn ev(addr: u64, is_write: bool) -> dramsim3_mem_event {
    dramsim3_mem_event { time: 0, addr, is_write }
}

fn with_id(addr: u64, is_read: bool, id: u64) -> dram_req {
    let mut req = dram_req::new(addr, is_read, false);
    req.set_id(id);
    req
}

#[test]
fn request_ids_count_up_from_zero() {
    let mut t = dram_tracker::new(0, 0, 0, 0);
    assert_eq!(t.get_req_id(), 0);
    assert_eq!(t.get_req_id(), 1);
    assert_eq!(t.get_req_id(), 2);
}

#[test]
fn pseudo_bank_base_is_added_to_pim_timing_addresses() {
    let pseudo_bank = 3;
    let t = dram_tracker::new_for_pseudo_bank(
        0,
        0,
        0,
        2,
        pseudo_bank,
        pseudo_bank * PSEUDO_BANK_CACHELINES,
        PSEUDO_BANK_CACHELINES,
        0,
    );
    assert!(t.can_place(0, true));
    assert_eq!(
        t.request_addr_to_dram_addr(0, true),
        timing_target::PimBankLocal(local_addr_bulk {
            channel: 0,
            rank: 0,
            bank_group: 0,
            bank: 2,
            row: 0,
            column: 0,
            global_addr: 0,
            bank_local_addr: pseudo_bank * PSEUDO_BANK_CACHELINES,
        })
    );
    assert!(!t.can_place(PSEUDO_BANK_CACHELINES, true));
}

#[test]
fn host_addresses_are_relative_to_the_controller_base() {
    let t = dram_tracker::new_with_address_base(1, 0, 0, 0, 0x1000);
    assert!(!t.can_place(0xfff, false));
    assert!(t.can_place(0x1000, false));
    assert_eq!(t.request_addr_to_dram_addr(0x1040, false), timing_target::Host(0x40));
    assert_eq!(t.host_global_addr(0x40), 0x1040);
}

#[test]
fn completions_return_in_issue_order_per_address_and_direction() {
    let mut t = dram_tracker::new(0, 0, 0, 0);
    let a = with_id(0x40, true, 0);
    let b = with_id(0x40, true, 1);
    let c = with_id(0x40, false, 2);
    t.record_issued(0x40, a);
    t.record_issued(0x40, b);
    t.record_issued(0x40, c);
    assert!(!t.is_drained(true));

    let done = t.take_completions(&vec![ev(0x40, true), ev(0x40, false)]).unwrap();
    assert_eq!(done, vec![c, a]);
    let done = t.take_completions(&vec![ev(0x40, false)]).unwrap();
    assert_eq!(done, vec![b]);
    assert!(t.is_drained(true));
    assert!(!t.is_drained(false));
}

#[test]
fn a_completion_with_nothing_in_flight_is_reported() {
    let mut t = dram_tracker::new(0, 0, 0, 0);
    t.record_issued(0x80, with_id(0x80, true, 0));
    assert_eq!(t.take_completions(&vec![ev(0x80, false), ev(0x40, true)]), Err(ev(0x40, true)));
    assert!(t.is_drained(true));
    assert_eq!(t.take_completions(&vec![ev(0x80, true)]), Err(ev(0x80, true)));
}
