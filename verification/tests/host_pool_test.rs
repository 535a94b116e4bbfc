use pesim_rs::memory::dram_tracker::dram_tracker;
use pesim_rs::memory::mem_portal::{dram_portal, dram_req, portal_mode};
use pesim_rs::sim_engine::host_pool::{complete_quantum_request, host_pool};
use std::collections::HashSet;

fn host(addr: u64) -> dram_req {
    dram_req::new(addr, true, false)
}

#[test]
fn reverse_submission_preserves_fifo_issue_order() {
    let mut pool = host_pool::new();
    pool.enqueue_host_mem_request(host(0x40));
    pool.enqueue_host_mem_request(host(0x80));
    pool.enqueue_host_mem_request(host(0xc0));
    let mut port = dram_portal::new();
    port.set_mode(portal_mode::HOST);
    pool.submit_all_host_requests(&mut port);
    assert!(pool.is_empty());
    assert_eq!(port.get_one_req(), Some(host(0x40)));
    assert_eq!(port.get_one_req(), Some(host(0x80)));
    assert_eq!(port.get_one_req(), Some(host(0xc0)));
    assert_eq!(port.get_one_req(), None);
}

#[test]
fn fgo_issues_the_oldest_host_request() {
    let mut pool = host_pool::new();
    pool.enqueue_host_mem_request(host(0x40));
    pool.enqueue_host_mem_request(host(0x80));
    let mut port = dram_portal::new();
    port.set_mode(portal_mode::HOST);
    pool.issue_oldest(&mut port);
    assert_eq!(pool.len(), 1);
    assert_eq!(port.get_one_req(), Some(host(0x40)));
    assert_eq!(port.get_one_req(), None);
}

#[test]
fn a_host_quantum_numbers_and_records_its_requests_in_order() {
    let mut pool = host_pool::new();
    let mut with_id = host(0x100);
    with_id.set_id(77);
    pool.enqueue_host_mem_request(host(0x40));
    pool.enqueue_host_mem_request(with_id);
    pool.enqueue_host_mem_request(host(0x80));
    let mut tracker = dram_tracker::new(0, 0, 0, 0);
    let mut ids = HashSet::new();
    let mut port = dram_portal::new();
    port.set_mode(portal_mode::HOST);
    pool.issue_quantum(2, &mut tracker, &mut ids, &mut port);
    assert_eq!(pool.len(), 1);
    let first = port.get_one_req().unwrap();
    assert_eq!(first.addr, 0x40);
    assert_eq!(first.id, Some(0));
    assert_eq!(port.get_one_req(), Some(with_id));
    assert_eq!(port.get_one_req(), None);
    assert_eq!(ids, HashSet::from([0, 77]));
    complete_quantum_request(&mut ids, &first);
    assert_eq!(ids, HashSet::from([77]));
    complete_quantum_request(&mut ids, &host(0x40));
    assert_eq!(ids.len(), 1);
}
