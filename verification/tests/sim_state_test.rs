use pesim_rs::memory::mem_portal::dram_req;
use pesim_rs::sim_engine::engine::EngineSchedulingMode;
use pesim_rs::sim_engine::engine_alloc::{PHY_BANK_SZ, PSEUDO_BANK_CACHELINES, PSEUDO_BANKS_PER_LOGICAL_BANK};
use pesim_rs::sim_engine::request_router::{PIM_CMD_PAGE_BASE, PIM_CMD_SLOT_SIZE, OP_CGO_QUERY, OP_CGO_START, pim_cmd};
use pesim_rs::sim_engine::sim::{SimMode, engine_cfg};
use pesim_rs::sim_engine::sim_state::{
    PIM_CMD_PAYLOAD_SIZE_BYTES, SimConfig, alloc_modes, burst_size, completion_queues, completion_route, contains_addr,
    decode_pim_cmd_request, engine_slots, pending_pim_cmds, pim_prefix_addrs, pim_prefix_locations, pim_progress_word,
    queue_size, validate_sim_config,
};
use pesim_rs::sim_engine::tick_shards::{
    controller_engine_worker_limit, fixed_worker_count, shard_plan, smt_aware_engine_worker_limit,
};

fn cgo(pb: u64) -> engine_cfg {
    engine_cfg::CGO { ch: 0, ra: 0, bg: 0, ba: 1, pb }
}

fn fgo(pb: u64) -> engine_cfg {
    engine_cfg::FGO { ch: 0, ra: 0, bg: 0, ba: 1, pb }
}

fn with_id(addr: u64, id: u64) -> dram_req {
    let mut r = dram_req::new(addr, false, false);
    r.set_id(id);
    r
}

#[test]
fn worker_limit_reserves_a_fifth_of_the_hardware_threads() {
    assert_eq!(smt_aware_engine_worker_limit(16), 12);
    assert_eq!(smt_aware_engine_worker_limit(10), 8);
    assert_eq!(smt_aware_engine_worker_limit(1), 1);
    assert_eq!(smt_aware_engine_worker_limit(0), 1);
    assert_eq!(smt_aware_engine_worker_limit(usize::MAX), usize::MAX / 5);
}

#[test]
fn two_equal_controllers_split_the_budget_with_the_odd_worker_to_the_first() {
    assert_eq!(controller_engine_worker_limit(9, 0, 4, 4), 4);
    assert_eq!(controller_engine_worker_limit(9, 1, 4, 4), 3);
    assert_eq!(controller_engine_worker_limit(9, 7, 4, 4), 3);
    assert_eq!(controller_engine_worker_limit(9, 1, 2, 4), 7);
    assert_eq!(controller_engine_worker_limit(1, 1, 4, 4), 1);
}

#[test]
fn fixed_workers_never_exceed_the_engines() {
    assert_eq!(fixed_worker_count(8, 0), 0);
    assert_eq!(fixed_worker_count(8, 3), 3);
    assert_eq!(fixed_worker_count(0, 3), 1);
    assert_eq!(fixed_worker_count(2, 3), 2);
}

#[test]
fn engines_are_dealt_round_robin_onto_shards() {
    let cfgs = vec![cgo(0), cgo(1), cgo(2), cgo(3), cgo(4)];
    let (shards, locations) = shard_plan(&cfgs, 2);
    assert_eq!(shards, vec![vec![cgo(0), cgo(2), cgo(4)], vec![cgo(1), cgo(3)]]);
    assert_eq!(locations, vec![(0, 0), (1, 0), (0, 1), (1, 1), (0, 2)]);
}

#[test]
fn completions_come_from_immediate_then_timing_model_then_engines() {
    let mut q = completion_queues::new();
    assert!(!q.hasComplete(SimMode::Pim));
    q.engine_comp_queue.push(with_id(0x300, 3));
    assert!(q.hasComplete(SimMode::Pim));
    assert!(!q.hasComplete(SimMode::Host));
    q.immediate_complete_next.push(with_id(0x100, 1));
    q.settle_tick(vec![with_id(0x200, 2), with_id(0x280, 4)], &vec![false, true]);
    assert!(q.immediate_complete_next.is_empty());
    assert_eq!(q.getComplete(), Some(with_id(0x100, 1)));
    assert_eq!(q.getComplete(), Some(with_id(0x200, 2)));
    assert_eq!(q.getComplete(), Some(with_id(0x300, 3)));
    assert_eq!(q.getComplete(), None);
}

#[test]
fn a_broadcast_command_retires_on_its_last_engine() {
    let mut p = pending_pim_cmds::new();
    let req = with_id(PIM_CMD_PAGE_BASE, 9);
    p.register(9, req, pim_cmd::CgoStart, 2, true);
    assert!(p.contains(9));
    assert_eq!(p.route_completion(req, true), completion_route::Counted);
    assert_eq!(p.route_completion(req, true), completion_route::Retired(Some(req)));
    assert!(!p.contains(9));
    assert_eq!(p.route_completion(req, true), completion_route::Ordinary(req));
}

#[test]
fn only_pending_host_commands_are_counted() {
    let mut p = pending_pim_cmds::new();
    let req = with_id(0x40, 5);
    p.register(5, req, pim_cmd::CgoStart, 1, false);
    assert_eq!(p.route_completion(req, false), completion_route::Ordinary(req));
    assert_eq!(p.route_completion(dram_req::new(0x40, false, false), true), completion_route::Ordinary(dram_req::new(0x40, false, false)));
    assert_eq!(p.route_completion(req, true), completion_route::Retired(None));
}

#[test]
fn a_pseudo_bank_takes_one_engine() {
    let mut s = engine_slots::new();
    assert_eq!(s.can_add(cgo(3)), Ok(()));
    s.add_engines(cgo(3));
    assert_eq!(s.len(), 1);
    assert_eq!(s.can_add(cgo(3)), Err("Cannot add engine with given cfg: already existed"));
    assert_eq!(
        s.can_add(fgo(3)),
        Err("Cannot add engine: pseudo bank is already owned by another processor type")
    );
    s.add_engines(fgo(4));
    assert!(s.contains_key(fgo(4)));
    assert!(!s.contains_key(cgo(4)));
}

#[test]
fn an_address_finds_the_engine_of_its_pseudo_bank() {
    let mut s = engine_slots::new();
    s.add_engines(cgo(3));
    s.add_engines(fgo(4));
    assert_eq!(s.get_engine_cfg(0, 0, 0, 1, 3 * PSEUDO_BANK_CACHELINES + 7), Some(cgo(3)));
    assert_eq!(s.get_engine_cfg(0, 0, 0, 1, 4 * PSEUDO_BANK_CACHELINES), Some(fgo(4)));
    assert_eq!(s.get_engine_cfg(0, 0, 0, 1, 5 * PSEUDO_BANK_CACHELINES), None);
    assert_eq!(s.get_engine_cfg(0, 0, 0, 2, 3 * PSEUDO_BANK_CACHELINES), None);
    assert_eq!(s.get_engine_cfg(0, 0, 0, 1, PSEUDO_BANKS_PER_LOGICAL_BANK * PSEUDO_BANK_CACHELINES), None);
}

#[test]
fn controller_configuration_is_checked_in_order() {
    assert_eq!(validate_sim_config(u64::MAX, 1, 0, 1, 1), Err("controller address range overflow"));
    assert_eq!(validate_sim_config(0, 8, 0, 4, 1), Err("DRAMSim3 capacity is smaller than controller range"));
    assert_eq!(
        validate_sim_config(0, 8, 0, 8, 2),
        Err("each gem5 PESim controller must use a one-channel DRAMSim3 configuration")
    );
    assert_eq!(
        validate_sim_config(0, 4 * PHY_BANK_SZ, PHY_BANK_SZ + 1, 4 * PHY_BANK_SZ, 1),
        Err("PIM region must be 64 MiB engine aligned")
    );
    assert_eq!(
        validate_sim_config(0, PHY_BANK_SZ, 2 * PHY_BANK_SZ, 4 * PHY_BANK_SZ, 1),
        Err("PIM region cannot exceed the controller range")
    );
    assert_eq!(validate_sim_config(0, 4 * PHY_BANK_SZ, 2 * PHY_BANK_SZ, 4 * PHY_BANK_SZ, 1), Ok(()));
    assert_eq!(validate_sim_config(0, 8, 0, 8, 1), Ok(()));
}

#[test]
fn the_pim_region_is_walked_one_physical_bank_at_a_time() {
    assert_eq!(pim_prefix_addrs(0x1000, 3 * PHY_BANK_SZ), vec![0x1000, 0x1000 + PHY_BANK_SZ, 0x1000 + 2 * PHY_BANK_SZ]);
    assert_eq!(pim_prefix_addrs(0x1000, 0), Vec::<u64>::new());
}

#[test]
fn pim_region_locations_must_be_distinct_pseudo_banks_of_one_logical_bank() {
    let ok = pim_prefix_locations(&vec![(0, 0, 0, 1, 0), (0, 0, 0, 1, PSEUDO_BANK_CACHELINES)]).unwrap();
    assert_eq!(ok.len(), 2);
    assert_eq!(ok[1].pb, 1);
    assert_eq!(
        pim_prefix_locations(&vec![(0, 0, 0, 1, 0), (0, 0, 0, 1, 5)]),
        Err("PIM prefix mapped two addresses to the same engine")
    );
    assert_eq!(
        pim_prefix_locations(&vec![(0, 0, 0, 1, PSEUDO_BANKS_PER_LOGICAL_BANK * PSEUDO_BANK_CACHELINES)]),
        Err("decoded pseudo-bank index is outside one logical bank")
    );
}

#[test]
fn pim_command_requests_are_checked_before_decoding() {
    let payload = [0u64; 8];
    let start = PIM_CMD_PAGE_BASE + OP_CGO_START * PIM_CMD_SLOT_SIZE;
    let query = PIM_CMD_PAGE_BASE + OP_CGO_QUERY * PIM_CMD_SLOT_SIZE;
    assert_eq!(
        decode_pim_cmd_request(SimMode::Host, start, &payload, PIM_CMD_PAYLOAD_SIZE_BYTES, true),
        Err("PIM command sent to a non-PIM controller")
    );
    assert_eq!(
        decode_pim_cmd_request(SimMode::Pim, start, &payload, 64, true),
        Err("PIM command payload must be eight bytes")
    );
    assert_eq!(decode_pim_cmd_request(SimMode::Pim, start, &payload, 8, true), Ok(pim_cmd::CgoStart));
    assert_eq!(decode_pim_cmd_request(SimMode::Pim, query, &payload, 8, false), Ok(pim_cmd::CgoQuery));
    assert_eq!(
        decode_pim_cmd_request(SimMode::Pim, query, &payload, 8, true),
        Err("PIM command access direction does not match command opcode")
    );
    assert_eq!(
        decode_pim_cmd_request(SimMode::Pim, 0x40, &payload, 8, true),
        Err("address is not inside the PIM command page")
    );
}

#[test]
fn allocation_modes_follow_the_scenario_and_cgo_modes_only() {
    let mut m = alloc_modes::new(false);
    assert_eq!(m.cgo, EngineSchedulingMode::Host_CGO_share);
    assert_eq!(m.fgo, EngineSchedulingMode::Host_FGO_share);
    assert_eq!(m.set_cgo_alloc_scheduling_mode(EngineSchedulingMode::CGO_only), Ok(()));
    assert_eq!(m.cgo, EngineSchedulingMode::CGO_only);
    assert_eq!(
        m.set_cgo_alloc_scheduling_mode(EngineSchedulingMode::Host_FGO_share),
        Err("CGO allocation scheduling mode must target CGO engines")
    );
    assert_eq!(m.cgo, EngineSchedulingMode::CGO_only);
    let s = alloc_modes::new(true);
    assert_eq!(s.cgo, EngineSchedulingMode::Sequential);
    assert_eq!(s.fgo, EngineSchedulingMode::Sequential);
}

#[test]
fn small_controller_formulas() {
    assert_eq!(pim_progress_word(3, 2), (3u64 << 32) | 2);
    assert_eq!(burst_size(64, 8), 64);
    assert_eq!(burst_size(-8, 8), 0);
    assert_eq!(burst_size(i32::MAX, i32::MAX), u32::MAX);
    assert_eq!(queue_size(-1), 0);
    assert_eq!(queue_size(32), 32);
    assert!(contains_addr(0x100, 0x100, 0x1ff));
    assert!(!contains_addr(0x100, 0x100, 0x200));
    assert!(!contains_addr(0x100, 0x100, 0xff));
}

#[test]
fn a_configuration_knows_its_mode_range_and_workers() {
    let cfg = SimConfig {
        config_file: std::path::PathBuf::from("DDR4_8Gb_x4_2400_pim.ini"),
        output_dir: std::path::PathBuf::from("output"),
        controller_id: 1,
        controller_base: 0x8000_0000,
        controller_size: 8 * 1024 * 1024 * 1024,
        pim_size: 2 * 1024 * 1024 * 1024,
    };
    assert_eq!(cfg.sim_mode(), SimMode::Pim);
    assert!(cfg.contains_addr(0x8000_0000));
    assert!(!cfg.contains_addr(0x7fff_ffff));
    assert_eq!(cfg.engine_worker_limit(10), 8);
    assert_eq!(cfg.validate(8 * 1024 * 1024 * 1024, 1), Ok(()));
    assert_eq!(cfg.validate(8 * 1024 * 1024 * 1024, 2), Err("each gem5 PESim controller must use a one-channel DRAMSim3 configuration"));
    let host = SimConfig { pim_size: 0, ..cfg };
    assert_eq!(host.sim_mode(), SimMode::Host);
}
