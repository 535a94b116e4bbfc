use pesim_rs::PE::types::inst as pe_inst;
use pesim_rs::memory::mem_portal::portal_mode;
use pesim_rs::sim_engine::engine::{
    CgoLifecycle, EngineMode, EngineProcessorKind, EngineSchedulingMode, FGO_RequestState, SwitchPhase,
    admit_error, cgo_obs, cgo_switch_step, cgo_tick, engine_sched, fgo_choice, fgo_obs, processor_tick, sched_action, sched_obs,
    seq_obs,
};
use pesim_rs::sim_engine::engine_alloc::{PSEUDO_BANK_CACHELINES, PSEUDO_BANK_ENTRIES, PSEUDO_BANKS_PER_LOGICAL_BANK};
use pesim_rs::sim_engine::request_router::{OP_NOP, PIM_CMD_PAGE_BASE, PIM_CMD_SLOT_SIZE, decode_pim_cmd, pim_cmd};

fn quiet_fgo() -> fgo_obs {
    fgo_obs { pim_finished: false, pim_ready: false, host_ready: false, host_drained: false, drain_done: true, drained: true }
}

fn quiet_cgo(lifecycle: CgoLifecycle, host_pool_len: u64) -> cgo_obs {
    cgo_obs { lifecycle, host_pool_len, quiesced: true, pause_ready: true }
}

fn quiet_seq() -> seq_obs {
    seq_obs { pim_finished: false, pim_ready: false, host_pool_len: 0, drained: true }
}

#[test]
fn scheduling_configuration_is_one_time_and_processor_checked() {
    let mut cgo = engine_sched::new(EngineProcessorKind::CGO, 0);
    assert_eq!(
        cgo.set_scheduling_mode(EngineSchedulingMode::Host_FGO_share),
        Err("scheduling mode is incompatible with the engine processor")
    );
    cgo.set_scheduling_mode(EngineSchedulingMode::CGO_only).unwrap();
    assert_eq!(
        cgo.set_scheduling_mode(EngineSchedulingMode::Host_CGO_share),
        Err("engine scheduling mode can only be configured once")
    );

    let mut fgo = engine_sched::new(EngineProcessorKind::FGO, 0);
    assert_eq!(
        fgo.set_scheduling_mode(EngineSchedulingMode::CGO_only),
        Err("scheduling mode is incompatible with the engine processor")
    );
    fgo.set_scheduling_mode(EngineSchedulingMode::Host_FGO_share).unwrap();
}

#[test]
fn configuring_unconfigured_is_refused_and_changes_nothing() {
    let mut e = engine_sched::new(EngineProcessorKind::FGO, 4);
    let before = e;
    assert_eq!(
        e.set_scheduling_mode(EngineSchedulingMode::Unconfigured),
        Err("cannot configure an engine with Unconfigured scheduling mode")
    );
    assert_eq!(e, before);
}

#[test]
fn host_sharing_starts_in_host_service_and_others_in_processor_service() {
    let mut cgo = engine_sched::new(EngineProcessorKind::CGO, 0);
    let c = cgo.set_scheduling_mode(EngineSchedulingMode::Host_CGO_share).unwrap();
    assert_eq!(cgo.mode, EngineMode::HOST);
    assert_eq!(c.portal, portal_mode::HOST);
    assert!(!c.pim);
    assert!(cgo.first_host_switch_started);

    let mut fgo = engine_sched::new(EngineProcessorKind::FGO, 0);
    let c = fgo.set_scheduling_mode(EngineSchedulingMode::Host_FGO_share).unwrap();
    assert_eq!(fgo.mode, EngineMode::PIM);
    assert_eq!(c.portal, portal_mode::PIM);
    assert!(c.pim);
}

#[test]
fn plain_switch_stays_in_delay_for_the_near_switch_cycles_in_both_directions() {
    let mut e = engine_sched::new(EngineProcessorKind::FGO, 2);
    e.set_scheduling_mode(EngineSchedulingMode::Host_FGO_share).unwrap();

    assert_eq!(e.switch_legacy(EngineMode::PIM, true, true), None);
    e.mode = e.next_mode;
    for _ in 0..2 {
        assert_eq!(e.switch_legacy(EngineMode::switch_delay, true, true), None);
        e.mode = e.next_mode;
        assert_eq!(e.mode, EngineMode::switch_delay);
    }
    let c = e.switch_legacy(EngineMode::switch_delay, true, true).unwrap();
    e.mode = e.next_mode;
    assert_eq!(e.mode, EngineMode::HOST);
    assert_eq!(c.portal, portal_mode::HOST);
    assert!(!c.pim);
    assert_eq!(e.switch_phase, SwitchPhase::Idle);

    e.switch_legacy(EngineMode::HOST, true, true);
    e.mode = e.next_mode;
    for _ in 0..2 {
        e.switch_legacy(EngineMode::switch_delay, true, true);
        e.mode = e.next_mode;
        assert_eq!(e.mode, EngineMode::switch_delay);
    }
    let c = e.switch_legacy(EngineMode::switch_delay, true, true).unwrap();
    e.mode = e.next_mode;
    assert_eq!(e.mode, EngineMode::PIM);
    assert_eq!(c.portal, portal_mode::PIM);
    assert!(c.pim);
}

#[test]
fn plain_switch_waits_for_the_source_and_the_timing_model() {
    let mut e = engine_sched::new(EngineProcessorKind::FGO, 0);
    e.set_scheduling_mode(EngineSchedulingMode::Host_FGO_share).unwrap();
    e.switch_legacy(EngineMode::PIM, true, true);
    e.mode = e.next_mode;
    assert_eq!(e.switch_legacy(EngineMode::switch_delay, false, true), None);
    assert_eq!(e.switch_phase, SwitchPhase::SourceQuiescing);
    assert_eq!(e.switch_legacy(EngineMode::switch_delay, true, false), None);
    assert_eq!(e.switch_phase, SwitchPhase::NearRowSwitch);
    assert!(e.switch_legacy(EngineMode::switch_delay, true, true).is_some());
    assert_eq!(e.next_mode, EngineMode::HOST);
}

#[test]
fn fgo_round_robin_alternates_one_pe_instruction_and_one_host_request() {
    let mut e = engine_sched::new(EngineProcessorKind::FGO, 0);
    e.set_scheduling_mode(EngineSchedulingMode::Host_FGO_share).unwrap();

    let o = fgo_obs { pim_ready: true, host_ready: true, ..quiet_fgo() };
    let r = e.schedule_host_fgo_share(o);
    assert!(r.issue_pim && !r.issue_host);
    assert_eq!(e.fgo_request_state, FGO_RequestState::PimInFlight);

    let r = e.schedule_host_fgo_share(o);
    assert!(!r.issue_pim && !r.issue_host);

    let r = e.schedule_host_fgo_share(fgo_obs { pim_finished: true, ..o });
    assert!(!r.issue_pim && !r.issue_host);
    assert_eq!(e.fgo_commands_retired, 1);
    assert_eq!(e.fgo_next_service, EngineMode::HOST);
    assert_eq!(e.next_mode, EngineMode::switch_delay);
    e.mode = e.next_mode;

    let r = e.schedule_host_fgo_share(o);
    assert!(r.commit.is_some());
    e.mode = e.next_mode;
    assert_eq!(e.mode, EngineMode::HOST);

    let r = e.schedule_host_fgo_share(o);
    assert!(r.issue_host && !r.issue_pim);
    assert_eq!(e.fgo_request_state, FGO_RequestState::HostInFlight);

    let r = e.schedule_host_fgo_share(fgo_obs { host_drained: true, ..o });
    assert!(!r.issue_host);
    assert_eq!(e.fgo_next_service, EngineMode::PIM);
    assert_eq!(e.next_mode, EngineMode::switch_delay);
}

#[test]
fn fgo_selection_prefers_the_side_due_and_falls_back() {
    let mut e = engine_sched::new(EngineProcessorKind::FGO, 0);
    e.set_scheduling_mode(EngineSchedulingMode::Host_FGO_share).unwrap();
    assert_eq!(e.fgo_select(true, true), fgo_choice::IssuePim);
    assert_eq!(e.fgo_select(false, true), fgo_choice::Switch);
    assert_eq!(e.fgo_select(false, false), fgo_choice::Stay);
    e.fgo_next_service = EngineMode::HOST;
    assert_eq!(e.fgo_select(true, true), fgo_choice::Switch);
    assert_eq!(e.fgo_select(true, false), fgo_choice::IssuePim);
}

#[test]
fn cgo_share_serves_host_exclusively_before_start_and_processor_while_booting() {
    let mut e = engine_sched::new(EngineProcessorKind::CGO, 0);
    e.set_scheduling_mode(EngineSchedulingMode::Host_CGO_share).unwrap();
    let r = e.schedule_host_cgo_share(quiet_cgo(CgoLifecycle::Idle, 3));
    assert!(r.submit_all_host);
    assert_eq!(e.next_mode, EngineMode::HOST);

    let r = e.schedule_host_cgo_share(quiet_cgo(CgoLifecycle::Booting, 0));
    assert!(!r.submit_all_host);
    assert_eq!(r.switch, cgo_switch_step::Wait);
    assert_eq!(e.next_mode, EngineMode::switch_delay);
    assert_eq!(e.stats.host_to_pim.requests, 1);
}

#[test]
fn cgo_share_pauses_the_processor_when_the_host_waits_past_the_watermark() {
    let mut e = engine_sched::new(EngineProcessorKind::CGO, 0);
    e.set_scheduling_mode(EngineSchedulingMode::CGO_only).unwrap();
    e.scheduling_mode = EngineSchedulingMode::Host_CGO_share;
    e.MEM_req_watermarkL = 2;
    let r = e.schedule_host_cgo_share(quiet_cgo(CgoLifecycle::Running, 2));
    assert!(!r.signal_pause);
    assert_eq!(e.PIM_tick_rec, 1);
    let r = e.schedule_host_cgo_share(quiet_cgo(CgoLifecycle::Running, 3));
    assert!(r.signal_pause);
    assert!(e.first_host_switch_started);
    assert_eq!(e.PIM_tick_rec, 0);
    assert_eq!(e.next_mode, EngineMode::switch_delay);
    assert_eq!(e.stats.pim_to_host.requests, 1);
}

#[test]
fn cgo_share_host_quantum_takes_up_to_the_watermark() {
    let mut e = engine_sched::new(EngineProcessorKind::CGO, 0);
    e.set_scheduling_mode(EngineSchedulingMode::Host_CGO_share).unwrap();
    e.MEM_req_watermarkL = 3;
    let r = e.schedule_host_cgo_share(quiet_cgo(CgoLifecycle::Running, 10));
    assert_eq!(r.take_host, 4);
    assert!(r.signal_resume);
    assert_eq!(e.PIM_tick_watermark, 4);
    assert_eq!(e.MEM_tick_rec, 0);
    assert_eq!(e.next_mode, EngineMode::switch_delay);
}

#[test]
fn cgo_switch_asks_for_a_pause_and_commits_when_pause_ready() {
    let mut e = engine_sched::new(EngineProcessorKind::CGO, 1);
    e.set_scheduling_mode(EngineSchedulingMode::Host_CGO_share).unwrap();
    assert_eq!(e.switch_cgo(EngineMode::HOST, true, true), cgo_switch_step::Wait);
    e.mode = e.next_mode;
    assert_eq!(e.switch_cgo(EngineMode::switch_delay, false, true), cgo_switch_step::Wait);
    assert_eq!(e.stats.host_to_pim.source_quiesce_cycles, 1);
    assert_eq!(e.switch_cgo(EngineMode::switch_delay, true, true), cgo_switch_step::RequestPause);
    assert_eq!(e.cgo_pause_requested(5, 2, false), cgo_switch_step::Wait);
    assert_eq!(e.stats.host_to_pim.parked_transactions_total, 5);
    assert_eq!(e.stats.host_to_pim.promoted_transactions_max, 2);
    assert_eq!(e.stats.host_to_pim.promoted_drain_cycles, 1);
    assert_eq!(e.switch_cgo(EngineMode::switch_delay, true, true), cgo_switch_step::Wait);
    assert_eq!(e.stats.host_to_pim.fixed_delay_cycles, 1);
    assert_eq!(e.switch_cgo(EngineMode::switch_delay, true, true), cgo_switch_step::Commit { to_pim: true });
    assert_eq!(e.stats.host_to_pim.commits, 1);
    assert_eq!(e.next_mode, EngineMode::PIM);
    assert_eq!(e.stats.host_to_pim.total_cycles(), 3);
}

#[test]
fn forcing_a_mode_cancels_the_switch_in_progress() {
    let mut e = engine_sched::new(EngineProcessorKind::CGO, 5);
    e.set_scheduling_mode(EngineSchedulingMode::Host_CGO_share).unwrap();
    e.switch_cgo(EngineMode::HOST, true, true);
    let c = e.force_pim_mode();
    assert!(c.cancel_pause);
    assert_eq!(e.stats.host_to_pim.cancellations, 1);
    assert_eq!(e.switch_phase, SwitchPhase::Idle);
    assert_eq!(e.mode, EngineMode::PIM);
    let c = e.force_host_mode();
    assert!(!c.cancel_pause);
    assert!(!e.cancel_cgo_switch());
}

#[test]
fn sequential_hands_off_to_processor_service_after_a_pim_command_and_drain() {
    let mut e = engine_sched::new(EngineProcessorKind::FGO, 7);
    e.set_scheduling_mode(EngineSchedulingMode::Sequential).unwrap();
    assert_eq!(e.mode, EngineMode::HOST);

    let r = e.schedule_sequential(quiet_seq());
    assert!(r.submit_all_host && r.force.is_none());

    e.note_pim_command(pim_cmd::Fgo(pe_inst::NOP));
    assert!(e.sequential_pim_requested);
    let r = e.schedule_sequential(seq_obs { host_pool_len: 1, ..quiet_seq() });
    assert!(r.force.is_none());
    let r = e.schedule_sequential(seq_obs { drained: false, ..quiet_seq() });
    assert!(r.force.is_none());
    let r = e.schedule_sequential(quiet_seq());
    assert!(r.force.unwrap().pim);
    assert_eq!(e.mode, EngineMode::PIM);
    assert_eq!(e.next_mode, EngineMode::PIM);

    let r = e.schedule_sequential(seq_obs { pim_ready: true, ..quiet_seq() });
    assert!(r.submit_host_in_pim && r.issue_pim);
    let r = e.schedule_sequential(seq_obs { pim_finished: true, ..quiet_seq() });
    assert!(!r.issue_pim);
    assert_eq!(e.fgo_commands_retired, 1);
    assert!(e.reached_fgo_barrier());
}

#[test]
fn schedule_dispatches_on_the_scheduling_mode() {
    let o = sched_obs { fgo: quiet_fgo(), cgo: quiet_cgo(CgoLifecycle::Idle, 0), seq: quiet_seq() };
    let mut cgo = engine_sched::new(EngineProcessorKind::CGO, 0);
    cgo.set_scheduling_mode(EngineSchedulingMode::CGO_only).unwrap();
    assert!(matches!(cgo.schedule(o), sched_action::CgoOnly(_)));
    assert_eq!(cgo.mode, EngineMode::PIM);

    let mut host = engine_sched::new(EngineProcessorKind::FGO, 0);
    host.set_scheduling_mode(EngineSchedulingMode::HostOnly).unwrap();
    assert!(matches!(host.schedule(o), sched_action::HostOnly(_)));
    assert_eq!(host.mode, EngineMode::HOST);

    let mut fgo = engine_sched::new(EngineProcessorKind::FGO, 0);
    fgo.set_scheduling_mode(EngineSchedulingMode::Host_FGO_share).unwrap();
    assert!(matches!(fgo.schedule(o), sched_action::FgoShare(_)));
}

#[test]
fn first_FGO_command_closes_host_initialization_mirroring() {
    let mut e = engine_sched::new(EngineProcessorKind::FGO, 0);
    assert!(e.init_mirroring_enabled);
    e.note_pim_command(pim_cmd::Fgo(pe_inst::NOP));
    assert!(!e.init_mirroring_enabled);
    assert_eq!(e.fgo_commands_enqueued, 1);
    assert_eq!(e.fgo_barrier_sequence, Some(1));
    assert!(!e.reached_fgo_barrier());
}

#[test]
fn cgo_query_changes_no_bookkeeping_and_host_only_start_keeps_mirroring() {
    let mut e = engine_sched::new(EngineProcessorKind::CGO, 0);
    e.set_scheduling_mode(EngineSchedulingMode::HostOnly).unwrap();
    let before = e;
    e.note_pim_command(pim_cmd::CgoQuery);
    assert_eq!(e, before);
    e.note_pim_command(pim_cmd::CgoStart);
    assert!(e.init_mirroring_enabled);
}

#[test]
fn fgo_rejects_cgo_commands_and_cgo_query_is_read_only() {
    let fgo = engine_sched::new(EngineProcessorKind::FGO, 0);
    assert!(!fgo.can_accept_pim_cmd(pim_cmd::CgoQuery, false));
    assert!(!fgo.can_accept_pim_cmd(pim_cmd::CgoStart, true));
    assert!(fgo.can_accept_pim_cmd(pim_cmd::Fgo(pe_inst::NOP), true));

    let cgo = engine_sched::new(EngineProcessorKind::CGO, 0);
    assert!(cgo.can_accept_pim_cmd(pim_cmd::CgoQuery, false));
    assert!(!cgo.can_accept_pim_cmd(pim_cmd::CgoQuery, true));
    assert!(cgo.can_accept_pim_cmd(pim_cmd::CgoStart, true));
    assert!(!cgo.can_accept_pim_cmd(pim_cmd::CgoStart, false));
    assert!(!cgo.can_accept_pim_cmd(pim_cmd::Fgo(pe_inst::NOP), true));
}

#[test]
fn fgo_memory_address_outside_pseudo_bank_is_refused() {
    let bad = pe_inst::LD128 { vRD: 1, addr: PSEUDO_BANK_ENTRIES as u32 };
    assert_eq!(
        engine_sched::validate_pim_command_bounds(pim_cmd::Fgo(bad)),
        Err(("LD128", PSEUDO_BANK_ENTRIES as u32))
    );
    let good = pe_inst::LD32 { sRD: 1, addr: PSEUDO_BANK_ENTRIES as u32 - 1 };
    assert_eq!(engine_sched::validate_pim_command_bounds(pim_cmd::Fgo(good)), Ok(()));
    assert_eq!(engine_sched::validate_pim_command_bounds(pim_cmd::CgoStart), Ok(()));
}

#[test]
fn pseudo_bank_base_is_its_index_times_its_cachelines() {
    assert_eq!(engine_sched::pseudo_bank_base_cacheline(3), Ok(3 * PSEUDO_BANK_CACHELINES));
    assert_eq!(
        engine_sched::pseudo_bank_base_cacheline(PSEUDO_BANKS_PER_LOGICAL_BANK),
        Err("invalid pseudo-bank index")
    );
}

#[test]
fn cgo_lifecycle_follows_finish_start_and_boot() {
    assert_eq!(engine_sched::cgo_lifecycle(true, false, true), CgoLifecycle::Finished);
    assert_eq!(engine_sched::cgo_lifecycle(false, true, true), CgoLifecycle::Running);
    assert_eq!(engine_sched::cgo_lifecycle(false, false, false), CgoLifecycle::Booting);
    assert_eq!(engine_sched::cgo_lifecycle(false, false, true), CgoLifecycle::Idle);
}

#[test]
fn accepts_host_requests_only_when_sharing_with_the_host() {
    let mut e = engine_sched::new(EngineProcessorKind::CGO, 0);
    assert!(!e.accepts_host_mem_requests());
    e.set_scheduling_mode(EngineSchedulingMode::CGO_only).unwrap();
    assert!(!e.accepts_host_mem_requests());
    let mut s = engine_sched::new(EngineProcessorKind::CGO, 0);
    s.set_scheduling_mode(EngineSchedulingMode::Sequential).unwrap();
    assert!(s.accepts_host_mem_requests());
}

#[test]
fn tick_runs_the_processor_its_mode_serves() {
    let mut cgo = engine_sched::new(EngineProcessorKind::CGO, 0);
    cgo.set_scheduling_mode(EngineSchedulingMode::Host_CGO_share).unwrap();
    assert_eq!(cgo.processor_tick(), processor_tick::Cgo);
    assert_eq!(cgo.cgo_tick(false), cgo_tick::Idle);
    assert_eq!(cgo.cgo_tick(true), cgo_tick::Cpu);
    cgo.force_pim_mode();
    assert_eq!(cgo.cgo_tick(false), cgo_tick::Boot);
    assert!(cgo.cgo_start_allowed());

    let mut host = engine_sched::new(EngineProcessorKind::CGO, 0);
    host.set_scheduling_mode(EngineSchedulingMode::HostOnly).unwrap();
    assert_eq!(host.processor_tick(), processor_tick::Nothing);
    assert!(!host.cgo_start_allowed());

    let mut fgo = engine_sched::new(EngineProcessorKind::FGO, 0);
    fgo.set_scheduling_mode(EngineSchedulingMode::Host_FGO_share).unwrap();
    assert_eq!(fgo.processor_tick(), processor_tick::Nothing);
    fgo.fgo_request_state = FGO_RequestState::PimInFlight;
    assert_eq!(fgo.processor_tick(), processor_tick::Pe);
}

#[test]
fn switch_drains_follow_the_side_left() {
    let mut e = engine_sched::new(EngineProcessorKind::CGO, 0);
    e.set_scheduling_mode(EngineSchedulingMode::Host_CGO_share).unwrap();
    e.last_service_mode = EngineMode::PIM;
    assert!(!e.switch_drain_done(false, true, true, true));
    assert!(e.switch_drain_done(true, true, false, true));
    assert!(!e.cgo_source_quiesced(true, false, true, true));
    assert!(e.cgo_source_quiesced(true, true, false, false));
    e.last_service_mode = EngineMode::HOST;
    assert!(e.switch_drain_done(false, false, true, true));
    assert!(!e.switch_drain_done(true, true, true, false));
    assert!(!e.cgo_source_quiesced(true, true, false, true));
    assert!(e.cgo_source_quiesced(false, false, true, true));

    let mut f = engine_sched::new(EngineProcessorKind::FGO, 0);
    f.last_service_mode = EngineMode::PIM;
    assert!(f.switch_drain_done(false, true, false, true));
}

#[test]
fn final_barrier_stats_mirroring_and_retries() {
    let mut cgo = engine_sched::new(EngineProcessorKind::CGO, 0);
    assert!(cgo.reached_final_barrier(true));
    assert!(!cgo.reached_final_barrier(false));
    assert!(cgo.cgo_switch_stats().is_none());
    assert!(cgo.mirrors_host_writes(false));
    assert!(!cgo.mirrors_host_writes(true));
    cgo.set_scheduling_mode(EngineSchedulingMode::Host_CGO_share).unwrap();
    assert_eq!(cgo.cgo_switch_stats(), Some(cgo.stats));

    let mut seq = engine_sched::new(EngineProcessorKind::FGO, 0);
    seq.set_scheduling_mode(EngineSchedulingMode::Sequential).unwrap();
    assert!(!seq.retry_in_pim_phase(false));
    seq.force_pim_mode();
    assert!(seq.retry_in_pim_phase(false));
    assert!(!seq.retry_in_pim_phase(true));

    let mut f = engine_sched::new(EngineProcessorKind::FGO, 0);
    f.switch_legacy(EngineMode::PIM, true, true);
    f.advance_mode();
    assert_eq!(f.mode, EngineMode::switch_delay);
}

#[test]
fn host_pim_commands_are_checked_in_order_before_they_count() {
    let mut e = engine_sched::new(EngineProcessorKind::FGO, 0);
    e.set_scheduling_mode(EngineSchedulingMode::Host_FGO_share).unwrap();
    let before = e;
    let far = pe_inst::ST32 { sRS: 2, addr: PSEUDO_BANK_ENTRIES as u32 + 4 };
    assert_eq!(e.enqueue_host_pim_request(true, pim_cmd::Fgo(pe_inst::NOP), true), Err(admit_error::PimRequest));
    assert_eq!(e.enqueue_host_pim_request(false, pim_cmd::Fgo(pe_inst::NOP), false), Err(admit_error::Access));
    assert_eq!(e.enqueue_host_pim_request(false, pim_cmd::CgoStart, true), Err(admit_error::Route));
    assert_eq!(
        e.enqueue_host_pim_request(false, pim_cmd::Fgo(far), true),
        Err(admit_error::OutOfBounds("ST32", PSEUDO_BANK_ENTRIES as u32 + 4))
    );
    assert_eq!(e, before);
    assert_eq!(e.enqueue_host_pim_request(false, pim_cmd::Fgo(pe_inst::NOP), true), Ok(()));
    assert_eq!(e.fgo_commands_enqueued, 1);
    assert!(!e.init_mirroring_enabled);
}

#[test]
fn cgo_rejects_encoded_pe_request() {
    let engine = engine_sched::new(EngineProcessorKind::CGO, 0);
    let addr = PIM_CMD_PAGE_BASE + OP_NOP * PIM_CMD_SLOT_SIZE;
    let cmd = decode_pim_cmd(addr, &[0; 8]).unwrap();
    assert_eq!(cmd, pim_cmd::Fgo(pe_inst::NOP));
    assert!(!engine.can_accept_pim_cmd(cmd, true));
}

#[test]
fn engine_admission_uses_the_supplied_decode_result() {
    let engine = engine_sched::new(EngineProcessorKind::CGO, 0);
    assert!(engine.can_accept_pim_cmd(pim_cmd::CgoQuery, false));
}
