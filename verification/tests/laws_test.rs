use pesim_rs::PE::pe_top::PE;
use pesim_rs::PE::types::inst as pe_inst;
use pesim_rs::cpu::RF::arch_rf;
use pesim_rs::cpu::boot_fsm::{CPU_boot_FSM, CPU_boot_FSM_states, boot_fault};
use pesim_rs::cpu::imem::IMEM;
use pesim_rs::cpu::pimcpu_types::{CPU_stages, fatptr_rf, inst};
use pesim_rs::cpu::pipeline::CPU;
use pesim_rs::cpu::signal_scoreboard::{
    fsm_slot, latch_action, pipeline_action, sig_resolver, signal_reason, signal_req, stage_set,
};
use pesim_rs::cpu::EX::RAW_resolution_FSM;
use pesim_rs::memory::AGU_unit::AGU_unit;
use pesim_rs::memory::flat_memory::cpu_flat_mem;
use pesim_rs::memory::mem_portal::{dram_portal, dram_req, portal_mode, portal_req};
use pesim_rs::sim_engine::sim::engine_cfg;

fn encode(opcode: u16, a: u16, b: u16, c: u16, d: u16) -> u16 {
    (opcode << 12) | (a << 9) | (b << 6) | (c << 3) | d
}

#[test]
fn decoder_follows_the_layout_for_every_opcode() {
    assert!(matches!(
        CPU_boot_FSM::decode_instruction(encode(0x1, 1, 2, 3, 0)),
        Ok(inst::ADD128 { rd: 1, rs1: 2, rs2: 3 })
    ));
    assert!(matches!(
        CPU_boot_FSM::decode_instruction(encode(0x6, 4, 5, 0, 0)),
        Ok(inst::ST128 { rs: 4, frd: 5 })
    ));
    assert!(matches!(
        CPU_boot_FSM::decode_instruction(encode(0xa, 7, 6, 5, 4)),
        Ok(inst::FatPtrSUB { frd: 7, frs: 6, rs1: 5, imm_idx: 4 })
    ));
    for op in 0xd..=0xf_u16 {
        assert_eq!(CPU_boot_FSM::decode_instruction(op << 12).err(), Some(op as u8));
    }
}

fn boot_world() -> (CPU_boot_FSM, cpu_flat_mem, AGU_unit, IMEM, arch_rf) {
    (
        CPU_boot_FSM::new(dram_portal::new(), 0, 0, 0, 0, 0),
        cpu_flat_mem::new(),
        AGU_unit::new(),
        IMEM::new(),
        arch_rf::new(),
    )
}

fn run_phase(boot: &mut CPU_boot_FSM, fmem: &mut cpu_flat_mem, agu: &mut AGU_unit, imem: &mut IMEM, rf: &mut arch_rf) -> Result<(), boot_fault> {
    boot.tick(fmem, agu, imem, rf)?;
    while let Some(req) = boot.dram_port.get_one_req() {
        boot.dram_port.complete(req);
    }
    boot.tick(fmem, agu, imem, rf)
}

#[test]
fn boot_rejects_a_descriptor_outside_the_pseudo_bank() {
    let (mut boot, mut fmem, mut agu, mut imem, mut rf) = boot_world();
    fmem.mem_write_data(0, &[0, 1, 0x40_0000, 1]).unwrap();
    assert!(boot.set_on());
    assert_eq!(
        run_phase(&mut boot, &mut fmem, &mut agu, &mut imem, &mut rf),
        Err(boot_fault::DescriptorOutOfBounds { entry: 1, base: 0x40_0000, bound: 1 })
    );
    assert_eq!(agu.get_entry(0), None);
}

#[test]
fn boot_rejects_a_descriptor_whose_end_overflows() {
    let (mut boot, mut fmem, mut agu, mut imem, mut rf) = boot_world();
    fmem.mem_write_data(1, &[0xffff_ffff, 2, 0, 0]).unwrap();
    assert!(boot.set_on());
    assert_eq!(
        run_phase(&mut boot, &mut fmem, &mut agu, &mut imem, &mut rf),
        Err(boot_fault::DescriptorRangeOverflow { entry: 2, base: 0xffff_ffff, bound: 2 })
    );
}

#[test]
fn boot_rejects_a_table_chunk_of_another_type() {
    let (mut boot, mut fmem, mut agu, mut imem, mut rf) = boot_world();
    fmem.mem_write_fptr(3, &fatptr_rf::new(1, 1)).unwrap();
    assert!(boot.set_on());
    assert_eq!(
        run_phase(&mut boot, &mut fmem, &mut agu, &mut imem, &mut rf),
        Err(boot_fault::MemoryTypeMismatch { chunk: 3 })
    );
}

#[test]
fn boot_rejects_a_program_larger_than_instruction_memory() {
    let (mut boot, mut fmem, mut agu, mut imem, mut rf) = boot_world();
    fmem.mem_write_data(0, &[8, 513, 0, 0]).unwrap();
    assert!(boot.set_on());
    run_phase(&mut boot, &mut fmem, &mut agu, &mut imem, &mut rf).unwrap();
    assert_eq!(boot.state, CPU_boot_FSM_states::ReadInsts);
    assert_eq!(boot.tick(&mut fmem, &mut agu, &mut imem, &mut rf), Err(boot_fault::ProgramTooLarge { chunks: 513 }));
}

#[test]
fn boot_rejects_an_unknown_opcode_in_the_program() {
    let (mut boot, mut fmem, mut agu, mut imem, mut rf) = boot_world();
    fmem.mem_write_data(0, &[8, 1, 0, 0]).unwrap();
    fmem.mem_write_data(8, &[u32::from(encode(0x1, 1, 1, 1, 0)) | (0xe000 << 16), 0, 0, 0]).unwrap();
    assert!(boot.set_on());
    run_phase(&mut boot, &mut fmem, &mut agu, &mut imem, &mut rf).unwrap();
    boot.tick(&mut fmem, &mut agu, &mut imem, &mut rf).unwrap();
    assert_eq!(
        run_phase(&mut boot, &mut fmem, &mut agu, &mut imem, &mut rf),
        Err(boot_fault::InvalidOpcode { chunk: 8, encoded: 0xe000, opcode: 0xe })
    );
    assert_eq!(imem.read_inst(0), None);
}

#[test]
fn boot_without_a_program_descriptor_stops() {
    let (mut boot, mut fmem, mut agu, mut imem, mut rf) = boot_world();
    boot.state = CPU_boot_FSM_states::ReadInsts;
    assert_eq!(boot.tick(&mut fmem, &mut agu, &mut imem, &mut rf), Err(boot_fault::MissingProgramDescriptor));
}

#[test]
fn repeated_submission_does_not_restart_a_signal() {
    let mut ctrl = sig_resolver::new();
    assert!(ctrl.add_new_fsm(signal_reason::RAW_resolution, fsm_slot::Hazard(RAW_resolution_FSM::new())));
    assert!(!ctrl.add_new_fsm(signal_reason::RAW_resolution, fsm_slot::Hazard(RAW_resolution_FSM::new())));
    let req = signal_req::new(signal_reason::RAW_resolution, CPU_stages::EX, Some(stage_set::IF_ID_EX()));
    ctrl.submit_signal(Some(req));
    ctrl.submit_signal(Some(req));
    assert_eq!(ctrl.active_sig.len(), 1);
    assert!(ctrl.has_active_signal(signal_reason::RAW_resolution));

    let d = ctrl.get_decision();
    assert_eq!(d.get(CPU_stages::IF), pipeline_action::Stall);
    assert_eq!(d.get(CPU_stages::EX), pipeline_action::Stall);
    // WB is outside the signal's target stages.
    assert_eq!(d.get(CPU_stages::WB), pipeline_action::Normal);
    assert_eq!(ctrl.last_winner_reason(), Some(signal_reason::RAW_resolution));
    // The bubble lasts one cycle.
    assert!(!ctrl.has_active_signal(signal_reason::RAW_resolution));
    assert_eq!(ctrl.get_decision().get(CPU_stages::IF), pipeline_action::Normal);
    assert_eq!(ctrl.last_winner_reason(), None);
}

#[test]
fn latch_rule_holds_for_a_stalled_consumer() {
    assert_eq!(latch_action(pipeline_action::Normal, pipeline_action::Stall), pipeline_action::Stall);
    assert_eq!(latch_action(pipeline_action::Normal, pipeline_action::Normal), pipeline_action::Normal);
    assert_eq!(latch_action(pipeline_action::Stall, pipeline_action::Normal), pipeline_action::Flush);
    assert_eq!(latch_action(pipeline_action::Flush, pipeline_action::Normal), pipeline_action::Flush);
}

#[test]
fn portal_request_queues_are_stacks_and_completions_come_back() {
    let mut portal = dram_portal::new();
    let a = dram_req::new(1, true, true);
    let b = dram_req::new(2, false, true);
    portal.submit(portal_req::PIM_REQ { req: a });
    portal.submit(portal_req::PIM_REQ { req: b });
    assert!(!portal.req_drained_for_mode(portal_mode::PIM));
    assert_eq!(portal.get_one_req(), Some(b));
    assert_eq!(portal.get_one_req(), Some(a));
    assert!(portal.req_drained_for_mode(portal_mode::PIM));
    portal.complete(a);
    assert_eq!(portal.take_completed(&a), Some(a));
    assert_eq!(portal.take_completed(&a), None);
}

#[test]
fn installed_descriptor_decides_acceptance_and_translation() {
    let mut agu = AGU_unit::new();
    assert!(!agu.accept(fatptr_rf::new(2, 0)));
    agu.insert(2, 100, 4);
    assert!(agu.accept(fatptr_rf::new(2, 3)));
    assert!(!agu.accept(fatptr_rf::new(2, 4)));
    assert_eq!(agu.translate(fatptr_rf::new(2, 3)), Some(103));
    assert_eq!(agu.translate(fatptr_rf::new(3, 0)), None);
    assert_eq!(agu.addition(fatptr_rf::new(2, 1), [2, 0, 0, 0], 0), Some(fatptr_rf::new(2, 3)));
    assert_eq!(agu.addition(fatptr_rf::new(2, 1), [3, 0, 0, 0], 0), None);
    assert_eq!(agu.subtraction(fatptr_rf::new(2, 3), [0, 2, 0, 0], 1), Some(fatptr_rf::new(2, 1)));
}

#[test]
fn pause_handshake_waits_for_the_pause_to_win() {
    let mut cpu = CPU::new();
    cpu.get_imem().flash_in(&[inst::JUMP { inst_imm: 0 }]);
    assert!(cpu.ready4signal());
    cpu.set_external_signal_delays(1, 2);
    cpu.signal_pause();
    assert!(!cpu.ready4signal());
    let pc = cpu.get_RF().read_pc();
    for _ in 0..8 {
        cpu.tick();
    }
    assert!(cpu.ready4signal());
    assert_eq!(cpu.get_RF().read_pc(), pc);
    cpu.signal_resume();
    assert!(!cpu.ready4signal());
    // The resume delay counts down over two cycles; the handshake is ready on the next one.
    cpu.tick();
    cpu.tick();
    assert!(!cpu.ready4signal());
    cpu.tick();
    assert!(cpu.ready4signal());
}

#[test]
fn equal_exit_stops_the_program() {
    let mut cpu = CPU::new();
    cpu.get_RF().write_vregs(1, [4; 4]);
    cpu.get_RF().write_vregs(2, [4; 4]);
    cpu.get_RF().write_vregs(3, [1; 4]);
    cpu.get_imem().flash_in(&[
        inst::EqualExit { rd: 1, rs1: 2 },
        inst::ADD128 { rd: 3, rs1: 1, rs2: 2 },
    ]);
    for _ in 0..50 {
        cpu.tick();
    }
    assert_eq!(cpu.get_RF().read_vregs(3), [1; 4]);
}

#[test]
fn pe_relu_clears_negative_lanes() {
    let mut pe = PE::new();
    pe.get_Arf().write_vRF(1, [-3, 2, -1, 0, 5, -7, 8, 1]);
    pe.push_host_inst(pe_inst::ReLU { vRD: 2, vRS0: 1 });
    pe.allow_next();
    pe.tick();
    pe.tick();
    assert_eq!(pe.get_Arf().read_vRF(2), [0, 2, 0, 0, 5, 0, 8, 1]);
}

#[test]
fn other_processor_swaps_the_kind_only() {
    let c = engine_cfg::CGO { ch: 1, ra: 2, bg: 3, ba: 4, pb: 5 };
    assert_eq!(c.other_processor(), engine_cfg::FGO { ch: 1, ra: 2, bg: 3, ba: 4, pb: 5 });
    assert_eq!(c.other_processor().other_processor(), c);
}
