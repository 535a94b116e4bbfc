use pesim_rs::cpu::RF::arch_rf;
use pesim_rs::cpu::boot_fsm::{AGU_TABLE_CHUNKS, CPU_boot_FSM, CPU_boot_FSM_states};
use pesim_rs::cpu::imem::IMEM;
use pesim_rs::cpu::pimcpu_types::{fatptr_rf, inst};
use pesim_rs::memory::AGU_unit::AGU_unit;
use pesim_rs::memory::flat_memory::cpu_flat_mem;
use pesim_rs::memory::mem_portal::{dram_portal, dram_req};

fn encode(opcode: u16, a: u16, b: u16, c: u16, d: u16) -> u16 {
    (opcode << 12) | (a << 9) | (b << 6) | (c << 3) | d
}

#[test]
fn boot_waits_for_every_timed_response_and_preserves_issue_order() {
    // The boot controller owns the DRAM port; the engine side reaches it through the field.
    let mut boot = CPU_boot_FSM::new(dram_portal::new(), 0, 0, 0, 1, 0);
    let mut fmem = cpu_flat_mem::new();
    let mut agu = AGU_unit::new();
    let mut imem = IMEM::new();
    let mut rf = arch_rf::new();

    // Entry zero describes one instruction chunk at chunk address eight.
    fmem.mem_write_data(0, &[8, 1, 0, 0]).unwrap();
    for chunk in 1..AGU_TABLE_CHUNKS {
        fmem.mem_write_data(chunk, &[0; 4]).unwrap();
    }
    let add = encode(0x1, 3, 1, 2, 0);
    let exit = encode(0xc, 3, 3, 0, 0);
    fmem.mem_write_data(8, &[u32::from(add) | (u32::from(exit) << 16), 0, 0, 0])
        .unwrap();

    assert!(boot.set_on());
    assert!(!boot.set_on(), "a repeated start must not reset boot");
    assert!(
        boot.dram_port.get_one_req().is_none(),
        "arming boot must not submit reads until the next FSM tick"
    );
    boot.tick(&mut fmem, &mut agu, &mut imem, &mut rf).unwrap();
    assert_eq!(boot.state, CPU_boot_FSM_states::DRAM2AGU_stall);

    let mut descriptor_reqs = Vec::new();
    while let Some(req) = boot.dram_port.get_one_req() {
        descriptor_reqs.push(req);
    }
    assert_eq!(
        descriptor_reqs
            .iter()
            .map(dram_req::get_addr)
            .collect::<Vec<_>>(),
        vec![0, 0, 0, 0, 1, 1, 1, 1]
    );

    // An empty request vector is not enough: all timing responses are required.
    boot.tick(&mut fmem, &mut agu, &mut imem, &mut rf).unwrap();
    assert_eq!(boot.state, CPU_boot_FSM_states::DRAM2AGU_stall);
    for req in descriptor_reqs.iter().take(7) {
        boot.dram_port.complete(req.clone());
    }
    boot.tick(&mut fmem, &mut agu, &mut imem, &mut rf).unwrap();
    assert_eq!(boot.state, CPU_boot_FSM_states::DRAM2AGU_stall);

    boot.dram_port.complete(descriptor_reqs[7].clone());
    boot.tick(&mut fmem, &mut agu, &mut imem, &mut rf).unwrap();
    assert_eq!(boot.state, CPU_boot_FSM_states::ReadInsts);
    assert_eq!(agu.get_entry(0), Some((8, 1)));
    for id in 0_u8..8 {
        assert_eq!(rf.read_fregs(id), Some(fatptr_rf::new(id, 0)));
    }

    boot.tick(&mut fmem, &mut agu, &mut imem, &mut rf).unwrap();
    assert_eq!(boot.state, CPU_boot_FSM_states::DRAM2IMEM_submit);
    boot.tick(&mut fmem, &mut agu, &mut imem, &mut rf).unwrap();
    assert_eq!(boot.state, CPU_boot_FSM_states::DRAM2IMEM_stall);

    let program_req = boot.dram_port
        .get_one_req()
        .expect("one instruction chunk should issue one timed read");
    assert_eq!(program_req.get_addr(), 2);
    assert!(boot.dram_port.get_one_req().is_none());

    boot.tick(&mut fmem, &mut agu, &mut imem, &mut rf).unwrap();
    assert!(!boot.has_finished());
    boot.dram_port.complete(program_req);
    boot.tick(&mut fmem, &mut agu, &mut imem, &mut rf).unwrap();
    assert!(boot.has_finished());

    assert!(matches!(
        imem.read_inst(0),
        Some(inst::ADD128 {
            rd: 3,
            rs1: 1,
            rs2: 2
        })
    ));
    assert!(matches!(
        imem.read_inst(1),
        Some(inst::EqualExit { rd: 3, rs1: 3 })
    ));
    assert!(matches!(imem.read_inst(7), Some(inst::NOP)));
}

#[test]
fn decoder_uses_the_documented_bit_layout() {
    assert!(matches!(
        CPU_boot_FSM::decode_instruction(encode(0x9, 1, 2, 3, 2)),
        Ok(inst::FatPtrADD {
            frd: 1,
            frs: 2,
            rs1: 3,
            imm_idx: 2
        })
    ));
    assert!(matches!(
        CPU_boot_FSM::decode_instruction(0xbabc),
        Ok(inst::JUMP { inst_imm: 0xabc })
    ));
    assert!(matches!(
        CPU_boot_FSM::decode_instruction(encode(0xc, 4, 5, 0, 0)),
        Ok(inst::EqualExit { rs1: 4, rd: 5 })
    ));
    assert_eq!(CPU_boot_FSM::decode_instruction(0xd000).err(), Some(0xd));
}
