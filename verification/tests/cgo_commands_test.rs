use pesim_rs::cpu::boot_fsm::{CPU_boot_FSM, CPU_boot_FSM_states};
use pesim_rs::memory::mem_portal::{dram_portal, dram_req};
use pesim_rs::sim_engine::cgo_commands::cgo_cmd_queues;

#[test]
fn a_repeated_start_is_answered_but_does_not_rearm_the_boot() {
    let mut boot = CPU_boot_FSM::new(dram_portal::new(), 0, 0, 0, 1, 0);
    let mut q = cgo_cmd_queues::new();
    let a = dram_req::new(0x1_7ffe_f280, false, false);
    let b = dram_req::new(0x1_7ffe_f280, false, false);
    q.push_start(a);
    q.push_start(b);
    assert_eq!(q.process_cgo_cmds(true, &mut boot), vec![true, false]);
    assert_eq!(boot.state, CPU_boot_FSM_states::DRAM2AGU_submit);
    assert_eq!(q.take_done(), Some(a));
    assert_eq!(q.take_done(), Some(b));
    assert_eq!(q.take_done(), None);

    q.push_start(a);
    assert_eq!(q.process_cgo_cmds(true, &mut boot), vec![false]);
    assert_eq!(boot.state, CPU_boot_FSM_states::DRAM2AGU_submit);
}

#[test]
fn a_host_only_engine_refuses_starts() {
    let mut boot = CPU_boot_FSM::new(dram_portal::new(), 0, 0, 0, 1, 0);
    let mut q = cgo_cmd_queues::new();
    q.push_start(dram_req::new(0x1_7ffe_f280, false, false));
    assert_eq!(q.process_cgo_cmds(false, &mut boot), vec![false]);
    assert_eq!(boot.state, CPU_boot_FSM_states::IDLE);
    assert!(q.take_done().is_some());
}
