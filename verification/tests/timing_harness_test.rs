use pesim_rs::PE::types::inst as FGO_inst;
use pesim_rs::sim_engine::sim::engine_cfg;
use pesim_rs::sim_engine::timing_harness::{CGO_harness_summary, FGO_harness_summary, timing_harness};

const CFG: engine_cfg = engine_cfg::FGO {
    ch: 0,
    ra: 0,
    bg: 1,
    ba: 2,
    pb: 3,
};
const CGO_CFG: engine_cfg = engine_cfg::CGO {
    ch: 0,
    ra: 0,
    bg: 1,
    ba: 2,
    pb: 3,
};

#[test]
fn CGO_summary_uses_first_start_and_counts_nonzero_outputs() {
    let mut harness = timing_harness::new();
    harness.log_CGO_start(CGO_CFG, 10, 1);
    harness.log_CGO_start(CGO_CFG, 20, 2);

    let summary = harness
        .log_CGO_finish(CGO_CFG, 30, Some(vec![[1; 4], [0; 4], [2; 4]]))
        .expect("a tracked CGO engine should produce one summary");

    assert_eq!(
        summary,
        CGO_harness_summary {
            start_cycle: 10,
            end_cycle: 30,
            elapsed_cycles: 20,
            output_vector_count: 3,
            passing_output_vector_count: 2,
            result_passed: false,
        }
    );
    assert!(!harness.is_tracking_CGO(CGO_CFG));
    assert!(harness.log_CGO_finish(CGO_CFG, 31, None).is_none());
}

#[test]
fn NOP_summary_includes_retirement_cycle_and_nonzero_result() {
    let mut harness = timing_harness::new();
    harness.log_FGO_receive(CFG, 10, 1, FGO_inst::LD128 { vRD: 0, addr: 0 });
    harness.log_FGO_receive(CFG, 11, 2, FGO_inst::ST128 { vRS: 0, addr: 2 });
    harness.log_FGO_result(CFG, 20, 2, 2, Some([1; 8]));
    harness.log_FGO_retire(CFG, 20, 2, FGO_inst::ST128 { vRS: 0, addr: 2 });

    let summary = harness
        .log_FGO_retire(CFG, 24, 3, FGO_inst::NOP)
        .expect("NOP should finish one harness interval");

    assert_eq!(
        summary,
        FGO_harness_summary {
            start_cycle: 10,
            end_cycle: 24,
            elapsed_cycles: 14,
            vector_store_count: 1,
            passing_vector_store_count: 1,
            result_passed: true,
        }
    );
}

#[test]
fn all_zero_result_fails_the_NOP_summary() {
    let mut harness = timing_harness::new();
    harness.log_FGO_receive(CFG, 3, 1, FGO_inst::ST128 { vRS: 0, addr: 2 });
    harness.log_FGO_result(CFG, 8, 1, 2, Some([0; 8]));

    let summary = harness
        .log_FGO_retire(CFG, 9, 2, FGO_inst::NOP)
        .expect("NOP should finish one harness interval");

    assert!(!summary.result_passed);
    assert_eq!(summary.vector_store_count, 1);
    assert_eq!(summary.passing_vector_store_count, 0);
}
