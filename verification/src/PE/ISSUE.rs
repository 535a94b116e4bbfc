use vstd::prelude::*;
use crate::PE::RF::{arch_rf, pe_rf_state, vreg, sreg};
use crate::PE::types::{ALUop, MEMop, WBop, inst};
use crate::PE::pe_top::PE;
use crate::memory::mem_portal::dram_req;

verus! {

/// The ISSUE/EX latch of the PE.
#[derive(Clone, Copy, Debug)]
pub struct ISSUE_EX_RF {
    pub valid: bool,
    /// Simulator-only request metadata; not part of the PE architecture.
    pub sim_req: Option<dram_req>,
    pub aluop: ALUop,
    pub memop: MEMop,
    pub wbop: WBop,
}

/// The empty (invalid) ISSUE/EX latch.
pub open spec fn empty_issue_ex() -> ISSUE_EX_RF {
    ISSUE_EX_RF { valid: false, sim_req: None, aluop: ALUop::NOP, memop: MEMop::NOP, wbop: WBop::NOP }
}

/// Every register an instruction reads exists: vector ids below 16, scalar ids below 8.
/// ISSUE reads these registers, so these are the instructions it can decode.
pub open spec fn pe_inst_reads_ok(i: inst) -> bool {
    match i {
        inst::LD128 { .. } | inst::LD32 { .. } | inst::NOP => true,
        inst::ST128 { vRS, .. } => vRS < 16,
        inst::ST32 { sRS, .. } => sRS < 8,
        inst::ADD128 { vRS0, vRS1, .. } => vRS0 < 16 && vRS1 < 16,
        inst::SUB128 { vRS0, vRS1, .. } => vRS0 < 16 && vRS1 < 16,
        inst::MUL128 { vRS0, vRS1, .. } => vRS0 < 16 && vRS1 < 16,
        inst::MAC128 { sRS0, vRS0, vRS1, .. } => sRS0 < 8 && vRS0 < 16 && vRS1 < 16,
        inst::ReLU { vRS0, .. } => vRS0 < 16,
    }
}

/// Every register an instruction names exists: vector ids below 16, scalar ids below 8.
/// Besides what ISSUE reads, this bounds the destination that write-back writes, so a PE
/// whose program meets it runs every instruction to the end.
pub open spec fn pe_inst_ok(i: inst) -> bool {
    match i {
        inst::LD128 { vRD, .. } => vRD < 16,
        inst::ST128 { vRS, .. } => vRS < 16,
        inst::LD32 { sRD, .. } => sRD < 8,
        inst::ST32 { sRS, .. } => sRS < 8,
        inst::ADD128 { vRD, vRS0, vRS1 } => vRD < 16 && vRS0 < 16 && vRS1 < 16,
        inst::SUB128 { vRD, vRS0, vRS1 } => vRD < 16 && vRS0 < 16 && vRS1 < 16,
        inst::MUL128 { vRD, vRS0, vRS1 } => vRD < 16 && vRS0 < 16 && vRS1 < 16,
        inst::MAC128 { sRD, sRS0, vRS0, vRS1 } => sRD < 8 && sRS0 < 8 && vRS0 < 16 && vRS1 < 16,
        inst::ReLU { vRD, vRS0 } => vRD < 16 && vRS0 < 16,
        inst::NOP => true,
    }
}

/// The latch that ISSUE produces for a fetched instruction, reading its sources from `rf`.
pub open spec fn issue_spec(input: Option<(inst, Option<dram_req>)>, rf: pe_rf_state) -> ISSUE_EX_RF {
    match input {
        None => empty_issue_ex(),
        Some((i, sim_req)) => {
            let (aluop, memop, wbop) = match i {
                inst::NOP => (ALUop::NOP, MEMop::NOP, WBop::NOP),
                inst::LD128 { vRD, addr } => (ALUop::NOP, MEMop::ReadV { addr }, WBop::VWrite { vRD }),
                inst::ST128 { vRS, addr } => (
                    ALUop::NOP,
                    MEMop::WriteV { addr, vRS, data: vreg(rf, vRS) },
                    WBop::NOP,
                ),
                inst::LD32 { sRD, addr } => (ALUop::NOP, MEMop::ReadS { addr }, WBop::SWrite { sRD }),
                inst::ST32 { sRS, addr } => (
                    ALUop::NOP,
                    MEMop::WriteS { addr, sRS, data: sreg(rf, sRS) },
                    WBop::NOP,
                ),
                inst::ADD128 { vRD, vRS0, vRS1 } => (
                    ALUop::ADD { vRS0, vRS1, vRS0_lit: vreg(rf, vRS0), vRS1_lit: vreg(rf, vRS1) },
                    MEMop::NOP,
                    WBop::VWrite { vRD },
                ),
                inst::SUB128 { vRD, vRS0, vRS1 } => (
                    ALUop::SUB { vRS0, vRS1, vRS0_lit: vreg(rf, vRS0), vRS1_lit: vreg(rf, vRS1) },
                    MEMop::NOP,
                    WBop::VWrite { vRD },
                ),
                inst::MUL128 { vRD, vRS0, vRS1 } => (
                    ALUop::MUL { vRS0, vRS1, vRS0_lit: vreg(rf, vRS0), vRS1_lit: vreg(rf, vRS1) },
                    MEMop::NOP,
                    WBop::VWrite { vRD },
                ),
                inst::MAC128 { sRD, sRS0, vRS0, vRS1 } => (
                    ALUop::MAC {
                        sRS0,
                        vRS0,
                        vRS1,
                        sRS0_lit: sreg(rf, sRS0),
                        vRS0_lit: vreg(rf, vRS0),
                        vRS1_lit: vreg(rf, vRS1),
                    },
                    MEMop::NOP,
                    WBop::SWrite { sRD },
                ),
                inst::ReLU { vRD, vRS0 } => (
                    ALUop::ReLU { vRS0, vRS0_lit: vreg(rf, vRS0) },
                    MEMop::NOP,
                    WBop::VWrite { vRD },
                ),
            };
            ISSUE_EX_RF { valid: true, sim_req, aluop, memop, wbop }
        },
    }
}

impl ISSUE_EX_RF {
    pub fn new() -> (r: Self)
        ensures
            r == empty_issue_ex(),
    {
        Self { valid: false, sim_req: None, aluop: ALUop::NOP, memop: MEMop::NOP, wbop: WBop::NOP }
    }

    pub fn is_valid(&self) -> (r: bool)
        ensures
            r == self.valid,
    {
        self.valid
    }

    pub fn get_sim_req(&self) -> (r: Option<dram_req>)
        ensures
            r == self.sim_req,
    {
        self.sim_req
    }

    pub fn get_aluop(&self) -> (r: ALUop)
        ensures
            r == self.aluop,
    {
        self.aluop
    }

    pub fn get_memop(&self) -> (r: MEMop)
        ensures
            r == self.memop,
    {
        self.memop
    }

    pub fn get_wbop(&self) -> (r: WBop)
        ensures
            r == self.wbop,
    {
        self.wbop
    }
}

impl PE {
/// ISSUE stage of the PE: decodes the fetched instruction and reads its source registers.
pub fn eval_ISSUE(input: Option<(inst, Option<dram_req>)>, arf: &arch_rf) -> (r: ISSUE_EX_RF)
    requires
        input matches Some((i, _)) ==> pe_inst_reads_ok(i),
    ensures
        r == issue_spec(input, arf@),
{
    let Some((read_inst, sim_req)) = input else {
        return ISSUE_EX_RF::new();
    };

    match read_inst {
        inst::NOP => ISSUE_EX_RF {
            valid: true,
            sim_req,
            aluop: ALUop::NOP,
            memop: MEMop::NOP,
            wbop: WBop::NOP,
        },
        inst::LD128 { vRD, addr } => ISSUE_EX_RF {
            valid: true,
            sim_req,
            aluop: ALUop::NOP,
            memop: MEMop::ReadV { addr: addr },
            wbop: WBop::VWrite { vRD: vRD },
        },
        inst::ST128 { vRS, addr } => {
            let data = arf.read_vRF(vRS);
            ISSUE_EX_RF {
                valid: true,
                sim_req,
                aluop: ALUop::NOP,
                memop: MEMop::WriteV { addr, vRS, data: data },
                wbop: WBop::NOP,
            }
        },
        inst::LD32 { sRD, addr } => ISSUE_EX_RF {
            valid: true,
            sim_req,
            aluop: ALUop::NOP,
            memop: MEMop::ReadS { addr: addr },
            wbop: WBop::SWrite { sRD: sRD },
        },
        inst::ST32 { sRS, addr } => {
            let data = arf.read_sRF(sRS);
            ISSUE_EX_RF {
                valid: true,
                sim_req,
                aluop: ALUop::NOP,
                memop: MEMop::WriteS { addr, sRS, data: data },
                wbop: WBop::NOP,
            }
        },
        inst::ADD128 { vRD, vRS0, vRS1 } => {
            let rs0_lit = arf.read_vRF(vRS0);
            let rs1_lit = arf.read_vRF(vRS1);
            ISSUE_EX_RF {
                valid: true,
                sim_req,
                aluop: ALUop::ADD { vRS0, vRS1, vRS0_lit: rs0_lit, vRS1_lit: rs1_lit },
                memop: MEMop::NOP,
                wbop: WBop::VWrite { vRD: vRD },
            }
        },
        inst::SUB128 { vRD, vRS0, vRS1 } => {
            let rs0_lit = arf.read_vRF(vRS0);
            let rs1_lit = arf.read_vRF(vRS1);
            ISSUE_EX_RF {
                valid: true,
                sim_req,
                aluop: ALUop::SUB { vRS0, vRS1, vRS0_lit: rs0_lit, vRS1_lit: rs1_lit },
                memop: MEMop::NOP,
                wbop: WBop::VWrite { vRD: vRD },
            }
        },
        inst::MUL128 { vRD, vRS0, vRS1 } => {
            let rs0_lit = arf.read_vRF(vRS0);
            let rs1_lit = arf.read_vRF(vRS1);
            ISSUE_EX_RF {
                valid: true,
                sim_req,
                aluop: ALUop::MUL { vRS0, vRS1, vRS0_lit: rs0_lit, vRS1_lit: rs1_lit },
                memop: MEMop::NOP,
                wbop: WBop::VWrite { vRD: vRD },
            }
        },
        inst::MAC128 { sRD, sRS0, vRS0, vRS1 } => {
            let srs0_lit = arf.read_sRF(sRS0);
            let vrs0_lit = arf.read_vRF(vRS0);
            let vrs1_lit = arf.read_vRF(vRS1);
            ISSUE_EX_RF {
                valid: true,
                sim_req,
                aluop: ALUop::MAC {
                    sRS0,
                    vRS0,
                    vRS1,
                    sRS0_lit: srs0_lit,
                    vRS0_lit: vrs0_lit,
                    vRS1_lit: vrs1_lit,
                },
                memop: MEMop::NOP,
                wbop: WBop::SWrite { sRD: sRD },
            }
        },
        inst::ReLU { vRD, vRS0 } => {
            let vrs0_lit = arf.read_vRF(vRS0);
            ISSUE_EX_RF {
                valid: true,
                sim_req,
                aluop: ALUop::ReLU { vRS0, vRS0_lit: vrs0_lit },
                memop: MEMop::NOP,
                wbop: WBop::VWrite { vRD: vRD },
            }
        },
    }
}

}

} // verus!
