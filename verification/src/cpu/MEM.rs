use vstd::prelude::*;
use crate::cpu::EX::EX_MEM_rf;
use crate::cpu::pimcpu_types::{CPU_stages, DMAop, WBop, arch_action, fatptr_rf};
use crate::cpu::pipeline::CPU;
use crate::cpu::signal_scoreboard::{
    SigFSM, ops6, pipeline_action, signal_reason, signal_req, sig, stage_ops, stage_set,
    set_IF_ID_EX_AGU,
};
use crate::memory::mem_portal::{dram_portal, dram_req, portal_req, portal_state, submitted, taken};
use crate::memory::flat_memory::{
    cpu_data_read, cpu_flat_mem, cpu_fptr_read, mem_entry, mem_read, zero_words,
};

verus! {

/// The MEM/WB latch.
#[derive(Clone, Copy, Debug)]
pub struct MEM_WB_RF {
    pub valid: bool,
    pub arith_result: Option<[u32; 4]>,
    pub ptr_result: Option<fatptr_rf>,
    pub wb_op: WBop,
}

/// The empty (invalid) MEM/WB latch.
pub open spec fn empty_mem_wb() -> MEM_WB_RF {
    MEM_WB_RF { valid: false, arith_result: None, ptr_result: None, wb_op: WBop::NOP }
}

impl MEM_WB_RF {
    pub fn new() -> (r: Self)
        ensures
            r == empty_mem_wb(),
    {
        Self { valid: false, arith_result: None, ptr_result: None, wb_op: WBop::NOP }
    }

    pub fn is_valid(&self) -> (r: bool)
        ensures
            r == self.valid,
    {
        self.valid
    }

    pub fn invalidate(&mut self)
        ensures
            *final(self) == (MEM_WB_RF { valid: false, ..*old(self) }),
    {
        self.valid = false;
    }

    pub fn get_arith_result(&self) -> (r: Option<[u32; 4]>)
        ensures
            r == self.arith_result,
    {
        self.arith_result
    }

    pub fn get_ptr_result(&self) -> (r: Option<fatptr_rf>)
        ensures
            r == self.ptr_result,
    {
        self.ptr_result
    }

    pub fn get_wb_op(&self) -> (r: WBop)
        ensures
            r == self.wb_op,
    {
        self.wb_op
    }
}

/// What MEM produces for latch `l` over flat memory `m`: the MEM/WB latch, the controller
/// signal, the architectural updates and the memory afterwards (a read may claim an entry's
/// type). A transfer with an address blocks IF, ID, EX and AGU for the memory access; a
/// transfer without one retires with nothing to write back.
pub open spec fn cpu_mem_spec(l: EX_MEM_rf, m: Map<u32, mem_entry>) -> (MEM_WB_RF, signal_req, Seq<arch_action>, Map<u32, mem_entry>) {
    let quiet = sig(signal_reason::no_reason, CPU_stages::MEM, None);
    let retired = MEM_WB_RF { valid: true, arith_result: None, ptr_result: None, wb_op: WBop::NOP };
    let block = |p: u32, rd: bool| sig(signal_reason::MEM_block { addr: p as u64, is_read: rd }, CPU_stages::MEM, Some(set_IF_ID_EX_AGU()));
    if !l.valid {
        (empty_mem_wb(), quiet, seq![arch_action::DoNothing], m)
    } else {
        match (l.dma_op, l.phys_addr) {
            (DMAop::NOP, _) => (
                MEM_WB_RF { valid: true, arith_result: l.arith_result, ptr_result: l.ptr_result, wb_op: l.wb_op },
                quiet,
                seq![arch_action::DoNothing],
                m,
            ),
            (_, None) => (retired, quiet, seq![arch_action::DoNothing], m),
            (DMAop::READ_VEC { .. }, Some(p)) => {
                let (v, m2) = mem_read(m, p, Some(zero_words()), |d: crate::memory::flat_memory::MemEntryData| cpu_data_read(d));
                (
                    MEM_WB_RF { valid: true, arith_result: v, ptr_result: None, wb_op: l.wb_op },
                    block(p, true),
                    seq![arch_action::DoNothing],
                    m2,
                )
            },
            (DMAop::WRITE_VEC { data_lit, .. }, Some(p)) => (
                retired,
                block(p, false),
                seq![arch_action::WriteMEM_DATA { addr: p, content: data_lit }],
                m,
            ),
            (DMAop::READ_FPTR { .. }, Some(p)) => {
                let (v, m2) = mem_read(m, p, None, |d: crate::memory::flat_memory::MemEntryData| cpu_fptr_read(d));
                (
                    MEM_WB_RF { valid: true, arith_result: None, ptr_result: v, wb_op: l.wb_op },
                    block(p, true),
                    seq![arch_action::DoNothing],
                    m2,
                )
            },
            (DMAop::WRITE_FPTR { fptr_data_lit, .. }, Some(p)) => (
                retired,
                block(p, false),
                seq![arch_action::WriteMEM_FPTR { addr: p, content: fptr_data_lit }],
                m,
            ),
        }
    }
}

fn one_action(a: arch_action) -> (r: Vec<arch_action>)
    ensures
        r@ == seq![a],
{
    let mut v: Vec<arch_action> = Vec::new();
    v.push(a);
    assert(v@ =~= seq![a]);
    v
}

impl CPU {
    /// MEM stage: reads memory for loads (the read may type a raw entry), hands stores to
    /// the architectural update, and asks the controller to block the younger stages for
    /// the duration of the access.
    pub fn eval_MEM(ex_mem_rf: &EX_MEM_rf, fmem: &mut cpu_flat_mem) -> (r: (MEM_WB_RF, signal_req, Vec<arch_action>))
        ensures
            (r.0, r.1, r.2@, final(fmem)@) == cpu_mem_spec(*ex_mem_rf, old(fmem)@),
    {
        let quiet = signal_req::new(signal_reason::no_reason, CPU_stages::MEM, None);
        if !ex_mem_rf.is_valid() {
            return (MEM_WB_RF::new(), quiet, one_action(arch_action::DoNothing));
        }
        let retired = MEM_WB_RF { valid: true, arith_result: None, ptr_result: None, wb_op: WBop::NOP };
        match ex_mem_rf.get_dma_op() {
            DMAop::NOP => (
                MEM_WB_RF {
                    valid: true,
                    arith_result: ex_mem_rf.get_arith_result(),
                    ptr_result: ex_mem_rf.get_ptr_result(),
                    wb_op: ex_mem_rf.get_wb_op(),
                },
                quiet,
                one_action(arch_action::DoNothing),
            ),
            DMAop::READ_VEC { .. } => match ex_mem_rf.get_phys_addr() {
                Some(paddr) => {
                    let v = fmem.mem_read_data(paddr);
                    (
                        MEM_WB_RF { valid: true, arith_result: v, ptr_result: None, wb_op: ex_mem_rf.get_wb_op() },
                        signal_req::new(
                            signal_reason::MEM_block { addr: paddr as u64, is_read: true },
                            CPU_stages::MEM,
                            Some(stage_set::IF_ID_EX_AGU()),
                        ),
                        one_action(arch_action::DoNothing),
                    )
                },
                None => (retired, quiet, one_action(arch_action::DoNothing)),
            },
            DMAop::WRITE_VEC { data_lit, .. } => match ex_mem_rf.get_phys_addr() {
                Some(paddr) => (
                    retired,
                    signal_req::new(
                        signal_reason::MEM_block { addr: paddr as u64, is_read: false },
                        CPU_stages::MEM,
                        Some(stage_set::IF_ID_EX_AGU()),
                    ),
                    one_action(arch_action::WriteMEM_DATA { addr: paddr, content: data_lit }),
                ),
                None => (retired, quiet, one_action(arch_action::DoNothing)),
            },
            DMAop::READ_FPTR { .. } => match ex_mem_rf.get_phys_addr() {
                Some(paddr) => {
                    let v = fmem.mem_read_fptr(paddr);
                    (
                        MEM_WB_RF { valid: true, arith_result: None, ptr_result: v, wb_op: ex_mem_rf.get_wb_op() },
                        signal_req::new(
                            signal_reason::MEM_block { addr: paddr as u64, is_read: true },
                            CPU_stages::MEM,
                            Some(stage_set::IF_ID_EX_AGU()),
                        ),
                        one_action(arch_action::DoNothing),
                    )
                },
                None => (retired, quiet, one_action(arch_action::DoNothing)),
            },
            DMAop::WRITE_FPTR { fptr_data_lit, .. } => match ex_mem_rf.get_phys_addr() {
                Some(paddr) => (
                    retired,
                    signal_req::new(
                        signal_reason::MEM_block { addr: paddr as u64, is_read: false },
                        CPU_stages::MEM,
                        Some(stage_set::IF_ID_EX_AGU()),
                    ),
                    one_action(arch_action::WriteMEM_FPTR { addr: paddr, content: fptr_data_lit }),
                ),
                None => (retired, quiet, one_action(arch_action::DoNothing)),
            },
        }
    }
}


/// States of the memory-stall controller.
#[derive(Clone, Copy, Debug, PartialEq, Eq, Structural)]
pub enum MEM_stop_FSM_states {
    Submit,
    Stall,
    WriteBack,
    Release,
    Idle,
}

/// Times a memory access of MEM: submits it to the DRAM port (when there is one), holds
/// the pipeline until it completes, lets MEM write back, then holds WB for one more cycle.
pub struct MEM_stop_FSM {
    pub state: MEM_stop_FSM_states,
    pub state_next: MEM_stop_FSM_states,
    pub req: Option<dram_req>,
    pub dram_port: Option<dram_portal>,
}

/// The arbitration class of the memory-stall controller.
pub open spec fn mem_stop_action(st: MEM_stop_FSM_states) -> pipeline_action {
    if st == MEM_stop_FSM_states::Idle { pipeline_action::Normal } else { pipeline_action::Stall }
}

/// The stage actions in each state: the access in flight holds IF to MEM; after it
/// completes MEM may write back while IF to AGU stay held; the release cycle holds WB.
pub open spec fn mem_stop_ops(st: MEM_stop_FSM_states) -> stage_ops {
    let s = Some(pipeline_action::Stall);
    match st {
        MEM_stop_FSM_states::Submit | MEM_stop_FSM_states::Stall => ops6(s, s, s, s, s, None),
        MEM_stop_FSM_states::WriteBack => ops6(s, s, s, s, None, None),
        MEM_stop_FSM_states::Release => ops6(None, None, None, None, None, s),
        MEM_stop_FSM_states::Idle => ops6(None, None, None, None, None, None),
    }
}

/// One transition of the memory-stall controller from `st` with request `req` under
/// signal `sig`, with DRAM port state `port`: the next state, request and port.
pub open spec fn mem_stop_next(
    st: MEM_stop_FSM_states,
    req: Option<dram_req>,
    sig: signal_reason,
    port: Option<portal_state>,
) -> (MEM_stop_FSM_states, Option<dram_req>, Option<portal_state>) {
    match st {
        MEM_stop_FSM_states::Submit => match sig {
            signal_reason::MEM_block { addr, is_read } => {
                let rq = dram_req { addr, id: None, is_read, is_pim: true };
                match port {
                    Some(p) => (MEM_stop_FSM_states::Stall, Some(rq), Some(submitted(p, rq, true))),
                    None => (MEM_stop_FSM_states::WriteBack, Some(rq), None),
                }
            },
            _ => (MEM_stop_FSM_states::WriteBack, req, port),
        },
        MEM_stop_FSM_states::Stall => match (req, port) {
            (Some(rq), Some(p)) => {
                let (t, p1) = taken(p, rq);
                (if t is Some { MEM_stop_FSM_states::WriteBack } else { MEM_stop_FSM_states::Stall }, req, Some(p1))
            },
            _ => (MEM_stop_FSM_states::WriteBack, req, port),
        },
        MEM_stop_FSM_states::WriteBack => (MEM_stop_FSM_states::Release, req, port),
        MEM_stop_FSM_states::Release => (MEM_stop_FSM_states::Idle, req, port),
        MEM_stop_FSM_states::Idle => (MEM_stop_FSM_states::Idle, req, port),
    }
}

/// The view of an optional DRAM port.
pub open spec fn port_view(p: Option<dram_portal>) -> Option<portal_state> {
    match p {
        Some(d) => Some(d@),
        None => None,
    }
}

impl MEM_stop_FSM {
    /// A controller without a DRAM timing model: accesses complete at once.
    pub fn new() -> (r: Self)
        ensures
            r.state == MEM_stop_FSM_states::Submit,
            r.req == None::<dram_req>,
            r.dram_port is None,
    {
        Self { state: MEM_stop_FSM_states::Submit, state_next: MEM_stop_FSM_states::Submit, req: None, dram_port: None }
    }

    /// A controller that times accesses through `dram_port`.
    pub fn new_with_dram_port(dram_port: dram_portal) -> (r: Self)
        ensures
            r.state == MEM_stop_FSM_states::Submit,
            r.req == None::<dram_req>,
            port_view(r.dram_port) == Some(dram_port@),
    {
        Self {
            state: MEM_stop_FSM_states::Submit,
            state_next: MEM_stop_FSM_states::Submit,
            req: None,
            dram_port: Some(dram_port),
        }
    }

    /// One transition, with the DRAM port held elsewhere.
    pub fn advance_with_port(&mut self, sig_reason: signal_reason, port: &mut Option<dram_portal>)
        ensures
            (final(self).state, final(self).req, port_view(*final(port)))
                == mem_stop_next(old(self).state, old(self).req, sig_reason, port_view(*old(port))),
            final(self).dram_port == old(self).dram_port,
    {
        let next = match self.state {
            MEM_stop_FSM_states::Submit => {
                if let signal_reason::MEM_block { addr, is_read } = sig_reason {
                    let req = dram_req::new(addr, is_read, true);
                    self.req = Some(req);
                    match port {
                        Some(dram_port) => {
                            dram_port.submit(portal_req::PIM_REQ { req });
                            MEM_stop_FSM_states::Stall
                        },
                        None => MEM_stop_FSM_states::WriteBack,
                    }
                } else {
                    MEM_stop_FSM_states::WriteBack
                }
            },
            MEM_stop_FSM_states::Stall => match (&self.req, port) {
                (Some(req), Some(dram_port)) => {
                    if dram_port.take_completed(req).is_some() {
                        MEM_stop_FSM_states::WriteBack
                    } else {
                        MEM_stop_FSM_states::Stall
                    }
                },
                _ => MEM_stop_FSM_states::WriteBack,
            },
            MEM_stop_FSM_states::WriteBack => MEM_stop_FSM_states::Release,
            MEM_stop_FSM_states::Release => MEM_stop_FSM_states::Idle,
            MEM_stop_FSM_states::Idle => MEM_stop_FSM_states::Idle,
        };
        self.state_next = next;
        self.state = self.state_next;
    }
}

impl SigFSM for MEM_stop_FSM {
    fn reason(&self) -> (r: signal_reason)
        ensures
            r == (signal_reason::MEM_block { addr: 0, is_read: false }),
    {
        signal_reason::mem_block_kind()
    }

    fn action(&self) -> (r: pipeline_action)
        ensures
            r == mem_stop_action(self.state),
    {
        match self.state {
            MEM_stop_FSM_states::Submit
            | MEM_stop_FSM_states::Stall
            | MEM_stop_FSM_states::WriteBack
            | MEM_stop_FSM_states::Release => pipeline_action::Stall,
            MEM_stop_FSM_states::Idle => pipeline_action::Normal,
        }
    }

    fn get_ops(&self) -> (r: stage_ops)
        ensures
            r == mem_stop_ops(self.state),
    {
        let s = Some(pipeline_action::Stall);
        match self.state {
            MEM_stop_FSM_states::Submit | MEM_stop_FSM_states::Stall => stage_ops::of(s, s, s, s, s, None),
            MEM_stop_FSM_states::WriteBack => stage_ops::of(s, s, s, s, None, None),
            MEM_stop_FSM_states::Release => stage_ops::of(None, None, None, None, None, s),
            MEM_stop_FSM_states::Idle => stage_ops::of(None, None, None, None, None, None),
        }
    }

    fn advance_winner(&mut self, sig_reason: signal_reason) -> (r: bool)
        ensures
            r,
            (final(self).state, final(self).req, port_view(final(self).dram_port))
                == mem_stop_next(old(self).state, old(self).req, sig_reason, port_view(old(self).dram_port)),
    {
        let mut port: Option<dram_portal> = None;
        std::mem::swap(&mut port, &mut self.dram_port);
        self.advance_with_port(sig_reason, &mut port);
        self.dram_port = port;
        true
    }

    fn handle_blocked(&mut self)
        ensures
            final(self).state == old(self).state,
            final(self).req == old(self).req,
            final(self).dram_port == old(self).dram_port,
    {
    }
}

} // verus!
