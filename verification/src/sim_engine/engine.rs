use vstd::prelude::*;
use crate::PE::types::inst as pe_inst;
use crate::memory::mem_portal::portal_mode;
use crate::sim_engine::engine_alloc::{PSEUDO_BANK_CACHELINES, PSEUDO_BANK_ENTRIES, PSEUDO_BANKS_PER_LOGICAL_BANK};
use crate::sim_engine::request_router::{pim_cmd, validate_pim_cmd_access};

verus! {

/// How an engine shares its DRAM between the host and its processor.
#[derive(Clone, Copy, Debug, PartialEq, Eq, Structural)]
pub enum EngineSchedulingMode {
    Unconfigured,
    CGO_only,
    Host_CGO_share,
    Host_FGO_share,
    HostOnly,
    Sequential,
}

/// Who is served: the processor, the host, or neither while the DRAM switches between them.
#[derive(Clone, Copy, Debug, PartialEq, Eq, Structural)]
pub enum EngineMode {
    PIM,
    HOST,
    switch_delay,
}

/// Progress of a switch between host and processor service.
#[derive(Clone, Copy, Debug, PartialEq, Eq, Structural)]
pub enum SwitchPhase {
    Idle,
    SourceQuiescing,
    MemoryPausing,
    NearRowSwitch,
}

/// The processor an engine drives.
#[derive(Clone, Copy, Debug, PartialEq, Eq, Structural)]
pub enum EngineProcessorKind {
    CGO,
    FGO,
}

/// Where a CGO processor is in its life.
#[derive(Clone, Copy, Debug, PartialEq, Eq, Structural)]
pub enum CgoLifecycle {
    Idle,
    Booting,
    Running,
    Finished,
}

/// What an FGO engine is waiting for.
#[derive(Clone, Copy, Debug, PartialEq, Eq, Structural)]
pub enum FGO_RequestState {
    Idle,
    PimInFlight,
    HostInFlight,
}

/// Switch statistics of one direction. Counters wrap at `u64::MAX`, as unchecked release
/// arithmetic does.
#[derive(Clone, Copy, Debug, Default, PartialEq, Eq, Structural)]
pub struct CgoSwitchDirectionStats {
    pub requests: u64,
    pub commits: u64,
    pub cancellations: u64,
    pub source_quiesce_cycles: u64,
    pub promoted_drain_cycles: u64,
    pub fixed_delay_cycles: u64,
    pub commit_guard_cycles: u64,
    pub parked_transactions_total: u64,
    pub parked_transactions_max: u64,
    pub promoted_transactions_total: u64,
    pub promoted_transactions_max: u64,
}

/// Switch statistics of both directions.
#[derive(Clone, Copy, Debug, Default, PartialEq, Eq, Structural)]
pub struct CgoSwitchStats {
    pub pim_to_host: CgoSwitchDirectionStats,
    pub host_to_pim: CgoSwitchDirectionStats,
}

/// `x + 1`, wrapping.
pub open spec fn inc(x: u64) -> u64 {
    if x == u64::MAX { 0 } else { (x + 1) as u64 }
}

/// `x + y`, wrapping.
pub open spec fn wadd(x: u64, y: u64) -> u64 {
    ((x + y) % 0x1_0000_0000_0000_0000) as u64
}

fn inc_exec(x: u64) -> (r: u64)
    ensures
        r == inc(x),
{
    if x == u64::MAX { 0 } else { x + 1 }
}

impl CgoSwitchDirectionStats {
    /// Cycles spent switching in this direction, wrapping.
    pub fn total_cycles(&self) -> (r: u64)
        ensures
            r == wadd(wadd(wadd(self.source_quiesce_cycles, self.promoted_drain_cycles), self.fixed_delay_cycles), self.commit_guard_cycles),
    {
        self.source_quiesce_cycles.wrapping_add(self.promoted_drain_cycles).wrapping_add(self.fixed_delay_cycles).wrapping_add(
            self.commit_guard_cycles,
        )
    }
}

/// The DRAM-side commands of a forced or committed mode change: whether a pending pause may
/// need cancelling, the portal mode to take, and whether the timing model runs in PIM mode.
#[derive(Clone, Copy, Debug, PartialEq, Eq, Structural)]
pub struct mode_cmds {
    pub cancel_pause: bool,
    pub portal: portal_mode,
    pub pim: bool,
}

/// The next thing a CGO switch needs from the DRAM side.
#[derive(Clone, Copy, Debug, PartialEq, Eq, Structural)]
pub enum cgo_switch_step {
    /// Stay in the switch this cycle.
    Wait,
    /// Ask the timing model to pause, then report its parked and promoted transactions and
    /// whether it is pause-ready.
    RequestPause,
    /// Commit the paused mode: serve the processor (`to_pim`) or the host.
    Commit { to_pim: bool },
}

/// The choice of an FGO engine with nothing in flight.
#[derive(Clone, Copy, Debug, PartialEq, Eq, Structural)]
pub enum fgo_choice {
    /// Let the PE run its next instruction.
    IssuePim,
    /// Send the oldest host request to memory.
    IssueHost,
    /// Switch to serving the other side.
    Switch,
    /// Nothing to do.
    Stay,
}

/// The scheduling state of one engine: its processor kind and scheduling mode, whom it
/// serves now and next, the switch in progress, the quanta of CGO sharing, the round robin of
/// FGO sharing, and the command counters.
#[derive(Clone, Copy, Debug, PartialEq, Eq, Structural)]
pub struct engine_sched {
    pub processor: EngineProcessorKind,
    pub scheduling_mode: EngineSchedulingMode,
    pub mode: EngineMode,
    pub next_mode: EngineMode,
    pub last_service_mode: EngineMode,
    pub switch_phase: SwitchPhase,
    pub switch_delay_remaining: u64,
    pub near_switch_cycles: u64,
    pub stats: CgoSwitchStats,
    pub PIM_tick_watermark: u64,
    pub PIM_tick_rec: u64,
    pub MEM_req_watermarkL: u64,
    pub MEM_tick_rec: u64,
    pub first_host_switch_started: bool,
    pub fgo_request_state: FGO_RequestState,
    pub fgo_next_service: EngineMode,
    pub fgo_commands_enqueued: u64,
    pub fgo_commands_retired: u64,
    pub fgo_barrier_sequence: Option<u64>,
    pub init_mirroring_enabled: bool,
    pub sequential_pim_requested: bool,
}

/// The first cache line of pseudo bank `pb` within its bank; only the pseudo banks of one
/// logical bank exist.
pub open spec fn pseudo_bank_base_spec(pb: u64) -> Result<u64, &'static str> {
    if pb < PSEUDO_BANKS_PER_LOGICAL_BANK {
        Ok((pb * PSEUDO_BANK_CACHELINES) as u64)
    } else {
        Err("invalid pseudo-bank index")
    }
}

/// The processor kind can run under the scheduling mode.
pub open spec fn compatible(kind: EngineProcessorKind, mode: EngineSchedulingMode) -> bool {
    match (kind, mode) {
        (EngineProcessorKind::CGO, EngineSchedulingMode::CGO_only) => true,
        (EngineProcessorKind::CGO, EngineSchedulingMode::Host_CGO_share) => true,
        (EngineProcessorKind::FGO, EngineSchedulingMode::Host_FGO_share) => true,
        (_, EngineSchedulingMode::HostOnly) => true,
        (_, EngineSchedulingMode::Sequential) => true,
        _ => false,
    }
}

/// The switch statistics of the direction that leaves `m`.
pub open spec fn direction(s: CgoSwitchStats, m: EngineMode) -> CgoSwitchDirectionStats {
    if m == EngineMode::PIM { s.pim_to_host } else { s.host_to_pim }
}

/// The switch statistics with the direction leaving `m` replaced.
pub open spec fn with_direction(s: CgoSwitchStats, m: EngineMode, d: CgoSwitchDirectionStats) -> CgoSwitchStats {
    if m == EngineMode::PIM { CgoSwitchStats { pim_to_host: d, ..s } } else { CgoSwitchStats { host_to_pim: d, ..s } }
}

/// Dropping a switch in progress: the direction's cancellations count up and the switch
/// phase and delay clear; without a switch in progress nothing changes.
pub open spec fn cancelled(e: engine_sched) -> engine_sched {
    if e.switch_phase == SwitchPhase::Idle {
        e
    } else {
        let d = direction(e.stats, e.last_service_mode);
        engine_sched {
            stats: with_direction(e.stats, e.last_service_mode, CgoSwitchDirectionStats { cancellations: inc(d.cancellations), ..d }),
            switch_phase: SwitchPhase::Idle,
            switch_delay_remaining: 0,
            ..e
        }
    }
}

/// Forcing service of the processor (`pim`) or of the host at once.
pub open spec fn forced(e: engine_sched, pim: bool) -> (engine_sched, mode_cmds) {
    let m = if pim { EngineMode::PIM } else { EngineMode::HOST };
    let c = cancelled(e);
    (
        engine_sched { mode: m, next_mode: m, switch_phase: SwitchPhase::Idle, switch_delay_remaining: 0, ..c },
        mode_cmds {
            cancel_pause: e.switch_phase != SwitchPhase::Idle,
            portal: if pim { portal_mode::PIM } else { portal_mode::HOST },
            pim,
        },
    )
}

/// A fresh engine: serving the processor, no switch, an unconfigured scheduling mode.
pub open spec fn fresh_sched(kind: EngineProcessorKind, near: u64) -> engine_sched {
    engine_sched {
        processor: kind,
        scheduling_mode: EngineSchedulingMode::Unconfigured,
        mode: EngineMode::PIM,
        next_mode: EngineMode::PIM,
        last_service_mode: EngineMode::PIM,
        switch_phase: SwitchPhase::Idle,
        switch_delay_remaining: 0,
        near_switch_cycles: near,
        stats: CgoSwitchStats {
            pim_to_host: CgoSwitchDirectionStats {
                requests: 0, commits: 0, cancellations: 0, source_quiesce_cycles: 0, promoted_drain_cycles: 0,
                fixed_delay_cycles: 0, commit_guard_cycles: 0, parked_transactions_total: 0,
                parked_transactions_max: 0, promoted_transactions_total: 0, promoted_transactions_max: 0,
            },
            host_to_pim: CgoSwitchDirectionStats {
                requests: 0, commits: 0, cancellations: 0, source_quiesce_cycles: 0, promoted_drain_cycles: 0,
                fixed_delay_cycles: 0, commit_guard_cycles: 0, parked_transactions_total: 0,
                parked_transactions_max: 0, promoted_transactions_total: 0, promoted_transactions_max: 0,
            },
        },
        PIM_tick_watermark: 0,
        PIM_tick_rec: 0,
        MEM_req_watermarkL: 0,
        MEM_tick_rec: 0,
        first_host_switch_started: false,
        fgo_request_state: FGO_RequestState::Idle,
        fgo_next_service: EngineMode::PIM,
        fgo_commands_enqueued: 0,
        fgo_commands_retired: 0,
        fgo_barrier_sequence: None,
        init_mirroring_enabled: true,
        sequential_pim_requested: false,
    }
}

/// Configuring the scheduling mode: once only, never to `Unconfigured`, and only to a mode
/// the processor can run under. Sharing with the host (and the host-only and sequential
/// modes) starts by serving the host; the others start by serving the processor.
pub open spec fn configured(e: engine_sched, m: EngineSchedulingMode) -> Result<(engine_sched, mode_cmds), &'static str> {
    if e.scheduling_mode != EngineSchedulingMode::Unconfigured {
        Err("engine scheduling mode can only be configured once")
    } else if m == EngineSchedulingMode::Unconfigured {
        Err("cannot configure an engine with Unconfigured scheduling mode")
    } else if !compatible(e.processor, m) {
        Err("scheduling mode is incompatible with the engine processor")
    } else {
        let e1 = engine_sched { scheduling_mode: m, ..e };
        let host_first = m == EngineSchedulingMode::HostOnly || m == EngineSchedulingMode::Host_CGO_share
            || m == EngineSchedulingMode::Sequential;
        let (e2, c) = forced(e1, !host_first);
        Ok((if host_first { engine_sched { first_host_switch_started: true, ..e2 } } else { e2 }, c))
    }
}

/// A command the engine's processor takes, in the direction it expects.
pub open spec fn accepts_cmd(kind: EngineProcessorKind, cmd: pim_cmd, is_write: bool) -> bool {
    &&& (!(cmd is CgoQuery) == is_write)
    &&& match (kind, cmd) {
        (EngineProcessorKind::FGO, pim_cmd::Fgo(_)) => true,
        (EngineProcessorKind::CGO, pim_cmd::CgoStart) => true,
        (EngineProcessorKind::CGO, pim_cmd::CgoQuery) => true,
        _ => false,
    }
}

/// The flat-memory address a PE memory instruction names, with the instruction's name.
pub open spec fn pe_mem_target(i: pe_inst) -> Option<(&'static str, u32)> {
    match i {
        pe_inst::LD128 { addr, .. } => Some(("LD128", addr)),
        pe_inst::ST128 { addr, .. } => Some(("ST128", addr)),
        pe_inst::LD32 { addr, .. } => Some(("LD32", addr)),
        pe_inst::ST32 { addr, .. } => Some(("ST32", addr)),
        _ => None,
    }
}

/// Bookkeeping of an accepted PIM command: a query changes nothing; otherwise a sequential
/// engine now wants PIM service; an FGO command (and a CGO start, except host-only) ends the
/// mirroring of host initialization writes; FGO commands are counted and a NOP marks the
/// barrier at its count.
pub open spec fn noted(e: engine_sched, cmd: pim_cmd) -> engine_sched {
    let e1 = if e.scheduling_mode == EngineSchedulingMode::Sequential {
        engine_sched { sequential_pim_requested: true, ..e }
    } else {
        e
    };
    match cmd {
        pim_cmd::Fgo(i) => {
            let n = (e.fgo_commands_enqueued + 1) as u64;
            engine_sched {
                init_mirroring_enabled: false,
                fgo_commands_enqueued: n,
                fgo_barrier_sequence: if i == pe_inst::NOP { Some(n) } else { e.fgo_barrier_sequence },
                ..e1
            }
        },
        pim_cmd::CgoStart => if e.scheduling_mode != EngineSchedulingMode::HostOnly {
            engine_sched { init_mirroring_enabled: false, ..e1 }
        } else {
            e1
        },
        pim_cmd::CgoQuery => e,
    }
}

impl engine_sched {
    /// The scheduling state of a new engine whose near-row switch takes `near_switch_cycles`.
    pub fn new(processor: EngineProcessorKind, near_switch_cycles: u64) -> (r: Self)
        ensures
            r == fresh_sched(processor, near_switch_cycles),
    {
        let d = CgoSwitchDirectionStats {
            requests: 0,
            commits: 0,
            cancellations: 0,
            source_quiesce_cycles: 0,
            promoted_drain_cycles: 0,
            fixed_delay_cycles: 0,
            commit_guard_cycles: 0,
            parked_transactions_total: 0,
            parked_transactions_max: 0,
            promoted_transactions_total: 0,
            promoted_transactions_max: 0,
        };
        engine_sched {
            processor,
            scheduling_mode: EngineSchedulingMode::Unconfigured,
            mode: EngineMode::PIM,
            next_mode: EngineMode::PIM,
            last_service_mode: EngineMode::PIM,
            switch_phase: SwitchPhase::Idle,
            switch_delay_remaining: 0,
            near_switch_cycles,
            stats: CgoSwitchStats { pim_to_host: d, host_to_pim: d },
            PIM_tick_watermark: 0,
            PIM_tick_rec: 0,
            MEM_req_watermarkL: 0,
            MEM_tick_rec: 0,
            first_host_switch_started: false,
            fgo_request_state: FGO_RequestState::Idle,
            fgo_next_service: EngineMode::PIM,
            fgo_commands_enqueued: 0,
            fgo_commands_retired: 0,
            fgo_barrier_sequence: None,
            init_mirroring_enabled: true,
            sequential_pim_requested: false,
        }
    }

    /// The first cache line of pseudo bank `pb` within its logical bank.
    pub fn pseudo_bank_base_cacheline(pb: u64) -> (r: Result<u64, &'static str>)
        ensures
            r == pseudo_bank_base_spec(pb),
    {
        if pb < PSEUDO_BANKS_PER_LOGICAL_BANK {
            Ok(pb * PSEUDO_BANK_CACHELINES)
        } else {
            Err("invalid pseudo-bank index")
        }
    }

    fn direction_of(&self) -> (r: CgoSwitchDirectionStats)
        ensures
            r == direction(self.stats, self.last_service_mode),
    {
        match self.last_service_mode {
            EngineMode::PIM => self.stats.pim_to_host,
            _ => self.stats.host_to_pim,
        }
    }

    fn set_direction(&mut self, d: CgoSwitchDirectionStats)
        ensures
            *final(self) == (engine_sched { stats: with_direction(old(self).stats, old(self).last_service_mode, d), ..*old(self) }),
    {
        match self.last_service_mode {
            EngineMode::PIM => self.stats.pim_to_host = d,
            _ => self.stats.host_to_pim = d,
        }
    }

    /// Drops a switch in progress; returns whether one was in progress (a pause requested
    /// from the timing model must then be cancelled).
    pub fn cancel_cgo_switch(&mut self) -> (r: bool)
        ensures
            r == (old(self).switch_phase != SwitchPhase::Idle),
            *final(self) == cancelled(*old(self)),
    {
        if self.switch_phase == SwitchPhase::Idle {
            return false;
        }
        let d = self.direction_of();
        self.set_direction(CgoSwitchDirectionStats { cancellations: inc_exec(d.cancellations), ..d });
        self.switch_phase = SwitchPhase::Idle;
        self.switch_delay_remaining = 0;
        true
    }

    /// Serves the processor from now on.
    pub fn force_pim_mode(&mut self) -> (r: mode_cmds)
        ensures
            (*final(self), r) == forced(*old(self), true),
    {
        let cancel = self.cancel_cgo_switch();
        self.mode = EngineMode::PIM;
        self.next_mode = EngineMode::PIM;
        self.switch_phase = SwitchPhase::Idle;
        self.switch_delay_remaining = 0;
        mode_cmds { cancel_pause: cancel, portal: portal_mode::PIM, pim: true }
    }

    /// Serves the host from now on.
    pub fn force_host_mode(&mut self) -> (r: mode_cmds)
        ensures
            (*final(self), r) == forced(*old(self), false),
    {
        let cancel = self.cancel_cgo_switch();
        self.mode = EngineMode::HOST;
        self.next_mode = EngineMode::HOST;
        self.switch_phase = SwitchPhase::Idle;
        self.switch_delay_remaining = 0;
        mode_cmds { cancel_pause: cancel, portal: portal_mode::HOST, pim: false }
    }

    /// Configures the scheduling mode once; see `configured`.
    pub fn set_scheduling_mode(&mut self, scheduling_mode: EngineSchedulingMode) -> (r: Result<mode_cmds, &'static str>)
        ensures
            match configured(*old(self), scheduling_mode) {
                Ok((e, c)) => r == Ok::<mode_cmds, &'static str>(c) && *final(self) == e,
                Err(m) => r == Err::<mode_cmds, &'static str>(m) && *final(self) == *old(self),
            },
    {
        if self.scheduling_mode != EngineSchedulingMode::Unconfigured {
            return Err("engine scheduling mode can only be configured once");
        }
        if scheduling_mode == EngineSchedulingMode::Unconfigured {
            return Err("cannot configure an engine with Unconfigured scheduling mode");
        }
        let ok = match (self.processor, scheduling_mode) {
            (EngineProcessorKind::CGO, EngineSchedulingMode::CGO_only) => true,
            (EngineProcessorKind::CGO, EngineSchedulingMode::Host_CGO_share) => true,
            (EngineProcessorKind::FGO, EngineSchedulingMode::Host_FGO_share) => true,
            (_, EngineSchedulingMode::HostOnly) => true,
            (_, EngineSchedulingMode::Sequential) => true,
            _ => false,
        };
        if !ok {
            return Err("scheduling mode is incompatible with the engine processor");
        }
        self.scheduling_mode = scheduling_mode;
        match scheduling_mode {
            EngineSchedulingMode::HostOnly | EngineSchedulingMode::Host_CGO_share | EngineSchedulingMode::Sequential => {
                let c = self.force_host_mode();
                self.first_host_switch_started = true;
                Ok(c)
            },
            _ => Ok(self.force_pim_mode()),
        }
    }

    /// Whether host memory requests are served at all.
    pub fn accepts_host_mem_requests(&self) -> (r: bool)
        ensures
            r == (self.scheduling_mode == EngineSchedulingMode::Host_CGO_share || self.scheduling_mode
                == EngineSchedulingMode::Host_FGO_share || self.scheduling_mode == EngineSchedulingMode::HostOnly
                || self.scheduling_mode == EngineSchedulingMode::Sequential),
    {
        match self.scheduling_mode {
            EngineSchedulingMode::Host_CGO_share
            | EngineSchedulingMode::Host_FGO_share
            | EngineSchedulingMode::HostOnly
            | EngineSchedulingMode::Sequential => true,
            _ => false,
        }
    }

    /// Whether this engine's processor takes `cmd` with the given access direction.
    pub fn can_accept_pim_cmd(&self, cmd: pim_cmd, is_write: bool) -> (r: bool)
        ensures
            r == accepts_cmd(self.processor, cmd, is_write),
    {
        if validate_pim_cmd_access(cmd, is_write).is_err() {
            return false;
        }
        match (self.processor, cmd) {
            (EngineProcessorKind::FGO, pim_cmd::Fgo(_)) => true,
            (EngineProcessorKind::CGO, pim_cmd::CgoStart) => true,
            (EngineProcessorKind::CGO, pim_cmd::CgoQuery) => true,
            _ => false,
        }
    }

    /// A PE memory instruction must stay inside the pseudo bank; the error names the
    /// instruction and the address.
    pub fn validate_pim_command_bounds(cmd: pim_cmd) -> (r: Result<(), (&'static str, u32)>)
        ensures
            match cmd {
                pim_cmd::Fgo(i) => match pe_mem_target(i) {
                    Some((op, a)) => if a >= PSEUDO_BANK_ENTRIES { r == Err::<(), (&'static str, u32)>((op, a)) } else { r is Ok },
                    None => r is Ok,
                },
                _ => r is Ok,
            },
    {
        let instruction = match cmd {
            pim_cmd::Fgo(i) => i,
            _ => {
                return Ok(());
            },
        };
        let (operation, addr) = match instruction {
            pe_inst::LD128 { addr, .. } => ("LD128", addr),
            pe_inst::ST128 { addr, .. } => ("ST128", addr),
            pe_inst::LD32 { addr, .. } => ("LD32", addr),
            pe_inst::ST32 { addr, .. } => ("ST32", addr),
            _ => {
                return Ok(());
            },
        };
        if addr as u64 >= PSEUDO_BANK_ENTRIES {
            Err((operation, addr))
        } else {
            Ok(())
        }
    }

    /// Records an accepted PIM command; see `noted`.
    pub fn note_pim_command(&mut self, cmd: pim_cmd)
        requires
            old(self).fgo_commands_enqueued < u64::MAX,
        ensures
            *final(self) == noted(*old(self), cmd),
    {
        if let pim_cmd::CgoQuery = cmd {
            return;
        }
        if self.scheduling_mode == EngineSchedulingMode::Sequential {
            self.sequential_pim_requested = true;
        }
        match cmd {
            pim_cmd::Fgo(i) => {
                self.init_mirroring_enabled = false;
                self.fgo_commands_enqueued = self.fgo_commands_enqueued + 1;
                match i {
                    pe_inst::NOP => {
                        self.fgo_barrier_sequence = Some(self.fgo_commands_enqueued);
                    },
                    _ => {},
                }
            },
            _ => {
                if self.scheduling_mode != EngineSchedulingMode::HostOnly {
                    self.init_mirroring_enabled = false;
                }
            },
        }
    }

    /// An FGO engine has reached its final barrier: the NOP that closes the command stream was
    /// the last command enqueued and every enqueued command has retired.
    pub fn reached_fgo_barrier(&self) -> (r: bool)
        ensures
            r == (self.fgo_barrier_sequence == Some(self.fgo_commands_enqueued) && self.fgo_commands_retired
                >= self.fgo_commands_enqueued),
    {
        match self.fgo_barrier_sequence {
            Some(n) => n == self.fgo_commands_enqueued && self.fgo_commands_retired >= self.fgo_commands_enqueued,
            None => false,
        }
    }

    /// Where a CGO processor is: finished, running, or (before it starts) idle or booting.
    pub fn cgo_lifecycle(finished: bool, started: bool, boot_idle: bool) -> (r: CgoLifecycle)
        ensures
            r == (if finished {
                CgoLifecycle::Finished
            } else if started {
                CgoLifecycle::Running
            } else if boot_idle {
                CgoLifecycle::Idle
            } else {
                CgoLifecycle::Booting
            }),
    {
        if finished {
            CgoLifecycle::Finished
        } else if started {
            CgoLifecycle::Running
        } else if boot_idle {
            CgoLifecycle::Idle
        } else {
            CgoLifecycle::Booting
        }
    }

    /// The first flat-memory entry a host cache-line write reaches, from the bank-local cache
    /// line it targets: it must lie in this engine's pseudo bank.
    pub fn mirror_first_entry(bank_local_cacheline: u64, pseudo_bank_base_cacheline: u64) -> (r: Result<u32, &'static str>)
        ensures
            r == (if bank_local_cacheline < pseudo_bank_base_cacheline || bank_local_cacheline
                - pseudo_bank_base_cacheline >= PSEUDO_BANK_CACHELINES {
                Err::<u32, &'static str>("host write was routed to the wrong pseudo bank")
            } else {
                Ok(((bank_local_cacheline - pseudo_bank_base_cacheline) * 4) as u32)
            }),
    {
        if bank_local_cacheline < pseudo_bank_base_cacheline {
            return Err("host write was routed to the wrong pseudo bank");
        }
        let offset = bank_local_cacheline - pseudo_bank_base_cacheline;
        if offset >= PSEUDO_BANK_CACHELINES {
            return Err("host write was routed to the wrong pseudo bank");
        }
        Ok((offset * 4) as u32)
    }
}

/// The service mode after a switch away from `m`.
pub open spec fn flipped(m: EngineMode) -> EngineMode {
    match m {
        EngineMode::PIM => EngineMode::HOST,
        EngineMode::HOST => EngineMode::PIM,
        EngineMode::switch_delay => EngineMode::switch_delay,
    }
}

/// The commands that commit a switch away from `m`.
pub open spec fn commit_cmds(m: EngineMode) -> Option<mode_cmds> {
    match m {
        EngineMode::PIM => Some(mode_cmds { cancel_pause: false, portal: portal_mode::HOST, pim: false }),
        EngineMode::HOST => Some(mode_cmds { cancel_pause: false, portal: portal_mode::PIM, pim: true }),
        EngineMode::switch_delay => None,
    }
}

/// Starting a switch away from `from`.
pub open spec fn switch_started(e: engine_sched, from: EngineMode) -> engine_sched {
    engine_sched {
        next_mode: EngineMode::switch_delay,
        last_service_mode: from,
        switch_phase: SwitchPhase::SourceQuiescing,
        switch_delay_remaining: 0,
        ..e
    }
}

/// One cycle of the plain switch automaton (host, delay, processor, delay, host): the source
/// drains (`drain_done`), the near-row switch delay runs down, and the switch commits once
/// the timing model is drained (`drained`), with the commands returned.
pub open spec fn legacy_switch(e: engine_sched, from: EngineMode, drain_done: bool, drained: bool) -> (engine_sched, Option<mode_cmds>) {
    if from != EngineMode::switch_delay {
        (switch_started(e, from), None)
    } else if e.switch_phase == SwitchPhase::SourceQuiescing && !drain_done {
        (engine_sched { next_mode: EngineMode::switch_delay, ..e }, None)
    } else {
        let e1 = if e.switch_phase == SwitchPhase::SourceQuiescing {
            engine_sched { switch_phase: SwitchPhase::NearRowSwitch, switch_delay_remaining: e.near_switch_cycles, ..e }
        } else {
            e
        };
        if e1.switch_delay_remaining > 0 {
            (engine_sched { switch_delay_remaining: (e1.switch_delay_remaining - 1) as u64, next_mode: EngineMode::switch_delay, ..e1 }, None)
        } else if !drained {
            (engine_sched { next_mode: EngineMode::switch_delay, ..e1 }, None)
        } else {
            (
                engine_sched { switch_phase: SwitchPhase::Idle, next_mode: flipped(e1.last_service_mode), ..e1 },
                commit_cmds(e1.last_service_mode),
            )
        }
    }
}

/// The engine with one switch statistic of the active direction changed by `f`.
pub open spec fn bump(e: engine_sched, f: spec_fn(CgoSwitchDirectionStats) -> CgoSwitchDirectionStats) -> engine_sched {
    engine_sched { stats: with_direction(e.stats, e.last_service_mode, f(direction(e.stats, e.last_service_mode))), ..e }
}

/// The CGO switch once the timing model has been asked to pause (or is pausing): wait until
/// it is pause-ready, run the near-row delay down, check readiness again, then commit.
pub open spec fn cgo_continue(e: engine_sched, pause_ready: bool) -> (engine_sched, cgo_switch_step) {
    if e.switch_phase == SwitchPhase::MemoryPausing && !pause_ready {
        (
            engine_sched { next_mode: EngineMode::switch_delay, ..bump(e, |d: CgoSwitchDirectionStats| CgoSwitchDirectionStats { promoted_drain_cycles: inc(d.promoted_drain_cycles), ..d }) },
            cgo_switch_step::Wait,
        )
    } else {
        let e1 = if e.switch_phase == SwitchPhase::MemoryPausing {
            engine_sched { switch_phase: SwitchPhase::NearRowSwitch, switch_delay_remaining: e.near_switch_cycles, ..e }
        } else {
            e
        };
        if e1.switch_delay_remaining > 0 {
            (
                engine_sched {
                    switch_delay_remaining: (e1.switch_delay_remaining - 1) as u64,
                    next_mode: EngineMode::switch_delay,
                    ..bump(e1, |d: CgoSwitchDirectionStats| CgoSwitchDirectionStats { fixed_delay_cycles: inc(d.fixed_delay_cycles), ..d })
                },
                cgo_switch_step::Wait,
            )
        } else if !pause_ready {
            (
                engine_sched { next_mode: EngineMode::switch_delay, ..bump(e1, |d: CgoSwitchDirectionStats| CgoSwitchDirectionStats { commit_guard_cycles: inc(d.commit_guard_cycles), ..d }) },
                cgo_switch_step::Wait,
            )
        } else {
            (
                engine_sched {
                    switch_phase: SwitchPhase::Idle,
                    next_mode: flipped(e1.last_service_mode),
                    ..bump(e1, |d: CgoSwitchDirectionStats| CgoSwitchDirectionStats { commits: inc(d.commits), ..d })
                },
                cgo_switch_step::Commit { to_pim: e1.last_service_mode == EngineMode::HOST },
            )
        }
    }
}

/// One cycle of the CGO switch automaton before the pause request: a new switch counts a
/// request; a quiescing source counts a cycle until it is quiet (`quiesced`), and then the
/// timing model must be asked to pause; the later phases continue by `cgo_continue`.
pub open spec fn cgo_switch(e: engine_sched, from: EngineMode, quiesced: bool, pause_ready: bool) -> (engine_sched, cgo_switch_step) {
    if from != EngineMode::switch_delay {
        let e1 = switch_started(e, from);
        (bump(e1, |d: CgoSwitchDirectionStats| CgoSwitchDirectionStats { requests: inc(d.requests), ..d }), cgo_switch_step::Wait)
    } else if e.switch_phase == SwitchPhase::SourceQuiescing {
        if !quiesced {
            (
                engine_sched { next_mode: EngineMode::switch_delay, ..bump(e, |d: CgoSwitchDirectionStats| CgoSwitchDirectionStats { source_quiesce_cycles: inc(d.source_quiesce_cycles), ..d }) },
                cgo_switch_step::Wait,
            )
        } else {
            (e, cgo_switch_step::RequestPause)
        }
    } else {
        cgo_continue(e, pause_ready)
    }
}

/// The CGO switch right after the pause request: the parked and promoted transactions are
/// added to the statistics (totals wrap, maxima are kept) and the memory starts pausing.
pub open spec fn cgo_paused(e: engine_sched, parked: u64, promoted: u64, pause_ready: bool) -> (engine_sched, cgo_switch_step) {
    let e1 = bump(e, |d: CgoSwitchDirectionStats| CgoSwitchDirectionStats {
        parked_transactions_total: wadd(d.parked_transactions_total, parked),
        parked_transactions_max: if d.parked_transactions_max >= parked { d.parked_transactions_max } else { parked },
        promoted_transactions_total: wadd(d.promoted_transactions_total, promoted),
        promoted_transactions_max: if d.promoted_transactions_max >= promoted { d.promoted_transactions_max } else { promoted },
        ..d
    });
    cgo_continue(engine_sched { switch_phase: SwitchPhase::MemoryPausing, ..e1 }, pause_ready)
}

/// A switch in the delay is in a phase that the automaton can continue from.
pub open spec fn switch_ok(e: engine_sched, from: EngineMode, cgo: bool) -> bool {
    from == EngineMode::switch_delay ==> {
        &&& e.switch_phase != SwitchPhase::Idle
        &&& e.last_service_mode != EngineMode::switch_delay
        &&& (!cgo ==> e.switch_phase != SwitchPhase::MemoryPausing)
    }
}

impl engine_sched {
    /// One cycle of the plain switch automaton; see `legacy_switch`.
    pub fn switch_legacy(&mut self, from: EngineMode, drain_done: bool, drained: bool) -> (r: Option<mode_cmds>)
        requires
            switch_ok(*old(self), from, false),
        ensures
            (*final(self), r) == legacy_switch(*old(self), from, drain_done, drained),
    {
        match from {
            EngineMode::PIM | EngineMode::HOST => {
                self.next_mode = EngineMode::switch_delay;
                self.last_service_mode = from;
                self.switch_phase = SwitchPhase::SourceQuiescing;
                self.switch_delay_remaining = 0;
                None
            },
            EngineMode::switch_delay => {
                if self.switch_phase == SwitchPhase::SourceQuiescing {
                    if !drain_done {
                        self.next_mode = EngineMode::switch_delay;
                        return None;
                    }
                    self.switch_phase = SwitchPhase::NearRowSwitch;
                    self.switch_delay_remaining = self.near_switch_cycles;
                }
                if self.switch_delay_remaining > 0 {
                    self.switch_delay_remaining = self.switch_delay_remaining - 1;
                    self.next_mode = EngineMode::switch_delay;
                    return None;
                }
                if !drained {
                    self.next_mode = EngineMode::switch_delay;
                    return None;
                }
                self.switch_phase = SwitchPhase::Idle;
                match self.last_service_mode {
                    EngineMode::PIM => {
                        self.next_mode = EngineMode::HOST;
                        Some(mode_cmds { cancel_pause: false, portal: portal_mode::HOST, pim: false })
                    },
                    EngineMode::HOST => {
                        self.next_mode = EngineMode::PIM;
                        Some(mode_cmds { cancel_pause: false, portal: portal_mode::PIM, pim: true })
                    },
                    EngineMode::switch_delay => {
                        self.next_mode = EngineMode::switch_delay;
                        None
                    },
                }
            },
        }
    }

    fn continue_cgo_switch(&mut self, pause_ready: bool) -> (r: cgo_switch_step)
        requires
            old(self).switch_phase == SwitchPhase::MemoryPausing || old(self).switch_phase == SwitchPhase::NearRowSwitch,
            old(self).last_service_mode != EngineMode::switch_delay,
        ensures
            (*final(self), r) == cgo_continue(*old(self), pause_ready),
    {
        if self.switch_phase == SwitchPhase::MemoryPausing {
            if !pause_ready {
                let d = self.direction_of();
                self.set_direction(CgoSwitchDirectionStats { promoted_drain_cycles: inc_exec(d.promoted_drain_cycles), ..d });
                self.next_mode = EngineMode::switch_delay;
                return cgo_switch_step::Wait;
            }
            self.switch_phase = SwitchPhase::NearRowSwitch;
            self.switch_delay_remaining = self.near_switch_cycles;
        }
        if self.switch_delay_remaining > 0 {
            self.switch_delay_remaining = self.switch_delay_remaining - 1;
            let d = self.direction_of();
            self.set_direction(CgoSwitchDirectionStats { fixed_delay_cycles: inc_exec(d.fixed_delay_cycles), ..d });
            self.next_mode = EngineMode::switch_delay;
            return cgo_switch_step::Wait;
        }
        if !pause_ready {
            let d = self.direction_of();
            self.set_direction(CgoSwitchDirectionStats { commit_guard_cycles: inc_exec(d.commit_guard_cycles), ..d });
            self.next_mode = EngineMode::switch_delay;
            return cgo_switch_step::Wait;
        }
        self.switch_phase = SwitchPhase::Idle;
        let d = self.direction_of();
        self.set_direction(CgoSwitchDirectionStats { commits: inc_exec(d.commits), ..d });
        match self.last_service_mode {
            EngineMode::PIM => {
                self.next_mode = EngineMode::HOST;
                cgo_switch_step::Commit { to_pim: false }
            },
            _ => {
                self.next_mode = EngineMode::PIM;
                cgo_switch_step::Commit { to_pim: true }
            },
        }
    }

    /// One cycle of the CGO switch automaton up to the pause request; see `cgo_switch`.
    pub fn switch_cgo(&mut self, from: EngineMode, quiesced: bool, pause_ready: bool) -> (r: cgo_switch_step)
        requires
            switch_ok(*old(self), from, true),
        ensures
            (*final(self), r) == cgo_switch(*old(self), from, quiesced, pause_ready),
    {
        match from {
            EngineMode::PIM | EngineMode::HOST => {
                self.next_mode = EngineMode::switch_delay;
                self.last_service_mode = from;
                self.switch_phase = SwitchPhase::SourceQuiescing;
                self.switch_delay_remaining = 0;
                let d = self.direction_of();
                self.set_direction(CgoSwitchDirectionStats { requests: inc_exec(d.requests), ..d });
                cgo_switch_step::Wait
            },
            EngineMode::switch_delay => {
                if self.switch_phase == SwitchPhase::SourceQuiescing {
                    if !quiesced {
                        let d = self.direction_of();
                        self.set_direction(CgoSwitchDirectionStats { source_quiesce_cycles: inc_exec(d.source_quiesce_cycles), ..d });
                        self.next_mode = EngineMode::switch_delay;
                        return cgo_switch_step::Wait;
                    }
                    return cgo_switch_step::RequestPause;
                }
                self.continue_cgo_switch(pause_ready)
            },
        }
    }

    /// Continues the CGO switch after the timing model was asked to pause; see `cgo_paused`.
    pub fn cgo_pause_requested(&mut self, parked: u64, promoted: u64, pause_ready: bool) -> (r: cgo_switch_step)
        requires
            old(self).switch_phase == SwitchPhase::SourceQuiescing,
            old(self).last_service_mode != EngineMode::switch_delay,
        ensures
            (*final(self), r) == cgo_paused(*old(self), parked, promoted, pause_ready),
    {
        let d = self.direction_of();
        self.set_direction(CgoSwitchDirectionStats {
            parked_transactions_total: d.parked_transactions_total.wrapping_add(parked),
            parked_transactions_max: if d.parked_transactions_max >= parked { d.parked_transactions_max } else { parked },
            promoted_transactions_total: d.promoted_transactions_total.wrapping_add(promoted),
            promoted_transactions_max: if d.promoted_transactions_max >= promoted { d.promoted_transactions_max } else { promoted },
            ..d
        });
        self.switch_phase = SwitchPhase::MemoryPausing;
        self.continue_cgo_switch(pause_ready)
    }
}

/// What an FGO engine with nothing in flight does, serving `mode` with `next` due next:
/// the side due next is served if it has work, otherwise the other side; serving the side
/// that is not the current mode means switching.
pub open spec fn fgo_pick(mode: EngineMode, next: EngineMode, pim_ready: bool, host_ready: bool) -> fgo_choice {
    let pim = if mode == EngineMode::PIM { fgo_choice::IssuePim } else { fgo_choice::Switch };
    let host = if mode == EngineMode::HOST { fgo_choice::IssueHost } else { fgo_choice::Switch };
    if next == EngineMode::PIM && pim_ready {
        pim
    } else if next == EngineMode::HOST && host_ready {
        host
    } else if pim_ready {
        pim
    } else if host_ready {
        host
    } else {
        fgo_choice::Stay
    }
}

/// What an FGO engine observes in one scheduling step: whether the PE finished the
/// instruction in flight (asked only while one is in flight), whether it has a buffered
/// instruction, whether host requests wait, whether the host request in flight has drained,
/// and the two drain conditions of a switch.
#[derive(Clone, Copy, Debug, PartialEq, Eq, Structural)]
pub struct fgo_obs {
    pub pim_finished: bool,
    pub pim_ready: bool,
    pub host_ready: bool,
    pub host_drained: bool,
    pub drain_done: bool,
    pub drained: bool,
}

/// What an FGO scheduling step asks of the engine: let the PE run its next instruction, send
/// the oldest host request, or apply the commands of a committed switch.
#[derive(Clone, Copy, Debug, PartialEq, Eq, Structural)]
pub struct fgo_outcome {
    pub issue_pim: bool,
    pub issue_host: bool,
    pub commit: Option<mode_cmds>,
}

/// One scheduling step of FGO sharing: a basic round robin that admits one PE instruction
/// or one host request at a time, waits for its completion, then gives the other side
/// priority, switching the DRAM between them by the plain switch automaton.
pub open spec fn fgo_step(e: engine_sched, o: fgo_obs) -> (engine_sched, fgo_outcome) {
    let none = fgo_outcome { issue_pim: false, issue_host: false, commit: None };
    match e.mode {
        EngineMode::switch_delay => {
            let (e1, c) = legacy_switch(e, EngineMode::switch_delay, o.drain_done, o.drained);
            (e1, fgo_outcome { commit: c, ..none })
        },
        EngineMode::PIM => {
            let e1 = if e.fgo_request_state == FGO_RequestState::PimInFlight && o.pim_finished {
                engine_sched {
                    fgo_request_state: FGO_RequestState::Idle,
                    fgo_next_service: EngineMode::HOST,
                    fgo_commands_retired: (e.fgo_commands_retired + 1) as u64,
                    ..e
                }
            } else {
                e
            };
            if e1.fgo_request_state != FGO_RequestState::Idle {
                (e1, none)
            } else {
                match fgo_pick(EngineMode::PIM, e1.fgo_next_service, o.pim_ready, o.host_ready) {
                    fgo_choice::IssuePim => (engine_sched { fgo_request_state: FGO_RequestState::PimInFlight, ..e1 }, fgo_outcome { issue_pim: true, ..none }),
                    fgo_choice::Switch => (legacy_switch(e1, EngineMode::PIM, o.drain_done, o.drained).0, none),
                    _ => (e1, none),
                }
            }
        },
        EngineMode::HOST => {
            let e1 = if e.fgo_request_state == FGO_RequestState::HostInFlight && o.host_drained {
                engine_sched { fgo_request_state: FGO_RequestState::Idle, fgo_next_service: EngineMode::PIM, ..e }
            } else {
                e
            };
            if e1.fgo_request_state != FGO_RequestState::Idle {
                (e1, none)
            } else {
                match fgo_pick(EngineMode::HOST, e1.fgo_next_service, o.pim_ready, o.host_ready) {
                    fgo_choice::IssueHost => (engine_sched { fgo_request_state: FGO_RequestState::HostInFlight, ..e1 }, fgo_outcome { issue_host: true, ..none }),
                    fgo_choice::Switch => (legacy_switch(e1, EngineMode::HOST, o.drain_done, o.drained).0, none),
                    _ => (e1, none),
                }
            }
        },
    }
}

/// What a CGO engine sharing with the host observes in one scheduling step: where its
/// processor is, how many host requests wait, whether the side being left is quiet, and
/// whether the timing model is pause-ready.
#[derive(Clone, Copy, Debug, PartialEq, Eq, Structural)]
pub struct cgo_obs {
    pub lifecycle: CgoLifecycle,
    pub host_pool_len: u64,
    pub quiesced: bool,
    pub pause_ready: bool,
}

/// What a CGO sharing step asks of the engine: send every waiting host request, send the
/// oldest `take_host` host requests, ask the processor to pause or resume, apply forced mode
/// commands, and the switch step.
#[derive(Clone, Copy, Debug, PartialEq, Eq, Structural)]
pub struct cgo_outcome {
    pub submit_all_host: bool,
    pub take_host: u64,
    pub signal_pause: bool,
    pub signal_resume: bool,
    pub force: Option<mode_cmds>,
    pub switch: cgo_switch_step,
}

/// How many host requests one step of a host quantum takes: requests are taken until the
/// quantum's count passes the watermark (at least one is taken when any waits).
pub open spec fn quantum_take(rec: u64, watermark: u64, pool: u64) -> u64 {
    let want: u64 = if rec > watermark { 1 } else { (watermark + 1 - rec) as u64 };
    if pool < want { pool } else { want }
}

/// One scheduling step of CGO sharing, a batch-based fair share between the processor and
/// the host: while the processor boots it is served exclusively, before it starts and after
/// it finishes the host is; while it runs, a processor quantum ends when the host has
/// waited (the first time: when more requests than the watermark wait; later: when the
/// processor has had as many cycles as the last host quantum served requests), and a host
/// quantum serves up to the watermark's worth of requests; each quantum end pauses or
/// resumes the processor and starts a switch.
pub open spec fn cgo_step(e: engine_sched, o: cgo_obs) -> (engine_sched, cgo_outcome) {
    let none = cgo_outcome {
        submit_all_host: false,
        take_host: 0,
        signal_pause: false,
        signal_resume: false,
        force: None,
        switch: cgo_switch_step::Wait,
    };
    match o.lifecycle {
        CgoLifecycle::Idle | CgoLifecycle::Finished => match e.mode {
            EngineMode::HOST => (engine_sched { next_mode: EngineMode::HOST, ..e }, cgo_outcome { submit_all_host: true, ..none }),
            EngineMode::PIM => {
                let (e1, st) = cgo_switch(e, EngineMode::PIM, o.quiesced, o.pause_ready);
                (e1, cgo_outcome { switch: st, ..none })
            },
            EngineMode::switch_delay => if e.last_service_mode == EngineMode::HOST {
                let (e1, c) = forced(e, false);
                (e1, cgo_outcome { submit_all_host: true, force: Some(c), ..none })
            } else {
                let (e1, st) = cgo_switch(e, EngineMode::switch_delay, o.quiesced, o.pause_ready);
                (e1, cgo_outcome { switch: st, ..none })
            },
        },
        CgoLifecycle::Booting => match e.mode {
            EngineMode::PIM => (engine_sched { next_mode: EngineMode::PIM, ..e }, none),
            _ => {
                let (e1, st) = cgo_switch(e, e.mode, o.quiesced, o.pause_ready);
                (e1, cgo_outcome { switch: st, ..none })
            },
        },
        CgoLifecycle::Running => match e.mode {
            EngineMode::PIM => {
                let should = if e.first_host_switch_started {
                    e.PIM_tick_watermark <= e.PIM_tick_rec && o.host_pool_len > 0
                } else {
                    o.host_pool_len > e.MEM_req_watermarkL
                };
                if should {
                    let e1 = engine_sched { first_host_switch_started: true, PIM_tick_rec: 0, ..e };
                    let (e2, st) = cgo_switch(e1, EngineMode::PIM, o.quiesced, o.pause_ready);
                    (e2, cgo_outcome { signal_pause: true, switch: st, ..none })
                } else {
                    (engine_sched { PIM_tick_rec: (e.PIM_tick_rec + 1) as u64, ..e }, none)
                }
            },
            EngineMode::HOST => {
                let k = quantum_take(e.MEM_tick_rec, e.MEM_req_watermarkL, o.host_pool_len);
                let rec = (e.MEM_tick_rec + k) as u64;
                if rec > e.MEM_req_watermarkL || o.host_pool_len == k {
                    let e1 = engine_sched { PIM_tick_watermark: rec, MEM_tick_rec: 0, ..e };
                    let (e2, st) = cgo_switch(e1, EngineMode::HOST, o.quiesced, o.pause_ready);
                    (e2, cgo_outcome { take_host: k, signal_resume: true, switch: st, ..none })
                } else {
                    (engine_sched { MEM_tick_rec: rec, ..e }, cgo_outcome { take_host: k, ..none })
                }
            },
            EngineMode::switch_delay => {
                let (e1, st) = cgo_switch(e, EngineMode::switch_delay, o.quiesced, o.pause_ready);
                (e1, cgo_outcome { switch: st, ..none })
            },
        },
    }
}

impl engine_sched {
    /// The choice of an FGO engine with nothing in flight; see `fgo_pick`.
    pub fn fgo_select(&self, pim_ready: bool, host_ready: bool) -> (r: fgo_choice)
        requires
            self.mode != EngineMode::switch_delay,
        ensures
            r == fgo_pick(self.mode, self.fgo_next_service, pim_ready, host_ready),
    {
        let pim = match self.mode {
            EngineMode::PIM => fgo_choice::IssuePim,
            _ => fgo_choice::Switch,
        };
        let host = match self.mode {
            EngineMode::HOST => fgo_choice::IssueHost,
            _ => fgo_choice::Switch,
        };
        match self.fgo_next_service {
            EngineMode::PIM if pim_ready => pim,
            EngineMode::HOST if host_ready => host,
            _ => if pim_ready {
                pim
            } else if host_ready {
                host
            } else {
                fgo_choice::Stay
            },
        }
    }

    /// One scheduling step of FGO sharing; see `fgo_step`.
    pub fn schedule_host_fgo_share(&mut self, o: fgo_obs) -> (r: fgo_outcome)
        requires
            switch_ok(*old(self), old(self).mode, false),
            old(self).fgo_commands_retired < u64::MAX,
        ensures
            (*final(self), r) == fgo_step(*old(self), o),
    {
        let none = fgo_outcome { issue_pim: false, issue_host: false, commit: None };
        match self.mode {
            EngineMode::switch_delay => {
                let c = self.switch_legacy(EngineMode::switch_delay, o.drain_done, o.drained);
                fgo_outcome { commit: c, ..none }
            },
            EngineMode::PIM => {
                if self.fgo_request_state == FGO_RequestState::PimInFlight && o.pim_finished {
                    self.fgo_request_state = FGO_RequestState::Idle;
                    self.fgo_next_service = EngineMode::HOST;
                    self.fgo_commands_retired = self.fgo_commands_retired + 1;
                }
                if self.fgo_request_state != FGO_RequestState::Idle {
                    return none;
                }
                match self.fgo_select(o.pim_ready, o.host_ready) {
                    fgo_choice::IssuePim => {
                        self.fgo_request_state = FGO_RequestState::PimInFlight;
                        fgo_outcome { issue_pim: true, ..none }
                    },
                    fgo_choice::Switch => {
                        self.switch_legacy(EngineMode::PIM, o.drain_done, o.drained);
                        none
                    },
                    _ => none,
                }
            },
            EngineMode::HOST => {
                if self.fgo_request_state == FGO_RequestState::HostInFlight && o.host_drained {
                    self.fgo_request_state = FGO_RequestState::Idle;
                    self.fgo_next_service = EngineMode::PIM;
                }
                if self.fgo_request_state != FGO_RequestState::Idle {
                    return none;
                }
                match self.fgo_select(o.pim_ready, o.host_ready) {
                    fgo_choice::IssueHost => {
                        self.fgo_request_state = FGO_RequestState::HostInFlight;
                        fgo_outcome { issue_host: true, ..none }
                    },
                    fgo_choice::Switch => {
                        self.switch_legacy(EngineMode::HOST, o.drain_done, o.drained);
                        none
                    },
                    _ => none,
                }
            },
        }
    }

    /// One scheduling step of CGO sharing; see `cgo_step`.
    pub fn schedule_host_cgo_share(&mut self, o: cgo_obs) -> (r: cgo_outcome)
        requires
            switch_ok(*old(self), old(self).mode, true),
            old(self).PIM_tick_rec < u64::MAX,
            old(self).MEM_tick_rec + old(self).MEM_req_watermarkL + 1 <= u64::MAX,
        ensures
            (*final(self), r) == cgo_step(*old(self), o),
    {
        let none = cgo_outcome {
            submit_all_host: false,
            take_host: 0,
            signal_pause: false,
            signal_resume: false,
            force: None,
            switch: cgo_switch_step::Wait,
        };
        match o.lifecycle {
            CgoLifecycle::Idle | CgoLifecycle::Finished => match self.mode {
                EngineMode::HOST => {
                    self.next_mode = EngineMode::HOST;
                    cgo_outcome { submit_all_host: true, ..none }
                },
                EngineMode::PIM => {
                    let st = self.switch_cgo(EngineMode::PIM, o.quiesced, o.pause_ready);
                    cgo_outcome { switch: st, ..none }
                },
                EngineMode::switch_delay => {
                    if self.last_service_mode == EngineMode::HOST {
                        let c = self.force_host_mode();
                        cgo_outcome { submit_all_host: true, force: Some(c), ..none }
                    } else {
                        let st = self.switch_cgo(EngineMode::switch_delay, o.quiesced, o.pause_ready);
                        cgo_outcome { switch: st, ..none }
                    }
                },
            },
            CgoLifecycle::Booting => match self.mode {
                EngineMode::PIM => {
                    self.next_mode = EngineMode::PIM;
                    none
                },
                _ => {
                    let m = self.mode;
                    let st = self.switch_cgo(m, o.quiesced, o.pause_ready);
                    cgo_outcome { switch: st, ..none }
                },
            },
            CgoLifecycle::Running => match self.mode {
                EngineMode::PIM => {
                    let should = if self.first_host_switch_started {
                        self.PIM_tick_watermark <= self.PIM_tick_rec && o.host_pool_len > 0
                    } else {
                        o.host_pool_len > self.MEM_req_watermarkL
                    };
                    if should {
                        self.first_host_switch_started = true;
                        self.PIM_tick_rec = 0;
                        let st = self.switch_cgo(EngineMode::PIM, o.quiesced, o.pause_ready);
                        cgo_outcome { signal_pause: true, switch: st, ..none }
                    } else {
                        self.PIM_tick_rec = self.PIM_tick_rec + 1;
                        none
                    }
                },
                EngineMode::HOST => {
                    let want: u64 = if self.MEM_tick_rec > self.MEM_req_watermarkL {
                        1
                    } else {
                        self.MEM_req_watermarkL + 1 - self.MEM_tick_rec
                    };
                    let k = if o.host_pool_len < want { o.host_pool_len } else { want };
                    let rec = self.MEM_tick_rec + k;
                    if rec > self.MEM_req_watermarkL || o.host_pool_len == k {
                        self.PIM_tick_watermark = rec;
                        self.MEM_tick_rec = 0;
                        let st = self.switch_cgo(EngineMode::HOST, o.quiesced, o.pause_ready);
                        cgo_outcome { take_host: k, signal_resume: true, switch: st, ..none }
                    } else {
                        self.MEM_tick_rec = rec;
                        cgo_outcome { take_host: k, ..none }
                    }
                },
                EngineMode::switch_delay => {
                    let st = self.switch_cgo(EngineMode::switch_delay, o.quiesced, o.pause_ready);
                    cgo_outcome { switch: st, ..none }
                },
            },
        }
    }
}


/// What a sequential engine observes in one scheduling step: whether the PE finished the
/// instruction in flight (asked only while one is in flight), whether it has a buffered
/// instruction, how many host requests wait, and whether the host side of the portal and
/// the timing model are drained.
#[derive(Clone, Copy, Debug, PartialEq, Eq, Structural)]
pub struct seq_obs {
    pub pim_finished: bool,
    pub pim_ready: bool,
    pub host_pool_len: u64,
    pub drained: bool,
}

/// What a sequential scheduling step asks of the engine: send every waiting host request in
/// host service, or as orchestration traffic during processor service; let the PE run its next
/// instruction; apply the commands of the hand-off to processor service.
#[derive(Clone, Copy, Debug, PartialEq, Eq, Structural)]
pub struct seq_outcome {
    pub submit_all_host: bool,
    pub submit_host_in_pim: bool,
    pub issue_pim: bool,
    pub force: Option<mode_cmds>,
}

/// One scheduling step of sequential execution: host traffic drains in host service; once a
/// PIM command has arrived, no host request waits and everything has drained, the engine hands
/// off to processor service at once, with no modelled switch; in processor service, host
/// requests pass as orchestration traffic and an FGO engine runs its instructions one at a time.
pub open spec fn seq_step(e: engine_sched, o: seq_obs) -> (engine_sched, seq_outcome) {
    let none = seq_outcome { submit_all_host: false, submit_host_in_pim: false, issue_pim: false, force: None };
    match e.mode {
        EngineMode::HOST => if e.sequential_pim_requested && o.host_pool_len == 0 && o.drained {
            let (e1, c) = forced(e, true);
            (e1, seq_outcome { submit_all_host: true, force: Some(c), ..none })
        } else {
            (e, seq_outcome { submit_all_host: true, ..none })
        },
        _ => if e.processor == EngineProcessorKind::FGO {
            let e1 = if e.fgo_request_state == FGO_RequestState::PimInFlight && o.pim_finished {
                engine_sched {
                    fgo_request_state: FGO_RequestState::Idle,
                    fgo_commands_retired: (e.fgo_commands_retired + 1) as u64,
                    ..e
                }
            } else {
                e
            };
            if e1.fgo_request_state == FGO_RequestState::Idle && o.pim_ready {
                (
                    engine_sched { fgo_request_state: FGO_RequestState::PimInFlight, ..e1 },
                    seq_outcome { submit_host_in_pim: true, issue_pim: true, ..none },
                )
            } else {
                (e1, seq_outcome { submit_host_in_pim: true, ..none })
            }
        } else {
            (e, seq_outcome { submit_host_in_pim: true, ..none })
        },
    }
}

/// Everything a scheduling step may observe; each scheduling mode reads its own part.
#[derive(Clone, Copy, Debug, PartialEq, Eq, Structural)]
pub struct sched_obs {
    pub fgo: fgo_obs,
    pub cgo: cgo_obs,
    pub seq: seq_obs,
}

/// What a scheduling step asks of the engine, by scheduling mode.
#[derive(Clone, Copy, Debug, PartialEq, Eq, Structural)]
pub enum sched_action {
    /// CGO only: apply the commands that force processor service.
    CgoOnly(mode_cmds),
    /// Host only: apply the commands that force host service, then send every waiting host
    /// request.
    HostOnly(mode_cmds),
    CgoShare(cgo_outcome),
    FgoShare(fgo_outcome),
    Sequential(seq_outcome),
}

/// One scheduling step of a configured engine, dispatched on its scheduling mode.
pub open spec fn sched_step(e: engine_sched, o: sched_obs) -> (engine_sched, sched_action) {
    match e.scheduling_mode {
        EngineSchedulingMode::CGO_only => {
            let (e1, c) = forced(e, true);
            (e1, sched_action::CgoOnly(c))
        },
        EngineSchedulingMode::HostOnly => {
            let (e1, c) = forced(e, false);
            (e1, sched_action::HostOnly(c))
        },
        EngineSchedulingMode::Host_CGO_share => {
            let (e1, r) = cgo_step(e, o.cgo);
            (e1, sched_action::CgoShare(r))
        },
        EngineSchedulingMode::Host_FGO_share => {
            let (e1, r) = fgo_step(e, o.fgo);
            (e1, sched_action::FgoShare(r))
        },
        _ => {
            let (e1, r) = seq_step(e, o.seq);
            (e1, sched_action::Sequential(r))
        },
    }
}

/// What the mode of a scheduling step needs of the state: a configured mode; a switch state
/// that the switch automaton of the mode accepts; counters with room to count; a sequential
/// engine never in a switch.
pub open spec fn sched_ok(e: engine_sched) -> bool {
    match e.scheduling_mode {
        EngineSchedulingMode::Unconfigured => false,
        EngineSchedulingMode::Host_CGO_share => {
            &&& switch_ok(e, e.mode, true)
            &&& e.PIM_tick_rec < u64::MAX
            &&& e.MEM_tick_rec + e.MEM_req_watermarkL + 1 <= u64::MAX
        },
        EngineSchedulingMode::Host_FGO_share => {
            &&& switch_ok(e, e.mode, false)
            &&& e.fgo_commands_retired < u64::MAX
        },
        EngineSchedulingMode::Sequential => {
            &&& e.mode != EngineMode::switch_delay
            &&& e.fgo_commands_retired < u64::MAX
        },
        _ => true,
    }
}

impl engine_sched {
    /// One scheduling step of sequential execution; see `seq_step`.
    pub fn schedule_sequential(&mut self, o: seq_obs) -> (r: seq_outcome)
        requires
            old(self).mode != EngineMode::switch_delay,
            old(self).fgo_commands_retired < u64::MAX,
        ensures
            (*final(self), r) == seq_step(*old(self), o),
    {
        let none = seq_outcome { submit_all_host: false, submit_host_in_pim: false, issue_pim: false, force: None };
        match self.mode {
            EngineMode::HOST => {
                if self.sequential_pim_requested && o.host_pool_len == 0 && o.drained {
                    let c = self.force_pim_mode();
                    seq_outcome { submit_all_host: true, force: Some(c), ..none }
                } else {
                    seq_outcome { submit_all_host: true, ..none }
                }
            },
            _ => {
                if self.processor == EngineProcessorKind::FGO {
                    if self.fgo_request_state == FGO_RequestState::PimInFlight && o.pim_finished {
                        self.fgo_request_state = FGO_RequestState::Idle;
                        self.fgo_commands_retired = self.fgo_commands_retired + 1;
                    }
                    if self.fgo_request_state == FGO_RequestState::Idle && o.pim_ready {
                        self.fgo_request_state = FGO_RequestState::PimInFlight;
                        seq_outcome { submit_host_in_pim: true, issue_pim: true, ..none }
                    } else {
                        seq_outcome { submit_host_in_pim: true, ..none }
                    }
                } else {
                    seq_outcome { submit_host_in_pim: true, ..none }
                }
            },
        }
    }

    /// One scheduling step of a configured engine; see `sched_step`. An engine whose
    /// scheduling mode is not configured cannot be scheduled.
    pub fn schedule(&mut self, o: sched_obs) -> (r: sched_action)
        requires
            sched_ok(*old(self)),
        ensures
            (*final(self), r) == sched_step(*old(self), o),
    {
        match self.scheduling_mode {
            EngineSchedulingMode::CGO_only => sched_action::CgoOnly(self.force_pim_mode()),
            EngineSchedulingMode::HostOnly => sched_action::HostOnly(self.force_host_mode()),
            EngineSchedulingMode::Host_CGO_share => sched_action::CgoShare(self.schedule_host_cgo_share(o.cgo)),
            EngineSchedulingMode::Host_FGO_share => sched_action::FgoShare(self.schedule_host_fgo_share(o.fgo)),
            _ => sched_action::Sequential(self.schedule_sequential(o.seq)),
        }
    }
}


/// The plain switch automaton run for `k` delay cycles with the source drained and the timing
/// model drained throughout.
pub open spec fn legacy_run(e: engine_sched, k: nat) -> engine_sched
    decreases k,
{
    if k == 0 {
        e
    } else {
        legacy_switch(legacy_run(e, (k - 1) as nat), EngineMode::switch_delay, true, true).0
    }
}

proof fn lemma_countdown(e: engine_sched, j: nat)
    requires
        e.switch_phase == SwitchPhase::NearRowSwitch,
        j <= e.switch_delay_remaining,
    ensures
        legacy_run(e, j) == (if j == 0 { e } else {
            engine_sched {
                switch_delay_remaining: (e.switch_delay_remaining - j) as u64,
                next_mode: EngineMode::switch_delay,
                ..e
            }
        }),
    decreases j,
{
    if j > 0 {
        lemma_countdown(e, (j - 1) as nat);
    }
}

proof fn lemma_run_shift(e: engine_sched, j: nat)
    ensures
        legacy_run(e, j + 1) == legacy_run(legacy_run(e, 1), j),
    decreases j,
{
    if j > 0 {
        lemma_run_shift(e, (j - 1) as nat);
    }
}

/// A plain switch away from the processor or the host, with both sides drained, spends one
/// delay cycle per near-row switch cycle and commits on the cycle after: for the first
/// `near_switch_cycles` cycles the engine stays in the delay, and then it serves the other side,
/// with the commands that move the portal and the timing model there.
pub proof fn lemma_switch_round_trip(e: engine_sched, m: EngineMode, j: nat)
    requires
        m != EngineMode::switch_delay,
        1 <= j <= e.near_switch_cycles,
    ensures
        legacy_run(switch_started(e, m), j).next_mode == EngineMode::switch_delay,
        legacy_run(switch_started(e, m), (e.near_switch_cycles + 1) as nat).next_mode == flipped(m),
        legacy_run(switch_started(e, m), (e.near_switch_cycles + 1) as nat).switch_phase == SwitchPhase::Idle,
        legacy_switch(legacy_run(switch_started(e, m), e.near_switch_cycles as nat), EngineMode::switch_delay, true, true).1
            == commit_cmds(m),
        flipped(flipped(m)) == m,
{
    lemma_switch_commits(e, m);
    let s0 = switch_started(e, m);
    let s1 = legacy_run(s0, 1);
    assert(legacy_run(s0, 0) == s0);
    assert(s1 == legacy_switch(s0, EngineMode::switch_delay, true, true).0);
    lemma_run_shift(s0, (j - 1) as nat);
    lemma_countdown(s1, (j - 1) as nat);
}

/// A plain switch away from `m` with both sides drained commits after exactly
/// `near_switch_cycles + 1` delay cycles.
pub proof fn lemma_switch_commits(e: engine_sched, m: EngineMode)
    requires
        m != EngineMode::switch_delay,
    ensures
        legacy_run(switch_started(e, m), (e.near_switch_cycles + 1) as nat).next_mode == flipped(m),
        legacy_run(switch_started(e, m), (e.near_switch_cycles + 1) as nat).switch_phase == SwitchPhase::Idle,
        legacy_switch(legacy_run(switch_started(e, m), e.near_switch_cycles as nat), EngineMode::switch_delay, true, true).1
            == commit_cmds(m),
{
    let s0 = switch_started(e, m);
    let n = e.near_switch_cycles;
    let s1 = legacy_run(s0, 1);
    assert(legacy_run(s0, 0) == s0);
    assert(s1 == legacy_switch(s0, EngineMode::switch_delay, true, true).0);
    if n == 0 {
        assert(legacy_run(s0, 0) == s0);
    } else {
        lemma_run_shift(s0, (n - 1) as nat);
        lemma_countdown(s1, (n - 1) as nat);
        assert(legacy_run(s0, (n + 1) as nat) == legacy_switch(legacy_run(s0, n as nat), EngineMode::switch_delay, true, true).0);
    }
}

/// The scheduling mode is configured once: after a configuration succeeds, every later one
/// fails and changes nothing; a configuration succeeds exactly on an unconfigured engine, with
/// a mode other than `Unconfigured` that the processor can run under.
pub proof fn lemma_configure_once(e: engine_sched, m1: EngineSchedulingMode, m2: EngineSchedulingMode)
    ensures
        configured(e, m1) is Ok <==> (e.scheduling_mode == EngineSchedulingMode::Unconfigured
            && m1 != EngineSchedulingMode::Unconfigured && compatible(e.processor, m1)),
        configured(e, m1) is Ok ==> configured(configured(e, m1)->Ok_0.0, m2)
            == Err::<(engine_sched, mode_cmds), &'static str>("engine scheduling mode can only be configured once"),
{
}

/// A sequential engine never enters the switch delay: if neither its mode nor its next mode is
/// the delay, neither is after a scheduling step.
pub proof fn lemma_sequential_never_switches(e: engine_sched, o: seq_obs)
    requires
        e.mode != EngineMode::switch_delay,
        e.next_mode != EngineMode::switch_delay,
    ensures
        seq_step(e, o).0.mode != EngineMode::switch_delay,
        seq_step(e, o).0.next_mode != EngineMode::switch_delay,
        seq_step(e, o).0.switch_phase == e.switch_phase || seq_step(e, o).0.switch_phase == SwitchPhase::Idle,
{
}

/// FGO sharing admits one thing at a time: a step never issues both a PE instruction and a
/// host request; it issues one only in the matching service, with nothing left in flight, and
/// then waits for it.
pub proof fn lemma_fgo_one_at_a_time(e: engine_sched, o: fgo_obs)
    ensures
        !(fgo_step(e, o).1.issue_pim && fgo_step(e, o).1.issue_host),
        fgo_step(e, o).1.issue_pim ==> {
            &&& e.mode == EngineMode::PIM
            &&& (e.fgo_request_state == FGO_RequestState::Idle || (e.fgo_request_state
                == FGO_RequestState::PimInFlight && o.pim_finished))
            &&& fgo_step(e, o).0.fgo_request_state == FGO_RequestState::PimInFlight
        },
        fgo_step(e, o).1.issue_host ==> {
            &&& e.mode == EngineMode::HOST
            &&& (e.fgo_request_state == FGO_RequestState::Idle || (e.fgo_request_state
                == FGO_RequestState::HostInFlight && o.host_drained))
            &&& fgo_step(e, o).0.fgo_request_state == FGO_RequestState::HostInFlight
        },
{
}

/// The exclusive modes keep their side: a CGO-only engine serves its processor and a
/// host-only engine the host after every scheduling step, with no switch in progress.
pub proof fn lemma_exclusive_modes(e: engine_sched, o: sched_obs)
    ensures
        e.scheduling_mode == EngineSchedulingMode::CGO_only ==> sched_step(e, o).0.mode == EngineMode::PIM
            && sched_step(e, o).0.next_mode == EngineMode::PIM && sched_step(e, o).0.switch_phase == SwitchPhase::Idle,
        e.scheduling_mode == EngineSchedulingMode::HostOnly ==> sched_step(e, o).0.mode == EngineMode::HOST
            && sched_step(e, o).0.next_mode == EngineMode::HOST && sched_step(e, o).0.switch_phase == SwitchPhase::Idle,
{
}


/// Which processor work an engine tick does before its memory work.
#[derive(Clone, Copy, Debug, PartialEq, Eq, Structural)]
pub enum processor_tick {
    /// The CGO side runs: the CPU if started, else its boot controller (see `cgo_tick`).
    Cgo,
    /// The PE runs one cycle.
    Pe,
    /// No processor work this cycle.
    Nothing,
}

/// What the CGO side does in one tick.
#[derive(Clone, Copy, Debug, PartialEq, Eq, Structural)]
pub enum cgo_tick {
    /// The started CPU runs one cycle.
    Cpu,
    /// The boot controller runs one step (and the CPU starts once it has finished).
    Boot,
    /// Nothing runs.
    Idle,
}

impl engine_sched {
    /// The processor work of a tick: a CGO engine in a mode that runs it drives its CGO side;
    /// an FGO engine runs its PE only while serving it with an instruction in flight; a
    /// host-only engine runs no processor.
    pub fn processor_tick(&self) -> (r: processor_tick)
        requires
            self.scheduling_mode != EngineSchedulingMode::Unconfigured,
            compatible(self.processor, self.scheduling_mode),
        ensures
            r == (if self.scheduling_mode == EngineSchedulingMode::HostOnly {
                processor_tick::Nothing
            } else if self.processor == EngineProcessorKind::CGO {
                processor_tick::Cgo
            } else if self.mode == EngineMode::PIM && self.fgo_request_state == FGO_RequestState::PimInFlight {
                processor_tick::Pe
            } else {
                processor_tick::Nothing
            }),
    {
        match self.scheduling_mode {
            EngineSchedulingMode::HostOnly => processor_tick::Nothing,
            _ => match self.processor {
                EngineProcessorKind::CGO => processor_tick::Cgo,
                EngineProcessorKind::FGO => {
                    if self.mode == EngineMode::PIM && self.fgo_request_state == FGO_RequestState::PimInFlight {
                        processor_tick::Pe
                    } else {
                        processor_tick::Nothing
                    }
                },
            },
        }
    }

    /// What the CGO side does: a started CPU runs; before that the boot controller runs only
    /// while the engine serves the processor.
    pub fn cgo_tick(&self, cpu_started: bool) -> (r: cgo_tick)
        ensures
            r == (if cpu_started {
                cgo_tick::Cpu
            } else if self.mode == EngineMode::PIM {
                cgo_tick::Boot
            } else {
                cgo_tick::Idle
            }),
    {
        if cpu_started {
            cgo_tick::Cpu
        } else if self.mode == EngineMode::PIM {
            cgo_tick::Boot
        } else {
            cgo_tick::Idle
        }
    }

    /// Whether a CGO start command may switch the boot controller on: not on a host-only
    /// engine.
    pub fn cgo_start_allowed(&self) -> (r: bool)
        ensures
            r == (self.scheduling_mode != EngineSchedulingMode::HostOnly),
    {
        self.scheduling_mode != EngineSchedulingMode::HostOnly
    }

    /// Where a request the timing model refused goes back: a host request of a sequential
    /// engine serving its processor goes back as orchestration traffic, anything else to the
    /// ordinary queue.
    pub fn retry_in_pim_phase(&self, req_is_pim: bool) -> (r: bool)
        ensures
            r == (self.scheduling_mode == EngineSchedulingMode::Sequential && self.mode == EngineMode::PIM && !req_is_pim),
    {
        self.scheduling_mode == EngineSchedulingMode::Sequential && self.mode == EngineMode::PIM && !req_is_pim
    }

    /// Whether the side a switch leaves has drained: the processor (for a CGO engine, finished
    /// or ready for the pause signal, `cgo_ready`), its portal side and the timing model when
    /// leaving the processor; the host side of the portal and the timing model when leaving
    /// the host.
    pub fn switch_drain_done(&self, cgo_ready: bool, pim_port_drained: bool, host_port_drained: bool, dsim_drained: bool) -> (r: bool)
        ensures
            r == match self.last_service_mode {
                EngineMode::PIM => (self.processor == EngineProcessorKind::FGO || cgo_ready) && pim_port_drained
                    && dsim_drained,
                EngineMode::HOST => host_port_drained && dsim_drained,
                EngineMode::switch_delay => false,
            },
    {
        match self.last_service_mode {
            EngineMode::PIM => {
                let processor_ready = match self.processor {
                    EngineProcessorKind::CGO => cgo_ready,
                    EngineProcessorKind::FGO => true,
                };
                processor_ready && pim_port_drained && dsim_drained
            },
            EngineMode::HOST => host_port_drained && dsim_drained,
            EngineMode::switch_delay => false,
        }
    }

    /// Whether the side a CGO switch leaves is quiet: the CPU finished or ready for the pause
    /// signal (`cgo_ready`) with the portal's processor side drained; or every request of the
    /// host quantum completed (`host_quantum_done`) with the portal's host side drained.
    pub fn cgo_source_quiesced(&self, cgo_ready: bool, pim_port_drained: bool, host_quantum_done: bool, host_port_drained: bool) -> (r: bool)
        ensures
            r == match self.last_service_mode {
                EngineMode::PIM => cgo_ready && pim_port_drained,
                EngineMode::HOST => host_quantum_done && host_port_drained,
                EngineMode::switch_delay => false,
            },
    {
        match self.last_service_mode {
            EngineMode::PIM => cgo_ready && pim_port_drained,
            EngineMode::HOST => host_quantum_done && host_port_drained,
            EngineMode::switch_delay => false,
        }
    }

    /// Whether the engine reached its final barrier: a CGO engine when its CPU finished
    /// (`cpu_finished`), an FGO engine at its barrier (see `reached_fgo_barrier`).
    pub fn reached_final_barrier(&self, cpu_finished: bool) -> (r: bool)
        ensures
            r == match self.processor {
                EngineProcessorKind::CGO => cpu_finished,
                EngineProcessorKind::FGO => self.fgo_barrier_sequence == Some(self.fgo_commands_enqueued)
                    && self.fgo_commands_retired >= self.fgo_commands_enqueued,
            },
    {
        match self.processor {
            EngineProcessorKind::CGO => cpu_finished,
            EngineProcessorKind::FGO => self.reached_fgo_barrier(),
        }
    }

    /// The switch statistics, kept only under CGO sharing.
    pub fn cgo_switch_stats(&self) -> (r: Option<CgoSwitchStats>)
        ensures
            r == (if self.scheduling_mode == EngineSchedulingMode::Host_CGO_share { Some(self.stats) } else { None }),
    {
        if self.scheduling_mode == EngineSchedulingMode::Host_CGO_share {
            Some(self.stats)
        } else {
            None
        }
    }

    /// Whether a host write is mirrored into the processor's memory: while host
    /// initialization mirroring is on and, for a CGO engine, its CPU has not started.
    pub fn mirrors_host_writes(&self, cpu_started: bool) -> (r: bool)
        ensures
            r == (self.init_mirroring_enabled && !(self.processor == EngineProcessorKind::CGO && cpu_started)),
    {
        self.init_mirroring_enabled && !(self.processor == EngineProcessorKind::CGO && cpu_started)
    }

    /// The end of a tick: the engine serves what the scheduling step chose.
    pub fn advance_mode(&mut self)
        ensures
            *final(self) == (engine_sched { mode: old(self).next_mode, ..*old(self) }),
    {
        self.mode = self.next_mode;
    }
}


/// Why an engine refuses a host PIM command.
#[derive(Clone, Copy, Debug, PartialEq, Eq)]
pub enum admit_error {
    /// The request is marked as a PIM access; host commands come as host requests.
    PimRequest,
    /// The access direction does not match the command.
    Access,
    /// The engine's processor does not take the command.
    Route,
    /// A PE memory instruction names an address beyond the pseudo bank: the instruction's name
    /// and the address.
    OutOfBounds(&'static str, u32),
}

/// Admitting a host PIM command `cmd` carried by a request (a PIM access when `req_is_pim`)
/// in direction `is_write`: checked in that order, then recorded (see `noted`).
pub open spec fn admitted(e: engine_sched, req_is_pim: bool, cmd: pim_cmd, is_write: bool) -> Result<engine_sched, admit_error> {
    if req_is_pim {
        Err(admit_error::PimRequest)
    } else if (cmd is CgoQuery) == is_write {
        Err(admit_error::Access)
    } else if !accepts_cmd(e.processor, cmd, is_write) {
        Err(admit_error::Route)
    } else if cmd matches pim_cmd::Fgo(i) && pe_mem_target(i) matches Some((op, a)) && a >= PSEUDO_BANK_ENTRIES {
        Err(admit_error::OutOfBounds(pe_mem_target(cmd->Fgo_0)->Some_0.0, pe_mem_target(cmd->Fgo_0)->Some_0.1))
    } else {
        Ok(noted(e, cmd))
    }
}

impl engine_sched {
    /// Admits a host PIM command for the engine's processor and records it; see `admitted`. A
    /// refused command changes nothing. The caller then queues the request for the processor.
    pub fn enqueue_host_pim_request(&mut self, req_is_pim: bool, cmd: pim_cmd, is_write: bool) -> (r: Result<(), admit_error>)
        requires
            old(self).fgo_commands_enqueued < u64::MAX,
        ensures
            match admitted(*old(self), req_is_pim, cmd, is_write) {
                Ok(e) => r is Ok && *final(self) == e,
                Err(x) => r == Err::<(), admit_error>(x) && *final(self) == *old(self),
            },
    {
        if req_is_pim {
            return Err(admit_error::PimRequest);
        }
        if validate_pim_cmd_access(cmd, is_write).is_err() {
            return Err(admit_error::Access);
        }
        if !self.can_accept_pim_cmd(cmd, is_write) {
            return Err(admit_error::Route);
        }
        match Self::validate_pim_command_bounds(cmd) {
            Err((op, a)) => {
                return Err(admit_error::OutOfBounds(op, a));
            },
            Ok(()) => {},
        }
        self.note_pim_command(cmd);
        Ok(())
    }
}

} // verus!
