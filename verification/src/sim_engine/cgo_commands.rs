use vstd::prelude::*;
use std::collections::VecDeque;
use crate::cpu::boot_fsm::{CPU_boot_FSM, CPU_boot_FSM_states, boot_view};
use crate::memory::mem_portal::dram_req;

verus! {

/// The start commands a CGO engine has received and not yet handled, and those it has handled,
/// whose requests go back to the host; both oldest first.
pub struct cgo_cmd_queues {
    pending: VecDeque<dram_req>,
    done: VecDeque<dram_req>,
}

/// The boot controller after a start, allowed or not: an allowed start arms an idle
/// controller; anything else leaves it as it was.
pub open spec fn started(b: boot_view, allowed: bool) -> boot_view {
    if allowed && b.state == CPU_boot_FSM_states::IDLE {
        boot_view { state: CPU_boot_FSM_states::DRAM2AGU_submit, ..b }
    } else {
        b
    }
}

impl cgo_cmd_queues {
    /// No command.
    pub fn new() -> (r: Self)
        ensures
            r.pending_view() == Seq::<dram_req>::empty(),
            r.done_view() == Seq::<dram_req>::empty(),
    {
        cgo_cmd_queues { pending: VecDeque::new(), done: VecDeque::new() }
    }

    /// The start commands not yet handled.
    pub closed spec fn pending_view(&self) -> Seq<dram_req> {
        self.pending@
    }

    /// The handled commands whose requests wait to go back to the host.
    pub closed spec fn done_view(&self) -> Seq<dram_req> {
        self.done@
    }

    /// Queues a start command carried by `req`.
    pub fn push_start(&mut self, req: dram_req)
        ensures
            final(self).pending_view() == old(self).pending_view().push(req),
            final(self).done_view() == old(self).done_view(),
    {
        self.pending.push_back(req);
    }

    /// Handles every queued start in order: each arms the boot controller when starts are
    /// allowed (`start_allowed`) and the controller is idle, so only the first can; the others
    /// are irregular. Every request is answered. Returns, per start, whether it was taken.
    pub fn process_cgo_cmds(&mut self, start_allowed: bool, boot: &mut CPU_boot_FSM) -> (r: Vec<bool>)
        ensures
            final(self).pending_view() == Seq::<dram_req>::empty(),
            final(self).done_view() == old(self).done_view() + old(self).pending_view(),
            r@.len() == old(self).pending_view().len(),
            forall|i: int|
                0 <= i < r@.len() ==> #[trigger] r@[i] == (i == 0 && start_allowed && old(boot)@.state
                    == CPU_boot_FSM_states::IDLE),
            final(boot)@ == (if old(self).pending_view().len() > 0 {
                started(old(boot)@, start_allowed)
            } else {
                old(boot)@
            }),
    {
        let ghost p = self.pending@;
        let ghost d = self.done@;
        let ghost b0 = boot@;
        let mut accepted: Vec<bool> = Vec::new();
        while self.pending.len() > 0
            invariant
                p == old(self).pending@,
                d == old(self).done@,
                b0 == old(boot)@,
                accepted@.len() + self.pending@.len() == p.len(),
                self.pending@ == p.skip(accepted@.len() as int),
                self.done@ == d + p.take(accepted@.len() as int),
                forall|i: int|
                    0 <= i < accepted@.len() ==> #[trigger] accepted@[i] == (i == 0 && start_allowed && b0.state
                        == CPU_boot_FSM_states::IDLE),
                boot@ == (if accepted@.len() > 0 { started(b0, start_allowed) } else { b0 }),
            decreases self.pending@.len(),
        {
            let ghost n = accepted@.len() as int;
            let req = self.pending.pop_front().unwrap();
            let ok = start_allowed && boot.set_on();
            accepted.push(ok);
            self.done.push_back(req);
            proof {
                assert(self.pending@ =~= p.skip(n + 1));
                assert(p.take(n + 1) =~= p.take(n).push(req));
                assert(self.done@ =~= d + p.take(n + 1));
            }
        }
        proof {
            assert(p.take(p.len() as int) =~= p);
        }
        accepted
    }

    /// Takes the oldest handled request, to go back to the host.
    pub fn take_done(&mut self) -> (r: Option<dram_req>)
        ensures
            old(self).done_view().len() == 0 ==> r is None && final(self).done_view() == old(self).done_view(),
            old(self).done_view().len() > 0 ==> r == Some(old(self).done_view()[0]) && final(self).done_view()
                == old(self).done_view().drop_first(),
            final(self).pending_view() == old(self).pending_view(),
    {
        self.done.pop_front()
    }
}

/// A repeated start does not reset an armed boot controller: of two starts handled in a row,
/// the second leaves the controller as the first left it, whatever the first did.
pub proof fn lemma_repeated_start_is_refused(b: boot_view, allowed: bool)
    ensures
        started(started(b, allowed), allowed) == started(b, allowed),
        started(b, allowed) != b ==> started(b, allowed).state == CPU_boot_FSM_states::DRAM2AGU_submit,
{
}

} // verus!
