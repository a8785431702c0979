//! The event loop's decision core: a two-state machine (running, stopped)
//! over the ordered event stream. An alarm while running yields one
//! fetch-persist cycle; an interrupt stops the loop for good, and a
//! stopped loop never yields another cycle.

use vstd::prelude::*;

verus! {

/// One event delivered over the loop's channel; consumed exactly once.
#[derive(Clone, Copy, Debug, PartialEq, Eq, Structural)]
pub enum EventType {
    Interrupted,
    AlarmFired,
}

/// What the loop must do with the event it just received.
#[derive(Clone, Copy, Debug, PartialEq, Eq, Structural)]
pub enum Decision {
    /// Run one capture-rotate-append cycle, then arm the next alarm.
    RunCycle,
    /// Leave the loop; no further cycle ever starts.
    Halt,
}

/// The transition function of the loop: state is the single bit `running`.
pub open spec fn sched_step(running: bool, ev: EventType) -> (bool, Decision) {
    if !running {
        (false, Decision::Halt)
    } else {
        match ev {
            EventType::Interrupted => (false, Decision::Halt),
            EventType::AlarmFired => (true, Decision::RunCycle),
        }
    }
}

/// The decisions a loop in state `running` takes over the event stream
/// `evs`, in delivery order.
pub open spec fn sched_decisions(running: bool, evs: Seq<EventType>) -> Seq<Decision>
    decreases evs.len(),
{
    if evs.len() == 0 {
        seq![]
    } else {
        seq![sched_step(running, evs[0]).1] + sched_decisions(
            sched_step(running, evs[0]).0,
            evs.drop_first(),
        )
    }
}

/// The scheduler's state, stepped once per received event.
pub struct Scheduler {
    pub running: bool,
}

impl Scheduler {
    /// A freshly started loop: running, no cycle taken yet.
    pub fn new() -> (s: Self)
        ensures
            s.running,
    {
        Scheduler { running: true }
    }

    /// Consumes one event and returns the decision `sched_step` dictates.
    pub fn on_event(&mut self, ev: EventType) -> (d: Decision)
        ensures
            (final(self).running, d) == sched_step(old(self).running, ev),
    {
        if !self.running {
            Decision::Halt
        } else {
            match ev {
                EventType::Interrupted => {
                    self.running = false;
                    Decision::Halt
                },
                EventType::AlarmFired => Decision::RunCycle,
            }
        }
    }
}

proof fn lemma_stopped_stays_halted(evs: Seq<EventType>)
    ensures
        forall|i: int|
            0 <= i < sched_decisions(false, evs).len() ==> sched_decisions(false, evs)[i]
                == Decision::Halt,
    decreases evs.len(),
{
    if evs.len() > 0 {
        lemma_stopped_stays_halted(evs.drop_first());
    }
}

/// Loop termination: if the very first event a running loop receives is
/// an interrupt, no cycle ever runs — every decision over the whole
/// stream, however it continues, is `Halt`, so zero snapshots are written.
pub proof fn lemma_interrupt_before_first_alarm(evs: Seq<EventType>)
    requires
        evs.len() > 0,
        evs[0] == EventType::Interrupted,
    ensures
        forall|i: int|
            0 <= i < sched_decisions(true, evs).len() ==> sched_decisions(true, evs)[i]
                == Decision::Halt,
{
    lemma_stopped_stays_halted(evs.drop_first());
}

} // verus!
