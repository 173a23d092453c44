//! The loops that run the processor, as decisions between the work of others.
use vstd::prelude::*;

use crate::codegen::page::CacheEntryId;
use crate::system::{Exception, Interrupt};

verus! {

/// What the outer loop waits for.
#[derive(Copy, Clone, Debug, PartialEq, Eq, Structural)]
pub enum RunPhase {
    /// The start of a round.
    Top,
    /// The periodic work of the instruction cache is done.
    Working,
    Emulating,
    /// An interrupt of the instruction stream is entered.
    Entering(Interrupt),
    /// An interrupt is entered that must not fail.
    EnteringSurely,
    CheckingTrace,
    /// The processor is halted.
    Waiting,
    Updating,
    AskingHooks,
    Servicing,
    /// An interrupt of a device is entered.
    EnteringHardware,
    Measuring,
    Finished,
}

/// What the outer loop asks for.
#[derive(Copy, Clone, Debug, PartialEq, Eq, Structural)]
pub enum RunAction {
    /// Look at the count of instructions.
    Observe,
    /// Do the periodic work of the instruction cache, then look at the lines.
    PeriodicWork,
    /// Run instructions. `is_entry` says whether an interrupt starts here.
    Emulate { is_entry: bool },
    Enter(Interrupt),
    /// Check the `INT` instruction of this number against the trace.
    CheckTrace(u8),
    /// Let time pass, then update the hardware.
    Wait,
    /// Update the hardware.
    Update,
    /// Receive compiled code, then ask whether hooks have become useless.
    AskHooks,
    /// Ask the interrupt controllers for an interrupt.
    Service,
    /// Print measurements if it is time for it.
    Measure,
    /// End the loop. It is started again with other hooks where this is not the end.
    Return(bool),
    /// The guest cannot go on.
    Abort,
}

/// What has happened.
#[derive(Copy, Clone, Debug, PartialEq, Eq)]
pub enum RunEvent {
    /// `k` instructions were executed.
    Observed { k: u64 },
    Worked { trace: bool, interrupts_enabled: bool, pending: bool },
    /// Instructions ran until something else is to be done. `halted` says whether the processor
    /// waits for interrupts now.
    Emulated { result: Result<bool, Interrupt>, halted: bool },
    Entered(Result<(), Exception>),
    /// What the check of an `INT` against a trace has shown.
    Traced(Option<Interrupt>),
    Waited { stop: bool, pending: bool },
    Updated { stop: bool },
    Asked { discard: bool, pending: bool, interrupt_flag: bool, trace: bool, interrupts_enabled: bool },
    Offered(Option<u8>),
    Measured,
}

/// The outer loop.
#[derive(Copy, Clone, Debug, PartialEq, Eq, Structural)]
pub struct RunLoop {
    pub phase: RunPhase,
    /// Whether the next instruction is the first one after an interrupt.
    pub is_entry: bool,
    pub is_halted: bool,
    /// The number of instructions after which the loop ends.
    pub limit: Option<u64>,
    pub break_on_int_fe: bool,
    pub check_trace: bool,
}

/// What comes next.
pub struct RunStep {
    pub next: RunLoop,
    pub action: RunAction,
}

pub open spec fn limit_of(limit: Option<u64>) -> u64 {
    match limit {
        Some(n) => n,
        None => u64::MAX,
    }
}

impl RunLoop {
    pub open spec fn to(self, phase: RunPhase, action: RunAction) -> RunStep {
        RunStep { next: RunLoop { phase, ..self }, action }
    }

    /// The start of a round.
    pub open spec fn observed(self, k: u64) -> RunStep {
        if k >= limit_of(self.limit) {
            self.to(RunPhase::Finished, RunAction::Return(true))
        } else {
            self.to(RunPhase::Working, RunAction::PeriodicWork)
        }
    }

    /// The periodic work is done.
    pub open spec fn worked(self, trace: bool, interrupts_enabled: bool, pending: bool) -> RunStep {
        if !self.is_halted {
            self.to(RunPhase::Emulating, RunAction::Emulate { is_entry: self.is_entry })
        } else if trace {
            (RunLoop { is_halted: false, ..self }).to(RunPhase::Updating, RunAction::Update)
        } else if !interrupts_enabled {
            self.to(RunPhase::Finished, RunAction::Abort)
        } else if pending {
            self.to(RunPhase::Updating, RunAction::Update)
        } else {
            self.to(RunPhase::Waiting, RunAction::Wait)
        }
    }

    /// The end of a stretch of instructions.
    pub open spec fn emulated(self, result: Result<bool, Interrupt>, halted: bool) -> RunStep {
        match result {
            Ok(_) => (RunLoop { is_entry: false, is_halted: halted, ..self }).to(
                RunPhase::Updating,
                RunAction::Update,
            ),
            Err(i) => {
                let entry = RunLoop { is_entry: true, is_halted: halted, ..self };
                if i is SoftwareInterrupt && i.number() == 0xfe && self.break_on_int_fe {
                    entry.to(RunPhase::Finished, RunAction::Return(true))
                } else {
                    entry.to(RunPhase::Entering(i), RunAction::Enter(i))
                }
            },
        }
    }

    /// An interrupt of the instruction stream was entered, or it was not.
    pub open spec fn entered(self, i: Interrupt, result: Result<(), Exception>) -> RunStep {
        match result {
            Ok(_) => if i is SoftwareInterrupt && self.check_trace {
                self.to(RunPhase::CheckingTrace, RunAction::CheckTrace(i.number()))
            } else {
                self.to(RunPhase::Updating, RunAction::Update)
            },
            Err(e) => self.to(
                RunPhase::EnteringSurely,
                RunAction::Enter(Interrupt::Exception(e)),
            ),
        }
    }

    /// Whether an interrupt of a device is taken now.
    pub open spec fn accepts(
        pending: bool,
        interrupt_flag: bool,
        trace: bool,
        interrupts_enabled: bool,
    ) -> bool {
        pending && interrupt_flag && !trace && interrupts_enabled
    }

    /// The events that a phase waits for.
    pub open spec fn expects(self, event: RunEvent) -> bool {
        match self.phase {
            RunPhase::Top => event is Observed,
            RunPhase::Working => event is Worked,
            RunPhase::Emulating => event is Emulated,
            RunPhase::Entering(_) => event is Entered,
            RunPhase::EnteringSurely => event is Entered,
            RunPhase::CheckingTrace => event is Traced,
            RunPhase::Waiting => event is Waited,
            RunPhase::Updating => event is Updated,
            RunPhase::AskingHooks => event is Asked,
            RunPhase::Servicing => event is Offered,
            RunPhase::EnteringHardware => event is Entered,
            RunPhase::Measuring => event is Measured,
            RunPhase::Finished => false,
        }
    }

    /// What comes after an event.
    pub open spec fn stepped(self, event: RunEvent) -> RunStep {
        match (self.phase, event) {
            (RunPhase::Top, RunEvent::Observed { k }) => self.observed(k),
            (
                RunPhase::Working,
                RunEvent::Worked { trace, interrupts_enabled, pending },
            ) => self.worked(trace, interrupts_enabled, pending),
            (RunPhase::Emulating, RunEvent::Emulated { result, halted }) => self.emulated(
                result,
                halted,
            ),
            (RunPhase::Entering(i), RunEvent::Entered(result)) => self.entered(i, result),
            (RunPhase::EnteringSurely, RunEvent::Entered(result)) => if result is Ok {
                self.to(RunPhase::Updating, RunAction::Update)
            } else {
                self.to(RunPhase::Finished, RunAction::Abort)
            },
            (RunPhase::CheckingTrace, RunEvent::Traced(i)) => match i {
                Some(i) => self.to(RunPhase::EnteringSurely, RunAction::Enter(i)),
                None => self.to(RunPhase::Updating, RunAction::Update),
            },
            (RunPhase::Waiting, RunEvent::Waited { stop, pending }) => if stop {
                self.to(RunPhase::Finished, RunAction::Return(true))
            } else if pending {
                self.to(RunPhase::Updating, RunAction::Update)
            } else {
                self.to(RunPhase::Waiting, RunAction::Wait)
            },
            (RunPhase::Updating, RunEvent::Updated { stop }) => if stop {
                self.to(RunPhase::Finished, RunAction::Return(true))
            } else {
                self.to(RunPhase::AskingHooks, RunAction::AskHooks)
            },
            (
                RunPhase::AskingHooks,
                RunEvent::Asked { discard, pending, interrupt_flag, trace, interrupts_enabled },
            ) => if discard {
                self.to(RunPhase::Finished, RunAction::Return(false))
            } else if Self::accepts(pending, interrupt_flag, trace, interrupts_enabled) {
                self.to(RunPhase::Servicing, RunAction::Service)
            } else {
                self.to(RunPhase::Measuring, RunAction::Measure)
            },
            (RunPhase::Servicing, RunEvent::Offered(vector)) => match vector {
                Some(n) => (RunLoop { is_halted: false, ..self }).to(
                    RunPhase::EnteringHardware,
                    RunAction::Enter(Interrupt::HardwareInterrupt(n)),
                ),
                None => self.to(RunPhase::Measuring, RunAction::Measure),
            },
            (RunPhase::EnteringHardware, RunEvent::Entered(result)) => if result is Ok {
                self.to(RunPhase::Measuring, RunAction::Measure)
            } else {
                self.to(RunPhase::Finished, RunAction::Abort)
            },
            (RunPhase::Measuring, RunEvent::Measured) => self.to(
                RunPhase::Top,
                RunAction::Observe,
            ),
            _ => RunStep { next: self, action: RunAction::Abort },
        }
    }

    /// The loop at its start.
    pub fn new(limit: Option<u64>, break_on_int_fe: bool, check_trace: bool) -> (r: Self)
        ensures
            r == (RunLoop {
                phase: RunPhase::Top,
                is_entry: true,
                is_halted: false,
                limit,
                break_on_int_fe,
                check_trace,
            }),
    {
        RunLoop {
            phase: RunPhase::Top,
            is_entry: true,
            is_halted: false,
            limit,
            break_on_int_fe,
            check_trace,
        }
    }

    fn go(&mut self, phase: RunPhase, action: RunAction) -> (r: RunAction)
        ensures
            old(self).to(phase, action) == (RunStep { next: *final(self), action: r }),
    {
        self.phase = phase;
        action
    }

    fn observe(&mut self, k: u64) -> (r: RunAction)
        ensures
            old(self).observed(k) == (RunStep { next: *final(self), action: r }),
    {
        let limit: u64 = match self.limit {
            Some(n) => n,
            None => u64::MAX,
        };
        if k >= limit {
            return self.go(RunPhase::Finished, RunAction::Return(true));
        }
        self.go(RunPhase::Working, RunAction::PeriodicWork)
    }

    fn after_work(&mut self, trace: bool, interrupts_enabled: bool, pending: bool) -> (r: RunAction)
        ensures
            old(self).worked(trace, interrupts_enabled, pending) == (RunStep {
                next: *final(self),
                action: r,
            }),
    {
        if !self.is_halted {
            let is_entry = self.is_entry;
            return self.go(RunPhase::Emulating, RunAction::Emulate { is_entry });
        }
        if trace {
            self.is_halted = false;
            return self.go(RunPhase::Updating, RunAction::Update);
        }
        if !interrupts_enabled {
            return self.go(RunPhase::Finished, RunAction::Abort);
        }
        if pending {
            return self.go(RunPhase::Updating, RunAction::Update);
        }
        self.go(RunPhase::Waiting, RunAction::Wait)
    }

    fn after_emulation(&mut self, result: Result<bool, Interrupt>, halted: bool) -> (r: RunAction)
        ensures
            old(self).emulated(result, halted) == (RunStep { next: *final(self), action: r }),
    {
        self.is_halted = halted;
        match result {
            Ok(_) => {
                self.is_entry = false;
                self.go(RunPhase::Updating, RunAction::Update)
            },
            Err(i) => {
                self.is_entry = true;
                match i {
                    Interrupt::SoftwareInterrupt { vector, .. } => {
                        if vector == 0xfe && self.break_on_int_fe {
                            return self.go(RunPhase::Finished, RunAction::Return(true));
                        }
                    },
                    _ => {},
                }
                self.go(RunPhase::Entering(i), RunAction::Enter(i))
            },
        }
    }

    fn after_entry(&mut self, i: Interrupt, result: Result<(), Exception>) -> (r: RunAction)
        ensures
            old(self).entered(i, result) == (RunStep { next: *final(self), action: r }),
    {
        match result {
            Ok(_) => {
                match i {
                    Interrupt::SoftwareInterrupt { vector, .. } => {
                        if self.check_trace {
                            return self.go(
                                RunPhase::CheckingTrace,
                                RunAction::CheckTrace(vector),
                            );
                        }
                    },
                    _ => {},
                }
                self.go(RunPhase::Updating, RunAction::Update)
            },
            Err(e) => self.go(
                RunPhase::EnteringSurely,
                RunAction::Enter(Interrupt::Exception(e)),
            ),
        }
    }

    /// Goes on after an event.
    pub fn step(&mut self, event: RunEvent) -> (r: RunAction)
        requires
            old(self).expects(event),
        ensures
            old(self).stepped(event) == (RunStep { next: *final(self), action: r }),
    {
        match (self.phase, event) {
            (RunPhase::Top, RunEvent::Observed { k }) => {
                return self.observe(k);
            },
            (RunPhase::Working, RunEvent::Worked { trace, interrupts_enabled, pending }) => {
                return self.after_work(trace, interrupts_enabled, pending);
            },
            (RunPhase::Emulating, RunEvent::Emulated { result, halted }) => {
                return self.after_emulation(result, halted);
            },
            (RunPhase::Entering(i), RunEvent::Entered(result)) => {
                return self.after_entry(i, result);
            },
            (RunPhase::EnteringSurely, RunEvent::Entered(result)) => {
                if result.is_ok() {
                    return self.go(RunPhase::Updating, RunAction::Update);
                }
                return self.go(RunPhase::Finished, RunAction::Abort);
            },
            (RunPhase::CheckingTrace, RunEvent::Traced(i)) => match i {
                Some(i) => {
                    return self.go(RunPhase::EnteringSurely, RunAction::Enter(i));
                },
                None => {
                    return self.go(RunPhase::Updating, RunAction::Update);
                },
            },
            (RunPhase::Waiting, RunEvent::Waited { stop, pending }) => {
                if stop {
                    return self.go(RunPhase::Finished, RunAction::Return(true));
                }
                if pending {
                    return self.go(RunPhase::Updating, RunAction::Update);
                }
                return self.go(RunPhase::Waiting, RunAction::Wait);
            },
            (RunPhase::Updating, RunEvent::Updated { stop }) => {
                if stop {
                    return self.go(RunPhase::Finished, RunAction::Return(true));
                }
                return self.go(RunPhase::AskingHooks, RunAction::AskHooks);
            },
            (
                RunPhase::AskingHooks,
                RunEvent::Asked { discard, pending, interrupt_flag, trace, interrupts_enabled },
            ) => {
                if discard {
                    return self.go(RunPhase::Finished, RunAction::Return(false));
                }
                if pending && interrupt_flag && !trace && interrupts_enabled {
                    return self.go(RunPhase::Servicing, RunAction::Service);
                }
                return self.go(RunPhase::Measuring, RunAction::Measure);
            },
            (RunPhase::Servicing, RunEvent::Offered(vector)) => match vector {
                Some(n) => {
                    self.is_halted = false;
                    return self.go(
                        RunPhase::EnteringHardware,
                        RunAction::Enter(Interrupt::HardwareInterrupt(n)),
                    );
                },
                None => {
                    return self.go(RunPhase::Measuring, RunAction::Measure);
                },
            },
            (RunPhase::EnteringHardware, RunEvent::Entered(result)) => {
                if result.is_ok() {
                    return self.go(RunPhase::Measuring, RunAction::Measure);
                }
                return self.go(RunPhase::Finished, RunAction::Abort);
            },
            (RunPhase::Measuring, RunEvent::Measured) => {
                return self.go(RunPhase::Top, RunAction::Observe);
            },
            _ => {
                return RunAction::Abort;
            },
        }
    }
}

/// The interrupt controllers are only asked for an interrupt when the guest accepts one.
pub proof fn interrupts_are_only_taken_when_accepted(m: RunLoop, event: RunEvent)
    requires
        m.expects(event),
        m.stepped(event).action == RunAction::Service,
    ensures
        event matches RunEvent::Asked { pending, interrupt_flag, trace, interrupts_enabled, .. }
            && pending && interrupt_flag && !trace && interrupts_enabled,
{
}

/// A halted processor runs no instruction before an interrupt of a device or a trace wakes it.
pub proof fn halted_processors_wait(m: RunLoop, event: RunEvent)
    requires
        m.expects(event),
        m.is_halted,
        m.phase != RunPhase::Emulating,
    ensures
        !(m.stepped(event).action is Emulate),
        !m.stepped(event).next.is_halted ==> m.stepped(event).action matches RunAction::Enter(
            Interrupt::HardwareInterrupt(_),
        ) || (event matches RunEvent::Worked { trace, .. } && trace),
{
}

/// Every round that does not end the loop does the periodic work of the instruction cache first,
/// whether the processor is halted or not.
pub proof fn every_round_does_periodic_work(m: RunLoop, event: RunEvent)
    requires
        m.expects(event),
    ensures
        m.phase == RunPhase::Top ==> m.stepped(event).action == RunAction::PeriodicWork
            || m.stepped(event).action == RunAction::Return(true),
        m.stepped(event).action is Emulate ==> m.phase == RunPhase::Working,
        m.stepped(event).action is Wait ==> m.phase == RunPhase::Working || m.phase
            == RunPhase::Waiting,
        m.stepped(event).next.phase == RunPhase::Working ==> m.phase == RunPhase::Top,
{
}

/// What the inner loop waits for.
#[derive(Copy, Clone, Debug, PartialEq, Eq, Structural)]
pub enum EmulationPhase {
    Starting,
    LookingUp,
    Executing,
    /// The result of code is looked at that is not the current code of its page any more.
    InspectingReplaced,
    Inspecting { jump_taken: bool },
    AskingHooks { can_continue: bool, jump_taken: bool },
    LookingUpNext,
    Checking,
    Left,
}

/// What the inner loop asks for.
#[derive(Copy, Clone, Debug, PartialEq, Eq)]
pub enum EmulationAction {
    /// Find the instruction at the instruction pointer.
    LookUp { is_entry: bool },
    /// Execute an entry of the instruction cache.
    Execute(CacheEntryId),
    /// Look at the result: invoke a handler, or report an exception. `clear_rf` says whether the
    /// resume flag is cleared before that.
    Inspect { last: Option<CacheEntryId>, clear_rf: bool },
    /// Tell the hooks that an entry was executed. `clear_rf` says whether the resume flag is cleared
    /// before that.
    AfterExecute { id: CacheEntryId, clear_rf: bool },
    /// Find the entry that follows.
    LookUpNext { id: CacheEntryId, is_entry: bool, jump_taken: bool },
    /// Look at the interrupt lines.
    CheckInterrupts,
    Leave(Result<bool, Interrupt>),
}

/// What has happened.
#[derive(Copy, Clone, Debug, PartialEq, Eq)]
pub enum EmulationEvent {
    Interrupts { pending: bool, interrupt_flag: bool, hooks_accept: bool, interrupts_enabled: bool },
    Found(Result<CacheEntryId, Interrupt>),
    /// Code of a page ran. `exit` is where it left off, if the page still has that code.
    RanPage { exit: Option<CacheEntryId>, can_continue: bool, jump_taken: bool },
    RanSingle { can_continue: bool, jump_taken: bool },
    /// The result was looked at. `halt` says whether the processor is halted and may stay so.
    Inspected { result: Result<(), Interrupt>, halt: bool },
    /// What the hooks say: whether to go on.
    Hooked(Result<bool, Interrupt>),
}

/// The inner loop, which runs instructions until something else is to be done.
#[derive(Copy, Clone, Debug, PartialEq, Eq, Structural)]
pub struct EmulationLoop {
    pub phase: EmulationPhase,
    pub is_entry: bool,
    pub id: CacheEntryId,
}

pub struct EmulationStep {
    pub next: EmulationLoop,
    pub action: EmulationAction,
}

impl EmulationLoop {
    pub open spec fn to(self, phase: EmulationPhase, action: EmulationAction) -> EmulationStep {
        EmulationStep { next: EmulationLoop { phase, ..self }, action }
    }

    pub open spec fn leaves(self, result: Result<bool, Interrupt>) -> EmulationStep {
        self.to(EmulationPhase::Left, EmulationAction::Leave(result))
    }

    pub open spec fn looks_up(self) -> EmulationStep {
        self.to(EmulationPhase::LookingUp, EmulationAction::LookUp { is_entry: self.is_entry })
    }

    /// After an entry was executed, and the resume flag was cleared.
    pub open spec fn executed(self, can_continue: bool, jump_taken: bool) -> EmulationStep {
        if can_continue {
            self.to(
                EmulationPhase::AskingHooks { can_continue, jump_taken },
                EmulationAction::AfterExecute { id: self.id, clear_rf: true },
            )
        } else {
            self.to(
                EmulationPhase::Inspecting { jump_taken },
                EmulationAction::Inspect { last: Some(self.id), clear_rf: true },
            )
        }
    }

    pub open spec fn expects(self, event: EmulationEvent) -> bool {
        match self.phase {
            EmulationPhase::Starting => event is Interrupts,
            EmulationPhase::LookingUp => event is Found,
            EmulationPhase::Executing => event is RanPage || event is RanSingle,
            EmulationPhase::InspectingReplaced => event is Inspected,
            EmulationPhase::Inspecting { .. } => event is Inspected,
            EmulationPhase::AskingHooks { .. } => event is Hooked,
            EmulationPhase::LookingUpNext => event is Found,
            EmulationPhase::Checking => event is Interrupts,
            EmulationPhase::Left => false,
        }
    }

    pub open spec fn stepped(self, event: EmulationEvent) -> EmulationStep {
        match (self.phase, event) {
            (
                EmulationPhase::Starting,
                EmulationEvent::Interrupts {
                    pending,
                    interrupt_flag,
                    hooks_accept,
                    interrupts_enabled,
                },
            ) => if pending && interrupt_flag && hooks_accept && interrupts_enabled {
                self.leaves(Ok(false))
            } else {
                self.looks_up()
            },
            (EmulationPhase::LookingUp, EmulationEvent::Found(found)) => match found {
                Ok(id) => (EmulationLoop { is_entry: false, id, ..self }).to(
                    EmulationPhase::Executing,
                    EmulationAction::Execute(id),
                ),
                Err(i) => self.leaves(Err(i)),
            },
            (
                EmulationPhase::Executing,
                EmulationEvent::RanPage { exit, can_continue, jump_taken },
            ) => match exit {
                Some(id) => (EmulationLoop { id, ..self }).executed(can_continue, jump_taken),
                None => if can_continue {
                    self.looks_up()
                } else {
                    self.to(
                        EmulationPhase::InspectingReplaced,
                        EmulationAction::Inspect { last: None, clear_rf: false },
                    )
                },
            },
            (
                EmulationPhase::Executing,
                EmulationEvent::RanSingle { can_continue, jump_taken },
            ) => self.executed(can_continue, jump_taken),
            (
                EmulationPhase::InspectingReplaced,
                EmulationEvent::Inspected { result, halt },
            ) => match result {
                Err(i) => self.leaves(Err(i)),
                Ok(_) => if halt {
                    self.leaves(Ok(true))
                } else {
                    self.looks_up()
                },
            },
            (
                EmulationPhase::Inspecting { jump_taken },
                EmulationEvent::Inspected { result, halt },
            ) => match result {
                Err(i) => self.leaves(Err(i)),
                Ok(_) => if halt {
                    self.leaves(Ok(true))
                } else {
                    self.to(
                        EmulationPhase::AskingHooks { can_continue: false, jump_taken },
                        EmulationAction::AfterExecute { id: self.id, clear_rf: false },
                    )
                },
            },
            (
                EmulationPhase::AskingHooks { can_continue, jump_taken },
                EmulationEvent::Hooked(result),
            ) => match result {
                Err(i) => self.leaves(Err(i)),
                Ok(go_on) => if go_on {
                    self.to(
                        EmulationPhase::LookingUpNext,
                        EmulationAction::LookUpNext {
                            id: self.id,
                            is_entry: !can_continue,
                            jump_taken,
                        },
                    )
                } else {
                    self.leaves(Ok(false))
                },
            },
            (EmulationPhase::LookingUpNext, EmulationEvent::Found(found)) => match found {
                Ok(id) => (EmulationLoop { id, ..self }).to(
                    EmulationPhase::Checking,
                    EmulationAction::CheckInterrupts,
                ),
                Err(i) => self.leaves(Err(i)),
            },
            (
                EmulationPhase::Checking,
                EmulationEvent::Interrupts {
                    pending,
                    interrupt_flag,
                    hooks_accept,
                    interrupts_enabled,
                },
            ) => if pending && interrupt_flag && hooks_accept && interrupts_enabled {
                self.leaves(Ok(false))
            } else {
                self.to(EmulationPhase::Executing, EmulationAction::Execute(self.id))
            },
            _ => self.leaves(Ok(false)),
        }
    }

    /// The loop at its start. `is_entry` says whether an interrupt starts here.
    pub fn new(is_entry: bool) -> (r: Self)
        ensures
            r == (EmulationLoop {
                phase: EmulationPhase::Starting,
                is_entry,
                id: CacheEntryId(0),
            }),
    {
        EmulationLoop { phase: EmulationPhase::Starting, is_entry, id: CacheEntryId(0) }
    }

    fn go(&mut self, phase: EmulationPhase, action: EmulationAction) -> (r: EmulationAction)
        ensures
            old(self).to(phase, action) == (EmulationStep { next: *final(self), action: r }),
    {
        self.phase = phase;
        action
    }

    fn leave(&mut self, result: Result<bool, Interrupt>) -> (r: EmulationAction)
        ensures
            old(self).leaves(result) == (EmulationStep { next: *final(self), action: r }),
    {
        self.go(EmulationPhase::Left, EmulationAction::Leave(result))
    }

    fn look_up(&mut self) -> (r: EmulationAction)
        ensures
            old(self).looks_up() == (EmulationStep { next: *final(self), action: r }),
    {
        let is_entry = self.is_entry;
        self.go(EmulationPhase::LookingUp, EmulationAction::LookUp { is_entry })
    }

    fn after_execution(&mut self, can_continue: bool, jump_taken: bool) -> (r: EmulationAction)
        ensures
            old(self).executed(can_continue, jump_taken) == (EmulationStep {
                next: *final(self),
                action: r,
            }),
    {
        let id = self.id;
        if can_continue {
            self.go(
                EmulationPhase::AskingHooks { can_continue, jump_taken },
                EmulationAction::AfterExecute { id, clear_rf: true },
            )
        } else {
            self.go(
                EmulationPhase::Inspecting { jump_taken },
                EmulationAction::Inspect { last: Some(id), clear_rf: true },
            )
        }
    }

    /// Goes on after an event.
    pub fn step(&mut self, event: EmulationEvent) -> (r: EmulationAction)
        requires
            old(self).expects(event),
        ensures
            old(self).stepped(event) == (EmulationStep { next: *final(self), action: r }),
    {
        match (self.phase, event) {
            (
                EmulationPhase::Starting,
                EmulationEvent::Interrupts {
                    pending,
                    interrupt_flag,
                    hooks_accept,
                    interrupts_enabled,
                },
            ) => {
                if pending && interrupt_flag && hooks_accept && interrupts_enabled {
                    return self.leave(Ok(false));
                }
                return self.look_up();
            },
            (EmulationPhase::LookingUp, EmulationEvent::Found(found)) => match found {
                Ok(id) => {
                    self.is_entry = false;
                    self.id = id;
                    return self.go(EmulationPhase::Executing, EmulationAction::Execute(id));
                },
                Err(i) => {
                    return self.leave(Err(i));
                },
            },
            (
                EmulationPhase::Executing,
                EmulationEvent::RanPage { exit, can_continue, jump_taken },
            ) => match exit {
                Some(id) => {
                    self.id = id;
                    return self.after_execution(can_continue, jump_taken);
                },
                None => {
                    if can_continue {
                        return self.look_up();
                    }
                    return self.go(
                        EmulationPhase::InspectingReplaced,
                        EmulationAction::Inspect { last: None, clear_rf: false },
                    );
                },
            },
            (EmulationPhase::Executing, EmulationEvent::RanSingle { can_continue, jump_taken }) => {
                return self.after_execution(can_continue, jump_taken);
            },
            (EmulationPhase::InspectingReplaced, EmulationEvent::Inspected { result, halt }) => {
                match result {
                    Err(i) => {
                        return self.leave(Err(i));
                    },
                    Ok(_) => {
                        if halt {
                            return self.leave(Ok(true));
                        }
                        return self.look_up();
                    },
                }
            },
            (
                EmulationPhase::Inspecting { jump_taken },
                EmulationEvent::Inspected { result, halt },
            ) => match result {
                Err(i) => {
                    return self.leave(Err(i));
                },
                Ok(_) => {
                    if halt {
                        return self.leave(Ok(true));
                    }
                    let id = self.id;
                    return self.go(
                        EmulationPhase::AskingHooks { can_continue: false, jump_taken },
                        EmulationAction::AfterExecute { id, clear_rf: false },
                    );
                },
            },
            (
                EmulationPhase::AskingHooks { can_continue, jump_taken },
                EmulationEvent::Hooked(result),
            ) => match result {
                Err(i) => {
                    return self.leave(Err(i));
                },
                Ok(go_on) => {
                    if go_on {
                        let id = self.id;
                        return self.go(
                            EmulationPhase::LookingUpNext,
                            EmulationAction::LookUpNext { id, is_entry: !can_continue, jump_taken },
                        );
                    }
                    return self.leave(Ok(false));
                },
            },
            (EmulationPhase::LookingUpNext, EmulationEvent::Found(found)) => match found {
                Ok(id) => {
                    self.id = id;
                    return self.go(EmulationPhase::Checking, EmulationAction::CheckInterrupts);
                },
                Err(i) => {
                    return self.leave(Err(i));
                },
            },
            (
                EmulationPhase::Checking,
                EmulationEvent::Interrupts {
                    pending,
                    interrupt_flag,
                    hooks_accept,
                    interrupts_enabled,
                },
            ) => {
                if pending && interrupt_flag && hooks_accept && interrupts_enabled {
                    return self.leave(Ok(false));
                }
                let id = self.id;
                return self.go(EmulationPhase::Executing, EmulationAction::Execute(id));
            },
            _ => {
                return self.leave(Ok(false));
            },
        }
    }
}

/// No instruction is executed while an interrupt is pending that is accepted.
pub proof fn pending_interrupts_stop_execution(m: EmulationLoop, event: EmulationEvent)
    requires
        m.expects(event),
        m.phase == EmulationPhase::Starting || m.phase == EmulationPhase::Checking,
        event matches EmulationEvent::Interrupts {
            pending,
            interrupt_flag,
            hooks_accept,
            interrupts_enabled,
        } && pending && interrupt_flag && hooks_accept && interrupts_enabled,
    ensures
        m.stepped(event).action == EmulationAction::Leave(Ok(false)),
{
}

} // verus!
