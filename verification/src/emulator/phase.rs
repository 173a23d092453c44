//! What the emulator is doing, as profilers record it.
use vstd::prelude::*;

use crate::emulator::handlers::HandlerId;

verus! {

/// How far a lookup in the instruction cache has come.
#[derive(Copy, Clone, Debug, PartialEq, Eq, Structural)]
pub struct LookupProgress(pub u32);

/// What the emulator is doing.
#[derive(Copy, Clone, Debug, PartialEq, Eq, Structural)]
pub enum EmulatorState {
    Other,
    DecodeEncoding,
    CacheLookupFirst(LookupProgress),
    CacheLookupNext(LookupProgress),
    ExecuteBlock,
    ExecuteSingleEncoding,
    ExecuteDispatch,
    InspectResult,
    Tick,
    TickAndUpdate,
    EnterDecode,
    InvokeHandler(HandlerId),
    CheckTrace,
    EnterInterrupt,
    PerformanceMeasurements,
    RunLoop,
    Halt,
    ExecuteJittedBlock,
    MakeChains,
}

/// The numbers of the handlers.
pub open spec fn handler_number(id: HandlerId) -> int {
    match id {
        HandlerId::Int => 0,
        HandlerId::Iret => 1,
        HandlerId::Halt => 2,
        HandlerId::WriteCr => 3,
        HandlerId::IfUpdated => 4,
        HandlerId::SsUpdated => 5,
        HandlerId::CsUpdated => 6,
        HandlerId::Cpuid => 7,
        HandlerId::Rdmsr => 8,
        HandlerId::Wrmsr => 9,
        HandlerId::InvalidatePage => 10,
    }
}

/// The number that stands for a state: its kind, and above it what belongs to the kind.
pub open spec fn state_code(s: EmulatorState) -> int {
    match s {
        EmulatorState::Other => 0,
        EmulatorState::DecodeEncoding => 1,
        EmulatorState::CacheLookupFirst(p) => 2 + p.0 * 0x100,
        EmulatorState::CacheLookupNext(p) => 3 + p.0 * 0x100,
        EmulatorState::ExecuteBlock => 4,
        EmulatorState::ExecuteSingleEncoding => 5,
        EmulatorState::InspectResult => 6,
        EmulatorState::Tick => 7,
        EmulatorState::EnterDecode => 8,
        EmulatorState::InvokeHandler(id) => 9 + handler_number(id) * 0x100,
        EmulatorState::CheckTrace => 10,
        EmulatorState::EnterInterrupt => 11,
        EmulatorState::PerformanceMeasurements => 12,
        EmulatorState::RunLoop => 13,
        EmulatorState::Halt => 14,
        EmulatorState::ExecuteJittedBlock => 15,
        EmulatorState::TickAndUpdate => 16,
        EmulatorState::ExecuteDispatch => 17,
        EmulatorState::MakeChains => 18,
    }
}

fn number_of(id: HandlerId) -> (r: u64)
    ensures
        r == handler_number(id),
{
    match id {
        HandlerId::Int => 0,
        HandlerId::Iret => 1,
        HandlerId::Halt => 2,
        HandlerId::WriteCr => 3,
        HandlerId::IfUpdated => 4,
        HandlerId::SsUpdated => 5,
        HandlerId::CsUpdated => 6,
        HandlerId::Cpuid => 7,
        HandlerId::Rdmsr => 8,
        HandlerId::Wrmsr => 9,
        HandlerId::InvalidatePage => 10,
    }
}

fn handler_of(n: u64) -> (r: Option<HandlerId>)
    ensures
        match r {
            Some(id) => handler_number(id) == n,
            None => forall|id: HandlerId| #[trigger] handler_number(id) != n,
        },
{
    if n == 0 {
        Some(HandlerId::Int)
    } else if n == 1 {
        Some(HandlerId::Iret)
    } else if n == 2 {
        Some(HandlerId::Halt)
    } else if n == 3 {
        Some(HandlerId::WriteCr)
    } else if n == 4 {
        Some(HandlerId::IfUpdated)
    } else if n == 5 {
        Some(HandlerId::SsUpdated)
    } else if n == 6 {
        Some(HandlerId::CsUpdated)
    } else if n == 7 {
        Some(HandlerId::Cpuid)
    } else if n == 8 {
        Some(HandlerId::Rdmsr)
    } else if n == 9 {
        Some(HandlerId::Wrmsr)
    } else if n == 10 {
        Some(HandlerId::InvalidatePage)
    } else {
        None
    }
}

impl EmulatorState {
    /// The number that stands for the state.
    pub fn encode(&self) -> (r: u64)
        ensures
            r == state_code(*self),
    {
        match *self {
            EmulatorState::Other => 0,
            EmulatorState::DecodeEncoding => 1,
            EmulatorState::CacheLookupFirst(p) => 2 + p.0 as u64 * 0x100,
            EmulatorState::CacheLookupNext(p) => 3 + p.0 as u64 * 0x100,
            EmulatorState::ExecuteBlock => 4,
            EmulatorState::ExecuteSingleEncoding => 5,
            EmulatorState::InspectResult => 6,
            EmulatorState::Tick => 7,
            EmulatorState::EnterDecode => 8,
            EmulatorState::InvokeHandler(id) => 9 + number_of(id) * 0x100,
            EmulatorState::CheckTrace => 10,
            EmulatorState::EnterInterrupt => 11,
            EmulatorState::PerformanceMeasurements => 12,
            EmulatorState::RunLoop => 13,
            EmulatorState::Halt => 14,
            EmulatorState::ExecuteJittedBlock => 15,
            EmulatorState::TickAndUpdate => 16,
            EmulatorState::ExecuteDispatch => 17,
            EmulatorState::MakeChains => 18,
        }
    }

    /// The state that a number stands for, given that it stands for one.
    pub fn decode(val: u64) -> (r: Self)
        requires
            exists|s: EmulatorState| #[trigger] state_code(s) == val,
        ensures
            state_code(r) == val,
    {
        let rest: u64 = val / 0x100;
        match val % 0x100 {
            0 => EmulatorState::Other,
            1 => EmulatorState::DecodeEncoding,
            2 => EmulatorState::CacheLookupFirst(LookupProgress(rest as u32)),
            3 => EmulatorState::CacheLookupNext(LookupProgress(rest as u32)),
            4 => EmulatorState::ExecuteBlock,
            5 => EmulatorState::ExecuteSingleEncoding,
            6 => EmulatorState::InspectResult,
            7 => EmulatorState::Tick,
            8 => EmulatorState::EnterDecode,
            9 => {
                let id = handler_of(rest);
                proof {
                    let s = choose|s: EmulatorState| #[trigger] state_code(s) == val;
                    if let EmulatorState::InvokeHandler(h) = s {
                        assert(handler_number(h) == rest);
                    }
                }
                EmulatorState::InvokeHandler(id.unwrap())
            },
            10 => EmulatorState::CheckTrace,
            11 => EmulatorState::EnterInterrupt,
            12 => EmulatorState::PerformanceMeasurements,
            13 => EmulatorState::RunLoop,
            14 => EmulatorState::Halt,
            15 => EmulatorState::ExecuteJittedBlock,
            16 => EmulatorState::TickAndUpdate,
            17 => EmulatorState::ExecuteDispatch,
            _ => EmulatorState::MakeChains,
        }
    }
}

/// A number stands for one state only.
pub proof fn states_have_their_own_codes(a: EmulatorState, b: EmulatorState)
    requires
        state_code(a) == state_code(b),
    ensures
        a == b,
{
    if let EmulatorState::InvokeHandler(x) = a {
        if let EmulatorState::InvokeHandler(y) = b {
            assert(handler_number(x) == handler_number(y));
        }
    }
}

} // verus!
