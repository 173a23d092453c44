//! The local APIC of the processor.
use vstd::prelude::*;

use crate::hw::intr::{Intr, IntrHandle, PendingRequest};
use crate::hw::pic::bitset::{
    empty_set, highest, highest_below, highest_is_last, members, Bitset, BitsetSnapshot,
};
use crate::hw::pic::io::TriggerMode;
use crate::hw::pic::legacy::request_moved;
use crate::hw::pic::{DeliveryMode, DestinationMode};

verus! {

/// The APIC base register of the processor.
#[derive(Copy, Clone, Debug, PartialEq, Eq, Structural)]
pub struct ApicBase {
    pub value: u64,
}

impl ApicBase {
    pub open spec fn bsp_spec(&self) -> bool {
        self.value / 0x100 % 2 == 1
    }

    pub open spec fn enabled_spec(&self) -> bool {
        self.value / 0x800 % 2 == 1
    }

    /// The number of the page that holds the registers.
    pub open spec fn addr_spec(&self) -> int {
        self.value as int / 0x1000
    }

    pub fn new(bsp: bool, enabled_globally: bool, apic_base_addr: u64) -> (r: Self)
        requires
            apic_base_addr < 0x10_0000_0000_0000,
        ensures
            r.value == apic_base_addr * 0x1000 + (if enabled_globally {
                0x800int
            } else {
                0
            }) + (if bsp {
                0x100int
            } else {
                0
            }),
            r.bsp_spec() == bsp,
            r.enabled_spec() == enabled_globally,
            r.addr_spec() == apic_base_addr,
    {
        let bsp_bit: u64 = if bsp {
            0x100
        } else {
            0
        };
        let enabled_bit: u64 = if enabled_globally {
            0x800
        } else {
            0
        };
        let low: u64 = enabled_bit + bsp_bit;
        let value: u64 = apic_base_addr * 0x1000 + low;
        proof {
            let a = apic_base_addr as int;
            let v = value as int;
            assert(v / 0x1000 == a);
            assert(v / 0x800 == 2 * a + low as int / 0x800);
            assert(v / 0x100 == 16 * a + low as int / 0x100);
            assert(low == 0 || low == 0x100 || low == 0x800 || low == 0x900);
        }
        Self { value }
    }

    pub fn bsp(&self) -> (r: bool)
        ensures
            r == self.bsp_spec(),
    {
        self.value / 0x100 % 2 == 1
    }

    pub fn enabled_globally(&self) -> (r: bool)
        ensures
            r == self.enabled_spec(),
    {
        self.value / 0x800 % 2 == 1
    }

    pub fn apic_base_addr(&self) -> (r: u64)
        ensures
            r == self.addr_spec(),
    {
        self.value / 0x1000
    }

    /// The register with the bootstrap-processor bit replaced.
    pub open spec fn with_bsp(self, bsp: bool) -> int {
        self.value - (if self.bsp_spec() {
            0x100int
        } else {
            0
        }) + (if bsp {
            0x100int
        } else {
            0
        })
    }

    pub fn set_bsp(&mut self, bsp: bool)
        ensures
            final(self).value == old(self).with_bsp(bsp),
            final(self).bsp_spec() == bsp,
            final(self).enabled_spec() == old(self).enabled_spec(),
            final(self).addr_spec() == old(self).addr_spec(),
    {
        if self.bsp() && !bsp {
            self.value = self.value - 0x100;
        } else if !self.bsp() && bsp {
            self.value = self.value + 0x100;
        }
    }
}

#[derive(Copy, Clone, Debug, PartialEq, Eq, Structural)]
pub enum DestinationType {
    UseDestinationField,
    CurrentCpu,
    AllProcessors,
    AllProcessorsExceptCurrent,
}

/// The low word of the interrupt command register.
#[derive(Copy, Clone, Debug, PartialEq, Eq, Structural)]
pub struct Icr {
    pub vector: u8,
    pub delivery_mode: DeliveryMode,
    pub destination_mode: DestinationMode,
    pub delivery_status: bool,
    /// Clear for init-level deassert
    pub init_level_assert: bool,
    /// Set for init-level deassert
    pub trigger_mode: TriggerMode,
    pub destination_type: DestinationType,
}

impl Icr {
    pub open spec fn of_value(value: u32) -> Icr {
        Icr {
            vector: (value % 0x100) as u8,
            delivery_mode: DeliveryMode::of_bits((value / 0x100 % 8) as int),
            destination_mode: DestinationMode::of_bits((value / 0x800 % 2) as int),
            delivery_status: value / 0x1000 % 2 == 1,
            init_level_assert: value / 0x4000 % 2 == 1,
            trigger_mode: if value / 0x8000 % 2 == 1 {
                TriggerMode::LevelSensitive
            } else {
                TriggerMode::EdgeSensitive
            },
            destination_type: if value / 0x4_0000 % 4 == 0 {
                DestinationType::UseDestinationField
            } else if value / 0x4_0000 % 4 == 1 {
                DestinationType::CurrentCpu
            } else if value / 0x4_0000 % 4 == 2 {
                DestinationType::AllProcessors
            } else {
                DestinationType::AllProcessorsExceptCurrent
            },
        }
    }

    pub fn from_value(value: u32) -> (r: Self)
        ensures
            r == Self::of_value(value),
    {
        Icr {
            vector: (value % 0x100) as u8,
            delivery_mode: DeliveryMode::from_bits((value / 0x100 % 8) as u8),
            destination_mode: DestinationMode::from_bits((value / 0x800 % 2) as u8),
            delivery_status: value / 0x1000 % 2 == 1,
            init_level_assert: value / 0x4000 % 2 == 1,
            trigger_mode: if value / 0x8000 % 2 == 1 {
                TriggerMode::LevelSensitive
            } else {
                TriggerMode::EdgeSensitive
            },
            destination_type: match value / 0x4_0000 % 4 {
                0 => DestinationType::UseDestinationField,
                1 => DestinationType::CurrentCpu,
                2 => DestinationType::AllProcessors,
                _ => DestinationType::AllProcessorsExceptCurrent,
            },
        }
    }
}

pub const DEFAULT_MMIO_ADDR: u64 = 0xFEE00000;

/// The interrupts that the local APIC keeps track of.
#[derive(Debug)]
pub struct LocalApicCore {
    task_priority: u8,
    in_service: Bitset,
    trigger_mode: Bitset,
    interrupt_requests: Bitset,
    intr: IntrHandle,
    pending_intr: Option<PendingRequest>,
}

#[derive(Copy, Clone, Debug)]
pub struct LocalApicCoreSnapshot {
    pub task_priority: u8,
    pub in_service: BitsetSnapshot,
    pub trigger_mode: BitsetSnapshot,
    pub interrupt_requests: BitsetSnapshot,
    pub has_pending: bool,
}

/// The state of all 256 vectors.
pub struct LocalApicLines {
    pub task_priority: u8,
    pub in_service: Seq<bool>,
    pub trigger_mode: Seq<bool>,
    pub requests: Seq<bool>,
    pub requested: bool,
}

impl LocalApicLines {
    pub open spec fn wf(&self) -> bool {
        &&& self.in_service.len() == 256
        &&& self.trigger_mode.len() == 256
        &&& self.requests.len() == 256
    }

    /// The priority class that the processor works at: that of the highest vector in service, or
    /// of the task if none is.
    pub open spec fn current_priority(&self) -> int {
        match highest(self.in_service) {
            Some(vector) => vector as int / 16,
            None => self.task_priority as int / 16,
        }
    }

    /// Whether a vector interrupts what the processor works at.
    pub open spec fn interrupts(&self, vector: u8) -> bool {
        vector as int / 16 > self.current_priority()
    }

    pub open spec fn raised(self, vector: u8, trigger_mode: TriggerMode) -> LocalApicLines {
        let asked = LocalApicLines {
            requests: self.requests.update(vector as int, true),
            ..self
        };
        if self.requests[vector as int] || self.in_service[vector as int] {
            asked
        } else {
            LocalApicLines {
                trigger_mode: self.trigger_mode.update(
                    vector as int,
                    trigger_mode == TriggerMode::LevelSensitive,
                ),
                requested: self.requested || self.interrupts(vector),
                ..asked
            }
        }
    }

    /// The vector that is delivered next, if one is.
    pub open spec fn next_vector(&self) -> Option<u8> {
        match highest(self.requests) {
            Some(vector) => if self.interrupts(vector) {
                Some(vector)
            } else {
                None
            },
            None => None,
        }
    }

    /// The state once the next vector was delivered. The request on INTR ends in any case.
    pub open spec fn delivered(self) -> LocalApicLines {
        match self.next_vector() {
            Some(vector) => LocalApicLines {
                requests: self.requests.update(vector as int, false),
                in_service: self.in_service.update(vector as int, true),
                requested: false,
                ..self
            },
            None => LocalApicLines { requested: false, ..self },
        }
    }

    /// The state once the request on INTR was looked at anew.
    pub open spec fn checked(self) -> LocalApicLines {
        match highest(self.requests) {
            Some(vector) => LocalApicLines { requested: self.interrupts(vector), ..self },
            None => self,
        }
    }

    /// The state after an end of interrupt.
    pub open spec fn ended(self) -> LocalApicLines {
        match highest(self.in_service) {
            Some(vector) => LocalApicLines {
                in_service: self.in_service.update(vector as int, false),
                ..self
            }.checked(),
            None => self,
        }
    }
}

/// A delivered vector is in service and no longer asked for.
pub proof fn delivery_moves_vector_in_service(lines: LocalApicLines)
    requires
        lines.wf(),
        lines.next_vector().is_some(),
    ensures
        ({
            let vector = lines.next_vector().unwrap() as int;
            &&& lines.requests[vector]
            &&& lines.delivered().in_service[vector]
            &&& !lines.delivered().requests[vector]
        }),
{
    highest_is_last(lines.requests, 256);
}

proof fn lemma_highest_after_set(set: Seq<bool>, v: int, n: int)
    requires
        set.len() == 256,
        0 <= v < n <= 256,
        forall|i: int| v < i < n ==> !#[trigger] set[i],
    ensures
        highest_below(set.update(v, true), n) == v,
    decreases n,
{
    if n - 1 > v {
        assert(!set[n - 1]);
        lemma_highest_after_set(set, v, n - 1);
    }
}

/// An end of interrupt takes back a delivery: what was in service before is in service again.
pub proof fn end_of_interrupt_undoes_delivery(lines: LocalApicLines)
    requires
        lines.wf(),
        lines.next_vector().is_some(),
    ensures
        lines.delivered().ended().in_service == lines.in_service,
        lines.delivered().ended().task_priority == lines.task_priority,
{
    let vector: int = lines.next_vector().unwrap() as int;
    highest_is_last(lines.in_service, 256);
    highest_is_last(lines.requests, 256);
    assert(lines.delivered().in_service == lines.in_service.update(vector, true));
    if highest(lines.in_service).is_none() {
        assert(!lines.in_service[vector]);
    } else {
        let top: int = highest_below(lines.in_service, 256);
        assert(vector / 16 > top / 16);
        assert(top < vector);
        assert(!lines.in_service[vector]);
    }
    lemma_highest_after_set(lines.in_service, vector, 256);
    assert(highest(lines.delivered().in_service) == Some(vector as u8));
    assert(lines.in_service.update(vector, true).update(vector, false) =~= lines.in_service);
}

impl View for LocalApicCore {
    type V = LocalApicLines;

    closed spec fn view(&self) -> LocalApicLines {
        LocalApicLines {
            task_priority: self.task_priority,
            in_service: self.in_service@,
            trigger_mode: self.trigger_mode@,
            requests: self.interrupt_requests@,
            requested: self.pending_intr.is_some(),
        }
    }
}

impl LocalApicCore {
    /// The count on INTR includes the request that is held here, and one more fits: a new request
    /// is made before the one that is held is taken back.
    pub open spec fn fits(&self, intr: &Intr) -> bool {
        &&& intr.is_open() && self@.requested ==> intr.count() > 0
        &&& intr.is_open() ==> intr.count() < u32::MAX
    }

    pub proof fn lemma_wf(&self)
        ensures
            self@.wf(),
    {
        self.in_service.lemma_len();
        self.trigger_mode.lemma_len();
        self.interrupt_requests.lemma_len();
    }

    pub fn new(intr: IntrHandle) -> (r: Self)
        ensures
            r@ == (LocalApicLines {
                task_priority: 0,
                in_service: empty_set(),
                trigger_mode: empty_set(),
                requests: empty_set(),
                requested: false,
            }),
    {
        Self {
            in_service: Bitset::new(),
            trigger_mode: Bitset::new(),
            interrupt_requests: Bitset::new(),
            intr,
            task_priority: 0,
            pending_intr: None,
        }
    }

    fn priority(vector: u8) -> (r: u8)
        ensures
            r == vector / 16,
    {
        vector / 16
    }

    /// Replaces the request that is held by a new one, or by none.
    fn set_requested(&mut self, requested: bool, intr: &mut Intr)
        requires
            old(self).fits(&*old(intr)),
        ensures
            final(self)@ == (LocalApicLines { requested, ..old(self)@ }),
            request_moved(*old(intr), *final(intr), old(self)@.requested, requested),
    {
        let new = if requested {
            Some(self.intr.request(intr))
        } else {
            None
        };
        if let Some(previous) = self.pending_intr.take() {
            previous.release(intr);
        }
        self.pending_intr = new;
    }

    pub fn raise_interrupt(&mut self, vector: u8, trigger_mode: TriggerMode, intr: &mut Intr)
        requires
            old(self).fits(&*old(intr)),
        ensures
            final(self)@ == old(self)@.raised(vector, trigger_mode),
            request_moved(*old(intr), *final(intr), old(self)@.requested, final(self)@.requested),
    {
        if !self.interrupt_requests.set(vector as usize) || self.in_service.get(vector as usize) {
            return;
        }
        match trigger_mode {
            TriggerMode::EdgeSensitive => {
                self.trigger_mode.reset(vector as usize);
            },
            TriggerMode::LevelSensitive => {
                self.trigger_mode.set(vector as usize);
            },
        }
        if Self::priority(vector) > self.current_priority() {
            self.set_requested(true, intr);
        }
    }

    pub fn current_priority(&self) -> (r: u8)
        ensures
            r == self@.current_priority(),
    {
        match self.in_service.highest_index_set() {
            Some(vector) => Self::priority(vector),
            None => Self::priority(self.task_priority),
        }
    }

    /// Returns the interrupt vector, if an interrupt can be triggered.
    /// If some vector is returned, the request is cleared and the interrupt
    /// is marked as in-service.
    pub fn next_pending_interrupt(&mut self, intr: &mut Intr) -> (r: Option<u8>)
        requires
            old(self).fits(&*old(intr)),
        ensures
            r == old(self)@.next_vector(),
            final(self)@ == old(self)@.delivered(),
            request_moved(*old(intr), *final(intr), old(self)@.requested, false),
    {
        if let Some(vector) = self.interrupt_requests.highest_index_set() {
            if Self::priority(vector) > self.current_priority() {
                self.interrupt_requests.reset(vector as usize);
                self.in_service.set(vector as usize);
                self.set_requested(false, intr);
                return Some(vector);
            }
        }
        self.set_requested(false, intr);
        None
    }

    pub fn write_eoi(&mut self, intr: &mut Intr)
        requires
            old(self).fits(&*old(intr)),
        ensures
            final(self)@ == old(self)@.ended(),
            request_moved(*old(intr), *final(intr), old(self)@.requested, final(self)@.requested),
    {
        if let Some(vector) = self.in_service.highest_index_set() {
            self.in_service.reset(vector as usize);
            self.check_pending(intr);
        }
    }

    fn check_pending(&mut self, intr: &mut Intr)
        requires
            old(self).fits(&*old(intr)),
        ensures
            final(self)@ == old(self)@.checked(),
            request_moved(*old(intr), *final(intr), old(self)@.requested, final(self)@.requested),
    {
        if let Some(pending) = self.interrupt_requests.highest_index_set() {
            let raise = Self::priority(pending) > self.current_priority();
            self.set_requested(raise, intr);
        }
    }

    fn set_task_priority(&mut self, task_priority: u8, intr: &mut Intr)
        requires
            old(self).fits(&*old(intr)),
        ensures
            final(self)@ == (LocalApicLines { task_priority, ..old(self)@ }).checked(),
            request_moved(*old(intr), *final(intr), old(self)@.requested, final(self)@.requested),
    {
        self.task_priority = task_priority;
        self.check_pending(intr);
    }

    fn snapshot(&self) -> (r: LocalApicCoreSnapshot)
        ensures
            r.lines() == self@,
    {
        LocalApicCoreSnapshot {
            task_priority: self.task_priority,
            in_service: self.in_service.snapshot(),
            trigger_mode: self.trigger_mode.snapshot(),
            interrupt_requests: self.interrupt_requests.snapshot(),
            has_pending: self.pending_intr.is_some(),
        }
    }

    fn restore(&mut self, snapshot: LocalApicCoreSnapshot, intr: &mut Intr)
        requires
            old(self).fits(&*old(intr)),
        ensures
            final(self)@ == (LocalApicLines {
                requested: old(self)@.requested || snapshot.has_pending,
                ..snapshot.lines()
            }),
            request_moved(*old(intr), *final(intr), old(self)@.requested, final(self)@.requested),
    {
        self.task_priority = snapshot.task_priority;
        self.in_service.restore(snapshot.in_service);
        self.trigger_mode.restore(snapshot.trigger_mode);
        self.interrupt_requests.restore(snapshot.interrupt_requests);
        if snapshot.has_pending {
            self.set_requested(true, intr);
        }
    }
}

impl LocalApicCoreSnapshot {
    pub open spec fn lines(&self) -> LocalApicLines {
        LocalApicLines {
            task_priority: self.task_priority,
            in_service: members(self.in_service.values@),
            trigger_mode: members(self.trigger_mode.values@),
            requests: members(self.interrupt_requests.values@),
            requested: self.has_pending,
        }
    }
}

/// The registers of the local APIC.
#[derive(Copy, Clone, Debug)]
pub struct LocalApic {
    pub id: u32,
    pub logical_apic_destination_id: u8,
    /// Four bits.
    pub destination_format: u8,
    pub spurious_interrupt_vector: u32,
    pub error_status: u32,
    pub cmci: u32,
    pub interrupt_command_low: u32,
    pub interrupt_command_high: u32,
    pub lvt: [u32; 6],
    pub initial_count: u32,
    pub current_count: u32,
    pub divide_configuration: u32,
    pub apic_base: ApicBase,
}

#[derive(Copy, Clone, Debug)]
pub struct LocalApicSnapshot {
    pub registers: LocalApic,
    pub core: LocalApicCoreSnapshot,
}

impl LocalApic {
    pub open spec fn wf(&self) -> bool {
        self.destination_format < 16
    }

    /// The registers after power on: enabled, at the usual address, for the only processor.
    pub open spec fn is_fresh(&self) -> bool {
        &&& *self == (LocalApic {
            id: 0,
            logical_apic_destination_id: 0,
            destination_format: 0,
            spurious_interrupt_vector: 0xff,
            error_status: 0,
            cmci: 0,
            interrupt_command_low: 0,
            interrupt_command_high: 0,
            lvt: self.lvt,
            initial_count: 0,
            current_count: 0,
            divide_configuration: 0,
            apic_base: self.apic_base,
        })
        &&& forall|i: int| 0 <= i < 6 ==> self.lvt@[i] == 0
        &&& self.apic_base.bsp_spec()
        &&& self.apic_base.enabled_spec()
        &&& self.apic_base.value == DEFAULT_MMIO_ADDR + 0x900
    }

    pub fn new() -> (r: Self)
        ensures
            r.wf(),
            r.is_fresh(),
    {
        Self {
            id: 0,
            logical_apic_destination_id: 0,
            destination_format: 0,
            spurious_interrupt_vector: 0xff,
            error_status: 0,
            cmci: 0,
            interrupt_command_low: 0,
            interrupt_command_high: 0,
            lvt: [0, 0, 0, 0, 0, 0],
            initial_count: 0,
            current_count: 0,
            divide_configuration: 0,
            apic_base: ApicBase::new(true, true, DEFAULT_MMIO_ADDR / 0x1000),
        }
    }

    /// Whether an interrupt command can be carried out: it must go to this processor, or to the
    /// others, and in a delivery mode that is supported.
    pub open spec fn supports_command(&self, icr: Icr) -> bool {
        let destination = self.interrupt_command_high / 0x100_0000;
        match icr.destination_type {
            DestinationType::AllProcessorsExceptCurrent => true,
            DestinationType::UseDestinationField => match icr.destination_mode {
                DestinationMode::Physical => self.id == destination,
                DestinationMode::Logical => self.logical_apic_destination_id & (destination as u8)
                    != 0,
            },
            _ => icr.delivery_mode == DeliveryMode::Normal || icr.delivery_mode
                == DeliveryMode::INIT,
        }
    }

    /// Whether an interrupt command that can be carried out raises its vector here.
    pub open spec fn raises(icr: Icr) -> bool {
        match icr.destination_type {
            DestinationType::AllProcessorsExceptCurrent => false,
            DestinationType::UseDestinationField => true,
            _ => icr.delivery_mode == DeliveryMode::Normal,
        }
    }

    /// The registers, all but the local vector table, after `val` is written to register `index`.
    pub open spec fn after_write(self, index: u32, val: u32) -> LocalApic {
        if index == 0x02 {
            LocalApic { id: val, ..self }
        } else if index == 0x0D {
            LocalApic { logical_apic_destination_id: (val / 0x100_0000) as u8, ..self }
        } else if index == 0x0E {
            LocalApic { destination_format: (val / 0x1000_0000) as u8, ..self }
        } else if index == 0x0F {
            LocalApic { spurious_interrupt_vector: val, ..self }
        } else if index == 0x30 {
            LocalApic { interrupt_command_low: val, ..self }
        } else if index == 0x31 {
            LocalApic { interrupt_command_high: val, ..self }
        } else if index == 0x38 {
            LocalApic { initial_count: val, ..self }
        } else if index == 0x3E {
            LocalApic { divide_configuration: val, ..self }
        } else {
            self
        }
    }

    /// The local vector table after `val` is written to register `index`.
    pub open spec fn lvt_after_write(self, index: u32, val: u32) -> Seq<u32> {
        if 0x32 <= index <= 0x37 {
            self.lvt@.update(index - 0x32, val)
        } else {
            self.lvt@
        }
    }

    /// The vectors after `val` is written to register `index`.
    pub open spec fn lines_after_write(
        self,
        lines: LocalApicLines,
        index: u32,
        val: u32,
    ) -> LocalApicLines {
        if index == 0x08 {
            LocalApicLines { task_priority: (val % 0x100) as u8, ..lines }.checked()
        } else if index == 0x0B && val == 0 {
            lines.ended()
        } else if index == 0x30 && Self::raises(Icr::of_value(val)) {
            lines.raised(Icr::of_value(val).vector, Icr::of_value(val).trigger_mode)
        } else {
            lines
        }
    }

    pub fn write(&mut self, index: u32, val: u32, core: &mut LocalApicCore, intr: &mut Intr)
        requires
            old(self).wf(),
            old(core).fits(&*old(intr)),
            index == 0x30 ==> old(self).supports_command(Icr::of_value(val)),
        ensures
            final(self).wf(),
            *final(self) == (LocalApic {
                lvt: final(self).lvt,
                ..old(self).after_write(index, val)
            }),
            final(self).lvt@ == old(self).lvt_after_write(index, val),
            final(core)@ == old(self).lines_after_write(old(core)@, index, val),
            request_moved(*old(intr), *final(intr), old(core)@.requested, final(core)@.requested),
    {
        match index {
            0x02 => self.id = val,
            0x08 => {
                core.set_task_priority((val % 0x100) as u8, intr);
            },
            0x0B => {
                if val == 0 {
                    core.write_eoi(intr);
                }
            },
            0x0D => self.logical_apic_destination_id = (val / 0x100_0000) as u8,
            0x0E => self.destination_format = (val / 0x1000_0000) as u8,
            0x0F => self.spurious_interrupt_vector = val,
            0x30 => {
                self.interrupt_command_low = val;
                let icr = Icr::from_value(val);
                match icr.destination_type {
                    DestinationType::AllProcessorsExceptCurrent => {},
                    DestinationType::UseDestinationField => {
                        core.raise_interrupt(icr.vector, icr.trigger_mode, intr);
                    },
                    DestinationType::AllProcessors | DestinationType::CurrentCpu => {
                        if icr.delivery_mode == DeliveryMode::Normal {
                            core.raise_interrupt(icr.vector, icr.trigger_mode, intr);
                        }
                    },
                }
            },
            0x31 => self.interrupt_command_high = val,
            0x38 => self.initial_count = val,
            0x3E => self.divide_configuration = val,
            _ => {
                if 0x32 <= index && index <= 0x37 {
                    self.lvt[(index - 0x32) as usize] = val;
                }
            },
        }
    }

    /// The power of two that the timer's ticks are divided by.
    pub open spec fn divider_log2(&self) -> int {
        (self.divide_configuration % 4 + (if self.divide_configuration / 8 % 2 == 1 {
            4int
        } else {
            0
        }) + 1) % 8
    }

    pub open spec fn read_spec(&self, index: u32, ticks: u64, lines: LocalApicLines) -> int {
        if index == 0x02 {
            self.id as int
        } else if index == 0x03 {
            0x0003_0010
        } else if index == 0x08 {
            lines.task_priority as int
        } else if index == 0x09 || index == 0x0A || index == 0x0B {
            // No arbitration, no processor priority; the end of interrupt is write-only.
            0
        } else if index == 0x0D {
            self.logical_apic_destination_id * 0x100_0000
        } else if index == 0x0E {
            self.destination_format * 0x1000_0000 + 0x0fff_ffff
        } else if index == 0x0F {
            self.spurious_interrupt_vector as int
        } else if index == 0x30 {
            self.interrupt_command_low as int
        } else if index == 0x31 {
            self.interrupt_command_high as int
        } else if 0x32 <= index <= 0x37 {
            self.lvt@[index - 0x32] as int
        } else if index == 0x38 {
            self.initial_count as int
        } else if index == 0x39 {
            let divided = ticks as int / vstd::arithmetic::power2::pow2(
                self.divider_log2() as nat,
            ) as int;
            self.initial_count - 1 - divided % (self.initial_count as int)
        } else if index == 0x3E {
            self.divide_configuration as int
        } else {
            0xffff_ffff
        }
    }

    /// Reads a register. `ticks` is the time in ticks of the timer's 33 MHz clock; the count
    /// register can be read only once an initial count was written.
    pub fn read(&self, index: u32, ticks: u64, core: &LocalApicCore) -> (r: u32)
        requires
            self.wf(),
            index == 0x39 ==> self.initial_count != 0,
        ensures
            r == self.read_spec(index, ticks, core@),
    {
        match index {
            // Version
            0x02 => self.id,
            0x03 => 0x0003_0010,
            0x08 => core.task_priority as u32,
            0x09 => 0,
            0x0A => 0,
            0x0B => 0,
            0x0D => self.logical_apic_destination_id as u32 * 0x100_0000,
            0x0E => self.destination_format as u32 * 0x1000_0000 + 0x0fff_ffff,
            0x0F => self.spurious_interrupt_vector,
            0x30 => self.interrupt_command_low,
            0x31 => self.interrupt_command_high,
            0x38 => self.initial_count,
            0x39 => {
                let high: u32 = if self.divide_configuration / 8 % 2 == 1 {
                    4
                } else {
                    0
                };
                let shift: u32 = (self.divide_configuration % 4 + high + 1) % 8;
                let divider: u64 = power_of_two(shift);
                let divided: u64 = ticks / divider;
                let current_count: u64 = self.initial_count as u64 - 1 - (divided
                    % self.initial_count as u64);
                current_count as u32
            },
            0x3E => self.divide_configuration,
            _ => {
                if 0x32 <= index && index <= 0x37 {
                    self.lvt[(index - 0x32) as usize]
                } else {
                    u32::MAX
                }
            },
        }
    }

    pub fn next_pending_interrupt(&self, core: &mut LocalApicCore, intr: &mut Intr) -> (r: Option<
        u8,
    >)
        requires
            old(core).fits(&*old(intr)),
        ensures
            self.apic_base.enabled_spec() ==> {
                &&& r == old(core)@.next_vector()
                &&& final(core)@ == old(core)@.delivered()
                &&& request_moved(*old(intr), *final(intr), old(core)@.requested, false)
            },
            !self.apic_base.enabled_spec() ==> r.is_none() && *final(core) == *old(core)
                && *final(intr) == *old(intr),
    {
        if self.apic_base.enabled_globally() {
            core.next_pending_interrupt(intr)
        } else {
            None
        }
    }

    pub fn clear_pending(&self, core: &mut LocalApicCore)
        ensures
            final(core)@ == (LocalApicLines { requests: empty_set(), ..old(core)@ }),
    {
        proof {
            core.lemma_wf();
        }
        let mut n: usize = 0;
        while n < 256
            invariant
                n <= 256,
                core@ == (LocalApicLines { requests: core@.requests, ..old(core)@ }),
                core@.requests.len() == 256,
                forall|i: int| 0 <= i < n ==> !#[trigger] core@.requests[i],
            decreases 256 - n,
        {
            core.interrupt_requests.reset(n);
            n = n + 1;
        }
        assert(core@.requests =~= empty_set());
    }

    pub fn is_enabled(&self) -> (r: bool)
        ensures
            r == self.apic_base.enabled_spec(),
    {
        self.apic_base.enabled_globally()
    }

    /// Writes the APIC base register. Returns the address of the page that no longer holds the
    /// registers, if the APIC was switched off.
    pub fn write_apic_base(&mut self, new_value: u64) -> (r: Option<u64>)
        requires
            (ApicBase { value: new_value }).enabled_spec() ==> (ApicBase {
                value: new_value,
            }).addr_spec() == DEFAULT_MMIO_ADDR,
        ensures
            final(self).apic_base.value == (ApicBase { value: new_value }).with_bsp(
                old(self).apic_base.bsp_spec(),
            ),
            *final(self) == (LocalApic { apic_base: final(self).apic_base, ..*old(self) }),
            r.is_some() == !(ApicBase { value: new_value }).enabled_spec(),
            r.is_some() ==> r.unwrap() == old(self).apic_base.addr_spec() * 0x1000,
    {
        let previous = self.apic_base;
        let mut apic_base = ApicBase { value: new_value };
        // BSP cannot be modified
        apic_base.set_bsp(previous.bsp());
        self.apic_base = apic_base;
        if !apic_base.enabled_globally() {
            Some(previous.apic_base_addr() * 0x1000)
        } else {
            None
        }
    }

    pub fn read_apic_base(&self) -> (r: u64)
        ensures
            r == self.apic_base.value,
    {
        self.apic_base.value
    }

    pub fn snapshot(&self, core: &LocalApicCore) -> (r: LocalApicSnapshot)
        ensures
            r.registers == *self,
            r.core.lines() == core@,
    {
        LocalApicSnapshot { registers: *self, core: core.snapshot() }
    }

    pub fn restore(&mut self, lapic: LocalApicSnapshot, core: &mut LocalApicCore, intr: &mut Intr)
        requires
            lapic.registers.wf(),
            old(core).fits(&*old(intr)),
        ensures
            final(self).wf(),
            *final(self) == lapic.registers,
            final(core)@ == (LocalApicLines {
                requested: old(core)@.requested || lapic.core.has_pending,
                ..lapic.core.lines()
            }),
            request_moved(*old(intr), *final(intr), old(core)@.requested, final(core)@.requested),
    {
        *self = lapic.registers;
        core.restore(lapic.core, intr);
    }
}

fn power_of_two(n: u32) -> (r: u64)
    requires
        n < 8,
    ensures
        r == vstd::arithmetic::power2::pow2(n as nat),
        r > 0,
{
    proof {
        vstd::arithmetic::power2::lemma2_to64();
    }
    match n {
        0 => 1,
        1 => 2,
        2 => 4,
        3 => 8,
        4 => 16,
        5 => 32,
        6 => 64,
        _ => 128,
    }
}

/// Whether a vector is the one to deliver: it is asked for, none above it is, and it is of a higher
/// class, of sixteen vectors each, than all that are in service, or than the task if none is.
pub open spec fn is_due(lines: LocalApicLines, v: int) -> bool {
    &&& 0 <= v < 256
    &&& lines.requests[v]
    &&& forall|u: int| v < u < 256 ==> !#[trigger] lines.requests[u]
    &&& forall|u: int| 0 <= u < 256 && #[trigger] lines.in_service[u] ==> v / 16 > u / 16
    &&& (forall|u: int| 0 <= u < 256 ==> !#[trigger] lines.in_service[u]) ==> v / 16
        > lines.task_priority as int / 16
}

/// The highest vector that is asked for is delivered, if it is urgent enough.
pub proof fn most_urgent_vector_is_delivered(lines: LocalApicLines)
    requires
        lines.wf(),
    ensures
        lines.next_vector().is_some() <==> exists|v: int| #[trigger] is_due(lines, v),
        lines.next_vector() matches Some(v) ==> is_due(lines, v as int),
{
    highest_is_last(lines.requests, 256);
    highest_is_last(lines.in_service, 256);
    let top: int = highest_below(lines.requests, 256);
    let busy: int = highest_below(lines.in_service, 256);
    if lines.next_vector().is_some() {
        assert(lines.next_vector() == Some(top as u8));
        assert forall|u: int| 0 <= u < 256 && #[trigger] lines.in_service[u] implies top / 16 > u
            / 16 by {
            assert(u <= busy);
        }
        assert(is_due(lines, top));
    }
    if exists|v: int| #[trigger] is_due(lines, v) {
        let v = choose|v: int| #[trigger] is_due(lines, v);
        assert(top == v);
        if busy >= 0 {
            assert(lines.in_service[busy]);
        }
    }
}

/// Raising a vector asks for it and for no other; delivering takes the vector out of those asked for
/// and into those in service; an end of interrupt takes the highest one out of those in service.
/// Nothing else changes of the three.
pub proof fn vectors_change_one_by_one(lines: LocalApicLines, v: u8, mode: TriggerMode, u: int)
    requires
        lines.wf(),
        0 <= u < 256,
    ensures
        lines.raised(v, mode).requests[u] == (u == v || lines.requests[u]),
        lines.raised(v, mode).in_service == lines.in_service,
        lines.raised(v, mode).task_priority == lines.task_priority,
        lines.next_vector() matches Some(w) ==> {
            let after = lines.delivered();
            &&& after.requests[u] == (u != w && lines.requests[u])
            &&& after.in_service[u] == (u == w || lines.in_service[u])
            &&& after.task_priority == lines.task_priority && after.trigger_mode == lines.trigger_mode
        },
        lines.next_vector().is_none() ==> lines.delivered().requests == lines.requests
            && lines.delivered().in_service == lines.in_service,
        !lines.delivered().requested,
        lines.ended().requests == lines.requests,
        lines.ended().task_priority == lines.task_priority,
        lines.in_service[u] && (forall|x: int| u < x < 256 ==> !#[trigger] lines.in_service[x])
            ==> lines.ended().in_service == lines.in_service.update(u, false),
{
    highest_is_last(lines.requests, 256);
    highest_is_last(lines.in_service, 256);
    if lines.in_service[u] && (forall|x: int| u < x < 256 ==> !#[trigger] lines.in_service[x]) {
        assert(highest_below(lines.in_service, 256) == u);
    }
}

/// A new vector that is urgent enough asks for the processor.
pub proof fn urgent_vectors_ask_for_the_processor(lines: LocalApicLines, v: u8, mode: TriggerMode)
    requires
        lines.wf(),
        !lines.requests[v as int] && !lines.in_service[v as int],
        forall|u: int| 0 <= u < 256 && #[trigger] lines.in_service[u] ==> v as int / 16 > u / 16,
        (forall|u: int| 0 <= u < 256 ==> !#[trigger] lines.in_service[u]) ==> v as int / 16
            > lines.task_priority as int / 16,
    ensures
        lines.raised(v, mode).requested,
        lines.raised(v, mode).trigger_mode == lines.trigger_mode.update(
            v as int,
            mode == TriggerMode::LevelSensitive,
        ),
{
    highest_is_last(lines.in_service, 256);
}

/// The registers of the local APIC read what was written to them, and no other register changes:
/// the identity at 0x02, the spurious vector at 0x0F, the two halves of the interrupt command at
/// 0x30 and 0x31, the timer's count at 0x38 and its divider at 0x3E. The task priority, at 0x08,
/// keeps one byte.
pub proof fn registers_read_back(apic: LocalApic, lines: LocalApicLines, index: u32, val: u32, t: u64)
    requires
        lines.wf(),
    ensures
        index == 0x02 || index == 0x0F || index == 0x30 || index == 0x31 || index == 0x38 || index
            == 0x3E ==> apic.after_write(index, val).read_spec(index, t, lines) == val,
        apic.lines_after_write(lines, 0x08, val).task_priority == val % 0x100,
        apic.after_write(0x0D, val).read_spec(0x0D, t, lines) == val / 0x100_0000 * 0x100_0000,
        apic.read_spec(0x03, t, lines) == 0x0003_0010,
        0x32 <= index <= 0x37 ==> apic.lvt_after_write(index, val).len() == 6 && apic.lvt_after_write(
            index,
            val,
        )[index - 0x32] == val,
        forall|i: u32|
            i != index && i != 0x39 && !(0x32 <= i <= 0x37) ==> #[trigger] apic.after_write(
                index,
                val,
            ).read_spec(i, t, lines) == apic.read_spec(i, t, lines),
{
}

/// The timer counts down from one below its initial count to 0 and starts again; it takes one step
/// in as many ticks as the divider says: bits 0, 1 and 3 of the configuration, 0 to 7, stand for 2,
/// 4, 8, 16, 32, 64, 128 and 1.
pub proof fn timer_counts_down(apic: LocalApic, lines: LocalApicLines, ticks: u64, divider: u64)
    requires
        apic.initial_count > 0,
        divider == (match apic.divide_configuration % 16 {
            0u32 => 2u64,
            1u32 => 4u64,
            2u32 => 8u64,
            3u32 => 16u64,
            8u32 => 32u64,
            9u32 => 64u64,
            10u32 => 128u64,
            11u32 => 1u64,
            _ => 0u64,
        }),
        divider > 0,
        ticks + divider <= u64::MAX,
    ensures
        ({
            let now = apic.read_spec(0x39, ticks, lines);
            let next = apic.read_spec(0x39, (ticks + divider) as u64, lines);
            &&& 0 <= now < apic.initial_count
            &&& next == (if now == 0 {
                apic.initial_count - 1
            } else {
                now - 1
            })
            &&& ticks < divider ==> now == apic.initial_count - 1
        }),
{
    vstd::arithmetic::power2::lemma2_to64();
    let d: int = divider as int;
    let c: int = apic.initial_count as int;
    let t: int = ticks as int;
    let k: u32 = apic.divide_configuration % 16;
    assert(apic.divide_configuration % 4 == k % 4);
    assert(apic.divide_configuration / 8 % 2 == k / 8);
    assert(vstd::arithmetic::power2::pow2(apic.divider_log2() as nat) == d);
    let q: int = t / d;
    assert((t + d) / d == q + 1) by (nonlinear_arith)
        requires
            q == t / d,
            d > 0,
    ;
    assert(q >= 0) by (nonlinear_arith)
        requires
            q == t / d,
            d > 0,
            t >= 0,
    ;
    vstd::arithmetic::div_mod::lemma_fundamental_div_mod(q, c);
    let r: int = q % c;
    assert(0 <= r < c);
    let p: int = q / c;
    if r + 1 == c {
        assert(q + 1 == c * (p + 1)) by (nonlinear_arith)
            requires
                q == c * p + r,
                r + 1 == c,
        ;
        vstd::arithmetic::div_mod::lemma_mod_multiples_basic(p + 1, c);
        assert((q + 1) % c == 0) by (nonlinear_arith)
            requires
                ((p + 1) * c) % c == 0,
                q + 1 == c * (p + 1),
        ;
    } else {
        vstd::arithmetic::div_mod::lemma_fundamental_div_mod_converse(q + 1, c, p, r + 1);
    }
    if t < d {
        assert(q == 0) by (nonlinear_arith)
            requires
                q == t / d,
                0 <= t < d,
        ;
    }
}

} // verus!
