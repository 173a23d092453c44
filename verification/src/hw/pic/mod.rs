//! Interrupt controllers: the legacy PIC pair, the IO APIC and the local APIC.
pub mod bitset;
pub mod io;
pub mod legacy;
pub mod local;

use vstd::prelude::*;

use crate::hw::intr::Intr;
use crate::hw::pic::bitset::empty_set;
use crate::hw::pic::io::{
    reset_entry, IoApicCore, IoApicLines, Polarity, RedirectionEntry, TriggerMode,
};
use crate::hw::pic::legacy::{DynamicIrqLine, IrqLine, PicBank, PicLines, SharedPicCore};
use crate::hw::pic::local::{LocalApicCore, LocalApicLines};

verus! {

#[derive(Copy, Clone, Debug, PartialEq, Eq, Structural)]
pub enum DeliveryMode {
    /// Deliver the signal on the INTR signal of all processor cores listed in the
    /// destination. Trigger Mode for "fixed" Delivery Mode can be edge or level.
    Normal,
    /// Deliver the signal on the INTR signal of the processor core that is
    /// executing at the lowest priority among all the processors listed in the
    /// specified destination. Trigger Mode for "lowest priority". Delivery Mode
    /// can be edge or level.
    LowPriority,
    /// System Management Interrupt. A delivery mode equal to SMI requires an
    /// edge trigger mode. The vector information is ignored but must be
    /// programmed to all zeroes for future compatibility.
    SMI,
    Reserved3,
    /// Deliver the signal on the NMI signal of all processor cores listed in the
    /// destination. Vector information is ignored. NMI is treated as an edge
    /// triggered interrupt, even if it is programmed as a level triggered interrupt.
    /// For proper operation, this redirection table entry must be programmed to
    /// "edge" triggered interrupt.
    NMI,
    /// Deliver the signal to all processor cores listed in the destination by
    /// asserting the INIT signal. All addressed local APICs will assume their
    /// INIT state. INIT is always treated as an edge triggered interrupt, even if
    /// programmed otherwise. For proper operation, this redirection table entry
    /// must be programmed to "edge" triggered interrupt.
    INIT,
    Reserved6,
    /// Deliver the signal to the INTR signal of all processor cores listed in the
    /// destination as an interrupt that originated in an externally connected
    /// (8259A-compatible) interrupt controller. The INTA cycle that corresponds
    /// to this ExtINT delivery is routed to the external controller that is expected
    /// to supply the vector. A Delivery Mode of "ExtINT" requires an edge
    /// trigger mode.
    External,
}

impl DeliveryMode {
    pub open spec fn bits_spec(&self) -> int {
        match self {
            DeliveryMode::Normal => 0,
            DeliveryMode::LowPriority => 1,
            DeliveryMode::SMI => 2,
            DeliveryMode::Reserved3 => 3,
            DeliveryMode::NMI => 4,
            DeliveryMode::INIT => 5,
            DeliveryMode::Reserved6 => 6,
            DeliveryMode::External => 7,
        }
    }

    pub open spec fn of_bits(bits: int) -> DeliveryMode {
        if bits == 0 {
            DeliveryMode::Normal
        } else if bits == 1 {
            DeliveryMode::LowPriority
        } else if bits == 2 {
            DeliveryMode::SMI
        } else if bits == 3 {
            DeliveryMode::Reserved3
        } else if bits == 4 {
            DeliveryMode::NMI
        } else if bits == 5 {
            DeliveryMode::INIT
        } else if bits == 6 {
            DeliveryMode::Reserved6
        } else {
            DeliveryMode::External
        }
    }

    pub fn bits(&self) -> (r: u8)
        ensures
            r == self.bits_spec(),
    {
        match self {
            DeliveryMode::Normal => 0,
            DeliveryMode::LowPriority => 1,
            DeliveryMode::SMI => 2,
            DeliveryMode::Reserved3 => 3,
            DeliveryMode::NMI => 4,
            DeliveryMode::INIT => 5,
            DeliveryMode::Reserved6 => 6,
            DeliveryMode::External => 7,
        }
    }

    pub fn from_bits(bits: u8) -> (r: Self)
        requires
            bits < 8,
        ensures
            r == Self::of_bits(bits as int),
            r.bits_spec() == bits,
    {
        match bits {
            0 => DeliveryMode::Normal,
            1 => DeliveryMode::LowPriority,
            2 => DeliveryMode::SMI,
            3 => DeliveryMode::Reserved3,
            4 => DeliveryMode::NMI,
            5 => DeliveryMode::INIT,
            6 => DeliveryMode::Reserved6,
            _ => DeliveryMode::External,
        }
    }
}

#[derive(Copy, Clone, Debug, PartialEq, Eq, Structural)]
pub enum DestinationMode {
    Physical,
    Logical,
}

impl DestinationMode {
    pub open spec fn bits_spec(&self) -> int {
        match self {
            DestinationMode::Physical => 0,
            DestinationMode::Logical => 1,
        }
    }

    pub open spec fn of_bits(bits: int) -> DestinationMode {
        if bits == 0 {
            DestinationMode::Physical
        } else {
            DestinationMode::Logical
        }
    }

    pub fn bits(&self) -> (r: u8)
        ensures
            r == self.bits_spec(),
    {
        match self {
            DestinationMode::Physical => 0,
            DestinationMode::Logical => 1,
        }
    }

    pub fn from_bits(bits: u8) -> (r: Self)
        requires
            bits < 2,
        ensures
            r == Self::of_bits(bits as int),
            r.bits_spec() == bits,
    {
        match bits {
            0 => DestinationMode::Physical,
            _ => DestinationMode::Logical,
        }
    }
}

/// All that an interrupt line of a device acts on: both controllers and the INTR pin.
#[derive(Debug)]
pub struct IrqSystem {
    pub intr: Intr,
    pub pic: SharedPicCore,
    pub io: IoApicCore,
    pub local: LocalApicCore,
}

/// The state of the interrupt system.
pub struct IrqState {
    pub pic: PicLines,
    pub io: IoApicLines,
    pub local: LocalApicLines,
}

/// 1 for a request that is held, 0 for none.
pub open spec fn held(requested: bool) -> int {
    if requested {
        1
    } else {
        0
    }
}

impl View for IrqSystem {
    type V = IrqState;

    open spec fn view(&self) -> IrqState {
        IrqState { pic: self.pic@, io: self.io@, local: self.local@ }
    }
}

impl IrqState {
    /// No line is raised, nothing is in service, and every entry of the IO APIC is masked.
    pub open spec fn at_reset() -> IrqState {
        let bank = PicBank { pending_interrupts: 0, in_service: 0, imr: 0, vector_offset: 0 };
        IrqState {
            pic: PicLines { main: bank, secondary: bank, requested: false },
            io: IoApicLines {
                entries: Seq::new(24, |i: int| reset_entry()),
                irq_lines: empty_set(),
            },
            local: LocalApicLines {
                task_priority: 0,
                in_service: empty_set(),
                trigger_mode: empty_set(),
                requests: empty_set(),
                requested: false,
            },
        }
    }

    /// The vectors of the first line of each legacy controller were set.
    pub open spec fn with_offsets(self, main: u8, secondary: u8) -> IrqState {
        IrqState {
            pic: PicLines {
                main: PicBank { vector_offset: main, ..self.pic.main },
                secondary: PicBank { vector_offset: secondary, ..self.pic.secondary },
                ..self.pic
            },
            ..self
        }
    }

    /// All interrupts that were raised are forgotten: those that wait everywhere, those in
    /// service only at the legacy controllers. Masks, vectors and modes stay.
    pub open spec fn forgotten(self) -> IrqState {
        IrqState {
            pic: PicLines {
                main: PicBank { pending_interrupts: 0, in_service: 0, ..self.pic.main },
                secondary: PicBank { pending_interrupts: 0, in_service: 0, ..self.pic.secondary },
                requested: false,
            },
            io: IoApicLines {
                entries: Seq::new(
                    24,
                    |i: int| RedirectionEntry { pending: false, ..self.io.entries[i] },
                ),
                ..self.io
            },
            local: LocalApicLines { requests: empty_set(), ..self.local },
        }
    }

    /// Whether the entry of a line is sent onwards when the line is set to `val`.
    pub open spec fn sends(&self, index: int, val: bool) -> bool {
        let entry = self.io.entries[index];
        let active = (entry.polarity == Polarity::ActiveHigh) == val;
        &&& !entry.masked
        &&& active
        &&& match entry.trigger_mode {
            TriggerMode::EdgeSensitive => self.io.irq_lines[index] != val,
            TriggerMode::LevelSensitive => !entry.pending,
        }
    }

    /// The entry of a line after the line was set to `val`.
    pub open spec fn entry_after(&self, index: int, val: bool) -> RedirectionEntry {
        let entry = self.io.entries[index];
        let active = (entry.polarity == Polarity::ActiveHigh) == val;
        match entry.trigger_mode {
            TriggerMode::EdgeSensitive => if self.sends(index, val) {
                RedirectionEntry { pending: false, ..entry }
            } else {
                entry
            },
            TriggerMode::LevelSensitive => if active {
                RedirectionEntry { pending: true, ..entry }
            } else if entry.masked {
                entry
            } else {
                RedirectionEntry { pending: false, was_received: false, ..entry }
            },
        }
    }

    /// IO APIC line `index` was set to `val`.
    pub open spec fn apic_set(self, index: int, val: bool) -> IrqState {
        let entry = self.io.entries[index];
        IrqState {
            io: IoApicLines {
                entries: self.io.entries.update(index, self.entry_after(index, val)),
                irq_lines: self.io.irq_lines.update(index, val),
            },
            local: if self.sends(index, val) {
                self.local.raised(entry.vector, entry.trigger_mode)
            } else {
                self.local
            },
            ..self
        }
    }

    /// IO APIC line `index` was pulsed.
    pub open spec fn apic_pulsed(self, index: int) -> IrqState {
        self.apic_set(index, true).apic_set(index, false)
    }

    /// PIC line `index` was pulsed.
    pub open spec fn pic_pulsed(self, index: int) -> IrqState {
        IrqState { pic: self.pic.pulsed(index), ..self }
    }

    /// Setting the line to `val` sends nothing in a delivery mode that is not supported.
    pub open spec fn set_accepted(&self, index: int, val: bool) -> bool {
        self.sends(index, val) ==> self.io.entries[index].sendable()
    }

    /// A pulse of the line sends nothing in a delivery mode that is not supported.
    pub open spec fn pulse_accepted(&self, index: int) -> bool {
        self.set_accepted(index, true) && self.apic_set(index, true).set_accepted(index, false)
    }

    /// The entry of the line is masked or has a delivery mode that is supported.
    pub open spec fn accepts(&self, index: int) -> bool {
        self.io.entries[index].masked || self.io.entries[index].sendable()
    }

    /// The next vector that the processor is interrupted with is within range.
    pub open spec fn vectors_in_range(&self) -> bool {
        self.pic.main.vector_offset <= 0xf8 && self.pic.secondary.vector_offset <= 0xf8
    }
}

/// A line that accepts a pulse goes on accepting pulses, whatever lines are pulsed.
pub proof fn pulses_stay_accepted(state: IrqState, pulsed: int, line: int)
    requires
        0 <= pulsed < state.io.entries.len(),
        0 <= line < state.io.entries.len(),
        state.accepts(line),
    ensures
        state.pulse_accepted(line),
        state.apic_pulsed(pulsed).accepts(line),
        state.pic_pulsed(pulsed).accepts(line),
        state.apic_pulsed(pulsed).io.entries.len() == state.io.entries.len(),
{
}

/// A pulse leaves the line low, and changes nothing of the other lines' entries.
pub proof fn pulse_leaves_line_low(state: IrqState, index: int, other: int)
    requires
        0 <= index < state.io.entries.len(),
        0 <= other < state.io.entries.len(),
        state.io.irq_lines.len() == 256,
        index < 256,
        index != other,
    ensures
        !state.apic_pulsed(index).io.irq_lines[index],
        state.apic_pulsed(index).io.entries[other] == state.io.entries[other],
        state.apic_pulsed(index).pic == state.pic,
{
}

impl IrqSystem {
    /// INTR counts exactly the requests that the controllers hold.
    pub open spec fn wf(&self) -> bool {
        &&& self.intr.is_open()
        &&& self.intr.count() == held(self.pic@.requested) + held(self.local@.requested)
        &&& self.io.wf()
        &&& self.local@.wf()
        &&& self@.vectors_in_range()
    }

    pub fn new(intr: Intr) -> (r: Self)
        requires
            intr.is_open(),
            intr.count() == 0,
        ensures
            r.wf(),
            r.intr == intr,
            r@ == IrqState::at_reset(),
            forall|i: int| 0 <= i < 24 ==> #[trigger] r@.accepts(i),
    {
        let handle = intr.handle();
        let pic = SharedPicCore::new(handle);
        let local = LocalApicCore::new(handle);
        proof {
            local.lemma_wf();
        }
        IrqSystem { intr, pic, io: IoApicCore::new(), local }
    }

    /// Whether the entry of a line is masked or has a delivery mode that is supported.
    fn accepts_line(&self, index: u32) -> (r: bool)
        requires
            self.wf(),
            index < 24,
        ensures
            r == self@.accepts(index as int),
    {
        let entry = self.io.redirection_entry(index);
        entry.masked || match entry.delivery_mode {
            DeliveryMode::Normal | DeliveryMode::LowPriority => true,
            _ => false,
        }
    }

    fn pulse_pic(&mut self, index: u8)
        requires
            old(self).wf(),
            index < 16,
        ensures
            final(self).wf(),
            final(self)@ == old(self)@.pic_pulsed(index as int),
    {
        let line = DynamicIrqLine::from_shared_core(&self.pic);
        line.pulse(index, &mut self.pic, &mut self.intr);
    }
}

/// The lines of the IO APIC, the line being chosen at each call.
#[derive(Copy, Clone, Debug)]
pub struct DynamicApicIrqLine {}

impl DynamicApicIrqLine {
    pub fn new() -> (r: Self)
        ensures
            r == (DynamicApicIrqLine {  }),
    {
        Self {  }
    }

    pub fn pulse(&self, index: u32, irq: &mut IrqSystem)
        requires
            old(irq).wf(),
            index < 24,
            old(irq)@.pulse_accepted(index as int),
        ensures
            final(irq).wf(),
            final(irq)@ == old(irq)@.apic_pulsed(index as int),
    {
        self.set(index, true, irq);
        self.set(index, false, irq);
    }

    pub fn set(&self, index: u32, val: bool, irq: &mut IrqSystem)
        requires
            old(irq).wf(),
            index < 24,
            old(irq)@.set_accepted(index as int, val),
        ensures
            final(irq).wf(),
            final(irq)@ == old(irq)@.apic_set(index as int, val),
    {
        let ghost before = irq@;
        let ghost n = index as int;
        let changed = irq.io.set_irq_line(index, val);
        let entry = irq.io.redirection_entry(index);
        let active = match entry.polarity {
            Polarity::ActiveHigh => val,
            Polarity::ActiveLow => !val,
        };
        if entry.masked {
            if entry.trigger_mode == TriggerMode::LevelSensitive && active {
                let mut e = entry;
                e.pending = true;
                irq.io.set_redirection_entry(index, e);
            }
            assert(irq@.io.entries =~= before.apic_set(n, val).io.entries);
            return;
        }
        match entry.trigger_mode {
            TriggerMode::EdgeSensitive => {
                if changed && active {
                    self.send_interrupt(index, entry, irq);
                    let mut e = entry;
                    e.pending = false;
                    irq.io.set_redirection_entry(index, e);
                }
            },
            TriggerMode::LevelSensitive => {
                if active && !entry.pending {
                    self.send_interrupt(index, entry, irq);
                    let mut e = entry;
                    e.pending = true;
                    irq.io.set_redirection_entry(index, e);
                } else if !active {
                    let mut e = entry;
                    e.pending = false;
                    e.was_received = false;
                    irq.io.set_redirection_entry(index, e);
                }
            },
        }
        assert(irq@.io.entries =~= before.apic_set(n, val).io.entries);
    }

    fn send_interrupt(&self, index: u32, entry: RedirectionEntry, irq: &mut IrqSystem)
        requires
            old(irq).wf(),
            index < 24,
            entry.sendable(),
            entry.wf(),
        ensures
            final(irq).wf(),
            final(irq)@ == (IrqState {
                local: old(irq)@.local.raised(entry.vector, entry.trigger_mode),
                io: IoApicLines {
                    entries: if entry.trigger_mode == TriggerMode::LevelSensitive {
                        old(irq)@.io.entries.update(
                            index as int,
                            RedirectionEntry { was_received: true, ..entry },
                        )
                    } else {
                        old(irq)@.io.entries
                    },
                    ..old(irq)@.io
                },
                ..old(irq)@
            }),
    {
        if entry.trigger_mode == TriggerMode::LevelSensitive {
            let mut e = entry;
            e.was_received = true;
            irq.io.set_redirection_entry(index, e);
        }
        irq.local.raise_interrupt(entry.vector, entry.trigger_mode, &mut irq.intr);
        proof {
            irq.local.lemma_wf();
        }
    }
}

/// One line of the IO APIC.
#[derive(Copy, Clone, Debug)]
pub struct ApicIrqLine {
    pub index: u32,
    pub inner: DynamicApicIrqLine,
}

impl ApicIrqLine {
    pub fn new(index: u32) -> (r: Self)
        ensures
            r.index == index,
    {
        Self { index, inner: DynamicApicIrqLine::new() }
    }

    pub fn pulse(&self, irq: &mut IrqSystem)
        requires
            old(irq).wf(),
            self.index < 24,
            old(irq)@.pulse_accepted(self.index as int),
        ensures
            final(irq).wf(),
            final(irq)@ == old(irq)@.apic_pulsed(self.index as int),
    {
        self.set(true, irq);
        self.set(false, irq);
    }

    pub fn set(&self, val: bool, irq: &mut IrqSystem)
        requires
            old(irq).wf(),
            self.index < 24,
            old(irq)@.set_accepted(self.index as int, val),
        ensures
            final(irq).wf(),
            final(irq)@ == old(irq)@.apic_set(self.index as int, val),
    {
        self.inner.set(self.index, val, irq);
    }
}

/// Every line that could be pulsed before can be pulsed after.
pub open spec fn still_accepts(before: &IrqSystem, after: &IrqSystem) -> bool {
    &&& before.wf() ==> after.wf()
    &&& forall|i: int| 0 <= i < 24 && before@.accepts(i) ==> #[trigger] after@.accepts(i)
}

/// A device's line, wired to both kinds of controller.
#[derive(Copy, Clone, Debug)]
pub struct DualIrqLine {
    pub pic: IrqLine,
    pub apic: ApicIrqLine,
}

impl DualIrqLine {
    pub open spec fn wf(&self) -> bool {
        0 <= self.pic.index() < 16 && self.apic.index < 24
    }

    /// What a pulse of this line does.
    #[verifier::opaque]
    pub open spec fn pulsed(&self, state: IrqState) -> IrqState {
        state.pic_pulsed(self.pic.index()).apic_pulsed(self.apic.index as int)
    }

    /// Whether the line can be pulsed, now and later.
    #[verifier::opaque]
    pub open spec fn ready(&self, irq: &IrqSystem) -> bool {
        self.wf() && irq.wf() && irq@.accepts(self.apic.index as int)
    }

    /// Tells whether the line can be pulsed.
    pub fn can_be_pulsed(&self, irq: &IrqSystem) -> (r: bool)
        requires
            irq.wf(),
        ensures
            r == self.ready(irq),
    {
        proof {
            reveal(DualIrqLine::ready);
        }
        self.pic.number() < 16 && self.apic.index < 24 && irq.accepts_line(self.apic.index)
    }

    /// A line that can be pulsed can still be pulsed after others were.
    pub proof fn stays_ready(&self, before: &IrqSystem, after: &IrqSystem)
        requires
            self.ready(before),
            still_accepts(before, after),
        ensures
            self.ready(after),
    {
        reveal(DualIrqLine::ready);
    }

    pub fn pulse(&self, irq: &mut IrqSystem)
        requires
            self.ready(&*old(irq)),
        ensures
            self.ready(&*final(irq)),
            still_accepts(&*old(irq), &*final(irq)),
            final(irq)@ == self.pulsed(old(irq)@),
    {
        proof {
            reveal(DualIrqLine::pulsed);
            reveal(DualIrqLine::ready);
            pulses_stay_accepted(
                irq@.pic_pulsed(self.pic.index()),
                self.apic.index as int,
                self.apic.index as int,
            );
        }
        self.pic.pulse(&mut irq.pic, &mut irq.intr);
        self.apic.pulse(irq);
    }

    /// Pulses the line when it goes high.
    pub fn set(&self, val: bool, irq: &mut IrqSystem)
        requires
            val ==> self.ready(&*old(irq)),
        ensures
            self.ready(&*old(irq)) ==> self.ready(&*final(irq)),
            still_accepts(&*old(irq), &*final(irq)),
            final(irq)@ == (if val {
                self.pulsed(old(irq)@)
            } else {
                old(irq)@
            }),
    {
        if val {
            self.pulse(irq);
        }
    }
}

/// The lines of a device that is told at run time which one to use.
#[derive(Copy, Clone, Debug)]
pub struct DualDynamicIrqLine {
    pub pic: DynamicIrqLine,
    pub apic: DynamicApicIrqLine,
}

impl DualDynamicIrqLine {
    /// What a pulse of line `index` does: lines 16 and up reach the IO APIC only.
    #[verifier::opaque]
    pub open spec fn pulsed(state: IrqState, index: int) -> IrqState {
        if index < 16 {
            state.pic_pulsed(index).apic_pulsed(index)
        } else {
            state.apic_pulsed(index)
        }
    }

    #[verifier::opaque]
    pub open spec fn ready(irq: &IrqSystem, index: int) -> bool {
        0 <= index < 24 && irq.wf() && irq@.accepts(index)
    }

    /// Tells whether line `index` can be pulsed.
    pub fn can_be_pulsed(irq: &IrqSystem, index: u8) -> (r: bool)
        requires
            irq.wf(),
        ensures
            r == Self::ready(irq, index as int),
    {
        proof {
            reveal(DualDynamicIrqLine::ready);
        }
        index < 24 && irq.accepts_line(index as u32)
    }

    /// A line that can be pulsed can still be pulsed after others were.
    pub proof fn stays_ready(before: &IrqSystem, after: &IrqSystem, index: int)
        requires
            Self::ready(before, index),
            still_accepts(before, after),
        ensures
            Self::ready(after, index),
    {
        reveal(DualDynamicIrqLine::ready);
    }

    pub fn pulse(&self, index: u8, irq: &mut IrqSystem)
        requires
            Self::ready(&*old(irq), index as int),
        ensures
            Self::ready(&*final(irq), index as int),
            still_accepts(&*old(irq), &*final(irq)),
            final(irq)@ == Self::pulsed(old(irq)@, index as int),
    {
        proof {
            reveal(DualDynamicIrqLine::pulsed);
            reveal(DualDynamicIrqLine::ready);
            pulses_stay_accepted(irq@, index as int, index as int);
            pulses_stay_accepted(irq@.pic_pulsed(index as int), index as int, index as int);
        }
        if index < 16 {
            irq.pulse_pic(index);
        }
        self.apic.pulse(index as u32, irq);
    }

    /// Pulses line `index` when it goes high.
    pub fn set(&self, index: u8, val: bool, irq: &mut IrqSystem)
        requires
            val ==> Self::ready(&*old(irq), index as int),
        ensures
            Self::ready(&*old(irq), index as int) ==> Self::ready(&*final(irq), index as int),
            still_accepts(&*old(irq), &*final(irq)),
            final(irq)@ == (if val {
                Self::pulsed(old(irq)@, index as int)
            } else {
                old(irq)@
            }),
    {
        if val {
            self.pulse(index, irq);
        }
    }
}

/// A pulse of a line reaches the processor: the vector of an entry that is not masked is raised when
/// its line goes high, on the edge or while nothing is pending. A masked line raises nothing.
pub proof fn pulses_raise_vectors(state: IrqState, index: int)
    requires
        0 <= index < 24,
        state.io.entries.len() == 24,
        state.io.irq_lines.len() == 256,
        state.io.entries[index].polarity == Polarity::ActiveHigh,
    ensures
        ({
            let entry = state.io.entries[index];
            let after = state.apic_pulsed(index);
            &&& entry.masked ==> after.local == state.local
            &&& !entry.masked && entry.trigger_mode == TriggerMode::EdgeSensitive
                && !state.io.irq_lines[index] ==> after.local == state.local.raised(
                entry.vector,
                TriggerMode::EdgeSensitive,
            )
            &&& !entry.masked && entry.trigger_mode == TriggerMode::LevelSensitive && !entry.pending
                ==> after.local == state.local.raised(
                entry.vector,
                TriggerMode::LevelSensitive,
            )
            &&& !after.io.irq_lines[index]
            &&& after.pic == state.pic
        }),
{
}

/// A line that is wired to both kinds of controller reaches both: its legacy line, of which a line
/// that is chosen at run time has one only below 16, and its line of the IO APIC.
pub proof fn dual_lines_reach_both_controllers(line: DualIrqLine, state: IrqState, index: int)
    ensures
        line.pulsed(state).pic == state.pic.pulsed(line.pic.index()),
        line.pulsed(state).io == state.apic_pulsed(line.apic.index as int).io,
        line.pulsed(state).local == state.apic_pulsed(line.apic.index as int).local,
        index < 16 ==> DualDynamicIrqLine::pulsed(state, index).pic == state.pic.pulsed(index),
        index >= 16 ==> DualDynamicIrqLine::pulsed(state, index).pic == state.pic,
        DualDynamicIrqLine::pulsed(state, index).io == state.apic_pulsed(index).io,
        DualDynamicIrqLine::pulsed(state, index).local == state.apic_pulsed(index).local,
{
    reveal(DualIrqLine::pulsed);
    reveal(DualDynamicIrqLine::pulsed);
}

} // verus!
