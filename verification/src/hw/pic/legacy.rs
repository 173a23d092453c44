//! The pair of cascaded 8259A interrupt controllers.
use vstd::prelude::*;

use crate::hw::intr::{Intr, IntrHandle, PendingRequest};

verus! {

pub const PIC_INTERRUPT_ID_TIMER: u8 = 0;

pub const PIC_INTERRUPT_ID_KBM_RTC: u8 = 1;

pub const PIC_INTERRUPT_ID_VIDEO: u8 = 2;

pub const PIC_INTERRUPT_ID_SERIAL2: u8 = 3;

pub const PIC_INTERRUPT_ID_SERIAL1: u8 = 4;

pub const PIC_INTERRUPT_ID_HDD: u8 = 5;

pub const PIC_INTERRUPT_ID_FDD: u8 = 6;

pub const PIC_INTERRUPT_ID_PRINTER: u8 = 7;

/// Where the initialization sequence of a controller stands.
#[derive(Copy, Clone, Debug, PartialEq, Eq, Structural)]
pub enum State {
    Ready,
    Icw2 { need_icw4: bool },
    Icw3 { need_icw4: bool },
    Icw4,
}

#[derive(Copy, Clone, Debug, PartialEq, Eq, Structural)]
pub enum Cascade {
    /// The IRQ line which we use to cascade events to the main PIC.
    Single { cascade_id: u8 },
    /// If bit N in cascade_map is 1, then another PIC is connected to that IRQ line.
    Cascade { cascade_map: u8 },
}

#[derive(Copy, Clone, Debug, PartialEq, Eq, Structural)]
pub enum Adi {
    Interval4,
    Interval8,
}

#[derive(Copy, Clone, Debug, PartialEq, Eq, Structural)]
pub enum TriggerMode {
    Level,
    Edge,
}

/// Whether bit `line` of `lines` is set.
pub open spec fn has_line(lines: u16, line: int) -> bool {
    0 <= line < 16 && lines & (1u16 << (line as u16)) != 0
}

/// Whether bit `line` of the controller register `bits` is set.
pub open spec fn has_bit(bits: u8, line: int) -> bool {
    0 <= line < 8 && bits & (1u8 << (line as u8)) != 0
}

/// The line at place `p` of the priority order: the second controller hangs off line 2 of the
/// first, so its lines come right behind that line.
pub open spec fn line_at(p: int) -> int {
    if p < 3 {
        p
    } else if p < 11 {
        p + 5
    } else {
        p - 8
    }
}

/// The first place at or behind `p` of the priority order whose line is set in `lines`, or 0xff.
pub open spec fn first_place(lines: u16, p: int) -> int
    decreases 16 - p,
{
    if p >= 16 {
        0xff
    } else if has_line(lines, line_at(p)) {
        p
    } else {
        first_place(lines, p + 1)
    }
}

/// The priority of the most urgent line in `lines`; smaller is more urgent.
pub open spec fn priority_of(lines: u16) -> int {
    first_place(lines, 0)
}

proof fn lemma_first_place(lines: u16, p: int)
    requires
        0 <= p <= 16,
    ensures
        first_place(lines, p) == 0xff || p <= first_place(lines, p) < 16,
        first_place(lines, p) < 16 ==> has_line(lines, line_at(first_place(lines, p))),
        forall|q: int|
            p <= q < 16 && q < first_place(lines, p) ==> !#[trigger] has_line(lines, line_at(q)),
    decreases 16 - p,
{
    if p < 16 {
        lemma_first_place(lines, p + 1);
    }
}

proof fn lemma_nonzero_has_place(lines: u16)
    ensures
        (lines != 0) == (priority_of(lines) != 0xff),
{
    lemma_first_place(lines, 0);
    assert(has_line(lines, line_at(0)) || has_line(lines, line_at(1)) || has_line(lines, line_at(2))
        || has_line(lines, line_at(3)) || has_line(lines, line_at(4)) || has_line(lines, line_at(5))
        || has_line(lines, line_at(6)) || has_line(lines, line_at(7)) || has_line(lines, line_at(8))
        || has_line(lines, line_at(9)) || has_line(lines, line_at(10)) || has_line(
        lines,
        line_at(11),
    ) || has_line(lines, line_at(12)) || has_line(lines, line_at(13)) || has_line(
        lines,
        line_at(14),
    ) || has_line(lines, line_at(15)) || lines == 0) by {
        assert(lines & (1u16 << 0u16) != 0 || lines & (1u16 << 1u16) != 0 || lines & (1u16 << 2u16)
            != 0 || lines & (1u16 << 8u16) != 0 || lines & (1u16 << 9u16) != 0 || lines & (1u16
            << 10u16) != 0 || lines & (1u16 << 11u16) != 0 || lines & (1u16 << 12u16) != 0 || lines
            & (1u16 << 13u16) != 0 || lines & (1u16 << 14u16) != 0 || lines & (1u16 << 15u16) != 0
            || lines & (1u16 << 3u16) != 0 || lines & (1u16 << 4u16) != 0 || lines & (1u16 << 5u16)
            != 0 || lines & (1u16 << 6u16) != 0 || lines & (1u16 << 7u16) != 0 || lines == 0)
            by (bit_vector);
    }
    if lines == 0 {
        let p: int = priority_of(lines);
        if p != 0xff {
            let n: u16 = line_at(p) as u16;
            assert(0u16 & (1u16 << n) == 0) by (bit_vector);
        }
    }
}

/// returns `(priority, line)`
fn highest_priority_line(lines: u16) -> (r: (u8, Option<u8>))
    ensures
        r.0 == priority_of(lines),
        r.1.is_some() == (r.0 != 0xff),
        r.1.is_some() == (lines != 0),
        r.1.is_some() ==> r.0 < 16 && r.1.unwrap() == line_at(r.0 as int),
{
    proof {
        lemma_first_place(lines, 0);
        lemma_nonzero_has_place(lines);
    }
    let mut p: u8 = 0;
    while p < 16
        invariant
            p <= 16,
            priority_of(lines) == first_place(lines, p as int),
            (lines != 0) == (priority_of(lines) != 0xff),
        decreases 16 - p,
    {
        let line: u8 = if p < 3 {
            p
        } else if p < 11 {
            p + 5
        } else {
            p - 8
        };
        if lines & (1u16 << (line as u16)) != 0 {
            return (p, Some(line));
        }
        p = p + 1;
    }
    (0xff, None)
}

/// What one controller of the pair holds for its eight lines.
#[derive(Copy, Clone, Debug, PartialEq, Eq, Structural)]
pub struct PicBank {
    pub pending_interrupts: u8,
    pub in_service: u8,
    pub imr: u8,
    pub vector_offset: u8,
}

impl PicBank {
    /// The lines that are pending, not masked and not in service already.
    pub open spec fn effective(&self) -> u8 {
        self.pending_interrupts & !self.in_service & !self.imr
    }

    /// The bank once `line` is no longer in service and no longer pending.
    pub open spec fn ended(self, line: u8) -> PicBank {
        PicBank {
            in_service: self.in_service & !(1u8 << line),
            pending_interrupts: self.pending_interrupts & !(1u8 << line),
            ..self
        }
    }
}

/// What the two controllers share: the state of all sixteen lines and the request on INTR.
#[derive(Debug)]
pub struct SharedPicCore {
    intr: IntrHandle,
    pending_request: Option<PendingRequest>,
    banks: (PicBank, PicBank),
}

/// The state of the sixteen lines.
pub struct PicLines {
    pub main: PicBank,
    pub secondary: PicBank,
    pub requested: bool,
}

impl PicLines {
    pub open spec fn bank(&self, controller: int) -> PicBank {
        if controller == 0 {
            self.main
        } else {
            self.secondary
        }
    }

    pub open spec fn with_bank(self, controller: int, bank: PicBank) -> PicLines {
        if controller == 0 {
            PicLines { main: bank, ..self }
        } else {
            PicLines { secondary: bank, ..self }
        }
    }

    /// The lines that could be delivered, lines 8 to 15 being those of the second controller.
    pub open spec fn effective(&self) -> u16 {
        (self.main.effective() as u16) | ((self.secondary.effective() as u16) << 8u16)
    }

    pub open spec fn in_service(&self) -> u16 {
        (self.main.in_service as u16) | ((self.secondary.in_service as u16) << 8u16)
    }

    /// Whether some line is to be delivered now: one that is more urgent than all in service.
    pub open spec fn deliverable(&self) -> bool {
        self.effective() != 0 && priority_of(self.effective()) < priority_of(self.in_service())
    }

    /// The line that is delivered next, if one is deliverable.
    pub open spec fn next_line(&self) -> int {
        line_at(priority_of(self.effective()))
    }

    /// The same lines with the request on INTR brought up to date.
    pub open spec fn updated(self) -> PicLines {
        PicLines { requested: self.deliverable(), ..self }
    }

    /// Line `index` starts being serviced.
    pub open spec fn servicing(self, index: int) -> PicLines {
        let bank = self.bank(index / 8);
        self.with_bank(
            index / 8,
            PicBank { in_service: bank.in_service | (1u8 << ((index % 8) as u8)), ..bank },
        ).updated()
    }

    /// Line `index` was pulsed.
    pub open spec fn pulsed(self, index: int) -> PicLines {
        let bank = self.bank(index / 8);
        self.with_bank(
            index / 8,
            PicBank {
                pending_interrupts: bank.pending_interrupts | (1u8 << ((index % 8) as u8)),
                ..bank
            },
        ).updated()
    }

    /// The vector under which line `index` is delivered.
    pub open spec fn vector(&self, index: int) -> int {
        index % 8 + self.bank(index / 8).vector_offset
    }
}

/// Whether the change of `intr` goes with a holder's request going from `before` to `after`.
pub open spec fn request_moved(
    intr_before: Intr,
    intr_after: Intr,
    before: bool,
    after: bool,
) -> bool {
    &&& intr_after.is_open() == intr_before.is_open()
    &&& intr_after.count() == intr_before.count() + (if intr_before.is_open() {
        (if after {
            1int
        } else {
            0int
        }) - (if before {
            1int
        } else {
            0int
        })
    } else {
        0int
    })
}

#[derive(Copy, Clone, Debug, PartialEq, Eq)]
pub struct SharedPicCoreSnapshot {
    pub has_pending_request: bool,
    pub pending_interrupts: (u8, u8),
    pub in_service: (u8, u8),
    pub imr: (u8, u8),
    pub vector_offset: (u8, u8),
}

impl SharedPicCoreSnapshot {
    pub open spec fn lines(&self) -> PicLines {
        PicLines {
            main: PicBank {
                pending_interrupts: self.pending_interrupts.0,
                in_service: self.in_service.0,
                imr: self.imr.0,
                vector_offset: self.vector_offset.0,
            },
            secondary: PicBank {
                pending_interrupts: self.pending_interrupts.1,
                in_service: self.in_service.1,
                imr: self.imr.1,
                vector_offset: self.vector_offset.1,
            },
            requested: self.has_pending_request,
        }
    }
}

impl View for SharedPicCore {
    type V = PicLines;

    closed spec fn view(&self) -> PicLines {
        PicLines {
            main: self.banks.0,
            secondary: self.banks.1,
            requested: self.pending_request.is_some(),
        }
    }
}

impl SharedPicCore {
    /// The count on INTR leaves room for this controller: it includes the request that the
    /// controller holds, or one fits.
    pub open spec fn fits(&self, intr: &Intr) -> bool {
        &&& intr.is_open() && self@.requested ==> intr.count() > 0
        &&& intr.is_open() && !self@.requested ==> intr.count() < u32::MAX
    }

    pub fn new(intr: IntrHandle) -> (r: Self)
        ensures
            r@ == (PicLines {
                main: PicBank {
                    pending_interrupts: 0,
                    in_service: 0,
                    imr: 0,
                    vector_offset: 0,
                },
                secondary: PicBank {
                    pending_interrupts: 0,
                    in_service: 0,
                    imr: 0,
                    vector_offset: 0,
                },
                requested: false,
            }),
    {
        let empty = PicBank { pending_interrupts: 0, in_service: 0, imr: 0, vector_offset: 0 };
        Self { intr, pending_request: None, banks: (empty, empty) }
    }

    fn bank(&self, controller: usize) -> (r: PicBank)
        requires
            controller < 2,
        ensures
            r == self@.bank(controller as int),
    {
        if controller == 0 {
            self.banks.0
        } else {
            self.banks.1
        }
    }

    fn set_bank(&mut self, controller: usize, bank: PicBank)
        requires
            controller < 2,
        ensures
            final(self)@ == old(self)@.with_bank(controller as int, bank),
    {
        if controller == 0 {
            self.banks.0 = bank;
        } else {
            self.banks.1 = bank;
        }
    }

    fn update_pending_interrupt(&mut self, intr: &mut Intr)
        requires
            old(self).fits(&*old(intr)),
        ensures
            final(self)@ == old(self)@.updated(),
            request_moved(
                *old(intr),
                *final(intr),
                old(self)@.requested,
                old(self)@.deliverable(),
            ),
    {
        let pending: u16 = self.effective_pending_interrupts();
        let in_service_priority: u8 = self.in_service_interrupt_priority();
        let (pending_priority, _) = highest_priority_line(pending);
        if pending != 0 && pending_priority < in_service_priority {
            if self.pending_request.is_none() {
                self.pending_request = Some(self.intr.request(intr));
            }
        } else {
            let request = self.pending_request.take();
            if let Some(request) = request {
                request.release(intr);
            }
        }
    }

    fn in_service_interrupt_priority(&self) -> (r: u8)
        ensures
            r == priority_of(self@.in_service()),
    {
        let in_service: u16 = (self.banks.0.in_service as u16) | ((self.banks.1.in_service as u16)
            << 8u16);
        let (in_service_priority, _) = highest_priority_line(in_service);
        in_service_priority
    }

    /// Returns the vector of the next interrupt to deliver, and starts servicing its line.
    pub fn get_next_interrupt(&mut self, intr: &mut Intr) -> (r: Option<u8>)
        requires
            old(self).fits(&*old(intr)),
            old(self)@.deliverable() ==> old(self)@.vector(old(self)@.next_line()) <= 0xff,
        ensures
            r.is_some() == old(self)@.deliverable(),
            r.is_some() ==> {
                let line = old(self)@.next_line();
                &&& r.unwrap() == old(self)@.vector(line)
                &&& final(self)@ == old(self)@.servicing(line)
                &&& request_moved(
                    *old(intr),
                    *final(intr),
                    old(self)@.requested,
                    final(self)@.requested,
                )
            },
            r.is_none() ==> final(self)@ == old(self)@ && *final(intr) == *old(intr),
    {
        let pending: u16 = self.effective_pending_interrupts();
        let (pending_priority, line) = highest_priority_line(pending);
        if let Some(line) = line {
            if pending_priority < self.in_service_interrupt_priority() {
                let n: usize = (line / 8) as usize;
                self.start_servicing_interrupt(line, intr);
                return Some((line % 8) + self.bank(n).vector_offset);
            }
        }
        None
    }

    fn effective_pending_interrupts(&self) -> (r: u16)
        ensures
            r == self@.effective(),
    {
        let main: u8 = self.banks.0.pending_interrupts & !self.banks.0.in_service
            & !self.banks.0.imr;
        let secondary: u8 = self.banks.1.pending_interrupts & !self.banks.1.in_service
            & !self.banks.1.imr;
        (main as u16) | ((secondary as u16) << 8u16)
    }

    fn start_servicing_interrupt(&mut self, index: u8, intr: &mut Intr)
        requires
            index < 16,
            old(self).fits(&*old(intr)),
        ensures
            final(self)@ == old(self)@.servicing(index as int),
            request_moved(*old(intr), *final(intr), old(self)@.requested, final(self)@.requested),
    {
        // Once we trigger an interrupt, we shouldn't trigger it again until the end-of-interrupt is marked.
        let n: usize = (index / 8) as usize;
        let mut bank = self.bank(n);
        bank.in_service = bank.in_service | (1u8 << (index % 8));
        self.set_bank(n, bank);
        self.update_pending_interrupt(intr);
    }

    pub fn snapshot(&self) -> (r: SharedPicCoreSnapshot)
        ensures
            r.lines() == self@,
    {
        SharedPicCoreSnapshot {
            has_pending_request: self.pending_request.is_some(),
            pending_interrupts: (
                self.banks.0.pending_interrupts,
                self.banks.1.pending_interrupts,
            ),
            in_service: (self.banks.0.in_service, self.banks.1.in_service),
            imr: (self.banks.0.imr, self.banks.1.imr),
            vector_offset: (self.banks.0.vector_offset, self.banks.1.vector_offset),
        }
    }

    /// Brings the lines back to what the snapshot holds. A request that is held already stays
    /// held where the snapshot has none.
    pub fn restore(&mut self, core: SharedPicCoreSnapshot, intr: &mut Intr)
        requires
            old(self).fits(&*old(intr)),
            // The new request is made before the one that is held is taken back.
            old(intr).is_open() && core.has_pending_request ==> old(intr).count() < u32::MAX,
        ensures
            final(self)@ == (PicLines {
                requested: old(self)@.requested || core.has_pending_request,
                ..core.lines()
            }),
            request_moved(*old(intr), *final(intr), old(self)@.requested, final(self)@.requested),
    {
        if core.has_pending_request {
            let request = self.intr.request(intr);
            if let Some(previous) = self.pending_request.take() {
                previous.release(intr);
            }
            self.pending_request = Some(request);
        }
        self.banks = (
            PicBank {
                pending_interrupts: core.pending_interrupts.0,
                in_service: core.in_service.0,
                imr: core.imr.0,
                vector_offset: core.vector_offset.0,
            },
            PicBank {
                pending_interrupts: core.pending_interrupts.1,
                in_service: core.in_service.1,
                imr: core.imr.1,
                vector_offset: core.vector_offset.1,
            },
        );
    }
}

/// One controller of the pair: its command state. The lines live in the shared core.
#[derive(Copy, Clone, Debug, PartialEq, Eq, Structural)]
pub struct Pic {
    pub state: State,
    pub cascade_mode: Cascade,
    pub adi: Adi,
    pub trigger_mode: TriggerMode,
    pub register_select: u8,
    pub read_register: bool,
    pub poll_command: bool,
    pub controller_index: usize,
}

#[derive(Copy, Clone, Debug, PartialEq, Eq, Structural)]
pub struct PicSnapshot {
    pub state: State,
    pub cascade_mode: Cascade,
    pub adi: Adi,
    pub trigger_mode: TriggerMode,
    pub register_select: u8,
    pub read_register: bool,
    pub poll_command: bool,
    pub controller_index: usize,
}

impl PicSnapshot {
    /// The controller that the snapshot describes.
    pub open spec fn pic(&self) -> Pic {
        Pic {
            state: self.state,
            cascade_mode: self.cascade_mode,
            adi: self.adi,
            trigger_mode: self.trigger_mode,
            register_select: self.register_select,
            read_register: self.read_register,
            poll_command: self.poll_command,
            controller_index: self.controller_index,
        }
    }
}

/// The most urgent line in service on one controller: the lowest set bit, 8 if there is none.
pub open spec fn lowest_bit(bits: u8, from: int) -> int
    decreases 8 - from,
{
    if from >= 8 {
        8
    } else if has_bit(bits, from) {
        from
    } else {
        lowest_bit(bits, from + 1)
    }
}

fn lowest_set(bits: u8) -> (r: u8)
    ensures
        r == lowest_bit(bits, 0),
        r <= 8,
{
    let mut n: u8 = 0;
    while n < 8
        invariant
            n <= 8,
            lowest_bit(bits, 0) == lowest_bit(bits, n as int),
        decreases 8 - n,
    {
        if bits & (1u8 << n) != 0 {
            return n;
        }
        n = n + 1;
    }
    n
}

impl Pic {
    /// The controller is one of the two, and its register selector names a register.
    pub open spec fn wf(&self) -> bool {
        self.controller_index < 2 && self.register_select < 2
    }

    /// A controller before it is programmed.
    pub open spec fn fresh(controller_index: usize) -> Pic {
        Pic {
            controller_index,
            state: State::Ready,
            cascade_mode: Cascade::Single { cascade_id: 0 },
            adi: Adi::Interval8,
            trigger_mode: TriggerMode::Edge,
            register_select: 0,
            read_register: false,
            poll_command: false,
        }
    }

    pub fn new(controller_index: usize, vector_offset: u8, shared_core: &mut SharedPicCore) -> (r:
        Self)
        requires
            controller_index < 2,
        ensures
            r == Self::fresh(controller_index),
            final(shared_core)@ == old(shared_core)@.with_bank(
                controller_index as int,
                PicBank { vector_offset, ..old(shared_core)@.bank(controller_index as int) },
            ),
            r.wf(),
    {
        let mut bank = shared_core.bank(controller_index);
        bank.vector_offset = vector_offset;
        shared_core.set_bank(controller_index, bank);
        Self {
            controller_index,
            state: State::Ready,
            cascade_mode: Cascade::Single { cascade_id: 0 },
            adi: Adi::Interval8,
            trigger_mode: TriggerMode::Edge,
            register_select: 0,
            read_register: false,
            poll_command: false,
        }
    }

    pub fn read(&self, addr: u8, shared_core: &SharedPicCore) -> (r: u8)
        requires
            self.wf(),
        ensures
            r == ({
                let bank = shared_core@.bank(self.controller_index as int);
                if addr != 0 {
                    bank.imr
                } else if !self.read_register {
                    0
                } else if self.register_select == 0 {
                    bank.pending_interrupts
                } else {
                    bank.in_service
                }
            }),
    {
        let bank = shared_core.bank(self.controller_index);
        if addr == 0 {
            if self.read_register {
                match self.register_select {
                    0 => bank.pending_interrupts,
                    _ => bank.in_service,
                }
            } else {
                0
            }
        } else {
            bank.imr
        }
    }

    /// The first initialization command word.
    pub open spec fn after_icw1(self, val: u8) -> Pic {
        Pic {
            cascade_mode: if val & 0x02 != 0 {
                Cascade::Single { cascade_id: 0 }
            } else {
                Cascade::Cascade { cascade_map: 0 }
            },
            adi: if val & 0x04 != 0 {
                Adi::Interval4
            } else {
                Adi::Interval8
            },
            trigger_mode: if val & 0x08 != 0 {
                TriggerMode::Level
            } else {
                TriggerMode::Edge
            },
            state: State::Icw2 { need_icw4: val & 1 != 0 },
            ..self
        }
    }

    /// The controller's own state after `val` is written to `addr`.
    pub open spec fn after_write(self, addr: u8, val: u8) -> Pic {
        if addr == 0 {
            if self.state != State::Ready {
                self
            } else if val & 0x10 != 0 {
                self.after_icw1(val)
            } else if val & 0x18 == 0x08 {
                Pic {
                    register_select: val & 1,
                    read_register: val & 2 != 0,
                    poll_command: val & 4 != 0,
                    ..self
                }
            } else {
                self
            }
        } else {
            match self.state {
                State::Ready => self,
                State::Icw2 { need_icw4 } => Pic {
                    state: match self.cascade_mode {
                        Cascade::Cascade { .. } => State::Icw3 { need_icw4 },
                        Cascade::Single { .. } => if need_icw4 {
                            State::Icw4
                        } else {
                            State::Ready
                        },
                    },
                    ..self
                },
                State::Icw3 { need_icw4 } => Pic {
                    cascade_mode: match self.cascade_mode {
                        Cascade::Single { .. } => Cascade::Single { cascade_id: val & 0x07 },
                        Cascade::Cascade { .. } => Cascade::Cascade { cascade_map: val & 0x7f },
                    },
                    state: if need_icw4 {
                        State::Icw4
                    } else {
                        State::Ready
                    },
                    ..self
                },
                State::Icw4 => Pic { state: State::Ready, ..self },
            }
        }
    }

    /// The line that the command `val`, written to address 0, ends, if it ends one.
    pub open spec fn ended_line(&self, lines: PicLines, val: u8) -> Option<u8> {
        let lowest = lowest_bit(lines.bank(self.controller_index as int).in_service, 0);
        if self.state != State::Ready || val & 0x18 != 0 {
            None
        } else if val >> 5u8 == 0b001 && lowest < 8 {
            Some(lowest as u8)
        } else if val >> 5u8 == 0b011 {
            Some(val & 0x7)
        } else {
            None
        }
    }

    /// The lines after `val` is written to `addr`.
    pub open spec fn lines_after_write(&self, lines: PicLines, addr: u8, val: u8) -> PicLines {
        let n = self.controller_index as int;
        if addr == 0 {
            match self.ended_line(lines, val) {
                Some(line) => lines.with_bank(n, lines.bank(n).ended(line)).updated(),
                None => lines,
            }
        } else {
            match self.state {
                State::Ready => lines.with_bank(
                    n,
                    PicBank { imr: val, ..lines.bank(n) },
                ).updated(),
                State::Icw2 { .. } => lines.with_bank(
                    n,
                    PicBank { vector_offset: val & 0xf8, ..lines.bank(n) },
                ),
                _ => lines,
            }
        }
    }

    pub fn write(&mut self, addr: u8, val: u8, shared_core: &mut SharedPicCore, intr: &mut Intr)
        requires
            old(self).wf(),
            old(shared_core).fits(&*old(intr)),
        ensures
            *final(self) == old(self).after_write(addr, val),
            final(shared_core)@ == old(self).lines_after_write(old(shared_core)@, addr, val),
            request_moved(
                *old(intr),
                *final(intr),
                old(shared_core)@.requested,
                final(shared_core)@.requested,
            ),
            final(self).wf(),
    {
        if addr == 0 {
            if let State::Ready = self.state {
                if val & 0x10 != 0 {
                    assert(val & 0x10 != 0 ==> val & 0x18 != 0) by (bit_vector);
                    // Initialization command word
                    self.cascade_mode = if val & 0x02 != 0 {
                        Cascade::Single { cascade_id: 0 }
                    } else {
                        Cascade::Cascade { cascade_map: 0 }
                    };
                    self.adi = if val & 0x04 != 0 {
                        Adi::Interval4
                    } else {
                        Adi::Interval8
                    };
                    self.trigger_mode = if val & 0x08 != 0 {
                        TriggerMode::Level
                    } else {
                        TriggerMode::Edge
                    };
                    self.state = State::Icw2 { need_icw4: val & 1 != 0 };
                } else if val & 0x18 == 0x00 {
                    let index: u8 = val & 0x7;
                    assert(val & 0x7 < 8) by (bit_vector);
                    let command: u8 = val >> 5u8;
                    if command == 0b001 {
                        // Non-specific EOI
                        let highest_set: u8 = lowest_set(
                            shared_core.bank(self.controller_index).in_service,
                        );
                        if highest_set < 8 {
                            self.end_of_interrupt(highest_set, shared_core, intr);
                        }
                    } else if command == 0b011 {
                        // Specific EOI
                        self.end_of_interrupt(index, shared_core, intr);
                    }
                    // The rotation and priority commands are accepted without effect.

                } else if val & 0x18 == 0x08 {
                    // OCW3
                    assert(val & 1 < 2) by (bit_vector);
                    self.register_select = val & 1;
                    self.read_register = val & 2 != 0;
                    self.poll_command = val & 4 != 0;
                }
            }
        } else {
            match self.state {
                State::Ready => {
                    let mut bank = shared_core.bank(self.controller_index);
                    bank.imr = val;
                    shared_core.set_bank(self.controller_index, bank);
                    shared_core.update_pending_interrupt(intr);
                },
                State::Icw2 { need_icw4 } => {
                    let mut bank = shared_core.bank(self.controller_index);
                    bank.vector_offset = val & 0xf8;
                    shared_core.set_bank(self.controller_index, bank);
                    self.state = match self.cascade_mode {
                        Cascade::Single { .. } => if need_icw4 {
                            State::Icw4
                        } else {
                            State::Ready
                        },
                        Cascade::Cascade { .. } => State::Icw3 { need_icw4 },
                    };
                },
                State::Icw3 { need_icw4 } => {
                    self.cascade_mode = match self.cascade_mode {
                        Cascade::Single { .. } => Cascade::Single { cascade_id: val & 0x07 },
                        Cascade::Cascade { .. } => Cascade::Cascade { cascade_map: val & 0x7f },
                    };
                    self.state = if need_icw4 {
                        State::Icw4
                    } else {
                        State::Ready
                    };
                },
                State::Icw4 => {
                    self.state = State::Ready;
                },
            }
        }
    }

    fn end_of_interrupt(&self, index: u8, shared_core: &mut SharedPicCore, intr: &mut Intr)
        requires
            self.wf(),
            index < 8,
            old(shared_core).fits(&*old(intr)),
        ensures
            final(shared_core)@ == old(shared_core)@.with_bank(
                self.controller_index as int,
                old(shared_core)@.bank(self.controller_index as int).ended(index),
            ).updated(),
            request_moved(
                *old(intr),
                *final(intr),
                old(shared_core)@.requested,
                final(shared_core)@.requested,
            ),
    {
        let mut bank = shared_core.bank(self.controller_index);
        bank.in_service = bank.in_service & !(1u8 << index);
        bank.pending_interrupts = bank.pending_interrupts & !(1u8 << index);
        shared_core.set_bank(self.controller_index, bank);
        shared_core.update_pending_interrupt(intr);
    }

    pub fn get_line(&self, index: u8) -> (r: IrqLine)
        requires
            self.wf(),
            index + self.controller_index * 8 <= 0xff,
        ensures
            r.index() == index + self.controller_index * 8,
    {
        IrqLine { lines: DynamicIrqLine {  }, index: index + self.controller_index as u8 * 8 }
    }

    pub fn vector_offset(&self, shared_core: &SharedPicCore) -> (r: u8)
        requires
            self.wf(),
        ensures
            r == shared_core@.bank(self.controller_index as int).vector_offset,
    {
        shared_core.bank(self.controller_index).vector_offset
    }

    /// Forgets every pending and in-service line of this controller.
    pub fn clear_pending(&self, shared_core: &mut SharedPicCore, intr: &mut Intr)
        requires
            self.wf(),
            old(shared_core).fits(&*old(intr)),
        ensures
            final(shared_core)@ == old(shared_core)@.with_bank(
                self.controller_index as int,
                PicBank {
                    pending_interrupts: 0,
                    in_service: 0,
                    ..old(shared_core)@.bank(self.controller_index as int)
                },
            ).updated(),
            request_moved(
                *old(intr),
                *final(intr),
                old(shared_core)@.requested,
                final(shared_core)@.requested,
            ),
    {
        let mut bank = shared_core.bank(self.controller_index);
        bank.pending_interrupts = 0;
        bank.in_service = 0;
        shared_core.set_bank(self.controller_index, bank);
        shared_core.update_pending_interrupt(intr);
    }

    pub fn snapshot(&self) -> (r: PicSnapshot)
        ensures
            r.pic() == *self,
    {
        PicSnapshot {
            state: self.state,
            cascade_mode: self.cascade_mode,
            adi: self.adi,
            trigger_mode: self.trigger_mode,
            register_select: self.register_select,
            read_register: self.read_register,
            poll_command: self.poll_command,
            controller_index: self.controller_index,
        }
    }

    pub fn restore(&mut self, pic: PicSnapshot)
        ensures
            *final(self) == pic.pic(),
    {
        self.state = pic.state;
        self.cascade_mode = pic.cascade_mode;
        self.adi = pic.adi;
        self.trigger_mode = pic.trigger_mode;
        self.register_select = pic.register_select;
        self.read_register = pic.read_register;
        self.poll_command = pic.poll_command;
        self.controller_index = pic.controller_index;
    }
}

/// One input line of the controller pair.
#[derive(Copy, Clone, Debug)]
pub struct IrqLine {
    lines: DynamicIrqLine,
    index: u8,
}

impl IrqLine {
    pub closed spec fn index(&self) -> int {
        self.index as int
    }

    pub fn number(&self) -> (r: u8)
        ensures
            r == self.index(),
    {
        self.index
    }

    pub fn pulse(&self, shared_core: &mut SharedPicCore, intr: &mut Intr)
        requires
            self.index() < 16,
            old(shared_core).fits(&*old(intr)),
        ensures
            final(shared_core)@ == old(shared_core)@.pulsed(self.index()),
            request_moved(
                *old(intr),
                *final(intr),
                old(shared_core)@.requested,
                final(shared_core)@.requested,
            ),
    {
        self.lines.pulse(self.index, shared_core, intr);
    }

    pub fn set_high(&self, shared_core: &mut SharedPicCore, intr: &mut Intr)
        requires
            self.index() < 16,
            old(shared_core).fits(&*old(intr)),
        ensures
            final(shared_core)@ == old(shared_core)@.pulsed(self.index()),
            request_moved(
                *old(intr),
                *final(intr),
                old(shared_core)@.requested,
                final(shared_core)@.requested,
            ),
    {
        self.lines.set_high(self.index, shared_core, intr);
    }

    pub fn set_low(&self, shared_core: &mut SharedPicCore, intr: &mut Intr)
        ensures
            *final(shared_core) == *old(shared_core),
            *final(intr) == *old(intr),
    {
        self.lines.set_low(self.index, shared_core, intr);
    }

    pub fn set(&self, val: bool, shared_core: &mut SharedPicCore, intr: &mut Intr)
        requires
            val ==> self.index() < 16,
            val ==> old(shared_core).fits(&*old(intr)),
        ensures
            val ==> final(shared_core)@ == old(shared_core)@.pulsed(self.index()),
            val ==> request_moved(
                *old(intr),
                *final(intr),
                old(shared_core)@.requested,
                final(shared_core)@.requested,
            ),
            !val ==> *final(shared_core) == *old(shared_core) && *final(intr) == *old(intr),
    {
        self.lines.set(self.index, val, shared_core, intr);
    }
}

/// The input lines of the controller pair, the line being chosen at each call.
#[derive(Copy, Clone, Debug)]
pub struct DynamicIrqLine {}

impl DynamicIrqLine {
    pub fn from_shared_core(shared_core: &SharedPicCore) -> (r: Self)
        ensures
            r == (DynamicIrqLine {  }),
    {
        Self {  }
    }

    pub fn pulse(&self, index: u8, shared_core: &mut SharedPicCore, intr: &mut Intr)
        requires
            index < 16,
            old(shared_core).fits(&*old(intr)),
        ensures
            final(shared_core)@ == old(shared_core)@.pulsed(index as int),
            request_moved(
                *old(intr),
                *final(intr),
                old(shared_core)@.requested,
                final(shared_core)@.requested,
            ),
    {
        let n: usize = (index / 8) as usize;
        let mut bank = shared_core.bank(n);
        bank.pending_interrupts = bank.pending_interrupts | (1u8 << (index % 8));
        shared_core.set_bank(n, bank);
        shared_core.update_pending_interrupt(intr);
    }

    pub fn set_high(&self, index: u8, shared_core: &mut SharedPicCore, intr: &mut Intr)
        requires
            index < 16,
            old(shared_core).fits(&*old(intr)),
        ensures
            final(shared_core)@ == old(shared_core)@.pulsed(index as int),
            request_moved(
                *old(intr),
                *final(intr),
                old(shared_core)@.requested,
                final(shared_core)@.requested,
            ),
    {
        self.set(index, true, shared_core, intr);
    }

    pub fn set_low(&self, index: u8, shared_core: &mut SharedPicCore, intr: &mut Intr)
        ensures
            *final(shared_core) == *old(shared_core),
            *final(intr) == *old(intr),
    {
        self.set(index, false, shared_core, intr);
    }

    pub fn set(&self, index: u8, val: bool, shared_core: &mut SharedPicCore, intr: &mut Intr)
        requires
            val ==> index < 16,
            val ==> old(shared_core).fits(&*old(intr)),
        ensures
            val ==> final(shared_core)@ == old(shared_core)@.pulsed(index as int),
            val ==> request_moved(
                *old(intr),
                *final(intr),
                old(shared_core)@.requested,
                final(shared_core)@.requested,
            ),
            !val ==> *final(shared_core) == *old(shared_core) && *final(intr) == *old(intr),
    {
        if val {
            self.pulse(index, shared_core, intr);
        }
    }
}

/// Every operation of the pair leaves INTR raised exactly while a line can be delivered, and a
/// line can be delivered exactly when [`SharedPicCore::get_next_interrupt`] hands out a vector:
/// bringing the request up to date twice changes nothing more.
pub proof fn request_follows_deliverable(lines: PicLines)
    ensures
        lines.updated().requested == lines.updated().deliverable(),
        lines.updated().updated() == lines.updated(),
{
}

/// The line that is delivered is pending, not masked and not in service.
pub proof fn delivered_line_is_effective(lines: PicLines)
    requires
        lines.deliverable(),
    ensures
        0 <= lines.next_line() < 16,
        ({
            let line = lines.next_line();
            let bank = lines.bank(line / 8);
            &&& has_bit(bank.pending_interrupts, line % 8)
            &&& !has_bit(bank.imr, line % 8)
            &&& !has_bit(bank.in_service, line % 8)
        }),
{
    let e: u16 = lines.effective();
    lemma_first_place(e, 0);
    lemma_nonzero_has_place(e);
    lemma_first_place(lines.in_service(), 0);
    let line: int = lines.next_line();
    assert(has_line(e, line));
    let bank = lines.bank(line / 8);
    lemma_effective_bit(lines.main.effective(), lines.secondary.effective(), line as u16);
    let n: u8 = (line % 8) as u8;
    let (p, s, m): (u8, u8, u8) = (bank.pending_interrupts, bank.in_service, bank.imr);
    assert((p & !s & !m) & (1u8 << n) != 0 && n < 8 ==> p & (1u8 << n) != 0 && s & (1u8 << n) == 0
        && m & (1u8 << n) == 0) by (bit_vector);
}

proof fn lemma_effective_bit(low: u8, high: u8, line: u16)
    requires
        line < 16,
        ((low as u16) | ((high as u16) << 8u16)) & (1u16 << line) != 0,
    ensures
        line < 8 ==> low & (1u8 << (line as u8)) != 0,
        line >= 8 ==> high & (1u8 << ((line - 8) as u8)) != 0,
{
    let k: u16 = (line - 8) as u16;
    assert(((low as u16) | ((high as u16) << 8u16)) & (1u16 << line) != 0 && line < 8 ==> low & (
    1u8 << (line as u8)) != 0) by (bit_vector);
    if line >= 8 {
        assert(((low as u16) | ((high as u16) << 8u16)) & (1u16 << line) != 0 && line == k + 8 && k
            < 8 ==> high & (1u8 << (k as u8)) != 0) by (bit_vector);
    }
}

/// A line that has just been ended is neither in service nor pending.
pub proof fn ended_line_is_idle(bank: PicBank, line: u8)
    requires
        line < 8,
    ensures
        !has_bit(bank.ended(line).in_service, line as int),
        !has_bit(bank.ended(line).pending_interrupts, line as int),
        !has_bit(bank.ended(line).effective(), line as int),
{
    let (p, s, m): (u8, u8, u8) = (bank.pending_interrupts, bank.in_service, bank.imr);
    assert((s & !(1u8 << line)) & (1u8 << line) == 0 && (p & !(1u8 << line)) & (1u8 << line) == 0
        && ((p & !(1u8 << line)) & !(s & !(1u8 << line)) & !m) & (1u8 << line) == 0)
        by (bit_vector);
}

/// A write never moves the vectors of a controller off a multiple of eight unless they were
/// off one before, so the vector of each line fits in a byte.
pub proof fn vectors_stay_in_range(pic: Pic, lines: PicLines, addr: u8, val: u8, index: int)
    requires
        0 <= index < 16,
        lines.main.vector_offset <= 0xf8,
        lines.secondary.vector_offset <= 0xf8,
    ensures
        pic.lines_after_write(lines, addr, val).main.vector_offset <= 0xf8,
        pic.lines_after_write(lines, addr, val).secondary.vector_offset <= 0xf8,
        pic.lines_after_write(lines, addr, val).vector(index) <= 0xff,
{
    assert(val & 0xf8 <= 0xf8) by (bit_vector);
}

/// The lines from the most urgent one to the least urgent one: the second controller hangs off
/// line 2 of the first one.
pub open spec fn urgency() -> Seq<int> {
    seq![0int, 1, 2, 8, 9, 10, 11, 12, 13, 14, 15, 3, 4, 5, 6, 7]
}

/// Whether a line is set, `main` being lines 0 to 7 and `secondary` lines 8 to 15.
pub open spec fn line_set(main: u8, secondary: u8, line: int) -> bool {
    if line < 8 {
        main & (1u8 << (line as u8)) != 0
    } else {
        secondary & (1u8 << ((line - 8) as u8)) != 0
    }
}

/// A line waits: it was raised, is not masked and is not being serviced.
pub open spec fn waits(lines: PicLines, line: int) -> bool {
    let (a, b) = (lines.main, lines.secondary);
    &&& line_set(a.pending_interrupts, b.pending_interrupts, line)
    &&& !line_set(a.imr, b.imr, line)
    &&& !line_set(a.in_service, b.in_service, line)
}

pub open spec fn being_serviced(lines: PicLines, line: int) -> bool {
    line_set(lines.main.in_service, lines.secondary.in_service, line)
}

/// The line at place `p` of the order of urgency is the one to deliver: it waits, none that is more
/// urgent does, and neither it nor a more urgent one is being serviced.
pub open spec fn is_next(lines: PicLines, p: int) -> bool {
    &&& 0 <= p < 16
    &&& waits(lines, urgency()[p])
    &&& forall|q: int| 0 <= q < p ==> !waits(lines, #[trigger] urgency()[q])
    &&& forall|q: int| 0 <= q <= p ==> !being_serviced(lines, #[trigger] urgency()[q])
}

proof fn lemma_urgency(p: int)
    requires
        0 <= p < 16,
    ensures
        line_at(p) == urgency()[p],
{
}

proof fn lemma_bits_of_pair(low: u8, high: u8, line: int)
    requires
        0 <= line < 16,
    ensures
        has_line((low as u16) | ((high as u16) << 8u16), line) == line_set(low, high, line),
{
    let n: u16 = line as u16;
    if line < 8 {
        assert(n < 8 ==> ((((low as u16) | ((high as u16) << 8u16)) & (1u16 << n) != 0) == (low & (
        1u8 << (n as u8)) != 0))) by (bit_vector);
    } else {
        let k: u16 = (line - 8) as u16;
        assert(n == k + 8 && k < 8 ==> ((((low as u16) | ((high as u16) << 8u16)) & (1u16 << n)
            != 0) == (high & (1u8 << (k as u8)) != 0))) by (bit_vector);
    }
}

proof fn lemma_waits(lines: PicLines, line: int)
    requires
        0 <= line < 16,
    ensures
        has_line(lines.effective(), line) == waits(lines, line),
        has_line(lines.in_service(), line) == being_serviced(lines, line),
{
    lemma_bits_of_pair(lines.main.effective(), lines.secondary.effective(), line);
    lemma_bits_of_pair(lines.main.in_service, lines.secondary.in_service, line);
    let bank = if line < 8 {
        lines.main
    } else {
        lines.secondary
    };
    let n: u8 = (line % 8) as u8;
    let (p, s, m): (u8, u8, u8) = (bank.pending_interrupts, bank.in_service, bank.imr);
    assert(((p & !s & !m) & (1u8 << n) != 0) == (p & (1u8 << n) != 0 && s & (1u8 << n) == 0 && m & (
    1u8 << n) == 0)) by (bit_vector)
        requires
            n < 8,
    ;
}

/// Of the lines that wait the most urgent one is delivered, and only if nothing as urgent is being
/// serviced. It comes under the vector of its controller: the first one's for lines 0 to 7, the
/// second one's for lines 8 to 15.
pub proof fn most_urgent_line_is_delivered(lines: PicLines)
    ensures
        lines.deliverable() <==> exists|p: int| #[trigger] is_next(lines, p),
        lines.deliverable() ==> exists|p: int|
            #![trigger urgency()[p]]
            is_next(lines, p) && lines.next_line() == urgency()[p],
        lines.deliverable() ==> lines.vector(lines.next_line()) == (if lines.next_line() < 8 {
            lines.main.vector_offset + lines.next_line()
        } else {
            lines.secondary.vector_offset + lines.next_line() - 8
        }),
{
    let (e, s): (u16, u16) = (lines.effective(), lines.in_service());
    lemma_first_place(e, 0);
    lemma_first_place(s, 0);
    lemma_nonzero_has_place(e);
    assert forall|p: int| 0 <= p < 16 implies has_line(e, line_at(p)) == waits(lines, urgency()[p])
        && has_line(s, line_at(p)) == being_serviced(lines, urgency()[p]) by {
        lemma_urgency(p);
        lemma_waits(lines, urgency()[p]);
    }
    if lines.deliverable() {
        let p: int = priority_of(e);
        lemma_urgency(p);
        assert forall|q: int| 0 <= q < p implies !waits(lines, #[trigger] urgency()[q]) by {
            assert(!has_line(e, line_at(q)));
        }
        assert forall|q: int| 0 <= q <= p implies !being_serviced(
            lines,
            #[trigger] urgency()[q],
        ) by {
            assert(!has_line(s, line_at(q)));
        }
        assert(is_next(lines, p) && lines.next_line() == urgency()[p]);
    }
    if exists|p: int| #[trigger] is_next(lines, p) {
        let p = choose|p: int| #[trigger] is_next(lines, p);
        assert(has_line(e, line_at(p)));
        let a: int = priority_of(e);
        assert(a <= p);
        let b: int = priority_of(s);
        if b <= p {
            assert(being_serviced(lines, urgency()[b]));
        }
    }
}

/// A pulse makes one line pending and changes no other line. Servicing a line does the same to the
/// lines in service, and ending one undoes both for this line alone.
pub proof fn lines_change_one_by_one(lines: PicLines, index: int, line: int)
    requires
        0 <= index < 16,
        0 <= line < 16,
    ensures
        ({
            let (m, s) = (lines.main, lines.secondary);
            let p = lines.pulsed(index);
            &&& line_set(p.main.pending_interrupts, p.secondary.pending_interrupts, line) == (line
                == index || line_set(m.pending_interrupts, s.pending_interrupts, line))
            &&& p.main == (PicBank { pending_interrupts: p.main.pending_interrupts, ..m })
            &&& p.secondary == (PicBank {
                pending_interrupts: p.secondary.pending_interrupts,
                ..s
            })
            &&& p.requested == p.deliverable()
        }),
        ({
            let (m, s) = (lines.main, lines.secondary);
            let p = lines.servicing(index);
            &&& being_serviced(p, line) == (line == index || being_serviced(lines, line))
            &&& p.main == (PicBank { in_service: p.main.in_service, ..m })
            &&& p.secondary == (PicBank { in_service: p.secondary.in_service, ..s })
            &&& p.requested == p.deliverable()
        }),
        index < 8 && line < 8 ==> {
            let b = lines.main.ended(index as u8);
            &&& line_set(b.in_service, 0, line) == (line != index && line_set(
                lines.main.in_service,
                0,
                line,
            ))
            &&& line_set(b.pending_interrupts, 0, line) == (line != index && line_set(
                lines.main.pending_interrupts,
                0,
                line,
            ))
            &&& b.imr == lines.main.imr && b.vector_offset == lines.main.vector_offset
        },
{
    let (k, n): (u8, u8) = ((index % 8) as u8, (line % 8) as u8);
    lemma_one_bit(lines.main.pending_interrupts, k, n);
    lemma_one_bit(lines.secondary.pending_interrupts, k, n);
    lemma_one_bit(lines.main.in_service, k, n);
    lemma_one_bit(lines.secondary.in_service, k, n);
}

proof fn lemma_one_bit(v: u8, k: u8, n: u8)
    requires
        k < 8,
        n < 8,
    ensures
        ((v | (1u8 << k)) & (1u8 << n) != 0) == (n == k || v & (1u8 << n) != 0),
        ((v & !(1u8 << k)) & (1u8 << n) != 0) == (n != k && v & (1u8 << n) != 0),
{
    assert(((v | (1u8 << k)) & (1u8 << n) != 0) == (n == k || v & (1u8 << n) != 0) && ((v & !(1u8
        << k)) & (1u8 << n) != 0) == (n != k && v & (1u8 << n) != 0)) by (bit_vector)
        requires
            k < 8,
            n < 8,
    ;
}

proof fn lemma_lowest_bit(bits: u8, from: int)
    requires
        0 <= from <= 8,
    ensures
        from <= lowest_bit(bits, from) <= 8,
        lowest_bit(bits, from) < 8 ==> has_bit(bits, lowest_bit(bits, from)),
        forall|i: int| from <= i < lowest_bit(bits, from) ==> !#[trigger] has_bit(bits, i),
    decreases 8 - from,
{
    if from < 8 {
        lemma_lowest_bit(bits, from + 1);
    }
}

/// The state of one controller of the pair.
pub open spec fn own_bank(pic: Pic, lines: PicLines) -> PicBank {
    if pic.controller_index == 0 {
        lines.main
    } else {
        lines.secondary
    }
}

/// The state of the other controller of the pair.
pub open spec fn other_bank(pic: Pic, lines: PicLines) -> PicBank {
    if pic.controller_index == 0 {
        lines.secondary
    } else {
        lines.main
    }
}

/// An end of interrupt, 0x20, ends the lowest of the controller's lines in service: it is neither in
/// service nor pending after that, and all other lines are as they were. 0x60 to 0x67 end the line
/// that they name. The other controller stays as it is.
pub proof fn end_of_interrupt_ends_one_line(pic: Pic, lines: PicLines, k: u8)
    requires
        pic.wf(),
        pic.state == State::Ready,
        k < 8,
    ensures
        pic.after_write(0, 0x20) == pic,
        pic.after_write(0, (0x60 + k) as u8) == pic,
        own_bank(pic, pic.lines_after_write(lines, 0, (0x60 + k) as u8)) == own_bank(
            pic,
            lines,
        ).ended(k),
        line_set(own_bank(pic, lines).in_service, 0, k as int) && (forall|i: int|
            0 <= i < k ==> !#[trigger] line_set(own_bank(pic, lines).in_service, 0, i)) ==> own_bank(
            pic,
            pic.lines_after_write(lines, 0, 0x20),
        ) == own_bank(pic, lines).ended(k),
        (forall|i: int| 0 <= i < 8 ==> !#[trigger] line_set(own_bank(pic, lines).in_service, 0, i))
            ==> pic.lines_after_write(lines, 0, 0x20) == lines,
        other_bank(pic, pic.lines_after_write(lines, 0, 0x20)) == other_bank(pic, lines),
        other_bank(pic, pic.lines_after_write(lines, 0, (0x60 + k) as u8)) == other_bank(pic, lines),
{
    let n: int = pic.controller_index as int;
    let bank = lines.bank(n);
    let low: int = lowest_bit(bank.in_service, 0);
    lemma_lowest_bit(bank.in_service, 0);
    assert(0x20u8 & 0x10 == 0 && 0x20u8 & 0x18 == 0 && 0x20u8 >> 5u8 == 1) by (bit_vector);
    let v: u8 = (0x60 + k) as u8;
    assert(v & 0x10 == 0 && v & 0x18 == 0 && v >> 5u8 == 3 && v & 7 == k) by (bit_vector)
        requires
            v == 0x60u8 + k,
            k < 8,
    ;
    if low < 8 {
        assert(line_set(bank.in_service, 0, low));
    }
    if low < k {
        assert(line_set(bank.in_service, 0, low));
    } else if k < low {
        assert(!has_bit(bank.in_service, k as int));
    }
}

/// The second address holds the mask of a controller that is ready. Four words program a controller:
/// 0x11 at the first address, then the vector of line 0, which is made a multiple of eight, the
/// cascade and the mode at the second one.
pub proof fn controllers_are_programmed_by_four_words(pic: Pic, lines: PicLines, v: u8, c: u8, m: u8)
    requires
        pic.wf(),
        pic.state == State::Ready,
    ensures
        ({
            let p1 = pic.after_write(0, 0x11);
            let p2 = p1.after_write(1, v);
            let p3 = p2.after_write(1, c);
            let p4 = p3.after_write(1, m);
            let l1 = pic.lines_after_write(lines, 0, 0x11);
            let l2 = p1.lines_after_write(l1, 1, v);
            let l3 = p2.lines_after_write(l2, 1, c);
            let l4 = p3.lines_after_write(l3, 1, m);
            let bank = if pic.controller_index == 0 {
                l4.main
            } else {
                l4.secondary
            };
            let before = if pic.controller_index == 0 {
                lines.main
            } else {
                lines.secondary
            };
            &&& p1.state != State::Ready && p2.state != State::Ready && p3.state != State::Ready
            &&& p4.state == State::Ready
            &&& bank == (PicBank { vector_offset: (v / 8 * 8) as u8, ..before })
            &&& if pic.controller_index == 0 {
                l4.secondary == lines.secondary
            } else {
                l4.main == lines.main
            }
        }),
        ({
            let masked = pic.lines_after_write(lines, 1, v);
            if pic.controller_index == 0 {
                masked.main == (PicBank { imr: v, ..lines.main }) && masked.secondary
                    == lines.secondary
            } else {
                masked.secondary == (PicBank { imr: v, ..lines.secondary }) && masked.main
                    == lines.main
            }
        }),
{
    assert(0x11u8 & 0x10 != 0 && 0x11u8 & 0x18 != 0 && 0x11u8 & 1 != 0 && 0x11u8 & 2 == 0)
        by (bit_vector);
    assert(v & 0xf8 == v / 8 * 8) by (bit_vector);
}

} // verus!
