//! Interrupt entry and return, and the segments that they load.
use vstd::prelude::*;

use crate::emulator::state::{compute_effective_cpl, effective_cpl, SegReg, Segment, State};
use crate::mem::{read64, written, Memory};
use crate::system::{
    access_accessed, access_is_segment, access_present, descriptor_fields_have_their_places,
    eight_bytes, marked_accessed, sizes_of, AccessRights, Db, Descriptor, Exception,
    SegmentSelector, SegmentSizes,
};

verus! {

/// What no interrupt can report to the guest.
#[derive(Copy, Clone, Debug, PartialEq, Eq, Structural)]
pub enum Fatal {
    /// There is no memory where a table, a task or a stack should be.
    Unreadable,
    /// The interrupt table has no entry for the interrupt.
    TableTooShort,
    GateNotPresent,
    /// Tasks are not switched.
    TaskGate,
    /// A task has no stack for a privilege level.
    NoStack,
    /// A task has no map of redirected interrupts.
    NoBitmap,
    /// What the guest asks for is not there.
    Unsupported,
}

/// Why an operation of the processor was not completed.
#[derive(Copy, Clone, Debug, PartialEq, Eq, Structural)]
pub enum Fault {
    Exception(Exception),
    Fatal(Fatal),
}

/// The state of the processor with what is derived from it.
#[derive(Copy, Clone, Debug)]
pub struct Core {
    pub cpu: State,
    pub op_size: Db,
    pub segment_sizes: SegmentSizes,
    pub protected_mode: bool,
}

/// A segment that was looked up but not loaded yet.
#[derive(Copy, Clone, Debug)]
pub struct PreparedSegment {
    pub seg: SegReg,
    pub selector: SegmentSelector,
    pub descriptor: Descriptor,
    pub protected_mode: bool,
}

/// What an operation leaves behind.
pub struct Outcome {
    pub core: Core,
    pub mem: Seq<u8>,
    pub result: Result<(), Fault>,
}

impl Outcome {
    /// Whether an operation came out like this. Nothing is said of what it leaves behind if it ends
    /// in a way that cannot be reported.
    pub open spec fn is(self, core: Core, mem: Seq<u8>, result: Result<(), Fault>) -> bool {
        &&& result == self.result
        &&& !(result matches Err(Fault::Fatal(_))) ==> core == self.core && mem == self.mem
    }
}

pub open spec fn fault(e: Exception) -> Result<(), Fault> {
    Err(Fault::Exception(e))
}

pub open spec fn fatal(e: Fatal) -> Result<(), Fault> {
    Err(Fault::Fatal(e))
}

/// The address of the descriptor that a selector names, and the limit of its table.
pub open spec fn descriptor_addr(cpu: State, selector: SegmentSelector) -> int {
    (if selector.local() {
        cpu.ldt.base
    } else {
        cpu.gdt.base
    }) + selector.index() * 8
}

pub open spec fn in_table(cpu: State, selector: SegmentSelector) -> bool {
    selector.index() * 8 + 7 <= (if selector.local() {
        cpu.ldt.limit
    } else {
        cpu.gdt.limit
    })
}

/// The descriptor that a selector names.
pub open spec fn descriptor_of(cpu: State, mem: Seq<u8>, selector: SegmentSelector) -> Result<
    Descriptor,
    Fault,
> {
    if !in_table(cpu, selector) {
        Err(Fault::Exception(Exception::SegmentNotPresent(selector.index())))
    } else {
        match read64(mem, descriptor_addr(cpu, selector)) {
            Some(v) => Ok(Descriptor::of_value(v)),
            None => Err(Fault::Fatal(Fatal::Unreadable)),
        }
    }
}

/// Whether selectors name descriptors, and not addresses.
pub open spec fn uses_tables(core: Core) -> bool {
    core.protected_mode && !core.cpu.flags.vm
}

/// The segment that a selector names.
pub open spec fn segment_of(core: Core, mem: Seq<u8>, seg: SegReg, selector: u16) -> Result<
    PreparedSegment,
    Fault,
> {
    let s = SegmentSelector { value: selector };
    if uses_tables(core) {
        match descriptor_of(core.cpu, mem, s) {
            Ok(d) => if s.index() != 0 && !access_present(d.access_byte) {
                Err(Fault::Exception(Exception::SegmentNotPresent(s.index())))
            } else {
                Ok(PreparedSegment { seg, selector: s, descriptor: d, protected_mode: true })
            },
            Err(e) => Err(e),
        }
    } else {
        Ok(
            PreparedSegment {
                seg,
                selector: s,
                descriptor: Descriptor::real_mode(selector),
                protected_mode: false,
            },
        )
    }
}

/// The memory after a segment was looked up: its descriptor is marked as used.
pub open spec fn marked(core: Core, mem: Seq<u8>, selector: u16) -> Seq<u8> {
    let s = SegmentSelector { value: selector };
    match segment_of(core, mem, SegReg::Cs, selector) {
        Ok(p) => if p.protected_mode && access_is_segment(p.descriptor.access_byte)
            && !access_accessed(p.descriptor.access_byte) {
            written(
                mem,
                descriptor_addr(core.cpu, s) + 5,
                seq![marked_accessed(p.descriptor.access_byte)],
            )->Some_0
        } else {
            mem
        },
        Err(_) => mem,
    }
}

/// What a segment register holds after a segment was loaded.
pub open spec fn loaded(p: PreparedSegment) -> Segment {
    Segment {
        selector: p.selector.value,
        base: p.descriptor.base,
        limit: p.descriptor.effective_limit(),
        ar: p.descriptor.rights(!p.protected_mode),
    }
}

/// The segment sizes as the loaded segments have them.
pub open spec fn resized(core: Core) -> Core {
    Core { segment_sizes: sizes_of(core.cpu.cs.ar.db(), core.cpu.ss.ar.db()), ..core }
}

/// The processor after a segment was loaded.
pub open spec fn committed(core: Core, p: PreparedSegment) -> Core {
    let cpu = core.cpu.with_segment(p.seg, loaded(p));
    let next = if p.seg == SegReg::Cs && p.protected_mode {
        Core {
            cpu: State { cpl: effective_cpl(p.selector.level()), ..cpu },
            op_size: p.descriptor.db(),
            ..core
        }
    } else {
        Core { cpu, ..core }
    };
    if p.seg == SegReg::Cs || p.seg == SegReg::Ss {
        resized(next)
    } else {
        next
    }
}

impl Core {
    pub fn set_protected_mode(&mut self, enable: bool)
        ensures
            *final(self) == (Core { protected_mode: enable, ..*old(self) }),
    {
        self.protected_mode = enable;
    }

    /// Derives the segment sizes again.
    pub fn update_segment_sizes(&mut self)
        ensures
            *final(self) == resized(*old(self)),
    {
        self.segment_sizes = SegmentSizes::of(self.cpu.read_cs_size(), self.cpu.read_ss_size());
    }

    /// Reads the descriptor that a selector names.
    pub fn load_descriptor(&self, mem: &Memory, selector: SegmentSelector) -> (r: Result<
        Descriptor,
        Fault,
    >)
        ensures
            r == descriptor_of(self.cpu, mem@, selector),
    {
        let table = if selector.is_local() {
            self.cpu.ldt
        } else {
            self.cpu.gdt
        };
        let index: u16 = selector.segment_index();
        let offset: u32 = index as u32 * 8;
        if offset + 7 > table.limit {
            return Err(Fault::Exception(Exception::SegmentNotPresent(index)));
        }
        match mem.get64(table.base as u64 + offset as u64) {
            Some(v) => Ok(Descriptor::from_value(v)),
            None => Err(Fault::Fatal(Fatal::Unreadable)),
        }
    }

    /// Marks a descriptor in its table as used.
    fn mark_descriptor_accessed(
        &self,
        mem: &mut Memory,
        selector: SegmentSelector,
        descriptor: Descriptor,
    )
        requires
            in_table(self.cpu, selector),
            read64(old(mem)@, descriptor_addr(self.cpu, selector)) is Some,
        ensures
            final(mem)@ == if access_is_segment(descriptor.access_byte) && !access_accessed(
                descriptor.access_byte,
            ) {
                written(
                    old(mem)@,
                    descriptor_addr(self.cpu, selector) + 5,
                    seq![marked_accessed(descriptor.access_byte)],
                )->Some_0
            } else {
                old(mem)@
            },
    {
        if descriptor.access_byte / 0x10 % 2 == 1 && descriptor.access_byte % 2 == 0 {
            let base: u32 = if selector.is_local() {
                self.cpu.ldt.base
            } else {
                self.cpu.gdt.base
            };
            let addr: u64 = base as u64 + selector.segment_index() as u64 * 8;
            mem.put8(addr + 5, descriptor.access_byte + 1);
        }
    }

    /// Looks a segment up.
    pub fn prepare_segment(&self, mem: &mut Memory, seg: SegReg, selector_val: u16) -> (r: Result<
        PreparedSegment,
        Fault,
    >)
        ensures
            r == segment_of(*self, old(mem)@, seg, selector_val),
            final(mem)@ == marked(*self, old(mem)@, selector_val),
    {
        let selector = SegmentSelector { value: selector_val };
        if self.protected_mode && !self.cpu.flags.vm {
            match self.load_descriptor(mem, selector) {
                Ok(descriptor) => {
                    if selector.segment_index() != 0 && descriptor.access_byte / 0x80 == 0 {
                        return Err(
                            Fault::Exception(
                                Exception::SegmentNotPresent(selector.segment_index()),
                            ),
                        );
                    }
                    self.mark_descriptor_accessed(mem, selector, descriptor);
                    Ok(PreparedSegment { seg, selector, descriptor, protected_mode: true })
                },
                Err(e) => Err(e),
            }
        } else {
            Ok(
                PreparedSegment {
                    seg,
                    selector,
                    descriptor: Descriptor::from_real_mode_selector(selector_val),
                    protected_mode: false,
                },
            )
        }
    }

    /// Loads a segment that was looked up.
    pub fn commit(&mut self, p: PreparedSegment)
        ensures
            *final(self) == committed(*old(self), p),
    {
        let value = Segment {
            selector: p.selector.value,
            base: p.descriptor.base,
            limit: p.descriptor.effective_limit_taking_direction_into_account(),
            ar: AccessRights::of(p.descriptor, !p.protected_mode),
        };
        self.cpu.set_segment(p.seg, value);
        if p.seg == SegReg::Cs && p.protected_mode {
            self.op_size = p.descriptor.size();
            self.cpu.cpl = compute_effective_cpl(p.selector.rpl());
        }
        if p.seg == SegReg::Cs || p.seg == SegReg::Ss {
            self.update_segment_sizes();
        }
    }
}

/// A selector of the global table loads the segment that the eight bytes at eight times its number
/// describe, if it is present and within the table.
pub proof fn segments_come_from_the_table(core: Core, mem: Seq<u8>, seg: SegReg, selector: u16)
    requires
        core.protected_mode,
        !core.cpu.flags.vm,
        selector / 4 % 2 == 0,
        selector / 8 * 8 + 7 <= core.cpu.gdt.limit,
        core.cpu.gdt.base + selector / 8 * 8 + 8 <= mem.len(),
        mem[core.cpu.gdt.base + selector / 8 * 8 + 5] >= 0x80,
    ensures
        ({
            let at = core.cpu.gdt.base + selector / 8 * 8;
            let b = mem.subrange(at, at + 8);
            &&& segment_of(core, mem, seg, selector) matches Ok(p) && {
                let s = loaded(p);
                &&& s.selector == selector
                &&& s.base == b[2] + 0x100 * b[3] + 0x1_0000 * b[4] + 0x100_0000 * b[7]
                &&& s.limit == Descriptor::of_value(eight_bytes(b)).effective_limit()
                &&& s.ar.access_byte == b[5] && s.ar.flags == b[6] / 0x10 && !s.ar.real_mode
                &&& p.seg == seg
                &&& seg == SegReg::Ds ==> committed(core, p).cpu == (State { ds: s, ..core.cpu })
                &&& seg == SegReg::Es ==> committed(core, p).cpu == (State { es: s, ..core.cpu })
                &&& seg == SegReg::Ss ==> committed(core, p).cpu == (State { ss: s, ..core.cpu })
                &&& seg == SegReg::Cs ==> committed(core, p).cpu.cs == s && committed(
                    core,
                    p,
                ).cpu.level() == selector % 4
            }
        }),
{
    let at: int = core.cpu.gdt.base + selector / 8 * 8;
    let b = mem.subrange(at, at + 8);
    let t = mem.skip(at);
    assert(forall|i: int| 0 <= i < 8 ==> t[i] == b[i]);
    assert(t.skip(4)[0] == b[4] && t.skip(4)[1] == b[5] && t.skip(4)[2] == b[6] && t.skip(4)[3]
        == b[7]);
    assert(read64(mem, at) == Some(eight_bytes(b)));
    descriptor_fields_have_their_places(b);
}

/// In real mode a selector loads the 64 KiB from sixteen times its value on.
pub proof fn real_mode_segments_need_no_table(core: Core, mem: Seq<u8>, seg: SegReg, selector: u16)
    requires
        !core.protected_mode,
    ensures
        segment_of(core, mem, seg, selector) matches Ok(p) && {
            &&& loaded(p).selector == selector
            &&& loaded(p).base == 16 * selector
            &&& loaded(p).limit == 0xffff
            &&& loaded(p).ar.real_mode
            &&& p.seg == seg
        },
        marked(core, mem, selector) == mem,
{
}

/// A selector behind the end of its table, and one of a segment that is not present, loads nothing.
pub proof fn missing_segments_are_not_loaded(core: Core, mem: Seq<u8>, seg: SegReg, selector: u16)
    requires
        core.protected_mode,
        !core.cpu.flags.vm,
        selector / 4 % 2 == 0,
    ensures
        selector / 8 * 8 + 7 > core.cpu.gdt.limit ==> segment_of(core, mem, seg, selector) == Err::<
            PreparedSegment,
            Fault,
        >(Fault::Exception(Exception::SegmentNotPresent(selector / 8))),
{
}

} // verus!
