//! What instructions ask of the processor's surroundings: descriptors and ports.
use vstd::prelude::*;

use crate::emulator::segments::{descriptor_addr, in_table, uses_tables, Core, Fatal};
use crate::emulator::stack::StackTransaction;
use crate::emulator::state::State;
use crate::emulator::trace::TraceEntry;
use crate::mem::{read16, read64, written, Memory};
use crate::system::{
    access_accessed, access_direction, access_dpl, access_executable, access_is_segment,
    marked_accessed, AccessRights, Db, Descriptor, Exception, SegmentSelector,
};

verus! {

/// What an instruction learns of a segment.
#[derive(Copy, Clone, Debug, PartialEq, Eq, Structural)]
pub struct DescriptorReadResult {
    pub ok: bool,
    pub base: u32,
    pub limit: u32,
    pub access_rights: AccessRights,
}

/// The counters of execution.
#[derive(Copy, Clone, Debug, PartialEq, Eq, Structural)]
pub struct ExecutionContext {
    /// The number of instructions that were executed.
    pub k: u64,
    /// The number of instructions that were executed in compiled pages.
    pub jit_k: u64,
    pub num_port_outs: u64,
    pub num_port_ins: u64,
    pub num_descriptors_read: u64,
}

/// Why a port access does not agree with a trace.
#[derive(Copy, Clone, Debug, PartialEq, Eq, Structural)]
pub enum PortTraceError {
    /// The next entry is no access in this direction.
    OtherEntry,
    OtherLength,
    OtherPort,
    OtherValue,
}

/// Why a port access is not made.
#[derive(Copy, Clone, Debug, PartialEq, Eq, Structural)]
pub enum PortStop {
    Exception(Exception),
    Fatal(Fatal),
    Trace(PortTraceError),
}

/// Whether an access to a port is made.
pub open spec fn port_check(core: Core, mem: Seq<u8>, port: u16, len: u8) -> Result<(), PortStop> {
    match io_permission(core.protected_mode, core.cpu, mem, port, len as u32) {
        Ok(true) => Ok(()),
        Ok(false) => Err(PortStop::Exception(Exception::GeneralProtectionFault(0))),
        Err(e) => Err(PortStop::Fatal(e)),
    }
}

/// What looking a descriptor up for an instruction gives.
pub struct Lookup {
    pub mem: Seq<u8>,
    pub result: Result<Option<Descriptor>, Exception>,
}

/// An access to memory that is not there.
pub open spec fn page_fault(addr: int) -> Exception {
    Exception::PageFault { address: (addr % 0x1_0000_0000) as u32, code: 0 }
}

/// Whether a segment can be used at the current privilege level and that of its selector.
/// Conforming code can be used at any level.
pub open spec fn visible(cpu: State, selector: SegmentSelector, d: Descriptor) -> bool {
    let a = d.access_byte;
    ||| access_is_segment(a) && access_executable(a) && access_direction(a)
    ||| cpu.level() <= access_dpl(a) && selector.level() <= access_dpl(a)
}

/// Looks the descriptor of a selector up. There is none for null selectors, for selectors outside
/// their table, and for segments that must not be used.
pub open spec fn looked_up(
    cpu: State,
    mem: Seq<u8>,
    selector: SegmentSelector,
    check_permissions: bool,
    mark_accessed: bool,
) -> Lookup {
    if selector.null() || !in_table(cpu, selector) {
        Lookup { mem, result: Ok(None) }
    } else {
        let addr = descriptor_addr(cpu, selector);
        match read64(mem, addr) {
            None => Lookup { mem, result: Err(page_fault(addr)) },
            Some(v) => {
                let d = Descriptor::of_value(v);
                if check_permissions && !visible(cpu, selector, d) {
                    Lookup { mem, result: Ok(None) }
                } else if mark_accessed && access_is_segment(d.access_byte) && !access_accessed(
                    d.access_byte,
                ) {
                    let access_byte = marked_accessed(d.access_byte);
                    Lookup {
                        mem: written(mem, addr + 5, seq![access_byte])->Some_0,
                        result: Ok(Some(Descriptor { access_byte, ..d })),
                    }
                } else {
                    Lookup { mem, result: Ok(Some(d)) }
                }
            },
        }
    }
}

/// What is read of a segment.
pub open spec fn readout(d: Descriptor, real_mode: bool) -> DescriptorReadResult {
    DescriptorReadResult {
        ok: true,
        base: d.base,
        limit: d.effective_limit(),
        access_rights: d.rights(real_mode),
    }
}

/// What is read of a null segment: it is valid, but empty.
pub open spec fn null_readout() -> DescriptorReadResult {
    DescriptorReadResult {
        ok: true,
        base: 0,
        limit: 0,
        access_rights: AccessRights { access_byte: 0x90, flags: 4, real_mode: false },
    }
}

pub open spec fn no_readout() -> DescriptorReadResult {
    DescriptorReadResult {
        ok: false,
        base: 0,
        limit: 0,
        access_rights: AccessRights { access_byte: 0, flags: 0, real_mode: false },
    }
}

/// The bits of a port permission map that an access of some bytes needs.
pub open spec fn io_mask(size: u32) -> u16 {
    if size == 1 {
        1
    } else if size == 2 {
        3
    } else {
        0xf
    }
}

/// Whether ports are guarded by the permission map of the task.
pub open spec fn ports_guarded(protected_mode: bool, cpu: State) -> bool {
    protected_mode && (cpu.flags.vm || cpu.level() > cpu.iopl)
}

/// Whether a port may be used.
pub open spec fn io_permission(
    protected_mode: bool,
    cpu: State,
    mem: Seq<u8>,
    port: u16,
    size: u32,
) -> Result<bool, Fatal> {
    if !ports_guarded(protected_mode, cpu) {
        Ok(true)
    } else {
        match read16(mem, cpu.tss.base + 102) {
            None => Err(Fatal::Unreadable),
            Some(map) => {
                let offset = map + port / 8;
                if offset > cpu.tss.limit {
                    Ok(false)
                } else {
                    match read16(mem, cpu.tss.base + offset) {
                        None => Err(Fatal::Unreadable),
                        Some(word) => Ok((word >> (port % 8)) & io_mask(size) == 0),
                    }
                }
            },
        }
    }
}

/// Whether an `INT` in virtual 8086 mode goes to the handler of that mode. The map of these
/// interrupts ends where that of the ports begins.
pub open spec fn redirected(cpu: State, mem: Seq<u8>, n: u8) -> Result<bool, Fatal> {
    match read16(mem, cpu.tss.base + 102) {
        None => Err(Fatal::Unreadable),
        Some(map) => if map < 32 {
            Err(Fatal::NoBitmap)
        } else if map - 32 > cpu.tss.limit {
            Ok(false)
        } else {
            let at = cpu.tss.base + (map - 32) + n / 8;
            if at < mem.len() {
                Ok((mem[at] >> (n % 8)) & 1 == 0)
            } else {
                Err(Fatal::Unreadable)
            }
        },
    }
}

/// The part of a value that an access of some bytes has.
pub open spec fn masked(value: u32, len: u8) -> u32 {
    if len == 1 {
        (value % 0x100) as u32
    } else if len == 2 {
        (value % 0x1_0000) as u32
    } else {
        value
    }
}

/// The value of a port read. A trace decides where there is one.
pub open spec fn port_value(
    entry: Option<TraceEntry>,
    port: u16,
    len: u8,
    result: u32,
) -> Result<u32, PortTraceError> {
    match entry {
        None => Ok(masked(result, len)),
        Some(TraceEntry::In(t)) => if t.len != len {
            Err(PortTraceError::OtherLength)
        } else if t.port != port {
            Err(PortTraceError::OtherPort)
        } else {
            Ok(masked(if masked(t.value, len) != result { t.value } else { result }, len))
        },
        Some(_) => Err(PortTraceError::OtherEntry),
    }
}

/// Whether a port write agrees with a trace.
pub open spec fn port_write_check(
    entry: Option<TraceEntry>,
    port: u16,
    len: u8,
    value: u32,
) -> Result<(), PortTraceError> {
    match entry {
        None => Ok(()),
        Some(TraceEntry::Out(t)) => if t.port != port {
            Err(PortTraceError::OtherPort)
        } else if t.value != value {
            Err(PortTraceError::OtherValue)
        } else if t.len != len {
            Err(PortTraceError::OtherLength)
        } else {
            Ok(())
        },
        Some(_) => Err(PortTraceError::OtherEntry),
    }
}

impl ExecutionContext {
    /// A context that has executed nothing.
    pub fn new() -> (r: Self)
        ensures
            r == (ExecutionContext {
                k: 0,
                jit_k: 0,
                num_port_outs: 0,
                num_port_ins: 0,
                num_descriptors_read: 0,
            }),
    {
        ExecutionContext {
            k: 0,
            jit_k: 0,
            num_port_outs: 0,
            num_port_ins: 0,
            num_descriptors_read: 0,
        }
    }

    /// Begins to run code of a page, which counts its instructions in `k` too.
    pub fn begin_page(&mut self)
        ensures
            *final(self) == (ExecutionContext {
                jit_k: ((old(self).jit_k - old(self).k) % 0x1_0000_0000_0000_0000) as u64,
                ..*old(self)
            }),
    {
        self.jit_k = self.jit_k.wrapping_sub(self.k);
    }

    /// Ends to run code of a page.
    pub fn end_page(&mut self)
        ensures
            *final(self) == (ExecutionContext {
                jit_k: ((old(self).jit_k + old(self).k) % 0x1_0000_0000_0000_0000) as u64,
                ..*old(self)
            }),
    {
        self.jit_k = self.jit_k.wrapping_add(self.k);
    }

    /// Starts pushes or pops.
    pub fn begin_stack_transaction(&self, ss_size: Db, op_size: Db, cpu: &State) -> (r:
        StackTransaction)
        ensures
            r == StackTransaction::begin(ss_size, op_size, *cpu),
    {
        StackTransaction::new(ss_size, op_size, cpu)
    }

    /// Looks the descriptor of a selector up, as instructions do.
    pub fn load_descriptor(
        &self,
        cpu: &State,
        mem: &mut Memory,
        selector: SegmentSelector,
        check_permissions: bool,
        mark_accessed: bool,
    ) -> (r: Result<Option<Descriptor>, Exception>)
        ensures
            ({
                let l = looked_up(*cpu, old(mem)@, selector, check_permissions, mark_accessed);
                r == l.result && final(mem)@ == l.mem
            }),
    {
        if selector.is_null() {
            return Ok(None);
        }
        let table = if selector.is_local() {
            cpu.ldt
        } else {
            cpu.gdt
        };
        let offset: u32 = selector.segment_index() as u32 * 8;
        if offset + 7 > table.limit {
            return Ok(None);
        }
        let addr: u64 = table.base as u64 + offset as u64;
        let d = match mem.get64(addr) {
            Some(v) => Descriptor::from_value(v),
            None => {
                return Err(
                    Exception::PageFault { address: (addr % 0x1_0000_0000) as u32, code: 0 },
                );
            },
        };
        let a: u8 = d.access_byte;
        if check_permissions && !(a / 0x10 % 2 == 1 && a / 8 % 2 == 1 && a / 4 % 2 == 1) {
            let dpl: u8 = a / 0x20 % 4;
            if cpu.current_level() > dpl || selector.rpl() > dpl {
                return Ok(None);
            }
        }
        if mark_accessed && a / 0x10 % 2 == 1 && a % 2 == 0 {
            mem.put8(addr + 5, a + 1);
            return Ok(Some(Descriptor { access_byte: a + 1, ..d }));
        }
        Ok(Some(d))
    }

    /// Reads what an instruction needs of a segment.
    pub fn read_descriptor(
        &mut self,
        core: &Core,
        mem: &mut Memory,
        force: bool,
        mark_accessed: bool,
        selector_val: u16,
    ) -> (r: Result<DescriptorReadResult, Exception>)
        requires
            old(self).num_descriptors_read < u64::MAX,
        ensures
            *final(self) == (ExecutionContext {
                num_descriptors_read: (old(self).num_descriptors_read + 1) as u64,
                ..*old(self)
            }),
            ({
                let s = SegmentSelector { value: selector_val };
                let l = looked_up(core.cpu, old(mem)@, s, true, mark_accessed);
                if !uses_tables(*core) && !force {
                    &&& r == Ok::<DescriptorReadResult, Exception>(
                        readout(Descriptor::real_mode(selector_val), true),
                    )
                    &&& final(mem)@ == old(mem)@
                } else if s.null() {
                    &&& r == Ok::<DescriptorReadResult, Exception>(null_readout())
                    &&& final(mem)@ == old(mem)@
                } else {
                    &&& final(mem)@ == l.mem
                    &&& r == match l.result {
                        Ok(Some(d)) => Ok(readout(d, false)),
                        Ok(None) => Ok(no_readout()),
                        Err(e) => Err(e),
                    }
                }
            }),
    {
        self.num_descriptors_read = self.num_descriptors_read + 1;
        if (core.protected_mode && !core.cpu.flags.vm) || force {
            let selector = SegmentSelector { value: selector_val };
            if selector.is_null() {
                return Ok(
                    DescriptorReadResult {
                        ok: true,
                        base: 0,
                        limit: 0,
                        access_rights: AccessRights { access_byte: 0x90, flags: 4, real_mode: false },
                    },
                );
            }
            match self.load_descriptor(&core.cpu, mem, selector, true, mark_accessed) {
                Ok(Some(d)) => Ok(
                    DescriptorReadResult {
                        ok: true,
                        base: d.base,
                        limit: d.effective_limit_taking_direction_into_account(),
                        access_rights: AccessRights::of(d, false),
                    },
                ),
                Ok(None) => Ok(
                    DescriptorReadResult {
                        ok: false,
                        base: 0,
                        limit: 0,
                        access_rights: AccessRights { access_byte: 0, flags: 0, real_mode: false },
                    },
                ),
                Err(e) => Err(e),
            }
        } else {
            let d = Descriptor::from_real_mode_selector(selector_val);
            Ok(
                DescriptorReadResult {
                    ok: true,
                    base: d.base,
                    limit: d.effective_limit_taking_direction_into_account(),
                    access_rights: AccessRights::of(d, true),
                },
            )
        }
    }

    /// Whether a port may be used.
    pub fn check_io_permission(&self, core: &Core, mem: &Memory, port: u16, size: u32) -> (r: Result<
        bool,
        Fatal,
    >)
        requires
            size == 1 || size == 2 || size == 4,
        ensures
            r == io_permission(core.protected_mode, core.cpu, mem@, port, size),
    {
        let cpu = &core.cpu;
        if !(core.protected_mode && (cpu.flags.vm || cpu.current_level() > cpu.iopl)) {
            return Ok(true);
        }
        let map: u16 = match mem.get16(cpu.tss.base as u64 + 102) {
            Some(map) => map,
            None => {
                return Err(Fatal::Unreadable);
            },
        };
        let offset: u64 = map as u64 + port as u64 / 8;
        if offset > cpu.tss.limit as u64 {
            return Ok(false);
        }
        let mask: u16 = if size == 1 {
            1
        } else if size == 2 {
            3
        } else {
            0xf
        };
        match mem.get16(cpu.tss.base as u64 + offset) {
            Some(word) => Ok((word >> (port % 8)) & mask == 0),
            None => Err(Fatal::Unreadable),
        }
    }

    /// Whether an `INT` in virtual 8086 mode goes to the handler of that mode.
    pub fn software_interrupt_is_redirected(&self, cpu: &State, mem: &Memory, n: u8) -> (r: Result<
        bool,
        Fatal,
    >)
        ensures
            r == redirected(*cpu, mem@, n),
    {
        let map: u16 = match mem.get16(cpu.tss.base as u64 + 102) {
            Some(map) => map,
            None => {
                return Err(Fatal::Unreadable);
            },
        };
        if map < 32 {
            return Err(Fatal::NoBitmap);
        }
        let offset: u64 = map as u64 - 32;
        if offset > cpu.tss.limit as u64 {
            return Ok(false);
        }
        match mem.get8(cpu.tss.base as u64 + offset + n as u64 / 8) {
            Some(b) => Ok((b >> (n % 8)) & 1 == 0),
            None => Err(Fatal::Unreadable),
        }
    }

    fn check_ports(&self, core: &Core, mem: &Memory, port: u16, len: u8) -> (r: Result<
        (),
        PortStop,
    >)
        requires
            len == 1 || len == 2 || len == 4,
        ensures
            r == port_check(*core, mem@, port, len),
    {
        match self.check_io_permission(core, mem, port, len as u32) {
            Ok(allowed) => if allowed {
                Ok(())
            } else {
                Err(PortStop::Exception(Exception::GeneralProtectionFault(0)))
            },
            Err(e) => Err(PortStop::Fatal(e)),
        }
    }

    /// Reads a port of `len` bytes. `read` asks the device; where a trace is followed, its next
    /// entry decides.
    pub fn port_in<F: FnOnce() -> u32>(
        &mut self,
        core: &Core,
        mem: &Memory,
        entry: &Option<TraceEntry>,
        port: u16,
        len: u8,
        read: F,
    ) -> (r: Result<u32, PortStop>)
        requires
            old(self).num_port_ins < u64::MAX,
            len == 1 || len == 2 || len == 4,
            read.requires(()),
        ensures
            *final(self) == (ExecutionContext {
                num_port_ins: (old(self).num_port_ins + 1) as u64,
                ..*old(self)
            }),
            match port_check(*core, mem@, port, len) {
                Err(stop) => r == Err::<u32, PortStop>(stop),
                Ok(_) => exists|v: u32| #[trigger]
                    read.ensures((), v) && r == match port_value(*entry, port, len, v) {
                        Ok(value) => Ok(value),
                        Err(e) => Err(PortStop::Trace(e)),
                    },
            },
    {
        self.num_port_ins = self.num_port_ins + 1;
        match self.check_ports(core, mem, port, len) {
            Ok(_) => {},
            Err(stop) => {
                return Err(stop);
            },
        }
        let v: u32 = read();
        match finish_port_in(entry, port, len, v) {
            Ok(value) => Ok(value),
            Err(e) => Err(PortStop::Trace(e)),
        }
    }

    /// Writes a port of `len` bytes. `write` tells the device; where a trace is followed, its next
    /// entry must agree.
    pub fn port_out<F: FnOnce()>(
        &mut self,
        core: &Core,
        mem: &Memory,
        entry: &Option<TraceEntry>,
        port: u16,
        len: u8,
        val: u32,
        write: F,
    ) -> (r: Result<(), PortStop>)
        requires
            old(self).num_port_outs < u64::MAX,
            len == 1 || len == 2 || len == 4,
            write.requires(()),
        ensures
            *final(self) == (ExecutionContext {
                num_port_outs: (old(self).num_port_outs + 1) as u64,
                ..*old(self)
            }),
            match port_check(*core, mem@, port, len) {
                Err(stop) => r == Err::<(), PortStop>(stop),
                Ok(_) => match port_write_check(*entry, port, len, val) {
                    Err(e) => r == Err::<(), PortStop>(PortStop::Trace(e)),
                    Ok(_) => r == Ok::<(), PortStop>(()) && write.ensures((), ()),
                },
            },
    {
        self.num_port_outs = self.num_port_outs + 1;
        match self.check_ports(core, mem, port, len) {
            Ok(_) => {},
            Err(stop) => {
                return Err(stop);
            },
        }
        match check_port_out(entry, port, len, val) {
            Ok(_) => {},
            Err(e) => {
                return Err(PortStop::Trace(e));
            },
        }
        write();
        Ok(())
    }
}

fn mask_value(value: u32, len: u8) -> (r: u32)
    ensures
        r == masked(value, len),
{
    if len == 1 {
        value % 0x100
    } else if len == 2 {
        value % 0x1_0000
    } else {
        value
    }
}

/// What a port read gives, from what the device answered and the next entry of the trace.
pub fn finish_port_in(entry: &Option<TraceEntry>, port: u16, len: u8, result: u32) -> (r: Result<
    u32,
    PortTraceError,
>)
    ensures
        r == port_value(*entry, port, len, result),
{
    match entry {
        None => Ok(mask_value(result, len)),
        Some(TraceEntry::In(t)) => {
            if t.len != len {
                return Err(PortTraceError::OtherLength);
            }
            if t.port != port {
                return Err(PortTraceError::OtherPort);
            }
            if mask_value(t.value, len) != result {
                Ok(mask_value(t.value, len))
            } else {
                Ok(mask_value(result, len))
            }
        },
        Some(_) => Err(PortTraceError::OtherEntry),
    }
}

/// Whether a port write agrees with the next entry of the trace.
pub fn check_port_out(entry: &Option<TraceEntry>, port: u16, len: u8, value: u32) -> (r: Result<
    (),
    PortTraceError,
>)
    ensures
        r == port_write_check(*entry, port, len, value),
{
    match entry {
        None => Ok(()),
        Some(TraceEntry::Out(t)) => {
            if t.port != port {
                Err(PortTraceError::OtherPort)
            } else if t.value != value {
                Err(PortTraceError::OtherValue)
            } else if t.len != len {
                Err(PortTraceError::OtherLength)
            } else {
                Ok(())
            }
        },
        Some(_) => Err(PortTraceError::OtherEntry),
    }
}

/// Instructions that run between the start and the end of a page's code count as compiled ones.
pub proof fn page_instructions_are_counted(jit_k: u64, k: u64, n: u64)
    requires
        k + n <= u64::MAX,
        jit_k + n <= u64::MAX,
    ensures
        ({
            let begun = ((jit_k - k) % 0x1_0000_0000_0000_0000) as u64;
            ((begun + (k + n)) % 0x1_0000_0000_0000_0000) as u64 == jit_k + n
        }),
{
}

/// Code in ring 0 uses any port.
pub proof fn supervisor_ports_are_free(cpu: State, mem: Seq<u8>, port: u16, size: u32)
    requires
        cpu.level() == 0,
        !cpu.flags.vm,
    ensures
        io_permission(true, cpu, mem, port, size) == Ok::<bool, Fatal>(true),
{
}

/// Ports are free in real mode, and for a privilege level that is at most that of the flags. Otherwise
/// the map of the task decides, which starts as many bytes behind the start of the task as the two
/// bytes at 102 say: one bit for each port, which has to be clear for all bytes of the access.
pub proof fn ports_follow_the_map(cpu: State, mem: Seq<u8>, port: u16, map: int)
    requires
        cpu.tss.base + 104 <= mem.len(),
        map == mem[cpu.tss.base + 102] + 0x100 * mem[cpu.tss.base + 103],
        cpu.tss.base + map + port / 8 + 2 <= mem.len(),
        map + port / 8 <= cpu.tss.limit,
    ensures
        io_permission(false, cpu, mem, port, 1) == Ok::<bool, Fatal>(true),
        !cpu.flags.vm && cpu.level() <= cpu.iopl ==> io_permission(true, cpu, mem, port, 1) == Ok::<
            bool,
            Fatal,
        >(true),
        cpu.flags.vm || cpu.level() > cpu.iopl ==> {
            let at = cpu.tss.base + map + port / 8;
            let word = (mem[at] + 0x100 * mem[at + 1]) as u16;
            &&& io_permission(true, cpu, mem, port, 1) == Ok::<bool, Fatal>(
                (word >> (port % 8)) & 1 == 0,
            )
            &&& io_permission(true, cpu, mem, port, 2) == Ok::<bool, Fatal>(
                (word >> (port % 8)) & 3 == 0,
            )
            &&& io_permission(true, cpu, mem, port, 4) == Ok::<bool, Fatal>(
                (word >> (port % 8)) & 0xf == 0,
            )
        },
{
    let a: int = cpu.tss.base + 102;
    assert(mem.skip(a)[0] == mem[a] && mem.skip(a)[1] == mem[a + 1]);
    let at: int = cpu.tss.base + map + port / 8;
    assert(mem.skip(at)[0] == mem[at] && mem.skip(at)[1] == mem[at + 1]);
}

} // verus!
