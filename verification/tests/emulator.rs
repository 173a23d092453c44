use sem86_core::codegen::page::CacheEntryId;
use sem86_core::emulator::context::{Emulator, EmulatorContext, RestoredTrace};
use sem86_core::emulator::exec::{ExecutionContext, PortStop, PortTraceError};
use sem86_core::emulator::handlers::{Effect, ExecResult, HandlerId, Processor, Stop};
use sem86_core::emulator::hooks::{
    CacheConsistency, CheckInstructionCacheConsistency, CheckTrace, DirtyTracker, EnableProfiler,
    HookNeeds, MeasureSingleEncodingExecution, MemTrace, Path, PrintEveryInstr, Printer, StopAt,
    SyncClock, SynchronousClock, TrackPath,
};
use sem86_core::emulator::phase::{EmulatorState, LookupProgress};
use sem86_core::emulator::run::{
    EmulationAction, EmulationEvent, EmulationLoop, RunAction, RunEvent, RunLoop,
};
use sem86_core::emulator::segments::{Core, Fatal, Fault};
use sem86_core::emulator::stack::StackTransaction;
use sem86_core::emulator::state::{
    pack_flags, unpack_flags, SegReg, Segment, State, Table,
};
use sem86_core::emulator::trace::{
    check_trace, external_interrupts, Deviation, InstrTrace, MemAssert, PortTrace, SegmentTrace,
    TraceEntry, TraceOutcome, TraceReader, TraceState,
};
use sem86_core::hw::intr::Intr;
use sem86_core::hw::machine::Hw;
use sem86_core::hw::storage::DiskData;
use sem86_core::mem::Memory;
use sem86_core::system::{
    AccessRights, Db, Descriptor, Exception, GateDescriptor, GateType, Interrupt, SegmentSelector,
    SegmentSizes,
};

#[test]
fn pack_unpack_flags_is_correct() {
    let mut cpu = State::default();
    for n in 0..(1 << 22) {
        unpack_flags(&mut cpu, n, true, false);
        let flags = pack_flags(&cpu);

        assert_eq!(2 | (n & 0x003F_7FD5), flags, "n: {n:022b}, flags: {flags:022b}\n{cpu:?}");
    }
}

#[test]
fn flags_of_virtual_mode_stay() {
    let mut cpu = State::default();
    cpu.flags.vm = true;
    cpu.iopl = 2;
    unpack_flags(&mut cpu, 0x0000_3001, false, true);
    assert!(cpu.flags.cf && cpu.flags.vm);
    assert_eq!(cpu.iopl, 2);
    unpack_flags(&mut cpu, 0x0021_3000, true, false);
    assert!(!cpu.flags.vm && cpu.flags.rf && cpu.flags.id);
    assert_eq!(cpu.iopl, 3);
}

fn real_mode_core() -> Core {
    let mut cpu = State::default();
    cpu.cs = real_segment(0x1000);
    cpu.ss = real_segment(0x2000);
    cpu.sp = 0x100;
    cpu.ip = 0x123;
    cpu.flags.if_ = true;
    cpu.flags.cf = true;
    Core {
        cpu,
        op_size: Db::Protected16,
        segment_sizes: SegmentSizes::Cs16Ss16,
        protected_mode: false,
    }
}

fn real_segment(selector: u16) -> Segment {
    Segment {
        selector,
        base: selector as u32 * 16,
        limit: 0xffff,
        ar: AccessRights { access_byte: 0x93, flags: 0, real_mode: true },
    }
}

#[test]
fn real_mode_interrupt_saves_its_frame() {
    let mut core = real_mode_core();
    let mut mem = Memory::new(0x40000);
    assert!(mem.put16(0x21 * 4, 0x5678));
    assert!(mem.put16(0x21 * 4 + 2, 0x3000));
    let int = Interrupt::SoftwareInterrupt { vector: 0x21, pc_increment: 2 };
    assert_eq!(core.enter_interrupt(&mut mem, int), Ok(()));
    assert_eq!(core.cpu.ip, 0x5678);
    assert_eq!(core.cpu.cs.selector, 0x3000);
    assert_eq!(core.cpu.cs.base, 0x30000);
    assert_eq!(core.cpu.sp, 0xfa);
    assert!(!core.cpu.flags.if_);
    assert_eq!(mem.get16(0x20000 + 0xfa), Some(0x125));
    assert_eq!(mem.get16(0x20000 + 0xfc), Some(0x1000));
    assert_eq!(mem.get16(0x20000 + 0xfe), Some(0x0203));

    assert_eq!(core.iret(&mut mem, Db::Protected16), Ok(()));
    assert_eq!(core.cpu.ip, 0x125);
    assert_eq!(core.cpu.cs.selector, 0x1000);
    assert_eq!(core.cpu.sp, 0x100);
    assert!(core.cpu.flags.if_ && core.cpu.flags.cf);
}

#[test]
fn interrupt_without_memory_is_fatal() {
    let mut core = real_mode_core();
    let mut mem = Memory::new(0x10);
    let r = core.enter_interrupt(&mut mem, Interrupt::HardwareInterrupt(8));
    assert_eq!(r, Err(Fault::Fatal(Fatal::Unreadable)));
}

const GDT: u32 = 0x1000;
const IDT: u32 = 0x2000;
const TSS: u32 = 0x3000;

fn put64(mem: &mut Memory, addr: u64, v: u64) {
    assert!(mem.put32(addr, v as u32));
    assert!(mem.put32(addr + 4, (v >> 32) as u32));
}

/// Flat segments: code and data of rings 0 and 3.
fn protected_machine(level: u16) -> (Core, Memory) {
    let mut mem = Memory::new(0x20000);
    put64(&mut mem, GDT as u64 + 0x08, 0x00CF_9A00_0000_FFFF);
    put64(&mut mem, GDT as u64 + 0x10, 0x00CF_9200_0000_FFFF);
    put64(&mut mem, GDT as u64 + 0x18, 0x00CF_FA00_0000_FFFF);
    put64(&mut mem, GDT as u64 + 0x20, 0x00CF_F200_0000_FFFF);
    let mut cpu = State::default();
    cpu.gdt = Table { base: GDT, limit: 0x27 };
    cpu.idt = Table { base: IDT, limit: 0x7ff };
    cpu.tss = Table { base: TSS, limit: 0x67 };
    let (cs, ss) = if level == 3 { (0x1b, 0x23) } else { (0x08, 0x10) };
    let flat = AccessRights { access_byte: 0x93, flags: 0xc, real_mode: false };
    cpu.cs = Segment { selector: cs, base: 0, limit: 0xffff_ffff, ar: flat };
    cpu.ss = Segment { selector: ss, base: 0, limit: 0xffff_ffff, ar: flat };
    cpu.cpl = if level == 3 { 0x103 } else { 0 };
    cpu.sp = 0x8000;
    cpu.ip = 0x1234;
    cpu.flags.if_ = true;
    assert!(mem.put32(TSS as u64 + 4, 0x9000));
    assert!(mem.put16(TSS as u64 + 8, 0x10));
    let core = Core {
        cpu,
        op_size: Db::Protected32,
        segment_sizes: SegmentSizes::Cs32Ss32,
        protected_mode: true,
    };
    (core, mem)
}

fn put_gate(mem: &mut Memory, n: u64, selector: u64, offset: u64, access: u64) {
    let v = (offset & 0xffff) | (selector << 16) | (access << 40) | ((offset >> 16) << 48);
    put64(mem, IDT as u64 + n * 8, v);
}

#[test]
fn interrupt_changes_to_the_inner_stack() {
    let (mut core, mut mem) = protected_machine(3);
    put_gate(&mut mem, 0x80, 0x08, 0x0001_4000, 0xEE);
    let int = Interrupt::SoftwareInterrupt { vector: 0x80, pc_increment: 2 };
    assert_eq!(core.enter_interrupt(&mut mem, int), Ok(()));
    assert_eq!(core.cpu.cs.selector, 0x08);
    assert_eq!(core.cpu.ss.selector, 0x10);
    assert_eq!(core.cpu.cpl, 0);
    assert_eq!(core.cpu.ip, 0x0001_4000);
    assert_eq!(core.cpu.sp, 0x9000 - 20);
    assert_eq!(mem.get32(0x9000 - 4), Some(0x23));
    assert_eq!(mem.get32(0x9000 - 8), Some(0x8000));
    assert_eq!(mem.get32(0x9000 - 12), Some(0x202));
    assert_eq!(mem.get32(0x9000 - 16), Some(0x1b));
    assert_eq!(mem.get32(0x9000 - 20), Some(0x1236));
    // The segments are marked as used.
    assert_eq!(mem.get8(GDT as u64 + 0x08 + 5), Some(0x9b));
    assert_eq!(mem.get8(GDT as u64 + 0x10 + 5), Some(0x93));

    assert_eq!(core.iret(&mut mem, Db::Protected32), Ok(()));
    assert_eq!(core.cpu.cs.selector, 0x1b);
    assert_eq!(core.cpu.ss.selector, 0x23);
    assert_eq!(core.cpu.sp, 0x8000);
    assert_eq!(core.cpu.ip, 0x1236);
    assert_eq!(core.cpu.cpl, 0x103);
    assert!(core.cpu.flags.if_);
}

#[test]
fn page_fault_pushes_its_code() {
    let (mut core, mut mem) = protected_machine(0);
    put_gate(&mut mem, 14, 0x08, 0x4000, 0x8F);
    let fault = Exception::PageFault { address: 0xdead, code: 5 };
    assert_eq!(core.enter_interrupt(&mut mem, Interrupt::Exception(fault)), Ok(()));
    assert_eq!(core.cpu.cr2, 0xdead);
    assert_eq!(core.cpu.sp, 0x8000 - 16);
    assert_eq!(mem.get32(0x8000 - 16), Some(5));
    assert_eq!(mem.get32(0x8000 - 4), Some(0x1_0202));
    // A trap gate keeps the interrupt flag.
    assert!(core.cpu.flags.if_ && !core.cpu.flags.rf);
}

#[test]
fn return_undoes_protected_interrupt() {
    let (mut core, mut mem) = protected_machine(0);
    core.cpu.flags.of = true;
    core.cpu.flags.id = true;
    core.cpu.iopl = 3;
    put_gate(&mut mem, 0x20, 0x08, 0x4000, 0x8E);
    assert_eq!(core.enter_interrupt(&mut mem, Interrupt::HardwareInterrupt(0x20)), Ok(()));
    assert_eq!((core.cpu.sp, core.cpu.ip), (0x8000 - 12, 0x4000));
    core.cpu.flags.of = false;
    core.cpu.flags.id = false;
    assert_eq!(core.iret(&mut mem, Db::Protected32), Ok(()));
    assert_eq!((core.cpu.sp, core.cpu.ip, core.cpu.cs.selector), (0x8000, 0x1234, 0x08));
    assert!(core.cpu.flags.of && core.cpu.flags.id && core.cpu.flags.if_);
    assert_eq!(core.cpu.iopl, 3);
}

#[test]
fn gates_refuse_interrupts() {
    let (mut core, mut mem) = protected_machine(3);
    let int = Interrupt::SoftwareInterrupt { vector: 0x80, pc_increment: 2 };
    assert_eq!(
        core.enter_interrupt(&mut mem, int),
        Err(Fault::Fatal(Fatal::GateNotPresent))
    );
    put_gate(&mut mem, 0x80, 0x08, 0x4000, 0x8E);
    assert_eq!(
        core.enter_interrupt(&mut mem, int),
        Err(Fault::Exception(Exception::GeneralProtectionFault(0x402)))
    );
    put_gate(&mut mem, 0x80, 0x08, 0x4000, 0xE5);
    assert_eq!(core.enter_interrupt(&mut mem, int), Err(Fault::Fatal(Fatal::TaskGate)));
    put_gate(&mut mem, 0x80, 0x80, 0x4000, 0xEE);
    assert_eq!(
        core.enter_interrupt(&mut mem, int),
        Err(Fault::Exception(Exception::SegmentNotPresent(0x10)))
    );
    core.cpu.idt.limit = 0x3ff;
    assert_eq!(core.enter_interrupt(&mut mem, int), Err(Fault::Fatal(Fatal::TableTooShort)));
}

#[test]
fn inner_code_without_stack_is_fatal() {
    let (mut core, mut mem) = protected_machine(3);
    put_gate(&mut mem, 0x80, 0x0b, 0x4000, 0xEE);
    let int = Interrupt::SoftwareInterrupt { vector: 0x80, pc_increment: 2 };
    assert_eq!(core.enter_interrupt(&mut mem, int), Err(Fault::Fatal(Fatal::NoStack)));
}

#[test]
fn return_checks_its_target() {
    let frame = |mem: &mut Memory, cs: u32| {
        assert!(mem.put32(0x8000, 0x4000));
        assert!(mem.put32(0x8004, cs));
        assert!(mem.put32(0x8008, 2));
    };
    let gp = |code: u16| Err(Fault::Exception(Exception::GeneralProtectionFault(code)));
    for (cs, result) in [(0, gp(0)), (0x10, gp(0x10)), (0x0b, gp(0x08)), (0x08, Ok(()))] {
        let (mut core, mut mem) = protected_machine(0);
        frame(&mut mem, cs);
        assert_eq!(core.iret(&mut mem, Db::Protected32), result);
    }
    let (mut core, mut mem) = protected_machine(3);
    frame(&mut mem, 0x08);
    assert_eq!(core.iret(&mut mem, Db::Protected32), gp(0x08));
}

#[test]
fn return_to_virtual_mode_loads_all_segments() {
    let (mut core, mut mem) = protected_machine(0);
    let frame = [0x10u32, 0x2000, 0x2_0002, 0xfffe, 0x3000, 0x4000, 0x5000, 0x6000, 0x7000];
    for (i, v) in frame.iter().enumerate() {
        assert!(mem.put32(0x8000 + 4 * i as u64, *v));
    }
    assert_eq!(core.iret(&mut mem, Db::Protected32), Ok(()));
    assert!(core.cpu.flags.vm);
    assert_eq!(core.cpu.cs.base, 0x2_0000);
    assert_eq!(core.cpu.ss.base, 0x3_0000);
    assert_eq!(core.cpu.es.base, 0x4_0000);
    assert_eq!(core.cpu.ds.base, 0x5_0000);
    assert_eq!(core.cpu.fs.base, 0x6_0000);
    assert_eq!(core.cpu.gs.base, 0x7_0000);
    assert_eq!(core.cpu.sp, 0xfffe);
    assert_eq!(core.cpu.cpl, 0x103);
    assert_eq!(core.segment_sizes, SegmentSizes::Cs16Ss16);

    // An interrupt leaves the mode again and saves the segments.
    put_gate(&mut mem, 0x20, 0x08, 0x4000, 0x8E);
    core.cpu.sp = 0x100;
    assert_eq!(core.enter_interrupt(&mut mem, Interrupt::HardwareInterrupt(0x20)), Ok(()));
    assert!(!core.cpu.flags.vm);
    assert_eq!(core.cpu.sp, 0x9000 - 36);
    assert_eq!(mem.get32(0x9000 - 4), Some(0x7000));
    assert_eq!(mem.get32(0x9000 - 16), Some(0x4000));
    assert_eq!(mem.get32(0x9000 - 20), Some(0x3000));
    assert_eq!(core.cpu.ds.selector, 0);
}

#[test]
fn stack_wraps_in_its_segment() {
    let mut cpu = State::default();
    cpu.ss = real_segment(0x100);
    cpu.sp = 0x5555_0000;
    let mut mem = Memory::new(0x20000);
    let mut t = StackTransaction::new(Db::Protected16, Db::Protected16, &cpu);
    assert!(t.push(&mut mem, 0x1_2345));
    assert_eq!(t.esp, 0x5555_fffe);
    assert_eq!(mem.get16(0x1000 + 0xfffe), Some(0x2345));
    assert_eq!(t.pop(&mem), Some(0x2345));
    assert_eq!(t.esp, 0x5555_0000);
    t.commit(&mut cpu);
    assert_eq!(cpu.sp, 0x5555_0000);
    let mut outside = StackTransaction::new(Db::Protected32, Db::Protected32, &cpu);
    assert_eq!(outside.pop(&mem), None);
    assert!(!outside.push(&mut mem, 1));
}

#[test]
fn descriptors_are_decoded() {
    let d = Descriptor::from_value(0x12CF_9A34_5678_FFFF);
    assert_eq!(d, Descriptor { base: 0x1234_5678, limit: 0xf_ffff, access_byte: 0x9a, flags: 0xc });
    assert_eq!(d.size(), Db::Protected32);
    assert_eq!(d.effective_limit_taking_direction_into_account(), 0xffff_ffff);
    let down = Descriptor { base: 0, limit: 0xfff, access_byte: 0x96, flags: 0 };
    assert_eq!(down.effective_limit_taking_direction_into_account(), 0xefff);
    let g = GateDescriptor::from_value(0x1234_8E00_0008_5678);
    assert_eq!(g.offset, 0x1234_5678);
    assert_eq!(g.segment_selector, 8);
    assert_eq!(g.gate_type(), GateType::Interrupt);
    let s = SegmentSelector { value: 0x001f };
    assert_eq!((s.segment_index(), s.is_local(), s.rpl(), s.is_null()), (3, true, 3, false));
}

#[test]
fn instructions_read_descriptors() {
    let (core, mut mem) = protected_machine(3);
    let mut ctx = ExecutionContext::new();
    let r = ctx.read_descriptor(&core, &mut mem, false, true, 0x23).unwrap();
    assert!(r.ok);
    assert_eq!(r.limit, 0xffff_ffff);
    assert_eq!(mem.get8(GDT as u64 + 0x20 + 5), Some(0xf3));
    // A segment of ring 0 is not visible, nor is one outside the table.
    assert!(!ctx.read_descriptor(&core, &mut mem, false, true, 0x10).unwrap().ok);
    assert!(!ctx.read_descriptor(&core, &mut mem, false, true, 0x80).unwrap().ok);
    let null = ctx.read_descriptor(&core, &mut mem, false, true, 0).unwrap();
    assert!(null.ok && null.limit == 0 && null.access_rights.access_byte == 0x90);
    assert_eq!(ctx.num_descriptors_read, 4);
    let mut lost = core;
    lost.cpu.gdt.base = 0xffff_0000;
    assert_eq!(
        ctx.read_descriptor(&lost, &mut mem, false, true, 0x23),
        Err(Exception::PageFault { address: 0xffff_0020, code: 0 })
    );
    let real = real_mode_core();
    let r = ctx.read_descriptor(&real, &mut mem, false, true, 0x1234).unwrap();
    assert_eq!((r.base, r.limit, r.access_rights.real_mode), (0x12340, 0xffff, true));
}

#[test]
fn ports_need_permission() {
    let (core, mut mem) = protected_machine(3);
    let mut ctx = ExecutionContext::new();
    assert!(mem.put16(TSS as u64 + 102, 104));
    // The map lies behind the task.
    let r = ctx.port_in(&core, &mem, &None, 0x60, 1, || 0x55);
    assert_eq!(r, Err(PortStop::Exception(Exception::GeneralProtectionFault(0))));
    let mut wide = core;
    wide.cpu.tss.limit = 0x2fff;
    assert_eq!(ctx.port_in(&wide, &mem, &None, 0x60, 1, || 0x1_0055), Ok(0x55));
    assert!(mem.put8(TSS as u64 + 104 + 12, 0x02));
    assert_eq!(ctx.port_in(&wide, &mem, &None, 0x60, 1, || 0x55), Ok(0x55));
    assert_eq!(
        ctx.port_in(&wide, &mem, &None, 0x60, 2, || 0x55),
        Err(PortStop::Exception(Exception::GeneralProtectionFault(0)))
    );
    let mut far = wide;
    far.cpu.tss.base = 0xffff_0000;
    assert_eq!(
        ctx.port_in(&far, &mem, &None, 0x60, 1, || 0x55),
        Err(PortStop::Fatal(Fatal::Unreadable))
    );
    assert_eq!(ctx.num_port_ins, 5);
    let (kernel, _) = protected_machine(0);
    let mut written = false;
    assert_eq!(
        ctx.port_out(&kernel, &mem, &None, 0x60, 1, 3, || {
            written = true;
        }),
        Ok(())
    );
    assert!(written);
}

#[test]
fn traces_decide_port_values() {
    let core = real_mode_core();
    let mem = Memory::new(0);
    let mut ctx = ExecutionContext::new();
    let entry = Some(TraceEntry::In(PortTrace { port: 0x40, len: 1, value: 0x77 }));
    assert_eq!(ctx.port_in(&core, &mem, &entry, 0x40, 1, || 0x11), Ok(0x77));
    assert_eq!(
        ctx.port_in(&core, &mem, &entry, 0x41, 1, || 0x11),
        Err(PortStop::Trace(PortTraceError::OtherPort))
    );
    assert_eq!(
        ctx.port_in(&core, &mem, &entry, 0x40, 2, || 0x11),
        Err(PortStop::Trace(PortTraceError::OtherLength))
    );
    assert_eq!(
        ctx.port_out(&core, &mem, &entry, 0x40, 1, 1, || ()),
        Err(PortStop::Trace(PortTraceError::OtherEntry))
    );
    let out = Some(TraceEntry::Out(PortTrace { port: 0x40, len: 1, value: 0x77 }));
    assert_eq!(ctx.port_out(&core, &mem, &out, 0x40, 1, 0x77, || ()), Ok(()));
    assert_eq!(
        ctx.port_out(&core, &mem, &out, 0x40, 1, 0x78, || ()),
        Err(PortStop::Trace(PortTraceError::OtherValue))
    );
}

#[test]
fn virtual_mode_interrupts_can_be_redirected() {
    let (core, mut mem) = protected_machine(3);
    let ctx = ExecutionContext::new();
    assert!(mem.put16(TSS as u64 + 102, 20));
    assert_eq!(
        ctx.software_interrupt_is_redirected(&core.cpu, &mem, 9),
        Err(Fatal::NoBitmap)
    );
    assert!(mem.put16(TSS as u64 + 102, 104));
    assert_eq!(ctx.software_interrupt_is_redirected(&core.cpu, &mem, 9), Ok(true));
    assert!(mem.put8(TSS as u64 + 72 + 1, 0x02));
    assert_eq!(ctx.software_interrupt_is_redirected(&core.cpu, &mem, 9), Ok(false));
}

#[test]
fn page_code_is_counted() {
    let mut ctx = ExecutionContext::new();
    ctx.k = 1000;
    ctx.jit_k = 7;
    ctx.begin_page();
    ctx.k += 30;
    ctx.end_page();
    assert_eq!(ctx.jit_k, 37);
}

fn processor() -> Processor {
    Emulator::new(State::default(), 0).processor
}

fn hardware() -> Hw {
    Hw::new(Intr::new(), vec![DiskData::from_mem(vec![0; 720 * 1024])], 0x100_0000)
}

fn handle(p: &mut Processor, id: HandlerId, args: Vec<u32>) -> Result<Effect, Stop> {
    let mut mem = Memory::new(0x1000);
    p.execute_handler(&mut mem, &mut hardware(), 800, id, &args)
}

#[test]
fn handlers_identify_the_processor() {
    let mut p = processor();
    assert_eq!(handle(&mut p, HandlerId::Cpuid, vec![0, 0]), Ok(Effect::Nothing));
    let cpu = p.core.cpu;
    assert_eq!((cpu.ax, cpu.bx, cpu.cx, cpu.dx), (1, 0x756E6547, 0x6C65746E, 0x49656E69));
    assert_eq!(handle(&mut p, HandlerId::Cpuid, vec![1, 0]), Ok(Effect::Nothing));
    assert_eq!((p.core.cpu.ax, p.core.cpu.dx), (0x634, 0x2C1FD));
    assert_eq!(handle(&mut p, HandlerId::Cpuid, vec![0x8000_0008, 0]), Ok(Effect::Nothing));
    assert_eq!((p.core.cpu.ax, p.core.cpu.bx), (0x3028, 0x200));
    assert_eq!(handle(&mut p, HandlerId::Cpuid, vec![77, 0]), Ok(Effect::Nothing));
    assert_eq!((p.core.cpu.ax, p.core.cpu.bx), (0x3028, 0x200));
}

#[test]
fn handlers_write_control_registers() {
    let mut p = processor();
    assert_eq!(handle(&mut p, HandlerId::WriteCr, vec![0, 0x8001_0001]), Ok(Effect::Nothing));
    assert!(p.core.protected_mode && p.paging_enabled);
    assert!(p.mapping.paging && p.mapping.system_write_protect);
    assert_eq!(
        handle(&mut p, HandlerId::WriteCr, vec![3, 0x5000]),
        Ok(Effect::AllMappingsUpdated)
    );
    assert_eq!((p.mapping.page_directory_base, p.num_cr3_changes, p.num_cr3_reloads), (0x5000, 1, 0));
    assert_eq!(
        handle(&mut p, HandlerId::WriteCr, vec![3, 0x5000]),
        Ok(Effect::AllMappingsUpdated)
    );
    assert_eq!((p.num_cr3_changes, p.num_cr3_reloads), (1, 1));
    assert_eq!(handle(&mut p, HandlerId::WriteCr, vec![4, 0x30]), Ok(Effect::Nothing));
    assert!(p.mapping.page_size_extension && p.mapping.physical_address_extension);
    assert_eq!(handle(&mut p, HandlerId::WriteCr, vec![2, 9]), Ok(Effect::Nothing));
    assert_eq!(p.core.cpu.cr2, 9);
    assert_eq!(
        handle(&mut p, HandlerId::InvalidatePage, vec![0x7123]),
        Ok(Effect::PageInvalidated(0x7123))
    );
}

#[test]
fn handlers_stop_the_stream() {
    let mut p = processor();
    assert_eq!(
        handle(&mut p, HandlerId::Int, vec![0x21, 2]),
        Err(Stop::Interrupt(Interrupt::SoftwareInterrupt { vector: 0x21, pc_increment: 2 }))
    );
    p.core.protected_mode = true;
    p.core.cpu.flags.vm = true;
    assert_eq!(
        handle(&mut p, HandlerId::Int, vec![0x21, 2]),
        Err(Stop::Interrupt(Interrupt::Exception(Exception::GeneralProtectionFault(0x10a))))
    );
    p.core.cpu.cr4 = 1;
    assert_eq!(
        handle(&mut p, HandlerId::Int, vec![0x21, 2]),
        Err(Stop::Fatal(Fatal::NoBitmap))
    );
    assert_eq!(handle(&mut p, HandlerId::Halt, vec![]), Ok(Effect::Nothing));
    assert!(p.is_halted);
}

#[test]
fn handlers_follow_the_code_segment() {
    let mut p = processor();
    p.core.cpu.cs.ar.flags = 4;
    p.core.cpu.cs.selector = 0x1b;
    assert_eq!(handle(&mut p, HandlerId::CsUpdated, vec![]), Ok(Effect::Nothing));
    assert_eq!((p.core.op_size, p.core.cpu.cpl), (Db::Protected16, 0));
    assert_eq!(p.core.segment_sizes, SegmentSizes::Cs32Ss16);
    p.core.protected_mode = true;
    assert_eq!(handle(&mut p, HandlerId::CsUpdated, vec![]), Ok(Effect::Nothing));
    assert_eq!((p.core.op_size, p.core.cpu.cpl), (Db::Protected32, 0x103));
    p.core.cpu.ss.ar.flags = 4;
    assert_eq!(handle(&mut p, HandlerId::SsUpdated, vec![]), Ok(Effect::Nothing));
    assert_eq!(p.core.segment_sizes, SegmentSizes::Cs32Ss32);
}

#[test]
fn handlers_reach_model_specific_registers() {
    let mut p = processor();
    assert_eq!(handle(&mut p, HandlerId::Rdmsr, vec![0x10]), Ok(Effect::Nothing));
    assert_eq!((p.core.cpu.ax, p.core.cpu.dx), (100, 0));
    let mut cpu = p.core.cpu;
    cpu.cx = 0x175;
    cpu.dx = 1;
    cpu.ax = 2;
    p.core.cpu = cpu;
    assert_eq!(handle(&mut p, HandlerId::Wrmsr, vec![]), Ok(Effect::Nothing));
    assert_eq!(p.sysenter.sp, 0x1_0000_0002);
    p.core.cpu.cx = 0x1b;
    p.core.cpu.ax = 0xFEE0_0000;
    p.core.cpu.dx = 0;
    assert_eq!(handle(&mut p, HandlerId::Wrmsr, vec![]), Ok(Effect::ApicUnmapped(0xFEE0_0000)));
}

#[test]
fn results_are_inspected() {
    let mut p = processor();
    let mut mem = Memory::new(0);
    let mut hw = hardware();
    let done = p.inspect_result(&mut mem, &mut hw, 0, &ExecResult::Done, true);
    assert_eq!(done, Ok(Effect::Nothing));
    assert!(!p.core.cpu.flags.rf);
    let e = ExecResult::Exception(Exception::DivideError);
    let r = p.inspect_result(&mut mem, &mut hw, 0, &e, true);
    assert_eq!(r, Err(Stop::Interrupt(Interrupt::Exception(Exception::DivideError))));
    assert!(p.core.cpu.flags.rf);
}

fn trace_segment() -> SegmentTrace {
    SegmentTrace { value: 0x10, cached_base: 0x100 }
}

fn trace_instr(bytes: Vec<u8>, eip: u32) -> InstrTrace {
    InstrTrace {
        bytes,
        eax: 1,
        ebx: 2,
        ecx: 3,
        edx: 4,
        esi: 5,
        edi: 6,
        esp: 7,
        ebp: 8,
        eip,
        cs: trace_segment(),
        ds: trace_segment(),
        es: trace_segment(),
        ss: trace_segment(),
        fs: trace_segment(),
        gs: trace_segment(),
        gdtr: Table { base: 9, limit: 10 },
        idtr: Table { base: 11, limit: 12 },
        ldtr: trace_segment(),
        tr: trace_segment(),
        eflags: 0x3202,
        cr2: 0,
        cr3: 0,
        mm: [1, 2, 3, 4, 5, 6, 7, 8],
        fsw: 0x2801,
    }
}

fn tracing() -> TraceState {
    TraceState {
        next_expected_interrupt: None,
        trace_triggered_interrupt: None,
        trace_limit: 100,
    }
}

#[test]
fn traces_correct_the_processor() {
    let entries = vec![
        TraceEntry::Instr(trace_instr(vec![0x90], 0x33)),
        TraceEntry::MemAssert(MemAssert { paddr: 4, laddr: 4, data: vec![0xaa, 0xbb] }),
        TraceEntry::Int(0x20),
        TraceEntry::Instr(trace_instr(vec![0x91], 0x34)),
    ];
    let mut trace = TraceReader { entries, pos: 0 };
    let mut state = tracing();
    let mut cpu = State::default();
    cpu.x87.exception_flags = 0x100;
    let mut mem = Memory::new(16);
    let r = check_trace(
        &mut trace, &mut state, &mut cpu, &mut mem, 5, &vec![0x90], true, &vec![0x20],
    );
    assert_eq!(r, TraceOutcome::Interrupt(0x20));
    assert_eq!(trace.pos, 3);
    assert_eq!((cpu.ax, cpu.ip, cpu.cs.base, cpu.gdt.limit), (1, 0x33, 0x100, 10));
    assert_eq!((cpu.iopl, cpu.flags.if_, cpu.flags.rf), (3, true, true));
    assert_eq!((cpu.x87.top, cpu.x87.exception_flags, cpu.x87.mm[7]), (5, 0x101, 8));
    assert_eq!(mem.get16(4), Some(0xbbaa));
    assert_eq!(state.trace_triggered_interrupt, Some(0x20));
    assert_eq!(state.next_expected_interrupt, Some(0x20));
}

fn check_one(entries: Vec<TraceEntry>, instr: Vec<u8>, k: u64) -> TraceOutcome {
    let mut trace = TraceReader { entries, pos: 0 };
    let mut cpu = State::default();
    let mut mem = Memory::new(16);
    check_trace(&mut trace, &mut tracing(), &mut cpu, &mut mem, k, &instr, false, &vec![])
}

#[test]
fn traces_show_deviations() {
    let at = |bytes: Vec<u8>, eip| vec![TraceEntry::Instr(trace_instr(bytes, eip))];
    assert_eq!(check_one(at(vec![0x90], 0), vec![0x90], 5), TraceOutcome::Continue);
    assert_eq!(check_one(at(vec![0x90], 0), vec![0x90], 101), TraceOutcome::Disengaged);
    assert_eq!(check_one(vec![], vec![0x90], 5), TraceOutcome::Disengaged);
    assert_eq!(check_one(at(vec![0x9b], 0), vec![0x90], 5), TraceOutcome::Disengaged);
    assert_eq!(
        check_one(at(vec![0x91], 7), vec![0x90], 5),
        TraceOutcome::Deviated(Deviation::OtherAddress)
    );
    assert_eq!(
        check_one(at(vec![0x91], 0), vec![0x90], 5),
        TraceOutcome::Deviated(Deviation::OtherInstruction)
    );
    let mut other = trace_instr(vec![0x90], 0);
    other.cr3 = 1;
    assert_eq!(
        check_one(vec![TraceEntry::Instr(other)], vec![0x90], 5),
        TraceOutcome::Deviated(Deviation::OtherPageDirectory)
    );
    let far = MemAssert { paddr: 15, laddr: 15, data: vec![0, 0] };
    assert_eq!(
        check_one(vec![TraceEntry::MemAssert(far)], vec![0x90], 5),
        TraceOutcome::Deviated(Deviation::Unreadable)
    );
    let port = PortTrace { port: 1, len: 1, value: 1 };
    assert_eq!(
        check_one(vec![TraceEntry::In(port)], vec![0x90], 5),
        TraceOutcome::Deviated(Deviation::UnusedPortAccess)
    );
}

#[test]
fn external_interrupts_are_listed() {
    let list = external_interrupts((0x08, 0x70), &vec![0x55; 24]);
    assert_eq!(list.len(), 11 + 24 + 8);
    assert_eq!(&list[..11], &[8, 9, 12, 14, 15, 0x70, 0x71, 0x73, 0x74, 0x76, 0x77]);
    assert_eq!(list[42], 0xC1);
}

const WORKED: RunEvent =
    RunEvent::Worked { trace: false, interrupts_enabled: true, pending: false };

fn observed(k: u64) -> RunEvent {
    RunEvent::Observed { k }
}

#[test]
fn run_loop_serves_interrupts() {
    let mut run = RunLoop::new(Some(10), true, false);
    assert_eq!(run.step(observed(3)), RunAction::PeriodicWork);
    assert_eq!(run.step(WORKED), RunAction::Emulate { is_entry: true });
    let event = RunEvent::Emulated { result: Ok(true), halted: true };
    assert_eq!(run.step(event), RunAction::Update);
    assert_eq!(run.step(RunEvent::Updated { stop: false }), RunAction::AskHooks);
    let asked = |pending| RunEvent::Asked {
        discard: false,
        pending,
        interrupt_flag: true,
        trace: false,
        interrupts_enabled: true,
    };
    assert_eq!(run.step(asked(false)), RunAction::Measure);
    assert_eq!(run.step(RunEvent::Measured), RunAction::Observe);
    // The processor is halted until an interrupt comes.
    assert_eq!(run.step(observed(4)), RunAction::PeriodicWork);
    assert_eq!(run.step(WORKED), RunAction::Wait);
    assert_eq!(run.step(RunEvent::Waited { stop: false, pending: false }), RunAction::Wait);
    assert_eq!(run.step(RunEvent::Waited { stop: false, pending: true }), RunAction::Update);
    assert_eq!(run.step(RunEvent::Updated { stop: false }), RunAction::AskHooks);
    assert_eq!(run.step(asked(true)), RunAction::Service);
    assert_eq!(
        run.step(RunEvent::Offered(Some(8))),
        RunAction::Enter(Interrupt::HardwareInterrupt(8))
    );
    assert_eq!(run.step(RunEvent::Entered(Ok(()))), RunAction::Measure);
    assert_eq!(run.step(RunEvent::Measured), RunAction::Observe);
    assert_eq!(run.step(observed(5)), RunAction::PeriodicWork);
    assert_eq!(run.step(WORKED), RunAction::Emulate { is_entry: false });
    let fe = Interrupt::SoftwareInterrupt { vector: 0xfe, pc_increment: 2 };
    let event = RunEvent::Emulated { result: Err(fe), halted: false };
    assert_eq!(run.step(event), RunAction::Return(true));
}

#[test]
fn run_loop_enters_faults() {
    let mut run = RunLoop::new(None, false, true);
    assert_eq!(run.step(observed(3)), RunAction::PeriodicWork);
    assert_eq!(run.step(WORKED), RunAction::Emulate { is_entry: true });
    let int = Interrupt::SoftwareInterrupt { vector: 0x21, pc_increment: 2 };
    let event = RunEvent::Emulated { result: Err(int), halted: false };
    assert_eq!(run.step(event), RunAction::Enter(int));
    assert_eq!(run.step(RunEvent::Entered(Ok(()))), RunAction::CheckTrace(0x21));
    let from_trace = Interrupt::HardwareInterrupt(9);
    assert_eq!(run.step(RunEvent::Traced(Some(from_trace))), RunAction::Enter(from_trace));
    assert_eq!(run.step(RunEvent::Entered(Err(Exception::Debug))), RunAction::Abort);

    let mut limited = RunLoop::new(Some(3), false, false);
    assert_eq!(limited.step(observed(3)), RunAction::Return(true));
}

#[test]
fn emulation_loop_runs_entries() {
    let quiet = EmulationEvent::Interrupts {
        pending: true,
        interrupt_flag: false,
        hooks_accept: true,
        interrupts_enabled: true,
    };
    let loud = EmulationEvent::Interrupts {
        pending: true,
        interrupt_flag: true,
        hooks_accept: true,
        interrupts_enabled: true,
    };
    let mut inner = EmulationLoop::new(true);
    assert_eq!(inner.step(quiet), EmulationAction::LookUp { is_entry: true });
    let id = CacheEntryId(5);
    assert_eq!(inner.step(EmulationEvent::Found(Ok(id))), EmulationAction::Execute(id));
    let ran = EmulationEvent::RanSingle { can_continue: false, jump_taken: true };
    assert_eq!(
        inner.step(ran),
        EmulationAction::Inspect { last: Some(id), clear_rf: true }
    );
    assert_eq!(
        inner.step(EmulationEvent::Inspected { result: Ok(()), halt: false }),
        EmulationAction::AfterExecute { id, clear_rf: false }
    );
    assert_eq!(
        inner.step(EmulationEvent::Hooked(Ok(true))),
        EmulationAction::LookUpNext { id, is_entry: true, jump_taken: true }
    );
    let next = CacheEntryId(6);
    assert_eq!(inner.step(EmulationEvent::Found(Ok(next))), EmulationAction::CheckInterrupts);
    assert_eq!(inner.step(quiet), EmulationAction::Execute(next));
    let replaced = EmulationEvent::RanPage { exit: None, can_continue: true, jump_taken: false };
    assert_eq!(inner.step(replaced), EmulationAction::LookUp { is_entry: false });
    let fault = Interrupt::Exception(Exception::InvalidOpcode);
    assert_eq!(
        inner.step(EmulationEvent::Found(Err(fault))),
        EmulationAction::Leave(Err(fault))
    );
    let mut pending = EmulationLoop::new(false);
    assert_eq!(pending.step(loud), EmulationAction::Leave(Ok(false)));
}

#[test]
fn states_have_codes() {
    let states = [
        EmulatorState::Other,
        EmulatorState::CacheLookupFirst(LookupProgress(7)),
        EmulatorState::InvokeHandler(HandlerId::Wrmsr),
        EmulatorState::MakeChains,
    ];
    assert_eq!(states[1].encode(), 0x702);
    assert_eq!(states[2].encode(), 0x909);
    for s in states {
        assert_eq!(EmulatorState::decode(s.encode()), s);
    }
}

#[test]
fn hooks_watch_instructions() {
    let mut cpu = State::default();
    cpu.cs.base = 0xffff_fff0;
    cpu.ip = 0x20;
    let mut check = CheckTrace::new();
    check.before_execute(&cpu);
    assert_eq!(check.pc, 0x10);
    let mut expected = Some(0xe);
    assert!(CheckTrace::take_expected(&mut expected));
    assert_eq!(expected, None);
    assert!(check.needs(false).can_be_discarded && !check.needs(true).can_halt);

    let mut path = Path::new();
    for n in 0..40 {
        cpu.ip = n;
        TrackPath.before_execute(&mut path, &cpu, vec![0x90]);
    }
    assert_eq!(path.len(), 32);
    assert_eq!(path.address(0), 0xffff_fff8);

    let mut dirty = DirtyTracker { num_dirty_before: 0 };
    dirty.before_execute(4);
    assert!(!dirty.after_execute(4) && dirty.after_execute(5));

    assert!(StopAt::new(5).after_execute(4) && !StopAt::new(5).after_execute(5));

    let mut mem = MemTrace::new_lin(0x1234);
    assert!(!mem.physical && MemTrace::new_phys(1).physical);
    assert!(!mem.after_execute(&vec![], 1000));
    assert!(mem.after_execute(&vec![], 1001));
    assert_eq!(mem.last_k, 1001);
    assert!(mem.after_execute(&vec![11_002], 1002));

    let mut clock = SyncClock::new(SynchronousClock { now: 5 });
    clock.after_execute();
    assert!(clock.halt());
    assert_eq!(clock.clock.now, 205);

    let watcher = HookNeeds::watcher();
    assert_eq!(EnableProfiler.needs(), HookNeeds::nothing());
    assert_eq!(
        PrintEveryInstr::new().needs(),
        HookNeeds { can_return_blocks: false, ..HookNeeds::watcher() }
    );
    let printing = Printer { print_at: 3, skip_print: false };
    assert!(!printing.needs().can_return_blocks);
    let early = Printer { print_at: 30_000, skip_print: true };
    assert_eq!(early.needs(), watcher);
    assert_eq!(StopAt::new(7).needs(), watcher);
    assert_eq!(HookNeeds::nothing().and(watcher), watcher);
}

#[test]
fn printer_waits_for_its_number() {
    let mut print_at = vec![100_000, 20_000];
    let mut p = Printer::new(&mut print_at, 5);
    assert_eq!((p.print_at, p.skip_print), (20_000, true));
    assert!(!p.before_execute(&mut print_at, 10_000));
    assert!(!p.skip_print);
    assert!(p.before_execute(&mut print_at, 10_001));
    assert!(p.after_execute(25_000) && !p.after_execute(25_001));
    let next = Printer::new(&mut print_at, 25_001);
    assert_eq!(print_at, vec![100_000]);
    assert_eq!(next.print_at, 20_000);
}

#[test]
fn executions_are_measured() {
    let mut m = MeasureSingleEncodingExecution::new();
    let mut counts = vec![0, 4];
    let mut durations = vec![0, 10];
    m.before_encoding_execution(&mut counts, 1, 100);
    m.after_encoding_execution(&mut durations, 1, 150);
    assert_eq!((counts[1], durations[1]), (5, 60));
    m.after_encoding_execution(&mut durations, 1, 50);
    m.after_encoding_execution(&mut durations, 1, 100 + 10_000_000_000);
    assert_eq!(durations[1], 60);
}

#[test]
fn cached_instructions_are_compared() {
    let c = CheckInstructionCacheConsistency;
    let instr = vec![0x90];
    assert_eq!(c.check(&instr, &None, true), CacheConsistency::Unreadable);
    assert_eq!(c.check(&instr, &Some(vec![0x90]), false), CacheConsistency::Undecodable);
    assert_eq!(c.check(&instr, &Some(vec![0x91]), true), CacheConsistency::Changed);
    assert_eq!(c.check(&instr, &Some(vec![0x90]), true), CacheConsistency::Consistent);
}

#[test]
fn emulators_start_in_real_mode() {
    let mut cpu = State::default();
    cpu.cs.selector = 0xf000;
    let mut ec = EmulatorContext::new(cpu, 3);
    let cpu = *ec.emulator.cpu();
    assert_eq!((cpu.cr0, cpu.cs.base, cpu.cs.limit), (0x6000_0010, 0xf_0000, 0xffff));
    assert!(cpu.cs.ar.real_mode);
    assert_eq!((cpu.gdt.limit, cpu.dr6, cpu.dr7), (0xffff, 0xFFFF_0FF0, 0x400));
    assert_eq!(ec.emulator.execution_counts, vec![0; 3]);
    ec.set_print_at(vec![3, 9, 5]);
    assert_eq!(ec.emulator.print_at, vec![9, 5, 3]);
    let plan = ec.plan_hooks(Some(7), false, false);
    assert!(plan.printer && plan.track_path && !plan.check_trace && plan.stop_at == Some(7));
    let early = Printer { print_at: 30_000, skip_print: true };
    assert_eq!(plan.needs(false, &early), HookNeeds::watcher());
    let traced = ec.plan_hooks(None, true, false).needs(true, &early);
    assert!(!traced.can_halt && !traced.can_return_blocks && !traced.can_accept_interrupts);
    assert!(!traced.can_be_discarded);
    ec.emulator.execution_counts = vec![4, 9, 4];
    assert_eq!(ec.emulator.most_executed_encodings(), vec![(1, 9), (0, 4), (2, 4)]);
    ec.emulator.execution_duration = vec![0, 0, 8];
    assert_eq!(ec.emulator.encodings_most_time_taken(), vec![(2, 8), (0, 0), (1, 0)]);
    ec.set_semantics(1);
    assert_eq!(ec.emulator.execution_counts, vec![0]);
}

#[test]
fn snapshots_bring_the_state_back() {
    let mut e = Emulator::new(State::default(), 0);
    e.processor.core.cpu.ax = 77;
    e.processor.core.cpu.cr0 = 0x8000_0001;
    e.trace_state.trace_limit = 50;
    e.ctx.k = 40;
    let mut mem = Memory::new(8);
    assert!(mem.put8(3, 9));
    let snapshot = e.snapshot(&mem, Some(12));
    e.processor.core.cpu.ax = 1;
    e.ctx.k = 60;
    assert!(mem.put8(3, 0));
    assert_eq!(e.restore(&mut mem, snapshot), RestoredTrace::GoesOn(12));
    assert_eq!((e.cpu().ax, e.ctx.k, mem.get8(3)), (77, 40, Some(9)));
    assert!(e.processor.core.protected_mode && e.processor.mapping.paging);
    let late = e.snapshot(&mem, Some(12));
    e.trace_state.trace_limit = 30;
    let untraced = e.snapshot(&mem, None);
    assert_eq!(e.restore(&mut mem, late), RestoredTrace::Dropped);
    // A state without a trace says nothing of the trace that is followed.
    assert_eq!(e.restore(&mut mem, untraced), RestoredTrace::Untouched);
}

#[test]
fn entered_interrupts_are_not_expected_any_more() {
    let mut e = Emulator::new(State::default(), 0);
    let mut mem = Memory::new(0x20000);
    e.trace_state.next_expected_interrupt = Some(8);
    e.processor.core.cpu.sp = 0x100;
    assert_eq!(e.enter_interrupt(&mut mem, Interrupt::HardwareInterrupt(8), true), Ok(()));
    assert_eq!(e.trace_state.next_expected_interrupt, None);
    assert_eq!(e.num_interrupts_entered, 1);
    let flags = e.build_context_flags();
    assert!(!flags.protected && !flags.userspace);
    assert_eq!(SegReg::Cs, SegReg::Cs);
}
