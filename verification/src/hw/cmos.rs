//! The CMOS memory with its real-time clock.
use vstd::arithmetic::power2::pow2;
use vstd::prelude::*;

use crate::bytes::{bit_at, weigh8, weight};
use crate::hw::bcd::{bcd_byte, IntoBcd};
use crate::hw::fdc::Fdc;
use crate::hw::pic::{still_accepts, DualIrqLine, IrqSystem};

verus! {

#[derive(Copy, Clone, Debug, PartialEq, Eq, Structural)]
pub enum DisketteType {
    Try360In360,
    Try360In12,
    Try12In12,
    Established360In360,
    Established360In12,
    Established12In12,
    Reserved,
    Other,
}

#[derive(Copy, Clone, Debug, PartialEq, Eq, Structural)]
pub enum DataRate {
    Rate500Kbps,
    Rate300Kbps,
    Rate250Kbps,
    Rate1Mbps,
}

#[derive(Copy, Clone, Debug, PartialEq, Eq, Structural)]
pub struct DisketteMediaState {
    pub ty: DisketteType,
    pub supports_4mb_media: bool,
    pub media_type_established: bool,
    pub double_stepping_required: bool,
    pub data_rate: DataRate,
}

impl DisketteMediaState {
    pub open spec fn value_spec(&self) -> int {
        (match self.ty {
            DisketteType::Try360In360 => 0int,
            DisketteType::Try360In12 => 1,
            DisketteType::Try12In12 => 2,
            DisketteType::Established360In360 => 3,
            DisketteType::Established360In12 => 4,
            DisketteType::Established12In12 => 5,
            DisketteType::Reserved => 6,
            DisketteType::Other => 7,
        }) + weight(self.supports_4mb_media, 8) + weight(self.media_type_established, 0x10)
            + weight(self.double_stepping_required, 0x20) + 0x40 * (match self.data_rate {
            DataRate::Rate500Kbps => 0int,
            DataRate::Rate300Kbps => 1,
            DataRate::Rate250Kbps => 2,
            DataRate::Rate1Mbps => 3,
        })
    }

    pub fn value(&self) -> (r: u8)
        ensures
            r == self.value_spec(),
    {
        let ty: u8 = match self.ty {
            DisketteType::Try360In360 => 0,
            DisketteType::Try360In12 => 1,
            DisketteType::Try12In12 => 2,
            DisketteType::Established360In360 => 3,
            DisketteType::Established360In12 => 4,
            DisketteType::Established12In12 => 5,
            DisketteType::Reserved => 6,
            DisketteType::Other => 7,
        };
        let rate: u8 = match self.data_rate {
            DataRate::Rate500Kbps => 0,
            DataRate::Rate300Kbps => 0x40,
            DataRate::Rate250Kbps => 0x80,
            DataRate::Rate1Mbps => 0xc0,
        };
        ty + weigh8(self.supports_4mb_media, 8) + weigh8(self.media_type_established, 0x10)
            + weigh8(self.double_stepping_required, 0x20) + rate
    }
}

impl Fdc {
    /// What the CMOS reports of the drive.
    pub fn cmos_media_state(&self) -> (r: DisketteMediaState)
        ensures
            r == (DisketteMediaState {
                ty: DisketteType::Established360In360,
                supports_4mb_media: false,
                media_type_established: false,
                double_stepping_required: false,
                data_rate: DataRate::Rate300Kbps,
            }),
    {
        DisketteMediaState {
            ty: DisketteType::Established360In360,
            supports_4mb_media: false,
            media_type_established: false,
            double_stepping_required: false,
            data_rate: DataRate::Rate300Kbps,
        }
    }
}

#[derive(Copy, Clone, Debug, PartialEq, Eq, Structural)]
pub enum DataMode {
    Bcd,
    Binary,
}

impl DataMode {
    pub open spec fn convert_spec(&self, val: int) -> int {
        match self {
            DataMode::Bcd => bcd_byte(val),
            DataMode::Binary => val,
        }
    }

    fn convert(&self, val: u8) -> (r: u8)
        ensures
            r == self.convert_spec(val as int),
    {
        match self {
            DataMode::Bcd => val.to_bcd(),
            DataMode::Binary => val,
        }
    }
}

#[derive(Copy, Clone, Debug, PartialEq, Eq, Structural)]
pub struct StatusA {
    pub value: u8,
}

impl StatusA {
    pub open spec fn interrupt_rate_spec(&self) -> int {
        self.value as int % 16
    }

    pub open spec fn with_update_in_progress(self, v: bool) -> StatusA {
        StatusA { value: (self.value % 0x80 + weight(v, 0x80)) as u8 }
    }

    pub fn set_time_update_in_progress(&mut self, v: bool)
        ensures
            *final(self) == old(self).with_update_in_progress(v),
    {
        self.value = self.value % 0x80 + weigh8(v, 0x80);
    }
}

#[derive(Copy, Clone, Debug, PartialEq, Eq, Structural)]
pub struct StatusB {
    pub value: u8,
}

impl StatusB {
    pub open spec fn data_mode_spec(&self) -> DataMode {
        if bit_at(self.value as int, 4) {
            DataMode::Binary
        } else {
            DataMode::Bcd
        }
    }

    pub open spec fn periodic_spec(&self) -> bool {
        bit_at(self.value as int, 0x40)
    }

    pub fn data_mode(&self) -> (r: DataMode)
        ensures
            r == self.data_mode_spec(),
    {
        if self.value / 4 % 2 == 1 {
            DataMode::Binary
        } else {
            DataMode::Bcd
        }
    }

    pub fn enable_periodic_interrupt(&self) -> (r: bool)
        ensures
            r == self.periodic_spec(),
    {
        self.value / 0x40 % 2 == 1
    }
}

/// The time of day.
#[derive(Copy, Clone, Debug, PartialEq, Eq, Structural)]
pub struct RtcTime {
    pub year: u16,
    pub month: u8,
    pub days_in_month: u8,
    /// Sunday is 1.
    pub weekday: u8,
    pub hour: u8,
    pub minute: u8,
    pub second: u8,
    pub millisecond: u16,
}

/// The periodic timer that runs now.
#[derive(Copy, Clone, Debug, PartialEq, Eq, Structural)]
pub struct TimerInfo {
    pub interrupt_rate_hz: u32,
    /// Tells this timer from those that ran before.
    pub id: u64,
}

/// A periodic timer. It runs for as long as the CMOS knows it.
#[derive(Copy, Clone, Debug, PartialEq, Eq, Structural)]
pub struct CmosTimer {
    pub info: TimerInfo,
    /// In nanoseconds.
    pub next_interrupt: u64,
}

#[derive(Copy, Clone, Debug)]
pub struct Cmos {
    pub registers: [u8; 128],
    pub nmi: bool,
    pub selected_reg: usize,
    pub rtc_irq: DualIrqLine,
    pub status_c: u8,
    pub status_b: StatusB,
    pub phys_mem_size: u64,
    pub status_a: StatusA,
    pub timer_info: Option<TimerInfo>,
    pub timers_started: u64,
}

#[derive(Copy, Clone, Debug)]
pub struct CmosSnapshot {
    pub registers: [u8; 128],
    pub nmi: bool,
    pub selected_reg: usize,
    pub status_c: u8,
    pub status_b: StatusB,
    pub phys_mem_size: u64,
    pub status_a: StatusA,
}

/// The rate of the periodic interrupt: 0b1111 = 2, 0b1110 = 4, 0b1101 = 8, etc. The two fastest
/// settings stand for slower ones.
pub open spec fn rate_hz(setting: int) -> int {
    let n = if setting <= 2 {
        setting + 7
    } else {
        setting
    };
    2 * (pow2((15 - n) as nat) as int)
}

fn compute_rate_hz(setting: u8) -> (r: u32)
    requires
        1 <= setting < 16,
    ensures
        r == rate_hz(setting as int),
        2 <= r <= 8192,
{
    proof {
        vstd::arithmetic::power2::lemma2_to64();
    }
    match setting {
        1 => 256,
        2 => 128,
        3 => 8192,
        4 => 4096,
        5 => 2048,
        6 => 1024,
        7 => 512,
        8 => 256,
        9 => 128,
        10 => 64,
        11 => 32,
        12 => 16,
        13 => 8,
        14 => 4,
        _ => 2,
    }
}

/// KiB of memory above the first MiB, as far as 16 bits of KiB can tell.
pub open spec fn extended_memory(phys_mem_size: u64) -> int {
    let kbs = phys_mem_size as int / 1024;
    if kbs <= 1024 {
        0
    } else if kbs - 1024 < 0xfc00 {
        kbs - 1024
    } else {
        0xfc00
    }
}

/// Blocks of 64 KiB above the first 16 MiB.
pub open spec fn full_extended_memory(phys_mem_size: u64) -> int {
    let kbs = phys_mem_size as int / 1024;
    if kbs <= 16 * 1024 {
        0
    } else if (kbs - 16 * 1024) / 64 < 0xbf00 {
        (kbs - 16 * 1024) / 64
    } else {
        0xbf00
    }
}

impl Cmos {
    pub open spec fn wf(&self) -> bool {
        self.selected_reg < 128
    }

    /// The clock after power on: all registers are 0 and no timer runs.
    pub open spec fn is_fresh(&self, phys_mem_size: u64) -> bool {
        &&& *self == (Cmos {
            registers: self.registers,
            nmi: false,
            selected_reg: 0,
            rtc_irq: self.rtc_irq,
            status_c: 0,
            status_b: StatusB { value: 0x02 },
            phys_mem_size,
            status_a: StatusA { value: 0x26 },
            timer_info: None,
            timers_started: 0,
        })
        &&& forall|i: int| 0 <= i < 128 ==> self.registers@[i] == 0
    }

    pub fn new(rtc_irq: DualIrqLine, phys_mem_size: u64) -> (r: Self)
        ensures
            r.wf(),
            r.rtc_irq == rtc_irq,
            r.is_fresh(phys_mem_size),
    {
        Self {
            registers: [0u8;128],
            nmi: false,
            selected_reg: 0,
            rtc_irq,
            status_a: StatusA { value: 0x26 },
            // 24 hours, BCD, no interrupts
            status_b: StatusB { value: 0x02 },
            status_c: 0,
            phys_mem_size,
            timer_info: None,
            timers_started: 0,
        }
    }

    /// Selects a register, and enables or disables NMIs.
    pub fn write_port(&mut self, val: u8)
        ensures
            final(self).wf(),
            *final(self) == (Cmos {
                selected_reg: (val % 0x80) as usize,
                nmi: bit_at(val as int, 0x80),
                ..*old(self)
            }),
    {
        self.selected_reg = (val % 0x80) as usize;
        self.nmi = val / 0x80 % 2 == 1;
    }

    /// Whether the periodic interrupt runs, and at what rate.
    pub open spec fn wanted_rate(&self) -> Option<int> {
        if self.status_b.periodic_spec() && self.status_a.interrupt_rate_spec() != 0 {
            Some(rate_hz(self.status_a.interrupt_rate_spec()))
        } else {
            None
        }
    }

    /// Whether a timer has to be started: one is wanted, and none runs at its rate.
    pub open spec fn starts_timer(&self) -> bool {
        match self.wanted_rate() {
            Some(rate) => self.timer_info.is_none() || self.timer_info.unwrap().interrupt_rate_hz
                != rate,
            None => false,
        }
    }

    /// The number of a timer that is started fits.
    pub open spec fn timer_fits(&self) -> bool {
        self.starts_timer() ==> self.timers_started < u64::MAX
    }

    pub open spec fn timer_updated(self) -> Cmos {
        if self.wanted_rate().is_none() {
            Cmos { timer_info: None, ..self }
        } else if self.starts_timer() {
            Cmos {
                timer_info: Some(
                    TimerInfo {
                        interrupt_rate_hz: self.wanted_rate().unwrap() as u32,
                        id: self.timers_started,
                    },
                ),
                timers_started: (self.timers_started + 1) as u64,
                ..self
            }
        } else {
            self
        }
    }

    /// Starts and stops the periodic timer. Returns the timer that was started.
    fn update_timer(&mut self, now: u64) -> (r: Option<CmosTimer>)
        requires
            old(self).timer_fits(),
        ensures
            *final(self) == old(self).timer_updated(),
            r.is_some() == old(self).starts_timer(),
            r.is_some() ==> Some(r.unwrap().info) == final(self).timer_info
                && r.unwrap().next_interrupt == now,
    {
        let setting: u8 = self.status_a.value % 16;
        if !self.irq_enabled() || setting == 0 {
            // Stop the current timer
            self.timer_info = None;
            return None;
        }
        let interrupt_rate_hz: u32 = compute_rate_hz(setting);
        if let Some(info) = self.timer_info {
            if info.interrupt_rate_hz == interrupt_rate_hz {
                return None;
            }
        }
        let info = TimerInfo { interrupt_rate_hz, id: self.timers_started };
        self.timers_started = self.timers_started + 1;
        self.timer_info = Some(info);
        Some(CmosTimer { info, next_interrupt: now })
    }

    /// The number of a timer that a write to the selected register starts fits.
    pub open spec fn write_ok(&self, val: u8) -> bool {
        self.selected_reg == 0xA || self.selected_reg == 0xB ==> self.data_written(val).timer_fits()
    }

    /// The state after a write to the selected register, all but the plain registers, before
    /// the timer is looked at.
    pub open spec fn data_written(self, val: u8) -> Cmos {
        if self.selected_reg == 0xA {
            Cmos {
                status_a: (StatusA { value: val }).with_update_in_progress(
                    bit_at(self.status_a.value as int, 0x80),
                ),
                ..self
            }
        } else if self.selected_reg == 0xB {
            Cmos { status_b: StatusB { value: val }, ..self }
        } else if self.selected_reg == 0xC {
            Cmos { status_c: val, ..self }
        } else {
            self
        }
    }

    /// Writes the selected register, and selects register 0. Returns the timer that was started.
    pub fn write_data(&mut self, val: u8, now: u64) -> (r: Option<CmosTimer>)
        requires
            old(self).wf(),
            old(self).write_ok(val),
        ensures
            final(self).wf(),
            ({
                let reg = old(self).selected_reg;
                let timed = reg == 0xA || reg == 0xB;
                let written = old(self).data_written(val);
                &&& *final(self) == (Cmos {
                    registers: final(self).registers,
                    selected_reg: 0,
                    ..if timed {
                        written.timer_updated()
                    } else {
                        written
                    }
                })
                &&& final(self).registers@ == (if timed || reg == 0xC {
                    old(self).registers@
                } else {
                    old(self).registers@.update(reg as int, val)
                })
                &&& r.is_some() == (timed && written.starts_timer())
                &&& r.is_some() ==> Some(r.unwrap().info) == final(self).timer_info
                    && r.unwrap().next_interrupt == now
            }),
    {
        let mut started = None;
        match self.selected_reg {
            0xA => {
                let in_progress = self.status_a.value / 0x80 % 2 == 1;
                let mut new_status = StatusA { value: val };
                new_status.set_time_update_in_progress(in_progress);
                self.status_a = new_status;
                started = self.update_timer(now);
            },
            0xB => {
                self.status_b = StatusB { value: val };
                started = self.update_timer(now);
            },
            0xC => self.status_c = val,
            n => {
                self.registers[n] = val;
            },
        }
        self.selected_reg = 0;
        started
    }

    /// What a read of the selected register gives.
    #[verifier::opaque]
    pub open spec fn read_value(&self, now: RtcTime) -> int {
        let mode = self.status_b.data_mode_spec();
        let reg = self.selected_reg;
        if reg == 0x0 {
            mode.convert_spec(now.second as int)
        } else if reg == 0x2 {
            mode.convert_spec(now.minute as int)
        } else if reg == 0x4 {
            mode.convert_spec(now.hour as int)
        } else if reg == 0x6 {
            mode.convert_spec(now.weekday as int)
        } else if reg == 0x7 {
            mode.convert_spec(now.days_in_month as int)
        } else if reg == 0x8 {
            mode.convert_spec(now.month as int)
        } else if reg == 0x9 {
            mode.convert_spec(now.year as int % 100)
        } else if reg == 0xA {
            self.status_a.with_update_in_progress(
                now.millisecond >= 999 || now.millisecond <= 2,
            ).value as int
        } else if reg == 0xB {
            self.status_b.value as int
        } else if reg == 0xC {
            self.status_c as int
        } else if reg == 0xD {
            // The battery was connected, and the memory is valid.
            0x80
        } else if reg == 0x10 {
            0x43
        } else if reg == 0x17 || reg == 0x30 {
            extended_memory(self.phys_mem_size) % 0x100
        } else if reg == 0x18 || reg == 0x31 {
            extended_memory(self.phys_mem_size) / 0x100
        } else if reg == 0x32 {
            bcd_byte(now.year as int / 100 % 0x100)
        } else if reg == 0x34 {
            full_extended_memory(self.phys_mem_size) % 0x100
        } else if reg == 0x35 {
            full_extended_memory(self.phys_mem_size) / 0x100
        } else {
            fixed_register(reg as int)
        }
    }

    /// Reads the selected register. Reading status C resets it; reading status A fakes an update
    /// of four milliseconds around the turn of each second.
    pub fn read(&mut self, fdc: &Fdc, now: RtcTime) -> (r: u8)
        requires
            old(self).wf(),
        ensures
            final(self).wf(),
            r == old(self).read_value(now),
            *final(self) == (if old(self).selected_reg == 0xA {
                Cmos {
                    status_a: old(self).status_a.with_update_in_progress(
                        now.millisecond >= 999 || now.millisecond <= 2,
                    ),
                    ..*old(self)
                }
            } else if old(self).selected_reg == 0xC {
                Cmos { status_c: 0, ..*old(self) }
            } else {
                *old(self)
            }),
    {
        proof {
            reveal(Cmos::read_value);
        }
        let phys_kbs: u64 = self.phys_mem_size / 1024;
        // Extended memory in blocks of KiB (63MiB seems to be the max)
        let extended: u64 = if phys_kbs <= 1024 {
            0
        } else if phys_kbs - 1024 < 0xfc00 {
            phys_kbs - 1024
        } else {
            0xfc00
        };
        // Extended memory in blocks of 64KiB
        let full_extended: u64 = if phys_kbs <= 16 * 1024 {
            0
        } else if (phys_kbs - 16 * 1024) / 64 < 0xbf00 {
            (phys_kbs - 16 * 1024) / 64
        } else {
            0xbf00
        };
        let mode = self.status_b.data_mode();
        match self.selected_reg {
            0x0 => mode.convert(now.second),
            0x2 => mode.convert(now.minute),
            0x4 => mode.convert(now.hour),
            0x6 => mode.convert(now.weekday),
            0x7 => mode.convert(now.days_in_month),
            0x8 => mode.convert(now.month),
            0x9 => mode.convert((now.year % 100) as u8),
            0xA => {
                self.status_a.set_time_update_in_progress(
                    now.millisecond >= 999 || now.millisecond <= 2,
                );
                self.status_a.value
            },
            0xB => self.status_b.value,
            0xC => {
                let val: u8 = self.status_c;
                self.status_c = 0;
                val
            },
            // Indicate that CMOS battery was connected and RAM is valid
            0xD => 0x80,
            0x10 => fdc.cmos_media_state().value(),
            0x17 | 0x30 => (extended % 0x100) as u8,
            0x18 | 0x31 => (extended / 0x100) as u8,
            0x32 => ((now.year / 100 % 0x100) as u8).to_bcd(),
            0x34 => (full_extended % 0x100) as u8,
            0x35 => (full_extended / 0x100) as u8,
            n => read_fixed(n),
        }
    }

    pub fn irq_enabled(&self) -> (r: bool)
        ensures
            r == self.status_b.periodic_spec(),
    {
        self.status_b.enable_periodic_interrupt()
    }

    /// Whether a timer is the one that runs now.
    pub open spec fn runs(&self, timer: CmosTimer) -> bool {
        self.timer_info.is_some() && self.timer_info.unwrap().id == timer.info.id
    }

    /// The timer fires, if it still runs: status C reports a periodic interrupt, and the line is
    /// pulsed. A timer that is late skips ticks. Returns whether the timer still runs.
    pub fn tick(&mut self, timer: &mut CmosTimer, now: u64, irq: &mut IrqSystem) -> (r: bool)
        requires
            old(self).rtc_irq.ready(&*old(irq)),
            old(timer).info.interrupt_rate_hz != 0,
            old(timer).next_interrupt + 1_000_000_000 <= u64::MAX,
            now + 1_000_000_000 <= u64::MAX,
        ensures
            final(self).rtc_irq.ready(&*final(irq)),
            still_accepts(&*old(irq), &*final(irq)),
            r == old(self).runs(*old(timer)),
            final(timer).info == old(timer).info,
            r ==> {
                let period = 1_000_000_000int / old(timer).info.interrupt_rate_hz as int;
                let next = old(timer).next_interrupt + period;
                &&& *final(self) == (Cmos { status_c: old(self).status_c | 0xc0, ..*old(self) })
                &&& final(irq)@ == old(self).rtc_irq.pulsed(old(irq)@)
                &&& final(timer).next_interrupt == (if next < now {
                    now + period
                } else {
                    next
                })
            },
            !r ==> *final(self) == *old(self) && *final(irq) == *old(irq) && *final(timer) == *old(timer),
    {
        let enabled = match self.timer_info {
            Some(info) => info.id == timer.info.id,
            None => false,
        };
        if enabled {
            self.status_c = self.status_c | 0xc0;
            self.rtc_irq.pulse(irq);
            let rate: u64 = timer.info.interrupt_rate_hz as u64;
            assert(0 <= 1_000_000_000int / (rate as int) <= 1_000_000_000) by (nonlinear_arith)
                requires
                    rate >= 1,
            ;
            let period: u64 = 1_000_000_000 / rate;
            let next: u64 = timer.next_interrupt + period;
            if next < now {
                timer.next_interrupt = now + period;
            } else {
                timer.next_interrupt = next;
            }
        }
        enabled
    }

    pub fn snapshot(&self) -> (r: CmosSnapshot)
        ensures
            r == (CmosSnapshot {
                registers: self.registers,
                nmi: self.nmi,
                selected_reg: self.selected_reg,
                status_c: self.status_c,
                status_b: self.status_b,
                phys_mem_size: self.phys_mem_size,
                status_a: self.status_a,
            }),
    {
        CmosSnapshot {
            registers: self.registers,
            nmi: self.nmi,
            selected_reg: self.selected_reg,
            status_c: self.status_c,
            status_b: self.status_b,
            phys_mem_size: self.phys_mem_size,
            status_a: self.status_a,
        }
    }

    /// Brings the state back. Returns the timer that was started.
    /// The clock with the registers of a snapshot, before the timer is looked at.
    pub open spec fn with_registers(self, cmos: CmosSnapshot) -> Cmos {
        Cmos {
            registers: cmos.registers,
            nmi: cmos.nmi,
            selected_reg: cmos.selected_reg,
            status_c: cmos.status_c,
            status_b: cmos.status_b,
            phys_mem_size: cmos.phys_mem_size,
            status_a: cmos.status_a,
            ..self
        }
    }

    pub fn restore(&mut self, cmos: CmosSnapshot, now: u64) -> (r: Option<CmosTimer>)
        requires
            cmos.selected_reg < 128,
            old(self).with_registers(cmos).timer_fits(),
        ensures
            final(self).wf(),
            ({
                let restored = old(self).with_registers(cmos);
                &&& *final(self) == restored.timer_updated()
                &&& r.is_some() == restored.starts_timer()
                &&& r.is_some() ==> Some(r.unwrap().info) == final(self).timer_info
                    && r.unwrap().next_interrupt == now
            }),
    {
        self.registers = cmos.registers;
        self.nmi = cmos.nmi;
        self.selected_reg = cmos.selected_reg;
        self.status_c = cmos.status_c;
        self.status_b = cmos.status_b;
        self.phys_mem_size = cmos.phys_mem_size;
        self.status_a = cmos.status_a;
        self.update_timer(now)
    }
}

/// The registers that always read the same: the equipment, the boot order, the translation modes
/// of the disks. All others read 0.
pub open spec fn fixed_register(reg: int) -> int {
    if reg == 0x12 {
        0xf0
    } else if reg == 0x14 {
        // A floppy drive, a coprocessor and a keyboard
        7
    } else if reg == 0x19 {
        0x2f
    } else if reg == 0x1f || reg == 0x1e {
        0xff
    } else if reg == 0x20 {
        0xc8
    } else if reg == 0x21 || reg == 0x1b {
        0x41
    } else if reg == 0x1d {
        0x10
    } else if reg == 0x23 {
        0x3f
    } else if reg == 0x3d {
        0x32
    } else if reg == 0x38 || reg == 0x39 || reg == 0x3A {
        1
    } else {
        0
    }
}

fn read_fixed(reg: usize) -> (r: u8)
    ensures
        r == fixed_register(reg as int),
{
    match reg {
        0x12 => 0xf0,
        0x14 => 7,
        0x19 => 0x2f,
        0x1f | 0x1e => 0xff,
        0x20 => 0xc8,
        0x21 | 0x1b => 0x41,
        0x1d => 0x10,
        0x23 => 0x3f,
        // Boot order: 0x3D low nibble, 0x3D high nibble, 0x38 high nibble.
        // 0x1 = floppy
        // 0x2 = HDD
        // 0x3 = CD-ROM
        // 0x4 = PCMCIA
        // 0x5 = USB
        // 0x6 = Network
        0x3d => 0x32,
        0x38 => 0x01,
        // Bochs-specific ATA translation mode
        // 00 = ATA_TRANSLATION_NONE
        // 01 = ATA_TRANSLATION_LBA
        // 10 = ATA_TRANSLATION_LARGE
        // 11 = ATA_TRANSLATION_RECHS
        0x39 => 1,
        0x3A => 1,
        _ => 0,
    }
}

/// Once a timer was started, it runs, and no earlier timer does.
pub proof fn started_timer_replaces_others(cmos: Cmos, earlier: CmosTimer)
    requires
        cmos.starts_timer(),
        cmos.timers_started < u64::MAX,
        earlier.info.id < cmos.timers_started,
    ensures
        !cmos.timer_updated().runs(earlier),
        !cmos.timer_updated().starts_timer(),
        cmos.timer_updated().timer_updated() == cmos.timer_updated(),
{
    vstd::arithmetic::power2::lemma2_to64();
    let n: int = cmos.status_a.interrupt_rate_spec();
    assert(1 <= n < 16);
    let m: int = if n <= 2 {
        n + 7
    } else {
        n
    };
    if m > 3 {
        vstd::arithmetic::power2::lemma_pow2_strictly_increases((15 - m) as nat, 12);
    }
    assert(rate_hz(n) <= 8192);
}

/// The clock shows the time: seconds, minutes, hours, the weekday, the days of the month, the month
/// and the year in the registers 0, 2, 4, 6, 7, 8 and 9, as two decimal digits, or as a number with
/// bit 2 of status B. The century is in register 0x32.
pub proof fn registers_show_the_time(cmos: Cmos, now: RtcTime)
    requires
        now.second < 100 && now.minute < 100 && now.hour < 100 && now.weekday < 100,
        now.days_in_month < 100 && now.month < 100 && now.year < 10000,
    ensures
        ({
            let v = cmos.read_value(now);
            let shown = if cmos.status_b.value / 4 % 2 == 1 {
                v
            } else {
                v / 16 * 10 + v % 16
            };
            &&& cmos.selected_reg == 0 ==> shown == now.second
            &&& cmos.selected_reg == 2 ==> shown == now.minute
            &&& cmos.selected_reg == 4 ==> shown == now.hour
            &&& cmos.selected_reg == 6 ==> shown == now.weekday
            &&& cmos.selected_reg == 7 ==> shown == now.days_in_month
            &&& cmos.selected_reg == 8 ==> shown == now.month
            &&& cmos.selected_reg == 9 ==> shown == now.year % 100
            &&& cmos.selected_reg == 0x32 ==> v / 16 * 10 + v % 16 == now.year / 100
        }),
{
    let mode = cmos.status_b.data_mode_spec();
    let v: int = cmos.read_value(now);
    let reg = cmos.selected_reg;
    lemma_digits(mode, now.second as int);
    lemma_digits(mode, now.minute as int);
    lemma_digits(mode, now.hour as int);
    lemma_digits(mode, now.weekday as int);
    lemma_digits(mode, now.days_in_month as int);
    lemma_digits(mode, now.month as int);
    lemma_digits(mode, now.year as int % 100);
    lemma_digits(DataMode::Bcd, now.year as int / 100);
    assert(reg == 0 ==> v == mode.convert_spec(now.second as int)) by {
        reveal(Cmos::read_value);
    }
    assert(reg == 2 ==> v == mode.convert_spec(now.minute as int)) by {
        reveal(Cmos::read_value);
    }
    assert(reg == 4 ==> v == mode.convert_spec(now.hour as int)) by {
        reveal(Cmos::read_value);
    }
    assert(reg == 6 ==> v == mode.convert_spec(now.weekday as int)) by {
        reveal(Cmos::read_value);
    }
    assert(reg == 7 ==> v == mode.convert_spec(now.days_in_month as int)) by {
        reveal(Cmos::read_value);
    }
    assert(reg == 8 ==> v == mode.convert_spec(now.month as int)) by {
        reveal(Cmos::read_value);
    }
    assert(reg == 9 ==> v == mode.convert_spec(now.year as int % 100)) by {
        reveal(Cmos::read_value);
    }
    assert(reg == 0x32 ==> v == DataMode::Bcd.convert_spec(now.year as int / 100)) by {
        reveal(Cmos::read_value);
        assert(now.year as int / 100 % 0x100 == now.year as int / 100);
    }
}

proof fn lemma_digits(mode: DataMode, n: int)
    requires
        0 <= n < 100,
    ensures
        ({
            let v = mode.convert_spec(n);
            &&& mode == DataMode::Binary ==> v == n
            &&& mode == DataMode::Bcd ==> v / 16 * 10 + v % 16 == n
        }),
{
    crate::hw::bcd::bcd_keeps_two_digits(n as u8);
}

/// The size of memory in the clock's registers: KiB above the first MiB, up to 63 MiB, in 0x30 and
/// 0x31, and blocks of 64 KiB above the first 16 MiB in 0x34 and 0x35, the low byte first.
pub proof fn registers_show_the_memory(cmos: Cmos, now: RtcTime)
    ensures
        ({
            let at = |reg: usize| (Cmos { selected_reg: reg, ..cmos }).read_value(now);
            let above = at(0x30) + 0x100 * at(0x31);
            let blocks = at(0x34) + 0x100 * at(0x35);
            let size = cmos.phys_mem_size as int;
            &&& at(0x17) == at(0x30) && at(0x18) == at(0x31)
            &&& 0x10_0000 <= size <= 0x400_0000 ==> above * 1024 <= size - 0x10_0000 < (above + 1)
                * 1024
            &&& size > 0x400_0000 ==> above == 0xfc00
            &&& size < 0x10_0000 ==> above == 0
            &&& 0x100_0000 <= size <= 0xc000_0000 ==> blocks * 0x1_0000 <= size - 0x100_0000 < (blocks
                + 1) * 0x1_0000
            &&& size < 0x100_0000 ==> blocks == 0
        }),
{
    reveal(Cmos::read_value);
}

/// The periodic interrupt: setting n, from 3 on, divides 65536 ticks per second by 2^n; settings 1
/// and 2 stand for 256 and 128 per second. It needs bit 6 of status B.
pub proof fn rates_halve_with_the_setting(n: int, cmos: Cmos)
    requires
        3 <= n < 15,
    ensures
        rate_hz(3) == 8192,
        rate_hz(n) == 2 * rate_hz(n + 1),
        rate_hz(1) == 256,
        rate_hz(2) == 128,
        cmos.wanted_rate() is Some <==> cmos.status_b.value / 0x40 % 2 == 1 && cmos.status_a.value
            % 16 != 0,
        cmos.wanted_rate() is Some ==> cmos.wanted_rate().unwrap() == rate_hz(
            cmos.status_a.value as int % 16,
        ),
{
    vstd::arithmetic::power2::lemma2_to64();
    vstd::arithmetic::power2::lemma_pow2_unfold((15 - n) as nat);
}

} // verus!
