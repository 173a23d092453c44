//! The IO APIC: routes device lines to interrupt vectors.
use vstd::prelude::*;

use crate::hw::pic::bitset::{members, empty_set, Bitset, BitsetSnapshot};
use crate::hw::pic::{DeliveryMode, DestinationMode};

verus! {

pub const MMIO_ADDR: u64 = 0xFEC00000;

pub const NUM_REDIRECTION_ENTRIES: usize = 24;

#[derive(Copy, Clone, Debug, PartialEq, Eq, Structural)]
pub enum Polarity {
    ActiveHigh,
    ActiveLow,
}

#[derive(Copy, Clone, Debug, PartialEq, Eq, Structural)]
pub enum TriggerMode {
    EdgeSensitive,
    LevelSensitive,
}

/// How one line is routed.
#[derive(Copy, Clone, Debug, PartialEq, Eq, Structural)]
pub struct RedirectionEntry {
    pub vector: u8,
    pub delivery_mode: DeliveryMode,
    pub destination_mode: DestinationMode,
    /// Set if this interrupt is going to be sent, but the APIC is busy. Read only.
    pub pending: bool,
    pub polarity: Polarity,
    /// Used for level triggered interrupts only to show if a local APIC has received the interrupt (= 1), or has sent an EOI (= 0). Read only.
    pub was_received: bool,
    pub trigger_mode: TriggerMode,
    /// When set, interrupt is masked.
    pub masked: bool,
    pub reserved: u64,
    /// Destination field. If the destination mode bit was clear, then the lower 4 bits contain the bit APIC ID to sent the interrupt to. If the bit was set, the upper 4 bits also contain a set of processors.
    pub destination: u8,
}

/// 1 for true, 0 for false.
pub open spec fn bit_of(b: bool) -> int {
    if b {
        1
    } else {
        0
    }
}

fn bit(b: bool) -> (r: u64)
    ensures
        r == bit_of(b),
{
    if b {
        1
    } else {
        0
    }
}

impl RedirectionEntry {
    /// The reserved field holds 39 bits.
    pub open spec fn wf(&self) -> bool {
        self.reserved < 0x80_0000_0000
    }

    /// The 64 bits of the entry, from the vector in the lowest byte to the destination in the
    /// highest.
    pub open spec fn value_spec(&self) -> int {
        self.vector + 0x100 * self.delivery_mode.bits_spec() + 0x800
            * self.destination_mode.bits_spec() + 0x1000 * bit_of(self.pending) + 0x2000 * bit_of(
            self.polarity == Polarity::ActiveLow,
        ) + 0x4000 * bit_of(self.was_received) + 0x8000 * bit_of(
            self.trigger_mode == TriggerMode::LevelSensitive,
        ) + 0x1_0000 * bit_of(self.masked) + 0x2_0000 * self.reserved + 0x100_0000_0000_0000
            * self.destination
    }

    pub open spec fn of_value(value: u64) -> RedirectionEntry {
        RedirectionEntry {
            vector: (value % 0x100) as u8,
            delivery_mode: DeliveryMode::of_bits((value / 0x100 % 8) as int),
            destination_mode: DestinationMode::of_bits((value / 0x800 % 2) as int),
            pending: value / 0x1000 % 2 == 1,
            polarity: if value / 0x2000 % 2 == 1 {
                Polarity::ActiveLow
            } else {
                Polarity::ActiveHigh
            },
            was_received: value / 0x4000 % 2 == 1,
            trigger_mode: if value / 0x8000 % 2 == 1 {
                TriggerMode::LevelSensitive
            } else {
                TriggerMode::EdgeSensitive
            },
            masked: value / 0x1_0000 % 2 == 1,
            reserved: value / 0x2_0000 % 0x80_0000_0000,
            destination: (value / 0x100_0000_0000_0000) as u8,
        }
    }

    pub fn from_value(value: u64) -> (r: Self)
        ensures
            r == Self::of_value(value),
            r.wf(),
    {
        RedirectionEntry {
            vector: (value % 0x100) as u8,
            delivery_mode: DeliveryMode::from_bits((value / 0x100 % 8) as u8),
            destination_mode: DestinationMode::from_bits((value / 0x800 % 2) as u8),
            pending: value / 0x1000 % 2 == 1,
            polarity: if value / 0x2000 % 2 == 1 {
                Polarity::ActiveLow
            } else {
                Polarity::ActiveHigh
            },
            was_received: value / 0x4000 % 2 == 1,
            trigger_mode: if value / 0x8000 % 2 == 1 {
                TriggerMode::LevelSensitive
            } else {
                TriggerMode::EdgeSensitive
            },
            masked: value / 0x1_0000 % 2 == 1,
            reserved: value / 0x2_0000 % 0x80_0000_0000,
            destination: (value / 0x100_0000_0000_0000) as u8,
        }
    }

    pub fn value(&self) -> (r: u64)
        requires
            self.wf(),
        ensures
            r == self.value_spec(),
    {
        let polarity: u64 = match self.polarity {
            Polarity::ActiveHigh => 0,
            Polarity::ActiveLow => 1,
        };
        let trigger_mode: u64 = match self.trigger_mode {
            TriggerMode::EdgeSensitive => 0,
            TriggerMode::LevelSensitive => 1,
        };
        let delivery: u64 = 0x100 * self.delivery_mode.bits() as u64 + 0x800
            * self.destination_mode.bits() as u64;
        let flags: u64 = 0x1000 * bit(self.pending) + 0x2000 * polarity + 0x4000 * bit(
            self.was_received,
        ) + 0x8000 * trigger_mode + 0x1_0000 * bit(self.masked);
        assert(delivery <= 0xf00 && flags <= 0x1_f000);
        let low: u64 = self.vector as u64 + delivery + flags;
        let high: u64 = 0x100_0000_0000_0000 * self.destination as u64;
        low + 0x2_0000 * self.reserved + high
    }

    /// Whether an interrupt of this entry can be delivered: only the normal and the low-priority
    /// delivery modes are supported.
    pub open spec fn sendable(&self) -> bool {
        self.delivery_mode == DeliveryMode::Normal || self.delivery_mode
            == DeliveryMode::LowPriority
    }
}

proof fn lemma_nested_div(v: int, a: int, b: int)
    requires
        v >= 0,
        a > 0,
        b > 0,
    ensures
        v / (a * b) == v / a / b,
{
    vstd::arithmetic::div_mod::lemma_div_denominator(v, a, b);
}

proof fn lemma_nested_divs(v: int)
    requires
        v >= 0,
    ensures
        v / 0x800 == v / 0x100 / 8,
        v / 0x1000 == v / 0x800 / 2,
        v / 0x2000 == v / 0x1000 / 2,
        v / 0x4000 == v / 0x2000 / 2,
        v / 0x8000 == v / 0x4000 / 2,
        v / 0x1_0000 == v / 0x8000 / 2,
        v / 0x2_0000 == v / 0x1_0000 / 2,
        v / 0x100_0000_0000_0000 == v / 0x2_0000 / 0x80_0000_0000,
{
    lemma_nested_div(v, 0x100, 8);
    lemma_nested_div(v, 0x800, 2);
    lemma_nested_div(v, 0x1000, 2);
    lemma_nested_div(v, 0x2000, 2);
    lemma_nested_div(v, 0x4000, 2);
    lemma_nested_div(v, 0x8000, 2);
    lemma_nested_div(v, 0x1_0000, 2);
    lemma_nested_div(v, 0x2_0000, 0x80_0000_0000);
}

proof fn lemma_split(lo: int, m: int, rest: int)
    requires
        0 <= lo < m,
        0 <= rest,
    ensures
        (lo + m * rest) / m == rest,
        (lo + m * rest) % m == lo,
{
    assert(m * rest == rest * m) by (nonlinear_arith);
    vstd::arithmetic::div_mod::lemma_fundamental_div_mod_converse(lo + m * rest, m, rest, lo);
}

/// The 64 bits of an entry that was made from 64 bits are those bits.
pub proof fn redirection_entry_value_of_value(value: u64)
    ensures
        RedirectionEntry::of_value(value).value_spec() == value,
{
    let v: int = value as int;
    lemma_nested_divs(v);
    let a: int = v / 0x100;
    let b: int = v / 0x800;
    let c: int = v / 0x1000;
    let d: int = v / 0x2000;
    let e: int = v / 0x4000;
    let f: int = v / 0x8000;
    let g: int = v / 0x1_0000;
    let h: int = v / 0x2_0000;
    let i: int = v / 0x100_0000_0000_0000;
    assert(v == v % 0x100 + 0x100 * a);
    assert(a == a % 8 + 8 * b);
    assert(b == b % 2 + 2 * c);
    assert(c == c % 2 + 2 * d);
    assert(d == d % 2 + 2 * e);
    assert(e == e % 2 + 2 * f);
    assert(f == f % 2 + 2 * g);
    assert(g == g % 2 + 2 * h);
    assert(h == h % 0x80_0000_0000 + 0x80_0000_0000 * i);
    assert(0 <= i < 0x100) by {
        assert(v <= u64::MAX);
    }
    let r = RedirectionEntry::of_value(value);
    assert(r.vector == v % 0x100);
    assert(r.delivery_mode.bits_spec() == a % 8);
    assert(r.destination_mode.bits_spec() == b % 2);
    assert(bit_of(r.pending) == c % 2);
    assert(bit_of(r.polarity == Polarity::ActiveLow) == d % 2);
    assert(bit_of(r.was_received) == e % 2);
    assert(bit_of(r.trigger_mode == TriggerMode::LevelSensitive) == f % 2);
    assert(bit_of(r.masked) == g % 2);
    assert(r.reserved == h % 0x80_0000_0000);
    assert(r.destination == i);
}

/// An entry that is made from the 64 bits of an entry is that entry.
pub proof fn redirection_entry_of_value_of_entry(entry: RedirectionEntry)
    requires
        entry.wf(),
    ensures
        0 <= entry.value_spec() <= u64::MAX,
        RedirectionEntry::of_value(entry.value_spec() as u64) == entry,
{
    let v: int = entry.value_spec();
    let rest8: int = entry.reserved + 0x80_0000_0000 * entry.destination;
    let rest7: int = bit_of(entry.masked) + 2 * rest8;
    let rest6: int = bit_of(entry.trigger_mode == TriggerMode::LevelSensitive) + 2 * rest7;
    let rest5: int = bit_of(entry.was_received) + 2 * rest6;
    let rest4: int = bit_of(entry.polarity == Polarity::ActiveLow) + 2 * rest5;
    let rest3: int = bit_of(entry.pending) + 2 * rest4;
    let rest2: int = entry.destination_mode.bits_spec() + 2 * rest3;
    let rest1: int = entry.delivery_mode.bits_spec() + 8 * rest2;
    assert(v == entry.vector + 0x100 * rest1);
    lemma_nested_divs(v);
    lemma_split(entry.vector as int, 0x100, rest1);
    lemma_split(entry.delivery_mode.bits_spec(), 8, rest2);
    lemma_split(entry.destination_mode.bits_spec(), 2, rest3);
    lemma_split(bit_of(entry.pending), 2, rest4);
    lemma_split(bit_of(entry.polarity == Polarity::ActiveLow), 2, rest5);
    lemma_split(bit_of(entry.was_received), 2, rest6);
    lemma_split(bit_of(entry.trigger_mode == TriggerMode::LevelSensitive), 2, rest7);
    lemma_split(bit_of(entry.masked), 2, rest8);
    lemma_split(entry.reserved as int, 0x80_0000_0000, entry.destination as int);
}

/// The state of the IO APIC that its lines work on.
pub struct IoApicLines {
    pub entries: Seq<RedirectionEntry>,
    pub irq_lines: Seq<bool>,
}

#[derive(Debug)]
pub struct IoApicCore {
    redirection_entries: [RedirectionEntry; 24],
    irq_lines: Bitset,
}

impl View for IoApicCore {
    type V = IoApicLines;

    closed spec fn view(&self) -> IoApicLines {
        IoApicLines { entries: self.redirection_entries@, irq_lines: self.irq_lines@ }
    }
}

/// The entry that each line has after a reset: masked and level sensitive.
pub open spec fn reset_entry() -> RedirectionEntry {
    RedirectionEntry {
        vector: 0,
        delivery_mode: DeliveryMode::Normal,
        destination_mode: DestinationMode::Physical,
        pending: false,
        polarity: Polarity::ActiveHigh,
        was_received: false,
        trigger_mode: TriggerMode::LevelSensitive,
        masked: true,
        reserved: 0,
        destination: 0,
    }
}

impl Default for IoApicCore {
    fn default() -> (r: Self)
        ensures
            r.wf(),
            r@.entries == Seq::new(24, |i: int| reset_entry()),
            r@.irq_lines == empty_set(),
    {
        Self::new()
    }
}

impl IoApicCore {
    /// Every entry has at most 39 reserved bits.
    pub open spec fn wf(&self) -> bool {
        &&& self@.entries.len() == 24
        &&& self@.irq_lines.len() == 256
        &&& forall|i: int| 0 <= i < 24 ==> (#[trigger] self@.entries[i]).wf()
    }

    pub fn new() -> (r: Self)
        ensures
            r.wf(),
            r@.entries == Seq::new(24, |i: int| reset_entry()),
            r@.irq_lines == empty_set(),
    {
        let entry = RedirectionEntry {
            vector: 0,
            delivery_mode: DeliveryMode::Normal,
            destination_mode: DestinationMode::Physical,
            pending: false,
            polarity: Polarity::ActiveHigh,
            was_received: false,
            trigger_mode: TriggerMode::LevelSensitive,
            masked: true,
            reserved: 0,
            destination: 0,
        };
        let r = Self { redirection_entries: [entry;24], irq_lines: Bitset::new() };
        assert(r@.entries =~= Seq::new(24, |i: int| reset_entry()));
        r
    }

    pub fn redirection_entry(&self, index: u32) -> (r: RedirectionEntry)
        requires
            index < 24,
        ensures
            r == self@.entries[index as int],
    {
        self.redirection_entries[index as usize]
    }

    pub fn set_redirection_entry(&mut self, index: u32, value: RedirectionEntry)
        requires
            index < 24,
            old(self).wf(),
            value.wf(),
        ensures
            final(self).wf(),
            final(self)@ == (IoApicLines {
                entries: old(self)@.entries.update(index as int, value),
                ..old(self)@
            }),
    {
        self.redirection_entries[index as usize] = value;
    }

    /// The entries in the order of their lines.
    pub fn iter_redirection_entries(&self) -> (r: Vec<RedirectionEntry>)
        requires
            self.wf(),
        ensures
            r@ == self@.entries,
    {
        let mut r: Vec<RedirectionEntry> = Vec::new();
        let mut n: usize = 0;
        while n < 24
            invariant
                n <= 24,
                self.wf(),
                r@ == self@.entries.take(n as int),
            decreases 24 - n,
        {
            r.push(self.redirection_entries[n]);
            proof {
                assert(r@ =~= self@.entries.take(n + 1));
            }
            n = n + 1;
        }
        assert(self@.entries.take(24) =~= self@.entries);
        r
    }

    /// Puts the level on line `index`; returns true if it changed.
    pub fn set_irq_line(&mut self, index: u32, val: bool) -> (r: bool)
        requires
            index < 24,
            old(self).wf(),
        ensures
            final(self).wf(),
            r == (old(self)@.irq_lines[index as int] != val),
            final(self)@ == (IoApicLines {
                irq_lines: old(self)@.irq_lines.update(index as int, val),
                ..old(self)@
            }),
    {
        if val {
            self.irq_lines.set(index as usize)
        } else {
            self.irq_lines.reset(index as usize)
        }
    }
}

/// The registers of the IO APIC.
#[derive(Copy, Clone, Debug)]
pub struct IoApic {
    register_select: u32,
    id: u8,
}

#[derive(Copy, Clone, Debug)]
pub struct IoApicSnapshot {
    pub register_select: u32,
    pub id: u8,
    pub redirection_entries: [u64; 24],
    pub irq_lines: BitsetSnapshot,
}

/// The entry that a register belongs to; entry `n` has the registers `0x10 + 2n` and
/// `0x11 + 2n`.
pub open spec fn entry_of_register(register: u32) -> Option<int> {
    if 0x10 <= register < 0x40 {
        Some((register - 0x10) / 2)
    } else {
        None
    }
}

/// The entries after `val` is written to one half of an entry.
pub open spec fn entries_after_write(
    entries: Seq<RedirectionEntry>,
    register: u32,
    val: u32,
) -> Seq<RedirectionEntry> {
    match entry_of_register(register) {
        Some(n) => {
            let value = entries[n].value_spec();
            let new = if register % 2 == 1 {
                val * 0x1_0000_0000 + value % 0x1_0000_0000
            } else {
                val + value / 0x1_0000_0000 * 0x1_0000_0000
            };
            entries.update(n, RedirectionEntry::of_value(new as u64))
        },
        None => entries,
    }
}

/// The first entry at or behind `n` with the vector, if there is one.
pub open spec fn first_with_vector(entries: Seq<RedirectionEntry>, vector: u8, n: int) -> Option<
    int,
>
    decreases entries.len() - n,
{
    if n >= entries.len() {
        None
    } else if entries[n].vector == vector {
        Some(n)
    } else {
        first_with_vector(entries, vector, n + 1)
    }
}

impl IoApic {
    /// The ID has four bits.
    pub open spec fn wf(&self) -> bool {
        self.id() < 16
    }

    pub closed spec fn register_select(&self) -> u32 {
        self.register_select
    }

    pub closed spec fn id(&self) -> u8 {
        self.id
    }

    pub fn new() -> (r: Self)
        ensures
            r.wf(),
            r.register_select() == 0,
            r.id() == 0,
    {
        Self { register_select: 0, id: 0 }
    }

    pub fn write(&mut self, index: u32, val: u32, core: &mut IoApicCore)
        requires
            old(self).wf(),
            old(core).wf(),
        ensures
            final(self).wf(),
            final(core).wf(),
            final(self).register_select() == (if index == 0 {
                val
            } else {
                old(self).register_select()
            }),
            final(self).id() == (if index == 1 && old(self).register_select() == 0 {
                (val / 0x100_0000 % 16) as u8
            } else {
                old(self).id()
            }),
            final(core)@ == (IoApicLines {
                entries: if index == 1 {
                    entries_after_write(old(core)@.entries, old(self).register_select(), val)
                } else {
                    old(core)@.entries
                },
                ..old(core)@
            }),
    {
        match index {
            0 => self.register_select = val,
            1 => {
                if self.register_select == 0 {
                    self.id = (val / 0x100_0000 % 16) as u8;
                } else if let Some(entry_index) = self.entry_index() {
                    let entry = core.redirection_entry(entry_index);
                    let value: u64 = entry.value();
                    let new_val: u64 = if self.register_select % 2 == 1 {
                        val as u64 * 0x1_0000_0000 + value % 0x1_0000_0000
                    } else {
                        val as u64 + value / 0x1_0000_0000 * 0x1_0000_0000
                    };
                    let entry = RedirectionEntry::from_value(new_val);
                    core.set_redirection_entry(entry_index, entry);
                }
            },
            _ => {},
        }
    }

    fn entry_index(&self) -> (r: Option<u32>)
        ensures
            match entry_of_register(self.register_select()) {
                Some(n) => r.is_some() && r.unwrap() == n && n < 24,
                None => r.is_none(),
            },
    {
        if self.register_select >= 0x10 && self.register_select < 0x10
            + NUM_REDIRECTION_ENTRIES as u32 * 2 {
            Some((self.register_select - 0x10) / 2)
        } else {
            None
        }
    }

    pub open spec fn read_spec(&self, index: u32, core: IoApicLines) -> int {
        let register = self.register_select();
        if index == 0 {
            register as int
        } else if index != 1 {
            0xffff_ffff
        } else if register == 0 {
            self.id() * 0x100_0000
        } else if register == 1 {
            // 24 entries, version 0x11
            0x17_0011
        } else {
            match entry_of_register(register) {
                Some(n) => if register % 2 == 1 {
                    core.entries[n].value_spec() / 0x1_0000_0000
                } else {
                    core.entries[n].value_spec() % 0x1_0000_0000
                },
                None => 0,
            }
        }
    }

    pub fn read(&self, index: u32, core: &IoApicCore) -> (r: u32)
        requires
            self.wf(),
            core.wf(),
        ensures
            r == self.read_spec(index, core@),
    {
        match index {
            0 => self.register_select,
            1 => match self.register_select {
                0 => self.id as u32 * 0x100_0000,
                1 => 0x17_0011,
                // Arbitration priority: unsupported
                2 => 0,
                n => {
                    if let Some(entry_index) = self.entry_index() {
                        let value: u64 = core.redirection_entry(entry_index).value();
                        if n % 2 == 1 {
                            (value / 0x1_0000_0000) as u32
                        } else {
                            (value % 0x1_0000_0000) as u32
                        }
                    } else {
                        0
                    }
                },
            },
            _ => u32::MAX,
        }
    }

    pub fn clear_pending(&self, core: &mut IoApicCore)
        requires
            old(core).wf(),
        ensures
            final(core).wf(),
            final(core)@ == (IoApicLines {
                entries: Seq::new(
                    24,
                    |i: int| RedirectionEntry { pending: false, ..old(core)@.entries[i] },
                ),
                ..old(core)@
            }),
    {
        let mut n: u32 = 0;
        while n < 24
            invariant
                n <= 24,
                core.wf(),
                core@.irq_lines == old(core)@.irq_lines,
                core@.entries.len() == 24,
                forall|i: int|
                    0 <= i < 24 ==> #[trigger] core@.entries[i] == (if i < n {
                        RedirectionEntry { pending: false, ..old(core)@.entries[i] }
                    } else {
                        old(core)@.entries[i]
                    }),
            decreases 24 - n,
        {
            let mut entry = core.redirection_entry(n);
            entry.pending = false;
            core.set_redirection_entry(n, entry);
            n = n + 1;
        }
        assert(core@.entries =~= Seq::new(
            24,
            |i: int| RedirectionEntry { pending: false, ..old(core)@.entries[i] },
        ));
    }

    pub fn find_redirection_entry_from_vector(&self, vector: u8, core: &IoApicCore) -> (r: Option<
        (usize, RedirectionEntry),
    >)
        requires
            core.wf(),
        ensures
            match first_with_vector(core@.entries, vector, 0) {
                Some(n) => r.is_some() && r.unwrap().0 == n && r.unwrap().1 == core@.entries[n],
                None => r.is_none(),
            },
    {
        let mut n: u32 = 0;
        while n < 24
            invariant
                n <= 24,
                core.wf(),
                first_with_vector(core@.entries, vector, 0) == first_with_vector(
                    core@.entries,
                    vector,
                    n as int,
                ),
            decreases 24 - n,
        {
            let entry = core.redirection_entry(n);
            if entry.vector == vector {
                return Some((n as usize, entry));
            }
            n = n + 1;
        }
        None
    }

    pub fn redirection_entry_vector(&self, index: usize, core: &IoApicCore) -> (r: u8)
        requires
            index < 24,
        ensures
            r == core@.entries[index as int].vector,
    {
        core.redirection_entry(index as u32).vector
    }

    pub fn snapshot(&self, core: &IoApicCore) -> (r: IoApicSnapshot)
        requires
            core.wf(),
        ensures
            r.register_select == self.register_select(),
            r.id == self.id(),
            forall|i: int|
                0 <= i < 24 ==> #[trigger] r.redirection_entries@[i]
                    == core@.entries[i].value_spec(),
            members(r.irq_lines.values@) == core@.irq_lines,
    {
        let mut values: [u64; 24] = [0u64;24];
        let mut n: usize = 0;
        while n < 24
            invariant
                n <= 24,
                core.wf(),
                forall|i: int| 0 <= i < n ==> #[trigger] values@[i] == core@.entries[i].value_spec(),
            decreases 24 - n,
        {
            values[n] = core.redirection_entry(n as u32).value();
            n = n + 1;
        }
        IoApicSnapshot {
            register_select: self.register_select,
            id: self.id,
            redirection_entries: values,
            irq_lines: core.irq_lines.snapshot(),
        }
    }

    /// The ID of the snapshot must fit in four bits.
    pub fn restore(&mut self, ioapic: IoApicSnapshot, core: &mut IoApicCore)
        requires
            ioapic.id < 16,
            old(core).wf(),
        ensures
            final(self).wf(),
            final(core).wf(),
            final(self).register_select() == ioapic.register_select,
            final(self).id() == ioapic.id,
            final(core)@ == (IoApicLines {
                entries: Seq::new(
                    24,
                    |i: int| RedirectionEntry::of_value(ioapic.redirection_entries@[i]),
                ),
                irq_lines: members(ioapic.irq_lines.values@),
            }),
    {
        self.register_select = ioapic.register_select;
        self.id = ioapic.id;
        let mut n: u32 = 0;
        while n < 24
            invariant
                n <= 24,
                core.wf(),
                forall|i: int|
                    0 <= i < n ==> #[trigger] core@.entries[i] == RedirectionEntry::of_value(
                        ioapic.redirection_entries@[i],
                    ),
            decreases 24 - n,
        {
            core.set_redirection_entry(
                n,
                RedirectionEntry::from_value(ioapic.redirection_entries[n as usize]),
            );
            n = n + 1;
        }
        core.irq_lines.restore(ioapic.irq_lines);
        assert(core@.entries =~= Seq::new(
            24,
            |i: int| RedirectionEntry::of_value(ioapic.redirection_entries@[i]),
        ));
    }
}

/// The places of the fields in the 64 bits of an entry.
pub proof fn entry_fields_have_their_places(value: u64)
    ensures
        ({
            let e = RedirectionEntry::of_value(value);
            let v = value as int;
            &&& e.vector == v % 0x100
            &&& e.delivery_mode == DeliveryMode::Normal <==> v / 0x100 % 8 == 0
            &&& e.delivery_mode == DeliveryMode::LowPriority <==> v / 0x100 % 8 == 1
            &&& e.sendable() <==> v / 0x100 % 8 <= 1
            &&& e.pending <==> v / 0x1000 % 2 == 1
            &&& e.polarity == Polarity::ActiveLow <==> v / 0x2000 % 2 == 1
            &&& e.was_received <==> v / 0x4000 % 2 == 1
            &&& e.trigger_mode == TriggerMode::LevelSensitive <==> v / 0x8000 % 2 == 1
            &&& e.masked <==> v / 0x1_0000 % 2 == 1
            &&& e.destination == v / 0x100_0000_0000_0000
        }),
{
}

/// Register 0x10 + 2n holds the low half of entry n, and register 0x11 + 2n its high half. A write
/// replaces that half of that entry and nothing else.
pub proof fn registers_hold_halves_of_entries(
    entries: Seq<RedirectionEntry>,
    n: int,
    val: u32,
    other: int,
)
    requires
        entries.len() == 24,
        0 <= n < 24,
        0 <= other < 24,
        entries[n].wf(),
    ensures
        ({
            let low = entries_after_write(entries, (0x10 + 2 * n) as u32, val);
            let high = entries_after_write(entries, (0x11 + 2 * n) as u32, val);
            let before = entries[n].value_spec();
            &&& low[n].value_spec() == val + before / 0x1_0000_0000 * 0x1_0000_0000
            &&& high[n].value_spec() == before % 0x1_0000_0000 + val * 0x1_0000_0000
            &&& other != n ==> low[other] == entries[other] && high[other] == entries[other]
        }),
        forall|register: u32|
            register < 0x10 || register >= 0x40 ==> #[trigger] entries_after_write(
                entries,
                register,
                val,
            ) == entries,
{
    redirection_entry_of_value_of_entry(entries[n]);
    let before: int = entries[n].value_spec();
    assert(0 <= before <= u64::MAX);
    let low: int = val + before / 0x1_0000_0000 * 0x1_0000_0000;
    let high: int = before % 0x1_0000_0000 + val * 0x1_0000_0000;
    assert(0 <= low <= u64::MAX && 0 <= high <= u64::MAX);
    redirection_entry_value_of_value(low as u64);
    redirection_entry_value_of_value(high as u64);
}

} // verus!
