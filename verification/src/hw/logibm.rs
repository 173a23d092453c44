//! A bus mouse.
use vstd::prelude::*;

use crate::bytes::{bit_at, weigh8, weight};
use crate::hw::pic::{still_accepts, DualIrqLine, IrqSystem};

verus! {

#[derive(Copy, Clone, Debug, PartialEq, Eq, Structural)]
pub struct Control {
    pub value: u8,
}

impl Control {
    pub open spec fn disable_irq_spec(&self) -> bool {
        bit_at(self.value as int, 0x10)
    }

    /// Whether the upper half of a movement is read.
    pub open spec fn high_spec(&self) -> bool {
        bit_at(self.value as int, 0x20)
    }

    pub open spec fn y_axis_spec(&self) -> bool {
        bit_at(self.value as int, 0x40)
    }

    pub open spec fn hold_spec(&self) -> bool {
        bit_at(self.value as int, 0x80)
    }

    pub open spec fn with_irq_mask(self, mask: int) -> Control {
        Control { value: (self.value / 16 * 16 + mask) as u8 }
    }

    fn set_irq_mask(&mut self, mask: u8)
        requires
            mask < 16,
        ensures
            *final(self) == old(self).with_irq_mask(mask as int),
    {
        self.value = self.value / 16 * 16 + mask;
    }
}

#[derive(Copy, Clone, Debug, PartialEq, Eq, Structural)]
pub struct Buttons {
    pub right: bool,
    pub middle: bool,
    pub left: bool,
}

impl Buttons {
    pub open spec fn value_spec(&self) -> int {
        weight(self.right, 0x20) + weight(self.middle, 0x40) + weight(self.left, 0x80)
    }

    pub fn value(&self) -> (r: u8)
        ensures
            r == self.value_spec(),
            r <= 0xe0,
    {
        weigh8(self.right, 0x20) + weigh8(self.middle, 0x40) + weigh8(self.left, 0x80)
    }
}

/// The two's complement byte of a movement.
pub open spec fn movement_byte(delta: i8) -> int {
    if delta < 0 {
        delta + 0x100
    } else {
        delta as int
    }
}

fn to_byte(delta: i8) -> (r: u8)
    ensures
        r == movement_byte(delta),
{
    if delta < 0 {
        (delta as i16 + 0x100) as u8
    } else {
        delta as u8
    }
}

/// The mouse. Movements that were not reported yet are kept by the caller.
#[derive(Copy, Clone, Debug)]
pub struct LogiBM {
    pub control: Control,
    pub config: u8,
    pub signature: u8,
    pub delta_x: i8,
    pub delta_y: i8,
    pub pending_buttons: Buttons,
    pub current_buttons: Buttons,
    pub next_update: u64,
    pub toggle_counter: u16,
    pub irq_line: DualIrqLine,
}

impl LogiBM {
    pub open spec fn wf(&self) -> bool {
        self.toggle_counter < 0x7ff
    }

    pub fn new(irq_line: DualIrqLine) -> (r: Self)
        ensures
            r.wf(),
            r == (LogiBM {
                control: Control { value: 0x1f },
                config: 0xe,
                signature: 0xA5,
                delta_x: 0,
                delta_y: 0,
                pending_buttons: Buttons { right: false, middle: false, left: false },
                current_buttons: Buttons { right: false, middle: false, left: false },
                next_update: 0,
                toggle_counter: 0,
                irq_line,
            }),
    {
        Self {
            // All interrupt lines masked, interrupts disabled.
            control: Control { value: 0x1f },
            config: 0xe,
            signature: 0xA5,
            delta_x: 0,
            delta_y: 0,
            current_buttons: Buttons { right: false, middle: false, left: false },
            pending_buttons: Buttons { right: false, middle: false, left: false },
            next_update: 0,
            toggle_counter: 0,
            irq_line,
        }
    }

    /// The half of a movement that the control register selects. The buttons, inverted, go with
    /// the upper half of the vertical movement.
    pub open spec fn data(&self) -> int {
        let delta = if self.control.y_axis_spec() {
            movement_byte(self.delta_y)
        } else {
            movement_byte(self.delta_x)
        };
        if !self.control.high_spec() {
            delta % 16
        } else if self.control.y_axis_spec() {
            delta / 16 + (0xe0 - self.current_buttons.value_spec())
        } else {
            delta / 16
        }
    }

    pub open spec fn read_value(&self, port: u8) -> int {
        if port == 0 {
            self.data()
        } else if port == 1 {
            self.signature as int
        } else if port == 2 {
            self.control.value as int
        } else {
            self.config as int
        }
    }

    /// Reading the control register moves its interrupt bits on, which drivers probe.
    pub fn read(&mut self, port: u8) -> (r: u8)
        requires
            old(self).wf(),
            port < 4,
        ensures
            final(self).wf(),
            r == old(self).read_value(port),
            *final(self) == (if port == 2 {
                LogiBM {
                    control: old(self).control.with_irq_mask(
                        if old(self).toggle_counter > 0x3ff {
                            0xe
                        } else {
                            0xf
                        },
                    ),
                    toggle_counter: ((old(self).toggle_counter + 1) % 0x7ff) as u16,
                    ..*old(self)
                }
            } else {
                *old(self)
            }),
    {
        match port {
            // Data
            0 => {
                let delta: u8 = if self.control.value / 0x40 % 2 == 1 {
                    to_byte(self.delta_y)
                } else {
                    to_byte(self.delta_x)
                };
                if self.control.value / 0x20 % 2 == 0 {
                    delta % 16
                } else if self.control.value / 0x40 % 2 == 1 {
                    let buttons: u8 = self.current_buttons.value();
                    delta / 16 + (0xe0 - buttons)
                } else {
                    delta / 16
                }
            },
            // Magic signature byte
            1 => self.signature,
            // Control
            2 => {
                let val: u8 = self.control.value;
                self.control.set_irq_mask(
                    if self.toggle_counter > 0x3ff {
                        0xe
                    } else {
                        0xf
                    },
                );
                self.toggle_counter = (self.toggle_counter + 1) % 0x7ff;
                val
            },
            // Config
            _ => self.config,
        }
    }

    pub fn write(&mut self, port: u8, val: u8)
        requires
            old(self).wf(),
            port < 4,
        ensures
            final(self).wf(),
            *final(self) == (if port == 1 {
                LogiBM { signature: val, ..*old(self) }
            } else if port == 2 {
                LogiBM { control: (Control { value: val }).with_irq_mask(0xf), ..*old(self) }
            } else if port == 3 {
                LogiBM { config: val, ..*old(self) }
            } else {
                *old(self)
            }),
    {
        match port {
            // Data
            0 => {},
            // Signature
            1 => self.signature = val,
            // Control
            2 => {
                self.control = Control { value: val };
                self.control.set_irq_mask(0xf);
            },
            // Config
            _ => self.config = val,
        }
    }

    /// Takes note of the buttons.
    pub fn update(&mut self, left_pressed: bool, right_pressed: bool)
        ensures
            *final(self) == (LogiBM {
                pending_buttons: Buttons {
                    right: right_pressed,
                    middle: false,
                    left: left_pressed,
                },
                ..*old(self)
            }),
    {
        self.pending_buttons =
        Buttons { right: right_pressed, middle: false, left: left_pressed };
    }

    /// Whether there is anything to report; `moved` tells whether a movement is.
    pub fn data_pending(&self, moved: bool) -> (r: bool)
        ensures
            r == (moved || self.pending_buttons != self.current_buttons),
    {
        moved || self.pending_buttons != self.current_buttons
    }

    /// Reports a movement and the buttons.
    pub fn apply_pending(&mut self, delta_x: i8, delta_y: i8)
        ensures
            *final(self) == (LogiBM {
                delta_x,
                delta_y,
                current_buttons: old(self).pending_buttons,
                ..*old(self)
            }),
    {
        self.delta_x = delta_x;
        self.delta_y = delta_y;
        self.current_buttons = self.pending_buttons;
    }

    /// Whether an interrupt is due at time `k`.
    pub open spec fn due(&self, k: u64, moved: bool) -> bool {
        &&& k >= self.next_update
        &&& moved || self.pending_buttons != self.current_buttons
        &&& !self.control.disable_irq_spec()
    }

    /// Tells whether the interrupt is due.
    pub fn is_due(&self, k: u64, moved: bool) -> (r: bool)
        ensures
            r == self.due(k, moved),
    {
        k >= self.next_update && self.data_pending(moved) && self.control.value / 0x10 % 2 == 0
    }

    /// Raises the interrupt if it is due. Returns whether what is pending has to be applied now.
    pub fn check_data_to_send(&mut self, k: u64, moved: bool, irq: &mut IrqSystem) -> (r: bool)
        requires
            old(self).due(k, moved) ==> old(self).irq_line.ready(&*old(irq)) && k + 30_000
                <= u64::MAX,
        ensures
            old(self).irq_line.ready(&*old(irq)) ==> final(self).irq_line.ready(&*final(irq)),
            still_accepts(&*old(irq), &*final(irq)),
            r == (old(self).due(k, moved) && !old(self).control.hold_spec()),
            *final(self) == (if old(self).due(k, moved) {
                LogiBM { next_update: (k + 30_000) as u64, ..*old(self) }
            } else {
                *old(self)
            }),
            final(irq)@ == (if old(self).due(k, moved) {
                old(self).irq_line.pulsed(old(irq)@)
            } else {
                old(irq)@
            }),
    {
        if self.is_due(k, moved) {
            self.irq_line.set(true, irq);
            self.next_update = k + 30_000;
            self.control.value / 0x80 % 2 == 0
        } else {
            false
        }
    }
}

/// The data register hands a movement out in two halves, which together are its two's complement
/// byte: bit 6 of the control register asks for the vertical one, bit 5 for the upper half. The upper
/// half of the vertical movement comes with the buttons, whose bits are clear while they are pressed.
pub proof fn movements_are_read_in_halves(m: LogiBM, low: u8, high: u8)
    requires
        low / 0x20 % 2 == 0,
        high / 0x20 % 2 == 1,
        low / 0x40 % 2 == high / 0x40 % 2,
    ensures
        ({
            let lower = (LogiBM { control: Control { value: low }, ..m }).read_value(0);
            let upper = (LogiBM { control: Control { value: high }, ..m }).read_value(0);
            let byte = lower + upper % 16 * 16;
            let vertical = low / 0x40 % 2 == 1;
            let delta = if vertical {
                m.delta_y as int
            } else {
                m.delta_x as int
            };
            &&& 0 <= byte < 0x100
            &&& byte == delta || byte == delta + 0x100
            &&& vertical ==> {
                &&& upper / 0x10 % 2 == 0
                &&& (upper / 0x20 % 2 == 0) == m.current_buttons.right
                &&& (upper / 0x40 % 2 == 0) == m.current_buttons.middle
                &&& (upper / 0x80 == 0) == m.current_buttons.left
            }
            &&& !vertical ==> upper < 16
        }),
{
    let (l, h) = (
        LogiBM { control: Control { value: low }, ..m },
        LogiBM { control: Control { value: high }, ..m },
    );
    assert(!l.control.high_spec() && h.control.high_spec());
    assert(l.control.y_axis_spec() == (low / 0x40 % 2 == 1));
    assert(h.control.y_axis_spec() == (low / 0x40 % 2 == 1));
    let b = m.current_buttons;
    if low / 0x40 % 2 == 1 {
        let byte: int = movement_byte(m.delta_y);
        assert(l.read_value(0) == byte % 16);
        assert(h.read_value(0) == byte / 16 + (0xe0 - b.value_spec()));
        lemma_buttons_above(byte / 16, b);
    } else {
        let byte: int = movement_byte(m.delta_x);
        assert(l.read_value(0) == byte % 16);
        assert(h.read_value(0) == byte / 16);
    }
}

proof fn lemma_buttons_above(half: int, b: Buttons)
    requires
        0 <= half < 16,
    ensures
        ({
            let v = half + (0xe0 - b.value_spec());
            &&& v % 16 == half
            &&& v / 0x10 % 2 == 0
            &&& (v / 0x20 % 2 == 0) == b.right
            &&& (v / 0x40 % 2 == 0) == b.middle
            &&& (v / 0x80 == 0) == b.left
        }),
{
    let v: int = half + (0xe0 - b.value_spec());
    let rest: int = 0xe0 - b.value_spec();
    assert(rest == weight(!b.right, 0x20) + weight(!b.middle, 0x40) + weight(!b.left, 0x80));
    assert(v / 0x10 == rest / 0x10 && v / 0x20 == rest / 0x20);
    assert(v / 0x40 == rest / 0x40 && v / 0x80 == rest / 0x80);
    match (b.right, b.middle, b.left) {
        (false, false, false) => {
            assert(rest == 0xe0);
        },
        (false, false, true) => {
            assert(rest == 0x60);
        },
        (false, true, false) => {
            assert(rest == 0xa0);
        },
        (false, true, true) => {
            assert(rest == 0x20);
        },
        (true, false, false) => {
            assert(rest == 0xc0);
        },
        (true, false, true) => {
            assert(rest == 0x40);
        },
        (true, true, false) => {
            assert(rest == 0x80);
        },
        (true, true, true) => {
            assert(rest == 0);
        },
    }
}

} // verus!
