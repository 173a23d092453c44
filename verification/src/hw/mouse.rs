//! A serial mouse.
use std::collections::VecDeque;

use vstd::prelude::*;

use crate::bytes::{weigh8, weight};

verus! {

#[derive(Debug)]
pub struct UartMouse {
    send_buffer: VecDeque<u8>,
    can_send: bool,
}

/// What the mouse is about to send, and whether it may.
pub struct MouseModel {
    pub send_buffer: Seq<u8>,
    pub can_send: bool,
}

impl View for UartMouse {
    type V = MouseModel;

    closed spec fn view(&self) -> MouseModel {
        MouseModel { send_buffer: self.send_buffer@, can_send: self.can_send }
    }
}

/// A movement in three bytes: the buttons with the two highest bits of each direction, and the
/// rest of each direction.
pub open spec fn movement(x: u8, y: u8, left_pressed: bool, right_pressed: bool) -> Seq<u8> {
    seq![
        (0xc0 + weight(left_pressed, 0x20) + weight(right_pressed, 0x10) + y / 64 * 4 + x
            / 64) as u8,
        (x % 64) as u8,
        (y % 64) as u8,
    ]
}

impl Default for UartMouse {
    fn default() -> (r: Self)
        ensures
            r@ == (MouseModel { send_buffer: Seq::empty(), can_send: false }),
    {
        Self::new()
    }
}

impl UartMouse {
    pub fn new() -> (r: Self)
        ensures
            r@ == (MouseModel { send_buffer: Seq::empty(), can_send: false }),
    {
        UartMouse { send_buffer: VecDeque::new(), can_send: false }
    }

    /// Queues a movement, which is a byte in each direction.
    pub fn update_position(&mut self, x: u8, y: u8, left_pressed: bool, right_pressed: bool)
        ensures
            final(self)@ == (MouseModel {
                send_buffer: old(self)@.send_buffer + movement(
                    x,
                    y,
                    left_pressed,
                    right_pressed,
                ),
                ..old(self)@
            }),
    {
        self.send_buffer.push_back(
            0xc0 + weigh8(left_pressed, 0x20) + weigh8(right_pressed, 0x10) + y / 64 * 4 + x / 64,
        );
        self.send_buffer.push_back(x % 64);
        self.send_buffer.push_back(y % 64);
        assert(self@.send_buffer =~= old(self)@.send_buffer + movement(
            x,
            y,
            left_pressed,
            right_pressed,
        ));
    }

    /// Raising the line resets the mouse, which then identifies itself with an `M`.
    pub fn set_request_to_send(&mut self, rts: bool)
        ensures
            final(self)@ == (MouseModel {
                send_buffer: if !old(self)@.can_send && rts {
                    seq![0x4du8, 0xc0, 0x00, 0x00]
                } else {
                    old(self)@.send_buffer
                },
                can_send: rts,
            }),
    {
        if !self.can_send && rts {
            self.send_buffer.clear();
            self.send_buffer.push_back(0x4d);
            self.send_buffer.push_back(0xc0);
            self.send_buffer.push_back(0x00);
            self.send_buffer.push_back(0x00);
            assert(self.send_buffer@ =~= seq![0x4du8, 0xc0, 0x00, 0x00]);
        }
        self.can_send = rts;
    }

    pub fn set_data_terminal_ready(&mut self, _dtr: bool)
        ensures
            final(self)@ == old(self)@,
    {
    }

    pub fn begin_receive(&mut self)
        ensures
            final(self)@ == old(self)@,
    {
    }

    pub fn recv(&mut self) -> (r: u8)
        ensures
            r == (if old(self)@.can_send && old(self)@.send_buffer.len() > 0 {
                old(self)@.send_buffer[0]
            } else {
                0u8
            }),
            final(self)@ == (if old(self)@.can_send && old(self)@.send_buffer.len() > 0 {
                MouseModel { send_buffer: old(self)@.send_buffer.skip(1), ..old(self)@ }
            } else {
                old(self)@
            }),
    {
        if self.can_send {
            let front = self.send_buffer.pop_front();
            assert(old(self)@.send_buffer.len() > 0 ==> self@.send_buffer =~= old(self)@.send_buffer.skip(1));
            match front {
                Some(b) => b,
                None => 0,
            }
        } else {
            0x00
        }
    }

    pub fn data_remaining(&self) -> (r: bool)
        ensures
            r == (self@.send_buffer.len() > 0 && self@.can_send),
    {
        self.send_buffer.len() > 0 && self.can_send
    }

    pub fn data_available(&self) -> (r: bool)
        ensures
            r == (self@.send_buffer.len() > 0),
    {
        self.send_buffer.len() > 0
    }

    pub fn end_receive(&mut self)
        ensures
            final(self)@ == (MouseModel { send_buffer: Seq::empty(), ..old(self)@ }),
    {
        self.send_buffer.clear();
    }
}

/// The three bytes of a movement: the first one has bits 6 and 7 set, the left button in bit 5, the
/// right one in bit 4 and the high bits of both directions below them; the others hold the low bits,
/// first of x, then of y.
pub proof fn movements_hold_their_parts(x: u8, y: u8, left: bool, right: bool)
    ensures
        ({
            let m = movement(x, y, left, right);
            &&& m.len() == 3
            &&& m[0] / 0x40 == 3
            &&& m[0] / 0x20 % 2 == 1 <==> left
            &&& m[0] / 0x10 % 2 == 1 <==> right
            &&& m[0] % 4 * 64 + m[1] == x
            &&& m[0] / 4 % 4 * 64 + m[2] == y
            &&& m[1] < 64 && m[2] < 64
        }),
{
    let a: int = x as int / 64;
    let b: int = y as int / 64;
    let low: int = b * 4 + a;
    let v: int = 0xc0 + weight(left, 0x20) + weight(right, 0x10) + low;
    assert(0 <= low < 16);
    assert(v % 16 == low);
    assert(v % 4 == a);
    assert(v / 4 % 4 == b);
}

} // verus!
