//! Framing codec for the serial link to an XBee ZigBee radio module in API mode.
//!
//! `frame` holds the typed commands and events with their byte layouts;
//! `serializer` wraps them in delimited, length-prefixed, checksummed frames
//! and moves them, step by step, over a byte-at-a-time transport. The two handles of this
//! file stand for a radio in its two modes and pass the serial port from one
//! to the other.

use vstd::prelude::*;

pub mod frame;
pub mod serializer;

verus! {

/// A radio in transparent mode: what is written to the serial port goes out
/// over the air as it is.
pub struct XBeeTransparent<'a, 'b, U: 'a, D: 'b> {
    serial: &'a mut U,
    timer: &'b mut D,
    cmd_char: u8,
    guard_time: u16,
}

/// A radio in API mode: the serial port carries frames.
pub struct XBeeApiUart<'a, U: 'a> {
    serial: &'a mut U,
}

impl<'a, 'b, U, D> XBeeTransparent<'a, 'b, U, D> {
    /// The serial port as it stands.
    pub closed spec fn port(self) -> U {
        *self.serial
    }

    /// The timer as it stands.
    pub closed spec fn clock(self) -> D {
        *self.timer
    }

    /// The character that, sent three times, asks for command mode.
    pub closed spec fn command_char(self) -> u8 {
        self.cmd_char
    }

    /// The silence, in milliseconds, that has to precede that request.
    pub closed spec fn guard(self) -> u16 {
        self.guard_time
    }

    /// A handle for the radio behind `uart`, with the command character and
    /// the guard time that the radio is set to.
    pub fn new(uart: &'a mut U, delay: &'b mut D, cmd_char: u8, guard_time: u16) -> (x:
        XBeeTransparent<'a, 'b, U, D>)
        ensures
            x.port() == *old(uart),
            x.clock() == *old(delay),
            x.command_char() == cmd_char,
            x.guard() == guard_time,
    {
        XBeeTransparent { serial: uart, timer: delay, cmd_char, guard_time }
    }

    /// The handle for API mode on the same serial port.
    pub fn to_api(self) -> (api: XBeeApiUart<'a, U>)
        ensures
            api.port() == self.port(),
    {
        XBeeApiUart::new(self.serial)
    }

    /// The character that, sent three times, asks for command mode.
    pub fn cmd_char(&self) -> (c: u8)
        ensures
            c == self.command_char(),
    {
        self.cmd_char
    }

    /// The silence, in milliseconds, that has to precede that request.
    pub fn guard_time(&self) -> (t: u16)
        ensures
            t == self.guard(),
    {
        self.guard_time
    }

    /// The serial port, to read from and write to.
    pub fn serial(&mut self) -> (port: &mut U)
        ensures
            *port == old(self).port(),
            final(self).port() == *final(port),
            final(self).clock() == old(self).clock(),
            final(self).command_char() == old(self).command_char(),
            final(self).guard() == old(self).guard(),
    {
        &mut *self.serial
    }

    /// The timer, to wait with.
    pub fn timer(&mut self) -> (timer: &mut D)
        ensures
            *timer == old(self).clock(),
            final(self).clock() == *final(timer),
            final(self).port() == old(self).port(),
            final(self).command_char() == old(self).command_char(),
            final(self).guard() == old(self).guard(),
    {
        &mut *self.timer
    }
}

impl<'a, U> XBeeApiUart<'a, U> {
    /// The serial port as it stands.
    pub closed spec fn port(self) -> U {
        *self.serial
    }

    /// A handle for the radio behind `uart`.
    pub fn new(uart: &'a mut U) -> (api: XBeeApiUart<'a, U>)
        ensures
            api.port() == *old(uart),
    {
        XBeeApiUart { serial: uart }
    }

    /// The handle for transparent mode on the same serial port.
    pub fn to_transpartent<'b, D>(self, delay: &'b mut D, cmd_char: u8, guard_time: u16) -> (x:
        XBeeTransparent<'a, 'b, U, D>)
        ensures
            x.port() == self.port(),
            x.clock() == *old(delay),
            x.command_char() == cmd_char,
            x.guard() == guard_time,
    {
        XBeeTransparent::new(self.serial, delay, cmd_char, guard_time)
    }

    /// The serial port, to read from and write to.
    pub fn serial(&mut self) -> (port: &mut U)
        ensures
            *port == old(self).port(),
            final(self).port() == *final(port),
    {
        &mut *self.serial
    }
}

} // verus!
