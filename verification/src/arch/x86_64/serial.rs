//! The 16550 UART at COM1: which registers are written to set it up for
//! 115200 baud, 8N1, and when it takes the next byte. Port I/O itself is the
//! caller's.

use vstd::prelude::*;

verus! {

/// First port of COM1.
pub const COM1_BASE: u16 = 0x3f8;

/// Receive/transmit buffer, or the divisor's low byte while DLAB is set.
pub const DATA: u16 = 0;

/// Interrupt enable, or the divisor's high byte while DLAB is set.
pub const IER: u16 = 1;

/// FIFO control.
pub const FCR: u16 = 2;

/// Line control.
pub const LCR: u16 = 3;

/// Modem control.
pub const MCR: u16 = 4;

/// Line status.
pub const LSR: u16 = 5;

/// Bit of the line status that is set while the transmit buffer is empty.
pub const LSR_TRANSMIT_EMPTY: u8 = 0x20;

/// One write to a port.
#[derive(Clone, Copy, Debug, PartialEq, Eq, Structural)]
pub struct PortWrite {
    pub port: u16,
    pub value: u8,
}

/// The writes that set up COM1, in their order.
pub open spec fn init_writes() -> Seq<PortWrite> {
    seq![
        // Disable interrupts.
        PortWrite { port: 0x3f9, value: 0x00 },
        // Enable DLAB.
        PortWrite { port: 0x3fb, value: 0x80 },
        // Divisor 1: 115200 baud.
        PortWrite { port: 0x3f8, value: 0x01 },
        PortWrite { port: 0x3f9, value: 0x00 },
        // 8N1, disable DLAB.
        PortWrite { port: 0x3fb, value: 0x03 },
        // Enable and clear the FIFOs.
        PortWrite { port: 0x3fa, value: 0xc7 },
        // Enable DTR, RTS, OUT2.
        PortWrite { port: 0x3fc, value: 0x0b },
    ]
}

/// The writes that set up COM1 for 115200 baud, 8N1, in the order in which
/// they are made.
pub fn init_sequence() -> (writes: Vec<PortWrite>)
    ensures
        writes@ == init_writes(),
{
    let mut writes: Vec<PortWrite> = Vec::new();
    writes.push(PortWrite { port: COM1_BASE + IER, value: 0x00 });
    writes.push(PortWrite { port: COM1_BASE + LCR, value: 0x80 });
    writes.push(PortWrite { port: COM1_BASE + DATA, value: 0x01 });
    writes.push(PortWrite { port: COM1_BASE + IER, value: 0x00 });
    writes.push(PortWrite { port: COM1_BASE + LCR, value: 0x03 });
    writes.push(PortWrite { port: COM1_BASE + FCR, value: 0xc7 });
    writes.push(PortWrite { port: COM1_BASE + MCR, value: 0x0b });
    assert(writes@ =~= init_writes());
    writes
}

/// Whether the UART takes a byte, given what its line status register
/// reads.
pub fn transmit_ready(line_status: u8) -> (ready: bool)
    ensures
        ready == (line_status & LSR_TRANSMIT_EMPTY != 0),
{
    line_status & LSR_TRANSMIT_EMPTY != 0
}

} // verus!
