//! Serial output (a 16550-style UART) mapped at `UART_BASE`: a byte written to its
//! transmit register is sent out; its status register always reads "ready".
//! The bytes sent are kept, in order, until the program around the emulator
//! takes them to print them.
use vstd::prelude::*;

verus! {

/// Address of the first UART register.
pub const UART_BASE: u64 = 0x1000_0000;

/// Size of the UART's address range in bytes.
pub const UART_SIZE: u64 = 0x100;

/// Receive holding register (reads): there is no input, it reads 0.
pub const UART_RHR: u64 = UART_BASE + 0;

/// Transmit holding register (writes): a byte written here is sent out.
pub const UART_THR: u64 = UART_BASE + 0;

/// Line status register: reads "ready to transmit".
pub const UART_LSR: u64 = UART_BASE + 5;

/// Value of the line status register: bits 5 and 6 set, transmitter ready.
pub const UART_LSR_READY: u64 = 0x60;

/// The UART, with the bytes sent and not yet taken.
pub struct Uart {
    output: Vec<u8>,
}

impl View for Uart {
    type V = Seq<u8>;

    /// The bytes sent and not yet taken, oldest first.
    closed spec fn view(&self) -> Seq<u8> {
        self.output@
    }
}

/// What a read of `size` bits at UART register `address` gives.
pub open spec fn uart_read(address: u64, size: u64) -> Result<u64, ()> {
    if size != 8 {
        Err(())
    } else if address == UART_LSR {
        Ok(UART_LSR_READY)
    } else {
        Ok(0)
    }
}

/// The bytes sent after a write of `size` bits of `value` at UART register
/// `address`, given the bytes `sent` before it.
pub open spec fn uart_write(sent: Seq<u8>, address: u64, value: u64, size: u64) -> Result<
    Seq<u8>,
    (),
> {
    if size != 8 {
        Err(())
    } else if address == UART_THR {
        Ok(sent.push((value % 256) as u8))
    } else {
        Ok(sent)
    }
}

impl Uart {
    /// A UART that has sent nothing.
    pub fn new() -> (uart: Self)
        ensures
            uart@ == Seq::<u8>::empty(),
    {
        Self { output: Vec::new() }
    }

    /// Reads a UART register; its registers are one byte wide, so any other
    /// width gives `Err`.
    pub fn load(&self, address: u64, size: u64) -> (r: Result<u64, ()>)
        ensures
            r == uart_read(address, size),
    {
        if size != 8 {
            return Err(());
        }
        if address == UART_LSR {
            Ok(UART_LSR_READY)
        } else if address == UART_RHR {
            Ok(0)
        } else {
            Ok(0)
        }
    }

    /// Writes a UART register: the low byte of `value` written to the transmit
    /// register is sent; writes to other registers are ignored; a width other
    /// than 8 bits gives `Err` and sends nothing.
    pub fn store(&mut self, address: u64, value: u64, size: u64) -> (r: Result<(), ()>)
        ensures
            match uart_write(old(self)@, address, value, size) {
                Ok(sent) => r is Ok && final(self)@ == sent,
                Err(_) => r is Err && final(self)@ == old(self)@,
            },
    {
        if size != 8 {
            return Err(());
        }
        if address == UART_THR {
            let byte = (value & 0xff) as u8;
            assert(value & 0xff == value % 256) by (bit_vector);
            self.output.push(byte);
        }
        Ok(())
    }

    /// Hands out the bytes sent so far, oldest first, and forgets them.
    pub fn take_output(&mut self) -> (sent: Vec<u8>)
        ensures
            sent@ == old(self)@,
            final(self)@ == Seq::<u8>::empty(),
    {
        let mut sent: Vec<u8> = Vec::new();
        std::mem::swap(&mut sent, &mut self.output);
        sent
    }
}

} // verus!
