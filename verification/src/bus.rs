//! The system bus: routes each access by its address, to the UART when the
//! address falls in the UART's range, to main memory from `DRAM_BASE` up.
use vstd::prelude::*;
use crate::dram::{
    law_read_after_write, dram_in_bounds, dram_read, dram_write, initial_memory, valid_size, Dram, DRAM_BASE, DRAM_SIZE,
};
use crate::le::{lemma_le_value_bound, lemma_pow256_values, pow256};
use crate::uart::{uart_read, uart_write, Uart, UART_BASE, UART_LSR, UART_LSR_READY, UART_SIZE, UART_THR};

verus! {

/// The devices behind the bus.
pub struct Bus {
    dram: Dram,
    uart: Uart,
}

/// `address` falls in the UART's range.
pub open spec fn in_uart(address: u64) -> bool {
    UART_BASE <= address < UART_BASE + UART_SIZE
}

/// `address` is routed to main memory.
pub open spec fn in_dram(address: u64) -> bool {
    !in_uart(address) && address >= DRAM_BASE
}

/// An access of `size` bits at `address` lies inside memory.
pub open spec fn fits_in_memory(address: u64, size: u64) -> bool {
    dram_in_bounds(DRAM_SIZE as nat, address, (size / 8) as nat)
}

/// What a read of `size` bits at `address` gives, memory holding `mem`: `Err`
/// for an address that routes nowhere, an access that runs past the end of
/// memory, or a width the device does not serve.
pub open spec fn bus_read(mem: Seq<u8>, address: u64, size: u64) -> Result<u64, ()> {
    if in_uart(address) {
        uart_read(address, size)
    } else if in_dram(address) && fits_in_memory(address, size) {
        dram_read(mem, address, size)
    } else {
        Err(())
    }
}

/// Memory and the bytes sent after a write of `size` bits of `value` at
/// `address`, memory holding `mem` and the bytes `sent` before it: `Err` for an
/// address that routes nowhere, an access that runs past the end of memory, or
/// a width the device does not serve.
pub open spec fn bus_write(mem: Seq<u8>, sent: Seq<u8>, address: u64, value: u64, size: u64) -> Result<
    (Seq<u8>, Seq<u8>),
    (),
> {
    if in_uart(address) {
        match uart_write(sent, address, value, size) {
            Ok(s) => Ok((mem, s)),
            Err(e) => Err(e),
        }
    } else if in_dram(address) && fits_in_memory(address, size) {
        match dram_write(mem, address, value, size) {
            Ok(m) => Ok((m, sent)),
            Err(e) => Err(e),
        }
    } else {
        Err(())
    }
}

/// Whether an access of `size` bits at `address` lies inside memory.
fn fits(address: u64, size: u64) -> (ok: bool)
    ensures
        ok == fits_in_memory(address, size),
{
    address >= DRAM_BASE && size / 8 <= DRAM_SIZE && address - DRAM_BASE <= DRAM_SIZE - size / 8
}

/// A read that succeeds gives a value that fits its width.
pub proof fn lemma_read_fits(mem: Seq<u8>, address: u64, size: u64)
    requires
        mem.len() == DRAM_SIZE,
        valid_size(size),
    ensures
        bus_read(mem, address, size) matches Ok(v) ==> v < pow256((size / 8) as nat),
{
    lemma_pow256_values();
    if in_dram(address) && fits_in_memory(address, size) {
        let s = mem.subrange(address - DRAM_BASE, address - DRAM_BASE + size / 8);
        lemma_le_value_bound(s);
    }
}

impl Bus {
    /// What main memory holds.
    pub closed spec fn memory(&self) -> Seq<u8> {
        self.dram@
    }

    /// The bytes the UART has sent and that were not taken yet.
    pub closed spec fn output(&self) -> Seq<u8> {
        self.uart@
    }

    /// Main memory has its full size.
    pub open spec fn wf(&self) -> bool {
        self.memory().len() == DRAM_SIZE
    }

    /// A bus with `code` at the start of memory, zeros after it, and nothing sent.
    pub fn new(code: Vec<u8>) -> (bus: Self)
        requires
            code.len() <= DRAM_SIZE,
        ensures
            bus.wf(),
            bus.memory() == initial_memory(code@),
            bus.output() == Seq::<u8>::empty(),
    {
        Self { dram: Dram::new(code), uart: Uart::new() }
    }

    /// Reads `size` bits at `address` from the device the address routes to;
    /// `Err` for an address that routes nowhere, an access that runs past the
    /// end of memory, or a width the device does not serve.
    pub fn load(&self, address: u64, size: u64) -> (r: Result<u64, ()>)
        requires
            self.wf(),
        ensures
            r == bus_read(self.memory(), address, size),
    {
        if UART_BASE <= address && address < UART_BASE + UART_SIZE {
            return self.uart.load(address, size);
        } else if fits(address, size) {
            return self.dram.load(address, size);
        }
        Err(())
    }

    /// Writes the `size` low bits of `value` at `address` to the device the
    /// address routes to; `Err`, with nothing changed, for an address that routes
    /// nowhere, an access that runs past the end of memory, or a width the
    /// device does not serve.
    pub fn store(&mut self, address: u64, value: u64, size: u64) -> (r: Result<(), ()>)
        requires
            old(self).wf(),
        ensures
            final(self).wf(),
            match bus_write(old(self).memory(), old(self).output(), address, value, size) {
                Ok((mem, sent)) => r is Ok && final(self).memory() == mem && final(self).output()
                    == sent,
                Err(_) => r is Err && final(self).memory() == old(self).memory()
                    && final(self).output() == old(self).output(),
            },
    {
        if UART_BASE <= address && address < UART_BASE + UART_SIZE {
            return self.uart.store(address, value, size);
        } else if fits(address, size) {
            let r = self.dram.store(address, value, size);
            proof {
                if valid_size(size) {
                    crate::le::lemma_le_bytes_len(value as nat, (size / 8) as nat);
                }
            }
            return r;
        }
        Err(())
    }

    /// Hands out the bytes the UART has sent so far, oldest first, and forgets them.
    pub fn take_output(&mut self) -> (sent: Vec<u8>)
        requires
            old(self).wf(),
        ensures
            final(self).wf(),
            sent@ == old(self).output(),
            final(self).output() == Seq::<u8>::empty(),
            final(self).memory() == old(self).memory(),
    {
        self.uart.take_output()
    }
}

/// Through the bus, a read of memory at the address and width of a write gives
/// back the value written, reduced to that width; the UART sends nothing.
pub proof fn law_bus_read_after_write(
    mem: Seq<u8>,
    sent: Seq<u8>,
    address: u64,
    value: u64,
    size: u64,
)
    requires
        mem.len() == DRAM_SIZE,
        valid_size(size),
        in_dram(address),
        fits_in_memory(address, size),
    ensures
        bus_write(mem, sent, address, value, size) matches Ok((written, now_sent)) && now_sent
            == sent && bus_read(written, address, size) == Ok::<u64, ()>(
            (value as nat % pow256((size / 8) as nat)) as u64,
        ),
{
    law_read_after_write(mem, address, value, size);
}

/// A byte write to the UART leaves memory as it was; written to the transmit
/// register, the byte is sent after those sent before.
pub proof fn law_uart_write(mem: Seq<u8>, sent: Seq<u8>, address: u64, value: u64)
    requires
        in_uart(address),
    ensures
        bus_write(mem, sent, address, value, 8) == Ok::<(Seq<u8>, Seq<u8>), ()>(
            (mem, if address == UART_THR { sent.push((value % 256) as u8) } else { sent }),
        ),
{
}

/// The UART's status register always reads "ready to transmit", whatever memory holds.
pub proof fn law_uart_always_ready(mem: Seq<u8>)
    ensures
        bus_read(mem, UART_LSR, 8) == Ok::<u64, ()>(UART_LSR_READY),
{
}

/// An access that runs past the end of memory fails: a read gives `Err`, and
/// a write gives `Err` and changes nothing.
pub proof fn law_access_past_memory_fails(
    mem: Seq<u8>,
    sent: Seq<u8>,
    address: u64,
    value: u64,
    size: u64,
)
    requires
        in_dram(address),
        !fits_in_memory(address, size),
    ensures
        bus_read(mem, address, size) is Err,
        bus_write(mem, sent, address, value, size) is Err,
{
}

} // verus!
