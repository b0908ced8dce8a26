use rvcore::bus::Bus;
use rvcore::dram::{Dram, DRAM_BASE, DRAM_SIZE};
use rvcore::uart::{Uart, UART_BASE, UART_LSR, UART_THR};

#[test]
fn dram_new_holds_code_then_zeros() {
    let dram = Dram::new(vec![1, 2, 3]);
    assert_eq!(dram.dra_memory.len(), DRAM_SIZE as usize);
    assert_eq!(&dram.dra_memory[..4], &[1, 2, 3, 0]);
    assert!(dram.dra_memory[3..].iter().all(|b| *b == 0));
}

#[test]
fn little_endian_layout() {
    let mut dram = Dram::new(Vec::new());
    dram.write32(DRAM_BASE, 0x1234_5678);
    assert_eq!(&dram.dra_memory[..4], &[0x78, 0x56, 0x34, 0x12]);
    assert_eq!(dram.load8(DRAM_BASE), 0x78);
    assert_eq!(dram.load8(DRAM_BASE + 3), 0x12);
    assert_eq!(dram.load16(DRAM_BASE), 0x5678);
    assert_eq!(dram.load32(DRAM_BASE), 0x1234_5678);
}

#[test]
fn load64_assembles_eight_bytes() {
    let dram = Dram::new(vec![0x01, 0x23, 0x45, 0x67, 0x89, 0xab, 0xcd, 0xef]);
    assert_eq!(dram.load64(DRAM_BASE), 0xefcd_ab89_6745_2301);
    assert_eq!(dram.load16(DRAM_BASE + 6), 0xefcd);
}

#[test]
fn writes_keep_only_their_width() {
    let mut dram = Dram::new(Vec::new());
    dram.write64(DRAM_BASE + 8, u64::MAX);
    dram.write8(DRAM_BASE + 8, 0x1234);
    assert_eq!(dram.load64(DRAM_BASE + 8), 0xffff_ffff_ffff_ff34);
    dram.write16(DRAM_BASE + 8, 0xabcd_ef01);
    assert_eq!(dram.load64(DRAM_BASE + 8), 0xffff_ffff_ffff_ef01);
    dram.write32(DRAM_BASE + 12, 0x1122_3344_5566_7788);
    assert_eq!(dram.load64(DRAM_BASE + 8), 0x5566_7788_ffff_ef01);
    // the neighbours are untouched
    assert_eq!(dram.load64(DRAM_BASE), 0);
    assert_eq!(dram.load64(DRAM_BASE + 16), 0);
}

#[test]
fn read_after_write_every_width() {
    let mut dram = Dram::new(Vec::new());
    let v = 0x8899_aabb_ccdd_eeff_u64;
    for (size, mask) in [(8u64, 0xffu64), (16, 0xffff), (32, 0xffff_ffff), (64, u64::MAX)] {
        assert_eq!(dram.store(DRAM_BASE + 100, v, size), Ok(()));
        assert_eq!(dram.load(DRAM_BASE + 100, size), Ok(v & mask));
    }
    // the last address of memory
    assert_eq!(dram.store(DRAM_BASE + DRAM_SIZE - 8, v, 64), Ok(()));
    assert_eq!(dram.load(DRAM_BASE + DRAM_SIZE - 8, 64), Ok(v));
}

#[test]
fn dram_refuses_other_widths() {
    let mut dram = Dram::new(vec![9, 9]);
    assert_eq!(dram.load(DRAM_BASE, 12), Err(()));
    assert_eq!(dram.store(DRAM_BASE, 7, 24), Err(()));
    assert_eq!(dram.load(DRAM_BASE, 8), Ok(9));
}

#[test]
fn uart_reads() {
    let uart = Uart::new();
    assert_eq!(uart.load(UART_LSR, 8), Ok(0x60));
    assert_eq!(uart.load(UART_BASE, 8), Ok(0));
    assert_eq!(uart.load(UART_BASE + 3, 8), Ok(0));
    assert_eq!(uart.load(UART_LSR, 32), Err(()));
}

#[test]
fn uart_sends_written_bytes() {
    let mut uart = Uart::new();
    assert_eq!(uart.store(UART_THR, 0x148, 8), Ok(()));
    assert_eq!(uart.store(UART_THR, b'i' as u64, 8), Ok(()));
    assert_eq!(uart.store(UART_BASE + 1, b'x' as u64, 8), Ok(()));
    assert_eq!(uart.store(UART_THR, b'y' as u64, 16), Err(()));
    assert_eq!(uart.take_output(), b"Hi".to_vec());
    assert_eq!(uart.take_output(), Vec::<u8>::new());
}

#[test]
fn bus_routes_by_address() {
    let mut bus = Bus::new(vec![0xaa, 0xbb]);
    assert_eq!(bus.load(DRAM_BASE, 16), Ok(0xbbaa));
    assert_eq!(bus.load(UART_LSR, 8), Ok(0x60));
    assert_eq!(bus.load(0x1000, 8), Err(()));
    assert_eq!(bus.load(UART_BASE + 0x100, 8), Err(()));
    assert_eq!(bus.store(0x1000, 1, 8), Err(()));
    assert_eq!(bus.store(UART_THR, b'!' as u64, 8), Ok(()));
    assert_eq!(bus.take_output(), b"!".to_vec());
}

#[test]
fn bus_store_reaches_first_byte_of_memory() {
    let mut bus = Bus::new(Vec::new());
    assert_eq!(bus.store(DRAM_BASE, 0x42, 8), Ok(()));
    assert_eq!(bus.load(DRAM_BASE, 8), Ok(0x42));
}

#[test]
fn bus_read_after_write() {
    let mut bus = Bus::new(Vec::new());
    assert_eq!(bus.store(DRAM_BASE + 0x40, 0xdead_beef_0bad_f00d, 64), Ok(()));
    assert_eq!(bus.load(DRAM_BASE + 0x40, 64), Ok(0xdead_beef_0bad_f00d));
    assert_eq!(bus.load(DRAM_BASE + 0x40, 32), Ok(0x0bad_f00d));
    assert_eq!(bus.take_output(), Vec::<u8>::new());
}

#[test]
fn hello_world_through_the_bus() {
    let mut bus = Bus::new(Vec::new());
    for b in b"Hello World!" {
        assert_eq!(bus.load(UART_LSR, 8), Ok(0x60));
        assert_eq!(bus.store(UART_THR, *b as u64, 8), Ok(()));
    }
    assert_eq!(bus.take_output(), b"Hello World!".to_vec());
}

#[test]
fn bus_accesses_past_the_end_of_memory_fail() {
    let mut bus = Bus::new(Vec::new());
    assert_eq!(bus.load(DRAM_BASE + DRAM_SIZE, 8), Err(()));
    assert_eq!(bus.load(DRAM_BASE + DRAM_SIZE - 4, 64), Err(()));
    assert_eq!(bus.load(u64::MAX, 8), Err(()));
    assert_eq!(bus.store(0x8010_0000, 1, 8), Err(()));
    assert_eq!(bus.store(DRAM_BASE + DRAM_SIZE - 1, 0xffff, 16), Err(()));
    assert_eq!(bus.load(DRAM_BASE + DRAM_SIZE - 1, 8), Ok(0));
    assert_eq!(bus.store(DRAM_BASE + DRAM_SIZE - 1, 0xab, 8), Ok(()));
    assert_eq!(bus.load(DRAM_BASE + DRAM_SIZE - 1, 8), Ok(0xab));
}

#[test]
fn wide_reads_join_narrow_ones() {
    let dram = Dram::new(vec![0x01, 0x23, 0x45, 0x67, 0x89, 0xab, 0xcd, 0xef, 0x10]);
    let a = DRAM_BASE + 1;
    assert_eq!(dram.load32(a), dram.load16(a) | (dram.load16(a + 2) << 16));
    assert_eq!(dram.load64(a), dram.load32(a) | (dram.load32(a + 4) << 32));
    assert_eq!(dram.load64(a), 0x10ef_cdab_8967_4523);
}

#[test]
fn narrow_reads_inside_a_wide_write() {
    let mut dram = Dram::new(Vec::new());
    let a = DRAM_BASE + 0x20;
    let v = 0xfedc_ba98_7654_3210_u64;
    dram.write64(a, v);
    assert_eq!(dram.load8(a), v & 0xff);
    assert_eq!(dram.load16(a), v & 0xffff);
    assert_eq!(dram.load32(a), v & 0xffff_ffff);
    assert_eq!(dram.load32(a + 4), v >> 32);
    assert_eq!(dram.load8(a + 7), v >> 56);
}
