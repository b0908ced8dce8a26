pub mod le;
pub mod dram;
pub mod uart;
pub mod bus;
pub mod isa;
pub mod ops;
pub mod cpu;
pub mod laws;
pub mod instruction_laws;
