//! A 16-bit virtual CPU: instruction decoding, an ALU with overflow
//! detection, a banked register file, an interrupt controller and the
//! fetch-decode-execute engine that ties them together.

pub mod decode;
pub mod alu;
pub mod memory;
pub mod registers;
pub mod interrupts;
pub mod machine;
