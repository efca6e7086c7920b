pub mod codec;
pub mod error;
pub mod reader;
pub mod elf;
pub mod strtab;
