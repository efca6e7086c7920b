use elf64::codec::{FileType, Machine, OsAbi, ProgramType, SectionType};
use elf64::elf::Elf;
use elf64::error::{Error, ErrorKind};
use elf64::strtab::name_at;

struct Writer {
    le: bool,
    bytes: Vec<u8>,
}

impl Writer {
    fn new(le: bool, len: usize) -> Writer {
        Writer { le, bytes: vec![0; len] }
    }

    fn put(&mut self, at: usize, width: usize, value: u64) {
        for k in 0..width {
            let shift = if self.le { 8 * k } else { 8 * (width - 1 - k) };
            self.bytes[at + k] = (value >> shift) as u8;
        }
    }

    fn put_bytes(&mut self, at: usize, data: &[u8]) {
        self.bytes[at..at + data.len()].copy_from_slice(data);
    }

    fn ident(&mut self, os_abi: u8) {
        self.put_bytes(0, &[0x7F, b'E', b'L', b'F', 2, if self.le { 1 } else { 2 }, 1, os_abi, 0]);
    }

    fn header(&mut self, phoff: u64, phnum: u16, shoff: u64, shnum: u16, shstrndx: u16) {
        self.ident(0);
        self.put(16, 2, 2);
        self.put(18, 2, 0x3E);
        self.put(20, 4, 1);
        self.put(24, 8, 0x40_1000);
        self.put(32, 8, phoff);
        self.put(40, 8, shoff);
        self.put(48, 4, 0);
        self.put(52, 2, 64);
        self.put(54, 2, 56);
        self.put(56, 2, phnum as u64);
        self.put(58, 2, 64);
        self.put(60, 2, shnum as u64);
        self.put(62, 2, shstrndx as u64);
    }

    fn segment(&mut self, at: usize, kind: u32, offset: u64, file_size: u64, memory_size: u64) {
        self.put(at, 4, kind as u64);
        self.put(at + 4, 4, 5);
        self.put(at + 8, 8, offset);
        self.put(at + 16, 8, 0x40_0000 + offset);
        self.put(at + 24, 8, 0x40_0000 + offset);
        self.put(at + 32, 8, file_size);
        self.put(at + 40, 8, memory_size);
        self.put(at + 48, 8, 0x1000);
    }

    fn section(&mut self, at: usize, name: u32, kind: u32, offset: u64, size: u64) {
        self.put(at, 4, name as u64);
        self.put(at + 4, 4, kind as u64);
        self.put(at + 8, 8, 6);
        self.put(at + 16, 8, 0x40_0000 + offset);
        self.put(at + 24, 8, offset);
        self.put(at + 32, 8, size);
        self.put(at + 40, 4, 0);
        self.put(at + 44, 4, 0);
        self.put(at + 48, 8, 16);
        self.put(at + 56, 8, 0);
    }
}

const CODE: [u8; 16] = [
    0x48, 0x31, 0xC0, 0xB0, 0x3C, 0x48, 0x31, 0xFF, 0x0F, 0x05, 0x90, 0x90, 0x90, 0x90, 0x90, 0x90,
];
const NAMES: &[u8] = b".text\0.data\0";

/// One loadable segment with a 16-byte payload and two sections, the
/// second holding the section names.
fn minimal(le: bool) -> Vec<u8> {
    let mut w = Writer::new(le, 248 + 16 + NAMES.len());
    w.header(64, 1, 120, 2, 1);
    w.segment(64, 1, 248, 16, 32);
    w.section(120, 0, 1, 248, 16);
    w.section(184, 6, 3, 264, NAMES.len() as u64);
    w.put_bytes(248, &CODE);
    w.put_bytes(264, NAMES);
    w.bytes
}

#[test]
fn minimal_file_end_to_end() {
    let bytes = minimal(true);
    let elf = Elf::parse(&bytes).unwrap();
    assert_eq!(elf.segments.len(), 1);
    assert_eq!(elf.sections.len(), 2);
    assert_eq!(elf.section_name(0), Some(b".text".to_vec()));
    assert_eq!(elf.section_name(1), Some(b".data".to_vec()));
    assert_eq!(elf.sections[0].name_index, 0);
    assert_eq!(elf.sections[1].name_index, 6);
}

#[test]
fn minimal_file_header_fields() {
    let bytes = minimal(true);
    let h = Elf::parse(&bytes).unwrap().header;
    assert_eq!(h.ident.magic, 0x464C457F);
    assert!(h.ident.is_64_bit);
    assert!(h.ident.is_little_endian);
    assert_eq!(h.ident.version, 1);
    assert_eq!(h.ident.os_abi, OsAbi::SystemV);
    assert_eq!(h.ident.abi_version, 0);
    assert_eq!(h.kind, FileType::Executable);
    assert_eq!(h.machine, Machine::Amd64);
    assert_eq!(h.version, 1);
    assert_eq!(h.entry, 0x40_1000);
    assert_eq!(h.program_header_offset, 64);
    assert_eq!(h.section_header_offset, 120);
    assert_eq!(h.flags, 0);
    assert_eq!(h.header_size, 64);
    assert_eq!(h.program_header_entry_size, 56);
    assert_eq!(h.program_header_count, 1);
    assert_eq!(h.section_header_entry_size, 64);
    assert_eq!(h.section_header_count, 2);
    assert_eq!(h.section_header_names_index, 1);
}

#[test]
fn minimal_file_entries() {
    let bytes = minimal(true);
    let elf = Elf::parse(&bytes).unwrap();
    let seg = &elf.segments[0];
    assert_eq!(seg.kind, ProgramType::Load);
    assert_eq!(seg.flags, 5);
    assert_eq!(seg.offset, 248);
    assert_eq!(seg.virtual_address, 0x40_00F8);
    assert_eq!(seg.physical_address, 0x40_00F8);
    assert_eq!(seg.file_size, 16);
    assert_eq!(seg.memory_size, 32);
    assert_eq!(seg.alignment, 0x1000);
    assert_eq!(seg.data, CODE.to_vec());
    let text = &elf.sections[0];
    assert_eq!(text.kind, SectionType::ProgramData);
    assert_eq!(text.flags, 6);
    assert_eq!(text.offset, 248);
    assert_eq!(text.size, 16);
    assert_eq!(text.address_alignment, 16);
    assert_eq!(text.data, CODE.to_vec());
    let names = &elf.sections[1];
    assert_eq!(names.kind, SectionType::StringTable);
    assert_eq!(names.data, NAMES.to_vec());
}

#[test]
fn big_endian_file_decodes_in_its_order() {
    let bytes = minimal(false);
    let elf = Elf::parse(&bytes).unwrap();
    assert!(!elf.header.ident.is_little_endian);
    assert_eq!(elf.header.machine, Machine::Amd64);
    assert_eq!(elf.header.entry, 0x40_1000);
    assert_eq!(elf.segments[0].kind, ProgramType::Load);
    assert_eq!(elf.segments[0].data, CODE.to_vec());
    assert_eq!(elf.section_name(1), Some(b".data".to_vec()));
}

#[test]
fn memory_size_beyond_file_size_is_not_filled() {
    let bytes = minimal(true);
    let elf = Elf::parse(&bytes).unwrap();
    assert_eq!(elf.segments[0].memory_size, 32);
    assert_eq!(elf.segments[0].data.len(), 16);
}

#[test]
fn counts_and_order_follow_the_tables() {
    // three segments and four sections, payloads laid out in reverse order
    let table_ph = 64usize;
    let table_sh = table_ph + 3 * 56;
    let payloads = table_sh + 4 * 64;
    let mut w = Writer::new(true, payloads + 7 * 8 + 16);
    w.header(table_ph as u64, 3, table_sh as u64, 4, 3);
    for i in 0..3usize {
        let at = (payloads + (6 - i) * 8) as u64;
        w.segment(table_ph + i * 56, i as u32, at, 8, 8);
        w.put_bytes(at as usize, &[i as u8; 8]);
    }
    for i in 0..3usize {
        let at = (payloads + (3 - i) * 8) as u64;
        w.section(table_sh + i * 64, (2 * i) as u32, 0x13 + i as u32, at, 8);
        w.put_bytes(at as usize, &[0x10 + i as u8; 8]);
    }
    let names_at = payloads + 7 * 8;
    w.section(table_sh + 3 * 64, 0, 3, names_at as u64, 16);
    w.put_bytes(names_at, b"a\0b\0c\0\0\0\0\0\0\0\0\0\0");
    let elf = Elf::parse(&w.bytes).unwrap();
    assert_eq!(elf.segments.len(), 3);
    assert_eq!(elf.sections.len(), 4);
    for i in 0..3usize {
        assert_eq!(elf.segments[i].kind, ProgramType::from(i as u32));
        assert_eq!(elf.segments[i].data, vec![i as u8; 8]);
        assert_eq!(elf.sections[i].kind, SectionType::Other(0x13 + i as u32));
        assert_eq!(elf.sections[i].data, vec![0x10 + i as u8; 8]);
    }
    assert_eq!(elf.section_name(0), Some(b"a".to_vec()));
    assert_eq!(elf.section_name(1), Some(b"b".to_vec()));
    assert_eq!(elf.section_name(2), Some(b"c".to_vec()));
    assert_eq!(elf.section_name(3), Some(b"a".to_vec()));
}

#[test]
fn empty_tables_are_accepted() {
    let mut w = Writer::new(true, 64);
    w.header(1_000_000, 0, 2_000_000, 0, 0);
    let elf = Elf::parse(&w.bytes).unwrap();
    assert!(elf.segments.is_empty());
    assert!(elf.sections.is_empty());
    assert_eq!(elf.section_name(0), None);
}

#[test]
fn bad_magic_is_rejected() {
    for k in 0..4 {
        let mut bytes = minimal(true);
        bytes[k] ^= 0x20;
        let err = Elf::parse(&bytes).err().unwrap();
        assert_eq!(err.kind, ErrorKind::NotElf64);
    }
}

#[test]
fn wrong_class_is_rejected() {
    let mut bytes = minimal(true);
    bytes[4] = 1;
    assert_eq!(Elf::parse(&bytes).err().unwrap().kind, ErrorKind::NotElf64);
}

#[test]
fn linux_os_abi_is_rejected() {
    let mut bytes = minimal(true);
    bytes[7] = 3;
    assert_eq!(
        Elf::parse(&bytes).err().unwrap().kind,
        ErrorKind::UnsupportedOsAbi(OsAbi::Linux)
    );
}

#[test]
fn unknown_os_abi_is_rejected() {
    let mut bytes = minimal(true);
    bytes[7] = 0x61;
    assert_eq!(
        Elf::parse(&bytes).err().unwrap().kind,
        ErrorKind::UnsupportedOsAbi(OsAbi::Other(0x61))
    );
}

#[test]
fn every_prefix_of_a_valid_file_is_truncated() {
    let bytes = minimal(true);
    for n in 0..bytes.len() {
        let err = Elf::parse(&bytes[..n]).err().unwrap();
        assert_eq!(err.kind, ErrorKind::Truncated, "prefix of {} bytes", n);
    }
}

#[test]
fn short_bad_magic_is_truncated_before_the_check() {
    assert_eq!(Elf::parse(&[0, 0, 0, 0]).err().unwrap().kind, ErrorKind::Truncated);
    assert_eq!(Elf::parse(&[0, 0, 0, 0, 2]).err().unwrap().kind, ErrorKind::NotElf64);
}

#[test]
fn payload_past_the_end_is_truncated() {
    let mut bytes = minimal(true);
    // the segment now claims more bytes than the file holds
    bytes[64 + 32] = 0xFF;
    assert_eq!(Elf::parse(&bytes).err().unwrap().kind, ErrorKind::Truncated);
    let mut bytes = minimal(true);
    // a section offset far past the end
    bytes[184 + 24 + 7] = 0x80;
    assert_eq!(Elf::parse(&bytes).err().unwrap().kind, ErrorKind::Truncated);
}

#[test]
fn table_past_the_end_is_truncated() {
    let mut w = Writer::new(true, 64);
    w.header(64, 1, 0, 0, 0);
    assert_eq!(Elf::parse(&w.bytes).err().unwrap().kind, ErrorKind::Truncated);
}

#[test]
fn name_lookup_edges() {
    assert_eq!(name_at(b"ab\0cd\0", 0), Some(b"ab".to_vec()));
    assert_eq!(name_at(b"ab\0cd\0", 1), Some(b"b".to_vec()));
    assert_eq!(name_at(b"ab\0cd\0", 2), Some(Vec::new()));
    assert_eq!(name_at(b"ab\0cd\0", 3), Some(b"cd".to_vec()));
    assert_eq!(name_at(b"ab\0cd", 3), None);
    assert_eq!(name_at(b"ab\0", 3), None);
    assert_eq!(name_at(b"ab\0", 100), None);
}

#[test]
fn section_name_out_of_range() {
    let bytes = minimal(true);
    let elf = Elf::parse(&bytes).unwrap();
    assert_eq!(elf.section_name(2), None);
    let mut bytes = minimal(true);
    bytes[62] = 9;
    let elf = Elf::parse(&bytes).unwrap();
    assert_eq!(elf.section_name(0), None);
}

#[test]
fn error_messages() {
    assert_eq!(Error::new(ErrorKind::Truncated).message(), "failed to fill whole buffer");
    assert_eq!(Error::new(ErrorKind::NotElf64).message(), "File format is not ELF64!");
    assert_eq!(
        Error::new(ErrorKind::UnsupportedOsAbi(OsAbi::Linux)).message(),
        "OS Linux does not match expected Unix System V"
    );
    assert_eq!(
        Error::new(ErrorKind::UnsupportedOsAbi(OsAbi::Other(7))).message(),
        "OS Other(7) does not match expected Unix System V"
    );
    assert_eq!(
        Error::new(ErrorKind::UnsupportedOsAbi(OsAbi::Other(42))).message(),
        "OS Other(42) does not match expected Unix System V"
    );
    assert_eq!(
        Error::new(ErrorKind::UnsupportedOsAbi(OsAbi::Other(255))).message(),
        "OS Other(255) does not match expected Unix System V"
    );
    assert_eq!(format!("{:?}", OsAbi::Other(255)), "Other(255)");
}
