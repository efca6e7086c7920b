//! The ELF64 file model and the decoder that builds it from bytes.
use vstd::prelude::*;

use crate::codec::{
    file_type_of, machine_of, os_abi_of, program_type_of, section_type_of, FileType, Machine,
    OsAbi, ProgramType, SectionType,
};
use crate::error::{Error, ErrorKind};
use crate::reader::{field, ElfFile};
use crate::strtab::{name_at, name_stored_at, terminated_from};

verus! {

/// The first four bytes, `0x7F 'E' 'L' 'F'`, read as a little-endian word.
pub const ELF_MAGIC: u32 = 0x464C457F;

pub const ELF_CLASS_64: u8 = 0x02;

pub const ELF_DATA_LE: u8 = 0x01;

/// Bytes taken by the identification block, padding included.
pub const IDENT_SIZE: u64 = 16;

/// Bytes taken by the whole file header.
pub const HEADER_SIZE: u64 = 64;

/// Bytes taken by one program-header entry.
pub const SEGMENT_ENTRY_SIZE: u64 = 56;

/// Bytes taken by one section-header entry.
pub const SECTION_ENTRY_SIZE: u64 = 64;

pub struct Elf {
    pub header: FileHeader,
    pub segments: Vec<Segment>,
    pub sections: Vec<Section>,
}

#[derive(Debug, Clone, Copy, PartialEq, Eq, Structural)]
pub struct FileHeader {
    pub ident: Ident,
    pub kind: FileType,
    pub machine: Machine,
    pub version: u32,
    pub entry: u64,
    pub program_header_offset: u64,
    pub section_header_offset: u64,
    pub flags: u32,
    pub header_size: u16,
    pub program_header_entry_size: u16,
    pub program_header_count: u16,
    pub section_header_entry_size: u16,
    pub section_header_count: u16,
    pub section_header_names_index: u16,
}

#[derive(Debug, Clone, Copy, PartialEq, Eq, Structural)]
pub struct Ident {
    pub magic: u32,
    pub is_64_bit: bool,
    pub is_little_endian: bool,
    pub version: u8,
    pub os_abi: OsAbi,
    pub abi_version: u8,
}

pub struct Segment {
    pub kind: ProgramType,
    pub flags: u32,
    pub offset: u64,
    pub virtual_address: u64,
    pub physical_address: u64,
    pub file_size: u64,
    pub memory_size: u64,
    pub alignment: u64,
    pub data: Vec<u8>,
}

pub struct Section {
    pub name_index: usize,
    pub kind: SectionType,
    pub flags: u64,
    pub address: u64,
    pub offset: u64,
    pub size: u64,
    pub link: u32,
    pub info: u32,
    pub address_alignment: u64,
    pub entry_size: u64,
    pub data: Vec<u8>,
}

/// Whether the bytes declare little-endian encoding for everything after
/// the identification block.
pub open spec fn little_endian_of(s: Seq<u8>) -> bool {
    s[5] == ELF_DATA_LE
}

/// The validation failure, if any, that the identification bytes of `s`
/// produce; `None` also when `s` ends before the byte that decides.
pub open spec fn ident_rejection(s: Seq<u8>) -> Option<ErrorKind> {
    if s.len() >= 5 && (field(s, 0, 4, true) != ELF_MAGIC || s[4] != ELF_CLASS_64) {
        Some(ErrorKind::NotElf64)
    } else if s.len() >= 8 && s[7] != 0 {
        Some(ErrorKind::UnsupportedOsAbi(os_abi_of(s[7])))
    } else {
        None
    }
}

pub open spec fn ident_of(s: Seq<u8>) -> Ident {
    Ident {
        magic: field(s, 0, 4, true) as u32,
        is_64_bit: s[4] == ELF_CLASS_64,
        is_little_endian: little_endian_of(s),
        version: s[6],
        os_abi: os_abi_of(s[7]),
        abi_version: s[8],
    }
}

/// The file header stored at the start of `s`.
pub open spec fn header_of(s: Seq<u8>) -> FileHeader {
    let le = little_endian_of(s);
    FileHeader {
        ident: ident_of(s),
        kind: file_type_of(field(s, 16, 2, le) as u16),
        machine: machine_of(field(s, 18, 2, le) as u16),
        version: field(s, 20, 4, le) as u32,
        entry: field(s, 24, 8, le) as u64,
        program_header_offset: field(s, 32, 8, le) as u64,
        section_header_offset: field(s, 40, 8, le) as u64,
        flags: field(s, 48, 4, le) as u32,
        header_size: field(s, 52, 2, le) as u16,
        program_header_entry_size: field(s, 54, 2, le) as u16,
        program_header_count: field(s, 56, 2, le) as u16,
        section_header_entry_size: field(s, 58, 2, le) as u16,
        section_header_count: field(s, 60, 2, le) as u16,
        section_header_names_index: field(s, 62, 2, le) as u16,
    }
}


/// The error kind a parse of `s` ends with when it cannot succeed.
pub open spec fn failure_kind(s: Seq<u8>) -> ErrorKind {
    match ident_rejection(s) {
        Some(kind) => kind,
        None => ErrorKind::Truncated,
    }
}

impl<'a> ElfFile<'a> {
    /// Reads and validates the identification block at the start of the
    /// source, selects its byte order and moves past its padding.
    fn read_ident(&mut self) -> (r: Result<Ident, Error>)
        requires
            old(self).position() == 0,
            old(self).little_endian(),
        ensures
            final(self).bytes() == old(self).bytes(),
            r is Ok <==> (old(self).bytes().len() >= 9 && ident_rejection(old(self).bytes()) is None),
            r is Ok ==> {
                &&& r->Ok_0 == ident_of(old(self).bytes())
                &&& final(self).position() == IDENT_SIZE
                &&& final(self).little_endian() == little_endian_of(old(self).bytes())
            },
            r is Err ==> r->Err_0.kind == failure_kind(old(self).bytes()),
    {
        let magic = self.read_u32()?;
        let is_64_bit = self.read_u8()? == ELF_CLASS_64;

        if magic != ELF_MAGIC || !is_64_bit {
            return Err(Error::new(ErrorKind::NotElf64));
        }

        let is_little_endian = self.read_u8()? == ELF_DATA_LE;
        self.set_little_endian(is_little_endian);

        let version = self.read_u8()?;

        let os_abi = OsAbi::from(self.read_u8()?);
        if os_abi != OsAbi::SystemV {
            return Err(Error::new(ErrorKind::UnsupportedOsAbi(os_abi)));
        }

        let abi_version = self.read_u8()?;

        // the rest of the block is padding
        self.skip(7);

        Ok(Ident { magic, is_64_bit, is_little_endian, version, os_abi, abi_version })
    }

    /// Reads the whole file header from the start of the source.
    fn read_header(&mut self) -> (r: Result<FileHeader, Error>)
        requires
            old(self).position() == 0,
            old(self).little_endian(),
        ensures
            final(self).bytes() == old(self).bytes(),
            r is Ok <==> (old(self).bytes().len() >= HEADER_SIZE && ident_rejection(old(self).bytes()) is None),
            r is Ok ==> {
                &&& r->Ok_0 == header_of(old(self).bytes())
                &&& final(self).position() == HEADER_SIZE
                &&& final(self).little_endian() == little_endian_of(old(self).bytes())
            },
            r is Err ==> r->Err_0.kind == failure_kind(old(self).bytes()),
    {
        Ok(FileHeader {
            ident: self.read_ident()?,
            kind: FileType::from(self.read_u16()?),
            machine: Machine::from(self.read_u16()?),
            version: self.read_u32()?,
            entry: self.read_u64()?,
            program_header_offset: self.read_u64()?,
            section_header_offset: self.read_u64()?,
            flags: self.read_u32()?,
            header_size: self.read_u16()?,
            program_header_entry_size: self.read_u16()?,
            program_header_count: self.read_u16()?,
            section_header_entry_size: self.read_u16()?,
            section_header_count: self.read_u16()?,
            section_header_names_index: self.read_u16()?,
        })
    }
}


/// Whether the program-header entry at `at`, and the payload it designates,
/// both lie within `s`.
pub open spec fn segment_fits(s: Seq<u8>, at: int, le: bool) -> bool {
    &&& at + SEGMENT_ENTRY_SIZE <= s.len()
    &&& field(s, at + 8, 8, le) + field(s, at + 32, 8, le) <= s.len()
}

/// Whether `seg` holds the program-header entry stored at `at` in `s`,
/// with exactly the `file_size` bytes found at its `offset`.
pub open spec fn segment_at(seg: Segment, s: Seq<u8>, at: int, le: bool) -> bool {
    &&& seg.kind == program_type_of(field(s, at, 4, le) as u32)
    &&& seg.flags as int == field(s, at + 4, 4, le)
    &&& seg.offset as int == field(s, at + 8, 8, le)
    &&& seg.virtual_address as int == field(s, at + 16, 8, le)
    &&& seg.physical_address as int == field(s, at + 24, 8, le)
    &&& seg.file_size as int == field(s, at + 32, 8, le)
    &&& seg.memory_size as int == field(s, at + 40, 8, le)
    &&& seg.alignment as int == field(s, at + 48, 8, le)
    &&& seg.data@.len() == seg.file_size
    &&& seg.data@ == s.subrange(seg.offset as int, seg.offset + seg.file_size)
}

/// Whether the section-header entry at `at`, and the payload it designates,
/// both lie within `s`.
pub open spec fn section_fits(s: Seq<u8>, at: int, le: bool) -> bool {
    &&& at + SECTION_ENTRY_SIZE <= s.len()
    &&& field(s, at + 24, 8, le) + field(s, at + 32, 8, le) <= s.len()
}

/// Whether `sec` holds the section-header entry stored at `at` in `s`,
/// with exactly the `size` bytes found at its `offset`.
pub open spec fn section_at(sec: Section, s: Seq<u8>, at: int, le: bool) -> bool {
    &&& sec.name_index as int == field(s, at, 4, le)
    &&& sec.kind == section_type_of(field(s, at + 4, 4, le) as u32)
    &&& sec.flags as int == field(s, at + 8, 8, le)
    &&& sec.address as int == field(s, at + 16, 8, le)
    &&& sec.offset as int == field(s, at + 24, 8, le)
    &&& sec.size as int == field(s, at + 32, 8, le)
    &&& sec.link as int == field(s, at + 40, 4, le)
    &&& sec.info as int == field(s, at + 44, 4, le)
    &&& sec.address_alignment as int == field(s, at + 48, 8, le)
    &&& sec.entry_size as int == field(s, at + 56, 8, le)
    &&& sec.data@.len() == sec.size
    &&& sec.data@ == s.subrange(sec.offset as int, sec.offset + sec.size)
}

/// Whether all `count` entries of the program-header table at `table` fit.
pub open spec fn segment_table_fits(s: Seq<u8>, table: int, count: int, le: bool) -> bool {
    forall|i: int| 0 <= i < count ==> #[trigger] segment_fits(s, table + SEGMENT_ENTRY_SIZE * i, le)
}

/// Whether all `count` entries of the section-header table at `table` fit.
pub open spec fn section_table_fits(s: Seq<u8>, table: int, count: int, le: bool) -> bool {
    forall|i: int| 0 <= i < count ==> #[trigger] section_fits(s, table + SECTION_ENTRY_SIZE * i, le)
}

impl<'a> ElfFile<'a> {
    /// Reads one program-header entry at the cursor and the payload it
    /// designates, leaving the cursor just past the entry.
    fn read_segment(&mut self) -> (r: Result<Segment, Error>)
        ensures
            final(self).bytes() == old(self).bytes(),
            final(self).little_endian() == old(self).little_endian(),
            r is Ok <==> segment_fits(old(self).bytes(), old(self).position() as int, old(self).little_endian()),
            r is Ok ==> {
                &&& segment_at(r->Ok_0, old(self).bytes(), old(self).position() as int, old(self).little_endian())
                &&& final(self).position() == old(self).position() + SEGMENT_ENTRY_SIZE
            },
            r is Err ==> r->Err_0.kind == ErrorKind::Truncated,
    {
        let kind = ProgramType::from(self.read_u32()?);
        let flags = self.read_u32()?;
        let offset = self.read_u64()?;
        let virtual_address = self.read_u64()?;
        let physical_address = self.read_u64()?;
        let file_size = self.read_u64()?;
        let memory_size = self.read_u64()?;
        let alignment = self.read_u64()?;

        let previous_pos = self.stream_position();
        self.seek(offset);
        let data = self.read_exact(file_size);
        self.seek(previous_pos);
        let data = data?;

        Ok(Segment {
            kind,
            flags,
            offset,
            virtual_address,
            physical_address,
            file_size,
            memory_size,
            alignment,
            data,
        })
    }

    /// Reads one section-header entry at the cursor and the payload it
    /// designates, leaving the cursor just past the entry.
    fn read_section(&mut self) -> (r: Result<Section, Error>)
        ensures
            final(self).bytes() == old(self).bytes(),
            final(self).little_endian() == old(self).little_endian(),
            r is Ok <==> section_fits(old(self).bytes(), old(self).position() as int, old(self).little_endian()),
            r is Ok ==> {
                &&& section_at(r->Ok_0, old(self).bytes(), old(self).position() as int, old(self).little_endian())
                &&& final(self).position() == old(self).position() + SECTION_ENTRY_SIZE
            },
            r is Err ==> r->Err_0.kind == ErrorKind::Truncated,
    {
        let name_index = self.read_u32()? as usize;
        let kind = SectionType::from(self.read_u32()?);
        let flags = self.read_u64()?;
        let address = self.read_u64()?;
        let offset = self.read_u64()?;
        let size = self.read_u64()?;
        let link = self.read_u32()?;
        let info = self.read_u32()?;
        let address_alignment = self.read_u64()?;
        let entry_size = self.read_u64()?;

        let previous_pos = self.stream_position();
        self.seek(offset);
        let data = self.read_exact(size);
        self.seek(previous_pos);
        let data = data?;

        Ok(Section {
            name_index,
            kind,
            flags,
            address,
            offset,
            size,
            link,
            info,
            address_alignment,
            entry_size,
            data,
        })
    }

    /// Reads the `count` entries of the program-header table at `offset`, each
    /// with its payload, in table order. The cursor ends just past the
    /// table: payload reads never move it.
    fn read_segments(&mut self, offset: u64, count: usize) -> (r: Result<Vec<Segment>, Error>)
        ensures
            final(self).bytes() == old(self).bytes(),
            final(self).little_endian() == old(self).little_endian(),
            r is Ok <==> segment_table_fits(old(self).bytes(), offset as int, count as int, old(self).little_endian()),
            r is Ok ==> {
                &&& r->Ok_0.len() == count
                &&& forall|i: int|
                    0 <= i < count ==> #[trigger] segment_at(
                        r->Ok_0@[i],
                        old(self).bytes(),
                        offset + SEGMENT_ENTRY_SIZE * i,
                        old(self).little_endian(),
                    )
                &&& final(self).position() == offset + SEGMENT_ENTRY_SIZE * count
            },
            r is Err ==> r->Err_0.kind == ErrorKind::Truncated,
    {
        let ghost s = self.bytes();
        let ghost le = self.little_endian();
        let mut segments: Vec<Segment> = Vec::new();

        self.seek(offset);

        let mut i: usize = 0;
        while i < count
            invariant
                s == old(self).bytes(),
                le == old(self).little_endian(),
                self.bytes() == s,
                self.little_endian() == le,
                i <= count,
                self.position() == offset + SEGMENT_ENTRY_SIZE * i,
                segments.len() == i,
                forall|j: int| 0 <= j < i ==> #[trigger] segment_fits(s, offset + SEGMENT_ENTRY_SIZE * j, le),
                forall|j: int| 0 <= j < i ==> #[trigger] segment_at(segments@[j], s, offset + SEGMENT_ENTRY_SIZE * j, le),
            decreases count - i,
        {
            let entry = self.read_segment();
            match entry {
                Ok(entry) => {
                    segments.push(entry);
                },
                Err(e) => {
                    assert(!segment_fits(s, offset + SEGMENT_ENTRY_SIZE * i, le));
                    return Err(e);
                },
            }
            proof {
                assert(offset + SEGMENT_ENTRY_SIZE * (i + 1) == offset + SEGMENT_ENTRY_SIZE * i + SEGMENT_ENTRY_SIZE) by (nonlinear_arith);
            }
            i = i + 1;
        }
        Ok(segments)
    }

    /// Reads the `count` entries of the section-header table at `offset`, each
    /// with its payload, in table order. The cursor ends just past the
    /// table: payload reads never move it.
    fn read_sections(&mut self, offset: u64, count: usize) -> (r: Result<Vec<Section>, Error>)
        ensures
            final(self).bytes() == old(self).bytes(),
            final(self).little_endian() == old(self).little_endian(),
            r is Ok <==> section_table_fits(old(self).bytes(), offset as int, count as int, old(self).little_endian()),
            r is Ok ==> {
                &&& r->Ok_0.len() == count
                &&& forall|i: int|
                    0 <= i < count ==> #[trigger] section_at(
                        r->Ok_0@[i],
                        old(self).bytes(),
                        offset + SECTION_ENTRY_SIZE * i,
                        old(self).little_endian(),
                    )
                &&& final(self).position() == offset + SECTION_ENTRY_SIZE * count
            },
            r is Err ==> r->Err_0.kind == ErrorKind::Truncated,
    {
        let ghost s = self.bytes();
        let ghost le = self.little_endian();
        let mut sections: Vec<Section> = Vec::new();

        self.seek(offset);

        let mut i: usize = 0;
        while i < count
            invariant
                s == old(self).bytes(),
                le == old(self).little_endian(),
                self.bytes() == s,
                self.little_endian() == le,
                i <= count,
                self.position() == offset + SECTION_ENTRY_SIZE * i,
                sections.len() == i,
                forall|j: int| 0 <= j < i ==> #[trigger] section_fits(s, offset + SECTION_ENTRY_SIZE * j, le),
                forall|j: int| 0 <= j < i ==> #[trigger] section_at(sections@[j], s, offset + SECTION_ENTRY_SIZE * j, le),
            decreases count - i,
        {
            let entry = self.read_section();
            match entry {
                Ok(entry) => {
                    sections.push(entry);
                },
                Err(e) => {
                    assert(!section_fits(s, offset + SECTION_ENTRY_SIZE * i, le));
                    return Err(e);
                },
            }
            proof {
                assert(offset + SECTION_ENTRY_SIZE * (i + 1) == offset + SECTION_ENTRY_SIZE * i + SECTION_ENTRY_SIZE) by (nonlinear_arith);
            }
            i = i + 1;
        }
        Ok(sections)
    }
}

impl Elf {
    /// Decodes a whole ELF64 file held in `data`.
    pub fn parse(data: &[u8]) -> (r: Result<Elf, Error>)
        ensures
            r is Ok <==> parse_succeeds(data@),
            r is Ok ==> r->Ok_0.decodes(data@),
            r is Err ==> r->Err_0.kind == failure_kind(data@),
    {
        let mut reader = ElfFile::new(data);

        let header = reader.read_header()?;
        let segments = reader.read_segments(
            header.program_header_offset,
            header.program_header_count as usize,
        )?;
        let sections = reader.read_sections(
            header.section_header_offset,
            header.section_header_count as usize,
        )?;

        Ok(Elf { header, segments, sections })
    }

    /// The name of section `index`, read from the section that the header
    /// designates as the name table; `None` when either index is out of
    /// range or no nul byte ends the name.
    pub fn section_name(&self, index: usize) -> (r: Option<Vec<u8>>)
        ensures
            ({
                let names = self.header.section_header_names_index as int;
                if names < self.sections.len() && index < self.sections.len() {
                    let table = self.sections@[names].data@;
                    let start = self.sections@[index as int].name_index as int;
                    &&& r is Some <==> terminated_from(table, start)
                    &&& r matches Some(name) ==> name_stored_at(table, start, name@)
                } else {
                    r is None
                }
            }),
    {
        let names = self.header.section_header_names_index as usize;
        if names >= self.sections.len() || index >= self.sections.len() {
            return None;
        }
        name_at(self.sections[names].data.as_slice(), self.sections[index].name_index)
    }

    /// Whether this aggregate is what `s` describes: its header, then one
    /// segment per program-header entry and one section per section-header
    /// entry, in table order.
    pub open spec fn decodes(&self, s: Seq<u8>) -> bool {
        let h = header_of(s);
        let le = little_endian_of(s);
        &&& self.header == h
        &&& self.segments.len() == h.program_header_count
        &&& self.sections.len() == h.section_header_count
        &&& forall|i: int|
            0 <= i < h.program_header_count ==> #[trigger] segment_at(
                self.segments@[i],
                s,
                h.program_header_offset + SEGMENT_ENTRY_SIZE * i,
                le,
            )
        &&& forall|i: int|
            0 <= i < h.section_header_count ==> #[trigger] section_at(
                self.sections@[i],
                s,
                h.section_header_offset + SECTION_ENTRY_SIZE * i,
                le,
            )
    }
}

/// Whether `s` is a complete ELF64 file that this decoder accepts: valid
/// identification, a whole header, and every table entry and payload within
/// the bytes.
pub open spec fn parse_succeeds(s: Seq<u8>) -> bool {
    let h = header_of(s);
    let le = little_endian_of(s);
    &&& s.len() >= HEADER_SIZE
    &&& ident_rejection(s) is None
    &&& segment_table_fits(s, h.program_header_offset as int, h.program_header_count as int, le)
    &&& section_table_fits(s, h.section_header_offset as int, h.section_header_count as int, le)
}


/// The identification bytes `0x7F 'E' 'L' 'F'`.
pub open spec fn magic_bytes() -> Seq<u8> {
    seq![0x7Fu8, 0x45u8, 0x4Cu8, 0x46u8]
}

/// The magic word compares equal exactly when the first four bytes are the
/// magic sequence.
pub proof fn lemma_magic_word(s: Seq<u8>)
    requires
        s.len() >= 4,
    ensures
        field(s, 0, 4, true) == ELF_MAGIC <==> s.subrange(0, 4) == magic_bytes(),
{
    let b = s.subrange(0, 4);
    reveal_with_fuel(crate::reader::le_value, 5);
    assert(b.drop_first() =~= seq![s[1], s[2], s[3]]);
    assert(b.drop_first().drop_first() =~= seq![s[2], s[3]]);
    assert(b.drop_first().drop_first().drop_first() =~= seq![s[3]]);
    assert(b.drop_first().drop_first().drop_first().drop_first() =~= Seq::<u8>::empty());
    let v = field(s, 0, 4, true);
    assert(v == s[0] + 256 * (s[1] + 256 * (s[2] + 256 * s[3])));
    if b == magic_bytes() {
        assert(s[0] == b[0] && s[1] == b[1] && s[2] == b[2] && s[3] == b[3]);
    }
    if v == ELF_MAGIC {
        assert(b =~= magic_bytes());
    }
}


/// A source whose first four bytes are not the magic sequence is never
/// accepted; once the class byte is there too, it is refused as not ELF64.
pub proof fn lemma_rejects_bad_magic(s: Seq<u8>)
    requires
        s.len() >= 4,
        s.subrange(0, 4) != magic_bytes(),
    ensures
        !parse_succeeds(s),
        s.len() >= 5 ==> failure_kind(s) == ErrorKind::NotElf64,
{
    lemma_magic_word(s);
}

/// A source with the magic sequence but a class byte other than 64-bit is
/// refused as not ELF64.
pub proof fn lemma_rejects_wrong_class(s: Seq<u8>)
    requires
        s.len() >= 5,
        s[4] != ELF_CLASS_64,
    ensures
        !parse_succeeds(s),
        failure_kind(s) == ErrorKind::NotElf64,
{
}

/// A well-identified ELF64 source whose OS/ABI byte is not System V is
/// refused, although that byte decodes to a variant like any other.
pub proof fn lemma_rejects_foreign_os_abi(s: Seq<u8>)
    requires
        s.len() >= 8,
        s.subrange(0, 4) == magic_bytes(),
        s[4] == ELF_CLASS_64,
        s[7] != 0,
    ensures
        !parse_succeeds(s),
        failure_kind(s) == ErrorKind::UnsupportedOsAbi(os_abi_of(s[7])),
        os_abi_of(s[7]) != OsAbi::SystemV,
{
    lemma_magic_word(s);
}

/// Cutting `s` to its first `n` bytes keeps everything the header says.
proof fn lemma_prefix_keeps_header(s: Seq<u8>, n: int)
    requires
        HEADER_SIZE <= n <= s.len(),
    ensures
        header_of(s.subrange(0, n)) == header_of(s),
        ident_rejection(s.subrange(0, n)) == ident_rejection(s),
        little_endian_of(s.subrange(0, n)) == little_endian_of(s),
{
    let t = s.subrange(0, n);
    assert(t.subrange(0, 4) =~= s.subrange(0, 4));
    assert(t.subrange(16, 18) =~= s.subrange(16, 18));
    assert(t.subrange(18, 20) =~= s.subrange(18, 20));
    assert(t.subrange(20, 24) =~= s.subrange(20, 24));
    assert(t.subrange(24, 32) =~= s.subrange(24, 32));
    assert(t.subrange(32, 40) =~= s.subrange(32, 40));
    assert(t.subrange(40, 48) =~= s.subrange(40, 48));
    assert(t.subrange(48, 52) =~= s.subrange(48, 52));
    assert(t.subrange(52, 54) =~= s.subrange(52, 54));
    assert(t.subrange(54, 56) =~= s.subrange(54, 56));
    assert(t.subrange(56, 58) =~= s.subrange(56, 58));
    assert(t.subrange(58, 60) =~= s.subrange(58, 60));
    assert(t.subrange(60, 62) =~= s.subrange(60, 62));
    assert(t.subrange(62, 64) =~= s.subrange(62, 64));
}

/// A source that identifies correctly but ends inside the file header
/// fails as truncated, with no value made up for the missing bytes.
pub proof fn lemma_truncated_header(s: Seq<u8>, n: int)
    requires
        parse_succeeds(s),
        8 <= n < HEADER_SIZE,
    ensures
        !parse_succeeds(s.subrange(0, n)),
        failure_kind(s.subrange(0, n)) == ErrorKind::Truncated,
{
    let t = s.subrange(0, n);
    assert(t.subrange(0, 4) =~= s.subrange(0, 4));
}

/// A valid source cut short inside the payload of one of its segments fails
/// as truncated.
pub proof fn lemma_truncated_segment_payload(s: Seq<u8>, n: int, i: int)
    requires
        parse_succeeds(s),
        HEADER_SIZE <= n <= s.len(),
        0 <= i < header_of(s).program_header_count,
        ({
            let at = header_of(s).program_header_offset + SEGMENT_ENTRY_SIZE * i;
            let le = little_endian_of(s);
            field(s, at + 8, 8, le) + field(s, at + 32, 8, le) > n
        }),
    ensures
        !parse_succeeds(s.subrange(0, n)),
        failure_kind(s.subrange(0, n)) == ErrorKind::Truncated,
{
    let t = s.subrange(0, n);
    lemma_prefix_keeps_header(s, n);
    let h = header_of(s);
    let le = little_endian_of(s);
    let at = h.program_header_offset + SEGMENT_ENTRY_SIZE * i;
    if at + SEGMENT_ENTRY_SIZE <= n {
        assert(t.subrange(at + 8, at + 16) =~= s.subrange(at + 8, at + 16));
        assert(t.subrange(at + 32, at + 40) =~= s.subrange(at + 32, at + 40));
    }
    assert(!segment_fits(t, at, le));
}

/// A valid source cut short inside the payload of one of its sections fails
/// as truncated.
pub proof fn lemma_truncated_section_payload(s: Seq<u8>, n: int, i: int)
    requires
        parse_succeeds(s),
        HEADER_SIZE <= n <= s.len(),
        0 <= i < header_of(s).section_header_count,
        ({
            let at = header_of(s).section_header_offset + SECTION_ENTRY_SIZE * i;
            let le = little_endian_of(s);
            field(s, at + 24, 8, le) + field(s, at + 32, 8, le) > n
        }),
    ensures
        !parse_succeeds(s.subrange(0, n)),
        failure_kind(s.subrange(0, n)) == ErrorKind::Truncated,
{
    let t = s.subrange(0, n);
    lemma_prefix_keeps_header(s, n);
    let h = header_of(s);
    let le = little_endian_of(s);
    let at = h.section_header_offset + SECTION_ENTRY_SIZE * i;
    if at + SECTION_ENTRY_SIZE <= n {
        assert(t.subrange(at + 24, at + 32) =~= s.subrange(at + 24, at + 32));
        assert(t.subrange(at + 32, at + 40) =~= s.subrange(at + 32, at + 40));
    }
    assert(!section_fits(t, at, le));
}

/// A decoded aggregate has exactly as many segments and sections as the
/// header counts, each the table entry at its own index, and each payload
/// exactly as long as its entry declares.
pub proof fn lemma_count_fidelity(elf: &Elf, s: Seq<u8>)
    requires
        elf.decodes(s),
    ensures
        elf.segments.len() == header_of(s).program_header_count,
        elf.sections.len() == header_of(s).section_header_count,
        forall|i: int|
            0 <= i < elf.segments.len() ==> (#[trigger] elf.segments@[i]).data.len()
                == elf.segments@[i].file_size,
        forall|i: int|
            0 <= i < elf.sections.len() ==> (#[trigger] elf.sections@[i]).data.len()
                == elf.sections@[i].size,
{
    let h = header_of(s);
    let le = little_endian_of(s);
    assert forall|i: int| 0 <= i < elf.segments.len() implies (#[trigger] elf.segments@[i]).data.len()
        == elf.segments@[i].file_size by {
        assert(segment_at(elf.segments@[i], s, h.program_header_offset + SEGMENT_ENTRY_SIZE * i, le));
    }
    assert forall|i: int| 0 <= i < elf.sections.len() implies (#[trigger] elf.sections@[i]).data.len()
        == elf.sections@[i].size by {
        assert(section_at(elf.sections@[i], s, h.section_header_offset + SECTION_ENTRY_SIZE * i, le));
    }
}

} // verus!
