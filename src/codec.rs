//! Enumerated header fields: each maps every raw integer to exactly one
//! variant and back, with reserved numeric windows carried through as-is.
use vstd::prelude::*;

verus! {

/// Operating-system / ABI convention named in the identification bytes.
#[derive(Debug, Clone, Copy, PartialEq, Eq, Structural)]
pub enum OsAbi {
    SystemV,
    Linux,
    Other(u8),
}

pub open spec fn os_abi_of(value: u8) -> OsAbi {
    if value == 0x0 {
        OsAbi::SystemV
    } else if value == 0x3 {
        OsAbi::Linux
    } else {
        OsAbi::Other(value)
    }
}

pub open spec fn os_abi_raw(os_abi: OsAbi) -> u8 {
    match os_abi {
        OsAbi::SystemV => 0x0,
        OsAbi::Linux => 0x3,
        OsAbi::Other(value) => value,
    }
}

impl From<u8> for OsAbi {
    fn from(value: u8) -> (r: Self)
        ensures
            r == os_abi_of(value),
    {
        match value {
            0x0 => Self::SystemV,
            0x3 => Self::Linux,
            _ => Self::Other(value),
        }
    }
}

impl vstd::std_specs::convert::FromSpecImpl<u8> for OsAbi {
    open spec fn obeys_from_spec() -> bool {
        true
    }

    open spec fn from_spec(v: u8) -> Self {
        os_abi_of(v)
    }
}

impl From<OsAbi> for u8 {
    fn from(os_abi: OsAbi) -> (r: Self)
        ensures
            r == os_abi_raw(os_abi),
    {
        match os_abi {
            OsAbi::SystemV => 0x0,
            OsAbi::Linux => 0x3,
            OsAbi::Other(value) => value,
        }
    }
}

impl vstd::std_specs::convert::FromSpecImpl<OsAbi> for u8 {
    open spec fn obeys_from_spec() -> bool {
        true
    }

    open spec fn from_spec(v: OsAbi) -> Self {
        os_abi_raw(v)
    }
}

/// Decoding a raw OS/ABI byte and encoding the variant gives the byte back.
pub proof fn lemma_os_abi_round_trip(value: u8)
    ensures
        os_abi_raw(os_abi_of(value)) == value,
{
}

/// Object file type.
#[derive(Debug, Clone, Copy, PartialEq, Eq, Structural)]
pub enum FileType {
    NoType,
    Relocatable,
    Executable,
    Dynamic,
    Core,
    OperatingSystem(u16),
    Processor(u16),
    Other(u16),
}

pub open spec fn file_type_of(value: u16) -> FileType {
    if value == 0x0 {
        FileType::NoType
    } else if value == 0x1 {
        FileType::Relocatable
    } else if value == 0x2 {
        FileType::Executable
    } else if value == 0x3 {
        FileType::Dynamic
    } else if value == 0x4 {
        FileType::Core
    } else if value <= 0xFDFF {
        FileType::Other(value)
    } else if value <= 0xFEFF {
        FileType::OperatingSystem(value)
    } else {
        FileType::Processor(value)
    }
}

pub open spec fn file_type_raw(file_type: FileType) -> u16 {
    match file_type {
        FileType::NoType => 0x0,
        FileType::Relocatable => 0x1,
        FileType::Executable => 0x2,
        FileType::Dynamic => 0x3,
        FileType::Core => 0x4,
        FileType::Other(value) => value,
        FileType::OperatingSystem(value) => value,
        FileType::Processor(value) => value,
    }
}

impl From<u16> for FileType {
    fn from(value: u16) -> (r: Self)
        ensures
            r == file_type_of(value),
    {
        match value {
            0x0 => Self::NoType,
            0x1 => Self::Relocatable,
            0x2 => Self::Executable,
            0x3 => Self::Dynamic,
            0x4 => Self::Core,
            0x5..=0xFDFF => Self::Other(value),
            0xFE00..=0xFEFF => Self::OperatingSystem(value),
            0xFF00..=0xFFFF => Self::Processor(value),
        }
    }
}

impl vstd::std_specs::convert::FromSpecImpl<u16> for FileType {
    open spec fn obeys_from_spec() -> bool {
        true
    }

    open spec fn from_spec(v: u16) -> Self {
        file_type_of(v)
    }
}

impl From<FileType> for u16 {
    fn from(file_type: FileType) -> (r: Self)
        ensures
            r == file_type_raw(file_type),
    {
        match file_type {
            FileType::NoType => 0x0,
            FileType::Relocatable => 0x1,
            FileType::Executable => 0x2,
            FileType::Dynamic => 0x3,
            FileType::Core => 0x4,
            FileType::Other(value) => value,
            FileType::OperatingSystem(value) => value,
            FileType::Processor(value) => value,
        }
    }
}

impl vstd::std_specs::convert::FromSpecImpl<FileType> for u16 {
    open spec fn obeys_from_spec() -> bool {
        true
    }

    open spec fn from_spec(v: FileType) -> Self {
        file_type_raw(v)
    }
}

/// Decoding a raw file type and encoding the variant gives the value back.
pub proof fn lemma_file_type_round_trip(value: u16)
    ensures
        file_type_raw(file_type_of(value)) == value,
{
}

/// Target instruction-set architecture.
#[derive(Debug, Clone, Copy, PartialEq, Eq, Structural)]
pub enum Machine {
    X86,
    Arm,
    Amd64,
    Arm64,
    Other(u16),
}

pub open spec fn machine_of(value: u16) -> Machine {
    if value == 0x03 {
        Machine::X86
    } else if value == 0x28 {
        Machine::Arm
    } else if value == 0x3E {
        Machine::Amd64
    } else if value == 0xB7 {
        Machine::Arm64
    } else {
        Machine::Other(value)
    }
}

pub open spec fn machine_raw(machine: Machine) -> u16 {
    match machine {
        Machine::X86 => 0x03,
        Machine::Arm => 0x28,
        Machine::Amd64 => 0x3E,
        Machine::Arm64 => 0xB7,
        Machine::Other(value) => value,
    }
}

impl From<u16> for Machine {
    fn from(value: u16) -> (r: Self)
        ensures
            r == machine_of(value),
    {
        match value {
            0x03 => Self::X86,
            0x28 => Self::Arm,
            0x3E => Self::Amd64,
            0xB7 => Self::Arm64,
            _ => Self::Other(value),
        }
    }
}

impl vstd::std_specs::convert::FromSpecImpl<u16> for Machine {
    open spec fn obeys_from_spec() -> bool {
        true
    }

    open spec fn from_spec(v: u16) -> Self {
        machine_of(v)
    }
}

impl From<Machine> for u16 {
    fn from(machine: Machine) -> (r: Self)
        ensures
            r == machine_raw(machine),
    {
        match machine {
            Machine::X86 => 0x03,
            Machine::Arm => 0x28,
            Machine::Amd64 => 0x3E,
            Machine::Arm64 => 0xB7,
            Machine::Other(value) => value,
        }
    }
}

impl vstd::std_specs::convert::FromSpecImpl<Machine> for u16 {
    open spec fn obeys_from_spec() -> bool {
        true
    }

    open spec fn from_spec(v: Machine) -> Self {
        machine_raw(v)
    }
}

/// Decoding a raw machine code and encoding the variant gives the value back.
pub proof fn lemma_machine_round_trip(value: u16)
    ensures
        machine_raw(machine_of(value)) == value,
{
}

/// Kind of a program-header (segment) entry.
#[derive(Debug, Clone, Copy, PartialEq, Eq, Structural)]
pub enum ProgramType {
    Null,
    Load,
    Dynamic,
    Interpreter,
    Note,
    SharedLibrary,
    ProgramHeaders,
    ThreadLocalStorage,
    OperatingSystem(u32),
    Processor(u32),
    Other(u32),
}

pub open spec fn program_type_of(value: u32) -> ProgramType {
    if value == 0x0 {
        ProgramType::Null
    } else if value == 0x1 {
        ProgramType::Load
    } else if value == 0x2 {
        ProgramType::Dynamic
    } else if value == 0x3 {
        ProgramType::Interpreter
    } else if value == 0x4 {
        ProgramType::Note
    } else if value == 0x5 {
        ProgramType::SharedLibrary
    } else if value == 0x6 {
        ProgramType::ProgramHeaders
    } else if value == 0x7 {
        ProgramType::ThreadLocalStorage
    } else if 0x6000_0000 <= value <= 0x6FFF_FFFF {
        ProgramType::OperatingSystem(value)
    } else if 0x7000_0000 <= value <= 0x7FFF_FFFF {
        ProgramType::Processor(value)
    } else {
        ProgramType::Other(value)
    }
}

pub open spec fn program_type_raw(program_type: ProgramType) -> u32 {
    match program_type {
        ProgramType::Null => 0x0,
        ProgramType::Load => 0x1,
        ProgramType::Dynamic => 0x2,
        ProgramType::Interpreter => 0x3,
        ProgramType::Note => 0x4,
        ProgramType::SharedLibrary => 0x5,
        ProgramType::ProgramHeaders => 0x6,
        ProgramType::ThreadLocalStorage => 0x7,
        ProgramType::Other(value) => value,
        ProgramType::OperatingSystem(value) => value,
        ProgramType::Processor(value) => value,
    }
}

impl From<u32> for ProgramType {
    fn from(value: u32) -> (r: Self)
        ensures
            r == program_type_of(value),
    {
        match value {
            0x0 => Self::Null,
            0x1 => Self::Load,
            0x2 => Self::Dynamic,
            0x3 => Self::Interpreter,
            0x4 => Self::Note,
            0x5 => Self::SharedLibrary,
            0x6 => Self::ProgramHeaders,
            0x7 => Self::ThreadLocalStorage,
            0x8..=0x5FFF_FFFF => Self::Other(value),
            0x6000_0000..=0x6FFF_FFFF => Self::OperatingSystem(value),
            0x7000_0000..=0x7FFF_FFFF => Self::Processor(value),
            0x8000_0000..=0xFFFF_FFFF => Self::Other(value),
        }
    }
}

impl vstd::std_specs::convert::FromSpecImpl<u32> for ProgramType {
    open spec fn obeys_from_spec() -> bool {
        true
    }

    open spec fn from_spec(v: u32) -> Self {
        program_type_of(v)
    }
}

impl From<ProgramType> for u32 {
    fn from(program_type: ProgramType) -> (r: u32)
        ensures
            r == program_type_raw(program_type),
    {
        match program_type {
            ProgramType::Null => 0x0,
            ProgramType::Load => 0x1,
            ProgramType::Dynamic => 0x2,
            ProgramType::Interpreter => 0x3,
            ProgramType::Note => 0x4,
            ProgramType::SharedLibrary => 0x5,
            ProgramType::ProgramHeaders => 0x6,
            ProgramType::ThreadLocalStorage => 0x7,
            ProgramType::Other(value) => value,
            ProgramType::OperatingSystem(value) => value,
            ProgramType::Processor(value) => value,
        }
    }
}

impl vstd::std_specs::convert::FromSpecImpl<ProgramType> for u32 {
    open spec fn obeys_from_spec() -> bool {
        true
    }

    open spec fn from_spec(v: ProgramType) -> Self {
        program_type_raw(v)
    }
}

/// Decoding a raw segment type and encoding the variant gives the value back.
pub proof fn lemma_program_type_round_trip(value: u32)
    ensures
        program_type_raw(program_type_of(value)) == value,
{
}

/// Kind of a section-header entry.
#[derive(Debug, Clone, Copy, PartialEq, Eq, Structural)]
pub enum SectionType {
    Null,
    ProgramData,
    SymbolTable,
    StringTable,
    RelocationEntriesWithAddends,
    HashTable,
    Dynamic,
    Note,
    NoBits,
    RelocationEntries,
    SharedLibrary,
    LinkerSymbolTable,
    InitArray,
    FinishArray,
    PreInitArray,
    Group,
    SymbolTableNameIndices,
    OperatingSystem(u32),
    Processor(u32),
    Other(u32),
}

pub open spec fn section_type_of(value: u32) -> SectionType {
    if value == 0x00 {
        SectionType::Null
    } else if value == 0x01 {
        SectionType::ProgramData
    } else if value == 0x02 {
        SectionType::SymbolTable
    } else if value == 0x03 {
        SectionType::StringTable
    } else if value == 0x04 {
        SectionType::RelocationEntriesWithAddends
    } else if value == 0x05 {
        SectionType::HashTable
    } else if value == 0x06 {
        SectionType::Dynamic
    } else if value == 0x07 {
        SectionType::Note
    } else if value == 0x08 {
        SectionType::NoBits
    } else if value == 0x09 {
        SectionType::RelocationEntries
    } else if value == 0x0A {
        SectionType::SharedLibrary
    } else if value == 0x0B {
        SectionType::LinkerSymbolTable
    } else if value == 0x0E {
        SectionType::InitArray
    } else if value == 0x0F {
        SectionType::FinishArray
    } else if value == 0x10 {
        SectionType::PreInitArray
    } else if value == 0x11 {
        SectionType::Group
    } else if value == 0x12 {
        SectionType::SymbolTableNameIndices
    } else if 0x6000_0000 <= value <= 0x6FFF_FFFF {
        SectionType::OperatingSystem(value)
    } else if 0x7000_0000 <= value <= 0x7FFF_FFFF {
        SectionType::Processor(value)
    } else {
        SectionType::Other(value)
    }
}

pub open spec fn section_type_raw(section_type: SectionType) -> u32 {
    match section_type {
        SectionType::Null => 0x00,
        SectionType::ProgramData => 0x01,
        SectionType::SymbolTable => 0x02,
        SectionType::StringTable => 0x03,
        SectionType::RelocationEntriesWithAddends => 0x04,
        SectionType::HashTable => 0x05,
        SectionType::Dynamic => 0x06,
        SectionType::Note => 0x07,
        SectionType::NoBits => 0x08,
        SectionType::RelocationEntries => 0x09,
        SectionType::SharedLibrary => 0x0A,
        SectionType::LinkerSymbolTable => 0x0B,
        SectionType::InitArray => 0x0E,
        SectionType::FinishArray => 0x0F,
        SectionType::PreInitArray => 0x10,
        SectionType::Group => 0x11,
        SectionType::SymbolTableNameIndices => 0x12,
        SectionType::OperatingSystem(value) => value,
        SectionType::Processor(value) => value,
        SectionType::Other(value) => value,
    }
}

impl From<u32> for SectionType {
    fn from(value: u32) -> (r: Self)
        ensures
            r == section_type_of(value),
    {
        match value {
            0x00 => Self::Null,
            0x01 => Self::ProgramData,
            0x02 => Self::SymbolTable,
            0x03 => Self::StringTable,
            0x04 => Self::RelocationEntriesWithAddends,
            0x05 => Self::HashTable,
            0x06 => Self::Dynamic,
            0x07 => Self::Note,
            0x08 => Self::NoBits,
            0x09 => Self::RelocationEntries,
            0x0A => Self::SharedLibrary,
            0x0B => Self::LinkerSymbolTable,
            0x0C..=0x0D => Self::Other(value),
            0x0E => Self::InitArray,
            0x0F => Self::FinishArray,
            0x10 => Self::PreInitArray,
            0x11 => Self::Group,
            0x12 => Self::SymbolTableNameIndices,
            0x13..=0x5FFF_FFFF => Self::Other(value),
            0x6000_0000..=0x6FFF_FFFF => Self::OperatingSystem(value),
            0x7000_0000..=0x7FFF_FFFF => Self::Processor(value),
            0x8000_0000..=0xFFFF_FFFF => Self::Other(value),
        }
    }
}

impl vstd::std_specs::convert::FromSpecImpl<u32> for SectionType {
    open spec fn obeys_from_spec() -> bool {
        true
    }

    open spec fn from_spec(v: u32) -> Self {
        section_type_of(v)
    }
}

impl From<SectionType> for u32 {
    fn from(section_type: SectionType) -> (r: u32)
        ensures
            r == section_type_raw(section_type),
    {
        match section_type {
            SectionType::Null => 0x00,
            SectionType::ProgramData => 0x01,
            SectionType::SymbolTable => 0x02,
            SectionType::StringTable => 0x03,
            SectionType::RelocationEntriesWithAddends => 0x04,
            SectionType::HashTable => 0x05,
            SectionType::Dynamic => 0x06,
            SectionType::Note => 0x07,
            SectionType::NoBits => 0x08,
            SectionType::RelocationEntries => 0x09,
            SectionType::SharedLibrary => 0x0A,
            SectionType::LinkerSymbolTable => 0x0B,
            SectionType::InitArray => 0x0E,
            SectionType::FinishArray => 0x0F,
            SectionType::PreInitArray => 0x10,
            SectionType::Group => 0x11,
            SectionType::SymbolTableNameIndices => 0x12,
            SectionType::OperatingSystem(value) => value,
            SectionType::Processor(value) => value,
            SectionType::Other(value) => value,
        }
    }
}

impl vstd::std_specs::convert::FromSpecImpl<SectionType> for u32 {
    open spec fn obeys_from_spec() -> bool {
        true
    }

    open spec fn from_spec(v: SectionType) -> Self {
        section_type_raw(v)
    }
}

/// Decoding a raw section type and encoding the variant gives the value back.
pub proof fn lemma_section_type_round_trip(value: u32)
    ensures
        section_type_raw(section_type_of(value)) == value,
{
}

impl OsAbi {
    /// Whether a value carried by a pass-through variant lies in the window
    /// that variant stands for, rather than on a named value or another window.
    pub open spec fn is_canonical(self) -> bool {
        match self {
            OsAbi::Other(value) => value != 0x0 && value != 0x3,
            _ => true,
        }
    }
}

/// Every OS/ABI byte decodes to a canonical variant, and every canonical variant
/// encodes to a value that decodes back to it.
pub proof fn lemma_os_abi_canonical(value: u8, variant: OsAbi)
    ensures
        os_abi_of(value).is_canonical(),
        variant.is_canonical() ==> os_abi_of(os_abi_raw(variant)) == variant,
{
}

impl FileType {
    /// Whether a value carried by a pass-through variant lies in the window
    /// that variant stands for, rather than on a named value or another window.
    pub open spec fn is_canonical(self) -> bool {
        match self {
            FileType::Other(value) => 0x5 <= value <= 0xFDFF,
            FileType::OperatingSystem(value) => 0xFE00 <= value <= 0xFEFF,
            FileType::Processor(value) => 0xFF00 <= value,
            _ => true,
        }
    }
}

/// Every file type decodes to a canonical variant, and every canonical variant
/// encodes to a value that decodes back to it.
pub proof fn lemma_file_type_canonical(value: u16, variant: FileType)
    ensures
        file_type_of(value).is_canonical(),
        variant.is_canonical() ==> file_type_of(file_type_raw(variant)) == variant,
{
}

impl Machine {
    /// Whether a value carried by a pass-through variant lies in the window
    /// that variant stands for, rather than on a named value or another window.
    pub open spec fn is_canonical(self) -> bool {
        match self {
            Machine::Other(value) => value != 0x03 && value != 0x28 && value != 0x3E && value != 0xB7,
            _ => true,
        }
    }
}

/// Every machine code decodes to a canonical variant, and every canonical variant
/// encodes to a value that decodes back to it.
pub proof fn lemma_machine_canonical(value: u16, variant: Machine)
    ensures
        machine_of(value).is_canonical(),
        variant.is_canonical() ==> machine_of(machine_raw(variant)) == variant,
{
}

impl ProgramType {
    /// Whether a value carried by a pass-through variant lies in the window
    /// that variant stands for, rather than on a named value or another window.
    pub open spec fn is_canonical(self) -> bool {
        match self {
            ProgramType::Other(value) => (0x8 <= value < 0x6000_0000) || 0x8000_0000 <= value,
            ProgramType::OperatingSystem(value) => 0x6000_0000 <= value <= 0x6FFF_FFFF,
            ProgramType::Processor(value) => 0x7000_0000 <= value <= 0x7FFF_FFFF,
            _ => true,
        }
    }
}

/// Every segment type decodes to a canonical variant, and every canonical variant
/// encodes to a value that decodes back to it.
pub proof fn lemma_program_type_canonical(value: u32, variant: ProgramType)
    ensures
        program_type_of(value).is_canonical(),
        variant.is_canonical() ==> program_type_of(program_type_raw(variant)) == variant,
{
}

impl SectionType {
    /// Whether a value carried by a pass-through variant lies in the window
    /// that variant stands for, rather than on a named value or another window.
    pub open spec fn is_canonical(self) -> bool {
        match self {
            SectionType::Other(value) => value == 0x0C || value == 0x0D || (0x13 <= value < 0x6000_0000)
                || 0x8000_0000 <= value,
            SectionType::OperatingSystem(value) => 0x6000_0000 <= value <= 0x6FFF_FFFF,
            SectionType::Processor(value) => 0x7000_0000 <= value <= 0x7FFF_FFFF,
            _ => true,
        }
    }
}

/// Every section type decodes to a canonical variant, and every canonical variant
/// encodes to a value that decodes back to it.
pub proof fn lemma_section_type_canonical(value: u32, variant: SectionType)
    ensures
        section_type_of(value).is_canonical(),
        variant.is_canonical() ==> section_type_of(section_type_raw(variant)) == variant,
{
}

} // verus!
