use elf64::codec::{FileType, Machine, OsAbi, ProgramType, SectionType};

#[test]
fn os_abi_named_values() {
    assert_eq!(OsAbi::from(0u8), OsAbi::SystemV);
    assert_eq!(OsAbi::from(3u8), OsAbi::Linux);
    assert_eq!(OsAbi::from(7u8), OsAbi::Other(7));
    assert_eq!(u8::from(OsAbi::Linux), 3);
}

#[test]
fn os_abi_round_trips_every_value() {
    for v in 0..=u8::MAX {
        assert_eq!(u8::from(OsAbi::from(v)), v);
    }
}

#[test]
fn file_type_windows() {
    assert_eq!(FileType::from(0u16), FileType::NoType);
    assert_eq!(FileType::from(1u16), FileType::Relocatable);
    assert_eq!(FileType::from(2u16), FileType::Executable);
    assert_eq!(FileType::from(3u16), FileType::Dynamic);
    assert_eq!(FileType::from(4u16), FileType::Core);
    assert_eq!(FileType::from(5u16), FileType::Other(5));
    assert_eq!(FileType::from(0xFDFFu16), FileType::Other(0xFDFF));
    assert_eq!(FileType::from(0xFE00u16), FileType::OperatingSystem(0xFE00));
    assert_eq!(FileType::from(0xFE80u16), FileType::OperatingSystem(0xFE80));
    assert_eq!(FileType::from(0xFEFFu16), FileType::OperatingSystem(0xFEFF));
    assert_eq!(FileType::from(0xFF00u16), FileType::Processor(0xFF00));
    assert_eq!(FileType::from(0xFFFFu16), FileType::Processor(0xFFFF));
}

#[test]
fn file_type_round_trips_every_value() {
    for v in 0..=u16::MAX {
        assert_eq!(u16::from(FileType::from(v)), v);
    }
}

#[test]
fn machine_named_values() {
    assert_eq!(Machine::from(0x03u16), Machine::X86);
    assert_eq!(Machine::from(0x28u16), Machine::Arm);
    assert_eq!(Machine::from(0x3Eu16), Machine::Amd64);
    assert_eq!(Machine::from(0xB7u16), Machine::Arm64);
    assert_eq!(Machine::from(0xF3u16), Machine::Other(0xF3));
    assert_eq!(u16::from(Machine::Arm64), 0xB7);
}

#[test]
fn machine_round_trips_every_value() {
    for v in 0..=u16::MAX {
        assert_eq!(u16::from(Machine::from(v)), v);
    }
}

#[test]
fn program_type_windows() {
    assert_eq!(ProgramType::from(0u32), ProgramType::Null);
    assert_eq!(ProgramType::from(1u32), ProgramType::Load);
    assert_eq!(ProgramType::from(7u32), ProgramType::ThreadLocalStorage);
    assert_eq!(ProgramType::from(8u32), ProgramType::Other(8));
    assert_eq!(ProgramType::from(0x5FFF_FFFFu32), ProgramType::Other(0x5FFF_FFFF));
    assert_eq!(ProgramType::from(0x6000_0000u32), ProgramType::OperatingSystem(0x6000_0000));
    assert_eq!(ProgramType::from(0x6474_E551u32), ProgramType::OperatingSystem(0x6474_E551));
    assert_eq!(ProgramType::from(0x6FFF_FFFFu32), ProgramType::OperatingSystem(0x6FFF_FFFF));
    assert_eq!(ProgramType::from(0x7000_0000u32), ProgramType::Processor(0x7000_0000));
    assert_eq!(ProgramType::from(0x7FFF_FFFFu32), ProgramType::Processor(0x7FFF_FFFF));
    assert_eq!(ProgramType::from(0x8000_0000u32), ProgramType::Other(0x8000_0000));
    assert_eq!(ProgramType::from(0xFFFF_FFFFu32), ProgramType::Other(0xFFFF_FFFF));
}

#[test]
fn program_type_round_trips_sampled_values() {
    let samples: [u32; 16] = [
        0, 1, 2, 3, 4, 5, 6, 7, 8, 0x5FFF_FFFF, 0x6000_0000, 0x6FFF_FFFF, 0x7000_0000,
        0x7FFF_FFFF, 0x8000_0000, 0xFFFF_FFFF,
    ];
    for v in samples {
        assert_eq!(u32::from(ProgramType::from(v)), v);
    }
    for v in (0..=u32::MAX).step_by(65_537) {
        assert_eq!(u32::from(ProgramType::from(v)), v);
    }
}

#[test]
fn section_type_windows() {
    assert_eq!(SectionType::from(0u32), SectionType::Null);
    assert_eq!(SectionType::from(1u32), SectionType::ProgramData);
    assert_eq!(SectionType::from(3u32), SectionType::StringTable);
    assert_eq!(SectionType::from(0x0Bu32), SectionType::LinkerSymbolTable);
    assert_eq!(SectionType::from(0x0Cu32), SectionType::Other(0x0C));
    assert_eq!(SectionType::from(0x0Du32), SectionType::Other(0x0D));
    assert_eq!(SectionType::from(0x0Eu32), SectionType::InitArray);
    assert_eq!(SectionType::from(0x12u32), SectionType::SymbolTableNameIndices);
    assert_eq!(SectionType::from(0x13u32), SectionType::Other(0x13));
    assert_eq!(SectionType::from(0x6000_0000u32), SectionType::OperatingSystem(0x6000_0000));
    assert_eq!(SectionType::from(0x6FFF_FFFFu32), SectionType::OperatingSystem(0x6FFF_FFFF));
    assert_eq!(SectionType::from(0x7000_0000u32), SectionType::Processor(0x7000_0000));
    assert_eq!(SectionType::from(0x7FFF_FFFFu32), SectionType::Processor(0x7FFF_FFFF));
    assert_eq!(SectionType::from(0x8000_0000u32), SectionType::Other(0x8000_0000));
    assert_eq!(u32::from(SectionType::Group), 0x11);
}

#[test]
fn section_type_round_trips_sampled_values() {
    for v in 0u32..=0x20 {
        assert_eq!(u32::from(SectionType::from(v)), v);
    }
    let samples: [u32; 7] = [
        0x5FFF_FFFF, 0x6000_0000, 0x6FFF_FFFF, 0x7000_0000, 0x7FFF_FFFF, 0x8000_0000, 0xFFFF_FFFF,
    ];
    for v in samples {
        assert_eq!(u32::from(SectionType::from(v)), v);
    }
    for v in (0..=u32::MAX).step_by(65_537) {
        assert_eq!(u32::from(SectionType::from(v)), v);
    }
}
