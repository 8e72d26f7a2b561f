use aida_cpuid::aida_parse::hex_as_u32;
use aida_cpuid::aida_parse::hex_as_u64;
use aida_cpuid::aida_parse::try_match_cpuid;
use aida_cpuid::aida_parse::try_match_group_header;
use aida_cpuid::aida_parse::try_match_msr;
use aida_cpuid::aida_parse::AidaCpuidDump;
use aida_cpuid::aida_parse::CpuidQuery;
use aida_cpuid::aida_parse::CpuidResult;
use aida_cpuid::aida_parse::InputLine;

#[test]
fn parse_hex_numbers() {
    assert_eq!(hex_as_u32("65746E49"), 0x65746E49);
    assert_eq!(hex_as_u32("FFF9-FFFE"), 0xFFF9FFFE);

    assert_eq!(hex_as_u64("FFF9FFFE04006172"), 0xFFF9_FFFE_0400_6172);
    assert_eq!(hex_as_u64("FFF9-FFFE-0400-6172"), 0xFFF9_FFFE_0400_6172);
}

#[test]
fn group_headers_are_recognized() {
    assert_eq!(
        try_match_group_header("------[ Logical CPU #0 ]------"),
        Some(InputLine::GroupHeader {
            name: "Logical CPU #0".to_string()
        })
    );

    assert_eq!(
        try_match_group_header("------[ MSR Registers ]------"),
        Some(InputLine::GroupHeader {
            name: "MSR Registers".to_string()
        })
    );

    assert_eq!(try_match_group_header(""), None);
    assert_eq!(try_match_group_header("Random other input"), None);
}

#[test]
fn cpuid_is_recognized() {
    assert_eq!(try_match_cpuid(""), None);
    assert_eq!(try_match_cpuid("Random other input"), None);

    assert_eq!(
        try_match_cpuid("CPUID 00000000: 00000016-756E6547-6C65746E-49656E69 [GenuineIntel]"),
        Some(InputLine::Cpuid {
            query: CpuidQuery {
                leaf: 0,
                subleaf: 0,
            },
            result: CpuidResult {
                eax: 0x16,
                ebx: 0x756E6547,
                ecx: 0x6C65746E,
                edx: 0x49656E69,
            }
        })
    );

    assert_eq!(
        try_match_cpuid("CPUID 00000001: 000906ED-0E100800-7FFAFBBF-BFEBFBFF"),
        Some(InputLine::Cpuid {
            query: CpuidQuery {
                leaf: 1,
                subleaf: 0,
            },
            result: CpuidResult {
                eax: 0x906ED,
                ebx: 0x0E100800,
                ecx: 0x7FFAFBBF,
                edx: 0xBFEBFBFF,
            }
        })
    );

    assert_eq!(
        try_match_cpuid("CPUID 00000004: 1C03C163-03C0003F-00003FFF-00000006 [SL 03]"),
        Some(InputLine::Cpuid {
            query: CpuidQuery {
                leaf: 4,
                subleaf: 3,
            },
            result: CpuidResult {
                eax: 0x1C03C163,
                ebx: 0x03C0003F,
                ecx: 0x00003FFF,
                edx: 0x00000006,
            }
        })
    );
}

#[test]
fn msr_is_recognized() {
    assert_eq!(try_match_msr(""), None);
    assert_eq!(try_match_msr("Random other input"), None);

    assert_eq!(
        try_match_msr("MSR 000001FC: 0000-0000-0030-1CC3"),
        Some(InputLine::Msr {
            index: 0x1fc,
            value: 0x301cc3,
        })
    );

    assert_eq!(try_match_msr("MSR 00000300: < FAILED >"), None);

    assert_eq!(
        try_match_msr("MSR 0000030A: 0000-0000-0000-0000 [S200]"),
        Some(InputLine::Msr {
            index: 0x30a,
            value: 0x0,
        })
    );
}

#[test]
fn aida_input_is_parsed() {
    let input = "
------[ Logical CPU #0 ]------

allcpu: Package 0 / Core 0 / Thread 0: Valid

CPUID 00000000: 00000016-756E6547-6C65746E-49656E69 [GenuineIntel]
CPUID 00000001: 000906ED-00100800-7FFAFBBF-BFEBFBFF

------[ Logical CPU #1 ]------

allcpu: Package 0 / Core 0 / Thread 1: Valid, Virtual

CPUID 00000004: 1C004121-01C0003F-0000003F-00000000 [SL 00]
CPUID 00000004: 1C004122-01C0003F-0000003F-00000000 [SL 01]

------[ MSR Registers ]------

MSR 00000017: 0004-0000-0000-0000 [PlatID = 1]
MSR 0000001B: 0000-0000-FEE0-0900
";

    let aida_dump = AidaCpuidDump::from_str(input).expect("to be able to parse example input");

    assert_eq!(aida_dump.cpuid.len(), 2);
    assert_eq!(
        aida_dump
            .cpuid
            .get(&CpuidQuery {
                leaf: 1,
                subleaf: 0
            })
            .expect("to find CPUID leaf"),
        &CpuidResult {
            eax: 0x000906ED,
            ebx: 0x00100800,
            ecx: 0x7FFAFBBF,
            edx: 0xBFEBFBFF,
        }
    );

    assert_eq!(aida_dump.msrs.len(), 2);
    assert_eq!(
        *aida_dump.msrs.get(&0x17).expect("to find MSR value"),
        0x0004000000000000
    );
    assert_eq!(
        *aida_dump.msrs.get(&0x1b).expect("to find MSR value"),
        0x00000000FEE00900
    );
}
