use aida_cpuid::aida_line::is_group_header;
use aida_cpuid::aida_line::match_cpuid;
use aida_cpuid::aida_line::match_msr;
use aida_cpuid::aida_line::read_digits;
use aida_cpuid::aida_line::read_register;
use aida_cpuid::aida_line::read_subleaf;
use aida_cpuid::aida_line::scan_hex_digits;
use aida_cpuid::aida_parse::try_match_cpuid;
use aida_cpuid::aida_parse::try_match_group_header;
use aida_cpuid::aida_parse::try_match_msr;
use aida_cpuid::aida_parse::CpuidQuery;
use aida_cpuid::aida_parse::CpuidResult;
use aida_cpuid::aida_parse::InputLine;
use aida_cpuid::aida_parse::ParseErrorKind;

fn chars(s: &str) -> Vec<char> {
    s.chars().collect()
}

fn header(name: &str) -> Option<InputLine> {
    Some(InputLine::GroupHeader {
        name: name.to_string(),
    })
}

fn cpuid(leaf: u32, subleaf: u32, eax: u32, ebx: u32, ecx: u32, edx: u32) -> Option<InputLine> {
    Some(InputLine::Cpuid {
        query: CpuidQuery { leaf, subleaf },
        result: CpuidResult { eax, ebx, ecx, edx },
    })
}

fn msr(index: u32, value: u64) -> Option<InputLine> {
    Some(InputLine::Msr { index, value })
}

#[test]
fn header_needs_a_name() {
    assert_eq!(try_match_group_header("------[  ]------"), None);
    assert_eq!(try_match_group_header("------[ ]------"), None);
    assert_eq!(try_match_group_header("------[ x ]------"), header("x"));
    assert_eq!(try_match_group_header("------[   ]------"), header(" "));
}

#[test]
fn header_name_runs_to_the_last_closing_sequence() {
    assert_eq!(
        try_match_group_header("------[ a ]------ ]------"),
        header("a ]------")
    );
    assert_eq!(
        try_match_group_header("------[ ------[ b ]------"),
        header("------[ b")
    );
    assert_eq!(try_match_group_header("------[ CPU [0] ]------"), header("CPU [0]"));
}

#[test]
fn header_must_fill_the_line() {
    assert_eq!(try_match_group_header(" ------[ a ]------"), None);
    assert_eq!(try_match_group_header("------[ a ]------ "), None);
    assert_eq!(try_match_group_header("-----[ a ]------"), None);
    assert_eq!(try_match_group_header("------[ a ]-----"), None);
    assert_eq!(try_match_group_header("------[a ]------"), None);
    assert_eq!(try_match_group_header("------[ a]------"), None);
    assert_eq!(try_match_group_header("------[ a ]------\n"), None);
    assert_eq!(try_match_group_header("------[ a\nb ]------"), None);
}

#[test]
fn header_name_may_hold_any_other_character() {
    assert_eq!(
        try_match_group_header("------[ Prozessor \u{e4}\u{20ac}\r ]------"),
        header("Prozessor \u{e4}\u{20ac}\r")
    );
    assert!(is_group_header(&chars("------[ \u{1F600} ]------")));
    assert!(!is_group_header(&chars("------[ \u{1F600} ]-----")));
}

#[test]
fn cpuid_subleaf_only_at_the_end_of_the_line() {
    let line = "CPUID 00000004: 1C03C163-03C0003F-00003FFF-00000006";
    assert_eq!(
        try_match_cpuid(line),
        cpuid(4, 0, 0x1C03C163, 0x03C0003F, 0x00003FFF, 0x00000006)
    );
    assert_eq!(
        try_match_cpuid(&format!("{} [SL 1f]", line)),
        cpuid(4, 0x1f, 0x1C03C163, 0x03C0003F, 0x00003FFF, 0x00000006)
    );
    assert_eq!(
        try_match_cpuid(&format!("{} [SL FF]", line)),
        cpuid(4, 0xff, 0x1C03C163, 0x03C0003F, 0x00003FFF, 0x00000006)
    );
    for rest in [
        " [SL 03] ",
        " [SL 03] x",
        "  [SL 03]",
        "[SL 03]",
        " [SL 3]",
        " [SL 003]",
        " [SL 0g]",
        " [sl 03]",
        " [SL 03",
        " [SL-03]",
        "x",
        "-00000007",
        "0",
    ] {
        assert_eq!(
            try_match_cpuid(&format!("{}{}", line, rest)),
            cpuid(4, 0, 0x1C03C163, 0x03C0003F, 0x00003FFF, 0x00000006),
            "rest {:?}",
            rest
        );
    }
}

#[test]
fn cpuid_leaf_of_any_length_that_fits() {
    assert_eq!(
        try_match_cpuid("CPUID 1: 00000001-00000002-00000003-00000004"),
        cpuid(1, 0, 1, 2, 3, 4)
    );
    assert_eq!(
        try_match_cpuid("CPUID 8000001f: 0000000a-0000000B-0000000c-0000000D"),
        cpuid(0x8000_001f, 0, 10, 11, 12, 13)
    );
    assert_eq!(
        try_match_cpuid("CPUID 000000000000FFFFFFFF: 00000001-00000002-00000003-00000004"),
        cpuid(0xffff_ffff, 0, 1, 2, 3, 4)
    );
    assert_eq!(
        try_match_cpuid("CPUID 100000000: 00000001-00000002-00000003-00000004"),
        None
    );
    assert_eq!(
        try_match_cpuid("CPUID : 00000001-00000002-00000003-00000004"),
        None
    );
}

#[test]
fn cpuid_shape_is_exact() {
    for line in [
        " CPUID 00000001: 00000001-00000002-00000003-00000004",
        "cpuid 00000001: 00000001-00000002-00000003-00000004",
        "CPUID  00000001: 00000001-00000002-00000003-00000004",
        "CPUID 00000001 : 00000001-00000002-00000003-00000004",
        "CPUID 00000001:00000001-00000002-00000003-00000004",
        "CPUID 00000001:  00000001-00000002-00000003-00000004",
        "CPUID 0000-0001: 00000001-00000002-00000003-00000004",
        "CPUID 0000000g: 00000001-00000002-00000003-00000004",
        "CPUID 00000001: 0000001-00000002-00000003-00000004",
        "CPUID 00000001: 000000001-00000002-00000003-00000004",
        "CPUID 00000001: 00000001 00000002-00000003-00000004",
        "CPUID 00000001: 00000001-00000002-00000003",
        "CPUID 00000001: 00000001-00000002-00000003-0000000",
        "CPUID 00000001: 00000001-00000002-00000003-0000000x",
        "CPUID 00000001: 0000-001-00000002-00000003-00000004",
        "CPUID 00000001: 00000001-00000002-00000003-00000004\n",
        "CPUID 00000001: 00000001-00000002-00000003-00000004 [SL 03]\n",
        "CPUID 00000001: 00000001-00000002-00000003-00000004 a\nb",
        "CPUID 00000001",
        "CPUID ",
        "CPUID",
    ] {
        assert_eq!(try_match_cpuid(line), None, "line {:?}", line);
    }
}

#[test]
fn msr_value_field_is_nineteen_characters() {
    assert_eq!(try_match_msr("MSR 00000017: 0004-0000-0000-0000"), msr(0x17, 0x0004_0000_0000_0000));
    assert_eq!(try_match_msr("MSR 17: ffff-FFFF-ffff-FFFF"), msr(0x17, u64::MAX));
    assert_eq!(try_match_msr("MSR 17: 0000-0000-0000-000"), None);
    assert_eq!(try_match_msr("MSR 17: 0000-0000-0000-000 "), None);
    assert_eq!(try_match_msr("MSR 17: 0000-0000-0000-000g"), None);
    assert_eq!(try_match_msr("MSR 17: 0000 0000 0000 0000"), None);
    assert_eq!(try_match_msr("MSR 17: 0000-0000-0000-00001"), msr(0x17, 0));
    assert_eq!(try_match_msr("MSR 17: 0000-0000-0000-0000-1"), msr(0x17, 0));
}

#[test]
fn msr_error_markers_are_no_values() {
    assert_eq!(try_match_msr("MSR 00000300: < FAILED >"), None);
    assert_eq!(try_match_msr("MSR 00000300: <FAILED>"), None);
    assert_eq!(try_match_msr("MSR 00000300: "), None);
    assert_eq!(try_match_msr("MSR 00000300:"), None);
    assert_eq!(try_match_msr("MSR 00000300: < FAILED >        "), None);
}

#[test]
fn msr_value_field_of_other_groupings() {
    assert_eq!(try_match_msr("MSR 1: 0000000000000000001"), msr(1, 1));
    assert_eq!(try_match_msr("MSR 1: ---0000000000000012"), msr(1, 0x12));
    assert_eq!(try_match_msr("MSR 1: 00-0000000000000012"), msr(1, 0x12));
    assert_eq!(try_match_msr("MSR 1: ------------------A"), msr(1, 10));
    assert_eq!(try_match_msr("MSR 1: 000FFFFFFFFFFFFFFFF"), msr(1, u64::MAX));
    assert_eq!(try_match_msr("MSR 1: -------------------"), None);
    assert_eq!(try_match_msr("MSR 1: 0010000000000000000"), None);
    assert_eq!(try_match_msr("MSR 1: FFFFFFFFFFFFFFFFFFF"), None);
}

#[test]
fn msr_index_of_any_length_that_fits() {
    assert_eq!(try_match_msr("MSR c0000080: 0000-0000-0000-0d01"), msr(0xc000_0080, 0xd01));
    assert_eq!(try_match_msr("MSR 0FFFFFFFF: 0000-0000-0000-0001"), msr(0xffff_ffff, 1));
    assert_eq!(try_match_msr("MSR 100000000: 0000-0000-0000-0001"), None);
    assert_eq!(try_match_msr("MSR : 0000-0000-0000-0001"), None);
    assert_eq!(try_match_msr("MSR 0x17: 0000-0000-0000-0001"), None);
    assert_eq!(try_match_msr("MSR 17 : 0000-0000-0000-0001"), None);
    assert_eq!(try_match_msr(" MSR 17: 0000-0000-0000-0001"), None);
    assert_eq!(try_match_msr("msr 17: 0000-0000-0000-0001"), None);
    assert_eq!(try_match_msr("MSR 17: 0000-0000-0000-0001\n"), None);
    assert_eq!(try_match_msr("MSR 17: 0000-0000-0000-0001 a\nb"), None);
    assert_eq!(try_match_msr("MSR 17: 0000-0000-0000-0001 a\rb"), msr(0x17, 1));
}

#[test]
fn each_matcher_refuses_the_lines_of_the_others() {
    let h = "------[ MSR Registers ]------";
    let c = "CPUID 00000001: 000906ED-0E100800-7FFAFBBF-BFEBFBFF";
    let m = "MSR 000001FC: 0000-0000-0030-1CC3";
    assert_eq!(try_match_group_header(c), None);
    assert_eq!(try_match_group_header(m), None);
    assert_eq!(try_match_cpuid(h), None);
    assert_eq!(try_match_cpuid(m), None);
    assert_eq!(try_match_msr(h), None);
    assert_eq!(try_match_msr(c), None);
}

#[test]
fn input_line_from_str_reads_each_kind() {
    assert_eq!(
        InputLine::from_str("------[ MSR Registers ]------").ok(),
        header("MSR Registers")
    );
    assert_eq!(
        InputLine::from_str("CPUID 00000001: 000906ED-0E100800-7FFAFBBF-BFEBFBFF").ok(),
        cpuid(1, 0, 0x906ED, 0x0E100800, 0x7FFAFBBF, 0xBFEBFBFF)
    );
    assert_eq!(
        InputLine::from_str("MSR 000001FC: 0000-0000-0030-1CC3").ok(),
        msr(0x1fc, 0x301cc3)
    );
}

#[test]
fn input_line_from_str_refuses_other_lines() {
    for line in ["", "Random other input", "allcpu: Package 0 / Core 0 / Thread 0: Valid"] {
        let e = InputLine::from_str(line).expect_err("no line of a dump");
        assert_eq!(e.kind, ParseErrorKind::UnrecognizedLine);
    }
}

#[test]
fn input_line_clone_is_equal() {
    for line in [header("a b").unwrap(), cpuid(1, 2, 3, 4, 5, 6).unwrap(), msr(7, 8).unwrap()] {
        assert_eq!(line.clone(), line);
    }
}

#[test]
fn scan_hex_digits_stops_at_the_first_other_character() {
    let line = chars("ab09AFg0");
    assert_eq!(scan_hex_digits(&line, 0), 6);
    assert_eq!(scan_hex_digits(&line, 3), 6);
    assert_eq!(scan_hex_digits(&line, 6), 6);
    assert_eq!(scan_hex_digits(&line, 7), 8);
    assert_eq!(scan_hex_digits(&line, 8), 8);
    assert_eq!(scan_hex_digits(&chars(""), 0), 0);
}

#[test]
fn read_digits_takes_digits_only() {
    let line = chars("x1F-2y");
    assert_eq!(read_digits(&line, 1, 3, 0xff), Some(0x1f));
    assert_eq!(read_digits(&line, 1, 3, 0x1f), Some(0x1f));
    assert_eq!(read_digits(&line, 1, 3, 0x1e), None);
    assert_eq!(read_digits(&line, 1, 1, 0xff), None);
    assert_eq!(read_digits(&line, 1, 5, 0xffff), None);
    assert_eq!(read_digits(&line, 0, 2, 0xff), None);
}

#[test]
fn read_register_takes_eight_digits() {
    let line = chars("ab-DEADbeef-0123456");
    assert_eq!(read_register(&line, 3), Some(0xdead_beef));
    assert_eq!(read_register(&line, 2), None);
    assert_eq!(read_register(&line, 4), None);
    assert_eq!(read_register(&line, 12), None);
    assert_eq!(read_register(&line, 19), None);
    assert_eq!(read_register(&line, 100), None);
    assert_eq!(read_register(&chars("FFFFFFFF"), 0), Some(u32::MAX));
}

#[test]
fn read_subleaf_takes_the_whole_rest() {
    assert_eq!(read_subleaf(&chars("ab [SL 0a]"), 2), Some(10));
    assert_eq!(read_subleaf(&chars("ab [SL 0a]"), 1), None);
    assert_eq!(read_subleaf(&chars("ab [SL 0a] "), 2), None);
    assert_eq!(read_subleaf(&chars(""), 0), None);
}

#[test]
fn matchers_on_characters_agree_with_those_on_strings() {
    assert_eq!(
        match_cpuid(&chars("CPUID 00000004: 1C03C163-03C0003F-00003FFF-00000006 [SL 03]")),
        Some((
            CpuidQuery { leaf: 4, subleaf: 3 },
            CpuidResult { eax: 0x1C03C163, ebx: 0x03C0003F, ecx: 0x00003FFF, edx: 6 }
        ))
    );
    assert_eq!(match_cpuid(&chars("MSR 000001FC: 0000-0000-0030-1CC3")), None);
    assert_eq!(
        match_msr(&chars("MSR 000001FC: 0000-0000-0030-1CC3")),
        Some((0x1fc, 0x301cc3))
    );
    assert_eq!(match_msr(&chars("MSR 00000300: < FAILED >")), None);
}
