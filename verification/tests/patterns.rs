//! The line shapes, written once more as regular expressions, held against
//! the library's matchers on many lines.

use aida_cpuid::aida_parse::try_match_cpuid;
use aida_cpuid::aida_parse::try_match_group_header;
use aida_cpuid::aida_parse::try_match_msr;
use aida_cpuid::aida_parse::AidaCpuidDump;
use aida_cpuid::aida_parse::CpuidQuery;
use aida_cpuid::aida_parse::CpuidResult;
use aida_cpuid::aida_parse::InputLine;
use regex::Regex;
use std::collections::BTreeMap;

struct Patterns {
    header: Regex,
    cpuid: Regex,
    msr: Regex,
}

fn patterns() -> Patterns {
    Patterns {
        header: Regex::new(r"^------\[ (.+) ]------$").expect("a valid regex"),
        cpuid: Regex::new(r"^CPUID ([0-9a-fA-F]+): ([0-9a-fA-F]{8})-([0-9a-fA-F]{8})-([0-9a-fA-F]{8})-([0-9a-fA-F]{8})(?: \[SL ([0-9a-fA-F]{2})\]|.*)$").expect("a valid regex"),
        msr: Regex::new(r"^MSR ([0-9a-fA-F]+): ([-0-9a-fA-F]{19}).*$").expect("a valid regex"),
    }
}

fn without_hyphens(input: &str) -> String {
    input.chars().filter(|&c| c != '-').collect()
}

fn hex32(input: &str) -> Option<u32> {
    u32::from_str_radix(&without_hyphens(input), 16).ok()
}

fn hex64(input: &str) -> Option<u64> {
    u64::from_str_radix(&without_hyphens(input), 16).ok()
}

impl Patterns {
    fn header(&self, line: &str) -> Option<InputLine> {
        let m = self.header.captures(line)?;
        Some(InputLine::GroupHeader {
            name: m.get(1)?.as_str().to_owned(),
        })
    }

    fn cpuid(&self, line: &str) -> Option<InputLine> {
        let m = self.cpuid.captures(line)?;
        Some(InputLine::Cpuid {
            query: CpuidQuery {
                leaf: hex32(m.get(1)?.as_str())?,
                subleaf: match m.get(6) {
                    Some(s) => hex32(s.as_str())?,
                    None => 0,
                },
            },
            result: CpuidResult {
                eax: hex32(m.get(2)?.as_str())?,
                ebx: hex32(m.get(3)?.as_str())?,
                ecx: hex32(m.get(4)?.as_str())?,
                edx: hex32(m.get(5)?.as_str())?,
            },
        })
    }

    fn msr(&self, line: &str) -> Option<InputLine> {
        let m = self.msr.captures(line)?;
        Some(InputLine::Msr {
            index: hex32(m.get(1)?.as_str())?,
            value: hex64(m.get(2)?.as_str())?,
        })
    }

    fn line(&self, line: &str) -> Option<InputLine> {
        self.header(line)
            .or_else(|| self.cpuid(line))
            .or_else(|| self.msr(line))
    }

    /// The two maps of a dump, or `None` where the text is no dump.
    fn dump(&self, text: &str) -> Option<(BTreeMap<CpuidQuery, CpuidResult>, BTreeMap<u32, u64>)> {
        let mut groups: Vec<(String, Vec<InputLine>)> = vec![(String::new(), vec![])];
        for line in text.lines().filter_map(|l| self.line(l)) {
            if let InputLine::GroupHeader { name } = line {
                groups.push((name, vec![]));
            } else {
                groups.last_mut()?.1.push(line);
            }
        }
        let mut by_name: BTreeMap<String, Vec<InputLine>> = BTreeMap::new();
        for (name, lines) in groups {
            if by_name.insert(name, lines).is_some() {
                return None;
            }
        }
        let mut cpuid = BTreeMap::new();
        for line in by_name.get("Logical CPU #0")? {
            if let InputLine::Cpuid { query, result } = line {
                cpuid.insert(*query, *result);
            }
        }
        let mut msrs = BTreeMap::new();
        for line in by_name.get("MSR Registers")? {
            if let InputLine::Msr { index, value } = line {
                msrs.insert(*index, *value);
            }
        }
        Some((cpuid, msrs))
    }
}

fn check_line(p: &Patterns, line: &str) {
    assert_eq!(try_match_group_header(line), p.header(line), "header {:?}", line);
    assert_eq!(try_match_cpuid(line), p.cpuid(line), "cpuid {:?}", line);
    assert_eq!(try_match_msr(line), p.msr(line), "msr {:?}", line);
    assert_eq!(InputLine::from_str(line).ok(), p.line(line), "line {:?}", line);
}

fn check_dump(p: &Patterns, text: &str) {
    let expected = p.dump(text);
    match AidaCpuidDump::from_str(text) {
        Ok(d) => {
            let (cpuid, msrs) = expected.expect("the text is a dump");
            assert_eq!(d.cpuid.len(), cpuid.len(), "{:?}", text);
            for (query, result) in &cpuid {
                assert_eq!(d.cpuid.get(query), Some(result), "{:?}", text);
            }
            assert_eq!(d.msrs, msrs, "{:?}", text);
        }
        Err(_) => assert!(expected.is_none(), "{:?}", text),
    }
}

/// A small generator of numbers that repeats from run to run.
struct Numbers(u64);

impl Numbers {
    fn next(&mut self, below: usize) -> usize {
        self.0 = self
            .0
            .wrapping_mul(6364136223846793005)
            .wrapping_add(1442695040888963407);
        ((self.0 >> 33) as usize) % below
    }
}

const SEEDS: [&str; 14] = [
    "------[ Logical CPU #0 ]------",
    "------[ MSR Registers ]------",
    "------[ x ]------",
    "CPUID 00000000: 00000016-756E6547-6C65746E-49656E69 [GenuineIntel]",
    "CPUID 00000001: 000906ED-0E100800-7FFAFBBF-BFEBFBFF",
    "CPUID 00000004: 1C03C163-03C0003F-00003FFF-00000006 [SL 03]",
    "CPUID 8000001f: 0000000a-0000000b-0000000c-0000000d [SL ff]",
    "CPUID FFFFFFFF: 00000000-00000000-00000000-00000000",
    "MSR 000001FC: 0000-0000-0030-1CC3",
    "MSR 00000300: < FAILED >",
    "MSR 0000030A: 0000-0000-0000-0000 [S200]",
    "MSR FFFFFFFF: FFFF-FFFF-FFFF-FFFF",
    "allcpu: Package 0 / Core 0 / Thread 0: Valid",
    "",
];

const PIECES: [&str; 40] = [
    "0", "1", "9", "a", "f", "A", "F", "g", "G", "-", "--", " ", "  ", ":", ": ", "[", "]", "[SL ",
    " [SL 0", "SL", "------", "------[ ", " ]------", "CPUID ", "MSR ", "\n", "\r", "\r\n", "\t",
    "x", "<", ">", "#", "\u{e4}", "\u{20ac}", "\u{1F600}", "00000000", "FFFFFFFFF", "0000-", "+",
];

fn mutate(n: &mut Numbers, line: &str) -> String {
    let mut chars: Vec<char> = line.chars().collect();
    let steps = 1 + n.next(3);
    for _ in 0..steps {
        let at = n.next(chars.len() + 1);
        let piece: Vec<char> = PIECES[n.next(PIECES.len())].chars().collect();
        match n.next(4) {
            0 => {
                chars.splice(at..at, piece);
            }
            1 => {
                if at < chars.len() {
                    chars.remove(at);
                }
            }
            2 => {
                let end = (at + piece.len()).min(chars.len());
                chars.splice(at..end, piece);
            }
            _ => {
                let end = (at + 1 + n.next(4)).min(chars.len());
                chars.drain(at..end);
            }
        }
    }
    chars.into_iter().collect()
}

#[test]
fn matchers_agree_with_the_patterns_on_the_seed_lines() {
    let p = patterns();
    for line in SEEDS {
        check_line(&p, line);
    }
}

#[test]
fn matchers_agree_with_the_patterns_on_edge_lines() {
    let p = patterns();
    for line in [
        "------[  ]------",
        "------[   ]------",
        "------[ ]------",
        "------[ a ]------ ]------",
        "------[ ------[ b ]------",
        "------[ a\nb ]------",
        "------[ a ]------\n",
        "\n------[ a ]------",
        "------[ a\r ]------",
        "CPUID 1: 00000001-00000002-00000003-00000004",
        "CPUID 100000000: 00000001-00000002-00000003-00000004",
        "CPUID 0000000000001: 00000001-00000002-00000003-00000004",
        "CPUID 1: 00000001-00000002-00000003-00000004 [SL 03] ",
        "CPUID 1: 00000001-00000002-00000003-00000004 [SL 03]\n",
        "CPUID 1: 00000001-00000002-00000003-00000004 [SL 03]\r",
        "CPUID 1: 00000001-00000002-00000003-00000004  [SL 03]",
        "CPUID 1: 00000001-00000002-00000003-00000004 [SL 3]",
        "CPUID 1: 00000001-00000002-00000003-00000004 [SL 0g]",
        "CPUID 1: 00000001-00000002-00000003-000000040",
        "CPUID 1: 00000001-00000002-00000003-00000004-00000005",
        "CPUID 1: 00000001-00000002-00000003-00000004\u{e4}",
        "CPUID 1: 00000001-00000002-00000003-00000004 a\nb",
        "CPUID 1: 0000-001-00000002-00000003-00000004",
        "MSR 1: 0000000000000000001",
        "MSR 1: -------------------",
        "MSR 1: ------------------1",
        "MSR 1: FFFFFFFFFFFFFFFFFFF",
        "MSR 1: 0010000000000000000",
        "MSR 1: 000FFFFFFFFFFFFFFFF",
        "MSR 1: 0000-0000-0000-00001",
        "MSR 1: 0000-0000-0000-000",
        "MSR 1: 0000-0000-0000-0000\n",
        "MSR 1: 0000-0000-0000-0000 a\nb",
        "MSR 100000000: 0000-0000-0000-0000",
        "MSR 1 : 0000-0000-0000-0000",
        "MSR +1: 0000-0000-0000-0000",
        "MSR 1: +000-0000-0000-0000",
    ] {
        check_line(&p, line);
    }
}

#[test]
fn matchers_agree_with_the_patterns_on_changed_lines() {
    let p = patterns();
    let mut n = Numbers(0x5eed);
    for round in 0..10000 {
        let seed = SEEDS[round % SEEDS.len()];
        let line = mutate(&mut n, seed);
        check_line(&p, &line);
    }
}

#[test]
fn dumps_agree_with_the_patterns() {
    let p = patterns();
    for text in [
        "",
        "\n",
        "------[ Logical CPU #0 ]------\n------[ MSR Registers ]------\n",
        "------[ Logical CPU #0 ]------\r\n------[ MSR Registers ]------\r\n",
        "------[ Logical CPU #0 ]------\n------[ MSR Registers ]------\r",
        "------[ Logical CPU #0 ]------\n------[ Logical CPU #0 ]------\n",
        "------[ Logical CPU #0 ]------\nCPUID 1: 00000001-00000002-00000003-00000004\n",
        "------[ MSR Registers ]------\nMSR 1: 0000-0000-0000-0001\n",
        "CPUID 1: 00000001-00000002-00000003-00000004\n------[ Logical CPU #0 ]------\nCPUID 1: 00000005-00000002-00000003-00000004\nCPUID 1: 00000006-00000002-00000003-00000004\n------[ MSR Registers ]------\nMSR 1: 0000-0000-0000-0001\nMSR 1: < FAILED >\nMSR 2: 0000-0000-0000-0002\nMSR 1: 0000-0000-0000-0003",
    ] {
        check_dump(&p, text);
    }
}

#[test]
fn dumps_of_changed_lines_agree_with_the_patterns() {
    let p = patterns();
    let mut n = Numbers(0xd0d0);
    for _ in 0..500 {
        let mut text = String::new();
        let count = n.next(12);
        for _ in 0..count {
            let seed = SEEDS[n.next(SEEDS.len())];
            if n.next(3) == 0 {
                text.push_str(&mutate(&mut n, seed));
            } else {
                text.push_str(seed);
            }
            text.push_str(["\n", "\n", "\r\n", "", "\r"][n.next(5)]);
        }
        check_dump(&p, &text);
    }
}
