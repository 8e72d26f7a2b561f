//! Features that show in MSR values: a feature is present where every one of
//! its MSRs has all the required bits set.

use vstd::prelude::*;
use crate::cpu_information::lookup;
use crate::cpu_information::CpuInformation;

verus! {

/// A requirement on one MSR: all bits of `must_be_set` are set in the MSR of
/// index `index`.
#[derive(Debug, Clone, Copy, PartialEq, Eq, Structural)]
pub struct MsrMatch {
    pub index: u32,
    pub must_be_set: u64,
}

/// A named feature with the requirements that all have to be met for it.
#[derive(Debug, Clone, Copy)]
pub struct MsrFeature {
    pub name: &'static str,
    pub must_match: &'static [MsrMatch],
}

/// Whether the MSR values `msrs` meet `msr_match`: unknown where the MSR is,
/// else whether the MSR has every bit of `must_be_set` set.
pub open spec fn match_value(msr_match: MsrMatch, msrs: Map<u32, u64>) -> Option<bool> {
    match lookup(msrs, msr_match.index) {
        Some(value) => Some(value & msr_match.must_be_set == msr_match.must_be_set),
        None => None,
    }
}

/// Whether the MSR values `msrs` meet all of `must_match`: unknown where one
/// of the MSRs is unknown, whatever the others hold; else whether every
/// requirement is met. No requirements are met by any values.
pub open spec fn feature_value(must_match: Seq<MsrMatch>, msrs: Map<u32, u64>) -> Option<bool> {
    if exists|i: int|
        0 <= i < must_match.len() && match_value(#[trigger] must_match[i], msrs) is None {
        None
    } else {
        Some(
            forall|i: int|
                0 <= i < must_match.len() ==> match_value(#[trigger] must_match[i], msrs) == Some(
                    true,
                ),
        )
    }
}

/// Checks one requirement against `cpu_info`.
pub fn does_match<C: CpuInformation + ?Sized>(cpu_info: &C, msr_match: &MsrMatch) -> (r: Option<
    bool,
>)
    ensures
        r == match_value(*msr_match, cpu_info.msr_values()),
{
    match cpu_info.rdmsr(msr_match.index) {
        Some(value) => Some((value & msr_match.must_be_set) == msr_match.must_be_set),
        None => None,
    }
}

/// Checks whether a feature is available. The answer might be unknown,
/// if the relevant MSRs are not available.
pub fn has_feature<C: CpuInformation + ?Sized>(cpu_info: &C, feature: &MsrFeature) -> (r: Option<
    bool,
>)
    ensures
        r == feature_value(feature.must_match@, cpu_info.msr_values()),
{
    let ghost msrs = cpu_info.msr_values();
    let ghost all = feature.must_match@;
    let mut known: bool = true;
    let mut met: bool = true;
    let n = feature.must_match.len();
    let mut i: usize = 0;
    while i < n
        invariant
            n == all.len(),
            0 <= i <= n,
            all == feature.must_match@,
            msrs == cpu_info.msr_values(),
            known == (forall|j: int| 0 <= j < i ==> match_value(#[trigger] all[j], msrs) is Some),
            met == (forall|j: int|
                0 <= j < i ==> match_value(#[trigger] all[j], msrs) != Some(false)),
        decreases n - i,
    {
        match does_match(cpu_info, &feature.must_match[i]) {
            Some(b) => {
                if !b {
                    met = false;
                }
            },
            None => {
                known = false;
            },
        }
        i += 1;
    }
    if known {
        Some(met)
    } else {
        None
    }
}

/// The letter for a tri-state answer: `Y` for yes, `N` for no, `?` for
/// unknown.
pub fn tristate_to_char(tristate: Option<bool>) -> (c: char)
    ensures
        c == (match tristate {
            Some(true) => 'Y',
            Some(false) => 'N',
            None => '?',
        }),
{
    match tristate {
        Some(b) => {
            if b {
                'Y'
            } else {
                'N'
            }
        },
        None => '?',
    }
}

} // verus!
