//! # Parse AIDA CPUID Dumps
//!
//! Extract CPUID and MSR information out of AIDA CPUID dumps. This
//! code only interprets CPUID values from logical CPU 0. Where a dump
//! gives a CPUID query or an MSR more than once, the last value counts.
//!
//! See [AidaCpuidDump].

use vstd::prelude::*;
use std::collections::BTreeMap;
pub use crate::aida_line::InputLine;
pub use crate::aida_line::try_match_cpuid;
pub use crate::aida_line::try_match_group_header;
pub use crate::aida_line::try_match_msr;
pub use crate::cpu_information::CpuidQuery;
pub use crate::cpu_information::CpuidResult;
pub use crate::cpuid_table::CpuidTable;
pub use crate::hex::hex_as_u32;
pub use crate::hex::hex_as_u64;
pub use crate::hex::try_hex_as_u32;
pub use crate::hex::try_hex_as_u64;
use crate::aida_line::classify_line;
use crate::aida_line::cpuid_line;
use crate::aida_line::group_header_name;
use crate::aida_line::msr_line;
use crate::aida_line::read_line;
use crate::aida_line::LineView;
use crate::cpu_information::CpuInformation;
use crate::grouping::find_group;
use crate::grouping::group_lines;
use crate::grouping::has_duplicate_group;
use crate::grouping::lemma_group_holds_what_stands_under;
use crate::grouping::lemma_groups_are_those_of_the_headers;
use crate::grouping::line_views;
use crate::grouping::read_lines;
use crate::text::chars_of;
use crate::text::lines_of;

verus! {

/// The name of the group that holds the CPUID lines of logical CPU 0.
pub const LOGICAL_CPU_GROUP: &'static str = "Logical CPU #0";

/// The name of the group that holds the MSR lines.
pub const MSR_GROUP: &'static str = "MSR Registers";

/// Why a text is no dump, or a line no line of a dump.
#[derive(Debug, Clone, Copy, PartialEq, Eq, Structural)]
pub enum ParseErrorKind {
    /// The line is no group header, CPUID line or MSR line.
    UnrecognizedLine,
    /// Two groups have the same name.
    DuplicateGroup,
    /// There is no group named `Logical CPU #0`.
    MissingCpuGroup,
    /// There is no group named `MSR Registers`.
    MissingMsrGroup,
}

/// The failure to read a dump.
#[derive(Debug, Clone, Copy, PartialEq, Eq, Structural)]
pub struct ParseAidaCpuidDumpError {
    pub kind: ParseErrorKind,
}

impl ParseAidaCpuidDumpError {
    /// The message for this failure, the same for every kind.
    pub fn to_string(&self) -> (message: String)
        ensures
            message@ == "Failed to parse AIDA CPUID dump"@,
    {
        "Failed to parse AIDA CPUID dump".to_owned()
    }
}

/// What a dump holds: the CPUID results of logical CPU 0, each under its
/// query, and the MSR values, each under its index.
pub struct DumpView {
    pub cpuid: Map<CpuidQuery, CpuidResult>,
    pub msrs: Map<u32, u64>,
}

/// The CPUID and MSR values read from a dump.
#[derive(Debug)]
pub struct AidaCpuidDump {
    pub cpuid: CpuidTable,
    pub msrs: BTreeMap<u32, u64>,
}

impl Clone for AidaCpuidDump {
    fn clone(&self) -> (dump: Self)
        ensures
            dump@ == self@,
    {
        AidaCpuidDump { cpuid: self.cpuid.clone(), msrs: self.msrs.clone() }
    }
}

impl View for AidaCpuidDump {
    type V = DumpView;

    open spec fn view(&self) -> DumpView {
        DumpView { cpuid: self.cpuid@, msrs: self.msrs@ }
    }
}

/// The CPUID results that `lines` give, each under its query. Where a query
/// occurs more than once, its last result stays. Other lines are passed over.
pub open spec fn cpuid_map(lines: Seq<LineView>) -> Map<CpuidQuery, CpuidResult>
    decreases lines.len(),
{
    if lines.len() == 0 {
        Map::empty()
    } else {
        let before = cpuid_map(lines.drop_last());
        match lines.last() {
            LineView::Cpuid { query, result } => before.insert(query, result),
            _ => before,
        }
    }
}

/// The MSR values that `lines` give, each under its index. Where an index
/// occurs more than once, its last value stays. Other lines are passed over.
pub open spec fn msr_map(lines: Seq<LineView>) -> Map<u32, u64>
    decreases lines.len(),
{
    if lines.len() == 0 {
        Map::empty()
    } else {
        let before = msr_map(lines.drop_last());
        match lines.last() {
            LineView::Msr { index, value } => before.insert(index, value),
            _ => before,
        }
    }
}

/// The name of the group that line `k` of `lines` stands under: the name that
/// the last group header before it gives, or the empty name where no header
/// comes before it.
pub open spec fn group_at(lines: Seq<Seq<char>>, k: int) -> Seq<char>
    decreases k,
{
    if k <= 0 {
        Seq::empty()
    } else {
        match group_header_name(lines[k - 1]) {
            Some(name) => name,
            None => group_at(lines, k - 1),
        }
    }
}

/// What the CPUID and MSR lines among the first `k` of `lines` say that stand
/// under a header named `name`, in order.
pub open spec fn said_under(lines: Seq<Seq<char>>, name: Seq<char>, k: int) -> Seq<LineView>
    decreases k,
{
    if k <= 0 {
        Seq::empty()
    } else {
        let before = said_under(lines, name, k - 1);
        match classify_line(lines[k - 1]) {
            Some(said) => if !(said is GroupHeader) && group_at(lines, k - 1) == name {
                before.push(said)
            } else {
                before
            },
            None => before,
        }
    }
}

/// Whether one of `lines` is a group header that gives the name `name`.
pub open spec fn has_header(lines: Seq<Seq<char>>, name: Seq<char>) -> bool {
    exists|k: int| 0 <= k < lines.len() && group_header_name(#[trigger] lines[k]) == Some(name)
}

/// Whether two of `lines` are group headers that give the same name.
pub open spec fn has_repeated_header(lines: Seq<Seq<char>>) -> bool {
    exists|i: int, j: int|
        0 <= i < j < lines.len() && group_header_name(#[trigger] lines[i]) is Some
            && group_header_name(lines[i]) == group_header_name(#[trigger] lines[j])
}

/// What reading `text` as a dump gives.
///
/// Reading fails where two group headers give the same name, else where no
/// header gives the name `Logical CPU #0`, else where none gives the name
/// `MSR Registers`. Otherwise the dump holds the CPUID results that stand
/// under the first of these headers and the MSR values that stand under the
/// second, the last one for each query and index, and nothing that stands
/// under any other header or before the first.
pub open spec fn parse_dump(text: Seq<char>) -> Result<DumpView, ParseErrorKind> {
    let lines = lines_of(text);
    if has_repeated_header(lines) {
        Err(ParseErrorKind::DuplicateGroup)
    } else if !has_header(lines, LOGICAL_CPU_GROUP@) {
        Err(ParseErrorKind::MissingCpuGroup)
    } else if !has_header(lines, MSR_GROUP@) {
        Err(ParseErrorKind::MissingMsrGroup)
    } else {
        Ok(
            DumpView {
                cpuid: cpuid_map(said_under(lines, LOGICAL_CPU_GROUP@, lines.len() as int)),
                msrs: msr_map(said_under(lines, MSR_GROUP@, lines.len() as int)),
            },
        )
    }
}

/// What came of reading a dump, by its view.
pub open spec fn dump_outcome(r: Result<AidaCpuidDump, ParseAidaCpuidDumpError>) -> Result<
    DumpView,
    ParseErrorKind,
> {
    match r {
        Ok(dump) => Ok(dump@),
        Err(e) => Err(e.kind),
    }
}

/// Collects the CPUID results that `lines` give.
pub fn collect_cpuid(lines: &Vec<InputLine>) -> (table: CpuidTable)
    ensures
        table@ == cpuid_map(line_views(lines@)),
{
    let ghost all = line_views(lines@);
    let mut table = CpuidTable::new();
    let mut i: usize = 0;
    while i < lines.len()
        invariant
            0 <= i <= lines@.len(),
            all == line_views(lines@),
            table@ == cpuid_map(all.take(i as int)),
        decreases lines@.len() - i,
    {
        assert(all.take(i + 1).drop_last() =~= all.take(i as int));
        if let InputLine::Cpuid { query, result } = &lines[i] {
            table.insert(*query, *result);
        }
        i += 1;
    }
    assert(all.take(i as int) =~= all);
    table
}

/// Puts `value` under `index`, in place of what `msrs` held for that index.
fn insert_msr(msrs: &mut BTreeMap<u32, u64>, index: u32, value: u64)
    ensures
        final(msrs)@ == old(msrs)@.insert(index, value),
{
    broadcast use vstd::laws_cmp::group_laws_cmp;

    msrs.insert(index, value);
}

/// Collects the MSR values that `lines` give.
pub fn collect_msrs(lines: &Vec<InputLine>) -> (msrs: BTreeMap<u32, u64>)
    ensures
        msrs@ == msr_map(line_views(lines@)),
{
    let ghost all = line_views(lines@);
    let mut msrs: BTreeMap<u32, u64> = BTreeMap::new();
    let mut i: usize = 0;
    while i < lines.len()
        invariant
            0 <= i <= lines@.len(),
            all == line_views(lines@),
            msrs@ == msr_map(all.take(i as int)),
        decreases lines@.len() - i,
    {
        assert(all.take(i + 1).drop_last() =~= all.take(i as int));
        if let InputLine::Msr { index, value } = &lines[i] {
            insert_msr(&mut msrs, *index, *value);
        }
        i += 1;
    }
    assert(all.take(i as int) =~= all);
    msrs
}

impl InputLine {
    /// Reads one line. A line that is no group header, CPUID line or MSR line
    /// is refused.
    pub fn from_str(s: &str) -> (r: Result<InputLine, ParseAidaCpuidDumpError>)
        ensures
            match r {
                Ok(line) => classify_line(s@) == Some(line@),
                Err(e) => classify_line(s@) is None && e.kind == ParseErrorKind::UnrecognizedLine,
            },
    {
        let chars = chars_of(s);
        assert(s@.subrange(0, s@.len() as int) =~= s@);
        match read_line(s, chars.as_slice(), 0, chars.len()) {
            Some(line) => Ok(line),
            None => Err(ParseAidaCpuidDumpError { kind: ParseErrorKind::UnrecognizedLine }),
        }
    }
}

impl AidaCpuidDump {
    /// Reads a dump from its text.
    ///
    /// Lines that are not recognized are passed over. Reading fails where two
    /// group headers give the same name, or there is no header for one of the
    /// groups `Logical CPU #0` and `MSR Registers`.
    pub fn from_str(s: &str) -> (r: Result<AidaCpuidDump, ParseAidaCpuidDumpError>)
        ensures
            dump_outcome(r) == parse_dump(s@),
    {
        // We first parse each line of the input. Non-matching lines
        // are discarded.
        let lines = read_lines(s);

        // Now we put each line into the group it belongs to. Everything
        // before the first group header belongs to the unnamed group.
        let groups = group_lines(&lines);
        proof {
            reveal_strlit("Logical CPU #0");
            reveal_strlit("MSR Registers");
            lemma_groups_are_those_of_the_headers(lines_of(s@), LOGICAL_CPU_GROUP@);
            lemma_groups_are_those_of_the_headers(lines_of(s@), MSR_GROUP@);
        }

        if has_duplicate_group(&groups) {
            return Err(ParseAidaCpuidDumpError { kind: ParseErrorKind::DuplicateGroup });
        }
        let cpu = match find_group(&groups, LOGICAL_CPU_GROUP) {
            Some(k) => k,
            None => {
                return Err(ParseAidaCpuidDumpError { kind: ParseErrorKind::MissingCpuGroup });
            },
        };
        let msr = match find_group(&groups, MSR_GROUP) {
            Some(k) => k,
            None => {
                return Err(ParseAidaCpuidDumpError { kind: ParseErrorKind::MissingMsrGroup });
            },
        };
        proof {
            lemma_group_holds_what_stands_under(lines_of(s@), LOGICAL_CPU_GROUP@, cpu as int);
            lemma_group_holds_what_stands_under(lines_of(s@), MSR_GROUP@, msr as int);
        }
        Ok(
            AidaCpuidDump {
                cpuid: collect_cpuid(&groups[cpu].lines),
                msrs: collect_msrs(&groups[msr].lines),
            },
        )
    }
}

impl CpuInformation for AidaCpuidDump {
    open spec fn cpuid_values(&self) -> Map<CpuidQuery, CpuidResult> {
        self.cpuid@
    }

    open spec fn msr_values(&self) -> Map<u32, u64> {
        self.msrs@
    }

    fn cpuid(&self, query: CpuidQuery) -> (result: Option<CpuidResult>) {
        match self.cpuid.get(&query) {
            Some(r) => Some(*r),
            None => None,
        }
    }

    fn rdmsr(&self, index: u32) -> (value: Option<u64>) {
        broadcast use vstd::laws_cmp::group_laws_cmp;

        match self.msrs.get(&index) {
            Some(v) => Some(*v),
            None => None,
        }
    }
}

/// Last occurrence wins: the value that an MSR line gives for its index stays
/// in the map unless a later line gives a value for the same index.
pub proof fn lemma_last_msr_wins(lines: Seq<LineView>, i: int)
    requires
        0 <= i < lines.len(),
        lines[i] is Msr,
        forall|j: int|
            i < j < lines.len() ==> !(#[trigger] lines[j] is Msr && lines[j]->index
                == lines[i]->index),
    ensures
        msr_map(lines).contains_key(lines[i]->index),
        msr_map(lines)[lines[i]->index] == lines[i]->value,
    decreases lines.len(),
{
    if i < lines.len() - 1 {
        let before = lines.drop_last();
        assert(before[i] == lines[i]);
        assert forall|j: int| i < j < before.len() implies !(#[trigger] before[j] is Msr
            && before[j]->index == before[i]->index) by {
            assert(before[j] == lines[j]);
        }
        lemma_last_msr_wins(before, i);
        assert(!(lines[lines.len() - 1] is Msr && lines[lines.len() - 1]->index
            == lines[i]->index));
    }
}

/// Last occurrence wins: the result that a CPUID line gives for its query
/// stays in the map unless a later line gives a result for the same query.
pub proof fn lemma_last_cpuid_wins(lines: Seq<LineView>, i: int)
    requires
        0 <= i < lines.len(),
        lines[i] is Cpuid,
        forall|j: int|
            i < j < lines.len() ==> !(#[trigger] lines[j] is Cpuid && lines[j]->query
                == lines[i]->query),
    ensures
        cpuid_map(lines).contains_key(lines[i]->query),
        cpuid_map(lines)[lines[i]->query] == lines[i]->result,
    decreases lines.len(),
{
    if i < lines.len() - 1 {
        let before = lines.drop_last();
        assert(before[i] == lines[i]);
        assert forall|j: int| i < j < before.len() implies !(#[trigger] before[j] is Cpuid
            && before[j]->query == before[i]->query) by {
            assert(before[j] == lines[j]);
        }
        lemma_last_cpuid_wins(before, i);
        assert(!(lines[lines.len() - 1] is Cpuid && lines[lines.len() - 1]->query
            == lines[i]->query));
    }
}

/// Nothing is left out: the map holds a value for every index that an MSR
/// line gives a value for.
pub proof fn lemma_msr_given_is_held(lines: Seq<LineView>, i: int)
    requires
        0 <= i < lines.len(),
        lines[i] is Msr,
    ensures
        msr_map(lines).contains_key(lines[i]->index),
    decreases lines.len(),
{
    if i < lines.len() - 1 {
        lemma_msr_given_is_held(lines.drop_last(), i);
    }
}

/// Nothing is left out: the map holds a result for every query that a CPUID
/// line gives a result for.
pub proof fn lemma_cpuid_given_is_held(lines: Seq<LineView>, i: int)
    requires
        0 <= i < lines.len(),
        lines[i] is Cpuid,
    ensures
        cpuid_map(lines).contains_key(lines[i]->query),
    decreases lines.len(),
{
    if i < lines.len() - 1 {
        lemma_cpuid_given_is_held(lines.drop_last(), i);
    }
}

/// Nothing is made up: every value in the map was given, for that index, by
/// one of the lines. An index that no MSR line gives has no value, not zero.
pub proof fn lemma_msr_values_come_from_lines(lines: Seq<LineView>, index: u32)
    requires
        msr_map(lines).contains_key(index),
    ensures
        exists|i: int|
            0 <= i < lines.len() && #[trigger] lines[i] == (LineView::Msr {
                index,
                value: msr_map(lines)[index],
            }),
    decreases lines.len(),
{
    if lines.len() > 0 {
        let before = lines.drop_last();
        let k = lines.len() - 1;
        if lines[k] is Msr && lines[k]->index == index {
            assert(lines[k] == (LineView::Msr { index, value: msr_map(lines)[index] }));
        } else {
            lemma_msr_values_come_from_lines(before, index);
            let i = choose|i: int|
                0 <= i < before.len() && #[trigger] before[i] == (LineView::Msr {
                    index,
                    value: msr_map(before)[index],
                });
            assert(lines[i] == before[i]);
        }
    }
}

/// Nothing is made up: every result in the map was given, for that query, by
/// one of the lines.
pub proof fn lemma_cpuid_results_come_from_lines(lines: Seq<LineView>, query: CpuidQuery)
    requires
        cpuid_map(lines).contains_key(query),
    ensures
        exists|i: int|
            0 <= i < lines.len() && #[trigger] lines[i] == (LineView::Cpuid {
                query,
                result: cpuid_map(lines)[query],
            }),
    decreases lines.len(),
{
    if lines.len() > 0 {
        let before = lines.drop_last();
        let k = lines.len() - 1;
        if lines[k] is Cpuid && lines[k]->query == query {
            assert(lines[k] == (LineView::Cpuid { query, result: cpuid_map(lines)[query] }));
        } else {
            lemma_cpuid_results_come_from_lines(before, query);
            let i = choose|i: int|
                0 <= i < before.len() && #[trigger] before[i] == (LineView::Cpuid {
                    query,
                    result: cpuid_map(before)[query],
                });
            assert(lines[i] == before[i]);
        }
    }
}

/// A text in which two group headers give the same name is no dump.
pub proof fn lemma_repeated_header_fails(text: Seq<char>, i: int, j: int)
    requires
        0 <= i < j < lines_of(text).len(),
        group_header_name(lines_of(text)[i]) is Some,
        group_header_name(lines_of(text)[i]) == group_header_name(lines_of(text)[j]),
    ensures
        parse_dump(text) == Err::<DumpView, ParseErrorKind>(ParseErrorKind::DuplicateGroup),
{
}

/// A text without a group header for `Logical CPU #0`, or without one for
/// `MSR Registers`, is no dump.
pub proof fn lemma_missing_header_fails(text: Seq<char>)
    requires
        !has_header(lines_of(text), LOGICAL_CPU_GROUP@) || !has_header(lines_of(text), MSR_GROUP@),
    ensures
        parse_dump(text) is Err,
{
}

/// A text is a dump exactly where no two group headers give the same name and
/// there is a header for `Logical CPU #0` and one for `MSR Registers`.
pub proof fn lemma_dump_accepted(text: Seq<char>)
    ensures
        parse_dump(text) is Ok <==> !has_repeated_header(lines_of(text)) && has_header(
            lines_of(text),
            LOGICAL_CPU_GROUP@,
        ) && has_header(lines_of(text), MSR_GROUP@),
{
}

/// Everything that is said under a header is what one of the lines under
/// that header says, and that line is a CPUID line or an MSR line.
pub proof fn lemma_said_under_comes_from_lines(
    lines: Seq<Seq<char>>,
    name: Seq<char>,
    k: int,
    i: int,
)
    requires
        0 <= k <= lines.len(),
        0 <= i < said_under(lines, name, k).len(),
    ensures
        exists|j: int|
            0 <= j < k && group_at(lines, j) == name && classify_line(#[trigger] lines[j]) == Some(
                said_under(lines, name, k)[i],
            ),
        !(said_under(lines, name, k)[i] is GroupHeader),
    decreases k,
{
    let before = said_under(lines, name, k - 1);
    if i < before.len() {
        lemma_said_under_comes_from_lines(lines, name, k - 1, i);
        assert(said_under(lines, name, k)[i] == before[i]);
    } else {
        assert(classify_line(lines[k - 1]) == Some(said_under(lines, name, k)[i]));
    }
}

/// An MSR value of a dump is the value that an MSR line under the header
/// `MSR Registers` gives for that index. A line whose value is malformed
/// gives none, so such a line puts nothing in the dump: no zero and no other
/// value.
pub proof fn lemma_dump_msrs_come_from_text(text: Seq<char>, index: u32)
    requires
        parse_dump(text) is Ok,
        parse_dump(text)->Ok_0.msrs.contains_key(index),
    ensures
        exists|k: int|
            0 <= k < lines_of(text).len() && group_at(lines_of(text), k) == MSR_GROUP@ && msr_line(
                #[trigger] lines_of(text)[k],
            ) == Some((index, parse_dump(text)->Ok_0.msrs[index])),
{
    let lines = lines_of(text);
    let said = said_under(lines, MSR_GROUP@, lines.len() as int);
    lemma_msr_values_come_from_lines(said, index);
    let i = choose|i: int|
        0 <= i < said.len() && #[trigger] said[i] == (LineView::Msr {
            index,
            value: msr_map(said)[index],
        });
    lemma_said_under_comes_from_lines(lines, MSR_GROUP@, lines.len() as int, i);
    let k = choose|k: int|
        0 <= k < lines.len() && group_at(lines, k) == MSR_GROUP@ && classify_line(
            #[trigger] lines[k],
        ) == Some(said[i]);
    assert(msr_line(lines[k]) == Some((index, msr_map(said)[index])));
}

/// A CPUID result of a dump is the result that a CPUID line under the header
/// `Logical CPU #0` gives for that query.
pub proof fn lemma_dump_cpuid_comes_from_text(text: Seq<char>, query: CpuidQuery)
    requires
        parse_dump(text) is Ok,
        parse_dump(text)->Ok_0.cpuid.contains_key(query),
    ensures
        exists|k: int|
            0 <= k < lines_of(text).len() && group_at(lines_of(text), k) == LOGICAL_CPU_GROUP@
                && cpuid_line(#[trigger] lines_of(text)[k]) == Some(
                (query, parse_dump(text)->Ok_0.cpuid[query]),
            ),
{
    let lines = lines_of(text);
    let said = said_under(lines, LOGICAL_CPU_GROUP@, lines.len() as int);
    lemma_cpuid_results_come_from_lines(said, query);
    let i = choose|i: int|
        0 <= i < said.len() && #[trigger] said[i] == (LineView::Cpuid {
            query,
            result: cpuid_map(said)[query],
        });
    lemma_said_under_comes_from_lines(lines, LOGICAL_CPU_GROUP@, lines.len() as int, i);
    let k = choose|k: int|
        0 <= k < lines.len() && group_at(lines, k) == LOGICAL_CPU_GROUP@ && classify_line(
            #[trigger] lines[k],
        ) == Some(said[i]);
    assert(cpuid_line(lines[k]) == Some((query, cpuid_map(said)[query])));
}

/// Last occurrence wins, in the text: where line `k` stands under the header
/// `name` and gives a value for an MSR, and no later line among the first `m`
/// that stands under that header gives a value for the same MSR, that value
/// is the one in the map.
pub proof fn lemma_last_msr_said_wins(lines: Seq<Seq<char>>, name: Seq<char>, k: int, m: int)
    requires
        0 <= k < m <= lines.len(),
        group_at(lines, k) == name,
        classify_line(lines[k]) matches Some(LineView::Msr { .. }),
        forall|j: int|
            k < j < m && group_at(lines, j) == name ==> !(classify_line(
                #[trigger] lines[j],
            ) matches Some(LineView::Msr { index, .. }) && index == classify_line(
                lines[k],
            )->0->index),
    ensures
        msr_map(said_under(lines, name, m)).contains_key(classify_line(lines[k])->0->index),
        msr_map(said_under(lines, name, m))[classify_line(lines[k])->0->index] == classify_line(
            lines[k],
        )->0->value,
    decreases m,
{
    let before = said_under(lines, name, m - 1);
    if m > k + 1 {
        lemma_last_msr_said_wins(lines, name, k, m - 1);
    }
    if let Some(said) = classify_line(lines[m - 1]) {
        assert(before.push(said).drop_last() =~= before);
    }
}

/// Last occurrence wins, in the text: where line `k` stands under the header
/// `name` and gives a result for a CPUID query, and no later line among the
/// first `m` that stands under that header gives a result for the same query,
/// that result is the one in the map.
pub proof fn lemma_last_cpuid_said_wins(lines: Seq<Seq<char>>, name: Seq<char>, k: int, m: int)
    requires
        0 <= k < m <= lines.len(),
        group_at(lines, k) == name,
        classify_line(lines[k]) matches Some(LineView::Cpuid { .. }),
        forall|j: int|
            k < j < m && group_at(lines, j) == name ==> !(classify_line(
                #[trigger] lines[j],
            ) matches Some(LineView::Cpuid { query, .. }) && query == classify_line(
                lines[k],
            )->0->query),
    ensures
        cpuid_map(said_under(lines, name, m)).contains_key(classify_line(lines[k])->0->query),
        cpuid_map(said_under(lines, name, m))[classify_line(lines[k])->0->query] == classify_line(
            lines[k],
        )->0->result,
    decreases m,
{
    let before = said_under(lines, name, m - 1);
    if m > k + 1 {
        lemma_last_cpuid_said_wins(lines, name, k, m - 1);
    }
    if let Some(said) = classify_line(lines[m - 1]) {
        assert(before.push(said).drop_last() =~= before);
    }
}

} // verus!
