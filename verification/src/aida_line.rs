//! The three kinds of line that a dump is read from: group headers, CPUID
//! lines and MSR lines.
//!
//! Each kind has a fixed shape. A line of any other shape says nothing.

use vstd::prelude::*;
use crate::cpu_information::CpuidQuery;
use crate::cpu_information::CpuidResult;
use crate::hex::all_hex_digits;
use crate::hex::all_hex_or_hyphen;
use crate::hex::hex_digit;
use crate::hex::hex_number;
use crate::hex::hex_value;
use crate::hex::is_hex_digit;
use crate::hex::lemma_digits_hold_no_hyphen;
use crate::hex::lemma_register_fits;
use crate::hex::parse_hex;
use crate::text::chars_of;
use crate::text::contains_from;
use crate::text::has_at;
use crate::text::has_char;
use crate::text::matches_at;

verus! {

/// What a recognized line says.
pub enum LineView {
    GroupHeader { name: Seq<char> },
    Cpuid { query: CpuidQuery, result: CpuidResult },
    Msr { index: u32, value: u64 },
}

/// Low-level representation of a single input line after first
/// parsing round.
#[derive(Debug, PartialEq)]
pub enum InputLine {
    /// A header in the input.
    ///
    /// For example, `------[ Logical CPU #0 ]------` is a group header
    /// with name `Logical CPU #0`.
    GroupHeader { name: String },
    /// A CPUID line in the input.
    Cpuid { query: CpuidQuery, result: CpuidResult },
    /// A MSR line in the input.
    Msr { index: u32, value: u64 },
}

impl View for InputLine {
    type V = LineView;

    open spec fn view(&self) -> LineView {
        match *self {
            InputLine::GroupHeader { name } => LineView::GroupHeader { name: name@ },
            InputLine::Cpuid { query, result } => LineView::Cpuid { query, result },
            InputLine::Msr { index, value } => LineView::Msr { index, value },
        }
    }
}

impl Clone for InputLine {
    fn clone(&self) -> (r: Self)
        ensures
            r@ == self@,
    {
        match self {
            InputLine::GroupHeader { name } => InputLine::GroupHeader { name: name.clone() },
            InputLine::Cpuid { query, result } => InputLine::Cpuid {
                query: *query,
                result: *result,
            },
            InputLine::Msr { index, value } => InputLine::Msr { index: *index, value: *value },
        }
    }
}

/// Whether `line` has the shape of a group header: `------[ `, a name of at
/// least one character, and ` ]------`, with nothing before or after, and no
/// line feed in the name. The two fixed parts have eight characters each.
pub open spec fn is_group_header_line(line: Seq<char>) -> bool {
    &&& line.len() >= 17
    &&& has_at(line, 0, "------[ "@)
    &&& has_at(line, line.len() - 8, " ]------"@)
    &&& !has_char(line.subrange(8, line.len() - 8), '\n')
}

/// The name that a group header line gives, or `None` for any other line.
pub open spec fn group_header_name(line: Seq<char>) -> Option<Seq<char>> {
    if is_group_header_line(line) {
        Some(line.subrange(8, line.len() - 8))
    } else {
        None
    }
}

/// Where the run of hexadecimal digits that begins at `from` ends: the
/// position of the first character at or after `from` that is no hexadecimal
/// digit, or the length of the line.
pub open spec fn hex_run_end(line: Seq<char>, from: int) -> int
    decreases line.len() - from,
{
    if 0 <= from < line.len() && is_hex_digit(line[from]) {
        hex_run_end(line, from + 1)
    } else {
        from
    }
}

/// The register value written at `at`: exactly eight hexadecimal digits.
pub open spec fn register_at(line: Seq<char>, at: int) -> Option<u32> {
    if 0 <= at && at + 8 <= line.len() && all_hex_digits(line.subrange(at, at + 8)) {
        Some(hex_value(line.subrange(at, at + 8)) as u32)
    } else {
        None
    }
}

/// The subleaf that the rest of a CPUID line names. Only a rest that is
/// exactly ` [SL ` followed by two hexadecimal digits and `]` names one.
pub open spec fn subleaf_note(rest: Seq<char>) -> Option<u32> {
    if rest.len() == 8 && has_at(rest, 0, " [SL "@) && all_hex_digits(rest.subrange(5, 7))
        && rest[7] == ']' {
        Some(hex_value(rest.subrange(5, 7)) as u32)
    } else {
        None
    }
}

/// Whether `line` has the shape of a CPUID line whose leaf ends before
/// position `colon`: `CPUID `, the leaf in hexadecimal digits, `: `, and the
/// four registers, eight hexadecimal digits each with a hyphen between them,
/// which makes 35 characters. What follows the registers is free, but for
/// line feeds. The leaf fits in 32 bits.
pub open spec fn is_cpuid_line(line: Seq<char>, colon: int) -> bool {
    &&& has_at(line, 0, "CPUID "@)
    &&& colon == hex_run_end(line, 6)
    &&& colon > 6
    &&& hex_value(line.subrange(6, colon)) <= u32::MAX
    &&& has_at(line, colon, ": "@)
    &&& register_at(line, colon + 2) is Some
    &&& has_at(line, colon + 10, "-"@)
    &&& register_at(line, colon + 11) is Some
    &&& has_at(line, colon + 19, "-"@)
    &&& register_at(line, colon + 20) is Some
    &&& has_at(line, colon + 28, "-"@)
    &&& register_at(line, colon + 29) is Some
    &&& !has_char(line.skip(colon + 37), '\n')
}

/// The query and result that a CPUID line gives, or `None` for any other
/// line.
///
/// The registers are eax, ebx, ecx and edx, in that order. What follows them
/// names the subleaf where it has the shape of [`subleaf_note`]; the subleaf
/// is 0 otherwise.
pub open spec fn cpuid_line(line: Seq<char>) -> Option<(CpuidQuery, CpuidResult)> {
    let colon = hex_run_end(line, 6);
    if is_cpuid_line(line, colon) {
        Some(
            (
                CpuidQuery {
                    leaf: hex_value(line.subrange(6, colon)) as u32,
                    subleaf: match subleaf_note(line.skip(colon + 37)) {
                        Some(subleaf) => subleaf,
                        None => 0,
                    },
                },
                CpuidResult {
                    eax: register_at(line, colon + 2)->0,
                    ebx: register_at(line, colon + 11)->0,
                    ecx: register_at(line, colon + 20)->0,
                    edx: register_at(line, colon + 29)->0,
                },
            ),
        )
    } else {
        None
    }
}

/// The value field of an MSR line whose index ends before position `colon`:
/// the 19 characters that begin two after it.
pub open spec fn msr_value_field(line: Seq<char>, colon: int) -> Seq<char> {
    line.subrange(colon + 2, colon + 21)
}

/// Whether `line` has the shape of an MSR line whose index ends before
/// position `colon`: `MSR `, the index in hexadecimal digits, `: `, and a
/// value field of 19 characters, each a hexadecimal digit or a hyphen, with at
/// least one digit. What follows the field is free, but for line feeds. The
/// index fits in 32 bits, and what the field's digits denote in 64.
pub open spec fn is_msr_line(line: Seq<char>, colon: int) -> bool {
    &&& has_at(line, 0, "MSR "@)
    &&& colon == hex_run_end(line, 4)
    &&& colon > 4
    &&& hex_value(line.subrange(4, colon)) <= u32::MAX
    &&& has_at(line, colon, ": "@)
    &&& colon + 21 <= line.len()
    &&& hex_number(msr_value_field(line, colon), u64::MAX as nat) is Some
    &&& !has_char(line.skip(colon + 21), '\n')
}

/// The index and value that an MSR line gives, or `None` for any other line.
///
/// The value is what the digits of the value field denote, hyphens left out.
pub open spec fn msr_line(line: Seq<char>) -> Option<(u32, u64)> {
    let colon = hex_run_end(line, 4);
    if is_msr_line(line, colon) {
        Some(
            (
                hex_value(line.subrange(4, colon)) as u32,
                hex_number(msr_value_field(line, colon), u64::MAX as nat)->0 as u64,
            ),
        )
    } else {
        None
    }
}

/// What a line says: the first of group header, CPUID line and MSR line whose
/// shape it has, or `None`.
pub open spec fn classify_line(line: Seq<char>) -> Option<LineView> {
    if let Some(name) = group_header_name(line) {
        Some(LineView::GroupHeader { name })
    } else if let Some((query, result)) = cpuid_line(line) {
        Some(LineView::Cpuid { query, result })
    } else if let Some((index, value)) = msr_line(line) {
        Some(LineView::Msr { index, value })
    } else {
        None
    }
}

/// The view of an optional line.
pub open spec fn line_view(line: Option<InputLine>) -> Option<LineView> {
    match line {
        Some(l) => Some(l@),
        None => None,
    }
}

/// A run of hexadecimal digits lies inside the line, holds only such digits,
/// and ends at a character that is none, or at the end of the line.
pub proof fn lemma_hex_run(line: Seq<char>, from: int)
    requires
        0 <= from <= line.len(),
    ensures
        from <= hex_run_end(line, from) <= line.len(),
        all_hex_digits(line.subrange(from, hex_run_end(line, from))),
        hex_run_end(line, from) < line.len() ==> !is_hex_digit(line[hex_run_end(line, from)]),
    decreases line.len() - from,
{
    if from < line.len() && is_hex_digit(line[from]) {
        lemma_hex_run(line, from + 1);
        let end = hex_run_end(line, from);
        assert forall|i: int| 0 <= i < line.subrange(from, end).len() implies is_hex_digit(
            #[trigger] line.subrange(from, end)[i],
        ) by {
            if i > 0 {
                assert(line.subrange(from, end)[i] == line.subrange(from + 1, end)[i - 1]);
            }
        }
    }
}

/// A line has at most one of the three shapes, so it does not matter in
/// which order they are tried.
pub proof fn lemma_shapes_exclude_each_other(line: Seq<char>)
    ensures
        group_header_name(line) is Some ==> cpuid_line(line) is None && msr_line(line) is None,
        cpuid_line(line) is Some ==> msr_line(line) is None,
{
    reveal_strlit("------[ ");
    reveal_strlit("CPUID ");
    reveal_strlit("MSR ");
    if group_header_name(line) is Some {
        assert(line.subrange(0, 8)[0] == '-');
    }
    if cpuid_line(line) is Some {
        assert(line.subrange(0, 6)[0] == 'C');
    }
    if msr_line(line) is Some {
        assert(line.subrange(0, 4)[0] == 'M');
    }
}

/// A line whose value field is malformed is no MSR line: every MSR line has,
/// two characters after the index, 19 characters that are hexadecimal digits
/// or hyphens.
pub proof fn lemma_msr_line_has_value_field(line: Seq<char>)
    requires
        msr_line(line) is Some,
    ensures
        hex_run_end(line, 4) + 21 <= line.len(),
        msr_value_field(line, hex_run_end(line, 4)).len() == 19,
        all_hex_or_hyphen(msr_value_field(line, hex_run_end(line, 4))),
{
}

/// Finds the end of the run of hexadecimal digits that begins at `from`.
pub fn scan_hex_digits(line: &[char], from: usize) -> (end: usize)
    requires
        from <= line@.len(),
    ensures
        end == hex_run_end(line@, from as int),
        from <= end <= line@.len(),
{
    let n = line.len();
    let mut i: usize = from;
    while i < n && hex_digit(line[i]).is_some()
        invariant
            n == line@.len(),
            from <= i <= n,
            hex_run_end(line@, from as int) == hex_run_end(line@, i as int),
        decreases n - i,
    {
        i += 1;
    }
    i
}

/// Reads the digits `line[from..to]` as a number that may not exceed `max`:
/// `None` unless there is at least one character, all are hexadecimal digits,
/// and the number fits.
pub fn read_digits(line: &[char], from: usize, to: usize, max: u64) -> (r: Option<u64>)
    requires
        from <= to <= line@.len(),
    ensures
        r == (if from < to && all_hex_digits(line@.subrange(from as int, to as int)) && hex_value(
            line@.subrange(from as int, to as int),
        ) <= max {
            Some(hex_value(line@.subrange(from as int, to as int)) as u64)
        } else {
            None::<u64>
        }),
{
    let ghost digits = line@.subrange(from as int, to as int);
    let mut i: usize = from;
    while i < to
        invariant
            from <= i <= to <= line@.len(),
            digits == line@.subrange(from as int, to as int),
            forall|j: int| 0 <= j < i - from ==> is_hex_digit(#[trigger] digits[j]),
        decreases to - i,
    {
        if hex_digit(line[i]).is_none() {
            assert(!is_hex_digit(digits[i - from]));
            return None;
        }
        i += 1;
    }
    proof {
        lemma_digits_hold_no_hyphen(digits);
    }
    parse_hex(line, from, to, max)
}

/// Reads the register value written at `at`.
pub fn read_register(line: &[char], at: usize) -> (r: Option<u32>)
    ensures
        r == register_at(line@, at as int),
{
    let n = line.len();
    if at > n || n - at < 8 {
        return None;
    }
    proof {
        if all_hex_digits(line@.subrange(at as int, at + 8)) {
            lemma_register_fits(line@.subrange(at as int, at + 8));
        }
    }
    match read_digits(line, at, at + 8, 0xffff_ffff) {
        Some(v) => Some(v as u32),
        None => None,
    }
}

/// Reads the subleaf that `line[from..]` names, if it names one.
pub fn read_subleaf(line: &[char], from: usize) -> (r: Option<u32>)
    requires
        from <= line@.len(),
    ensures
        r == subleaf_note(line@.skip(from as int)),
{
    let n = line.len();
    let ghost rest = line@.skip(from as int);
    if n - from != 8 {
        return None;
    }
    proof {
        reveal_strlit(" [SL ");
        assert(rest.subrange(0, 5) =~= line@.subrange(from as int, from + 5));
        assert(rest.subrange(5, 7) =~= line@.subrange(from + 5, from + 7));
        if all_hex_digits(rest.subrange(5, 7)) {
            lemma_register_fits(rest.subrange(5, 7));
        }
    }
    if !matches_at(line, from, " [SL ") {
        return None;
    }
    if line[from + 7] != ']' {
        return None;
    }
    match read_digits(line, from + 5, from + 7, 0xff) {
        Some(v) => Some(v as u32),
        None => None,
    }
}

/// Tests whether `line` is a group header.
pub fn is_group_header(line: &[char]) -> (r: bool)
    ensures
        r == group_header_name(line@) is Some,
{
    let n = line.len();
    if n < 17 {
        return false;
    }
    proof {
        reveal_strlit("------[ ");
        reveal_strlit(" ]------");
    }
    if !matches_at(line, 0, "------[ ") || !matches_at(line, n - 8, " ]------") {
        return false;
    }
    let mut i: usize = 8;
    while i < n - 8
        invariant
            n == line@.len(),
            n >= 17,
            8 <= i <= n - 8,
            forall|j: int| 8 <= j < i ==> #[trigger] line@[j] != '\n',
        decreases n - i,
    {
        if line[i] == '\n' {
            assert(line@.subrange(8, n - 8)[i - 8] == '\n');
            return false;
        }
        i += 1;
    }
    let ghost name = line@.subrange(8, n - 8);
    assert forall|j: int| 0 <= j < name.len() implies #[trigger] name[j] != '\n' by {}
    true
}

/// Reads a CPUID line: its query and its result.
pub fn match_cpuid(line: &[char]) -> (r: Option<(CpuidQuery, CpuidResult)>)
    ensures
        r == cpuid_line(line@),
{
    proof {
        reveal_strlit("CPUID ");
        reveal_strlit(": ");
        reveal_strlit("-");
    }
    let n = line.len();
    if !matches_at(line, 0, "CPUID ") {
        return None;
    }
    let colon = scan_hex_digits(line, 6);
    if colon == 6 {
        return None;
    }
    let leaf = match read_digits(line, 6, colon, 0xffff_ffff) {
        Some(v) => v as u32,
        None => {
            proof {
                lemma_hex_run(line@, 6);
            }
            return None;
        },
    };
    if !matches_at(line, colon, ": ") {
        return None;
    }
    let regs = colon + 2;
    let eax = match read_register(line, regs) {
        Some(v) => v,
        None => { return None; },
    };
    if !matches_at(line, regs + 8, "-") {
        return None;
    }
    let ebx = match read_register(line, regs + 9) {
        Some(v) => v,
        None => { return None; },
    };
    if !matches_at(line, regs + 17, "-") {
        return None;
    }
    let ecx = match read_register(line, regs + 18) {
        Some(v) => v,
        None => { return None; },
    };
    if !matches_at(line, regs + 26, "-") {
        return None;
    }
    let edx = match read_register(line, regs + 27) {
        Some(v) => v,
        None => { return None; },
    };
    if contains_from(line, regs + 35, '\n') {
        return None;
    }
    let subleaf = match read_subleaf(line, regs + 35) {
        Some(v) => v,
        None => 0,
    };
    Some((CpuidQuery { leaf, subleaf }, CpuidResult { eax, ebx, ecx, edx }))
}

/// Reads an MSR line: its index and its value.
pub fn match_msr(line: &[char]) -> (r: Option<(u32, u64)>)
    ensures
        r == msr_line(line@),
{
    proof {
        reveal_strlit("MSR ");
        reveal_strlit(": ");
    }
    let n = line.len();
    if !matches_at(line, 0, "MSR ") {
        return None;
    }
    let colon = scan_hex_digits(line, 4);
    if colon == 4 {
        return None;
    }
    let index = match read_digits(line, 4, colon, 0xffff_ffff) {
        Some(v) => v as u32,
        None => {
            proof {
                lemma_hex_run(line@, 4);
            }
            return None;
        },
    };
    if !matches_at(line, colon, ": ") {
        return None;
    }
    if n - colon < 21 {
        return None;
    }
    let value = match parse_hex(line, colon + 2, colon + 21, 0xffff_ffff_ffff_ffff) {
        Some(v) => v,
        None => { return None; },
    };
    if contains_from(line, colon + 21, '\n') {
        return None;
    }
    Some((index, value))
}

/// What the line `text[start..end]` says. `chars` holds the characters of
/// `text`.
pub(crate) fn read_line(text: &str, chars: &[char], start: usize, end: usize) -> (r: Option<
    InputLine,
>)
    requires
        chars@ == text@,
        start <= end <= chars@.len(),
    ensures
        line_view(r) == classify_line(text@.subrange(start as int, end as int)),
{
    let line = vstd::slice::slice_subrange(chars, start, end);
    if is_group_header(line) {
        let name = text.substring_char(start + 8, end - 8).to_owned();
        assert(name@ =~= line@.subrange(8, line@.len() - 8));
        return Some(InputLine::GroupHeader { name });
    }
    if let Some((query, result)) = match_cpuid(line) {
        return Some(InputLine::Cpuid { query, result });
    }
    match match_msr(line) {
        Some((index, value)) => Some(InputLine::Msr { index, value }),
        None => None,
    }
}

/// Parse a group header line or return [None].
pub fn try_match_group_header(input: &str) -> (r: Option<InputLine>)
    ensures
        line_view(r) == (match group_header_name(input@) {
            Some(name) => Some(LineView::GroupHeader { name }),
            None => None,
        }),
{
    let chars = chars_of(input);
    if is_group_header(chars.as_slice()) {
        let name = input.substring_char(8, chars.len() - 8).to_owned();
        Some(InputLine::GroupHeader { name })
    } else {
        None
    }
}

/// Parse a CPUID line or return [None].
pub fn try_match_cpuid(input: &str) -> (r: Option<InputLine>)
    ensures
        line_view(r) == (match cpuid_line(input@) {
            Some((query, result)) => Some(LineView::Cpuid { query, result }),
            None => None,
        }),
{
    let chars = chars_of(input);
    match match_cpuid(chars.as_slice()) {
        Some((query, result)) => Some(InputLine::Cpuid { query, result }),
        None => None,
    }
}

/// Parse a MSR line or return [None].
pub fn try_match_msr(input: &str) -> (r: Option<InputLine>)
    ensures
        line_view(r) == (match msr_line(input@) {
            Some((index, value)) => Some(LineView::Msr { index, value }),
            None => None,
        }),
{
    let chars = chars_of(input);
    match match_msr(chars.as_slice()) {
        Some((index, value)) => Some(InputLine::Msr { index, value }),
        None => None,
    }
}

} // verus!
