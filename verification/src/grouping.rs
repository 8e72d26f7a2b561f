//! The stages by which a dump is read: its recognized lines, and the groups
//! that the group headers put them in. What the stages give is shown to be what
//! the text says under each header.

use vstd::prelude::*;
use crate::aida_line::classify_line;
use crate::aida_line::group_header_name;
use crate::aida_line::read_line;
use crate::aida_line::InputLine;
use crate::aida_line::LineView;
use crate::aida_parse::group_at;
use crate::aida_parse::has_header;
use crate::aida_parse::has_repeated_header;
use crate::aida_parse::said_under;
use crate::text::chars_of;
use crate::text::line_ranges;
use crate::text::lines_of;
use crate::text::same_text;

verus! {

/// A group of a dump: a name and what the lines under it say.
pub struct GroupView {
    pub name: Seq<char>,
    pub lines: Seq<LineView>,
}

/// A group of a dump: the name that its header gives, and the recognized
/// lines between that header and the next. The lines before the first header
/// form a group with the empty name.
#[derive(Debug)]
pub struct LineGroup {
    pub name: String,
    pub lines: Vec<InputLine>,
}

impl View for LineGroup {
    type V = GroupView;

    open spec fn view(&self) -> GroupView {
        GroupView { name: self.name@, lines: line_views(self.lines@) }
    }
}

/// What each of `lines` says.
pub open spec fn line_views(lines: Seq<InputLine>) -> Seq<LineView> {
    lines.map_values(|l: InputLine| l@)
}

/// The views of `groups`.
pub open spec fn group_views(groups: Seq<LineGroup>) -> Seq<GroupView> {
    groups.map_values(|g: LineGroup| g@)
}

/// What the recognized ones among `lines` say, in order. The others are
/// passed over.
pub open spec fn recognized_lines(lines: Seq<Seq<char>>) -> Seq<LineView>
    decreases lines.len(),
{
    if lines.len() == 0 {
        Seq::empty()
    } else {
        let before = recognized_lines(lines.drop_last());
        match classify_line(lines.last()) {
            Some(l) => before.push(l),
            None => before,
        }
    }
}

/// `lines` in groups. The first group has the empty name and holds what comes
/// before the first header. Each header begins a group with its name, which
/// holds the lines up to the next header.
pub open spec fn groups_of(lines: Seq<LineView>) -> Seq<GroupView>
    decreases lines.len(),
{
    if lines.len() == 0 {
        seq![GroupView { name: Seq::empty(), lines: Seq::empty() }]
    } else {
        let before = groups_of(lines.drop_last());
        match lines.last() {
            LineView::GroupHeader { name } => before.push(GroupView { name, lines: Seq::empty() }),
            other => before.drop_last().push(
                GroupView { name: before.last().name, lines: before.last().lines.push(other) },
            ),
        }
    }
}

/// Whether two of `groups` have the same name.
pub open spec fn has_duplicate_names(groups: Seq<GroupView>) -> bool {
    exists|i: int, j: int|
        0 <= i < j < groups.len() && (#[trigger] groups[i]).name == (#[trigger] groups[j]).name
}

/// Whether one of `groups` has the name `name`.
pub open spec fn has_group(groups: Seq<GroupView>, name: Seq<char>) -> bool {
    exists|i: int| 0 <= i < groups.len() && (#[trigger] groups[i]).name == name
}

/// The groups that the first `k` of `lines` make.
pub open spec fn groups_upto(lines: Seq<Seq<char>>, k: int) -> Seq<GroupView> {
    groups_of(recognized_lines(lines.take(k)))
}

/// Reads the lines of `text` and returns what the recognized ones say, in
/// order.
pub fn read_lines(text: &str) -> (lines: Vec<InputLine>)
    ensures
        line_views(lines@) == recognized_lines(lines_of(text@)),
{
    let chars = chars_of(text);
    let ranges = line_ranges(chars.as_slice());
    let ghost all = lines_of(text@);
    let mut lines: Vec<InputLine> = Vec::new();
    let mut i: usize = 0;
    while i < ranges.len()
        invariant
            0 <= i <= ranges@.len(),
            chars@ == text@,
            all == lines_of(text@),
            ranges@.len() == all.len(),
            forall|k: int|
                0 <= k < ranges@.len() ==> {
                    &&& (#[trigger] ranges@[k]).0 <= ranges@[k].1 <= chars@.len()
                    &&& chars@.subrange(ranges@[k].0 as int, ranges@[k].1 as int) == all[k]
                },
            line_views(lines@) == recognized_lines(all.take(i as int)),
        decreases ranges@.len() - i,
    {
        let (start, end) = ranges[i];
        assert(all.take(i + 1).drop_last() =~= all.take(i as int));
        if let Some(line) = read_line(text, chars.as_slice(), start, end) {
            lines.push(line);
        }
        i += 1;
    }
    assert(all.take(i as int) =~= all);
    lines
}

/// Puts `lines` in groups.
pub fn group_lines(lines: &Vec<InputLine>) -> (groups: Vec<LineGroup>)
    ensures
        group_views(groups@) == groups_of(line_views(lines@)),
{
    let ghost all = line_views(lines@);
    let mut groups: Vec<LineGroup> = Vec::new();
    let mut name: String = String::new();
    let mut current: Vec<InputLine> = Vec::new();
    let mut i: usize = 0;
    proof {
        assert(line_views(current@) =~= Seq::<LineView>::empty());
        assert(groups_of(all.take(0)) =~= group_views(groups@).push(
            GroupView { name: name@, lines: line_views(current@) },
        ));
    }
    while i < lines.len()
        invariant
            0 <= i <= lines@.len(),
            all == line_views(lines@),
            groups_of(all.take(i as int)) == group_views(groups@).push(
                GroupView { name: name@, lines: line_views(current@) },
            ),
        decreases lines@.len() - i,
    {
        let ghost held = current@;
        assert(all.take(i + 1).drop_last() =~= all.take(i as int));
        match &lines[i] {
            InputLine::GroupHeader { name: next } => {
                groups.push(LineGroup { name, lines: current });
                name = next.clone();
                current = Vec::new();
                assert(line_views(current@) =~= Seq::<LineView>::empty());
            },
            other => {
                let line = other.clone();
                current.push(line);
                assert(line_views(current@) =~= line_views(held).push(line@));
            },
        }
        i += 1;
    }
    groups.push(LineGroup { name, lines: current });
    assert(all.take(i as int) =~= all);
    groups
}

/// Tests whether two of `groups` have the same name.
pub fn has_duplicate_group(groups: &Vec<LineGroup>) -> (r: bool)
    ensures
        r == has_duplicate_names(group_views(groups@)),
{
    let ghost views = group_views(groups@);
    let n = groups.len();
    let mut j: usize = 0;
    while j < n
        invariant
            n == groups@.len(),
            0 <= j <= n,
            views == group_views(groups@),
            forall|a: int, b: int|
                0 <= a < b < j ==> (#[trigger] views[a]).name != (#[trigger] views[b]).name,
        decreases n - j,
    {
        let mut i: usize = 0;
        while i < j
            invariant
                n == groups@.len(),
                0 <= i <= j < n,
                views == group_views(groups@),
                forall|a: int| 0 <= a < i ==> (#[trigger] views[a]).name != views[j as int].name,
            decreases j - i,
        {
            if groups[i].name == groups[j].name {
                assert(views[i as int].name == views[j as int].name);
                return true;
            }
            i += 1;
        }
        j += 1;
    }
    false
}

/// Finds the first of `groups` that has the name `name`.
pub fn find_group(groups: &Vec<LineGroup>, name: &str) -> (r: Option<usize>)
    ensures
        r is Some == has_group(group_views(groups@), name@),
        r matches Some(k) ==> {
            &&& k < groups@.len()
            &&& groups@[k as int].name@ == name@
            &&& forall|j: int| 0 <= j < k ==> (#[trigger] groups@[j]).name@ != name@
        },
{
    let ghost views = group_views(groups@);
    let mut i: usize = 0;
    while i < groups.len()
        invariant
            0 <= i <= groups@.len(),
            views == group_views(groups@),
            forall|a: int| 0 <= a < i ==> (#[trigger] views[a]).name != name@,
        decreases groups@.len() - i,
    {
        if same_text(groups[i].name.as_str(), name) {
            assert(views[i as int].name == name@);
            assert forall|j: int| 0 <= j < i implies (#[trigger] groups@[j]).name@ != name@ by {
                assert(views[j].name != name@);
            }
            return Some(i);
        }
        i += 1;
    }
    None
}

/// The number of group headers among the first `k` of `lines`.
pub open spec fn header_count(lines: Seq<Seq<char>>, k: int) -> int
    decreases k,
{
    if k <= 0 {
        0
    } else if group_header_name(lines[k - 1]) is Some {
        header_count(lines, k - 1) + 1
    } else {
        header_count(lines, k - 1)
    }
}

/// What the CPUID and MSR lines among the first `k` of `lines` say that stand
/// under the header number `g`, in order. Header number 0 is the beginning of
/// the text.
pub open spec fn said_in(lines: Seq<Seq<char>>, g: int, k: int) -> Seq<LineView>
    decreases k,
{
    if k <= 0 {
        Seq::empty()
    } else {
        let before = said_in(lines, g, k - 1);
        match classify_line(lines[k - 1]) {
            Some(said) => if !(said is GroupHeader) && header_count(lines, k - 1) == g {
                before.push(said)
            } else {
                before
            },
            None => before,
        }
    }
}

/// The count of headers never shrinks as more lines are counted.
pub proof fn lemma_header_count_grows(lines: Seq<Seq<char>>, j: int, k: int)
    requires
        0 <= j <= k,
    ensures
        0 <= header_count(lines, j) <= header_count(lines, k),
    decreases k,
{
    if j < k {
        lemma_header_count_grows(lines, j, k - 1);
    } else if k > 0 {
        lemma_header_count_grows(lines, k - 1, k - 1);
    }
}

/// Nothing stands under a header that has not come yet.
pub proof fn lemma_nothing_said_yet(lines: Seq<Seq<char>>, g: int, k: int)
    requires
        0 <= k,
        header_count(lines, k) < g,
    ensures
        said_in(lines, g, k) == Seq::<LineView>::empty(),
    decreases k,
{
    if k > 0 {
        lemma_header_count_grows(lines, k - 1, k);
        lemma_nothing_said_yet(lines, g, k - 1);
    }
}

/// There is always a group: the first, for what comes before any header.
pub proof fn lemma_groups_not_empty(lines: Seq<LineView>)
    ensures
        groups_of(lines).len() > 0,
    decreases lines.len(),
{
    if lines.len() > 0 {
        lemma_groups_not_empty(lines.drop_last());
    }
}

/// One more line changes the groups by what it says: a header begins a group,
/// a CPUID or MSR line goes into the last group, any other line changes
/// nothing.
pub proof fn lemma_groups_step(lines: Seq<Seq<char>>, k: int)
    requires
        0 < k <= lines.len(),
    ensures
        groups_upto(lines, k - 1).len() > 0,
        groups_upto(lines, k) == (match classify_line(lines[k - 1]) {
            Some(LineView::GroupHeader { name }) => groups_upto(lines, k - 1).push(
                GroupView { name, lines: Seq::empty() },
            ),
            Some(said) => groups_upto(lines, k - 1).drop_last().push(
                GroupView {
                    name: groups_upto(lines, k - 1).last().name,
                    lines: groups_upto(lines, k - 1).last().lines.push(said),
                },
            ),
            None => groups_upto(lines, k - 1),
        }),
{
    let before = recognized_lines(lines.take(k - 1));
    lemma_groups_not_empty(before);
    assert(lines.take(k).drop_last() =~= lines.take(k - 1));
    assert(lines.take(k).last() == lines[k - 1]);
    if let Some(said) = classify_line(lines[k - 1]) {
        assert(before.push(said).drop_last() =~= before);
    }
}

/// There is one group for the beginning of the text and one for each header.
pub proof fn lemma_group_count(lines: Seq<Seq<char>>, k: int)
    requires
        0 <= k <= lines.len(),
    ensures
        groups_upto(lines, k).len() == 1 + header_count(lines, k),
        header_count(lines, k) >= 0,
    decreases k,
{
    if k == 0 {
        assert(lines.take(0) =~= Seq::<Seq<char>>::empty());
    } else {
        lemma_group_count(lines, k - 1);
        lemma_groups_step(lines, k);
    }
}

/// The first group has the empty name, and the last group has the name that
/// the next line would stand under.
pub proof fn lemma_first_and_last_name(lines: Seq<Seq<char>>, k: int)
    requires
        0 <= k <= lines.len(),
    ensures
        groups_upto(lines, k).len() > 0,
        groups_upto(lines, k)[0].name == Seq::<char>::empty(),
        groups_upto(lines, k).last().name == group_at(lines, k),
    decreases k,
{
    lemma_group_count(lines, k);
    if k == 0 {
        assert(lines.take(0) =~= Seq::<Seq<char>>::empty());
    } else {
        lemma_first_and_last_name(lines, k - 1);
        lemma_groups_step(lines, k);
    }
}

/// The group that a header begins has the name that the header gives: the
/// header at line `j` begins the group whose number is one more than the count
/// of headers before it.
pub proof fn lemma_header_names_its_group(lines: Seq<Seq<char>>, k: int, j: int)
    requires
        0 <= j < k <= lines.len(),
        group_header_name(lines[j]) is Some,
    ensures
        0 < header_count(lines, j) + 1 < groups_upto(lines, k).len(),
        Some(groups_upto(lines, k)[header_count(lines, j) + 1].name) == group_header_name(
            lines[j],
        ),
    decreases k,
{
    lemma_group_count(lines, k);
    lemma_group_count(lines, k - 1);
    lemma_header_count_grows(lines, j, k - 1);
    lemma_groups_step(lines, k);
    if j < k - 1 {
        lemma_header_names_its_group(lines, k - 1, j);
    }
}

/// Every group but the first was begun by a header, which gives it its name.
pub proof fn lemma_group_has_header(lines: Seq<Seq<char>>, k: int, g: int) -> (j: int)
    requires
        0 <= k <= lines.len(),
        1 <= g < groups_upto(lines, k).len(),
    ensures
        0 <= j < k,
        group_header_name(lines[j]) == Some(groups_upto(lines, k)[g].name),
        header_count(lines, j) + 1 == g,
    decreases k,
{
    lemma_group_count(lines, k);
    if k == 0 {
        0
    } else {
        lemma_group_count(lines, k - 1);
        lemma_groups_step(lines, k);
        if group_header_name(lines[k - 1]) is Some && g == groups_upto(lines, k - 1).len() {
            k - 1
        } else {
            lemma_group_has_header(lines, k - 1, g)
        }
    }
}

/// A group holds what stands under its header.
pub proof fn lemma_group_content(lines: Seq<Seq<char>>, k: int, g: int)
    requires
        0 <= k <= lines.len(),
        0 <= g < groups_upto(lines, k).len(),
    ensures
        groups_upto(lines, k)[g].lines == said_in(lines, g, k),
    decreases k,
{
    lemma_group_count(lines, k);
    if k == 0 {
        assert(lines.take(0) =~= Seq::<Seq<char>>::empty());
    } else {
        lemma_group_count(lines, k - 1);
        lemma_groups_step(lines, k);
        if g < groups_upto(lines, k - 1).len() {
            lemma_group_content(lines, k - 1, g);
        } else {
            lemma_nothing_said_yet(lines, g, k - 1);
        }
    }
}

/// A line stands under the header of a group exactly where it stands under
/// a header that gives the group's name, provided no two groups have the
/// same name.
pub proof fn lemma_group_at_is_group(lines: Seq<Seq<char>>, g: int, j: int)
    requires
        0 <= j <= lines.len(),
        0 <= g < groups_upto(lines, lines.len() as int).len(),
        !has_duplicate_names(groups_upto(lines, lines.len() as int)),
    ensures
        header_count(lines, j) == g <==> group_at(lines, j) == groups_upto(
            lines,
            lines.len() as int,
        )[g].name,
{
    let n = lines.len() as int;
    let groups = groups_upto(lines, n);
    let at = header_count(lines, j);
    lemma_group_count(lines, n);
    lemma_group_count(lines, j);
    lemma_header_count_grows(lines, j, n);
    lemma_first_and_last_name(lines, j);
    lemma_first_and_last_name(lines, n);
    // The last group after `j` lines keeps its name to the end.
    assert(groups[at].name == group_at(lines, j)) by {
        if at > 0 {
            let h = lemma_group_has_header(lines, j, at);
            lemma_header_names_its_group(lines, n, h);
        }
    }
    if group_at(lines, j) == groups[g].name && at != g {
        if at < g {
            assert(groups[at].name == groups[g].name);
        } else {
            assert(groups[g].name == groups[at].name);
        }
    }
}

/// What stands under the header of a group is what stands under a header
/// that gives the group's name, provided no two groups have the same name.
pub proof fn lemma_said_in_is_said_under(lines: Seq<Seq<char>>, g: int, k: int)
    requires
        0 <= k <= lines.len(),
        0 <= g < groups_upto(lines, lines.len() as int).len(),
        !has_duplicate_names(groups_upto(lines, lines.len() as int)),
    ensures
        said_in(lines, g, k) == said_under(
            lines,
            groups_upto(lines, lines.len() as int)[g].name,
            k,
        ),
    decreases k,
{
    if k > 0 {
        lemma_said_in_is_said_under(lines, g, k - 1);
        lemma_group_at_is_group(lines, g, k - 1);
    }
}

/// The groups are those of the headers: two groups have the same name
/// exactly where two headers give the same name, and there is a group of a
/// name exactly where a header gives that name. The empty name is that of the
/// first group, which no header begins.
pub proof fn lemma_groups_are_those_of_the_headers(lines: Seq<Seq<char>>, name: Seq<char>)
    requires
        name.len() > 0,
    ensures
        has_duplicate_names(groups_of(recognized_lines(lines))) <==> has_repeated_header(lines),
        has_group(groups_of(recognized_lines(lines)), name) <==> has_header(lines, name),
{
    let n = lines.len() as int;
    assert(lines.take(n) =~= lines);
    let groups = groups_upto(lines, n);
    lemma_group_count(lines, n);
    lemma_first_and_last_name(lines, n);
    if has_repeated_header(lines) {
        let (i, j) = choose|i: int, j: int|
            0 <= i < j < lines.len() && group_header_name(#[trigger] lines[i]) is Some
                && group_header_name(lines[i]) == group_header_name(#[trigger] lines[j]);
        lemma_header_names_its_group(lines, n, i);
        lemma_header_names_its_group(lines, n, j);
        lemma_header_count_grows(lines, i + 1, j);
        let a = header_count(lines, i) + 1;
        let b = header_count(lines, j) + 1;
        assert(a < b);
        assert(groups[a].name == groups[b].name);
    }
    if has_duplicate_names(groups) {
        let (a, b) = choose|a: int, b: int|
            0 <= a < b < groups.len() && (#[trigger] groups[a]).name == (#[trigger] groups[b]).name;
        let j = lemma_group_has_header(lines, n, b);
        lemma_header_name_not_empty(lines[j]);
        let i = lemma_group_has_header(lines, n, a);
        if i < j {
            assert(group_header_name(lines[i]) == group_header_name(lines[j]));
        } else {
            lemma_header_count_grows(lines, j + 1, i);
            assert(false);
        }
    }
    if has_header(lines, name) {
        let k = choose|k: int|
            0 <= k < lines.len() && group_header_name(#[trigger] lines[k]) == Some(name);
        lemma_header_names_its_group(lines, n, k);
        assert(groups[header_count(lines, k) + 1].name == name);
    }
    if has_group(groups, name) {
        let g = choose|g: int| 0 <= g < groups.len() && (#[trigger] groups[g]).name == name;
        let k = lemma_group_has_header(lines, n, g);
        assert(group_header_name(lines[k]) == Some(name));
    }
}

/// A group header gives a name of at least one character.
pub proof fn lemma_header_name_not_empty(line: Seq<char>)
    requires
        group_header_name(line) is Some,
    ensures
        group_header_name(line)->0.len() > 0,
{
}

/// Where no two groups have the same name, the group of a name holds what
/// stands under the header that gives that name.
pub proof fn lemma_group_holds_what_stands_under(lines: Seq<Seq<char>>, name: Seq<char>, g: int)
    requires
        !has_duplicate_names(groups_of(recognized_lines(lines))),
        0 <= g < groups_of(recognized_lines(lines)).len(),
        groups_of(recognized_lines(lines))[g].name == name,
    ensures
        groups_of(recognized_lines(lines))[g].lines == said_under(lines, name, lines.len() as int),
{
    let n = lines.len() as int;
    assert(lines.take(n) =~= lines);
    lemma_group_content(lines, n, g);
    lemma_said_in_is_said_under(lines, g, n);
}

} // verus!
