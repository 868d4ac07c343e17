//! The sections of a changelog, and which of them call for an urgent restart.

use crate::text::{has_substring, join_lines, whitespace};
use vstd::prelude::*;

verus! {

/// One section of a changelog: the line that announces a version, and the
/// lines of change entries that follow it.
pub struct Section {
    pub header: Seq<char>,
    pub body: Seq<Seq<char>>,
}

/// A line of change entries: an indented line, that is one that begins with
/// a whitespace character. An empty line counts as one too: it belongs to
/// the section in which it stands, and opens none.
pub open spec fn change_entry(line: Seq<char>) -> bool {
    line.len() == 0 || whitespace(line[0])
}

/// The number of lines at the start of `lines` that are change-entry lines.
pub open spec fn body_len(lines: Seq<Seq<char>>) -> nat
    decreases lines.len(),
{
    if lines.len() == 0 || !change_entry(lines[0]) {
        0
    } else {
        1 + body_len(lines.skip(1))
    }
}

/// A run of change-entry lines fits in the sequence.
pub proof fn lemma_body_len_bound(lines: Seq<Seq<char>>)
    ensures
        body_len(lines) <= lines.len(),
    decreases lines.len(),
{
    if lines.len() > 0 && change_entry(lines[0]) {
        lemma_body_len_bound(lines.skip(1));
    }
}

/// `body_len` is the position of the first line that is no change-entry line.
pub proof fn lemma_body_len(lines: Seq<Seq<char>>, n: int)
    requires
        0 <= n <= lines.len(),
        forall|k: int| 0 <= k < n ==> change_entry(#[trigger] lines[k]),
        n == lines.len() || !change_entry(lines[n]),
    ensures
        body_len(lines) == n,
    decreases n,
{
    if n > 0 {
        lemma_body_len(lines.skip(1), n - 1);
    }
}

/// The sections of a changelog given by its lines. A line that is no
/// change-entry line announces a version and opens a section, to which the
/// change-entry lines up to the next announcement belong. Change-entry
/// lines before the first announcement belong to no section.
pub open spec fn sections(lines: Seq<Seq<char>>) -> Seq<Section>
    decreases lines.len(),
    via sections_decreases
{
    let h = body_len(lines);
    if h >= lines.len() {
        Seq::empty()
    } else {
        let rest = lines.skip(h as int + 1);
        let b = body_len(rest);
        seq![Section { header: lines[h as int], body: rest.take(b as int) }] + sections(
            rest.skip(b as int),
        )
    }
}

#[via_fn]
proof fn sections_decreases(lines: Seq<Seq<char>>) {
    let h = body_len(lines);
    if h < lines.len() {
        lemma_body_len_bound(lines.skip(h as int + 1));
    }
}

/// How urgent the maintainer called a version.
#[derive(Clone, Copy, Debug, PartialEq, Eq, Structural)]
pub enum UrgencyLevel {
    Low,
    Medium,
    High,
    Critical,
    /// The announcement names no urgency.
    Unknown,
}

/// The urgency that the announcement line `header` names. It names one where
/// it holds the text `urgency=`; a value other than `low`, `medium` and
/// `critical` counts as `High`.
pub open spec fn urgency_of(header: Seq<char>) -> UrgencyLevel {
    if !has_substring(header, "urgency="@) {
        UrgencyLevel::Unknown
    } else if has_substring(header, "urgency=low"@) {
        UrgencyLevel::Low
    } else if has_substring(header, "urgency=medium"@) {
        UrgencyLevel::Medium
    } else if has_substring(header, "urgency=critical"@) {
        UrgencyLevel::Critical
    } else {
        UrgencyLevel::High
    }
}

impl UrgencyLevel {
    /// Whether a version of this urgency calls for an urgent restart.
    pub open spec fn urgent(self) -> bool {
        self is High || self is Critical
    }

    /// Whether a version of this urgency calls for an urgent restart.
    pub fn is_urgent(&self) -> (b: bool)
        ensures
            b == self.urgent(),
    {
        match self {
            UrgencyLevel::High => true,
            UrgencyLevel::Critical => true,
            _ => false,
        }
    }
}

/// What is kept of an urgent section.
pub struct ChangelogView {
    pub version: Seq<char>,
    pub content: Seq<char>,
}

/// What is kept of the section `s`: its announcement line as the version,
/// and its lines of change entries, joined by line feeds, as the content.
pub open spec fn kept(s: Section) -> ChangelogView {
    ChangelogView { version: s.header, content: join_lines(s.body) }
}

/// The urgent changes that `sections`, newest first, hold for a host on which
/// the version `installed` is installed. The sections are gone through in
/// their order up to the first whose announcement holds the text `installed`:
/// that one and all after it are of no interest. Of the sections before it,
/// the urgent ones are kept.
pub open spec fn urgent_changes(sections: Seq<Section>, installed: Seq<char>) -> Seq<
    ChangelogView,
>
    decreases sections.len(),
{
    if sections.len() == 0 || has_substring(sections[0].header, installed) {
        Seq::empty()
    } else {
        let later = urgent_changes(sections.skip(1), installed);
        if urgency_of(sections[0].header).urgent() {
            seq![kept(sections[0])] + later
        } else {
            later
        }
    }
}

/// The lines counted by `body_len` are change-entry lines.
pub proof fn lemma_body_len_run(lines: Seq<Seq<char>>, k: int)
    requires
        0 <= k < body_len(lines),
    ensures
        k < lines.len(),
        change_entry(lines[k]),
    decreases lines.len(),
{
    if k > 0 {
        lemma_body_len_run(lines.skip(1), k - 1);
    }
}

/// The line at which a run of change-entry lines ends opens a section.
pub proof fn lemma_body_len_stops(lines: Seq<Seq<char>>)
    ensures
        body_len(lines) <= lines.len(),
        body_len(lines) < lines.len() ==> !change_entry(lines[body_len(lines) as int]),
    decreases lines.len(),
{
    if lines.len() > 0 && change_entry(lines[0]) {
        lemma_body_len_stops(lines.skip(1));
    }
}

/// Change-entry lines before the first announcement make no difference.
pub proof fn lemma_sections_seek(lines: Seq<Seq<char>>)
    ensures
        sections(lines) == sections(lines.skip(body_len(lines) as int)),
{
    let h = body_len(lines);
    lemma_body_len_stops(lines);
    let tail = lines.skip(h as int);
    if h < lines.len() {
        assert(tail[0] == lines[h as int]);
        assert(body_len(tail) == 0);
        assert(tail.skip(1) =~= lines.skip(h as int + 1));
    } else {
        assert(tail.len() == 0);
    }
}

/// The first section of lines that begin with an announcement: `b`
/// change-entry lines follow it.
pub proof fn lemma_sections_unfold(lines: Seq<Seq<char>>, b: int)
    requires
        lines.len() > 0,
        !change_entry(lines[0]),
        b == body_len(lines.skip(1)),
    ensures
        1 + b <= lines.len(),
        sections(lines) == seq![Section { header: lines[0], body: lines.subrange(1, 1 + b) }]
            + sections(lines.skip(1 + b)),
{
    lemma_body_len_bound(lines.skip(1));
    assert(body_len(lines) == 0);
    assert(lines.skip(1).take(b) =~= lines.subrange(1, 1 + b));
    assert(lines.skip(1).skip(b) =~= lines.skip(1 + b));
}

/// In every section the announcement is no change-entry line, and every
/// line under it is one.
pub proof fn lemma_sections_well_formed(lines: Seq<Seq<char>>, i: int)
    requires
        0 <= i < sections(lines).len(),
    ensures
        !change_entry(sections(lines)[i].header),
        forall|k: int|
            0 <= k < sections(lines)[i].body.len() ==> change_entry(
                #[trigger] sections(lines)[i].body[k],
            ),
    decreases lines.len(),
{
    let h = body_len(lines);
    lemma_body_len_stops(lines);
    let rest = lines.skip(h as int + 1);
    let b = body_len(rest);
    lemma_body_len_bound(rest);
    if i == 0 {
        assert forall|k: int| 0 <= k < rest.take(b as int).len() implies change_entry(
            #[trigger] rest.take(b as int)[k],
        ) by {
            lemma_body_len_run(rest, k);
        }
    } else {
        lemma_sections_well_formed(rest.skip(b as int), i - 1);
    }
}

/// The announcements of the sections.
pub open spec fn headers(sections: Seq<Section>) -> Seq<Seq<char>> {
    Seq::new(sections.len(), |i: int| sections[i].header)
}

/// Filtering a run of change-entry lines for announcements leaves nothing.
proof fn lemma_run_holds_no_announcement(lines: Seq<Seq<char>>, n: int)
    requires
        0 <= n <= lines.len(),
        forall|k: int| 0 <= k < n ==> change_entry(#[trigger] lines[k]),
    ensures
        lines.take(n).filter(|line: Seq<char>| !change_entry(line)).len() == 0,
    decreases n,
{
    reveal(Seq::filter);
    if n > 0 {
        lemma_run_holds_no_announcement(lines, n - 1);
        assert(lines.take(n).drop_last() =~= lines.take(n - 1));
    }
}

/// The announcements of the sections are the lines that are no change-entry
/// lines, in their order: each opens a section of its own, whatever stands
/// between them.
pub proof fn lemma_headers_are_the_announcements(lines: Seq<Seq<char>>)
    ensures
        headers(sections(lines)) == lines.filter(|line: Seq<char>| !change_entry(line)),
    decreases lines.len(),
{
    let announces = |line: Seq<char>| !change_entry(line);
    let h = body_len(lines) as int;
    lemma_body_len_stops(lines);
    assert forall|k: int| 0 <= k < h implies change_entry(#[trigger] lines[k]) by {
        lemma_body_len_run(lines, k);
    }
    lemma_run_holds_no_announcement(lines, h);
    if h >= lines.len() {
        assert(lines.take(h) =~= lines);
        assert(headers(sections(lines)) =~= lines.filter(announces));
    } else {
        let rest = lines.skip(h + 1);
        let b = body_len(rest) as int;
        lemma_body_len_bound(rest);
        assert forall|k: int| 0 <= k < b implies change_entry(#[trigger] rest[k]) by {
            lemma_body_len_run(rest, k);
        }
        lemma_run_holds_no_announcement(rest, b);
        let later = rest.skip(b);
        lemma_headers_are_the_announcements(later);
        let first = Section { header: lines[h], body: rest.take(b) };
        assert(headers(seq![first] + sections(later)) =~= seq![lines[h]] + headers(
            sections(later),
        ));
        // the lines fall into the run before the announcement, the
        // announcement, the run under it, and what follows
        assert(rest =~= rest.take(b) + later);
        Seq::filter_distributes_over_add(rest.take(b), later, announces);
        assert(rest.filter(announces) =~= later.filter(announces));
        assert(lines.skip(h) =~= seq![lines[h]] + rest);
        rest.lemma_filter_prepend(lines[h], announces);
        assert(lines =~= lines.take(h) + lines.skip(h));
        Seq::filter_distributes_over_add(lines.take(h), lines.skip(h), announces);
        assert(lines.filter(announces) =~= lines.skip(h).filter(announces));
    }
}

/// The urgent changes of a first section followed by others.
pub proof fn lemma_urgent_changes_unfold(first: Section, others: Seq<Section>, installed: Seq<char>)
    ensures
        urgent_changes(seq![first] + others, installed) == if has_substring(
            first.header,
            installed,
        ) {
            Seq::<ChangelogView>::empty()
        } else if urgency_of(first.header).urgent() {
            seq![kept(first)] + urgent_changes(others, installed)
        } else {
            urgent_changes(others, installed)
        },
{
    let all = seq![first] + others;
    assert(all[0] == first);
    assert(all.skip(1) =~= others);
}

/// Where the newest section already announces the installed version,
/// nothing is urgent.
pub proof fn lemma_installed_is_newest(sections: Seq<Section>, installed: Seq<char>)
    requires
        sections.len() > 0,
        has_substring(sections[0].header, installed),
    ensures
        urgent_changes(sections, installed).len() == 0,
{
}

/// A section whose announcement names no urgency is not kept, though it be
/// newer than the installed version.
pub proof fn lemma_unmarked_section_dropped(
    first: Section,
    others: Seq<Section>,
    installed: Seq<char>,
)
    requires
        !has_substring(first.header, "urgency="@),
        !has_substring(first.header, installed),
    ensures
        urgent_changes(seq![first] + others, installed) == urgent_changes(others, installed),
{
    lemma_urgent_changes_unfold(first, others, installed);
}

/// Every section that is kept stood before the first section that announces
/// the installed version, and its announcement names an urgency that is
/// neither low nor medium.
pub proof fn lemma_kept_are_urgent(sections: Seq<Section>, installed: Seq<char>, i: int)
    requires
        0 <= i < urgent_changes(sections, installed).len(),
    ensures
        has_substring(urgent_changes(sections, installed)[i].version, "urgency="@),
        !has_substring(urgent_changes(sections, installed)[i].version, "urgency=low"@),
        !has_substring(urgent_changes(sections, installed)[i].version, "urgency=medium"@),
        !has_substring(urgent_changes(sections, installed)[i].version, installed),
    decreases sections.len(),
{
    if urgency_of(sections[0].header).urgent() {
        if i > 0 {
            lemma_kept_are_urgent(sections.skip(1), installed, i - 1);
        }
    } else {
        lemma_kept_are_urgent(sections.skip(1), installed, i);
    }
}

/// Of two sections that are newer than the installed version, one urgent
/// and one not, in either order, exactly the urgent one is kept. `older`
/// are the sections after the two: none, or beginning with the one that
/// announces the installed version.
pub proof fn lemma_one_of_two_kept(
    urgent: Section,
    other: Section,
    urgent_first: bool,
    older: Seq<Section>,
    installed: Seq<char>,
)
    requires
        urgency_of(urgent.header).urgent(),
        !urgency_of(other.header).urgent(),
        !has_substring(urgent.header, installed),
        !has_substring(other.header, installed),
        older.len() == 0 || has_substring(older[0].header, installed),
    ensures
        urgent_changes(
            (if urgent_first {
                seq![urgent, other]
            } else {
                seq![other, urgent]
            }) + older,
            installed,
        ) == seq![kept(urgent)],
{
    let (a, b) = if urgent_first {
        (urgent, other)
    } else {
        (other, urgent)
    };
    assert(seq![a, b] + older =~= seq![a] + (seq![b] + older));
    lemma_urgent_changes_unfold(a, seq![b] + older, installed);
    lemma_urgent_changes_unfold(b, older, installed);
    assert(urgent_changes(older, installed) =~= Seq::<ChangelogView>::empty());
    assert(seq![kept(urgent)] + Seq::<ChangelogView>::empty() =~= seq![kept(urgent)]);
}

/// The announcements that stand before the first that holds the text `installed`.
pub open spec fn newer(headers: Seq<Seq<char>>, installed: Seq<char>) -> Seq<Seq<char>>
    decreases headers.len(),
{
    if headers.len() == 0 || has_substring(headers[0], installed) {
        Seq::empty()
    } else {
        seq![headers[0]] + newer(headers.skip(1), installed)
    }
}

/// The versions of kept sections.
pub open spec fn versions(logs: Seq<ChangelogView>) -> Seq<Seq<char>> {
    Seq::new(logs.len(), |i: int| logs[i].version)
}

/// The sections that are kept are those of the urgent announcements among
/// the ones before the first that holds the installed version, in their order.
pub proof fn lemma_kept_versions(sections: Seq<Section>, installed: Seq<char>)
    ensures
        versions(urgent_changes(sections, installed)) == newer(headers(sections), installed).filter(
            |header: Seq<char>| urgency_of(header).urgent(),
        ),
    decreases sections.len(),
{
    let urgent = |header: Seq<char>| urgency_of(header).urgent();
    reveal(Seq::filter);
    if sections.len() == 0 || has_substring(sections[0].header, installed) {
        assert(versions(urgent_changes(sections, installed)) =~= Seq::<Seq<char>>::empty());
        assert(newer(headers(sections), installed) =~= Seq::<Seq<char>>::empty());
    } else {
        let later = sections.skip(1);
        lemma_kept_versions(later, installed);
        assert(headers(sections).skip(1) =~= headers(later));
        newer(headers(later), installed).lemma_filter_prepend(sections[0].header, urgent);
        if urgent(sections[0].header) {
            assert(versions(urgent_changes(sections, installed)) =~= seq![sections[0].header]
                + versions(urgent_changes(later, installed)));
        } else {
            assert(Seq::<Seq<char>>::empty() + newer(headers(later), installed).filter(urgent)
                =~= newer(headers(later), installed).filter(urgent));
        }
    }
}

/// What stands after the first announcement that holds the installed
/// version makes no difference.
pub proof fn lemma_older_sections_do_not_count(
    before: Seq<Section>,
    stop: Section,
    after: Seq<Section>,
    other: Seq<Section>,
    installed: Seq<char>,
)
    requires
        has_substring(stop.header, installed),
    ensures
        urgent_changes(before + seq![stop] + after, installed) == urgent_changes(
            before + seq![stop] + other,
            installed,
        ),
    decreases before.len(),
{
    let one = before + seq![stop] + after;
    let two = before + seq![stop] + other;
    if before.len() == 0 {
        assert(one[0] == stop);
        assert(two[0] == stop);
    } else {
        assert(one[0] == before[0] && two[0] == before[0]);
        assert(one.skip(1) =~= before.skip(1) + seq![stop] + after);
        assert(two.skip(1) =~= before.skip(1) + seq![stop] + other);
        lemma_older_sections_do_not_count(before.skip(1), stop, after, other, installed);
    }
}

} // verus!
