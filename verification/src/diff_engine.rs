//! The hunk summarizer over an external line-diff primitive: consecutive
//! inserted and deleted lines are grouped into hunks with 1-based line
//! bookkeeping, an equal line closing any open hunk; beside the hunks, a
//! flat tally of inserted, deleted and unchanged lines.

use vstd::prelude::*;
use vstd::string::*;
use crate::strutil::{push_char, spec_dec, spec_trim_back, trim_end_blanks, usize_to_string};

verus! {

/// Type of diff change.
#[derive(Debug, Clone, Copy, PartialEq, Eq, Structural)]
pub enum DiffChangeType {
    Equal,
    Insert,
    Delete,
}

/// Represents a change in the diff.
#[derive(Debug, Clone)]
pub struct DiffChange {
    pub line_number: usize,
    pub content: String,
    pub change_type: DiffChangeType,
}

/// A diff hunk (group of changes).
#[derive(Debug, Clone)]
pub struct DiffHunk {
    pub old_start: usize,
    pub old_lines: usize,
    pub new_start: usize,
    pub new_lines: usize,
    pub changes: Vec<DiffChange>,
}

/// A unified diff representation.
#[derive(Debug, Clone)]
pub struct UnifiedDiff {
    pub old_path: String,
    pub new_path: String,
    pub hunks: Vec<DiffHunk>,
}

/// The mathematical image of one change line.
pub struct ChangeView {
    pub line_number: nat,
    pub content: Seq<char>,
    pub change_type: DiffChangeType,
}

impl View for DiffChange {
    type V = ChangeView;

    open spec fn view(&self) -> ChangeView {
        ChangeView {
            line_number: self.line_number as nat,
            content: self.content@,
            change_type: self.change_type,
        }
    }
}

/// The mathematical image of one hunk.
pub struct HunkView {
    pub old_start: nat,
    pub old_lines: nat,
    pub new_start: nat,
    pub new_lines: nat,
    pub changes: Seq<ChangeView>,
}

impl View for DiffHunk {
    type V = HunkView;

    open spec fn view(&self) -> HunkView {
        HunkView {
            old_start: self.old_start as nat,
            old_lines: self.old_lines as nat,
            new_start: self.new_start as nat,
            new_lines: self.new_lines as nat,
            changes: self.changes@.map_values(|c: DiffChange| c@),
        }
    }
}

/// What the line-diff primitive hands back for two texts: the tagged line
/// stream, a function of the two texts alone.
pub uninterp spec fn line_diff_of(old: Seq<char>, new: Seq<char>) -> Seq<(DiffChangeType, Seq<
    char,
>)>;

/// The views of a tagged line stream.
pub open spec fn change_views(s: Seq<(DiffChangeType, String)>) -> Seq<(DiffChangeType, Seq<char>)> {
    s.map_values(|p: (DiffChangeType, String)| (p.0, p.1@))
}

/// How many lines the line-diff primitive tokenizes a text into: a line
/// ends at a newline, at a carriage-return-newline pair, or at a lone
/// carriage return, and trailing text without a terminator is a final
/// line. The empty text has no lines.
pub open spec fn spec_diff_line_count(s: Seq<char>) -> nat {
    spec_diff_terminators(s) + if s.len() > 0 && s.last() != '\n' && s.last() != '\r' {
        1nat
    } else {
        0nat
    }
}

/// The number of line terminators in a text, a carriage-return-newline
/// pair counting once.
pub open spec fn spec_diff_terminators(s: Seq<char>) -> nat
    decreases s.len(),
{
    if s.len() == 0 {
        0
    } else if s[0] == '\r' && s.len() >= 2 && s[1] == '\n' {
        1 + spec_diff_terminators(s.subrange(2, s.len() as int))
    } else if s[0] == '\r' || s[0] == '\n' {
        1 + spec_diff_terminators(s.drop_first())
    } else {
        spec_diff_terminators(s.drop_first())
    }
}

/// Relies on similar::TextDiff::from_lines and iter_all_changes: the tagged
/// line stream depends on the two texts alone; each item carries one line's
/// text, with a newline appended where the line had none. The stream covers
/// both texts completely: every line of the old text appears exactly once
/// tagged Delete or Equal, and every line of the new text exactly once
/// tagged Insert or Equal.
#[verifier::external_body]
fn diff_lines(old: &str, new: &str) -> (r: Vec<(DiffChangeType, String)>)
    ensures
        change_views(r@) == line_diff_of(old@, new@),
        spec_count_tag(change_views(r@), DiffChangeType::Delete) + spec_count_tag(
            change_views(r@),
            DiffChangeType::Equal,
        ) == spec_diff_line_count(old@),
        spec_count_tag(change_views(r@), DiffChangeType::Insert) + spec_count_tag(
            change_views(r@),
            DiffChangeType::Equal,
        ) == spec_diff_line_count(new@),
{
    similar::TextDiff::from_lines(old, new).iter_all_changes().map(
        |c| {
            (
                match c.tag() {
                    similar::ChangeTag::Equal => DiffChangeType::Equal,
                    similar::ChangeTag::Insert => DiffChangeType::Insert,
                    similar::ChangeTag::Delete => DiffChangeType::Delete,
                },
                c.to_string(),
            )
        },
    ).collect()
}

/// The running state of the hunk grouping: closed hunks, the open hunk if
/// any, and the 0-based line cursors on both sides.
pub struct HunkFold {
    pub hunks: Seq<HunkView>,
    pub current: Option<HunkView>,
    pub old_line: nat,
    pub new_line: nat,
}

/// One step of the grouping: a delete or insert opens a hunk if none is
/// open and extends it; an equal line closes any open hunk and advances
/// both cursors.
pub open spec fn hunk_step(st: HunkFold, c: (DiffChangeType, Seq<char>)) -> HunkFold {
    match c.0 {
        DiffChangeType::Delete => {
            let cur = if st.current is Some {
                st.current->0
            } else {
                HunkView {
                    old_start: st.old_line + 1,
                    old_lines: 0,
                    new_start: st.new_line + 1,
                    new_lines: 0,
                    changes: Seq::empty(),
                }
            };
            HunkFold {
                hunks: st.hunks,
                current: Some(
                    HunkView {
                        old_lines: cur.old_lines + 1,
                        changes: cur.changes.push(
                            ChangeView {
                                line_number: st.old_line,
                                content: c.1,
                                change_type: DiffChangeType::Delete,
                            },
                        ),
                        ..cur
                    },
                ),
                old_line: st.old_line + 1,
                new_line: st.new_line,
            }
        },
        DiffChangeType::Insert => {
            let cur = if st.current is Some {
                st.current->0
            } else {
                HunkView {
                    old_start: st.old_line + 1,
                    old_lines: 0,
                    new_start: st.new_line + 1,
                    new_lines: 0,
                    changes: Seq::empty(),
                }
            };
            HunkFold {
                hunks: st.hunks,
                current: Some(
                    HunkView {
                        new_lines: cur.new_lines + 1,
                        changes: cur.changes.push(
                            ChangeView {
                                line_number: st.new_line,
                                content: c.1,
                                change_type: DiffChangeType::Insert,
                            },
                        ),
                        ..cur
                    },
                ),
                old_line: st.old_line,
                new_line: st.new_line + 1,
            }
        },
        DiffChangeType::Equal => HunkFold {
            hunks: if st.current is Some {
                st.hunks.push(st.current->0)
            } else {
                st.hunks
            },
            current: None,
            old_line: st.old_line + 1,
            new_line: st.new_line + 1,
        },
    }
}

/// The grouping folded over a change stream, from the front.
pub open spec fn hunk_fold(cs: Seq<(DiffChangeType, Seq<char>)>) -> HunkFold
    decreases cs.len(),
{
    if cs.len() == 0 {
        HunkFold { hunks: Seq::empty(), current: None, old_line: 0, new_line: 0 }
    } else {
        hunk_step(hunk_fold(cs.drop_last()), cs.last())
    }
}

/// The hunks of a change stream: the fold's closed hunks, with the hunk
/// still open at the end closed after it.
pub open spec fn spec_hunks(cs: Seq<(DiffChangeType, Seq<char>)>) -> Seq<HunkView> {
    let st = hunk_fold(cs);
    if st.current is Some {
        st.hunks.push(st.current->0)
    } else {
        st.hunks
    }
}

/// The fold's cursors and the open hunk's tallies never outrun the number
/// of changes consumed.
proof fn lemma_fold_bounds(cs: Seq<(DiffChangeType, Seq<char>)>)
    ensures
        hunk_fold(cs).old_line <= cs.len(),
        hunk_fold(cs).new_line <= cs.len(),
        hunk_fold(cs).current matches Some(h) ==> h.old_lines <= cs.len() && h.new_lines
            <= cs.len(),
    decreases cs.len(),
{
    if cs.len() > 0 {
        lemma_fold_bounds(cs.drop_last());
    }
}

/// Group a tagged change stream into hunks. This is the verified half of
/// the unified diff computation: it takes the line-diff primitive's output
/// as an argument.
pub fn build_hunks(changes: &Vec<(DiffChangeType, String)>) -> (r: Vec<DiffHunk>)
    ensures
        r@.map_values(|h: DiffHunk| h@) == spec_hunks(change_views(changes@)),
{
    let ghost cv = change_views(changes@);
    let mut hunks: Vec<DiffHunk> = Vec::new();
    let mut current: Option<DiffHunk> = None;
    let mut old_line: usize = 0;
    let mut new_line: usize = 0;
    let n = changes.len();
    let mut i: usize = 0;
    while i < n
        invariant
            n == changes@.len(),
            cv == change_views(changes@),
            cv.len() == n,
            i <= n,
            hunks@.map_values(|h: DiffHunk| h@) == hunk_fold(cv.subrange(0, i as int)).hunks,
            match current {
                Some(h) => hunk_fold(cv.subrange(0, i as int)).current == Some(h@),
                None => hunk_fold(cv.subrange(0, i as int)).current is None,
            },
            old_line as nat == hunk_fold(cv.subrange(0, i as int)).old_line,
            new_line as nat == hunk_fold(cv.subrange(0, i as int)).new_line,
        decreases n - i,
    {
        let ghost st = hunk_fold(cv.subrange(0, i as int));
        proof {
            lemma_fold_bounds(cv.subrange(0, i as int));
            assert(cv.subrange(0, i + 1).drop_last() =~= cv.subrange(0, i as int));
            assert(cv.subrange(0, i + 1).last() == cv[i as int]);
            assert(cv[i as int] == (changes@[i as int].0, changes@[i as int].1@));
        }
        let tag = changes[i].0;
        let text = changes[i].1.clone();
        match tag {
            DiffChangeType::Delete => {
                let mut cur = match current.take() {
                    Some(h) => h,
                    None => DiffHunk {
                        old_start: old_line + 1,
                        old_lines: 0,
                        new_start: new_line + 1,
                        new_lines: 0,
                        changes: Vec::new(),
                    },
                };
                let ghost cur0 = cur@;
                proof {
                    assert(cur.changes@.map_values(|c: DiffChange| c@) =~= cur0.changes);
                }
                cur.old_lines = cur.old_lines + 1;
                cur.changes.push(
                    DiffChange {
                        line_number: old_line,
                        content: text,
                        change_type: DiffChangeType::Delete,
                    },
                );
                proof {
                    assert(cur.changes@.map_values(|c: DiffChange| c@) =~= cur0.changes.push(
                        ChangeView {
                            line_number: old_line as nat,
                            content: changes@[i as int].1@,
                            change_type: DiffChangeType::Delete,
                        },
                    ));
                }
                current = Some(cur);
                old_line = old_line + 1;
            },
            DiffChangeType::Insert => {
                let mut cur = match current.take() {
                    Some(h) => h,
                    None => DiffHunk {
                        old_start: old_line + 1,
                        old_lines: 0,
                        new_start: new_line + 1,
                        new_lines: 0,
                        changes: Vec::new(),
                    },
                };
                let ghost cur0 = cur@;
                proof {
                    assert(cur.changes@.map_values(|c: DiffChange| c@) =~= cur0.changes);
                }
                cur.new_lines = cur.new_lines + 1;
                cur.changes.push(
                    DiffChange {
                        line_number: new_line,
                        content: text,
                        change_type: DiffChangeType::Insert,
                    },
                );
                proof {
                    assert(cur.changes@.map_values(|c: DiffChange| c@) =~= cur0.changes.push(
                        ChangeView {
                            line_number: new_line as nat,
                            content: changes@[i as int].1@,
                            change_type: DiffChangeType::Insert,
                        },
                    ));
                }
                current = Some(cur);
                new_line = new_line + 1;
            },
            DiffChangeType::Equal => {
                match current.take() {
                    Some(h) => {
                        let ghost hs0 = hunks@.map_values(|x: DiffHunk| x@);
                        hunks.push(h);
                        proof {
                            assert(hunks@.map_values(|x: DiffHunk| x@) =~= hs0.push(h@));
                        }
                    },
                    None => {},
                }
                old_line = old_line + 1;
                new_line = new_line + 1;
            },
        }
        proof {
            let st1 = hunk_fold(cv.subrange(0, i + 1));
            assert(st1 == hunk_step(st, cv[i as int]));
            match &current {
                Some(h) => {
                    assert(st1.current matches Some(hv) && hv.changes =~= h@.changes);
                    assert(st1.current == Some(h@));
                },
                None => {},
            }
        }
        i = i + 1;
    }
    proof {
        assert(cv.subrange(0, n as int) =~= cv);
    }
    match current.take() {
        Some(h) => {
            let ghost hs0 = hunks@.map_values(|x: DiffHunk| x@);
            hunks.push(h);
            proof {
                assert(hunks@.map_values(|x: DiffHunk| x@) =~= hs0.push(h@));
            }
        },
        None => {},
    }
    hunks
}

/// The number of changes in the stream carrying one tag.
pub open spec fn spec_count_tag(cs: Seq<(DiffChangeType, Seq<char>)>, t: DiffChangeType) -> nat
    decreases cs.len(),
{
    if cs.len() == 0 {
        0
    } else {
        spec_count_tag(cs.drop_last(), t) + if cs.last().0 == t {
            1nat
        } else {
            0nat
        }
    }
}

proof fn lemma_count_tag_le_len(cs: Seq<(DiffChangeType, Seq<char>)>, t: DiffChangeType)
    ensures
        spec_count_tag(cs, t) <= cs.len(),
    decreases cs.len(),
{
    if cs.len() > 0 {
        lemma_count_tag_le_len(cs.drop_last(), t);
    }
}

/// Summary of diff statistics.
#[derive(Debug, Clone, Copy, PartialEq, Eq, Structural)]
pub struct DiffSummary {
    pub added: usize,
    pub deleted: usize,
    pub unchanged: usize,
}

impl DiffSummary {
    /// The summary records at least one inserted or deleted line.
    pub fn has_changes(&self) -> (r: bool)
        ensures
            r == (self.added > 0 || self.deleted > 0),
    {
        self.added > 0 || self.deleted > 0
    }

    /// The display rendering: the added and deleted counts.
    pub open spec fn spec_format(&self) -> Seq<char> {
        "+"@ + spec_dec(self.added as nat) + " -"@ + spec_dec(self.deleted as nat) + "\n"@
    }

    pub fn format(&self) -> (r: String)
        ensures
            r@ == self.spec_format(),
    {
        let a = usize_to_string(self.added);
        let d = usize_to_string(self.deleted);
        "+".to_owned().concat(a.as_str()).concat(" -").concat(d.as_str()).concat("\n")
    }
}

/// Tally a tagged change stream: one count per tag. This is the verified
/// half of the diff summary: it takes the line-diff primitive's output as
/// an argument.
pub fn tally_changes(changes: &Vec<(DiffChangeType, String)>) -> (r: DiffSummary)
    ensures
        r.added as nat == spec_count_tag(change_views(changes@), DiffChangeType::Insert),
        r.deleted as nat == spec_count_tag(change_views(changes@), DiffChangeType::Delete),
        r.unchanged as nat == spec_count_tag(change_views(changes@), DiffChangeType::Equal),
{
    let ghost cv = change_views(changes@);
    let mut added: usize = 0;
    let mut deleted: usize = 0;
    let mut unchanged: usize = 0;
    let n = changes.len();
    let mut i: usize = 0;
    while i < n
        invariant
            n == changes@.len(),
            cv == change_views(changes@),
            cv.len() == n,
            i <= n,
            added as nat == spec_count_tag(cv.subrange(0, i as int), DiffChangeType::Insert),
            deleted as nat == spec_count_tag(cv.subrange(0, i as int), DiffChangeType::Delete),
            unchanged as nat == spec_count_tag(cv.subrange(0, i as int), DiffChangeType::Equal),
        decreases n - i,
    {
        proof {
            assert(cv.subrange(0, i + 1).drop_last() =~= cv.subrange(0, i as int));
            assert(cv.subrange(0, i + 1).last() == cv[i as int]);
            assert(cv[i as int].0 == changes@[i as int].0);
            lemma_count_tag_le_len(cv.subrange(0, i as int), DiffChangeType::Insert);
            lemma_count_tag_le_len(cv.subrange(0, i as int), DiffChangeType::Delete);
            lemma_count_tag_le_len(cv.subrange(0, i as int), DiffChangeType::Equal);
        }
        match changes[i].0 {
            DiffChangeType::Insert => {
                added = added + 1;
            },
            DiffChangeType::Delete => {
                deleted = deleted + 1;
            },
            DiffChangeType::Equal => {
                unchanged = unchanged + 1;
            },
        }
        i = i + 1;
    }
    proof {
        assert(cv.subrange(0, n as int) =~= cv);
    }
    DiffSummary { added, deleted, unchanged }
}

/// The display prefix of one change line.
pub open spec fn spec_change_prefix(t: DiffChangeType) -> Seq<char> {
    match t {
        DiffChangeType::Equal => " "@,
        DiffChangeType::Insert => "+"@,
        DiffChangeType::Delete => "-"@,
    }
}

/// The change lines of one hunk, each with its prefix.
pub open spec fn spec_format_changes(cs: Seq<ChangeView>) -> Seq<char>
    decreases cs.len(),
{
    if cs.len() == 0 {
        Seq::empty()
    } else {
        spec_format_changes(cs.drop_last()) + spec_change_prefix(cs.last().change_type)
            + cs.last().content
    }
}

/// The conventional header and body of one hunk.
pub open spec fn spec_format_hunk(h: HunkView) -> Seq<char> {
    "@@ -"@ + spec_dec(h.old_start) + ","@ + spec_dec(h.old_lines) + " +"@ + spec_dec(h.new_start)
        + ","@ + spec_dec(h.new_lines) + " @@\n"@ + spec_format_changes(h.changes)
}

/// The rendered hunks, in order.
pub open spec fn spec_format_hunks(hs: Seq<HunkView>) -> Seq<char>
    decreases hs.len(),
{
    if hs.len() == 0 {
        Seq::empty()
    } else {
        spec_format_hunks(hs.drop_last()) + spec_format_hunk(hs.last())
    }
}

/// The whole unified rendering: the two file headers, then the hunks.
pub open spec fn spec_format_unified(d: &UnifiedDiff) -> Seq<char> {
    "--- a/"@ + d.old_path@ + "\n+++ b/"@ + d.new_path@ + "\n"@ + spec_format_hunks(
        d.hunks@.map_values(|h: DiffHunk| h@),
    )
}

/// Diff engine for computing file differences.
pub struct DiffEngine;

impl DiffEngine {
    /// Compute a unified diff between two strings.
    pub fn unified_diff(old: &str, new: &str, old_path: &String, new_path: &String) -> (r:
        UnifiedDiff)
        ensures
            r.old_path@ == old_path@,
            r.new_path@ == new_path@,
            r.hunks@.map_values(|h: DiffHunk| h@) == spec_hunks(line_diff_of(old@, new@)),
    {
        let changes = diff_lines(old, new);
        let hunks = build_hunks(&changes);
        UnifiedDiff { old_path: old_path.clone(), new_path: new_path.clone(), hunks }
    }

    /// Format a unified diff for display.
    #[verifier::rlimit(60)]
    pub fn format_unified_diff(diff: &UnifiedDiff) -> (r: String)
        ensures
            r@ == spec_format_unified(diff),
    {
        let ghost hv = diff.hunks@.map_values(|h: DiffHunk| h@);
        let mut out = "--- a/".to_owned().concat(diff.old_path.as_str()).concat(
            "\n+++ b/",
        ).concat(diff.new_path.as_str()).concat("\n");
        let ghost head = out@;
        let n = diff.hunks.len();
        let mut i: usize = 0;
        while i < n
            invariant
                n == diff.hunks@.len(),
                hv == diff.hunks@.map_values(|h: DiffHunk| h@),
                hv.len() == n,
                i <= n,
                out@ == head + spec_format_hunks(hv.subrange(0, i as int)),
            decreases n - i,
        {
            let hunk = &diff.hunks[i];
            out.append("@@ -");
            let s1 = usize_to_string(hunk.old_start);
            out.append(s1.as_str());
            out.append(",");
            let s2 = usize_to_string(hunk.old_lines);
            out.append(s2.as_str());
            out.append(" +");
            let s3 = usize_to_string(hunk.new_start);
            out.append(s3.as_str());
            out.append(",");
            let s4 = usize_to_string(hunk.new_lines);
            out.append(s4.as_str());
            out.append(" @@\n");
            let ghost hunk_head = out@;
            let m = hunk.changes.len();
            let mut j: usize = 0;
            while j < m
                invariant
                    m == hunk.changes@.len(),
                    j <= m,
                    out@ == hunk_head + spec_format_changes(
                        hunk.changes@.map_values(|c: DiffChange| c@).subrange(0, j as int),
                    ),
                decreases m - j,
            {
                let ghost cvs = hunk.changes@.map_values(|c: DiffChange| c@);
                proof {
                    assert(cvs.subrange(0, j + 1).drop_last() =~= cvs.subrange(0, j as int));
                    assert(cvs.subrange(0, j + 1).last() == cvs[j as int]);
                }
                match hunk.changes[j].change_type {
                    DiffChangeType::Equal => out.append(" "),
                    DiffChangeType::Insert => out.append("+"),
                    DiffChangeType::Delete => out.append("-"),
                }
                out.append(hunk.changes[j].content.as_str());
                j = j + 1;
            }
            proof {
                assert(hunk.changes@.map_values(|c: DiffChange| c@).subrange(0, m as int)
                    =~= hunk.changes@.map_values(|c: DiffChange| c@));
                assert(hv.subrange(0, i + 1).drop_last() =~= hv.subrange(0, i as int));
                assert(hv.subrange(0, i + 1).last() == hunk@);
                assert(out@ == head + spec_format_hunks(hv.subrange(0, i as int))
                    + spec_format_hunk(hunk@));
            }
            i = i + 1;
        }
        proof {
            assert(hv.subrange(0, n as int) =~= hv);
        }
        out
    }

    /// Get a simple summary of changes between two strings. The counts
    /// cover both texts: deleted and unchanged lines together make up the
    /// old text, added and unchanged lines the new one.
    pub fn diff_summary(old: &str, new: &str) -> (r: DiffSummary)
        ensures
            r.added as nat == spec_count_tag(line_diff_of(old@, new@), DiffChangeType::Insert),
            r.deleted as nat == spec_count_tag(line_diff_of(old@, new@), DiffChangeType::Delete),
            r.unchanged as nat == spec_count_tag(line_diff_of(old@, new@), DiffChangeType::Equal),
            r.deleted as nat + r.unchanged as nat == spec_diff_line_count(old@),
            r.added as nat + r.unchanged as nat == spec_diff_line_count(new@),
    {
        let changes = diff_lines(old, new);
        tally_changes(&changes)
    }
}


/// A run of `n` spaces.
pub open spec fn spec_spaces(n: nat) -> Seq<char>
    decreases n,
{
    if n == 0 {
        Seq::empty()
    } else {
        spec_spaces((n - 1) as nat).push(' ')
    }
}

/// One table cell: the text with trailing blanks removed, padded with
/// spaces to the column width (an overlong text is kept whole).
pub open spec fn spec_cell(s: Seq<char>) -> Seq<char> {
    let t = spec_trim_back(s);
    if t.len() >= 35 {
        t
    } else {
        t + spec_spaces((35 - t.len()) as nat)
    }
}

fn cell(text: &str) -> (r: String)
    ensures
        r@ == spec_cell(text@),
{
    let ghost t0 = spec_trim_back(text@);
    let t = trim_end_blanks(text);
    let mut out = t.to_owned();
    let mut n = t.unicode_len();
    proof {
        assert(out@ =~= t0 + spec_spaces(0));
    }
    while n < 35
        invariant
            t0 == spec_trim_back(text@),
            t0.len() <= n,
            n == out@.len(),
            t0.len() >= 35 ==> n == t0.len(),
            t0.len() < 35 ==> n <= 35,
            out@ == t0 + spec_spaces((n - t0.len()) as nat),
        decreases 35 - n,
    {
        push_char(&mut out, ' ');
        proof {
            assert(t0 + spec_spaces((n + 1 - t0.len()) as nat) =~= (t0 + spec_spaces(
                (n - t0.len()) as nat,
            )).push(' '));
        }
        n = n + 1;
    }
    proof {
        assert(t0 + spec_spaces(0) =~= t0);
    }
    out
}

/// The horizontal rule of the side-by-side table.
pub open spec fn spec_table_border() -> Seq<char> {
    "+-------------------------------------+-------------------------------------+\n"@
}

/// The table head: a rule, the column titles, a rule.
pub open spec fn spec_table_header() -> Seq<char> {
    spec_table_border()
        + "| OLD                                 | NEW                                 |\n"@
        + spec_table_border()
}

/// One table row: the change marker, then the old-side and new-side cells
/// (a deleted line stands on the left only, an inserted one on the right
/// only, an equal one on both).
pub open spec fn spec_table_row(c: (DiffChangeType, Seq<char>)) -> Seq<char> {
    let marker = match c.0 {
        DiffChangeType::Equal => " "@,
        DiffChangeType::Insert => "+"@,
        DiffChangeType::Delete => "-"@,
    };
    let left = match c.0 {
        DiffChangeType::Insert => Seq::<char>::empty(),
        _ => c.1,
    };
    let right = match c.0 {
        DiffChangeType::Delete => Seq::<char>::empty(),
        _ => c.1,
    };
    "|"@ + marker + "| "@ + spec_cell(left) + " | "@ + spec_cell(right) + " |\n"@
}

/// The table rows, in stream order.
pub open spec fn spec_table_rows(cs: Seq<(DiffChangeType, Seq<char>)>) -> Seq<char>
    decreases cs.len(),
{
    if cs.len() == 0 {
        Seq::empty()
    } else {
        spec_table_rows(cs.drop_last()) + spec_table_row(cs.last())
    }
}

/// The whole side-by-side rendering of a tagged line stream.
pub open spec fn spec_side_by_side(cs: Seq<(DiffChangeType, Seq<char>)>) -> Seq<char> {
    spec_table_header() + spec_table_rows(cs) + spec_table_border()
}

/// Render a tagged change stream as a side-by-side table. This is the
/// verified half of the side-by-side view: it takes the line-diff
/// primitive's output as an argument.
#[verifier::rlimit(60)]
pub fn render_side_by_side(changes: &Vec<(DiffChangeType, String)>) -> (r: String)
    ensures
        r@ == spec_side_by_side(change_views(changes@)),
{
    let ghost cv = change_views(changes@);
    let mut out =
        "+-------------------------------------+-------------------------------------+\n".to_owned();
    out.append("| OLD                                 | NEW                                 |\n");
    out.append("+-------------------------------------+-------------------------------------+\n");
    let ghost head = out@;
    proof {
        assert(head == spec_table_header());
    }
    let n = changes.len();
    let mut i: usize = 0;
    while i < n
        invariant
            n == changes@.len(),
            cv == change_views(changes@),
            cv.len() == n,
            i <= n,
            head == spec_table_header(),
            out@ == head + spec_table_rows(cv.subrange(0, i as int)),
        decreases n - i,
    {
        proof {
            assert(cv.subrange(0, i + 1).drop_last() =~= cv.subrange(0, i as int));
            assert(cv.subrange(0, i + 1).last() == cv[i as int]);
            assert(cv[i as int] == (changes@[i as int].0, changes@[i as int].1@));
        }
        let text = changes[i].1.as_str();
        let marker = match changes[i].0 {
            DiffChangeType::Equal => " ",
            DiffChangeType::Insert => "+",
            DiffChangeType::Delete => "-",
        };
        let left = match changes[i].0 {
            DiffChangeType::Insert => cell(""),
            _ => cell(text),
        };
        let right = match changes[i].0 {
            DiffChangeType::Delete => cell(""),
            _ => cell(text),
        };
        proof {
            reveal_strlit("");
            assert(""@ =~= Seq::<char>::empty());
        }
        out.append("|");
        out.append(marker);
        out.append("| ");
        out.append(left.as_str());
        out.append(" | ");
        out.append(right.as_str());
        out.append(" |\n");
        i = i + 1;
    }
    proof {
        assert(cv.subrange(0, n as int) =~= cv);
    }
    out.append("+-------------------------------------+-------------------------------------+\n");
    out
}

/// Generate a side-by-side diff view of two texts.
pub fn side_by_side_diff(old: &str, new: &str) -> (r: String)
    ensures
        r@ == spec_side_by_side(line_diff_of(old@, new@)),
{
    let changes = diff_lines(old, new);
    render_side_by_side(&changes)
}

} // verus!
