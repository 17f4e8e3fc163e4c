//! Run-scoped file diffs: how a file changed between its pre-side-effect baseline and now.

use vstd::prelude::*;

use base64::Engine;

use crate::text::{decimal, decimal_string, push_str};

verus! {

/// Most rendered diff lines.
pub const MAX_RENDERED_DIFF_LINES: usize = 10000;

/// Largest line matrix a text diff is computed for.
pub const MAX_DIFF_MATRIX_CELLS: usize = 5000000;

/// Largest baseline kept with its bytes.
pub const MAX_BASELINE_BYTES: u64 = 8388608;

/// A file's state at one moment.
#[derive(Debug)]
pub struct FileMaterialization {
    pub exists: bool,
    pub content: Option<Vec<u8>>,
    pub hash: Option<String>,
    pub mode: Option<String>,
    pub size: Option<u64>,
    pub binary: bool,
}

pub open spec fn opt_text(v: Option<String>) -> Option<Seq<char>> {
    match v {
        Some(s) => Some(s@),
        None => None,
    }
}

/// Two states of a file are the same when both exist or both do not, their hashes agree, and
/// their modes agree where both are known.
pub open spec fn same_state(previous: FileMaterialization, current: FileMaterialization) -> bool {
    &&& previous.exists == current.exists
    &&& opt_text(previous.hash) == opt_text(current.hash)
    &&& (previous.mode is None || current.mode is None || opt_text(previous.mode) == opt_text(current.mode))
}

fn same_text(a: &Option<String>, b: &Option<String>) -> (eq: bool)
    ensures
        eq == (opt_text(*a) == opt_text(*b)),
{
    match (a, b) {
        (Some(x), Some(y)) => crate::text::str_eq(x.as_str(), y.as_str()),
        (None, None) => true,
        _ => false,
    }
}

pub fn same_file(previous: &FileMaterialization, current: &FileMaterialization) -> (b: bool)
    ensures
        b == same_state(*previous, *current),
{
    previous.exists == current.exists && same_text(&previous.hash, &current.hash) && (previous.mode.is_none()
        || current.mode.is_none() || same_text(&previous.mode, &current.mode))
}

/// A Git status entry marks an added file when either status is `?` or `A`.
pub open spec fn added_status(index_status: char, worktree_status: char) -> bool {
    index_status == '?' || index_status == 'A' || worktree_status == '?' || worktree_status == 'A'
}

pub fn status_is_added(index_status: char, worktree_status: char) -> (b: bool)
    ensures
        b == added_status(index_status, worktree_status),
{
    index_status == '?' || index_status == 'A' || worktree_status == '?' || worktree_status == 'A'
}

// ---------------------------------------------------------------------------------------------
// Bytes and text
// ---------------------------------------------------------------------------------------------

/// The text `bytes` encode as UTF-8, if they are valid UTF-8.
pub uninterp spec fn utf8_decoded(bytes: Seq<u8>) -> Option<Seq<char>>;

/// Calls `std::str::from_utf8`. Trusted: the text is the UTF-8 decoding of `bytes`, or `None`
/// when they are not valid UTF-8; the decoding itself is left to the name `utf8_decoded`.
#[verifier::external_body]
fn utf8_text(bytes: &[u8]) -> (out: Option<String>)
    ensures
        match out {
            Some(s) => utf8_decoded(bytes@) == Some(s@),
            None => utf8_decoded(bytes@) is None,
        },
{
    std::str::from_utf8(bytes).ok().map(|text| text.to_owned())
}

/// The text of optional content, empty when absent or not UTF-8.
pub open spec fn content_text(content: Option<Vec<u8>>) -> Seq<char> {
    match content {
        Some(bytes) => match utf8_decoded(bytes@) {
            Some(t) => t,
            None => Seq::empty(),
        },
        None => Seq::empty(),
    }
}

fn text_of(content: &Option<Vec<u8>>) -> (out: String)
    ensures
        out@ == content_text(*content),
{
    match content {
        Some(bytes) => match utf8_text(bytes.as_slice()) {
            Some(t) => t,
            None => String::new(),
        },
        None => String::new(),
    }
}

/// The lines of a text as `str::lines` yields them: split at `\n`, a `\r` before the `\n`
/// dropped, and no empty line after a final `\n`.
pub open spec fn text_lines(text: Seq<char>) -> Seq<Seq<char>> {
    let pieces = crate::agents::split_on(text, '\n');
    let terminated = pieces.drop_last().map_values(
        |p: Seq<char>| if p.len() > 0 && p.last() == '\r' { p.drop_last() } else { p },
    );
    if pieces.last().len() == 0 { terminated } else { terminated.push(pieces.last()) }
}

/// The lines of `text`, as `str::lines` yields them.
pub fn lines_of(text: &str) -> (out: Vec<Vec<char>>)
    ensures
        crate::agents::views(out@) == text_lines(text@),
{
    let chars = crate::text::chars_of(text);
    let pieces = crate::agents::split_chars(&chars, '\n');
    proof {
        crate::agents::lemma_split_nonempty(text@, '\n');
    }
    let ghost pv = crate::agents::views(pieces@);
    let ghost terminated = pv.drop_last().map_values(
        |p: Seq<char>| if p.len() > 0 && p.last() == '\r' { p.drop_last() } else { p },
    );
    let n = pieces.len();
    assert(pv.len() == n);
    let mut out: Vec<Vec<char>> = Vec::new();
    let mut i: usize = 0;
    while i + 1 < n
        invariant
            pv == crate::agents::views(pieces@),
            pv.len() == n,
            n >= 1,
            i + 1 <= n,
            terminated == pv.drop_last().map_values(
                |p: Seq<char>| if p.len() > 0 && p.last() == '\r' { p.drop_last() } else { p },
            ),
            crate::agents::views(out@) == terminated.take(i as int),
        decreases n - i,
    {
        let piece = &pieces[i];
        let mut line: Vec<char> = Vec::new();
        let keep = if piece.len() > 0 && piece[piece.len() - 1] == '\r' { piece.len() - 1 } else { piece.len() };
        let mut k: usize = 0;
        while k < keep
            invariant
                keep <= piece@.len(),
                k <= keep,
                line@ == piece@.take(k as int),
            decreases keep - k,
        {
            line.push(piece[k]);
            assert(line@ =~= piece@.take(k + 1));
            k = k + 1;
        }
        proof {
            assert(pv[i as int] == piece@);
            if piece@.len() > 0 && piece@.last() == '\r' {
                assert(line@ =~= piece@.drop_last());
            } else {
                assert(line@ =~= piece@);
            }
        }
        let ghost before = crate::agents::views(out@);
        out.push(line);
        assert(crate::agents::views(out@) =~= before.push(line@));
        assert(crate::agents::views(out@) =~= terminated.take(i + 1));
        i = i + 1;
    }
    assert(terminated.take(i as int) =~= terminated);
    let last = &pieces[n - 1];
    if last.len() > 0 {
        let mut copy: Vec<char> = Vec::new();
        let mut k: usize = 0;
        while k < last.len()
            invariant
                k <= last@.len(),
                copy@ == last@.take(k as int),
            decreases last@.len() - k,
        {
            copy.push(last[k]);
            assert(copy@ =~= last@.take(k + 1));
            k = k + 1;
        }
        assert(copy@ =~= last@);
        let ghost before = crate::agents::views(out@);
        out.push(copy);
        assert(crate::agents::views(out@) =~= before.push(pv.last()));
    }
    out
}

/// Number of lines of a text.
pub fn line_count(text: &str) -> (n: usize)
    ensures
        n == text_lines(text@).len(),
{
    let lines = lines_of(text);
    assert(crate::agents::views(lines@).len() == lines@.len());
    lines.len()
}

// ---------------------------------------------------------------------------------------------
// Full replacement diffs
// ---------------------------------------------------------------------------------------------

/// Each line of `lines` behind `mark`, ended by a newline.
pub open spec fn marked_lines(lines: Seq<Seq<char>>, mark: char) -> Seq<char>
    decreases lines.len(),
{
    if lines.len() == 0 {
        Seq::empty()
    } else {
        marked_lines(lines.drop_last(), mark) + seq![mark] + lines.last() + seq!['\n']
    }
}

/// A diff that removes every old line and adds every new one.
pub open spec fn full_replacement(path: Seq<char>, old: Seq<char>, new: Seq<char>) -> Seq<char> {
    "--- a/"@ + path + "\n+++ b/"@ + path + "\n@@ -1,"@ + decimal(text_lines(old).len()) + " +1,"@ + decimal(
        text_lines(new).len(),
    ) + " @@\n"@ + marked_lines(text_lines(old), '-') + marked_lines(text_lines(new), '+')
}

fn push_marked(output: &mut String, lines: &Vec<Vec<char>>, mark: char)
    ensures
        final(output)@ == old(output)@ + marked_lines(crate::agents::views(lines@), mark),
{
    let ghost start = output@;
    let ghost lv = crate::agents::views(lines@);
    let mut i: usize = 0;
    assert(lv.take(0) =~= Seq::<Seq<char>>::empty());
    assert(output@ =~= start + marked_lines(lv.take(0), mark));
    while i < lines.len()
        invariant
            lv == crate::agents::views(lines@),
            i <= lines@.len(),
            output@ == start + marked_lines(lv.take(i as int), mark),
        decreases lines@.len() - i,
    {
        proof {
            assert(lv.take(i + 1).drop_last() =~= lv.take(i as int));
            assert(lv.take(i + 1).last() == lines@[i as int]@);
        }
        output.push(mark);
        crate::text::push_chars(output, &lines[i], 0, lines[i].len());
        output.push('\n');
        assert(output@ =~= start + marked_lines(lv.take(i + 1), mark));
        i = i + 1;
    }
    assert(lv.take(i as int) =~= lv);
}

/// Appends a diff that replaces the whole previous content with the whole current content
/// (content that is absent or not UTF-8 counts as empty).
pub fn append_full_replacement_diff(output: &mut String, path: &str, previous: Option<&Vec<u8>>, current: Option<&Vec<u8>>)
    ensures
        final(output)@ == old(output)@ + full_replacement(
            path@,
            match previous {
                Some(b) => content_text(Some(*b)),
                None => Seq::empty(),
            },
            match current {
                Some(b) => content_text(Some(*b)),
                None => Seq::empty(),
            },
        ),
{
    let old_text = match previous {
        Some(b) => match utf8_text(b.as_slice()) {
            Some(t) => t,
            None => String::new(),
        },
        None => String::new(),
    };
    let new_text = match current {
        Some(b) => match utf8_text(b.as_slice()) {
            Some(t) => t,
            None => String::new(),
        },
        None => String::new(),
    };
    let old_lines = lines_of(old_text.as_str());
    let new_lines = lines_of(new_text.as_str());
    assert(crate::agents::views(old_lines@).len() == old_lines@.len());
    assert(crate::agents::views(new_lines@).len() == new_lines@.len());
    let ghost start = output@;
    push_str(output, "--- a/");
    push_str(output, path);
    push_str(output, "\n+++ b/");
    push_str(output, path);
    push_str(output, "\n@@ -1,");
    crate::text::push_decimal(output, old_lines.len() as u64);
    push_str(output, " +1,");
    crate::text::push_decimal(output, new_lines.len() as u64);
    push_str(output, " @@\n");
    push_marked(output, &old_lines, '-');
    push_marked(output, &new_lines, '+');
    assert(output@ =~= start + full_replacement(path@, old_text@, new_text@));
}

// ---------------------------------------------------------------------------------------------
// Text diffs
// ---------------------------------------------------------------------------------------------

/// How a file changed.
#[derive(PartialEq, Eq, Structural, Clone, Copy, Debug)]
pub enum FileDiffStatus {
    Added,
    Modified,
    Deleted,
    Renamed,
    TypeChanged,
    Binary,
}

/// One rendered diff line.
#[derive(Debug)]
pub struct DiffLine {
    pub kind: String,
    pub old_line: Option<u32>,
    pub new_line: Option<u32>,
    pub text: String,
}

#[derive(Debug)]
pub struct DiffHunk {
    pub header: String,
    pub lines: Vec<DiffLine>,
}

/// The diff of one file.
#[derive(Debug)]
pub struct FileDiffSummary {
    pub path: String,
    pub previous_path: Option<String>,
    pub status: FileDiffStatus,
    pub additions: u32,
    pub deletions: u32,
    pub binary: bool,
    pub too_large: bool,
    pub hunks: Vec<DiffHunk>,
}

/// A line only the old text has, only the new text has, or both share.
#[derive(Debug)]
pub enum LineChange {
    Removed(String),
    Added(String),
    Kept(String),
}

pub enum LineChangeView {
    Removed(Seq<char>),
    Added(Seq<char>),
    Kept(Seq<char>),
}

pub open spec fn change_view(c: LineChange) -> LineChangeView {
    match c {
        LineChange::Removed(t) => LineChangeView::Removed(t@),
        LineChange::Added(t) => LineChangeView::Added(t@),
        LineChange::Kept(t) => LineChangeView::Kept(t@),
    }
}

/// The line changes the `diff` crate computes between two texts.
pub uninterp spec fn line_diff(old: Seq<char>, new: Seq<char>) -> Seq<LineChangeView>;

/// Calls `diff::lines`. Trusted: the changes are those the crate computes for the two texts,
/// a function of them alone; which alignment it picks is left to the name `line_diff`.
#[verifier::external_body]
fn line_changes(old: &str, new: &str) -> (out: Vec<LineChange>)
    ensures
        out@.map_values(|c: LineChange| change_view(c)) == line_diff(old@, new@),
{
    diff::lines(old, new).into_iter().map(|change| match change {
        diff::Result::Left(text) => LineChange::Removed(text.to_owned()),
        diff::Result::Right(text) => LineChange::Added(text.to_owned()),
        diff::Result::Both(text, _) => LineChange::Kept(text.to_owned()),
    }).collect()
}

pub open spec fn sat_inc(n: u32) -> u32 {
    if n == u32::MAX { n } else { (n + 1) as u32 }
}

/// A rendered line: kind, old line number, new line number, text.
pub type DiffLineView = (Seq<char>, Option<u32>, Option<u32>, Seq<char>);

pub open spec fn diff_line_view(l: DiffLine) -> DiffLineView {
    (l.kind@, l.old_line, l.new_line, l.text@)
}

/// The rendering of the first `n` changes: next old and new line numbers, additions,
/// deletions (all counting from 1 or 0 and saturating), and the rendered lines.
pub open spec fn rendered(changes: Seq<LineChangeView>, n: int) -> (u32, u32, u32, u32, Seq<DiffLineView>)
    decreases n,
{
    if n <= 0 || n > changes.len() {
        (1, 1, 0, 0, Seq::empty())
    } else {
        let (old_line, new_line, additions, deletions, lines) = rendered(changes, n - 1);
        match changes[n - 1] {
            LineChangeView::Removed(t) => (
                sat_inc(old_line),
                new_line,
                additions,
                sat_inc(deletions),
                lines.push(("deletion"@, Some(old_line), None, t)),
            ),
            LineChangeView::Added(t) => (
                old_line,
                sat_inc(new_line),
                sat_inc(additions),
                deletions,
                lines.push(("addition"@, None, Some(new_line), t)),
            ),
            LineChangeView::Kept(t) => (
                sat_inc(old_line),
                sat_inc(new_line),
                additions,
                deletions,
                lines.push(("context"@, Some(old_line), Some(new_line), t)),
            ),
        }
    }
}

pub open spec fn sat_mul_usize(a: nat, b: nat) -> nat {
    if a * b > usize::MAX { usize::MAX as nat } else { a * b }
}

pub open spec fn sat_add_usize(a: nat, b: nat) -> nat {
    if a + b > usize::MAX { usize::MAX as nat } else { a + b }
}

/// A diff too large to render: its line matrix or its line total exceeds the limits.
pub open spec fn diff_too_large(old_lines: nat, new_lines: nat) -> bool {
    sat_mul_usize(old_lines, new_lines) > MAX_DIFF_MATRIX_CELLS || sat_add_usize(old_lines, new_lines) > MAX_RENDERED_DIFF_LINES
}

pub open spec fn count_u32(n: nat) -> u32 {
    if n > u32::MAX { u32::MAX } else { n as u32 }
}

/// The text diff of a file: counts only when too large, else one hunk of every line change.
pub open spec fn text_diff(path: Seq<char>, old: Seq<char>, new: Seq<char>, status: FileDiffStatus, summary: FileDiffSummary) -> bool {
    let old_lines = text_lines(old).len();
    let new_lines = text_lines(new).len();
    &&& summary.path@ == path
    &&& summary.previous_path is None
    &&& summary.status == status
    &&& !summary.binary
    &&& if diff_too_large(old_lines, new_lines) {
        &&& summary.too_large
        &&& summary.additions == count_u32(new_lines)
        &&& summary.deletions == count_u32(old_lines)
        &&& summary.hunks@.len() == 0
    } else {
        let changes = line_diff(old, new);
        let (_, _, additions, deletions, lines) = rendered(changes, changes.len() as int);
        &&& !summary.too_large
        &&& summary.additions == additions
        &&& summary.deletions == deletions
        &&& summary.hunks@.len() == 1
        &&& summary.hunks@[0].header@ == "@@ -1,"@ + decimal(old_lines) + " +1,"@ + decimal(new_lines) + " @@"@
        &&& summary.hunks@[0].lines@.map_values(|l: DiffLine| diff_line_view(l)) == lines
    }
}

fn inc(n: u32) -> (out: u32)
    ensures
        out == sat_inc(n),
{
    if n == u32::MAX { n } else { n + 1 }
}

pub fn build_text_diff(path: &str, old: &str, new: &str, status: FileDiffStatus) -> (out: FileDiffSummary)
    ensures
        text_diff(path@, old@, new@, status, out),
{
    let old_lines = line_count(old);
    let new_lines = line_count(new);
    let product: usize = if old_lines == 0 || new_lines <= usize::MAX / old_lines {
        proof {
            if old_lines > 0 {
                assert(old_lines * new_lines <= old_lines * (usize::MAX / old_lines)) by (nonlinear_arith)
                    requires
                        new_lines <= usize::MAX / old_lines,
                        old_lines > 0;
                assert(old_lines * (usize::MAX / old_lines) <= usize::MAX) by (nonlinear_arith)
                    requires
                        old_lines > 0;
            }
        }
        old_lines * new_lines
    } else {
        proof {
            assert(old_lines * new_lines > usize::MAX) by (nonlinear_arith)
                requires
                    old_lines > 0,
                    new_lines > usize::MAX / old_lines;
        }
        usize::MAX
    };
    let total: usize = if old_lines <= usize::MAX - new_lines { old_lines + new_lines } else { usize::MAX };
    if product > MAX_DIFF_MATRIX_CELLS || total > MAX_RENDERED_DIFF_LINES {
        return FileDiffSummary {
            path: path.to_owned(),
            previous_path: None,
            status,
            additions: if new_lines <= 4294967295usize { new_lines as u32 } else { u32::MAX },
            deletions: if old_lines <= 4294967295usize { old_lines as u32 } else { u32::MAX },
            binary: false,
            too_large: true,
            hunks: Vec::new(),
        };
    }
    let changes = line_changes(old, new);
    let ghost cv = changes@.map_values(|c: LineChange| change_view(c));
    let mut old_line: u32 = 1;
    let mut new_line: u32 = 1;
    let mut additions: u32 = 0;
    let mut deletions: u32 = 0;
    let mut lines: Vec<DiffLine> = Vec::new();
    let mut i: usize = 0;
    assert(lines@.map_values(|l: DiffLine| diff_line_view(l)) =~= Seq::<DiffLineView>::empty());
    while i < changes.len()
        invariant
            cv == changes@.map_values(|c: LineChange| change_view(c)),
            i <= changes@.len(),
            rendered(cv, i as int) == (old_line, new_line, additions, deletions, lines@.map_values(
                |l: DiffLine| diff_line_view(l),
            )),
        decreases changes@.len() - i,
    {
        let ghost before = lines@.map_values(|l: DiffLine| diff_line_view(l));
        match &changes[i] {
            LineChange::Removed(text) => {
                lines.push(DiffLine { kind: "deletion".to_owned(), old_line: Some(old_line), new_line: None, text: text.clone() });
                deletions = inc(deletions);
                old_line = inc(old_line);
            },
            LineChange::Added(text) => {
                lines.push(DiffLine { kind: "addition".to_owned(), old_line: None, new_line: Some(new_line), text: text.clone() });
                additions = inc(additions);
                new_line = inc(new_line);
            },
            LineChange::Kept(text) => {
                lines.push(DiffLine { kind: "context".to_owned(), old_line: Some(old_line), new_line: Some(new_line), text: text.clone() });
                old_line = inc(old_line);
                new_line = inc(new_line);
            },
        }
        assert(lines@.map_values(|l: DiffLine| diff_line_view(l)) =~= before.push(
            diff_line_view(lines@[lines@.len() - 1]),
        ));
        i = i + 1;
    }
    assert(cv.len() == changes@.len());
    let mut header = "@@ -1,".to_owned();
    crate::text::push_decimal(&mut header, old_lines as u64);
    push_str(&mut header, " +1,");
    crate::text::push_decimal(&mut header, new_lines as u64);
    push_str(&mut header, " @@");
    assert(header@ =~= "@@ -1,"@ + decimal(old_lines as nat) + " +1,"@ + decimal(new_lines as nat) + " @@"@);
    let hunks = vec![DiffHunk { header, lines }];
    FileDiffSummary {
        path: path.to_owned(),
        previous_path: None,
        status,
        additions,
        deletions,
        binary: false,
        too_large: false,
        hunks,
    }
}

// ---------------------------------------------------------------------------------------------
// File diffs
// ---------------------------------------------------------------------------------------------

/// How a file changed: a previous path makes a rename; else appearing is an addition,
/// disappearing a deletion; a changed mode of an existing file changes its type; binary
/// content is binary; anything else is a modification.
pub open spec fn diff_status(previous_path: bool, previous: FileMaterialization, current: FileMaterialization) -> FileDiffStatus {
    let binary = previous.binary || current.binary;
    let type_changed = previous.exists && current.exists && previous.mode is Some && current.mode is Some
        && opt_text(previous.mode) != opt_text(current.mode);
    if previous_path {
        FileDiffStatus::Renamed
    } else if !previous.exists && current.exists {
        FileDiffStatus::Added
    } else if previous.exists && !current.exists {
        FileDiffStatus::Deleted
    } else if type_changed {
        FileDiffStatus::TypeChanged
    } else if binary {
        FileDiffStatus::Binary
    } else {
        FileDiffStatus::Modified
    }
}

/// The diff of one file between its baseline and now: binary files, and existing files whose
/// bytes were not kept, get no hunks; others get the text diff of their contents.
pub open spec fn file_diff(path: Seq<char>, previous_path: Option<Seq<char>>, previous: FileMaterialization, current: FileMaterialization, summary: FileDiffSummary) -> bool {
    let binary = previous.binary || current.binary;
    let status = diff_status(previous_path is Some, previous, current);
    &&& summary.path@ == path
    &&& opt_text(summary.previous_path) == previous_path
    &&& summary.status == status
    &&& if binary || (previous.content is None && previous.exists) || (current.content is None && current.exists) {
        &&& summary.additions == 0
        &&& summary.deletions == 0
        &&& summary.binary == binary
        &&& summary.too_large == !binary
        &&& summary.hunks@.len() == 0
    } else {
        text_diff(path, content_text(previous.content), content_text(current.content), status, FileDiffSummary {
            previous_path: None,
            ..summary
        })
    }
}

pub fn build_file_diff(path: &str, previous_path: Option<&str>, previous: &FileMaterialization, current: &FileMaterialization) -> (out: FileDiffSummary)
    ensures
        file_diff(
            path@,
            match previous_path {
                Some(p) => Some(p@),
                None => None,
            },
            *previous,
            *current,
            out,
        ),
{
    let binary = previous.binary || current.binary;
    let type_changed = previous.exists && current.exists && previous.mode.is_some() && current.mode.is_some()
        && !same_text(&previous.mode, &current.mode);
    let status = if previous_path.is_some() {
        FileDiffStatus::Renamed
    } else if !previous.exists && current.exists {
        FileDiffStatus::Added
    } else if previous.exists && !current.exists {
        FileDiffStatus::Deleted
    } else if type_changed {
        FileDiffStatus::TypeChanged
    } else if binary {
        FileDiffStatus::Binary
    } else {
        FileDiffStatus::Modified
    };
    let previous_owned = match previous_path {
        Some(p) => Some(p.to_owned()),
        None => None,
    };
    if binary || (previous.content.is_none() && previous.exists) || (current.content.is_none() && current.exists) {
        return FileDiffSummary {
            path: path.to_owned(),
            previous_path: previous_owned,
            status,
            additions: 0,
            deletions: 0,
            binary,
            too_large: !binary,
            hunks: Vec::new(),
        };
    }
    let old = text_of(&previous.content);
    let new = text_of(&current.content);
    let mut rendered = build_text_diff(path, old.as_str(), new.as_str(), status);
    rendered.previous_path = previous_owned;
    rendered
}

// ---------------------------------------------------------------------------------------------
// Baselines from Git
// ---------------------------------------------------------------------------------------------

/// A blob of the HEAD commit as the Workspace Host returns it.
#[derive(Debug)]
pub struct GitBlob {
    pub byte_size: u64,
    pub data_base64: String,
    pub sha256: String,
    pub mode: String,
    pub binary: bool,
}

/// The bytes standard base64 text decodes to, or the decoder's error message.
pub uninterp spec fn base64_standard_decode(text: Seq<char>) -> Result<Seq<u8>, Seq<char>>;

/// Calls `base64::engine::general_purpose::STANDARD.decode`. Trusted: the result is the
/// crate's decoding of `text` (or its error rendered as text), a function of `text` alone; the
/// decoding is left to the name `base64_standard_decode`.
#[verifier::external_body]
fn decode_base64(text: &str) -> (out: Result<Vec<u8>, String>)
    ensures
        match out {
            Ok(bytes) => base64_standard_decode(text@) == Ok::<Seq<u8>, Seq<char>>(bytes@),
            Err(message) => base64_standard_decode(text@) == Err::<Seq<u8>, Seq<char>>(message@),
        },
{
    base64::engine::general_purpose::STANDARD.decode(text).map_err(|error| error.to_string())
}

/// A HEAD blob as a baseline: its bytes are kept up to `MAX_BASELINE_BYTES` and must decode.
pub fn materialize_git_blob(blob: GitBlob) -> (out: Result<FileMaterialization, String>)
    ensures
        match out {
            Ok(m) => {
                &&& m.exists
                &&& opt_text(m.hash) == Some(blob.sha256@)
                &&& opt_text(m.mode) == Some(blob.mode@)
                &&& m.size == Some(blob.byte_size)
                &&& m.binary == blob.binary
                &&& if blob.byte_size > MAX_BASELINE_BYTES {
                    m.content is None
                } else {
                    m.content is Some && base64_standard_decode(blob.data_base64@) == Ok::<Seq<u8>, Seq<char>>(
                        m.content.unwrap()@,
                    )
                }
            },
            Err(message) => blob.byte_size <= MAX_BASELINE_BYTES && base64_standard_decode(blob.data_base64@) is Err
                && message@ == "invalid Git baseline blob: "@ + base64_standard_decode(blob.data_base64@)->Err_0,
        },
{
    let content = if blob.byte_size > MAX_BASELINE_BYTES {
        None
    } else {
        match decode_base64(blob.data_base64.as_str()) {
            Ok(bytes) => Some(bytes),
            Err(error) => return Err(crate::text::concat("invalid Git baseline blob: ", error.as_str())),
        }
    };
    Ok(
        FileMaterialization {
            exists: true,
            content,
            hash: Some(blob.sha256),
            mode: Some(blob.mode),
            size: Some(blob.byte_size),
            binary: blob.binary,
        },
    )
}

/// A path key that ignores separators and case: backslashes become slashes, then the path is
/// lowercased.
pub uninterp spec fn unicode_lowercase(text: Seq<char>) -> Seq<char>;

/// Calls `str::to_lowercase`. Trusted: the result is the Unicode lowercase mapping of `text`,
/// a function of `text` alone; the mapping is left to the name `unicode_lowercase`.
#[verifier::external_body]
fn lowercase(text: &str) -> (out: String)
    ensures
        out@ == unicode_lowercase(text@),
{
    text.to_lowercase()
}

pub fn normalized_path_key(path: &str) -> (out: String)
    ensures
        out@ == unicode_lowercase(crate::agents::normalize_separators(path@)),
{
    let chars = crate::text::chars_of(path);
    let mut slashed = String::new();
    let mut i: usize = 0;
    while i < chars.len()
        invariant
            chars@ == path@,
            i <= chars@.len(),
            slashed@ == crate::agents::normalize_separators(path@).take(i as int),
        decreases chars@.len() - i,
    {
        let c = chars[i];
        slashed.push(if c == '\\' { '/' } else { c });
        assert(slashed@ =~= crate::agents::normalize_separators(path@).take(i + 1));
        i = i + 1;
    }
    assert(slashed@ =~= crate::agents::normalize_separators(path@));
    lowercase(slashed.as_str())
}

} // verus!
