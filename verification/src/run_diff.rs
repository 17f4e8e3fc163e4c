//! A Run's Diff against the baselines captured before its side effects: which baseline a file
//! gets, what the current state of a file is when only metadata can be read, and which files
//! the Diff lists, with full replacement diffs for the text files too large to render.

use vstd::prelude::*;

use crate::file_diff::{
    append_full_replacement_diff, build_file_diff, content_text, file_diff, full_replacement, opt_text, same_file,
    same_state, status_is_added, added_status, FileDiffSummary, FileMaterialization,
};
use crate::text::{chars_of, starts_with, string_from_chars};

verus! {

/// One entry of the checkout's Git status, as the Workspace Host reports it.
#[derive(Debug)]
pub struct GitStatusEntry {
    pub path: String,
    pub previous_path: Option<String>,
    pub index_status: char,
    pub worktree_status: char,
    pub current_hash: Option<String>,
    pub current_mode: Option<String>,
    pub current_size: Option<u64>,
    pub current_binary: bool,
}

/// Where the baseline of a file changed by a process comes from.
#[derive(Debug)]
pub enum BaselineSource {
    /// The file was added: its baseline is that it did not exist.
    Absent,
    /// The file's HEAD blob, at its previous path when it was renamed.
    Head(String),
}

/// Added files start from nothing; others from HEAD, at the path they had there.
pub fn exec_baseline_source(entry: &GitStatusEntry) -> (out: BaselineSource)
    ensures
        match out {
            BaselineSource::Absent => added_status(entry.index_status, entry.worktree_status),
            BaselineSource::Head(p) => !added_status(entry.index_status, entry.worktree_status) && p@ == match entry.previous_path {
                Some(q) => q@,
                None => entry.path@,
            },
        },
{
    if status_is_added(entry.index_status, entry.worktree_status) {
        BaselineSource::Absent
    } else {
        match &entry.previous_path {
            Some(p) => BaselineSource::Head(p.clone()),
            None => BaselineSource::Head(entry.path.clone()),
        }
    }
}

/// A file that the host may not read (outside the checkout) as its status describes it: its
/// hash, mode, size and binary flag, without content.
pub fn current_from_status(entry: &GitStatusEntry) -> (out: FileMaterialization)
    ensures
        out.exists == entry.current_hash is Some,
        out.content is None,
        opt_text(out.hash) == opt_text(entry.current_hash),
        opt_text(out.mode) == opt_text(entry.current_mode),
        out.size == entry.current_size,
        out.binary == entry.current_binary,
{
    FileMaterialization {
        exists: entry.current_hash.is_some(),
        content: None,
        hash: entry.current_hash.clone(),
        mode: entry.current_mode.clone(),
        size: entry.current_size,
        binary: entry.current_binary,
    }
}

/// The content hash an entity tag carries: the tag without its `sha256:` prefix.
pub open spec fn etag_hash(etag: Seq<char>) -> Seq<char> {
    if etag.len() >= 7 && etag.take(7) == "sha256:"@ {
        etag.skip(7)
    } else {
        etag
    }
}

pub fn chunk_hash(etag: &str) -> (out: String)
    ensures
        out@ == etag_hash(etag@),
{
    proof {
        reveal_strlit("sha256:");
    }
    let chars = chars_of(etag);
    if starts_with(etag, "sha256:") {
        let mut rest: Vec<char> = Vec::new();
        let mut i: usize = 7;
        while i < chars.len()
            invariant
                chars@ == etag@,
                7 <= i <= chars@.len(),
                rest@ == etag@.subrange(7, i as int),
            decreases chars@.len() - i,
        {
            rest.push(chars[i]);
            assert(rest@ =~= etag@.subrange(7, i + 1));
            i = i + 1;
        }
        assert(etag@.subrange(7, chars@.len() as int) =~= etag@.skip(7));
        string_from_chars(&rest)
    } else {
        etag.to_owned()
    }
}

/// What the Diff knows of one baselined file: where it is shown, where it came from, its
/// baseline and its current state.
#[derive(Debug)]
pub struct DiffEntry {
    pub display_path: String,
    pub previous_path: Option<String>,
    pub previous: FileMaterialization,
    pub current: FileMaterialization,
}

/// The files of a Run's Diff, the full replacement diffs of the text files too large to render
/// (path and rendered text), and whether any file was too large.
#[derive(Debug)]
pub struct RunDiffFiles {
    pub files: Vec<FileDiffSummary>,
    pub full_diffs: Vec<(String, String)>,
    pub truncated: bool,
}

/// The entries whose file changed since its baseline.
pub open spec fn changed(entries: Seq<DiffEntry>) -> Seq<DiffEntry> {
    entries.filter(|e: DiffEntry| !same_state(e.previous, e.current))
}

pub open spec fn full_text(e: DiffEntry) -> Seq<char> {
    full_replacement(e.display_path@, content_text(e.previous.content), content_text(e.current.content))
}

/// The full replacement diffs owed for the first `n` changed entries and their files.
pub open spec fn full_diffs_of(changed: Seq<DiffEntry>, files: Seq<FileDiffSummary>, n: int) -> Seq<(Seq<char>, Seq<char>)>
    decreases n,
{
    if n <= 0 {
        Seq::empty()
    } else {
        let rest = full_diffs_of(changed, files, n - 1);
        if files[n - 1].too_large && !files[n - 1].binary {
            rest.push((changed[n - 1].display_path@, full_text(changed[n - 1])))
        } else {
            rest
        }
    }
}

pub open spec fn pair_views(v: Seq<(String, String)>) -> Seq<(Seq<char>, Seq<char>)> {
    v.map_values(|p: (String, String)| (p.0@, p.1@))
}

/// The Diff of a Run: every baselined file that changed, in order, with its file diff; a full
/// replacement diff for each text file too large to render; truncated when any file was too
/// large.
pub fn collect_run_diff(entries: &Vec<DiffEntry>) -> (out: RunDiffFiles)
    ensures
        out.files@.len() == changed(entries@).len(),
        forall|k: int| 0 <= k < out.files@.len() ==> {
            let e = #[trigger] changed(entries@)[k];
            file_diff(e.display_path@, opt_text(e.previous_path), e.previous, e.current, out.files@[k])
        },
        pair_views(out.full_diffs@) == full_diffs_of(changed(entries@), out.files@, out.files@.len() as int),
        out.truncated == exists|k: int| 0 <= k < out.files@.len() && (#[trigger] out.files@[k]).too_large,
{
    let ghost pred = |e: DiffEntry| !same_state(e.previous, e.current);
    let mut files: Vec<FileDiffSummary> = Vec::new();
    let mut full_diffs: Vec<(String, String)> = Vec::new();
    let mut truncated = false;
    let mut i: usize = 0;
    while i < entries.len()
        invariant
            i <= entries@.len(),
            pred == (|e: DiffEntry| !same_state(e.previous, e.current)),
            files@.len() == entries@.take(i as int).filter(pred).len(),
            forall|k: int| 0 <= k < files@.len() ==> {
                let e = #[trigger] entries@.take(i as int).filter(pred)[k];
                file_diff(e.display_path@, opt_text(e.previous_path), e.previous, e.current, files@[k])
            },
            pair_views(full_diffs@) == full_diffs_of(entries@.take(i as int).filter(pred), files@, files@.len() as int),
            truncated == exists|k: int| 0 <= k < files@.len() && (#[trigger] files@[k]).too_large,
        decreases entries@.len() - i,
    {
        let e = &entries[i];
        let ghost before = entries@.take(i as int).filter(pred);
        let ghost files_before = files@;
        let ghost full_before = full_diffs@;
        proof {
            assert(entries@.take(i + 1) =~= entries@.take(i as int).push(entries@[i as int]));
            entries@.take(i as int).lemma_filter_push(entries@[i as int], pred);
        }
        if !same_file(&e.previous, &e.current) {
            let previous_path = match &e.previous_path {
                Some(p) => Some(p.as_str()),
                None => None,
            };
            let file = build_file_diff(e.display_path.as_str(), previous_path, &e.previous, &e.current);
            let full = file.too_large && !file.binary;
            let too_large = file.too_large;
            if full {
                let mut rendered = String::new();
                let prev_content = match &e.previous.content {
                    Some(b) => Some(b),
                    None => None,
                };
                let cur_content = match &e.current.content {
                    Some(b) => Some(b),
                    None => None,
                };
                append_full_replacement_diff(&mut rendered, e.display_path.as_str(), prev_content, cur_content);
                full_diffs.push((e.display_path.clone(), rendered));
            }
            files.push(file);
            truncated = truncated || too_large;
            proof {
                let after = entries@.take(i + 1).filter(pred);
                assert(after == before.push(entries@[i as int]));
                assert forall|k: int| 0 <= k < files@.len() implies {
                    let x = #[trigger] after[k];
                    file_diff(x.display_path@, opt_text(x.previous_path), x.previous, x.current, files@[k])
                } by {
                    if k < files_before.len() {
                        assert(after[k] == before[k]);
                        assert(files@[k] == files_before[k]);
                    }
                }
                assert forall|m: int| 0 <= m <= files_before.len() implies full_diffs_of(after, files@, m) == full_diffs_of(
                    before,
                    files_before,
                    m,
                ) by {
                    lemma_full_diffs_prefix(after, files@, before, files_before, m);
                }
                assert(full_diffs_of(after, files@, files@.len() as int) == full_diffs_of(after, files@, files_before.len() as int)
                    + if full { seq![(entries@[i as int].display_path@, full_text(entries@[i as int]))] } else { Seq::empty() });
                if full {
                    assert(pair_views(full_diffs@) =~= pair_views(full_before).push(
                        (entries@[i as int].display_path@, full_text(entries@[i as int])),
                    ));
                } else {
                    assert(pair_views(full_diffs@) =~= pair_views(full_before));
                }
                if too_large {
                    assert(files@[files_before.len() as int].too_large);
                }
                assert(truncated == exists|k: int| 0 <= k < files@.len() && (#[trigger] files@[k]).too_large) by {
                    if exists|k: int| 0 <= k < files@.len() && (#[trigger] files@[k]).too_large {
                        let k = choose|k: int| 0 <= k < files@.len() && (#[trigger] files@[k]).too_large;
                        if k < files_before.len() {
                            assert(files_before[k] == files@[k]);
                        }
                    }
                    if exists|k: int| 0 <= k < files_before.len() && (#[trigger] files_before[k]).too_large {
                        let k = choose|k: int| 0 <= k < files_before.len() && (#[trigger] files_before[k]).too_large;
                        assert(files@[k] == files_before[k]);
                    }
                }
            }
        }
        i = i + 1;
    }
    assert(entries@.take(i as int) =~= entries@);
    RunDiffFiles { files, full_diffs, truncated }
}

proof fn lemma_full_diffs_prefix(
    changed: Seq<DiffEntry>,
    files: Seq<FileDiffSummary>,
    changed_before: Seq<DiffEntry>,
    files_before: Seq<FileDiffSummary>,
    m: int,
)
    requires
        0 <= m <= files_before.len(),
        files_before.len() <= files.len(),
        files_before.len() <= changed_before.len() || m <= changed_before.len(),
        forall|k: int| 0 <= k < files_before.len() ==> files[k] == files_before[k],
        forall|k: int| 0 <= k < m ==> changed[k] == changed_before[k],
    ensures
        full_diffs_of(changed, files, m) == full_diffs_of(changed_before, files_before, m),
    decreases m,
{
    if m > 0 {
        lemma_full_diffs_prefix(changed, files, changed_before, files_before, m - 1);
    }
}

} // verus!
