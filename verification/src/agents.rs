//! AGENTS.md discovery: the checkout-relative directories from the root to a working
//! directory, the files looked up in each, and the byte budget that bounds the instructions.

use vstd::prelude::*;

use crate::digest::{hex_lower, sha256_hex, sha256_text};
use crate::text::{chars_of, concat, push_str, string_from_chars, utf8_len, utf8_width, char_utf8_width, lemma_utf8_len_prefix};

verus! {

/// Default byte budget for the assembled instructions.
pub const DEFAULT_AGENTS_MD_BUDGET: usize = 32768;

/// One AGENTS.md layer, from the checkout root down to the working directory.
#[derive(Debug)]
pub struct AgentInstructionLayer {
    pub relative_directory: String,
    pub source_path: String,
    pub content_hash: String,
    pub markdown: String,
}

/// The instruction layers of one working directory, with their revision.
#[derive(Debug)]
pub struct AgentsMdSnapshot {
    pub layers: Vec<AgentInstructionLayer>,
    pub revision: String,
    pub truncated: bool,
}

/// Why AGENTS.md could not be loaded.
#[derive(Debug)]
pub enum AgentsMdError {
    InvalidCwd,
    Host(String),
    InvalidResponse,
}

impl AgentsMdError {
    /// The error's message.
    pub fn message(&self) -> (out: String)
        ensures
            out@ == match self {
                AgentsMdError::InvalidCwd => "AGENTS.md cwd must be a checkout-relative directory"@,
                AgentsMdError::Host(detail) => "Workspace Host failed while reading AGENTS.md: "@ + detail@,
                AgentsMdError::InvalidResponse => "Workspace Host returned an invalid AGENTS.md response"@,
            },
    {
        match self {
            AgentsMdError::InvalidCwd => "AGENTS.md cwd must be a checkout-relative directory".to_owned(),
            AgentsMdError::Host(detail) => concat("Workspace Host failed while reading AGENTS.md: ", detail),
            AgentsMdError::InvalidResponse => "Workspace Host returned an invalid AGENTS.md response".to_owned(),
        }
    }
}

/// A file read from the checkout.
#[derive(Debug)]
pub struct AgentsFile {
    pub path: String,
    pub markdown: String,
    pub content_hash: String,
}

// ---------------------------------------------------------------------------------------------
// Working directory
// ---------------------------------------------------------------------------------------------

/// `s` with every backslash turned into a slash.
pub open spec fn normalize_separators(s: Seq<char>) -> Seq<char> {
    s.map_values(|c: char| if c == '\\' { '/' } else { c })
}

/// The pieces of `s` between occurrences of `sep` (one piece more than there are separators).
pub open spec fn split_on(s: Seq<char>, sep: char) -> Seq<Seq<char>>
    decreases s.len(),
{
    if s.len() == 0 {
        seq![Seq::<char>::empty()]
    } else {
        let init = split_on(s.drop_last(), sep);
        if s.last() == sep {
            init.push(Seq::empty())
        } else {
            init.update(init.len() - 1, init.last().push(s.last()))
        }
    }
}

pub proof fn lemma_split_nonempty(s: Seq<char>, sep: char)
    ensures
        split_on(s, sep).len() >= 1,
    decreases s.len(),
{
    if s.len() > 0 {
        lemma_split_nonempty(s.drop_last(), sep);
    }
}

pub open spec fn parent_segment() -> Seq<char> {
    seq!['.', '.']
}

pub open spec fn current_segment() -> Seq<char> {
    seq!['.']
}

/// A path separator: a slash, or the backslash that Windows also accepts.
pub open spec fn is_path_separator(c: char) -> bool {
    c == '/' || c == '\\'
}

/// `path` starts with a drive letter and a colon (`C:`).
pub open spec fn drive_prefixed(path: Seq<char>) -> bool {
    &&& path.len() >= 2
    &&& (('a' <= path[0] && path[0] <= 'z') || ('A' <= path[0] && path[0] <= 'Z'))
    &&& path[1] == ':'
}

/// `path` is absolute on a drive: a drive letter, a colon and a separator (`C:\`, `C:/`).
pub open spec fn drive_absolute(path: Seq<char>) -> bool {
    drive_prefixed(path) && path.len() >= 3 && is_path_separator(path[2])
}

pub(crate) fn is_drive_prefixed(chars: &Vec<char>) -> (b: bool)
    ensures
        b == drive_prefixed(chars@),
{
    chars.len() >= 2 && (('a' <= chars[0] && chars[0] <= 'z') || ('A' <= chars[0] && chars[0] <= 'Z'))
        && chars[1] == ':'
}

pub(crate) fn is_drive_absolute(chars: &Vec<char>) -> (b: bool)
    ensures
        b == drive_absolute(chars@),
{
    is_drive_prefixed(chars) && chars.len() >= 3 && (chars[2] == '/' || chars[2] == '\\')
}

/// A working directory that is absolute, names a drive, or climbs out of the checkout.
pub open spec fn cwd_is_invalid(normalized: Seq<char>) -> bool {
    ||| (normalized.len() > 0 && normalized[0] == '/')
    ||| normalized.contains(':')
    ||| split_on(normalized, '/').contains(parent_segment())
}

/// The pieces that name a directory (neither empty nor `.`), in order.
pub open spec fn kept_parts(parts: Seq<Seq<char>>) -> Seq<Seq<char>>
    decreases parts.len(),
{
    if parts.len() == 0 {
        Seq::empty()
    } else {
        let rest = kept_parts(parts.drop_last());
        let p = parts.last();
        if p.len() > 0 && p != current_segment() { rest.push(p) } else { rest }
    }
}

/// The pieces joined with `/`.
pub open spec fn join_parts(parts: Seq<Seq<char>>) -> Seq<char>
    decreases parts.len(),
{
    if parts.len() == 0 {
        Seq::empty()
    } else if parts.len() == 1 {
        parts[0]
    } else {
        join_parts(parts.drop_last()) + seq!['/'] + parts.last()
    }
}

/// The checkout root (empty) followed by each directory down to the one the pieces name.
pub open spec fn ancestor_directories(parts: Seq<Seq<char>>) -> Seq<Seq<char>> {
    Seq::new(parts.len() + 1, |k: int| join_parts(parts.take(k)))
}

pub(crate) fn normalized_vec(chars: &Vec<char>) -> (out: Vec<char>)
    ensures
        out@ == normalize_separators(chars@),
{
    let mut out: Vec<char> = Vec::new();
    let mut i: usize = 0;
    while i < chars.len()
        invariant
            i <= chars@.len(),
            out@ == normalize_separators(chars@).take(i as int),
        decreases chars@.len() - i,
    {
        let c = chars[i];
        out.push(if c == '\\' { '/' } else { c });
        proof {
            assert(out@ =~= normalize_separators(chars@).take(i + 1));
        }
        i = i + 1;
    }
    assert(out@ =~= normalize_separators(chars@));
    out
}

pub(crate) fn normalized_chars(cwd: &str) -> (out: Vec<char>)
    ensures
        out@ == normalize_separators(cwd@),
{
    let chars = chars_of(cwd);
    normalized_vec(&chars)
}

pub open spec fn views(parts: Seq<Vec<char>>) -> Seq<Seq<char>> {
    parts.map_values(|p: Vec<char>| p@)
}

pub fn split_chars(chars: &Vec<char>, sep: char) -> (parts: Vec<Vec<char>>)
    ensures
        views(parts@) == split_on(chars@, sep),
{
    let mut done: Vec<Vec<char>> = Vec::new();
    let mut current: Vec<char> = Vec::new();
    let mut i: usize = 0;
    assert(views(done@).push(current@) =~= split_on(chars@.take(0), sep));
    while i < chars.len()
        invariant
            i <= chars@.len(),
            views(done@).push(current@) == split_on(chars@.take(i as int), sep),
        decreases chars@.len() - i,
    {
        let c = chars[i];
        let ghost before = views(done@);
        let ghost cur = current@;
        proof {
            assert(chars@.take(i + 1).drop_last() =~= chars@.take(i as int));
            assert(chars@.take(i + 1).last() == c);
        }
        if c == sep {
            let mut finished: Vec<char> = Vec::new();
            std::mem::swap(&mut finished, &mut current);
            done.push(finished);
            assert(views(done@).push(current@) =~= before.push(cur).push(Seq::empty()));
        } else {
            current.push(c);
            assert(views(done@).push(current@) =~= before.push(cur).update(before.len() as int, cur.push(c)));
        }
        i = i + 1;
    }
    assert(chars@.take(i as int) =~= chars@);
    let ghost before = views(done@);
    done.push(current);
    assert(views(done@) =~= split_on(chars@, sep));
    done
}

fn is_parent(part: &Vec<char>) -> (b: bool)
    ensures
        b == (part@ == parent_segment()),
{
    if part.len() == 2 && part[0] == '.' && part[1] == '.' {
        assert(part@ =~= parent_segment());
        true
    } else {
        false
    }
}

fn names_directory(part: &Vec<char>) -> (b: bool)
    ensures
        b == (part@.len() > 0 && part@ != current_segment()),
{
    if part.len() == 0 {
        false
    } else if part.len() == 1 && part[0] == '.' {
        assert(part@ =~= current_segment());
        false
    } else {
        assert(part@.len() != 1 ==> part@ != current_segment());
        assert(part@.len() == 1 ==> part@[0] != current_segment()[0]);
        true
    }
}

fn has_parent_part(parts: &Vec<Vec<char>>) -> (b: bool)
    ensures
        b == views(parts@).contains(parent_segment()),
{
    let mut i: usize = 0;
    while i < parts.len()
        invariant
            i <= parts@.len(),
            forall|k: int| 0 <= k < i ==> views(parts@)[k] != parent_segment(),
        decreases parts@.len() - i,
    {
        if is_parent(&parts[i]) {
            assert(views(parts@)[i as int] == parent_segment());
            return true;
        }
        i = i + 1;
    }
    false
}

/// Checks a working directory and lists the directories from the checkout root down to it.
pub fn relative_ancestors(cwd: &str) -> (out: Result<Vec<String>, AgentsMdError>)
    ensures
        ({
            let normalized = normalize_separators(cwd@);
            match out {
                Err(e) => cwd_is_invalid(normalized) && e is InvalidCwd,
                Ok(dirs) => !cwd_is_invalid(normalized) && dirs@.map_values(|d: String| d@)
                    == ancestor_directories(kept_parts(split_on(normalized, '/'))),
            }
        }),
{
    let normalized = normalized_chars(cwd);
    let ghost n = normalized@;
    let parts = split_chars(&normalized, '/');
    let absolute = normalized.len() > 0 && normalized[0] == '/';
    let drive = crate::text::contains_char(&normalized, ':');
    let climbs = has_parent_part(&parts);
    if absolute || drive || climbs {
        return Err(AgentsMdError::InvalidCwd);
    }
    // Keep the pieces that name a directory.
    let mut kept: Vec<Vec<char>> = Vec::new();
    let mut i: usize = 0;
    while i < parts.len()
        invariant
            i <= parts@.len(),
            views(kept@) == kept_parts(views(parts@).take(i as int)),
            forall|k: int| 0 <= k < kept@.len() ==> (#[trigger] kept@[k])@.len() > 0,
        decreases parts@.len() - i,
    {
        proof {
            assert(views(parts@).take(i + 1).drop_last() =~= views(parts@).take(i as int));
        }
        let ghost before = views(kept@);
        if names_directory(&parts[i]) {
            let piece = parts[i].clone();
            assert(piece@ =~= parts@[i as int]@);
            kept.push(piece);
            assert(views(kept@) =~= before.push(parts@[i as int]@));
        }
        i = i + 1;
    }
    assert(views(parts@).take(i as int) =~= views(parts@));
    let ghost kp = views(kept@);
    // Each ancestor directory, root first.
    let mut directories: Vec<String> = Vec::new();
    directories.push(String::new());
    let mut current = String::new();
    let mut j: usize = 0;
    proof {
        assert(kp.take(0) =~= Seq::<Seq<char>>::empty());
        assert(directories@.map_values(|d: String| d@) =~= Seq::new(1, |k: int| join_parts(kp.take(k))));
    }
    while j < kept.len()
        invariant
            j <= kept@.len(),
            kp == views(kept@),
            forall|k: int| 0 <= k < kept@.len() ==> (#[trigger] kept@[k])@.len() > 0,
            current@ == join_parts(kp.take(j as int)),
            j > 0 ==> current@.len() > 0,
            directories@.map_values(|d: String| d@) == Seq::new((j + 1) as nat, |k: int| join_parts(kp.take(k))),
        decreases kept@.len() - j,
    {
        let ghost before = current@;
        if current.unicode_len() > 0 {
            current.push('/');
        }
        let piece = string_from_chars(&kept[j]);
        push_str(&mut current, piece.as_str());
        proof {
            assert(kp.take(j + 1).drop_last() =~= kp.take(j as int));
            assert(kp.take(j + 1).last() == kp[j as int]);
            if j == 0 {
                assert(kp.take(1)[0] == kp[0]);
                assert(current@ =~= join_parts(kp.take(1)));
            } else {
                assert(current@ =~= join_parts(kp.take(j + 1)));
            }
        }
        let ghost dirs_before = directories@.map_values(|d: String| d@);
        let copy = current.clone();
        directories.push(copy);
        assert(directories@.map_values(|d: String| d@) =~= dirs_before.push(current@));
        j = j + 1;
        assert(directories@.map_values(|d: String| d@) =~= Seq::new((j + 1) as nat, |k: int| join_parts(kp.take(k))));
    }
    assert(directories@.map_values(|d: String| d@) =~= ancestor_directories(kp));
    Ok(directories)
}

/// `file` inside `directory` (the checkout root when `directory` is empty).
pub open spec fn joined_path(directory: Seq<char>, file: Seq<char>) -> Seq<char> {
    if directory.len() == 0 { file } else { directory + seq!['/'] + file }
}

pub fn join_relative(directory: &str, file: &str) -> (out: String)
    ensures
        out@ == joined_path(directory@, file@),
{
    if directory.unicode_len() == 0 {
        file.to_owned()
    } else {
        let mut out = directory.to_owned();
        out.push('/');
        push_str(&mut out, file);
        out
    }
}

/// The override file of a directory, looked up first.
pub fn override_path(directory: &str) -> (out: String)
    ensures
        out@ == joined_path(directory@, "AGENTS.override.md"@),
{
    join_relative(directory, "AGENTS.override.md")
}

/// The ordinary instructions file of a directory.
pub fn agents_path(directory: &str) -> (out: String)
    ensures
        out@ == joined_path(directory@, "AGENTS.md"@),
{
    join_relative(directory, "AGENTS.md")
}

/// What to do next for one directory: read a file, or take the file the override read found.
#[derive(Debug)]
pub enum AgentsReadStep {
    Read(String),
    Found(AgentsFile),
}

/// The read order within one directory: the override file is read first; when it exists it is
/// the directory's file and the ordinary file is never read; only when it is absent is the
/// ordinary file read. `override_read` is what reading the override file gave, once it was read.
pub fn agents_read_step(directory: &str, override_read: Option<Option<AgentsFile>>) -> (out: AgentsReadStep)
    ensures
        match override_read {
            None => out matches AgentsReadStep::Read(p) && p@ == joined_path(directory@, "AGENTS.override.md"@),
            Some(Some(f)) => out matches AgentsReadStep::Found(g) && g == f,
            Some(None) => out matches AgentsReadStep::Read(p) && p@ == joined_path(directory@, "AGENTS.md"@),
        },
{
    match override_read {
        None => AgentsReadStep::Read(override_path(directory)),
        Some(Some(f)) => AgentsReadStep::Found(f),
        Some(None) => AgentsReadStep::Read(agents_path(directory)),
    }
}

// ---------------------------------------------------------------------------------------------
// Byte budget
// ---------------------------------------------------------------------------------------------

/// The number of leading characters of `v` whose UTF-8 encoding fits in `max_bytes`.
pub open spec fn utf8_fit(v: Seq<char>, max_bytes: nat) -> nat
    decreases v.len(),
{
    if utf8_len(v) <= max_bytes {
        v.len()
    } else {
        utf8_fit(v.drop_last(), max_bytes)
    }
}

/// `v` cut to at most `max_bytes` UTF-8 bytes at a character boundary, and whether it was cut.
pub open spec fn bounded_utf8_spec(v: Seq<char>, max_bytes: nat) -> (Seq<char>, bool) {
    if utf8_len(v) <= max_bytes {
        (v, false)
    } else {
        (v.take(utf8_fit(v, max_bytes) as int), true)
    }
}

proof fn lemma_fit(v: Seq<char>, max_bytes: nat, k: int)
    requires
        0 <= k <= v.len(),
        utf8_len(v.take(k)) <= max_bytes,
        k < v.len() ==> utf8_len(v.take(k + 1)) > max_bytes,
    ensures
        utf8_fit(v, max_bytes) == k,
    decreases v.len(),
{
    if k == v.len() {
        assert(v.take(k) =~= v);
    } else {
        lemma_utf8_len_prefix(v, k + 1);
        let d = v.drop_last();
        assert(d.take(k) =~= v.take(k));
        if k + 1 < v.len() {
            assert(d.take(k + 1) =~= v.take(k + 1));
        }
        lemma_fit(d, max_bytes, k);
    }
}

/// Cuts `value` to at most `max_bytes` UTF-8 bytes without splitting a character.
pub fn bounded_utf8(value: &str, max_bytes: usize) -> (out: (String, bool))
    ensures
        (out.0@, out.1) == bounded_utf8_spec(value@, max_bytes as nat),
{
    let chars = chars_of(value);
    let mut total: usize = 0;
    let mut i: usize = 0;
    let mut cut = false;
    while i < chars.len()
        invariant
            chars@ == value@,
            i <= chars@.len(),
            total == utf8_len(chars@.take(i as int)),
            total <= max_bytes,
            cut ==> i < chars@.len() && utf8_len(chars@.take(i + 1)) > max_bytes,
        ensures
            total == utf8_len(chars@.take(i as int)),
            total <= max_bytes,
            cut ==> i < chars@.len() && utf8_len(chars@.take(i + 1)) > max_bytes,
            !cut ==> i == chars@.len(),
        decreases chars@.len() - i,
    {
        let w = char_utf8_width(chars[i]);
        proof {
            assert(chars@.take(i + 1).drop_last() =~= chars@.take(i as int));
        }
        if w > max_bytes - total {
            cut = true;
            break;
        }
        total = total + w;
        i = i + 1;
    }
    if !cut {
        assert(chars@.take(i as int) =~= value@);
        return (value.to_owned(), false);
    }
    proof {
        lemma_utf8_len_prefix(value@, i + 1);
        lemma_fit(value@, max_bytes as nat, i as int);
    }
    let mut out = String::new();
    crate::text::push_chars(&mut out, &chars, 0, i);
    assert(out@ =~= value@.take(i as int));
    (out, true)
}

// ---------------------------------------------------------------------------------------------
// Assembly
// ---------------------------------------------------------------------------------------------

pub open spec fn layer_view(l: AgentInstructionLayer) -> (Seq<char>, Seq<char>, Seq<char>, Seq<char>) {
    (l.relative_directory@, l.source_path@, l.content_hash@, l.markdown@)
}

pub open spec fn layer_views(ls: Seq<AgentInstructionLayer>) -> Seq<(Seq<char>, Seq<char>, Seq<char>, Seq<char>)> {
    ls.map_values(|l: AgentInstructionLayer| layer_view(l))
}

/// The layers gathered so far, the bytes of budget left, and whether the budget cut anything.
/// Once `finished`, no further directory is looked at.
#[derive(Debug)]
pub struct AgentsMdAssembly {
    pub layers: Vec<AgentInstructionLayer>,
    pub remaining: usize,
    pub truncated: bool,
    pub finished: bool,
}

impl AgentsMdAssembly {
    /// An empty assembly with the whole budget left.
    pub fn new(max_bytes: usize) -> (a: Self)
        ensures
            a.layers@.len() == 0,
            a.remaining == max_bytes,
            !a.truncated,
            !a.finished,
    {
        AgentsMdAssembly { layers: Vec::new(), remaining: max_bytes, truncated: false, finished: false }
    }

    /// Takes the file found for the next directory (the override file if there was one, else
    /// the ordinary one, else none): a found file becomes a layer cut to the remaining budget;
    /// an exhausted budget, or a cut, ends the assembly.
    pub fn accept(&mut self, directory: &str, file: Option<AgentsFile>)
        requires
            !old(self).finished,
        ensures
            match file {
                None => *final(self) == *old(self),
                Some(f) => if old(self).remaining == 0 {
                    &&& layer_views(final(self).layers@) == layer_views(old(self).layers@)
                    &&& final(self).remaining == 0
                    &&& final(self).truncated
                    &&& final(self).finished
                } else {
                    let (md, clipped) = bounded_utf8_spec(f.markdown@, old(self).remaining as nat);
                    &&& layer_views(final(self).layers@) == layer_views(old(self).layers@).push(
                        (directory@, f.path@, f.content_hash@, md),
                    )
                    &&& final(self).remaining == old(self).remaining - utf8_len(md)
                    &&& final(self).truncated == (old(self).truncated || clipped)
                    &&& final(self).finished == clipped
                },
            },
    {
        match file {
            None => {},
            Some(f) => {
                if self.remaining == 0 {
                    self.truncated = true;
                    self.finished = true;
                    return;
                }
                let (markdown, clipped) = bounded_utf8(f.markdown.as_str(), self.remaining);
                proof {
                    if clipped {
                        lemma_utf8_len_prefix_fit(f.markdown@, self.remaining as nat);
                    }
                }
                let used = utf8_byte_len(markdown.as_str());
                self.remaining = self.remaining - used;
                self.truncated = self.truncated || clipped;
                let ghost before = layer_views(self.layers@);
                self.layers.push(
                    AgentInstructionLayer {
                        relative_directory: directory.to_owned(),
                        source_path: f.path,
                        content_hash: f.content_hash,
                        markdown,
                    },
                );
                assert(layer_views(self.layers@) =~= before.push(
                    (directory@, f.path@, f.content_hash@, bounded_utf8_spec(f.markdown@, old(self).remaining as nat).0),
                ));
                self.finished = clipped;
            },
        }
    }

    /// The snapshot of the assembled layers, with their revision (`snapshot_revision`).
    pub fn into_snapshot(self) -> (s: AgentsMdSnapshot)
        ensures
            layer_views(s.layers@) == layer_views(self.layers@),
            s.truncated == self.truncated,
            s.revision@ == snapshot_revision(layer_views(self.layers@), self.truncated),
    {
        let serialized = serialized_layers(&self.layers, self.truncated);
        let revision = layers_revision(serialized.as_str());
        AgentsMdSnapshot { layers: self.layers, revision, truncated: self.truncated }
    }
}

/// The JSON text of a string, as serde_json prints it.
pub open spec fn quoted_json(s: Seq<char>) -> Seq<char> {
    crate::json::json_print(crate::json::JsonView::Str(s))
}

/// One layer serialized as a JSON object, its fields in declaration order:
/// `{"relativeDirectory":…,"sourcePath":…,"contentHash":…,"markdown":…}`.
pub open spec fn layer_text(l: (Seq<char>, Seq<char>, Seq<char>, Seq<char>)) -> Seq<char> {
    "{\"relativeDirectory\":"@ + quoted_json(l.0) + ",\"sourcePath\":"@ + quoted_json(l.1) + ",\"contentHash\":"@
        + quoted_json(l.2) + ",\"markdown\":"@ + quoted_json(l.3) + "}"@
}

/// The layers' objects separated by commas.
pub open spec fn layers_list_text(ls: Seq<(Seq<char>, Seq<char>, Seq<char>, Seq<char>)>) -> Seq<char>
    decreases ls.len(),
{
    if ls.len() == 0 {
        Seq::empty()
    } else if ls.len() == 1 {
        layer_text(ls[0])
    } else {
        layers_list_text(ls.drop_last()) + ","@ + layer_text(ls.last())
    }
}

/// The layers and the truncation flag serialized together as one compact JSON array:
/// `[[layer,…],true|false]`.
pub open spec fn layers_text(ls: Seq<(Seq<char>, Seq<char>, Seq<char>, Seq<char>)>, truncated: bool) -> Seq<char> {
    "[["@ + layers_list_text(ls) + "],"@ + (if truncated { "true"@ } else { "false"@ }) + "]"@
}

/// The revision of a snapshot: the SHA-256 digest, in lowercase hexadecimal, of its layers and
/// truncation flag serialized together.
pub open spec fn snapshot_revision(ls: Seq<(Seq<char>, Seq<char>, Seq<char>, Seq<char>)>, truncated: bool) -> Seq<char> {
    hex_lower(sha256_text(layers_text(ls, truncated)))
}

fn quoted(s: &str) -> (out: String)
    ensures
        out@ == quoted_json(s@),
{
    crate::json::print_json(&crate::json::json_str(s))
}

fn push_layer(out: &mut String, l: &AgentInstructionLayer)
    ensures
        final(out)@ == old(out)@ + layer_text(layer_view(*l)),
{
    push_str(out, "{\"relativeDirectory\":");
    push_str(out, quoted(l.relative_directory.as_str()).as_str());
    push_str(out, ",\"sourcePath\":");
    push_str(out, quoted(l.source_path.as_str()).as_str());
    push_str(out, ",\"contentHash\":");
    push_str(out, quoted(l.content_hash.as_str()).as_str());
    push_str(out, ",\"markdown\":");
    push_str(out, quoted(l.markdown.as_str()).as_str());
    push_str(out, "}");
}

/// The serialized form of layers and a truncation flag (`layers_text`).
pub fn serialized_layers(layers: &Vec<AgentInstructionLayer>, truncated: bool) -> (out: String)
    ensures
        out@ == layers_text(layer_views(layers@), truncated),
{
    let ghost lv = layer_views(layers@);
    let mut out = "[[".to_owned();
    let mut i: usize = 0;
    while i < layers.len()
        invariant
            i <= layers@.len(),
            lv == layer_views(layers@),
            out@ == "[["@ + layers_list_text(lv.take(i as int)),
        decreases layers@.len() - i,
    {
        proof {
            assert(lv.take(i + 1).drop_last() =~= lv.take(i as int));
            assert(lv.take(i + 1).last() == layer_view(layers@[i as int]));
            if i == 0 {
                assert(lv.take(1)[0] == lv.take(1).last());
            }
        }
        if i > 0 {
            push_str(&mut out, ",");
        }
        push_layer(&mut out, &layers[i]);
        proof {
            if i == 0 {
                assert(layers_list_text(lv.take(0)) =~= Seq::<char>::empty());
            }
        }
        assert(out@ =~= "[["@ + layers_list_text(lv.take(i + 1)));
        i = i + 1;
    }
    assert(lv.take(i as int) =~= lv);
    push_str(&mut out, "],");
    if truncated {
        push_str(&mut out, "true");
    } else {
        push_str(&mut out, "false");
    }
    push_str(&mut out, "]");
    assert(out@ =~= layers_text(lv, truncated));
    out
}

proof fn lemma_utf8_len_prefix_fit(v: Seq<char>, max_bytes: nat)
    requires
        utf8_len(v) > max_bytes,
    ensures
        utf8_len(v.take(utf8_fit(v, max_bytes) as int)) <= max_bytes,
        utf8_fit(v, max_bytes) <= v.len(),
    decreases v.len(),
{
    let d = v.drop_last();
    if utf8_len(d) <= max_bytes {
        assert(v.take(d.len() as int) =~= d);
    } else {
        lemma_utf8_len_prefix_fit(d, max_bytes);
        assert(v.take(utf8_fit(d, max_bytes) as int) =~= d.take(utf8_fit(d, max_bytes) as int));
    }
}

/// Number of bytes of the UTF-8 encoding of `s`.
pub fn utf8_byte_len(s: &str) -> (n: usize)
    requires
        utf8_len(s@) <= usize::MAX,
    ensures
        n == utf8_len(s@),
{
    let chars = chars_of(s);
    let mut total: usize = 0;
    let mut i: usize = 0;
    while i < chars.len()
        invariant
            chars@ == s@,
            i <= chars@.len(),
            total == utf8_len(chars@.take(i as int)),
            utf8_len(s@) <= usize::MAX,
        decreases chars@.len() - i,
    {
        proof {
            assert(chars@.take(i + 1).drop_last() =~= chars@.take(i as int));
            lemma_utf8_len_prefix(s@, i + 1);
        }
        total = total + char_utf8_width(chars[i]);
        i = i + 1;
    }
    assert(chars@.take(i as int) =~= s@);
    total
}

/// The revision of a set of layers: the SHA-256 digest, in lowercase hexadecimal, of their
/// serialized form (the layers and the truncation flag as one JSON value).
pub fn layers_revision(serialized: &str) -> (out: String)
    ensures
        out@ == hex_lower(sha256_text(serialized@)),
{
    sha256_hex(serialized)
}

} // verus!
