//! Semantic transcript compaction: source preparation, identifier preservation and the
//! decisions around a summary request. The permanent transcript is never replaced.

use vstd::prelude::*;

use crate::lex::{insert_sorted, lex_lt, strictly_sorted, views};
use crate::transcript::{
    payload_text, transcript_text, CompactionCheckpoint, ItemPayload, TranscriptItem,
    TranscriptItemKind,
};
use crate::text::{
    ascii_lower_seq, char_is_whitespace, chars_of, contains_char, contains_seq, contains_str,
    has_prefix, is_whitespace, push_chars, starts_with, str_eq, to_ascii_lowercase, utf8_len,
    bounded_head_tail, decimal, find_chars, head_tail, occurs_at, push_decimal, push_str, trim,
    trim_bounds, first_occurrence, is_blank_str,
    utf8_len_exceeds,
};

verus! {

broadcast use vstd::seq_lib::group_seq_properties;

/// Limits that drive when and how much of the transcript is compacted.
#[derive(Clone, Copy, Debug, PartialEq, Eq)]
pub struct CompactionPolicy {
    pub automatic_trigger_chars: usize,
    pub max_source_chars: usize,
    pub max_item_chars: usize,
    pub recent_tail_items: usize,
    pub max_summary_chars: usize,
    pub min_summary_chars: usize,
    pub max_identifiers: usize,
    pub max_output_tokens: u32,
}

impl CompactionPolicy {
    /// The default policy.
    pub fn default_policy() -> (policy: Self)
        ensures
            policy.automatic_trigger_chars == 262144,
            policy.max_source_chars == 393216,
            policy.max_item_chars == 16384,
            policy.recent_tail_items == 16,
            policy.max_summary_chars == 32768,
            policy.min_summary_chars == 32,
            policy.max_identifiers == 256,
            policy.max_output_tokens == 4096,
    {
        CompactionPolicy {
            automatic_trigger_chars: 262144,
            max_source_chars: 393216,
            max_item_chars: 16384,
            recent_tail_items: 16,
            max_summary_chars: 32768,
            min_summary_chars: 32,
            max_identifiers: 256,
            max_output_tokens: 4096,
        }
    }
}

impl Default for CompactionPolicy {
    fn default() -> (policy: Self)
        ensures
            policy.automatic_trigger_chars == 262144,
            policy.max_source_chars == 393216,
            policy.max_item_chars == 16384,
            policy.recent_tail_items == 16,
            policy.max_summary_chars == 32768,
            policy.min_summary_chars == 32,
            policy.max_identifiers == 256,
            policy.max_output_tokens == 4096,
    {
        Self::default_policy()
    }
}

// ---------------------------------------------------------------------------------------------
// Continuity identifiers
// ---------------------------------------------------------------------------------------------

/// Whitespace-separated words, as `str::split_whitespace` yields them: completed words and the
/// word being read.
pub open spec fn split_state(s: Seq<char>) -> (Seq<Seq<char>>, Seq<char>)
    decreases s.len(),
{
    if s.len() == 0 {
        (Seq::empty(), Seq::empty())
    } else {
        let (done, cur) = split_state(s.drop_last());
        let c = s.last();
        if is_whitespace(c) {
            (if cur.len() > 0 { done.push(cur) } else { done }, Seq::empty())
        } else {
            (done, cur.push(c))
        }
    }
}

/// `str::split_whitespace`.
pub open spec fn words(s: Seq<char>) -> Seq<Seq<char>> {
    let (done, cur) = split_state(s);
    if cur.len() > 0 { done.push(cur) } else { done }
}

/// Punctuation stripped from both ends of a candidate identifier.
pub open spec fn is_wrapping_punct(c: char) -> bool {
    c == '`' || c == '"' || c == '\'' || c == ',' || c == ';' || c == ':' || c == '(' || c == ')'
        || c == '[' || c == ']' || c == '{' || c == '}' || c == '<' || c == '>'
}

pub fn char_is_wrapping_punct(c: char) -> (b: bool)
    ensures
        b == is_wrapping_punct(c),
{
    c == '`' || c == '"' || c == '\'' || c == ',' || c == ';' || c == ':' || c == '(' || c == ')'
        || c == '[' || c == ']' || c == '{' || c == '}' || c == '<' || c == '>'
}

pub open spec fn skip_punct(s: Seq<char>, i: int) -> int
    decreases s.len() - i,
{
    if 0 <= i < s.len() && is_wrapping_punct(s[i]) { skip_punct(s, i + 1) } else { i }
}

pub open spec fn end_punct(s: Seq<char>, lo: int, j: int) -> int
    decreases j - lo,
{
    if lo < j <= s.len() && is_wrapping_punct(s[j - 1]) { end_punct(s, lo, j - 1) } else { j }
}

/// `trim_matches` with the wrapping punctuation.
pub open spec fn trim_punct(s: Seq<char>) -> Seq<char> {
    let a = skip_punct(s, 0);
    s.subrange(a, end_punct(s, a, s.len() as int))
}

pub open spec fn is_hex_digit(c: char) -> bool {
    ('0' <= c && c <= '9') || ('a' <= c && c <= 'f') || ('A' <= c && c <= 'F')
}

pub open spec fn known_identifier_prefixes() -> Seq<Seq<char>> {
    seq![
        "run-"@,
        "session-"@,
        "checkout-"@,
        "project-"@,
        "plan-"@,
        "attachment-"@,
        "call-"@,
        "sha256:"@,
    ]
}

/// A token worth preserving verbatim across compactions: bounded (at most 256 UTF-8 bytes),
/// never a URL or an assignment, and either a known record prefix, a 12-64 digit hexadecimal
/// hash, or a relative/absolute file path.
pub open spec fn identifier_token(v: Seq<char>) -> bool {
    if v.len() == 0 || utf8_len(v) > 256 || contains_seq(v, "://"@)
        || v.contains('=') {
        false
    } else {
        let known = exists|k: int|
            0 <= k < known_identifier_prefixes().len() && has_prefix(
                ascii_lower_seq(v),
                #[trigger] known_identifier_prefixes()[k],
            );
        let hexadecimal = 12 <= v.len() <= 64 && forall|i: int|
            0 <= i < v.len() ==> is_hex_digit(#[trigger] v[i]);
        let path = (v.contains('/') || v.contains('\\')) && (v.contains('.') || has_prefix(
            v,
            "./"@,
        ) || has_prefix(v, "../"@));
        known || hexadecimal || path
    }
}

fn all_hex(chars: &Vec<char>) -> (b: bool)
    ensures
        b == forall|i: int| 0 <= i < chars@.len() ==> is_hex_digit(#[trigger] chars@[i]),
{
    let mut i: usize = 0;
    while i < chars.len()
        invariant
            i <= chars@.len(),
            forall|k: int| 0 <= k < i ==> is_hex_digit(#[trigger] chars@[k]),
        decreases chars@.len() - i,
    {
        let c = chars[i];
        if !(('0' <= c && c <= '9') || ('a' <= c && c <= 'f') || ('A' <= c && c <= 'F')) {
            assert(!is_hex_digit(chars@[i as int]));
            return false;
        }
        i = i + 1;
    }
    true
}

/// Classifies a token (see `identifier_token`).
pub fn is_identifier(value: &str) -> (b: bool)
    ensures
        b == identifier_token(value@),
{
    proof {
        reveal_strlit("://");
        reveal_strlit("./");
        reveal_strlit("../");
    }
    let chars = chars_of(value);
    if chars.len() == 0 || utf8_len_exceeds(&chars, 256) || contains_str(value, "://") || contains_char(&chars, '=') {
        return false;
    }
    let lower = to_ascii_lowercase(value);
    let prefixes: [&str; 8] = [
        "run-",
        "session-",
        "checkout-",
        "project-",
        "plan-",
        "attachment-",
        "call-",
        "sha256:",
    ];
    let mut known = false;
    let mut k: usize = 0;
    proof {
        reveal_strlit("run-");
        reveal_strlit("session-");
        reveal_strlit("checkout-");
        reveal_strlit("project-");
        reveal_strlit("plan-");
        reveal_strlit("attachment-");
        reveal_strlit("call-");
        reveal_strlit("sha256:");
        assert(prefixes@.map_values(|p: &str| p@) =~= known_identifier_prefixes());
    }
    while k < 8
        invariant
            lower@ == ascii_lower_seq(value@),
            k <= 8,
            prefixes@.map_values(|p: &str| p@) == known_identifier_prefixes(),
            prefixes@.len() == 8,
            known == exists|j: int|
                0 <= j < k && has_prefix(
                    ascii_lower_seq(value@),
                    #[trigger] known_identifier_prefixes()[j],
                ),
        decreases 8 - k,
    {
        let p = prefixes[k];
        assert(p@ == known_identifier_prefixes()[k as int]);
        if starts_with(&lower, p) {
            known = true;
        }
        k = k + 1;
    }
    let hexadecimal = 12 <= chars.len() && chars.len() <= 64 && all_hex(&chars);
    let path = (contains_char(&chars, '/') || contains_char(&chars, '\\')) && (contains_char(
        &chars,
        '.',
    ) || starts_with(value, "./") || starts_with(value, "../"));
    known || hexadecimal || path
}

/// `str::split_whitespace` on a character vector.
pub fn split_words(chars: &Vec<char>) -> (out: Vec<Vec<char>>)
    ensures
        out@.map_values(|w: Vec<char>| w@) == words(chars@),
{
    let mut done: Vec<Vec<char>> = Vec::new();
    let mut cur: Vec<char> = Vec::new();
    let mut i: usize = 0;
    while i < chars.len()
        invariant
            i <= chars@.len(),
            (done@.map_values(|w: Vec<char>| w@), cur@) == split_state(chars@.take(i as int)),
        decreases chars@.len() - i,
    {
        let c = chars[i];
        let ghost before = done@.map_values(|w: Vec<char>| w@);
        if char_is_whitespace(c) {
            if cur.len() > 0 {
                let w = cur;
                done.push(w);
                cur = Vec::new();
            }
        } else {
            cur.push(c);
        }
        i = i + 1;
        proof {
            assert(chars@.take(i as int).drop_last() =~= chars@.take((i - 1) as int));
            assert(chars@.take(i as int).last() == c);
            assert(done@.map_values(|w: Vec<char>| w@) =~= split_state(chars@.take(i as int)).0);
        }
    }
    assert(chars@.take(chars@.len() as int) =~= chars@);
    if cur.len() > 0 {
        let ghost before = done@.map_values(|w: Vec<char>| w@);
        done.push(cur);
        assert(done@.map_values(|w: Vec<char>| w@) =~= before.push(split_state(chars@).1));
    }
    done
}

/// Strips the wrapping punctuation from a word.
pub fn trim_punct_chars(chars: &Vec<char>) -> (out: String)
    ensures
        out@ == trim_punct(chars@),
{
    let mut a: usize = 0;
    while a < chars.len() && char_is_wrapping_punct(chars[a])
        invariant
            a <= chars@.len(),
            skip_punct(chars@, a as int) == skip_punct(chars@, 0),
        decreases chars@.len() - a,
    {
        a = a + 1;
    }
    let mut b: usize = chars.len();
    while b > a && char_is_wrapping_punct(chars[b - 1])
        invariant
            a <= b <= chars@.len(),
            end_punct(chars@, a as int, b as int) == end_punct(chars@, a as int, chars@.len() as int),
        decreases b - a,
    {
        b = b - 1;
    }
    let mut out = String::new();
    push_chars(&mut out, chars, a, b);
    assert(out@ =~= trim_punct(chars@));
    out
}

/// Identifiers collected from `tokens` in order, up to `max` of them.
pub open spec fn collect_ids(tokens: Seq<Seq<char>>, max: nat) -> Set<Seq<char>>
    decreases tokens.len(),
{
    if tokens.len() == 0 {
        Set::empty()
    } else {
        let prev = collect_ids(tokens.drop_last(), max);
        let t = trim_punct(tokens.last());
        if prev.len() >= max {
            prev
        } else if identifier_token(t) {
            prev.insert(t)
        } else {
            prev
        }
    }
}

proof fn lemma_collect_ids_finite(tokens: Seq<Seq<char>>, max: nat)
    ensures
        collect_ids(tokens, max).finite(),
    decreases tokens.len(),
{
    if tokens.len() > 0 {
        lemma_collect_ids_finite(tokens.drop_last(), max);
    }
}

proof fn lemma_sorted_no_duplicates(s: Seq<Seq<char>>)
    requires
        strictly_sorted(s),
    ensures
        s.no_duplicates(),
        s.to_set().len() == s.len(),
{
    assert forall|i: int, j: int| 0 <= i < s.len() && 0 <= j < s.len() && i != j implies s[i] != s[j] by {
        if i < j {
            assert(lex_lt(s[i], s[j]));
            crate::lex::lemma_lex_irreflexive(s[i]);
        } else {
            assert(lex_lt(s[j], s[i]));
            crate::lex::lemma_lex_irreflexive(s[j]);
        }
    }
    s.unique_seq_to_set();
}

/// The continuity identifiers of a compaction source: the distinct identifier tokens, read in
/// order until `max_identifiers` are found, returned in ascending order.
pub fn extract_identifiers(source: &str, max_identifiers: usize) -> (out: Vec<String>)
    ensures
        strictly_sorted(views(out@)),
        views(out@).to_set() == collect_ids(words(source@), max_identifiers as nat),
        out@.len() <= max_identifiers,
{
    let mut out: Vec<String> = Vec::new();
    if max_identifiers == 0 {
        proof {
            assert(collect_ids(words(source@), 0) =~= Set::<Seq<char>>::empty()) by {
                lemma_collect_ids_zero(words(source@));
            }
            assert(views(out@).to_set() =~= Set::<Seq<char>>::empty());
        }
        return out;
    }
    let chars = chars_of(source);
    let tokens = split_words(&chars);
    let ghost ws = words(source@);
    let mut i: usize = 0;
    proof {
        assert(views(out@).to_set() =~= Set::<Seq<char>>::empty());
        assert(ws.take(0) =~= Seq::<Seq<char>>::empty());
    }
    while i < tokens.len() && out.len() < max_identifiers
        invariant
            tokens@.map_values(|w: Vec<char>| w@) == ws,
            i <= tokens@.len(),
            strictly_sorted(views(out@)),
            views(out@).to_set() == collect_ids(ws.take(i as int), max_identifiers as nat),
            out@.len() <= max_identifiers,
        decreases tokens@.len() - i,
    {
        proof {
            lemma_sorted_no_duplicates(views(out@));
            lemma_collect_ids_finite(ws.take(i as int), max_identifiers as nat);
        }
        let candidate = trim_punct_chars(&tokens[i]);
        let ghost prev_views = views(out@);
        if is_identifier(&candidate) {
            insert_sorted(&mut out, candidate);
        }
        i = i + 1;
        proof {
            assert(ws.take(i as int).drop_last() =~= ws.take((i - 1) as int));
            assert(ws.take(i as int).last() == tokens@[i - 1]@);
            lemma_sorted_no_duplicates(views(out@));
        }
    }
    proof {
        lemma_sorted_no_duplicates(views(out@));
        lemma_collect_ids_finite(ws.take(i as int), max_identifiers as nat);
        if i < tokens@.len() {
            lemma_collect_ids_saturated(ws, i as nat, max_identifiers as nat);
        } else {
            assert(ws.take(i as int) =~= ws);
        }
    }
    out
}

proof fn lemma_collect_ids_zero(tokens: Seq<Seq<char>>)
    ensures
        collect_ids(tokens, 0) == Set::<Seq<char>>::empty(),
    decreases tokens.len(),
{
    if tokens.len() > 0 {
        lemma_collect_ids_zero(tokens.drop_last());
    }
}

/// Once `max` identifiers are collected, later tokens change nothing.
proof fn lemma_collect_ids_saturated(tokens: Seq<Seq<char>>, i: nat, max: nat)
    requires
        i <= tokens.len(),
        collect_ids(tokens.take(i as int), max).len() >= max,
    ensures
        collect_ids(tokens, max) == collect_ids(tokens.take(i as int), max),
    decreases tokens.len() - i,
{
    if i < tokens.len() {
        let t = tokens.take((i + 1) as int);
        assert(t.drop_last() =~= tokens.take(i as int));
        lemma_collect_ids_saturated(tokens, i + 1, max);
    } else {
        assert(tokens.take(i as int) =~= tokens);
    }
}

/// First-occurrence deduplication of `items`, stopping at `max` entries.
pub open spec fn merge_ids(items: Seq<Seq<char>>, max: nat) -> Seq<Seq<char>>
    decreases items.len(),
{
    if items.len() == 0 {
        Seq::empty()
    } else {
        let prev = merge_ids(items.drop_last(), max);
        if prev.len() >= max || prev.contains(items.last()) {
            prev
        } else {
            prev.push(items.last())
        }
    }
}

/// One step of `merge_ids`: appends `item` unless it is already merged or the limit is reached.
fn merge_step(merged: &mut Vec<String>, item: String, max_identifiers: usize)
    ensures
        views(final(merged)@) == if views(old(merged)@).len() >= max_identifiers || views(
            old(merged)@,
        ).contains(item@) {
            views(old(merged)@)
        } else {
            views(old(merged)@).push(item@)
        },
{
    let mut seen = false;
    let mut k: usize = 0;
    while k < merged.len()
        invariant
            k <= merged@.len(),
            merged@ == old(merged)@,
            seen == exists|j: int| 0 <= j < k && views(merged@)[j] == item@,
        decreases merged@.len() - k,
    {
        assert(views(merged@)[k as int] == merged@[k as int]@);
        if str_eq(&merged[k], &item) {
            seen = true;
        }
        k = k + 1;
    }
    proof {
        if views(merged@).contains(item@) {
            let j = choose|j: int| 0 <= j < views(merged@).len() && views(merged@)[j] == item@;
            assert(j < k);
        }
    }
    if !(merged.len() >= max_identifiers || seen) {
        let ghost prev = views(merged@);
        merged.push(item);
        assert(views(merged@) =~= prev.push(item@));
    }
}

/// Merges the identifiers of the previous checkpoint with newly extracted ones: previous ones
/// first, each identifier once, at most `max_identifiers` in all.
pub fn merge_identifiers(previous: &Vec<String>, current: Vec<String>, max_identifiers: usize) -> (out: Vec<String>)
    ensures
        views(out@) == merge_ids(views(previous@) + views(current@), max_identifiers as nat),
{
    let ghost all = views(previous@) + views(current@);
    let mut merged: Vec<String> = Vec::new();
    let mut i: usize = 0;
    proof {
        assert(all.take(0) =~= Seq::<Seq<char>>::empty());
        assert(views(merged@) =~= Seq::<Seq<char>>::empty());
    }
    while i < previous.len()
        invariant
            all == views(previous@) + views(current@),
            i <= previous@.len(),
            views(merged@) == merge_ids(all.take(i as int), max_identifiers as nat),
        decreases previous@.len() - i,
    {
        let item = previous[i].clone();
        merge_step(&mut merged, item, max_identifiers);
        i = i + 1;
        proof {
            assert(all.take(i as int).drop_last() =~= all.take((i - 1) as int));
            assert(all.take(i as int).last() == views(previous@)[i - 1]);
        }
    }
    let mut j: usize = 0;
    while j < current.len()
        invariant
            all == views(previous@) + views(current@),
            i == previous@.len(),
            j <= current@.len(),
            views(merged@) == merge_ids(all.take(i + j), max_identifiers as nat),
        decreases current@.len() - j,
    {
        let item = current[j].clone();
        merge_step(&mut merged, item, max_identifiers);
        j = j + 1;
        proof {
            assert(all.take(i + j).drop_last() =~= all.take(i + j - 1));
            assert(all.take(i + j).last() == views(current@)[j - 1]);
        }
    }
    assert(all.take(i + j) =~= all);
    merged
}

/// Identifiers kept across compactions are genuine identifiers: every collected token
/// satisfies `identifier_token`, and no more than `max` are kept.
pub proof fn lemma_collected_ids_are_identifiers(tokens: Seq<Seq<char>>, max: nat)
    ensures
        forall|t: Seq<char>| collect_ids(tokens, max).contains(t) ==> identifier_token(t),
        collect_ids(tokens, max).finite(),
        collect_ids(tokens, max).len() <= max,
    decreases tokens.len(),
{
    if tokens.len() > 0 {
        lemma_collected_ids_are_identifiers(tokens.drop_last(), max);
    }
}

/// Merged identifiers are distinct and bounded, and the identifiers of the earlier checkpoint
/// keep retention priority: when they are distinct and within the limit, they come first and
/// unchanged.
pub proof fn lemma_merge_keeps_previous_first(previous: Seq<Seq<char>>, current: Seq<Seq<char>>, max: nat)
    ensures
        merge_ids(previous + current, max).no_duplicates(),
        merge_ids(previous + current, max).len() <= max,
        previous.no_duplicates() && previous.len() <= max ==> merge_ids(previous + current, max).take(
            previous.len() as int,
        ) == previous,
    decreases current.len(),
{
    lemma_merge_ids_basic(previous + current, max);
    if previous.no_duplicates() && previous.len() <= max {
        lemma_merge_prefix(previous, current, max);
    }
}

proof fn lemma_merge_ids_basic(items: Seq<Seq<char>>, max: nat)
    ensures
        merge_ids(items, max).no_duplicates(),
        merge_ids(items, max).len() <= max,
    decreases items.len(),
{
    if items.len() > 0 {
        lemma_merge_ids_basic(items.drop_last(), max);
    }
}

proof fn lemma_merge_distinct_identity(items: Seq<Seq<char>>, max: nat)
    requires
        items.no_duplicates(),
        items.len() <= max,
    ensures
        merge_ids(items, max) == items,
    decreases items.len(),
{
    if items.len() > 0 {
        lemma_merge_distinct_identity(items.drop_last(), max);
        assert(!items.drop_last().contains(items.last())) by {
            if items.drop_last().contains(items.last()) {
                let k = choose|k: int| 0 <= k < items.drop_last().len() && items.drop_last()[k] == items.last();
                assert(items[k] == items[items.len() - 1]);
            }
        }
        assert(items.drop_last().push(items.last()) =~= items);
    }
}

proof fn lemma_merge_prefix(previous: Seq<Seq<char>>, current: Seq<Seq<char>>, max: nat)
    requires
        previous.no_duplicates(),
        previous.len() <= max,
    ensures
        merge_ids(previous + current, max).len() >= previous.len(),
        merge_ids(previous + current, max).take(previous.len() as int) == previous,
    decreases current.len(),
{
    if current.len() == 0 {
        assert(previous + current =~= previous);
        lemma_merge_distinct_identity(previous, max);
        assert(previous.take(previous.len() as int) =~= previous);
    } else {
        lemma_merge_prefix(previous, current.drop_last(), max);
        assert((previous + current).drop_last() =~= previous + current.drop_last());
        let prev = merge_ids(previous + current.drop_last(), max);
        if !(prev.len() >= max || prev.contains((previous + current).last())) {
            assert(prev.push((previous + current).last()).take(previous.len() as int) =~= prev.take(previous.len() as int));
        }
    }
}

// ---------------------------------------------------------------------------------------------
// Source preparation
// ---------------------------------------------------------------------------------------------

/// Marker placed where a compaction source item was clipped.
pub open spec fn source_marker() -> Seq<char> {
    "\n… compacted source clipped …\n"@
}

/// The label under which an item kind appears in a compaction source; kinds without a label
/// never enter a source.
pub open spec fn item_label(kind: TranscriptItemKind) -> Option<Seq<char>> {
    match kind {
        TranscriptItemKind::User => Some("user"@),
        TranscriptItemKind::Assistant => Some("assistant"@),
        TranscriptItemKind::Plan => Some("plan"@),
        TranscriptItemKind::ToolExecution => Some("tool_execution_untrusted"@),
        TranscriptItemKind::Approval => Some("approval_record"@),
        TranscriptItemKind::Reasoning => Some("reasoning_summary"@),
        TranscriptItemKind::CommandExecution => Some("command_execution_untrusted"@),
        TranscriptItemKind::FileChange => Some("file_change"@),
        TranscriptItemKind::McpCall => Some("mcp_result_untrusted"@),
        TranscriptItemKind::DynamicToolCall => Some("dynamic_tool_result_untrusted"@),
        TranscriptItemKind::CollabToolCall => Some("collab_tool_result_untrusted"@),
        TranscriptItemKind::Review => Some("review"@),
        TranscriptItemKind::UserInputRequest => None,
        TranscriptItemKind::ContextCompaction => None,
        TranscriptItemKind::SystemContext => None,
    }
}

/// Kinds that carry conversation meaning and may be summarized.
pub open spec fn is_semantic_kind(kind: TranscriptItemKind) -> bool {
    item_label(kind) is Some
}

/// The text of an item in a source: its text rendering, or its persisted payload encoding.
pub open spec fn source_text(item: TranscriptItem) -> Seq<char> {
    match payload_text(item.payload, false) {
        Some(t) => t,
        None => item.payload_json@,
    }
}

/// `[sequence=N kind=LABEL]` followed by the item text clipped to `max_chars`.
pub open spec fn rendered_item(item: TranscriptItem, max_chars: nat) -> Option<Seq<char>> {
    match item_label(item.kind) {
        Some(label) => Some(
            "[sequence="@ + decimal(item.sequence as nat) + " kind="@ + label + "]\n"@ + head_tail(
                source_text(item),
                max_chars,
                source_marker(),
            ),
        ),
        None => None,
    }
}

fn label_str(kind: TranscriptItemKind) -> (out: Option<&'static str>)
    ensures
        match out {
            Some(l) => item_label(kind) == Some(l@),
            None => item_label(kind) is None,
        },
{
    proof {
        reveal_strlit("user");
        reveal_strlit("assistant");
        reveal_strlit("plan");
        reveal_strlit("tool_execution_untrusted");
        reveal_strlit("approval_record");
        reveal_strlit("reasoning_summary");
        reveal_strlit("command_execution_untrusted");
        reveal_strlit("file_change");
        reveal_strlit("mcp_result_untrusted");
        reveal_strlit("dynamic_tool_result_untrusted");
        reveal_strlit("collab_tool_result_untrusted");
        reveal_strlit("review");
    }
    match kind {
        TranscriptItemKind::User => Some("user"),
        TranscriptItemKind::Assistant => Some("assistant"),
        TranscriptItemKind::Plan => Some("plan"),
        TranscriptItemKind::ToolExecution => Some("tool_execution_untrusted"),
        TranscriptItemKind::Approval => Some("approval_record"),
        TranscriptItemKind::Reasoning => Some("reasoning_summary"),
        TranscriptItemKind::CommandExecution => Some("command_execution_untrusted"),
        TranscriptItemKind::FileChange => Some("file_change"),
        TranscriptItemKind::McpCall => Some("mcp_result_untrusted"),
        TranscriptItemKind::DynamicToolCall => Some("dynamic_tool_result_untrusted"),
        TranscriptItemKind::CollabToolCall => Some("collab_tool_result_untrusted"),
        TranscriptItemKind::Review => Some("review"),
        _ => None,
    }
}

/// Renders one item of a compaction source (see `rendered_item`).
pub fn render_item(item: &TranscriptItem, max_chars: usize) -> (out: Option<String>)
    ensures
        match out {
            Some(r) => rendered_item(*item, max_chars as nat) == Some(r@),
            None => rendered_item(*item, max_chars as nat) is None,
        },
{
    let label = match label_str(item.kind) {
        Some(l) => l,
        None => return None,
    };
    let text = match transcript_text(&item.payload, false) {
        Some(t) => t,
        None => item.payload_json.clone(),
    };
    let mut out = "[sequence=".to_owned();
    push_decimal(&mut out, item.sequence);
    push_str(&mut out, " kind=");
    push_str(&mut out, label);
    push_str(&mut out, "]\n");
    let body = bounded_head_tail(&text, max_chars, "\n… compacted source clipped …\n");
    push_str(&mut out, &body);
    proof {
        reveal_strlit("\n… compacted source clipped …\n");
    }
    Some(out)
}

/// Drops the oldest group of a rendered source: everything before the second character of the
/// first `"\n\n[sequence="`. Returns whether anything but whitespace is left; a source without
/// such a separator is left as it is and `false` is returned.
pub fn trim_oldest_source_group(source: &mut String) -> (kept: bool)
    ensures
        match first_occurrence(old(source)@, "\n\n[sequence="@) {
            Some(p) => final(source)@ == old(source)@.skip(p + 2) && kept == (trim(
                final(source)@,
            ).len() > 0),
            None => final(source)@ == old(source)@ && !kept,
        },
{
    proof {
        reveal_strlit("\n\n[sequence=");
    }
    let chars = chars_of(source);
    let marker = chars_of("\n\n[sequence=");
    match find_chars(&chars, &marker) {
        None => {
            proof {
                assert(first_occurrence(old(source)@, "\n\n[sequence="@) is None);
            }
            false
        },
        Some(p) => {
            proof {
                crate::text::lemma_first_occurrence(chars@, marker@, p as int);
            }
            let n = chars.len();
            assert(marker@.len() == 12);
            assert(p + 12 <= n);
            let mut rest = String::new();
            push_chars(&mut rest, &chars, p + 2, n);
            *source = rest;
            assert(source@ =~= old(source)@.skip(p + 2));
            !is_blank_str(source)
        },
    }
}

pub open spec fn run_is(run_id: Option<String>, current: Seq<char>) -> bool {
    run_id matches Some(r) && r@ == current
}

/// Sequence of the first item of Run `current` that is not itself a compaction record.
pub open spec fn first_run_sequence(items: Seq<TranscriptItem>, current: Seq<char>) -> Option<u64>
    decreases items.len(),
{
    if items.len() == 0 {
        None
    } else {
        match first_run_sequence(items.drop_last(), current) {
            Some(s) => Some(s),
            None => {
                let item = items.last();
                if run_is(item.run_id, current) && item.kind != TranscriptItemKind::ContextCompaction {
                    Some(item.sequence)
                } else {
                    None
                }
            },
        }
    }
}

/// Where the current Run starts in the transcript, unless compaction is continuing inside that
/// Run (the previous checkpoint belongs to it).
pub open spec fn run_boundary(
    items: Seq<TranscriptItem>,
    current: Option<Seq<char>>,
    previous: Option<CompactionCheckpoint>,
) -> Option<u64> {
    match current {
        None => None,
        Some(c) => if previous matches Some(p) && run_is(p.run_id, c) {
            None
        } else {
            first_run_sequence(items, c)
        },
    }
}

pub open spec fn source_eligible(item: TranscriptItem, previous_sequence: u64, boundary: Option<u64>) -> bool {
    &&& item.sequence > previous_sequence
    &&& (boundary matches Some(b) ==> item.sequence < b)
    &&& is_semantic_kind(item.kind)
}

/// Semantic items after the previous checkpoint and before the current Run, in order.
pub open spec fn eligible_items(items: Seq<TranscriptItem>, previous_sequence: u64, boundary: Option<u64>) -> Seq<
    TranscriptItem,
>
    decreases items.len(),
{
    if items.len() == 0 {
        Seq::empty()
    } else {
        let rest = eligible_items(items.drop_last(), previous_sequence, boundary);
        if source_eligible(items.last(), previous_sequence, boundary) {
            rest.push(items.last())
        } else {
            rest
        }
    }
}

proof fn lemma_eligible_members(items: Seq<TranscriptItem>, previous_sequence: u64, boundary: Option<u64>)
    ensures
        forall|x: TranscriptItem|
            #![trigger eligible_items(items, previous_sequence, boundary).contains(x)]
            eligible_items(items, previous_sequence, boundary).contains(x) ==> source_eligible(
                x,
                previous_sequence,
                boundary,
            ),
    decreases items.len(),
{
    if items.len() > 0 {
        lemma_eligible_members(items.drop_last(), previous_sequence, boundary);
        let rest = eligible_items(items.drop_last(), previous_sequence, boundary);
        assert forall|x: TranscriptItem|
            #![trigger eligible_items(items, previous_sequence, boundary).contains(x)]
            eligible_items(items, previous_sequence, boundary).contains(x) implies source_eligible(
                x,
                previous_sequence,
                boundary,
            ) by {
            let e = eligible_items(items, previous_sequence, boundary);
            let j = choose|j: int| 0 <= j < e.len() && e[j] == x;
            if source_eligible(items.last(), previous_sequence, boundary) && j == rest.len() {
            } else {
                assert(rest[j] == x);
                assert(rest.contains(x));
            }
        }
    }
}

proof fn lemma_eligible_includes(items: Seq<TranscriptItem>, previous_sequence: u64, boundary: Option<u64>, i: int)
    requires
        0 <= i < items.len(),
        source_eligible(items[i], previous_sequence, boundary),
    ensures
        eligible_items(items, previous_sequence, boundary).contains(items[i]),
    decreases items.len(),
{
    let rest = eligible_items(items.drop_last(), previous_sequence, boundary);
    let e = eligible_items(items, previous_sequence, boundary);
    if i == items.len() - 1 {
        assert(e[rest.len() as int] == items[i]);
    } else {
        lemma_eligible_includes(items.drop_last(), previous_sequence, boundary, i);
        assert(items.drop_last()[i] == items[i]);
        let j = choose|j: int| 0 <= j < rest.len() && rest[j] == items[i];
        assert(e[j] == items[i]);
    }
}

/// What enters a compaction source: every conversation item after the previous checkpoint and
/// before the current Run — user, assistant, plan, tool execution, approval, reasoning,
/// command, file change, MCP call, dynamic tool call, collaboration tool call and review — is
/// eligible and rendered as `[sequence=N kind=LABEL]` and its clipped text, tool output under
/// an "untrusted" label; user-input requests, compaction records and system context never are.
pub proof fn conversation_items_enter_compaction_sources(
    items: Seq<TranscriptItem>,
    previous_sequence: u64,
    boundary: Option<u64>,
    i: int,
    max_chars: nat,
)
    requires
        0 <= i < items.len(),
        items[i].sequence > previous_sequence,
        boundary matches Some(b) ==> items[i].sequence < b,
    ensures
        ({
            let item = items[i];
            let excluded = item.kind == TranscriptItemKind::UserInputRequest || item.kind
                == TranscriptItemKind::ContextCompaction || item.kind == TranscriptItemKind::SystemContext;
            let head = "[sequence="@ + decimal(item.sequence as nat) + " kind="@;
            let body = "]\n"@ + head_tail(source_text(item), max_chars, source_marker());
            &&& eligible_items(items, previous_sequence, boundary).contains(item) == !excluded
            &&& excluded ==> rendered_item(item, max_chars) is None
            &&& match item.kind {
                TranscriptItemKind::User => rendered_item(item, max_chars) == Some(head + "user"@ + body),
                TranscriptItemKind::Assistant => rendered_item(item, max_chars) == Some(head + "assistant"@ + body),
                TranscriptItemKind::Plan => rendered_item(item, max_chars) == Some(head + "plan"@ + body),
                TranscriptItemKind::ToolExecution => rendered_item(item, max_chars) == Some(
                    head + "tool_execution_untrusted"@ + body,
                ),
                TranscriptItemKind::Approval => rendered_item(item, max_chars) == Some(head + "approval_record"@ + body),
                TranscriptItemKind::Reasoning => rendered_item(item, max_chars) == Some(
                    head + "reasoning_summary"@ + body,
                ),
                TranscriptItemKind::CommandExecution => rendered_item(item, max_chars) == Some(
                    head + "command_execution_untrusted"@ + body,
                ),
                TranscriptItemKind::FileChange => rendered_item(item, max_chars) == Some(head + "file_change"@ + body),
                TranscriptItemKind::McpCall => rendered_item(item, max_chars) == Some(
                    head + "mcp_result_untrusted"@ + body,
                ),
                TranscriptItemKind::DynamicToolCall => rendered_item(item, max_chars) == Some(
                    head + "dynamic_tool_result_untrusted"@ + body,
                ),
                TranscriptItemKind::CollabToolCall => rendered_item(item, max_chars) == Some(
                    head + "collab_tool_result_untrusted"@ + body,
                ),
                TranscriptItemKind::Review => rendered_item(item, max_chars) == Some(head + "review"@ + body),
                _ => true,
            }
        }),
{
    let item = items[i];
    lemma_eligible_members(items, previous_sequence, boundary);
    if is_semantic_kind(item.kind) {
        lemma_eligible_includes(items, previous_sequence, boundary, i);
    } else {
        if eligible_items(items, previous_sequence, boundary).contains(item) {
            assert(source_eligible(item, previous_sequence, boundary));
        }
    }
    let head = "[sequence="@ + decimal(item.sequence as nat) + " kind="@;
    let body = "]\n"@ + head_tail(source_text(item), max_chars, source_marker());
    match item_label(item.kind) {
        Some(l) => {
            assert(rendered_item(item, max_chars) == Some(head + l + body)) by {
                assert(head + l + body =~= "[sequence="@ + decimal(item.sequence as nat) + " kind="@ + l + "]\n"@
                    + head_tail(source_text(item), max_chars, source_marker()));
            }
        },
        None => {},
    }
}

pub open spec fn sum_lens(texts: Seq<Seq<char>>) -> nat
    decreases texts.len(),
{
    if texts.len() == 0 {
        0
    } else {
        sum_lens(texts.drop_last()) + texts.last().len()
    }
}

/// Greedy packing of rendered items into a source of at most `max` characters: items are joined
/// by blank lines; an item that would overflow ends the packing unless it is the first, which is
/// clipped head-and-tail to fit; packing also ends once the source is full. Returns the source,
/// the number of items taken, and whether packing ended.
pub open spec fn pack(texts: Seq<Seq<char>>, max: nat) -> (Seq<char>, nat, bool)
    decreases texts.len(),
{
    if texts.len() == 0 {
        (Seq::empty(), 0, false)
    } else {
        let (r, n, stopped) = pack(texts.drop_last(), max);
        if stopped {
            (r, n, true)
        } else {
            let t = texts.last();
            let sep: nat = if r.len() > 0 { 2 } else { 0 };
            if n > 0 && r.len() + t.len() + sep > max {
                (r, n, true)
            } else {
                let r1 = if r.len() > 0 { r + "\n\n"@ } else { r };
                let remaining: nat = if max >= r1.len() { (max - r1.len()) as nat } else { 0 };
                let r2 = r1 + head_tail(t, remaining, source_marker());
                (r2, n + 1, r2.len() >= max)
            }
        }
    }
}

/// Texts joined by blank lines.
pub open spec fn blank_joined(texts: Seq<Seq<char>>) -> Seq<char>
    decreases texts.len(),
{
    if texts.len() == 0 {
        Seq::empty()
    } else if texts.len() == 1 {
        texts[0]
    } else {
        blank_joined(texts.drop_last()) + "\n\n"@ + texts.last()
    }
}

proof fn lemma_blank_joined_len(texts: Seq<Seq<char>>)
    requires
        texts.len() > 0,
    ensures
        blank_joined(texts).len() == sum_lens(texts) + 2 * (texts.len() - 1),
    decreases texts.len(),
{
    reveal_strlit("\n\n");
    let d = texts.drop_last();
    assert(sum_lens(texts) == sum_lens(d) + texts.last().len());
    if texts.len() > 1 {
        lemma_blank_joined_len(d);
    } else {
        assert(d.len() == 0);
        assert(sum_lens(d) == 0);
        assert(texts.last() == texts[0]);
    }
}

/// A source that fits is taken whole: when the non-empty texts, joined by blank lines, fit in
/// `max` characters, packing takes every text, in order, unclipped.
pub proof fn fitting_sources_are_packed_whole(texts: Seq<Seq<char>>, max: nat)
    requires
        texts.len() > 0,
        forall|k: int| 0 <= k < texts.len() ==> (#[trigger] texts[k]).len() > 0,
        sum_lens(texts) + 2 * (texts.len() - 1) <= max,
    ensures
        pack(texts, max) == (blank_joined(texts), texts.len(), blank_joined(texts).len() >= max),
    decreases texts.len(),
{
    reveal_strlit("\n\n");
    lemma_blank_joined_len(texts);
    let d = texts.drop_last();
    let t = texts.last();
    assert(t == texts[texts.len() - 1]);
    assert(t.len() > 0);
    assert(sum_lens(texts) == sum_lens(d) + t.len());
    if texts.len() > 1 {
        assert forall|k: int| 0 <= k < d.len() implies (#[trigger] d[k]).len() > 0 by {
            assert(d[k] == texts[k]);
        }
        fitting_sources_are_packed_whole(d, max);
        lemma_blank_joined_len(d);
        assert(blank_joined(d).len() > 0);
        let r = blank_joined(d);
        let r1 = r + "\n\n"@;
        assert(r1.len() + t.len() <= max);
        assert(head_tail(t, (max - r1.len()) as nat, source_marker()) == t);
        assert(blank_joined(texts) == r1 + t);
    } else {
        assert(d.len() == 0);
        assert(pack(d, max) == (Seq::<char>::empty(), 0nat, false));
        assert(head_tail(t, max, source_marker()) == t);
        assert(Seq::<char>::empty() + t =~= t);
        assert(blank_joined(texts) == texts[0]);
    }
}

/// The last user item, if any.
pub open spec fn last_user(items: Seq<TranscriptItem>) -> Option<TranscriptItem>
    decreases items.len(),
{
    if items.len() == 0 {
        None
    } else if items.last().kind == TranscriptItemKind::User {
        Some(items.last())
    } else {
        last_user(items.drop_last())
    }
}

/// The user goal an item records, clipped to 8 KiB.
pub open spec fn goal_of(u: TranscriptItem) -> Option<Seq<char>> {
    match payload_text(u.payload, false) {
        Some(t) => Some(head_tail(t, 8192, source_marker())),
        None => None,
    }
}

/// A compaction source ready for summarization.
#[derive(Debug)]
pub struct PreparedSource {
    pub rendered: String,
    pub latest_user_goal: Option<String>,
    pub covered_through_sequence: u64,
    pub source_items: usize,
    pub source_chars: usize,
    pub recent_tail_items: usize,
}

pub open spec fn rendered_or_empty(item: TranscriptItem, max_chars: nat) -> Seq<char> {
    match rendered_item(item, max_chars) {
        Some(t) => t,
        None => Seq::empty(),
    }
}

pub open spec fn checkpoint_sequence(previous: Option<CompactionCheckpoint>) -> u64 {
    match previous {
        Some(p) => p.covered_through_sequence,
        None => 0,
    }
}

/// The items a source covers: eligible items except the recent tail.
pub open spec fn coverable_items(
    items: Seq<TranscriptItem>,
    current: Option<Seq<char>>,
    previous: Option<CompactionCheckpoint>,
    policy: CompactionPolicy,
) -> Seq<TranscriptItem> {
    let e = eligible_items(items, checkpoint_sequence(previous), run_boundary(items, current, previous));
    e.take(e.len() - policy.recent_tail_items)
}

pub open spec fn source_texts(covered: Seq<TranscriptItem>, policy: CompactionPolicy) -> Seq<Seq<char>> {
    covered.map_values(|it: TranscriptItem| rendered_or_empty(it, policy.max_item_chars as nat))
}

/// The outcome `prepare_source` must produce: `None` when nothing beyond the recent tail is
/// eligible, when an automatic run finds less than the trigger size, or when nothing could be
/// packed; otherwise the packed source, the latest user goal among the packed items (clipped
/// to 8 KiB), the last packed sequence, and the counts.
pub open spec fn prepared(
    items: Seq<TranscriptItem>,
    current: Option<Seq<char>>,
    previous: Option<CompactionCheckpoint>,
    policy: CompactionPolicy,
    force: bool,
) -> Option<(Seq<char>, Option<Seq<char>>, u64, nat, nat, nat)> {
    let e = eligible_items(items, checkpoint_sequence(previous), run_boundary(items, current, previous));
    if e.len() <= policy.recent_tail_items {
        None
    } else {
        let cov = coverable_items(items, current, previous, policy);
        let texts = source_texts(cov, policy);
        if !force && sum_lens(texts) < policy.automatic_trigger_chars {
            None
        } else {
            let (r, n, _) = pack(texts, policy.max_source_chars as nat);
            if n == 0 {
                None
            } else {
                let sel = cov.take(n as int);
                let goal = match last_user(sel) {
                    Some(u) => goal_of(u),
                    None => None,
                };
                Some((r, goal, sel.last().sequence, n, r.len(), (e.len() - n) as nat))
            }
        }
    }
}

pub open spec fn prepared_view(p: PreparedSource) -> (Seq<char>, Option<Seq<char>>, u64, nat, nat, nat) {
    (
        p.rendered@,
        match p.latest_user_goal {
            Some(g) => Some(g@),
            None => None,
        },
        p.covered_through_sequence,
        p.source_items as nat,
        p.source_chars as nat,
        p.recent_tail_items as nat,
    )
}

pub open spec fn opt_str_view(s: Option<&str>) -> Option<Seq<char>> {
    match s {
        Some(x) => Some(x@),
        None => None,
    }
}

fn first_run_sequence_exec(transcript: &Vec<TranscriptItem>, current: &str) -> (out: Option<u64>)
    ensures
        out == first_run_sequence(transcript@, current@),
{
    let mut i: usize = 0;
    while i < transcript.len()
        invariant
            i <= transcript@.len(),
            first_run_sequence(transcript@.take(i as int), current@) is None,
        decreases transcript@.len() - i,
    {
        let item = &transcript[i];
        let matches = match &item.run_id {
            Some(r) => str_eq(r, current),
            None => false,
        };
        proof {
            assert(transcript@.take(i + 1).drop_last() =~= transcript@.take(i as int));
            assert(transcript@.take(i + 1).last() == *item);
        }
        if matches && item.kind != TranscriptItemKind::ContextCompaction {
            proof {
                lemma_first_run_sequence_extend(transcript@, current@, (i + 1) as nat);
            }
            return Some(item.sequence);
        }
        i = i + 1;
    }
    assert(transcript@.take(i as int) =~= transcript@);
    None
}

proof fn lemma_first_run_sequence_extend(items: Seq<TranscriptItem>, current: Seq<char>, i: nat)
    requires
        i <= items.len(),
        first_run_sequence(items.take(i as int), current) is Some,
    ensures
        first_run_sequence(items, current) == first_run_sequence(items.take(i as int), current),
    decreases items.len() - i,
{
    if i < items.len() {
        assert(items.take((i + 1) as int).drop_last() =~= items.take(i as int));
        lemma_first_run_sequence_extend(items, current, i + 1);
    } else {
        assert(items.take(i as int) =~= items);
    }
}

fn collect_eligible(transcript: &Vec<TranscriptItem>, previous_sequence: u64, boundary: Option<u64>) -> (eligible: Vec<usize>)
    ensures
        forall|k: int| 0 <= k < eligible@.len() ==> #[trigger] eligible@[k] < transcript@.len(),
        eligible@.map_values(|k: usize| transcript@[k as int]) == eligible_items(
            transcript@,
            previous_sequence,
            boundary,
        ),
{
    let mut eligible: Vec<usize> = Vec::new();
    let mut i: usize = 0;
    while i < transcript.len()
        invariant
            i <= transcript@.len(),
            forall|k: int| 0 <= k < eligible@.len() ==> #[trigger] eligible@[k] < transcript@.len(),
            eligible@.map_values(|k: usize| transcript@[k as int]) == eligible_items(
                transcript@.take(i as int),
                previous_sequence,
                boundary,
            ),
        decreases transcript@.len() - i,
    {
        let item = &transcript[i];
        let in_range = item.sequence > previous_sequence && match boundary {
            Some(b) => item.sequence < b,
            None => true,
        };
        if in_range && label_str(item.kind).is_some() {
            eligible.push(i);
        }
        i = i + 1;
        proof {
            assert(transcript@.take(i as int).drop_last() =~= transcript@.take((i - 1) as int));
            assert(transcript@.take(i as int).last() == *item);
            assert(eligible@.map_values(|k: usize| transcript@[k as int]) =~= eligible_items(
                transcript@.take(i as int),
                previous_sequence,
                boundary,
            ));
        }
    }
    proof {
        assert(transcript@.take(i as int) =~= transcript@);
    }
    eligible
}

/// Renders the first `coverable` eligible items; also reports whether their total length
/// reaches `trigger`.
fn render_coverable(
    transcript: &Vec<TranscriptItem>,
    eligible: &Vec<usize>,
    coverable: usize,
    policy: CompactionPolicy,
) -> (out: (Vec<String>, bool))
    requires
        coverable <= eligible@.len(),
        forall|x: int| 0 <= x < eligible@.len() ==> #[trigger] eligible@[x] < transcript@.len(),
    ensures
        views(out.0@) == source_texts(
            eligible@.map_values(|x: usize| transcript@[x as int]).take(coverable as int),
            policy,
        ),
        out.1 == (sum_lens(views(out.0@)) >= policy.automatic_trigger_chars),
{
    let ghost cov = eligible@.map_values(|x: usize| transcript@[x as int]).take(coverable as int);
    let mut texts: Vec<String> = Vec::new();
    let mut reached = policy.automatic_trigger_chars == 0;
    let mut acc: usize = 0;
    let mut k: usize = 0;
    proof {
        assert(cov.take(0) =~= Seq::<TranscriptItem>::empty());
        assert(views(texts@) =~= Seq::<Seq<char>>::empty());
    }
    while k < coverable
        invariant
            coverable <= eligible@.len(),
            cov == eligible@.map_values(|x: usize| transcript@[x as int]).take(coverable as int),
            forall|x: int| 0 <= x < eligible@.len() ==> #[trigger] eligible@[x] < transcript@.len(),
            k <= coverable,
            views(texts@) == source_texts(cov.take(k as int), policy),
            reached ==> sum_lens(views(texts@)) >= policy.automatic_trigger_chars,
            !reached ==> acc == sum_lens(views(texts@)) && acc < policy.automatic_trigger_chars,
        decreases coverable - k,
    {
        let item = &transcript[eligible[k]];
        let text = match render_item(item, policy.max_item_chars) {
            Some(t) => t,
            None => String::new(),
        };
        let len = text.unicode_len();
        let ghost before = views(texts@);
        if !reached {
            if len >= policy.automatic_trigger_chars - acc {
                reached = true;
            } else {
                acc = acc + len;
            }
        }
        texts.push(text);
        k = k + 1;
        proof {
            assert(views(texts@) =~= before.push(texts@[k - 1]@));
            assert(views(texts@).drop_last() =~= before);
            assert(cov.take(k as int).drop_last() =~= cov.take((k - 1) as int));
            assert(cov.take(k as int).last() == transcript@[eligible@[k - 1] as int]);
            assert(source_texts(cov.take(k as int), policy) =~= source_texts(cov.take((k - 1) as int), policy).push(
                rendered_or_empty(transcript@[eligible@[k - 1] as int], policy.max_item_chars as nat),
            ));
        }
    }
    proof {
        assert(cov.take(coverable as int) =~= cov);
    }
    (texts, reached)
}

/// Packs rendered items (see `pack`): the source and the number of items taken.
fn pack_texts(texts: &Vec<String>, max: usize) -> (out: (String, usize))
    ensures
        out.0@ == pack(views(texts@), max as nat).0,
        out.1 as nat == pack(views(texts@), max as nat).1,
        out.0@.len() <= max,
{
    let mut rendered = String::new();
    let mut rendered_len: usize = 0;
    let mut n: usize = 0;
    let mut stopped = false;
    let mut j: usize = 0;
    let ghost tv = views(texts@);
    proof {
        assert(tv.take(0) =~= Seq::<Seq<char>>::empty());
    }
    while j < texts.len()
        invariant
            tv == views(texts@),
            j <= texts@.len(),
            (rendered@, n as nat, stopped) == pack(tv.take(j as int), max as nat),
            rendered_len == rendered@.len(),
            rendered_len <= max,
            rendered_len > 0 ==> n > 0,
            n <= j,
        decreases texts@.len() - j,
    {
        proof {
            assert(tv.take(j + 1).drop_last() =~= tv.take(j as int));
            assert(tv.take(j + 1).last() == texts@[j as int]@);
        }
        if !stopped {
            let t = &texts[j];
            let t_len = t.unicode_len();
            let sep: usize = if rendered_len > 0 { 2 } else { 0 };
            let budget = max - rendered_len;
            let overflows = if sep > budget { true } else { t_len > budget - sep };
            if n > 0 && overflows {
                stopped = true;
            } else {
                if rendered_len > 0 {
                    push_str(&mut rendered, "\n\n");
                    rendered_len = rendered_len + 2;
                    proof {
                        reveal_strlit("\n\n");
                    }
                }
                let remaining = max - rendered_len;
                let part = bounded_head_tail(t, remaining, "\n… compacted source clipped …\n");
                proof {
                    reveal_strlit("\n… compacted source clipped …\n");
                    crate::text::lemma_head_tail_len(t@, remaining as nat, source_marker());
                }
                let part_len = part.unicode_len();
                push_str(&mut rendered, &part);
                rendered_len = rendered_len + part_len;
                n = n + 1;
                stopped = rendered_len >= max;
            }
        }
        j = j + 1;
    }
    proof {
        assert(tv.take(j as int) =~= tv);
    }
    (rendered, n)
}

/// The user goal of the last user item among the first `n` eligible items.
fn latest_goal(transcript: &Vec<TranscriptItem>, eligible: &Vec<usize>, n: usize) -> (goal: Option<String>)
    requires
        n <= eligible@.len(),
        forall|x: int| 0 <= x < eligible@.len() ==> #[trigger] eligible@[x] < transcript@.len(),
    ensures
        crate::transcript::opt_view(goal) == match last_user(
            eligible@.map_values(|x: usize| transcript@[x as int]).take(n as int),
        ) {
            Some(u) => goal_of(u),
            None => None,
        },
{
    let ghost sel = eligible@.map_values(|x: usize| transcript@[x as int]).take(n as int);
    let mut g: usize = n;
    while g > 0
        invariant
            n <= eligible@.len(),
            sel == eligible@.map_values(|x: usize| transcript@[x as int]).take(n as int),
            forall|x: int| 0 <= x < eligible@.len() ==> #[trigger] eligible@[x] < transcript@.len(),
            g <= n,
            last_user(sel) == last_user(sel.take(g as int)),
        decreases g,
    {
        let item = &transcript[eligible[g - 1]];
        proof {
            assert(sel.take(g as int).drop_last() =~= sel.take(g - 1));
            assert(sel.take(g as int).last() == *item);
        }
        if item.kind == TranscriptItemKind::User {
            proof {
                reveal_strlit("\n… compacted source clipped …\n");
            }
            return match transcript_text(&item.payload, false) {
                Some(t) => Some(bounded_head_tail(&t, 8192, "\n… compacted source clipped …\n")),
                None => None,
            };
        }
        g = g - 1;
    }
    proof {
        assert(sel.take(0) =~= Seq::<TranscriptItem>::empty());
    }
    None
}

/// Selects and renders the part of the transcript that a new checkpoint may cover (see
/// `prepared`). Items of the current Run are excluded unless compaction continues inside it,
/// and the recent tail always stays verbatim.
#[verifier::rlimit(40)]
pub fn prepare_source(
    transcript: &Vec<TranscriptItem>,
    current_run_id: Option<&str>,
    previous: Option<&CompactionCheckpoint>,
    policy: CompactionPolicy,
    force: bool,
) -> (out: Option<PreparedSource>)
    ensures
        ({
            let prev = match previous {
                Some(p) => Some(*p),
                None => None,
            };
            match out {
                Some(p) => prepared(transcript@, opt_str_view(current_run_id), prev, policy, force)
                    == Some(prepared_view(p)),
                None => prepared(transcript@, opt_str_view(current_run_id), prev, policy, force) is None,
            }
        }),
{
    let ghost prev = match previous {
        Some(p) => Some(*p),
        None => None,
    };
    let ghost cur = opt_str_view(current_run_id);
    let previous_sequence = match previous {
        Some(p) => p.covered_through_sequence,
        None => 0,
    };
    let boundary = match current_run_id {
        None => None,
        Some(c) => {
            let continuing = match previous {
                Some(p) => match &p.run_id {
                    Some(r) => str_eq(r, c),
                    None => false,
                },
                None => false,
            };
            if continuing {
                None
            } else {
                first_run_sequence_exec(transcript, c)
            }
        },
    };
    assert(boundary == run_boundary(transcript@, cur, prev));
    assert(previous_sequence == checkpoint_sequence(prev));
    let eligible = collect_eligible(transcript, previous_sequence, boundary);
    let ghost e = eligible_items(transcript@, previous_sequence, boundary);
    if eligible.len() <= policy.recent_tail_items {
        return None;
    }
    let coverable = eligible.len() - policy.recent_tail_items;
    let ghost cov = coverable_items(transcript@, cur, prev, policy);
    assert(cov == eligible@.map_values(|x: usize| transcript@[x as int]).take(coverable as int));
    let (texts, reached) = render_coverable(transcript, &eligible, coverable, policy);
    if !force && !reached {
        return None;
    }
    let (rendered, n) = pack_texts(&texts, policy.max_source_chars);
    if n == 0 {
        return None;
    }
    proof {
        let p = pack(views(texts@), policy.max_source_chars as nat);
        lemma_pack_count(views(texts@), policy.max_source_chars as nat);
    }
    let goal = latest_goal(transcript, &eligible, n);
    let ghost sel = cov.take(n as int);
    assert(sel == eligible@.map_values(|x: usize| transcript@[x as int]).take(n as int));
    let last_item = &transcript[eligible[n - 1]];
    assert(sel.last() == *last_item);
    let source_chars = rendered.unicode_len();
    let out = PreparedSource {
        rendered,
        latest_user_goal: goal,
        covered_through_sequence: last_item.sequence,
        source_items: n,
        source_chars,
        recent_tail_items: eligible.len() - n,
    };
    Some(out)
}

proof fn lemma_pack_count(texts: Seq<Seq<char>>, max: nat)
    ensures
        pack(texts, max).1 <= texts.len(),
    decreases texts.len(),
{
    if texts.len() > 0 {
        lemma_pack_count(texts.drop_last(), max);
    }
}

proof fn lemma_eligible_after(items: Seq<TranscriptItem>, previous_sequence: u64, boundary: Option<u64>)
    ensures
        forall|i: int|
            0 <= i < eligible_items(items, previous_sequence, boundary).len() ==> #[trigger] eligible_items(
                items,
                previous_sequence,
                boundary,
            )[i].sequence > previous_sequence,
    decreases items.len(),
{
    if items.len() > 0 {
        lemma_eligible_after(items.drop_last(), previous_sequence, boundary);
    }
}

/// A new checkpoint always covers more than the previous one: the source it summarizes ends
/// after the sequence the previous checkpoint covered.
pub proof fn checkpoints_cover_beyond_previous(
    items: Seq<TranscriptItem>,
    current: Option<Seq<char>>,
    previous: Option<CompactionCheckpoint>,
    policy: CompactionPolicy,
    force: bool,
)
    requires
        prepared(items, current, previous, policy, force) is Some,
    ensures
        prepared(items, current, previous, policy, force).unwrap().2 > checkpoint_sequence(previous),
{
    let e = eligible_items(items, checkpoint_sequence(previous), run_boundary(items, current, previous));
    let cov = coverable_items(items, current, previous, policy);
    let texts = source_texts(cov, policy);
    lemma_pack_count(texts, policy.max_source_chars as nat);
    lemma_eligible_after(items, checkpoint_sequence(previous), run_boundary(items, current, previous));
    let n = pack(texts, policy.max_source_chars as nat).1;
    let sel = cov.take(n as int);
    assert(sel.last() == e[n - 1]);
}

} // verus!
