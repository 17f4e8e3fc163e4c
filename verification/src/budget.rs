//! Provider-neutral context budgeting and transient request compaction (Microcompact).

use vstd::prelude::*;

use crate::compaction_flow::{preferred, preferred_count_source, TokenCountSource};
use crate::json::{json_parse, json_print, json_view, items_view, members_view, parse_json, print_json, JsonValue, JsonView};
use crate::model::{call_views, message_views, MessageView, ModelMessage, ModelRole, ModelToolCall};
use crate::text::{
    ascii_lower_seq, bounded, chars_of, contains_seq, contains_str, has_prefix, head_marker_tail,
    join_head_marker_tail, push_chars, push_str, starts_with, str_eq, string_from_chars, take_chars,
    to_ascii_lowercase,
};

verus! {

/// Summary reserve used when the provider reports no output limit.
pub const DEFAULT_SUMMARY_RESERVE: u64 = 4096;

/// Largest summary reserve.
pub const MAX_SUMMARY_RESERVE: u64 = 20000;

/// Expected growth of one turn by tool output, in tokens.
pub const ESTIMATED_TOOL_GROWTH: u64 = 15000;

/// Characters kept at each end of an old tool result.
pub const MICROCOMPACT_EDGE_CHARS: usize = 1024;

/// The token budget of a provider's context window.
#[derive(PartialEq, Eq, Structural, Clone, Copy, Debug)]
pub struct ContextBudget {
    pub context_window: u64,
    pub summary_reserve: u64,
    pub predictive_buffer: u64,
    pub auto_threshold: u64,
}

pub open spec fn min_u64(a: u64, b: u64) -> u64 {
    if a <= b { a } else { b }
}

pub open spec fn max_u64(a: u64, b: u64) -> u64 {
    if a >= b { a } else { b }
}

pub open spec fn sat_sub(a: u64, b: u64) -> u64 {
    if a >= b { (a - b) as u64 } else { 0 }
}

/// The buffer kept for the next turn, by size tier of the context window.
pub open spec fn tier_buffer(context_window: u64) -> u64 {
    if context_window >= 800000 {
        50000
    } else if context_window >= 400000 {
        30000
    } else {
        13000
    }
}

/// The budget of a context window: a summary reserve (the provider's output limit, at most
/// `MAX_SUMMARY_RESERVE` and a quarter of the window), a predictive buffer (the larger of the
/// tier buffer and one turn's expected growth, at most the larger of a quarter of the window
/// and 2048), and the automatic compaction threshold left after both. There is no budget
/// without a known window or when nothing is left.
pub open spec fn budget_for(context_window: Option<u64>, max_output_tokens: Option<u64>) -> Option<ContextBudget> {
    match context_window {
        None => None,
        Some(window) => {
            let provider_output = match max_output_tokens {
                Some(m) => m,
                None => DEFAULT_SUMMARY_RESERVE,
            };
            let capped = min_u64(provider_output, MAX_SUMMARY_RESERVE);
            let summary_reserve = min_u64(capped, window / 4);
            let growth = (capped + ESTIMATED_TOOL_GROWTH) as u64;
            let predictive_buffer = min_u64(max_u64(tier_buffer(window), growth), max_u64(window / 4, 2048));
            let auto_threshold = sat_sub(sat_sub(window, summary_reserve), predictive_buffer);
            if auto_threshold > 0 {
                Some(
                    ContextBudget {
                        context_window: window,
                        summary_reserve,
                        predictive_buffer,
                        auto_threshold,
                    },
                )
            } else {
                None
            }
        },
    }
}

/// What a context budget promises: nothing without a known window; every window of at least
/// 8192 tokens gets a budget whose automatic threshold keeps at least half of it; and in every
/// budget the summary reserve is the smallest of the provider's output limit (4096 when it
/// reports none), 20000 and a quarter of the window, the predictive buffer is at most the larger
/// of a quarter of the window and 2048 (and otherwise covers one turn's growth and the size
/// tier's buffer), and reserve, buffer and threshold add up to the window.
pub proof fn context_budgets_leave_room(context_window: Option<u64>, max_output_tokens: Option<u64>)
    ensures
        context_window is None ==> budget_for(context_window, max_output_tokens) is None,
        forall|w: u64|
            context_window == Some(w) && w >= 8192 ==> (#[trigger] budget_for(Some(w), max_output_tokens) matches Some(b)
                && b.auto_threshold >= w / 2),
        budget_for(context_window, max_output_tokens) matches Some(b) ==> {
            let w = b.context_window;
            let output = match max_output_tokens {
                Some(m) => m,
                None => 4096,
            };
            let cap = if w / 4 >= 2048 { w / 4 } else { 2048 };
            let limited = if output <= 20000 { output } else { 20000 };
            &&& context_window == Some(w)
            &&& b.summary_reserve <= output && b.summary_reserve <= 20000 && b.summary_reserve <= w / 4
            &&& (b.summary_reserve == limited || b.summary_reserve == w / 4)
            &&& b.predictive_buffer <= cap
            &&& (b.predictive_buffer == cap || (b.predictive_buffer >= limited + 15000 && b.predictive_buffer >= (
            if w >= 800000 {
                50000u64
            } else if w >= 400000 {
                30000u64
            } else {
                13000u64
            })))
            &&& b.auto_threshold > 0
            &&& b.summary_reserve + b.predictive_buffer + b.auto_threshold == w
        },
{
}

/// The context budget of a provider, when its context window is known and leaves room.
pub fn context_budget(capabilities: &crate::capabilities::ProviderCapabilities) -> (out: Option<ContextBudget>)
    ensures
        out == budget_for(capabilities.context_window, capabilities.max_output_tokens),
{
    let window = match capabilities.context_window {
        Some(w) => w,
        None => return None,
    };
    let provider_output = match capabilities.max_output_tokens {
        Some(m) => m,
        None => DEFAULT_SUMMARY_RESERVE,
    };
    let capped = if provider_output <= MAX_SUMMARY_RESERVE { provider_output } else { MAX_SUMMARY_RESERVE };
    let quarter = window / 4;
    let summary_reserve = if capped <= quarter { capped } else { quarter };
    let tier = if window >= 800000 {
        50000
    } else if window >= 400000 {
        30000
    } else {
        13000
    };
    let growth = capped + ESTIMATED_TOOL_GROWTH;
    let wanted = if tier >= growth { tier } else { growth };
    let cap = if quarter >= 2048 { quarter } else { 2048 };
    let predictive_buffer = if wanted <= cap { wanted } else { cap };
    let after_reserve = if window >= summary_reserve { window - summary_reserve } else { 0 };
    let auto_threshold = if after_reserve >= predictive_buffer { after_reserve - predictive_buffer } else { 0 };
    if auto_threshold > 0 {
        Some(ContextBudget { context_window: window, summary_reserve, predictive_buffer, auto_threshold })
    } else {
        None
    }
}

// ---------------------------------------------------------------------------------------------
// Old tool results
// ---------------------------------------------------------------------------------------------

pub open spec fn microcompact_marker() -> Seq<char> {
    "\n[... older tool result elided by Microcompact ...]\n"@
}

/// A tool result longer than twice the edge keeps its first and last `MICROCOMPACT_EDGE_CHARS`
/// characters around the Microcompact marker.
pub open spec fn edge_clip(value: Seq<char>) -> Seq<char> {
    if value.len() <= 2 * MICROCOMPACT_EDGE_CHARS {
        value
    } else {
        head_marker_tail(value, MICROCOMPACT_EDGE_CHARS as nat, microcompact_marker(), MICROCOMPACT_EDGE_CHARS as nat)
    }
}

pub fn bounded_tool_result(value: &str) -> (out: String)
    ensures
        out@ == edge_clip(value@),
{
    let chars = chars_of(value);
    if chars.len() <= 2 * MICROCOMPACT_EDGE_CHARS {
        return string_from_chars(&chars);
    }
    join_head_marker_tail(
        &chars,
        MICROCOMPACT_EDGE_CHARS,
        "\n[... older tool result elided by Microcompact ...]\n",
        MICROCOMPACT_EDGE_CHARS,
    )
}

/// Position of the first `c` in `s`.
pub open spec fn first_index(s: Seq<char>, c: char) -> Option<int>
    decreases s.len(),
{
    if s.len() == 0 {
        None
    } else {
        match first_index(s.drop_last(), c) {
            Some(i) => Some(i),
            None => if s.last() == c { Some(s.len() - 1) } else { None },
        }
    }
}

/// Position of the last `c` in `s`.
pub open spec fn last_index(s: Seq<char>, c: char) -> Option<int>
    decreases s.len(),
{
    if s.len() == 0 {
        None
    } else if s.last() == c {
        Some(s.len() - 1)
    } else {
        last_index(s.drop_last(), c)
    }
}

proof fn lemma_first_index(s: Seq<char>, c: char, k: int)
    requires
        0 <= k <= s.len(),
        forall|j: int| 0 <= j < k ==> s[j] != c,
        k < s.len() ==> s[k] == c,
    ensures
        first_index(s, c) == (if k < s.len() { Some(k) } else { None::<int> }),
    decreases s.len(),
{
    if s.len() > 0 {
        if k < s.len() - 1 || k == s.len() {
            lemma_first_index(s.drop_last(), c, if k == s.len() { k - 1 } else { k });
        } else {
            lemma_first_index(s.drop_last(), c, k);
        }
    }
}

proof fn lemma_last_index(s: Seq<char>, c: char, k: int)
    requires
        -1 <= k < s.len(),
        forall|j: int| k < j < s.len() ==> s[j] != c,
        k >= 0 ==> s[k] == c,
    ensures
        last_index(s, c) == (if k >= 0 { Some(k) } else { None::<int> }),
    decreases s.len(),
{
    if s.len() > 0 && k < s.len() - 1 {
        lemma_last_index(s.drop_last(), c, k);
    }
}

pub fn find_first(chars: &Vec<char>, c: char) -> (out: Option<usize>)
    ensures
        match out {
            Some(i) => first_index(chars@, c) == Some(i as int) && i < chars@.len(),
            None => first_index(chars@, c) is None,
        },
{
    let mut i: usize = 0;
    while i < chars.len()
        invariant
            i <= chars@.len(),
            forall|j: int| 0 <= j < i ==> chars@[j] != c,
        decreases chars@.len() - i,
    {
        if chars[i] == c {
            proof {
                lemma_first_index(chars@, c, i as int);
            }
            return Some(i);
        }
        i = i + 1;
    }
    proof {
        lemma_first_index(chars@, c, i as int);
    }
    None
}

pub fn find_last(chars: &Vec<char>, c: char) -> (out: Option<usize>)
    ensures
        match out {
            Some(i) => last_index(chars@, c) == Some(i as int) && i < chars@.len(),
            None => last_index(chars@, c) is None,
        },
{
    let mut i: usize = chars.len();
    while i > 0
        invariant
            i <= chars@.len(),
            forall|j: int| i <= j < chars@.len() ==> chars@[j] != c,
        decreases i,
    {
        if chars[i - 1] == c {
            proof {
                lemma_last_index(chars@, c, i - 1);
            }
            return Some(i - 1);
        }
        i = i - 1;
    }
    proof {
        lemma_last_index(chars@, c, -1);
    }
    None
}

/// The braces of a tool result delimit a slice: the last `}` does not stand more than one
/// character before the first `{`.
pub open spec fn metadata_slice_ok(value: Seq<char>) -> bool {
    match (first_index(value, '{'), last_index(value, '}')) {
        (Some(s), Some(e)) => s <= e + 1,
        _ => true,
    }
}

/// Metadata keys (lowercase, without `_` and `-`) whose values are kept.
pub open spec fn is_retained_key(key: Seq<char>) -> bool {
    ||| key == "status"@
    ||| key == "resultcode"@
    ||| key == "artifactid"@
    ||| key == "mimetype"@
    ||| key == "mediatype"@
    ||| key == "contenthash"@
    ||| key == "hash"@
    ||| key == "revision"@
    ||| key == "beforerevision"@
    ||| key == "afterrevision"@
    ||| key == "changedparts"@
    ||| key == "path"@
    ||| key == "displayname"@
    ||| key == "exitcode"@
    ||| key == "durationms"@
    ||| key == "truncated"@
    ||| key == "bytecount"@
    ||| key == "bytesize"@
    ||| key == "target"@
    ||| key == "url"@
    ||| key == "query"@
    ||| key == "matchcount"@
}

pub fn is_retained_metadata_key(key: &str) -> (b: bool)
    ensures
        b == is_retained_key(key@),
{
    str_eq(key, "status") || str_eq(key, "resultcode") || str_eq(key, "artifactid") || str_eq(key, "mimetype")
        || str_eq(key, "mediatype") || str_eq(key, "contenthash") || str_eq(key, "hash") || str_eq(key, "revision")
        || str_eq(key, "beforerevision") || str_eq(key, "afterrevision") || str_eq(key, "changedparts")
        || str_eq(key, "path") || str_eq(key, "displayname") || str_eq(key, "exitcode") || str_eq(key, "durationms")
        || str_eq(key, "truncated") || str_eq(key, "bytecount") || str_eq(key, "bytesize") || str_eq(key, "target")
        || str_eq(key, "url") || str_eq(key, "query") || str_eq(key, "matchcount")
}

/// A key lowercased, without `_` and `-`.
pub open spec fn normalized_key(key: Seq<char>) -> Seq<char> {
    ascii_lower_seq(key).filter(|c: char| c != '_' && c != '-')
}

fn normalize_key(key: &str) -> (out: String)
    ensures
        out@ == normalized_key(key@),
{
    let lower = to_ascii_lowercase(key);
    let chars = chars_of(lower.as_str());
    let ghost l = ascii_lower_seq(key@);
    let mut out = String::new();
    let mut i: usize = 0;
    while i < chars.len()
        invariant
            chars@ == l,
            i <= chars@.len(),
            out@ == l.take(i as int).filter(|c: char| c != '_' && c != '-'),
        decreases chars@.len() - i,
    {
        let c = chars[i];
        proof {
            assert(l.take(i + 1).drop_last() =~= l.take(i as int));
            reveal_with_fuel(Seq::filter, 1);
        }
        if c != '_' && c != '-' {
            out.push(c);
        }
        i = i + 1;
    }
    assert(l.take(i as int) =~= l);
    out
}

/// A metadata value as kept: scalars as they are, strings cut to 512 characters, arrays to
/// their first 32 items (those that can be kept); objects are not kept.
pub open spec fn bounded_meta(v: JsonView) -> Option<JsonView>
    decreases v, 0int,
{
    match v {
        JsonView::Null => Some(v),
        JsonView::Bool(_) => Some(v),
        JsonView::Number(_) => Some(v),
        JsonView::Str(s) => Some(JsonView::Str(take_chars(s, 512))),
        JsonView::Array(items) => Some(
            JsonView::Array(bounded_items(items, if items.len() <= 32 { items.len() as int } else { 32 })),
        ),
        JsonView::Object(_) => None,
    }
}

pub open spec fn bounded_items(items: Seq<JsonView>, n: int) -> Seq<JsonView>
    decreases items, n,
{
    if n <= 0 || n > items.len() {
        Seq::empty()
    } else {
        let rest = bounded_items(items, n - 1);
        match bounded_meta(items[n - 1]) {
            Some(x) => rest.push(x),
            None => rest,
        }
    }
}

pub proof fn lemma_items_view(items: Seq<JsonValue>)
    ensures
        items_view(items).len() == items.len(),
        forall|i: int| 0 <= i < items.len() ==> #[trigger] items_view(items)[i] == json_view(items[i]),
    decreases items.len(),
{
    if items.len() > 0 {
        lemma_items_view(items.drop_last());
    }
}

pub proof fn lemma_members_view(ms: Seq<(String, JsonValue)>)
    ensures
        members_view(ms).len() == ms.len(),
        forall|i: int| 0 <= i < ms.len() ==> #[trigger] members_view(ms)[i] == (ms[i].0@, json_view(ms[i].1)),
    decreases ms.len(),
{
    if ms.len() > 0 {
        lemma_members_view(ms.drop_last());
    }
}

proof fn lemma_items_view_push(items: Seq<JsonValue>, x: JsonValue)
    ensures
        items_view(items.push(x)) == items_view(items).push(json_view(x)),
{
    assert(items.push(x).drop_last() =~= items);
}

proof fn lemma_members_view_push(ms: Seq<(String, JsonValue)>, x: (String, JsonValue))
    ensures
        members_view(ms.push(x)) == members_view(ms).push((x.0@, json_view(x.1))),
{
    assert(ms.push(x).drop_last() =~= ms);
}

fn bounded_metadata_value(v: &JsonValue) -> (out: Option<JsonValue>)
    ensures
        match out {
            Some(x) => bounded_meta(json_view(*v)) == Some(json_view(x)),
            None => bounded_meta(json_view(*v)) is None,
        },
    decreases v,
{
    match v {
        JsonValue::Null => Some(JsonValue::Null),
        JsonValue::Bool(b) => Some(JsonValue::Bool(*b)),
        JsonValue::Number(n) => Some(JsonValue::Number(n.clone())),
        JsonValue::String(s) => Some(JsonValue::String(bounded(s.as_str(), 512))),
        JsonValue::Array(items) => {
            let ghost iv = items_view(items@);
            proof {
                lemma_items_view(items@);
            }
            let n: usize = if items.len() <= 32 { items.len() } else { 32 };
            let mut out: Vec<JsonValue> = Vec::new();
            let mut i: usize = 0;
            assert(items_view(out@) =~= bounded_items(iv, 0));
            assert(*v == JsonValue::Array(*items));
            while i < n
                invariant
                    *v == JsonValue::Array(*items),
                    n <= items@.len(),
                    i <= n,
                    iv == items_view(items@),
                    iv.len() == items@.len(),
                    forall|k: int| 0 <= k < items@.len() ==> #[trigger] iv[k] == json_view(items@[k]),
                    items_view(out@) == bounded_items(iv, i as int),
                decreases n - i,
            {
                let ghost before = out@;
                proof {
                    assert(decreases_to!(*v => (*v)->Array_0));
                    assert(decreases_to!(*items => items@));
                    assert(decreases_to!(items@ => items@[i as int]));
                }
                match bounded_metadata_value(&items[i]) {
                    Some(x) => {
                        out.push(x);
                        proof {
                            lemma_items_view_push(before, x);
                        }
                    },
                    None => {},
                }
                i = i + 1;
            }
            Some(JsonValue::Array(out))
        },
        JsonValue::Object(_) => None,
    }
}

/// Whether the retained entries hold `key`.
pub open spec fn has_key(acc: Seq<(Seq<char>, JsonView)>, key: Seq<char>) -> bool {
    exists|j: int| 0 <= j < acc.len() && (#[trigger] acc[j]).0 == key
}

/// Metadata entries gathered depth-first, at most 32, the first value of a key winning:
/// a member whose normalized key is retained and whose value can be kept is added before its
/// value is searched; arrays are searched through their first 32 items.
pub open spec fn collect_meta(v: JsonView, acc: Seq<(Seq<char>, JsonView)>) -> Seq<(Seq<char>, JsonView)>
    decreases v, 0int,
{
    if acc.len() >= 32 {
        acc
    } else {
        match v {
            JsonView::Object(ms) => collect_members(ms, 0, acc),
            JsonView::Array(items) => collect_items(items, 0, acc),
            _ => acc,
        }
    }
}

pub open spec fn collect_members(ms: Seq<(Seq<char>, JsonView)>, i: int, acc: Seq<(Seq<char>, JsonView)>) -> Seq<
    (Seq<char>, JsonView),
>
    decreases ms, ms.len() - i,
{
    if i < 0 || i >= ms.len() {
        acc
    } else {
        let key = ms[i].0;
        let value = ms[i].1;
        let acc1 = if is_retained_key(normalized_key(key)) && bounded_meta(value) is Some && !has_key(acc, key) {
            acc.push((key, bounded_meta(value).unwrap()))
        } else {
            acc
        };
        let acc2 = collect_meta(value, acc1);
        if acc2.len() >= 32 {
            acc2
        } else {
            collect_members(ms, i + 1, acc2)
        }
    }
}

pub open spec fn collect_items(items: Seq<JsonView>, i: int, acc: Seq<(Seq<char>, JsonView)>) -> Seq<(Seq<char>, JsonView)>
    decreases items, items.len() - i,
{
    if i < 0 || i >= items.len() || i >= 32 {
        acc
    } else {
        collect_items(items, i + 1, collect_meta(items[i], acc))
    }
}

fn has_retained_key(acc: &Vec<(String, JsonValue)>, key: &str) -> (b: bool)
    ensures
        b == has_key(members_view(acc@), key@),
{
    proof {
        lemma_members_view(acc@);
    }
    let mut j: usize = 0;
    while j < acc.len()
        invariant
            j <= acc@.len(),
            members_view(acc@).len() == acc@.len(),
            forall|k: int| 0 <= k < acc@.len() ==> #[trigger] members_view(acc@)[k] == (acc@[k].0@, json_view(acc@[k].1)),
            forall|k: int| 0 <= k < j ==> members_view(acc@)[k].0 != key@,
        decreases acc@.len() - j,
    {
        if str_eq(acc[j].0.as_str(), key) {
            assert(members_view(acc@)[j as int].0 == key@);
            return true;
        }
        j = j + 1;
    }
    false
}

fn collect_retained_metadata(v: &JsonValue, acc: &mut Vec<(String, JsonValue)>)
    ensures
        members_view(final(acc)@) == collect_meta(json_view(*v), members_view(old(acc)@)),
    decreases v,
{
    proof {
        lemma_members_view(acc@);
    }
    if acc.len() >= 32 {
        return;
    }
    match v {
        JsonValue::Object(members) => {
            let ghost ms = members_view(members@);
            proof {
                lemma_members_view(members@);
            }
            let ghost total = collect_members(ms, 0, members_view(acc@));
            assert(*v == JsonValue::Object(*members));
            assert(total == collect_meta(json_view(*v), members_view(old(acc)@)));
            let mut i: usize = 0;
            while i < members.len()
                invariant
                    *v == JsonValue::Object(*members),
                    total == collect_meta(json_view(*v), members_view(old(acc)@)),
                    i <= members@.len(),
                    ms == members_view(members@),
                    ms.len() == members@.len(),
                    forall|k: int| 0 <= k < members@.len() ==> #[trigger] ms[k] == (members@[k].0@, json_view(members@[k].1)),
                    total == collect_members(ms, i as int, members_view(acc@)),
                decreases members@.len() - i,
            {
                let key = &members[i].0;
                let value = &members[i].1;
                let ghost cur = members_view(acc@);
                let ghost spec_value = ms[i as int].1;
                let ghost acc1 = if is_retained_key(normalized_key(key@)) && bounded_meta(spec_value) is Some
                    && !has_key(cur, key@) {
                    cur.push((key@, bounded_meta(spec_value).unwrap()))
                } else {
                    cur
                };
                let normalized = normalize_key(key.as_str());
                if is_retained_metadata_key(normalized.as_str()) && !has_retained_key(acc, key.as_str()) {
                    match bounded_metadata_value(value) {
                        Some(b) => {
                            let ghost before = acc@;
                            let entry = (key.clone(), b);
                            let ghost e = entry;
                            acc.push(entry);
                            proof {
                                lemma_members_view_push(before, e);
                            }
                        },
                        None => {},
                    }
                }
                assert(members_view(acc@) == acc1);
                proof {
                    assert(decreases_to!(*v => *members));
                    assert(decreases_to!(*members => members@));
                    assert(decreases_to!(members@ => members@[i as int]));
                    assert(decreases_to!(members@[i as int] => members@[i as int].1));
                }
                collect_retained_metadata(value, acc);
                if acc.len() >= 32 {
                    proof {
                        lemma_members_view(acc@);
                    }
                    return;
                }
                proof {
                    lemma_members_view(acc@);
                }
                i = i + 1;
            }
        },
        JsonValue::Array(items) => {
            let ghost iv = items_view(items@);
            proof {
                lemma_items_view(items@);
            }
            let ghost total = collect_items(iv, 0, members_view(acc@));
            assert(total == collect_meta(json_view(*v), members_view(old(acc)@)));
            let n: usize = if items.len() <= 32 { items.len() } else { 32 };
            let mut i: usize = 0;
            assert(*v == JsonValue::Array(*items));
            while i < n
                invariant
                    *v == JsonValue::Array(*items),
                    n <= items@.len(),
                    n <= 32,
                    n == items@.len() || n == 32,
                    i <= n,
                    iv == items_view(items@),
                    iv.len() == items@.len(),
                    forall|k: int| 0 <= k < items@.len() ==> #[trigger] iv[k] == json_view(items@[k]),
                    total == collect_items(iv, i as int, members_view(acc@)),
                decreases n - i,
            {
                proof {
                    assert(decreases_to!(*v => (*v)->Array_0));
                    assert(decreases_to!(*items => items@));
                    assert(decreases_to!(items@ => items@[i as int]));
                }
                collect_retained_metadata(&items[i], acc);
                i = i + 1;
            }
        },
        _ => {},
    }
}

/// The retained metadata of a tool result: the JSON between its first `{` and last `}`, when
/// it parses, searched for retained entries; printed as a JSON object when any was found.
pub open spec fn metadata_text(value: Seq<char>) -> Option<Seq<char>> {
    match (first_index(value, '{'), last_index(value, '}')) {
        (Some(s), Some(e)) => match json_parse(value.subrange(s, e + 1)) {
            Some(parsed) => {
                let entries = collect_meta(parsed, Seq::empty());
                if entries.len() == 0 {
                    None
                } else {
                    Some(json_print(JsonView::Object(entries)))
                }
            },
            None => None,
        },
        _ => None,
    }
}

fn retained_metadata(value: &str) -> (out: Option<String>)
    requires
        metadata_slice_ok(value@),
    ensures
        match out {
            Some(s) => metadata_text(value@) == Some(s@),
            None => metadata_text(value@) is None,
        },
{
    let chars = chars_of(value);
    let len = chars.len();
    let start = match find_first(&chars, '{') {
        Some(s) => s,
        None => return None,
    };
    let end = match find_last(&chars, '}') {
        Some(e) => e,
        None => return None,
    };
    let mut slice = String::new();
    push_chars(&mut slice, &chars, start, end + 1);
    let parsed = match parse_json(slice.as_str()) {
        Some(p) => p,
        None => return None,
    };
    let mut entries: Vec<(String, JsonValue)> = Vec::new();
    assert(members_view(entries@) =~= Seq::<(Seq<char>, JsonView)>::empty());
    collect_retained_metadata(&parsed, &mut entries);
    proof {
        lemma_members_view(entries@);
    }
    if entries.len() == 0 {
        return None;
    }
    let object = JsonValue::Object(entries);
    Some(print_json(&object))
}

pub open spec fn binary_reference_tool(name: Seq<char>) -> bool {
    ||| contains_seq(name, "browser"@)
    ||| contains_seq(name, "computer"@)
    ||| contains_seq(name, "screenshot"@)
    ||| contains_seq(name, "capture"@)
    ||| contains_seq(name, "image"@)
    ||| contains_seq(name, "office"@)
    ||| contains_seq(name, "pdf"@)
}

pub open spec fn structured_evidence_tool(name: Seq<char>) -> bool {
    ||| contains_seq(name, "read"@)
    ||| contains_seq(name, "search"@)
    ||| contains_seq(name, "exec"@)
    ||| contains_seq(name, "command"@)
    ||| contains_seq(name, "shell"@)
    ||| contains_seq(name, "git"@)
    ||| contains_seq(name, "diff"@)
    ||| contains_seq(name, "artifact"@)
}

/// What an old tool result is reduced to: tools that carry binary payloads keep a reference
/// with their metadata; tools that carry structured evidence keep their metadata before the
/// clipped result; any other result is clipped.
pub open spec fn retained_result(name: Option<Seq<char>>, value: Seq<char>) -> Seq<char> {
    let tool = ascii_lower_seq(
        match name {
            Some(n) => n,
            None => "unknown"@,
        },
    );
    let metadata = metadata_text(value);
    if binary_reference_tool(tool) {
        "[bounded binary reference retained; payload removed; tool="@ + tool + "; metadata="@ + (match metadata {
            Some(m) => m,
            None => "{}"@,
        }) + "]"@
    } else if structured_evidence_tool(tool) && metadata is Some {
        "[retained tool evidence; tool="@ + tool + "; metadata="@ + metadata.unwrap() + "]\n"@ + edge_clip(value)
    } else {
        edge_clip(value)
    }
}

pub fn retained_tool_result(name: Option<&str>, value: &str) -> (out: String)
    requires
        metadata_slice_ok(value@),
    ensures
        out@ == retained_result(
            match name {
                Some(n) => Some(n@),
                None => None,
            },
            value@,
        ),
{
    let tool = match name {
        Some(n) => to_ascii_lowercase(n),
        None => to_ascii_lowercase("unknown"),
    };
    let t = tool.as_str();
    let binary = contains_str(t, "browser") || contains_str(t, "computer") || contains_str(t, "screenshot")
        || contains_str(t, "capture") || contains_str(t, "image") || contains_str(t, "office") || contains_str(t, "pdf");
    let structured = contains_str(t, "read") || contains_str(t, "search") || contains_str(t, "exec")
        || contains_str(t, "command") || contains_str(t, "shell") || contains_str(t, "git") || contains_str(t, "diff")
        || contains_str(t, "artifact");
    let metadata = retained_metadata(value);
    if binary {
        let mut out = "[bounded binary reference retained; payload removed; tool=".to_owned();
        push_str(&mut out, t);
        push_str(&mut out, "; metadata=");
        match &metadata {
            Some(m) => push_str(&mut out, m.as_str()),
            None => push_str(&mut out, "{}"),
        }
        push_str(&mut out, "]");
        return out;
    }
    if structured {
        match &metadata {
            Some(m) => {
                let mut out = "[retained tool evidence; tool=".to_owned();
                push_str(&mut out, t);
                push_str(&mut out, "; metadata=");
                push_str(&mut out, m.as_str());
                push_str(&mut out, "]\n");
                let clipped = bounded_tool_result(value);
                push_str(&mut out, clipped.as_str());
                return out;
            },
            None => {},
        }
    }
    bounded_tool_result(value)
}

// ---------------------------------------------------------------------------------------------
// Tool call / result pairing
// ---------------------------------------------------------------------------------------------

pub open spec fn is_result_for(m: MessageView, id: Seq<char>) -> bool {
    m.role == ModelRole::Tool && m.tool_call_id == Some(id)
}

/// Number of tool results answering the call `id`.
pub open spec fn result_count(ms: Seq<MessageView>, id: Seq<char>) -> nat
    decreases ms.len(),
{
    if ms.len() == 0 {
        0
    } else {
        result_count(ms.drop_last(), id) + if is_result_for(ms.last(), id) { 1nat } else { 0nat }
    }
}

/// The calls answered by exactly one result, in order.
pub open spec fn kept_calls(calls: Seq<(Seq<char>, Seq<char>)>, ms: Seq<MessageView>) -> Seq<(Seq<char>, Seq<char>)>
    decreases calls.len(),
{
    if calls.len() == 0 {
        Seq::empty()
    } else {
        let rest = kept_calls(calls.drop_last(), ms);
        if result_count(ms, calls.last().0) == 1 { rest.push(calls.last()) } else { rest }
    }
}

pub open spec fn omitted_note() -> Seq<char> {
    "\n[tool call omitted from transient model view: result missing or duplicated]"@
}

pub open spec fn orphan_prefix() -> Seq<char> {
    "[orphan or duplicate tool result repaired in transient model view; untrusted data]\n"@
}

pub open spec fn is_round(m: MessageView) -> bool {
    m.role == ModelRole::Assistant && m.calls.len() > 0
}

/// An assistant message keeps the calls answered exactly once; losing all of them is noted.
pub open spec fn calls_repaired(m: MessageView, ms: Seq<MessageView>) -> MessageView {
    if is_round(m) {
        let kept = kept_calls(m.calls, ms);
        MessageView {
            calls: kept,
            content: if kept.len() == 0 { m.content + omitted_note() } else { m.content },
            ..m
        }
    } else {
        m
    }
}

/// Ids of the calls kept in the first `n` messages, in order.
pub open spec fn kept_ids(ms: Seq<MessageView>, n: int) -> Seq<Seq<char>>
    decreases n,
{
    if n <= 0 || n > ms.len() {
        Seq::empty()
    } else {
        let m = ms[n - 1];
        kept_ids(ms, n - 1) + if is_round(m) {
            kept_calls(m.calls, ms).map_values(|c: (Seq<char>, Seq<char>)| c.0)
        } else {
            Seq::empty()
        }
    }
}

/// A tool result answering a kept call.
pub open spec fn answers_kept_call(m: MessageView, ms: Seq<MessageView>) -> bool {
    m.tool_call_id is Some && kept_ids(ms, ms.len() as int).contains(m.tool_call_id.unwrap())
}

/// A tool result that answers no kept call becomes untrusted user data.
pub open spec fn result_repaired(m: MessageView, ms: Seq<MessageView>) -> MessageView {
    if m.role != ModelRole::Tool || answers_kept_call(m, ms) {
        m
    } else {
        MessageView {
            role: ModelRole::User,
            name: None,
            tool_call_id: None,
            content: orphan_prefix() + edge_clip(m.content),
            ..m
        }
    }
}

pub open spec fn repaired_messages(ms: Seq<MessageView>) -> Seq<MessageView> {
    Seq::new(ms.len(), |i: int| result_repaired(calls_repaired(ms[i], ms), ms))
}

/// Calls dropped from the first `n` messages.
pub open spec fn dropped_calls(ms: Seq<MessageView>, n: int) -> nat
    decreases n,
{
    if n <= 0 || n > ms.len() {
        0
    } else {
        let m = ms[n - 1];
        dropped_calls(ms, n - 1) + if is_round(m) {
            (m.calls.len() - kept_calls(m.calls, ms).len()) as nat
        } else {
            0nat
        }
    }
}

/// Tool results among the first `n` messages that answer no kept call.
pub open spec fn orphan_results(ms: Seq<MessageView>, n: int) -> nat
    decreases n,
{
    if n <= 0 || n > ms.len() {
        0
    } else {
        let m = ms[n - 1];
        orphan_results(ms, n - 1) + if m.role == ModelRole::Tool && !answers_kept_call(m, ms) { 1nat } else { 0nat }
    }
}

pub open spec fn sat_u32(n: nat) -> u32 {
    if n > u32::MAX { u32::MAX } else { n as u32 }
}

pub open spec fn repair_count(ms: Seq<MessageView>) -> u32 {
    sat_u32(dropped_calls(ms, ms.len() as int) + orphan_results(ms, ms.len() as int))
}

proof fn lemma_kept_calls_len(calls: Seq<(Seq<char>, Seq<char>)>, ms: Seq<MessageView>)
    ensures
        kept_calls(calls, ms).len() <= calls.len(),
    decreases calls.len(),
{
    if calls.len() > 0 {
        lemma_kept_calls_len(calls.drop_last(), ms);
    }
}

proof fn lemma_views_push(ms: Seq<ModelMessage>, m: ModelMessage)
    ensures
        message_views(ms.push(m)) == message_views(ms).push(m@),
{
    assert(message_views(ms.push(m)) =~= message_views(ms).push(m@));
}

fn count_results(messages: &Vec<ModelMessage>, id: &String) -> (n: usize)
    ensures
        n == result_count(message_views(messages@), id@),
{
    let ghost ms = message_views(messages@);
    let mut n: usize = 0;
    let mut i: usize = 0;
    while i < messages.len()
        invariant
            ms == message_views(messages@),
            i <= messages@.len(),
            n <= i,
            n == result_count(ms.take(i as int), id@),
        decreases messages@.len() - i,
    {
        proof {
            assert(ms.take(i + 1).drop_last() =~= ms.take(i as int));
        }
        let m = &messages[i];
        let matches = m.role == ModelRole::Tool && match &m.tool_call_id {
            Some(t) => str_eq(t.as_str(), id.as_str()),
            None => false,
        };
        if matches {
            n = n + 1;
        }
        i = i + 1;
    }
    assert(ms.take(i as int) =~= ms);
    n
}

fn contains_string(list: &Vec<String>, s: &String) -> (b: bool)
    ensures
        b == list@.map_values(|x: String| x@).contains(s@),
{
    let mut i: usize = 0;
    while i < list.len()
        invariant
            i <= list@.len(),
            forall|k: int| 0 <= k < i ==> list@[k]@ != s@,
        decreases list@.len() - i,
    {
        if str_eq(list[i].as_str(), s.as_str()) {
            assert(list@.map_values(|x: String| x@)[i as int] == s@);
            return true;
        }
        i = i + 1;
    }
    proof {
        if list@.map_values(|x: String| x@).contains(s@) {
            let lv = list@.map_values(|x: String| x@);
            let k = choose|k: int| 0 <= k < lv.len() && #[trigger] lv[k] == s@;
            assert(list@[k]@ == s@);
        }
    }
    false
}

/// For each message, for each of its calls, whether exactly one result answers it.
fn single_result_flags(messages: &Vec<ModelMessage>) -> (flags: Vec<Vec<bool>>)
    ensures
        flags@.len() == messages@.len(),
        forall|i: int| 0 <= i < messages@.len() ==> (#[trigger] flags@[i])@.len() == messages@[i].tool_calls@.len(),
        forall|i: int, j: int|
            0 <= i < messages@.len() && 0 <= j < messages@[i].tool_calls@.len() ==> flags@[i]@[j] == (result_count(
                message_views(messages@),
                messages@[i].tool_calls@[j].id@,
            ) == 1),
{
    let mut flags: Vec<Vec<bool>> = Vec::new();
    let mut i: usize = 0;
    while i < messages.len()
        invariant
            i <= messages@.len(),
            flags@.len() == i,
            forall|k: int| 0 <= k < i ==> (#[trigger] flags@[k])@.len() == messages@[k].tool_calls@.len(),
            forall|k: int, j: int|
                0 <= k < i && 0 <= j < messages@[k].tool_calls@.len() ==> flags@[k]@[j] == (result_count(
                    message_views(messages@),
                    messages@[k].tool_calls@[j].id@,
                ) == 1),
        decreases messages@.len() - i,
    {
        let calls = &messages[i].tool_calls;
        let mut row: Vec<bool> = Vec::new();
        let mut j: usize = 0;
        while j < calls.len()
            invariant
                *calls == messages@[i as int].tool_calls,
                j <= calls@.len(),
                row@.len() == j,
                forall|t: int| 0 <= t < j ==> row@[t] == (result_count(message_views(messages@), calls@[t].id@) == 1),
            decreases calls@.len() - j,
        {
            let n = count_results(messages, &calls[j].id);
            row.push(n == 1);
            j = j + 1;
        }
        flags.push(row);
        i = i + 1;
    }
    flags
}

/// Makes every tool call and result pair up in the transient request: an assistant message
/// keeps only the calls answered by exactly one result, and a result that answers no kept call
/// becomes clipped, untrusted user data. Returns the number of repairs.
pub fn repair_tool_pairs(messages: &mut Vec<ModelMessage>) -> (repaired: u32)
    ensures
        message_views(final(messages)@) == repaired_messages(message_views(old(messages)@)),
        repaired == repair_count(message_views(old(messages)@)),
{
    let ghost m0 = message_views(messages@);
    let flags = single_result_flags(messages);
    let mut taken: Vec<ModelMessage> = Vec::new();
    std::mem::swap(&mut taken, messages);
    let ghost orig = taken@;
    let mut repaired: u32 = 0;
    let mut valid: Vec<String> = Vec::new();
    proof {
        assert(message_views(messages@) =~= Seq::new(0, |t: int| calls_repaired(m0[t], m0)));
        assert(valid@.map_values(|x: String| x@) =~= kept_ids(m0, 0));
    }
    // Calls answered by exactly one result stay; the others are dropped.
    for m in it: taken.into_iter()
        invariant
            it.seq() == orig,
            m0 == message_views(orig),
            flags@.len() == orig.len(),
            forall|i: int| 0 <= i < orig.len() ==> (#[trigger] flags@[i])@.len() == orig[i].tool_calls@.len(),
            forall|i: int, j: int|
                0 <= i < orig.len() && 0 <= j < orig[i].tool_calls@.len() ==> flags@[i]@[j] == (result_count(
                    m0,
                    orig[i].tool_calls@[j].id@,
                ) == 1),
            message_views(messages@) == Seq::new(it.index() as nat, |t: int| calls_repaired(m0[t], m0)),
            valid@.map_values(|x: String| x@) == kept_ids(m0, it.index() as int),
            repaired == sat_u32(dropped_calls(m0, it.index() as int)),
    {
        let ghost i = it.index() as int;
        let i_exec = messages.len();
        assert(message_views(messages@).len() == messages@.len());
        assert(i_exec == i);
        let ghost mv = m@;
        assert(mv == m0[i]);
        let ghost msgs_before = messages@;
        let ghost valid_before = valid@.map_values(|x: String| x@);
        if m.role == ModelRole::Assistant && m.tool_calls.len() > 0 {
            let row = &flags[i_exec];
            let ModelMessage { role, content, name, tool_call_id, tool_calls, input_images } = m;
            let ghost calls0 = call_views(tool_calls@);
            let mut kept: Vec<ModelToolCall> = Vec::new();
            let mut content = content;
            let ghost rep0 = dropped_calls(m0, i);
            let n_calls = tool_calls.len();
            assert(kept_calls(calls0.take(0), m0) =~= Seq::<(Seq<char>, Seq<char>)>::empty());
            let mut j_exec: usize = 0;
            for c in it2: tool_calls.into_iter()
                invariant
                    it2.seq() == orig[i].tool_calls@,
                    calls0 == call_views(orig[i].tool_calls@),
                    row@.len() == calls0.len(),
                    forall|j: int| 0 <= j < calls0.len() ==> row@[j] == (result_count(m0, calls0[j].0) == 1),
                    call_views(kept@) == kept_calls(calls0.take(it2.index() as int), m0),
                    valid@.map_values(|x: String| x@) == valid_before + kept_calls(calls0.take(it2.index() as int), m0).map_values(
                        |c: (Seq<char>, Seq<char>)| c.0,
                    ),
                    repaired == sat_u32((rep0 + (it2.index() - kept_calls(calls0.take(it2.index() as int), m0).len())) as nat),
                    j_exec == it2.index(),
                    calls0.len() == n_calls,
                    kept_calls(calls0.take(it2.index() as int), m0).len() <= it2.index(),
                    i_exec < flags@.len(),
                    *row == flags@[i_exec as int],
            {
                let ghost j = it2.index() as int;
                let ghost kept_before = call_views(kept@);
                let ghost valid_mid = valid@.map_values(|x: String| x@);
                proof {
                    assert(calls0.take(j + 1).drop_last() =~= calls0.take(j));
                    assert(calls0[j] == (c.id@, c.name@));
                }
                if row[j_exec] {
                    let id = c.id.clone();
                    valid.push(id);
                    kept.push(c);
                    proof {
                        assert(call_views(kept@) =~= kept_before.push(calls0[j]));
                        assert(valid@.map_values(|x: String| x@) =~= valid_mid.push(calls0[j].0));
                        assert(kept_calls(calls0.take(j + 1), m0).map_values(|c: (Seq<char>, Seq<char>)| c.0)
                            =~= kept_calls(calls0.take(j), m0).map_values(|c: (Seq<char>, Seq<char>)| c.0).push(calls0[j].0));
                    }
                } else {
                    if repaired < u32::MAX {
                        repaired = repaired + 1;
                    }
                }
                j_exec = j_exec + 1;
            }
            proof {
                assert(calls0.take(calls0.len() as int) =~= calls0);
                lemma_kept_calls_len(calls0, m0);
            }
            if kept.len() == 0 {
                push_str(&mut content, "\n[tool call omitted from transient model view: result missing or duplicated]");
            }
            let rebuilt = ModelMessage { role, content, name, tool_call_id, tool_calls: kept, input_images };
            messages.push(rebuilt);
            proof {
                lemma_views_push(msgs_before, rebuilt);
                assert(rebuilt@ == calls_repaired(m0[i], m0));
            }
        } else {
            messages.push(m);
            proof {
                lemma_views_push(msgs_before, m);
                assert(valid_before + Seq::<Seq<char>>::empty() =~= valid_before);
            }
        }
        assert(message_views(messages@) =~= Seq::new((i + 1) as nat, |t: int| calls_repaired(m0[t], m0)));
    }
    // Results that answer no kept call become untrusted user data.
    let mut taken2: Vec<ModelMessage> = Vec::new();
    std::mem::swap(&mut taken2, messages);
    let ghost m1 = taken2@;
    assert(message_views(m1).len() == m1.len());
    proof {
        assert(message_views(messages@) =~= Seq::new(0, |t: int| result_repaired(calls_repaired(m0[t], m0), m0)));
    }
    for m in it: taken2.into_iter()
        invariant
            it.seq() == m1,
            m1.len() == m0.len(),
            message_views(m1) == Seq::new(m0.len(), |t: int| calls_repaired(m0[t], m0)),
            valid@.map_values(|x: String| x@) == kept_ids(m0, m0.len() as int),
            message_views(messages@) == Seq::new(it.index() as nat, |t: int| result_repaired(calls_repaired(m0[t], m0), m0)),
            repaired == sat_u32(dropped_calls(m0, m0.len() as int) + orphan_results(m0, it.index() as int)),
    {
        let ghost i = it.index() as int;
        let ghost msgs_before = messages@;
        assert(0 <= i < m1.len());
        assert(m@ == message_views(m1)[i]);
        assert(m@ == calls_repaired(m0[i], m0));
        assert(m@.role == m0[i].role && m@.tool_call_id == m0[i].tool_call_id);
        let keep = m.role != ModelRole::Tool || match &m.tool_call_id {
            Some(id) => contains_string(&valid, id),
            None => false,
        };
        assert(keep == !(m0[i].role == ModelRole::Tool && !answers_kept_call(m0[i], m0)));
        if keep {
            messages.push(m);
            proof {
                lemma_views_push(msgs_before, m);
            }
        } else {
            if repaired < u32::MAX {
                repaired = repaired + 1;
            }
            let clipped = bounded_tool_result(m.content.as_str());
            let mut content = "[orphan or duplicate tool result repaired in transient model view; untrusted data]\n".to_owned();
            push_str(&mut content, clipped.as_str());
            let converted = ModelMessage {
                role: ModelRole::User,
                content,
                name: None,
                tool_call_id: None,
                tool_calls: m.tool_calls,
                input_images: m.input_images,
            };
            messages.push(converted);
            proof {
                lemma_views_push(msgs_before, converted);
            }
        }
        assert(message_views(messages@) =~= Seq::new((i + 1) as nat, |t: int| result_repaired(calls_repaired(m0[t], m0), m0)));
    }
    assert(message_views(messages@) =~= repaired_messages(m0));
    repaired
}

// ---------------------------------------------------------------------------------------------
// Microcompact
// ---------------------------------------------------------------------------------------------

/// Index of the `remaining`-th API round (assistant message with tool calls) counted back
/// from `end`, or 0 when there are fewer rounds.
pub open spec fn round_boundary(ms: Seq<MessageView>, end: int, remaining: nat) -> int
    decreases end,
{
    if end <= 0 || end > ms.len() {
        0
    } else if is_round(ms[end - 1]) {
        if remaining <= 1 {
            end - 1
        } else {
            round_boundary(ms, end - 1, (remaining - 1) as nat)
        }
    } else {
        round_boundary(ms, end - 1, remaining)
    }
}

/// Start of the last `rounds` API rounds; messages from there on are protected.
pub fn protected_round_boundary(messages: &Vec<ModelMessage>, rounds: usize) -> (out: usize)
    ensures
        out == round_boundary(message_views(messages@), messages@.len() as int, rounds as nat),
        out <= messages@.len(),
{
    let ghost ms = message_views(messages@);
    let mut remaining = rounds;
    let mut end = messages.len();
    while end > 0
        invariant
            ms == message_views(messages@),
            end <= messages@.len(),
            round_boundary(ms, messages@.len() as int, rounds as nat) == round_boundary(ms, end as int, remaining as nat),
        decreases end,
    {
        let m = &messages[end - 1];
        if m.role == ModelRole::Assistant && m.tool_calls.len() > 0 {
            if remaining <= 1 {
                return end - 1;
            }
            remaining = remaining - 1;
        }
        end = end - 1;
    }
    0
}

/// Index of the last user message, or the number of messages when there is none.
pub open spec fn latest_user(ms: Seq<MessageView>) -> int
    decreases ms.len(),
{
    if ms.len() == 0 {
        0
    } else if ms.last().role == ModelRole::User {
        ms.len() - 1
    } else if latest_user(ms.drop_last()) == ms.len() - 1 {
        ms.len() as int
    } else {
        latest_user(ms.drop_last())
    }
}

fn latest_user_index(messages: &Vec<ModelMessage>) -> (out: usize)
    ensures
        out == latest_user(message_views(messages@)),
{
    let ghost ms = message_views(messages@);
    let mut i: usize = messages.len();
    while i > 0
        invariant
            ms == message_views(messages@),
            i <= messages@.len(),
            forall|k: int| i <= k < messages@.len() ==> ms[k].role != ModelRole::User,
        decreases i,
    {
        if messages[i - 1].role == ModelRole::User {
            proof {
                lemma_latest_user(ms, i - 1);
            }
            return i - 1;
        }
        i = i - 1;
    }
    proof {
        lemma_latest_user(ms, ms.len() as int);
    }
    messages.len()
}

proof fn lemma_latest_user(ms: Seq<MessageView>, k: int)
    requires
        0 <= k <= ms.len(),
        forall|j: int| k < j < ms.len() ==> ms[j].role != ModelRole::User,
        k < ms.len() ==> ms[k].role == ModelRole::User,
        k == ms.len() ==> forall|j: int| 0 <= j < ms.len() ==> ms[j].role != ModelRole::User,
    ensures
        latest_user(ms) == k,
    decreases ms.len(),
{
    if ms.len() > 0 {
        let d = ms.drop_last();
        if k == ms.len() {
            lemma_latest_user(d, d.len() as int);
        } else if k < ms.len() - 1 {
            lemma_latest_user(d, k);
        }
    }
}

/// The images' `media type:source label` references, separated by `, `.
pub open spec fn image_refs(images: Seq<(Seq<char>, Seq<char>)>) -> Seq<char>
    decreases images.len(),
{
    if images.len() == 0 {
        Seq::empty()
    } else if images.len() == 1 {
        images[0].0 + ":"@ + images[0].1
    } else {
        image_refs(images.drop_last()) + ", "@ + images.last().0 + ":"@ + images.last().1
    }
}

pub open spec fn image_note(images: Seq<(Seq<char>, Seq<char>)>) -> Seq<char> {
    "\n[bounded image references retained after binary removal: "@ + image_refs(images) + "]"@
}

fn image_references(images: &Vec<crate::model::ModelInputImage>) -> (out: String)
    ensures
        out@ == image_refs(crate::model::image_views(images@)),
{
    let ghost iv = crate::model::image_views(images@);
    let mut out = String::new();
    let mut i: usize = 0;
    while i < images.len()
        invariant
            iv == crate::model::image_views(images@),
            i <= images@.len(),
            out@ == image_refs(iv.take(i as int)),
        decreases images@.len() - i,
    {
        proof {
            assert(iv.take(i + 1).drop_last() =~= iv.take(i as int));
        }
        if i > 0 {
            push_str(&mut out, ", ");
        }
        push_str(&mut out, images[i].media_type.as_str());
        push_str(&mut out, ":");
        push_str(&mut out, images[i].source_label.as_str());
        proof {
            if i == 0 {
                assert(iv.take(1)[0] == iv[0]);
            }
            assert(out@ =~= image_refs(iv.take(i + 1)));
        }
        i = i + 1;
    }
    assert(iv.take(i as int) =~= iv);
    out
}

/// An old message (before the latest user message) gives up its image bytes for references.
pub open spec fn images_removed(m: MessageView, index: int, latest: int) -> MessageView {
    if index < latest && m.images.len() > 0 {
        MessageView { images: Seq::empty(), content: m.content + image_note(m.images), ..m }
    } else {
        m
    }
}

/// A tool result already marked with a non-success status is left as it is.
pub open spec fn has_failure_status(content: Seq<char>) -> bool {
    has_prefix(content, "[tool "@) && !has_prefix(content, "[tool status=succeeded "@)
}

/// Tool results before the protected rounds are reduced.
pub open spec fn reaches_compaction(m: MessageView, index: int, protected_from: int) -> bool {
    index < protected_from && m.role == ModelRole::Tool && !has_failure_status(m.content)
}

pub open spec fn compacted_message(m: MessageView, index: int, latest: int, protected_from: int) -> MessageView {
    let a = images_removed(m, index, latest);
    if reaches_compaction(a, index, protected_from) {
        MessageView { content: retained_result(a.name, a.content), ..a }
    } else {
        a
    }
}

/// The messages after repair, with the two protected rounds and the latest user message.
pub open spec fn prepared(ms: Seq<MessageView>) -> (Seq<MessageView>, int, int) {
    let m1 = repaired_messages(ms);
    (m1, latest_user(m1), round_boundary(m1, m1.len() as int, 2))
}

/// Every tool result that will be reduced has well-placed braces.
pub open spec fn microcompact_safe(ms: Seq<MessageView>) -> bool {
    let m1 = repaired_messages(ms);
    let latest = latest_user(m1);
    let protected_from = round_boundary(m1, m1.len() as int, 2);
    forall|i: int|
        0 <= i < m1.len() && #[trigger] reaches_compaction(images_removed(m1[i], i, latest), i, protected_from)
            ==> metadata_slice_ok(images_removed(m1[i], i, latest).content)
}

/// Number of reduced results among the first `n` messages.
pub open spec fn compacted_count(m1: Seq<MessageView>, latest: int, protected_from: int, n: int) -> nat
    decreases n,
{
    if n <= 0 || n > m1.len() {
        0
    } else {
        let a = images_removed(m1[n - 1], n - 1, latest);
        compacted_count(m1, latest, protected_from, n - 1) + if reaches_compaction(a, n - 1, protected_from)
            && retained_result(a.name, a.content) != a.content {
            1nat
        } else {
            0nat
        }
    }
}

/// Number of images removed from the first `n` messages, saturating.
pub open spec fn removed_images_count(m1: Seq<MessageView>, latest: int, n: int) -> u32
    decreases n,
{
    if n <= 0 || n > m1.len() {
        0
    } else {
        let before = removed_images_count(m1, latest, n - 1);
        let m = m1[n - 1];
        if n - 1 < latest && m.images.len() > 0 {
            sat_u32((before + if m.images.len() > u32::MAX { u32::MAX as nat } else { m.images.len() }) as nat)
        } else {
            before
        }
    }
}

/// What one Microcompact pass did.
#[derive(PartialEq, Eq, Structural, Clone, Copy, Debug)]
pub struct MicrocompactStats {
    pub compacted_items: u32,
    pub repaired_items: u32,
    pub removed_images: u32,
    pub tokens_before: u64,
    pub tokens_after: u64,
    pub source: TokenCountSource,
}

/// Shrinks only old tool-result messages of the transient request. The last two assistant/tool
/// API rounds and all non-tool messages keep their text; images before the latest user message
/// give way to references; call/result pairs are repaired first. `count_tokens` is asked before
/// and after.
pub fn microcompact_request<F: Fn(&Vec<ModelMessage>) -> (u64, TokenCountSource)>(
    messages: &mut Vec<ModelMessage>,
    count_tokens: F,
) -> (stats: MicrocompactStats)
    requires
        forall|ms: &Vec<ModelMessage>| call_requires(count_tokens, (ms,)),
        microcompact_safe(message_views(old(messages)@)),
    ensures
        ({
            let (m1, latest, protected_from) = prepared(message_views(old(messages)@));
            &&& message_views(final(messages)@) == Seq::new(
                m1.len(),
                |i: int| compacted_message(m1[i], i, latest, protected_from),
            )
            &&& stats.repaired_items == repair_count(message_views(old(messages)@))
            &&& stats.compacted_items == sat_u32(compacted_count(m1, latest, protected_from, m1.len() as int))
            &&& stats.removed_images == removed_images_count(m1, latest, m1.len() as int)
        }),
        exists|before_source: TokenCountSource, after_source: TokenCountSource|
            call_ensures(count_tokens, (&*old(messages),), (stats.tokens_before, before_source))
                && call_ensures(count_tokens, (&*final(messages),), (stats.tokens_after, after_source))
                && stats.source == preferred(before_source, after_source),
{
    let (tokens_before, source) = count_tokens(&*messages);
    let ghost m0 = message_views(messages@);
    let repaired_items = repair_tool_pairs(messages);
    let protected_from = protected_round_boundary(messages, 2);
    let latest = latest_user_index(messages);
    let ghost m1 = message_views(messages@);
    let mut taken: Vec<ModelMessage> = Vec::new();
    std::mem::swap(&mut taken, messages);
    let ghost orig = taken@;
    assert(message_views(orig).len() == orig.len());
    let mut compacted_items: u32 = 0;
    let mut removed_images: u32 = 0;
    proof {
        assert(message_views(messages@) =~= Seq::new(0, |i: int| compacted_message(m1[i], i, latest as int, protected_from as int)));
    }
    for m in it: taken.into_iter()
        invariant
            it.seq() == orig,
            m1 == message_views(orig),
            m1.len() == orig.len(),
            m1 == repaired_messages(m0),
            latest == latest_user(m1),
            protected_from == round_boundary(m1, m1.len() as int, 2),
            microcompact_safe(m0),
            message_views(messages@) == Seq::new(
                it.index() as nat,
                |i: int| compacted_message(m1[i], i, latest as int, protected_from as int),
            ),
            compacted_items == sat_u32(compacted_count(m1, latest as int, protected_from as int, it.index() as int)),
            removed_images == removed_images_count(m1, latest as int, it.index() as int),
    {
        let ghost i = it.index() as int;
        let index = messages.len();
        assert(message_views(messages@).len() == messages@.len());
        assert(index == i);
        assert(0 <= i < m1.len());
        assert(m@ == m1[i]);
        let ghost msgs_before = messages@;
        let mut m = m;
        if index < latest && m.input_images.len() > 0 {
            let ghost old_content = m.content@;
            let ghost old_images = crate::model::image_views(m.input_images@);
            let refs = image_references(&m.input_images);
            let count = m.input_images.len();
            let add: u32 = if count <= 4294967295usize { count as u32 } else { 4294967295u32 };
            removed_images = if removed_images <= u32::MAX - add { removed_images + add } else { u32::MAX };
            m.input_images = Vec::new();
            push_str(&mut m.content, "\n[bounded image references retained after binary removal: ");
            push_str(&mut m.content, refs.as_str());
            push_str(&mut m.content, "]");
            assert(crate::model::image_views(m.input_images@) =~= Seq::empty());
            assert(m.content@ =~= old_content + image_note(old_images));
        }
        let ghost a = images_removed(m1[i], i, latest as int);
        assert(m@ == a);
        if index < protected_from && m.role == ModelRole::Tool {
            let failure_status = starts_with(m.content.as_str(), "[tool ") && !starts_with(
                m.content.as_str(),
                "[tool status=succeeded ",
            );
            if !failure_status {
                proof {
                    assert(reaches_compaction(images_removed(m1[i], i, latest as int), i, protected_from as int));
                    assert(metadata_slice_ok(images_removed(m1[i], i, latest as int).content));
                }
                let compacted = match &m.name {
                    Some(n) => retained_tool_result(Some(n.as_str()), m.content.as_str()),
                    None => retained_tool_result(None, m.content.as_str()),
                };
                if !str_eq(compacted.as_str(), m.content.as_str()) {
                    m.content = compacted;
                    if compacted_items < u32::MAX {
                        compacted_items = compacted_items + 1;
                    }
                }
            }
        }
        assert(m@ == compacted_message(m1[i], i, latest as int, protected_from as int));
        messages.push(m);
        proof {
            lemma_views_push(msgs_before, m);
        }
        assert(message_views(messages@) =~= Seq::new(
            (i + 1) as nat,
            |k: int| compacted_message(m1[k], k, latest as int, protected_from as int),
        ));
    }
    let (tokens_after, after_source) = count_tokens(&*messages);
    MicrocompactStats {
        compacted_items,
        repaired_items,
        removed_images,
        tokens_before,
        tokens_after,
        source: preferred_count_source(source, after_source),
    }
}

} // verus!
