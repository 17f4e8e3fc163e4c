//! The rules of the Run's Skill tools: paging the catalog, when a Skill file may be read,
//! which workload an activation selects, and the window of lines a read returns.

use vstd::prelude::*;

use crate::file_diff::text_lines;
use crate::json::{json_array, json_member, json_number, json_object, json_str, json_view, member_views, value_views, JsonValue, JsonView};
use crate::runs::WorkloadKind;
use crate::security::{ToolDescriptor, ToolEffect};
use crate::step::SkillActivation;
use crate::text::{decimal, push_decimal, push_str, str_eq, take_chars};

verus! {

/// Skills listed per page unless the caller asks otherwise.
pub const DEFAULT_PAGE_SIZE: usize = 50;

/// Most Skills listed per page.
pub const MAX_PAGE_SIZE: usize = 100;

/// Lines read unless the caller asks otherwise.
pub const DEFAULT_LINE_LIMIT: usize = 300;

/// Most lines one read returns.
pub const MAX_LINE_LIMIT: usize = 1000;

/// Most characters one read returns.
pub const MAX_MODEL_CHARS: usize = 65536;

/// Least confidence, in basis points, for a classification to change the workload.
pub const MIN_CLASSIFICATION_CONFIDENCE: u16 = 7500;

pub open spec fn clamp(v: nat, lo: nat, hi: nat) -> nat {
    if v < lo { lo } else if v > hi { hi } else { v }
}

/// A page of the catalog: where it starts and ends, and the cursor of the next page if any.
pub open spec fn page_of(cursor: Option<usize>, limit: Option<usize>, total: usize) -> (nat, nat, Option<nat>) {
    let start = match cursor {
        Some(c) => c as nat,
        None => 0,
    };
    let size = clamp(
        match limit {
            Some(l) => l as nat,
            None => DEFAULT_PAGE_SIZE as nat,
        },
        1,
        MAX_PAGE_SIZE as nat,
    );
    let from = if start <= total { start } else { total as nat };
    let to = if from + size <= total { from + size } else { total as nat };
    let next = start + (to - from);
    (from, to as nat, if next < total { Some(next as nat) } else { None })
}

/// The catalog page a listing returns (see `page_of`).
pub fn skill_page(cursor: Option<usize>, limit: Option<usize>, total: usize) -> (out: (usize, usize, Option<usize>))
    ensures
        ({
            let (from, to, next) = page_of(cursor, limit, total);
            &&& out.0 == from
            &&& out.1 == to
            &&& match out.2 {
                Some(n) => next == Some(n as nat),
                None => next is None,
            }
        }),
{
    let start = match cursor {
        Some(c) => c,
        None => 0,
    };
    let requested = match limit {
        Some(l) => l,
        None => DEFAULT_PAGE_SIZE,
    };
    let size = if requested < 1 { 1 } else if requested > MAX_PAGE_SIZE { MAX_PAGE_SIZE } else { requested };
    let from = if start <= total { start } else { total };
    let to = if size <= total - from { from + size } else { total };
    let next = start.saturating_add(to - from);
    (from, to, if next < total { Some(next) } else { None })
}

/// The revision of the Skill's entry file is active in the Run.
pub open spec fn active_in(activations: Seq<SkillActivation>, skill_id: Seq<char>, revision: Seq<char>) -> bool {
    exists|i: int|
        0 <= i < activations.len() && (#[trigger] activations[i]).skill_id@ == skill_id
            && activations[i].content_revision@ == revision
}

pub fn skill_is_active(activations: &Vec<SkillActivation>, skill_id: &str, revision: &str) -> (b: bool)
    ensures
        b == active_in(activations@, skill_id@, revision@),
{
    let mut i: usize = 0;
    while i < activations.len()
        invariant
            i <= activations@.len(),
            forall|k: int|
                0 <= k < i ==> !((#[trigger] activations@[k]).skill_id@ == skill_id@
                    && activations@[k].content_revision@ == revision@),
        decreases activations@.len() - i,
    {
        if str_eq(activations[i].skill_id.as_str(), skill_id) && str_eq(activations[i].content_revision.as_str(), revision) {
            assert(activations@[i as int].skill_id@ == skill_id@);
            return true;
        }
        i = i + 1;
    }
    false
}

/// Why a Skill read is refused: a referenced resource needs the current entry revision
/// activated first; reading the entry activates it, which the Skill's policy must allow.
pub fn skill_read_refusal(path_is_entry: bool, active: bool, allows_implicit_invocation: bool) -> (out: Option<&'static str>)
    ensures
        !path_is_entry && !active ==> (out matches Some(m) && m@
            == "activate the current SKILL.md revision before reading referenced resources"@),
        path_is_entry && !active && !allows_implicit_invocation ==> (out matches Some(m) && m@
            == "Skill policy requires explicit user selection"@),
        active || (path_is_entry && allows_implicit_invocation) ==> out is None,
{
    if !path_is_entry && !active {
        return Some("activate the current SKILL.md revision before reading referenced resources");
    }
    if path_is_entry && !active && !allows_implicit_invocation {
        return Some("Skill policy requires explicit user selection");
    }
    None
}

/// Where a Run's workload came from.
#[derive(PartialEq, Eq, Structural, Clone, Copy, Debug)]
pub enum WorkloadResolutionSource {
    UserOverride,
    GeneralFallback,
    BuiltInSkill,
    StructuredClassification,
}

/// The workload after an activation: a confident classification other than General selects
/// its workload, credited to the built-in Skill or to the classification; otherwise the
/// current workload stays.
pub open spec fn activation_workload_of(
    confidence: u16,
    classified: WorkloadKind,
    builtin: bool,
    current: WorkloadKind,
    current_source: WorkloadResolutionSource,
) -> (WorkloadKind, WorkloadResolutionSource) {
    if confidence >= MIN_CLASSIFICATION_CONFIDENCE && classified != WorkloadKind::General {
        (classified, if builtin { WorkloadResolutionSource::BuiltInSkill } else { WorkloadResolutionSource::StructuredClassification })
    } else {
        (current, current_source)
    }
}

pub fn activation_workload(
    confidence: u16,
    classified: WorkloadKind,
    builtin: bool,
    current: WorkloadKind,
    current_source: WorkloadResolutionSource,
) -> (out: (WorkloadKind, WorkloadResolutionSource))
    ensures
        out == activation_workload_of(confidence, classified, builtin, current, current_source),
{
    if confidence >= MIN_CLASSIFICATION_CONFIDENCE && classified != WorkloadKind::General {
        (classified, if builtin { WorkloadResolutionSource::BuiltInSkill } else { WorkloadResolutionSource::StructuredClassification })
    } else {
        (current, current_source)
    }
}

/// `lines.join("\n")`.
pub open spec fn joined_lines(lines: Seq<Seq<char>>) -> Seq<char>
    decreases lines.len(),
{
    if lines.len() == 0 {
        Seq::empty()
    } else if lines.len() == 1 {
        lines[0]
    } else {
        joined_lines(lines.drop_last()) + seq!['\n'] + lines.last()
    }
}

/// What a read returns of a text.
#[derive(Debug)]
pub struct SkillReadWindow {
    pub text: String,
    pub start_line: usize,
    pub returned_lines: usize,
    pub total_lines: usize,
    pub truncated: bool,
}

/// The window of a read: from `start_line` (1 when absent or 0), at most `line_limit` lines
/// (the default when absent, clamped to 1..=`MAX_LINE_LIMIT`), joined and cut to
/// `MAX_MODEL_CHARS` characters; truncated when lines remain after it or the cut was reached.
pub open spec fn window_of(content: Seq<char>, start_line: Option<usize>, line_limit: Option<usize>) -> (
    Seq<char>,
    nat,
    nat,
    nat,
    bool,
) {
    let lines = text_lines(content);
    let start = match start_line {
        Some(s) => if s >= 1 { s as nat } else { 1 },
        None => 1,
    };
    let limit = clamp(
        match line_limit {
            Some(l) => l as nat,
            None => DEFAULT_LINE_LIMIT as nat,
        },
        1,
        MAX_LINE_LIMIT as nat,
    );
    let from = if start - 1 <= lines.len() { (start - 1) as nat } else { lines.len() };
    let to = if from + limit <= lines.len() { from + limit } else { lines.len() };
    let picked = lines.subrange(from as int, to as int);
    let text = take_chars(joined_lines(picked), MAX_MODEL_CHARS as nat);
    (
        text,
        start,
        picked.len(),
        lines.len(),
        (start - 1) + picked.len() < lines.len() || text.len() >= MAX_MODEL_CHARS,
    )
}

/// The window of lines a Skill read returns (see `window_of`).
pub fn skill_read_window(content: &str, start_line: Option<usize>, line_limit: Option<usize>) -> (out: SkillReadWindow)
    ensures
        ({
            let (text, start, returned, total, truncated) = window_of(content@, start_line, line_limit);
            &&& out.text@ == text
            &&& out.start_line == start
            &&& out.returned_lines == returned
            &&& out.total_lines == total
            &&& out.truncated == truncated
        }),
{
    let lines = crate::file_diff::lines_of(content);
    let ghost ls = crate::agents::views(lines@);
    assert(ls.len() == lines@.len());
    let start = match start_line {
        Some(s) => if s >= 1 { s } else { 1 },
        None => 1,
    };
    let requested = match line_limit {
        Some(l) => l,
        None => DEFAULT_LINE_LIMIT,
    };
    let limit = if requested < 1 { 1 } else if requested > MAX_LINE_LIMIT { MAX_LINE_LIMIT } else { requested };
    let total = lines.len();
    let from = if start - 1 <= total { start - 1 } else { total };
    let to = if limit <= total - from { from + limit } else { total };
    let ghost picked = ls.subrange(from as int, to as int);
    let mut joined = String::new();
    let mut i: usize = from;
    while i < to
        invariant
            ls == crate::agents::views(lines@),
            ls.len() == lines@.len(),
            from <= i <= to <= lines@.len(),
            joined@ == joined_lines(ls.subrange(from as int, i as int)),
        decreases to - i,
    {
        proof {
            assert(ls.subrange(from as int, i + 1).drop_last() =~= ls.subrange(from as int, i as int));
            assert(ls[i as int] == lines@[i as int]@);
        }
        if i > from {
            joined.push('\n');
        }
        let mut k: usize = 0;
        let ghost before = joined@;
        while k < lines[i].len()
            invariant
                i < lines@.len(),
                k <= lines@[i as int]@.len(),
                joined@ == before + lines@[i as int]@.take(k as int),
            decreases lines@[i as int]@.len() - k,
        {
            joined.push(lines[i][k]);
            assert(lines@[i as int]@.take(k + 1) =~= lines@[i as int]@.take(k as int).push(lines@[i as int]@[k as int]));
            k = k + 1;
        }
        proof {
            assert(lines@[i as int]@.take(k as int) =~= lines@[i as int]@);
            let s = ls.subrange(from as int, i + 1);
            if i == from {
                assert(s.len() == 1);
                assert(ls.subrange(from as int, i as int) =~= Seq::<Seq<char>>::empty());
                assert(joined@ =~= s[0]);
            } else {
                assert(joined@ =~= joined_lines(ls.subrange(from as int, i as int)) + seq!['\n'] + s.last());
            }
        }
        i = i + 1;
    }
    let text = crate::text::bounded(joined.as_str(), MAX_MODEL_CHARS);
    let returned = to - from;
    let shown = text.unicode_len();
    SkillReadWindow {
        text,
        start_line: start,
        returned_lines: returned,
        total_lines: total,
        truncated: (start - 1) + returned < total || shown >= MAX_MODEL_CHARS,
    }
}

/// The model content of a read: the Skill's name, file and revision, then the window's text.
pub fn skill_read_message(qualified_name: &str, relative_path: &str, revision: &str, text: &str) -> (out: String)
    ensures
        out@ == "Untrusted Skill guidance "@ + qualified_name@ + ":"@ + relative_path@ + " (revision "@ + revision@
            + "):\n"@ + text@,
{
    let mut out = "Untrusted Skill guidance ".to_owned();
    push_str(&mut out, qualified_name);
    push_str(&mut out, ":");
    push_str(&mut out, relative_path);
    push_str(&mut out, " (revision ");
    push_str(&mut out, revision);
    push_str(&mut out, "):\n");
    push_str(&mut out, text);
    out
}

// ---------------------------------------------------------------------------------------------
// Descriptors
// ---------------------------------------------------------------------------------------------

pub const SKILLS_LIST_TOOL: &'static str = "skills.list";

pub const SKILLS_READ_TOOL: &'static str = "skills.read";

pub open spec fn int_field(minimum: Seq<char>, maximum: Option<Seq<char>>, default: Seq<char>) -> JsonView {
    match maximum {
        Some(m) => JsonView::Object(
            seq![
                ("type"@, JsonView::Str("integer"@)),
                ("minimum"@, JsonView::Number(minimum)),
                ("maximum"@, JsonView::Number(m)),
                ("default"@, JsonView::Number(default)),
            ],
        ),
        None => JsonView::Object(
            seq![
                ("type"@, JsonView::Str("integer"@)),
                ("minimum"@, JsonView::Number(minimum)),
                ("default"@, JsonView::Number(default)),
            ],
        ),
    }
}

fn int_field_value(minimum: &str, maximum: Option<&str>, default: &str) -> (out: JsonValue)
    ensures
        json_view(out) == int_field(
            minimum@,
            match maximum {
                Some(m) => Some(m@),
                None => None,
            },
            default@,
        ),
{
    let mut members = vec![json_member("type", json_str("integer")), json_member("minimum", json_number(minimum))];
    if let Some(m) = maximum {
        members.push(json_member("maximum", json_number(m)));
    }
    members.push(json_member("default", json_number(default)));
    let ghost ms = members@;
    let out = json_object(members);
    proof {
        match maximum {
            Some(m) => {
                assert(member_views(ms) =~= seq![
                    ("type"@, JsonView::Str("integer"@)),
                    ("minimum"@, JsonView::Number(minimum@)),
                    ("maximum"@, JsonView::Number(m@)),
                    ("default"@, JsonView::Number(default@)),
                ]);
            },
            None => {
                assert(member_views(ms) =~= seq![
                    ("type"@, JsonView::Str("integer"@)),
                    ("minimum"@, JsonView::Number(minimum@)),
                    ("default"@, JsonView::Number(default@)),
                ]);
            },
        }
    }
    out
}

/// A page of the Run's Skill catalog: a cursor and a bounded page size.
pub open spec fn skills_list_schema() -> JsonView {
    JsonView::Object(
        seq![
            ("type"@, JsonView::Str("object"@)),
            (
                "properties"@,
                JsonView::Object(
                    seq![
                        ("cursor"@, int_field("0"@, None, "0"@)),
                        ("limit"@, int_field("1"@, Some("100"@), "50"@)),
                    ],
                ),
            ),
            ("additionalProperties"@, JsonView::Bool(false)),
        ],
    )
}

/// One page of one Skill's file: the Skill, the path (its entry file by default) and a line
/// window.
pub open spec fn skills_read_schema() -> JsonView {
    JsonView::Object(
        seq![
            ("type"@, JsonView::Str("object"@)),
            (
                "properties"@,
                JsonView::Object(
                    seq![
                        ("skillId"@, JsonView::Object(seq![("type"@, JsonView::Str("string"@))])),
                        (
                            "path"@,
                            JsonView::Object(seq![("type"@, JsonView::Str("string"@)), ("default"@, JsonView::Str("SKILL.md"@))]),
                        ),
                        ("startLine"@, int_field("1"@, None, "1"@)),
                        ("lineLimit"@, int_field("1"@, Some("1000"@), "300"@)),
                    ],
                ),
            ),
            ("required"@, JsonView::Array(seq![JsonView::Str("skillId"@)])),
            ("additionalProperties"@, JsonView::Bool(false)),
        ],
    )
}

/// Listing Skills only reads and may run in parallel; it activates nothing.
pub fn skills_list_descriptor() -> (d: ToolDescriptor)
    ensures
        d.name@ == "skills.list"@,
        d.description@ == "List bounded metadata for Skills available to this Run. Listing a Skill does not activate it or grant permissions."@,
        json_view(d.input_schema) == skills_list_schema(),
        d.effect == ToolEffect::ReadOnly,
        d.parallel_safe,
        d.required_scopes@.len() == 1 && d.required_scopes@[0]@ == "skills.use"@,
{
    let props = vec![
        json_member("cursor", int_field_value("0", None, "0")),
        json_member("limit", int_field_value("1", Some("100"), "50")),
    ];
    let ghost ps = props@;
    let properties = json_object(props);
    assert(member_views(ps) =~= skills_list_schema()->Object_0[1].1->Object_0);
    let members = vec![
        json_member("type", json_str("object")),
        json_member("properties", properties),
        json_member("additionalProperties", JsonValue::Bool(false)),
    ];
    let ghost ms = members@;
    let schema = json_object(members);
    assert(member_views(ms) =~= skills_list_schema()->Object_0);
    ToolDescriptor {
        name: SKILLS_LIST_TOOL.to_owned(),
        description: "List bounded metadata for Skills available to this Run. Listing a Skill does not activate it or grant permissions.".to_owned(),
        input_schema: schema,
        effect: ToolEffect::ReadOnly,
        parallel_safe: true,
        required_scopes: vec!["skills.use".to_owned()],
    }
}

/// Reading a Skill may activate it, so reads do not run in parallel.
pub fn skills_read_descriptor() -> (d: ToolDescriptor)
    ensures
        d.name@ == "skills.read"@,
        d.description@ == "Read a bounded UTF-8 page from one Run-visible Skill. Reading SKILL.md activates the Skill; referenced resources are readable only after activation of the current SKILL.md revision."@,
        json_view(d.input_schema) == skills_read_schema(),
        d.effect == ToolEffect::ReadOnly,
        !d.parallel_safe,
        d.required_scopes@.len() == 1 && d.required_scopes@[0]@ == "skills.use"@,
{
    let id_members = vec![json_member("type", json_str("string"))];
    let ghost im = id_members@;
    let skill_id = json_object(id_members);
    assert(member_views(im) =~= seq![("type"@, JsonView::Str("string"@))]);
    let path_members = vec![json_member("type", json_str("string")), json_member("default", json_str("SKILL.md"))];
    let ghost pm = path_members@;
    let path = json_object(path_members);
    assert(member_views(pm) =~= seq![("type"@, JsonView::Str("string"@)), ("default"@, JsonView::Str("SKILL.md"@))]);
    let props = vec![
        json_member("skillId", skill_id),
        json_member("path", path),
        json_member("startLine", int_field_value("1", None, "1")),
        json_member("lineLimit", int_field_value("1", Some("1000"), "300")),
    ];
    let ghost ps = props@;
    let properties = json_object(props);
    assert(member_views(ps) =~= skills_read_schema()->Object_0[1].1->Object_0);
    let req = vec![json_str("skillId")];
    let ghost rs = req@;
    let required = json_array(req);
    assert(value_views(rs) =~= seq![JsonView::Str("skillId"@)]);
    let members = vec![
        json_member("type", json_str("object")),
        json_member("properties", properties),
        json_member("required", required),
        json_member("additionalProperties", JsonValue::Bool(false)),
    ];
    let ghost ms = members@;
    let schema = json_object(members);
    assert(member_views(ms) =~= skills_read_schema()->Object_0);
    ToolDescriptor {
        name: SKILLS_READ_TOOL.to_owned(),
        description: "Read a bounded UTF-8 page from one Run-visible Skill. Reading SKILL.md activates the Skill; referenced resources are readable only after activation of the current SKILL.md revision.".to_owned(),
        input_schema: schema,
        effect: ToolEffect::ReadOnly,
        parallel_safe: false,
        required_scopes: vec!["skills.use".to_owned()],
    }
}

} // verus!
