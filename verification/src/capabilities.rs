//! Provider capabilities, their negotiation, and validation of dynamic tool registrations.

use vstd::prelude::*;

use crate::json::{as_str, field, get_str, JsonValue};
use crate::text::{concat, push_str, str_eq, chars_of};

verus! {

/// What a provider (or a Run's request) supports.
#[derive(PartialEq, Eq, Structural, Clone, Copy, Debug)]
pub struct ProviderCapabilities {
    pub tool_calls: bool,
    pub parallel_tool_calls: bool,
    pub namespaced_tools: bool,
    pub deferred_tools: bool,
    pub strict_json_schema: bool,
    pub output_schema: bool,
    pub text_input: bool,
    pub image_input: bool,
    pub audio_input: bool,
    pub streaming_usage: bool,
    pub reasoning_summary: bool,
    pub realtime: bool,
    pub http_transport: bool,
    pub websocket_transport: bool,
    pub remote_compaction: bool,
    pub context_window: Option<u64>,
    pub max_output_tokens: Option<u64>,
}

impl ProviderCapabilities {
    /// No capability at all and no known limits.
    pub fn none() -> (caps: Self)
        ensures
            !caps.tool_calls && !caps.parallel_tool_calls && !caps.namespaced_tools
                && !caps.deferred_tools && !caps.strict_json_schema && !caps.output_schema
                && !caps.text_input && !caps.image_input && !caps.audio_input
                && !caps.streaming_usage && !caps.reasoning_summary && !caps.realtime
                && !caps.http_transport && !caps.websocket_transport && !caps.remote_compaction,
            caps.context_window is None,
            caps.max_output_tokens is None,
    {
        ProviderCapabilities {
            tool_calls: false,
            parallel_tool_calls: false,
            namespaced_tools: false,
            deferred_tools: false,
            strict_json_schema: false,
            output_schema: false,
            text_input: false,
            image_input: false,
            audio_input: false,
            streaming_usage: false,
            reasoning_summary: false,
            realtime: false,
            http_transport: false,
            websocket_transport: false,
            remote_compaction: false,
            context_window: None,
            max_output_tokens: None,
        }
    }
}

impl Default for ProviderCapabilities {
    fn default() -> (caps: Self)
        ensures
            caps == ProviderCapabilities::none_spec(),
    {
        Self::none()
    }
}

impl ProviderCapabilities {
    pub open spec fn none_spec() -> Self {
        ProviderCapabilities {
            tool_calls: false,
            parallel_tool_calls: false,
            namespaced_tools: false,
            deferred_tools: false,
            strict_json_schema: false,
            output_schema: false,
            text_input: false,
            image_input: false,
            audio_input: false,
            streaming_usage: false,
            reasoning_summary: false,
            realtime: false,
            http_transport: false,
            websocket_transport: false,
            remote_compaction: false,
            context_window: None,
            max_output_tokens: None,
        }
    }
}

/// The smaller of two optional limits; a limit known on one side only is kept.
pub open spec fn min_opt(left: Option<u64>, right: Option<u64>) -> Option<u64> {
    match (left, right) {
        (Some(l), Some(r)) => Some(if l <= r { l } else { r }),
        (Some(l), None) => Some(l),
        (None, Some(r)) => Some(r),
        (None, None) => None,
    }
}

pub fn min_option(left: Option<u64>, right: Option<u64>) -> (out: Option<u64>)
    ensures
        out == min_opt(left, right),
{
    match (left, right) {
        (Some(l), Some(r)) => Some(if l <= r { l } else { r }),
        (Some(l), None) => Some(l),
        (None, Some(r)) => Some(r),
        (None, None) => None,
    }
}

/// A requested capability that the provider did not grant.
#[derive(Debug)]
pub struct CapabilityDegradation {
    pub capability: String,
    pub code: String,
    pub message: String,
}

/// `name` when a requested capability was not negotiated, nothing otherwise.
pub open spec fn lost_if(name: Seq<char>, wanted: bool, enabled: bool) -> Seq<Seq<char>> {
    if wanted && !enabled { seq![name] } else { Seq::empty() }
}

/// The capabilities whose loss negotiation reports, by position in report order.
pub open spec fn reported_capability(i: int) -> Seq<char> {
    if i == 0 {
        "tool_calls"@
    } else if i == 1 {
        "parallel_tool_calls"@
    } else if i == 2 {
        "namespaced_tools"@
    } else if i == 3 {
        "deferred_tools"@
    } else if i == 4 {
        "strict_json_schema"@
    } else if i == 5 {
        "output_schema"@
    } else if i == 6 {
        "text_input"@
    } else if i == 7 {
        "image_input"@
    } else if i == 8 {
        "audio_input"@
    } else if i == 9 {
        "streaming_usage"@
    } else if i == 10 {
        "reasoning_summary"@
    } else if i == 11 {
        "realtime"@
    } else if i == 12 {
        "remote_compaction"@
    } else {
        Seq::empty()
    }
}

/// The flag of `caps` at position `i` of the report order.
pub open spec fn capability_flag(caps: ProviderCapabilities, i: int) -> bool {
    if i == 0 {
        caps.tool_calls
    } else if i == 1 {
        caps.parallel_tool_calls
    } else if i == 2 {
        caps.namespaced_tools
    } else if i == 3 {
        caps.deferred_tools
    } else if i == 4 {
        caps.strict_json_schema
    } else if i == 5 {
        caps.output_schema
    } else if i == 6 {
        caps.text_input
    } else if i == 7 {
        caps.image_input
    } else if i == 8 {
        caps.audio_input
    } else if i == 9 {
        caps.streaming_usage
    } else if i == 10 {
        caps.reasoning_summary
    } else if i == 11 {
        caps.realtime
    } else if i == 12 {
        caps.remote_compaction
    } else {
        false
    }
}

/// Names of the first `k` reported capabilities that were requested and not negotiated.
pub open spec fn lost_prefix(requested: ProviderCapabilities, n: ProviderCapabilities, k: nat) -> Seq<Seq<char>>
    decreases k,
{
    if k == 0 {
        Seq::empty()
    } else {
        let i = k - 1;
        lost_prefix(requested, n, (k - 1) as nat) + lost_if(
            reported_capability(i),
            capability_flag(requested, i),
            capability_flag(n, i),
        )
    }
}

/// Number of capabilities whose loss is reported.
pub const REPORTED_CAPABILITIES: usize = 13;

/// Names of requested capabilities that the negotiated set lacks, in report order.
pub open spec fn lost_capabilities(requested: ProviderCapabilities, n: ProviderCapabilities) -> Seq<Seq<char>> {
    lost_prefix(requested, n, REPORTED_CAPABILITIES as nat)
}

/// The negotiated capability set: a capability is on when both sides have it; limits are the
/// smaller of the known ones.
pub open spec fn negotiated(requested: ProviderCapabilities, actual: ProviderCapabilities) -> ProviderCapabilities {
    ProviderCapabilities {
        tool_calls: requested.tool_calls && actual.tool_calls,
        parallel_tool_calls: requested.parallel_tool_calls && actual.parallel_tool_calls,
        namespaced_tools: requested.namespaced_tools && actual.namespaced_tools,
        deferred_tools: requested.deferred_tools && actual.deferred_tools,
        strict_json_schema: requested.strict_json_schema && actual.strict_json_schema,
        output_schema: requested.output_schema && actual.output_schema,
        text_input: requested.text_input && actual.text_input,
        image_input: requested.image_input && actual.image_input,
        audio_input: requested.audio_input && actual.audio_input,
        streaming_usage: requested.streaming_usage && actual.streaming_usage,
        reasoning_summary: requested.reasoning_summary && actual.reasoning_summary,
        realtime: requested.realtime && actual.realtime,
        http_transport: requested.http_transport && actual.http_transport,
        websocket_transport: requested.websocket_transport && actual.websocket_transport,
        remote_compaction: requested.remote_compaction && actual.remote_compaction,
        context_window: min_opt(requested.context_window, actual.context_window),
        max_output_tokens: min_opt(requested.max_output_tokens, actual.max_output_tokens),
    }
}

/// Negotiation never turns on what either side lacks, keeps everything both sides have, does
/// not depend on which side asks, and changes nothing when both sides agree; each known limit
/// is the smaller of the two.
pub proof fn negotiation_keeps_only_shared_capabilities(requested: ProviderCapabilities, actual: ProviderCapabilities)
    ensures
        ({
            let n = negotiated(requested, actual);
            &&& n.tool_calls <==> requested.tool_calls && actual.tool_calls
            &&& n.parallel_tool_calls <==> requested.parallel_tool_calls && actual.parallel_tool_calls
            &&& n.namespaced_tools <==> requested.namespaced_tools && actual.namespaced_tools
            &&& n.deferred_tools <==> requested.deferred_tools && actual.deferred_tools
            &&& n.strict_json_schema <==> requested.strict_json_schema && actual.strict_json_schema
            &&& n.output_schema <==> requested.output_schema && actual.output_schema
            &&& n.text_input <==> requested.text_input && actual.text_input
            &&& n.image_input <==> requested.image_input && actual.image_input
            &&& n.audio_input <==> requested.audio_input && actual.audio_input
            &&& n.streaming_usage <==> requested.streaming_usage && actual.streaming_usage
            &&& n.reasoning_summary <==> requested.reasoning_summary && actual.reasoning_summary
            &&& n.realtime <==> requested.realtime && actual.realtime
            &&& n.http_transport <==> requested.http_transport && actual.http_transport
            &&& n.websocket_transport <==> requested.websocket_transport && actual.websocket_transport
            &&& n.remote_compaction <==> requested.remote_compaction && actual.remote_compaction
            &&& (requested.context_window matches Some(r) ==> n.context_window matches Some(x) && x <= r)
            &&& (actual.context_window matches Some(a) ==> n.context_window matches Some(x) && x <= a)
            &&& (n.context_window matches Some(x) ==> requested.context_window == Some(x) || actual.context_window
                == Some(x))
            &&& (requested.max_output_tokens matches Some(r) ==> n.max_output_tokens matches Some(x) && x <= r)
            &&& (actual.max_output_tokens matches Some(a) ==> n.max_output_tokens matches Some(x) && x <= a)
            &&& (n.max_output_tokens matches Some(x) ==> requested.max_output_tokens == Some(x)
                || actual.max_output_tokens == Some(x))
            &&& n == negotiated(actual, requested)
            &&& negotiated(requested, requested) == requested
        }),
{
}

/// A degradation record of the one shape that negotiation emits.
pub open spec fn degradation_shape(d: CapabilityDegradation) -> bool {
    &&& d.code@ == "provider_capability_unavailable"@
    &&& d.message@ == "provider did not negotiate requested capability "@ + d.capability@
}

pub open spec fn capability_names(ds: Seq<CapabilityDegradation>) -> Seq<Seq<char>> {
    ds.map_values(|d: CapabilityDegradation| d.capability@)
}

fn negotiated_set(requested: ProviderCapabilities, actual: ProviderCapabilities) -> (n: ProviderCapabilities)
    ensures
        n == negotiated(requested, actual),
{
    let n = ProviderCapabilities {
        tool_calls: requested.tool_calls && actual.tool_calls,
        parallel_tool_calls: requested.parallel_tool_calls && actual.parallel_tool_calls,
        namespaced_tools: requested.namespaced_tools && actual.namespaced_tools,
        deferred_tools: requested.deferred_tools && actual.deferred_tools,
        strict_json_schema: requested.strict_json_schema && actual.strict_json_schema,
        output_schema: requested.output_schema && actual.output_schema,
        text_input: requested.text_input && actual.text_input,
        image_input: requested.image_input && actual.image_input,
        audio_input: requested.audio_input && actual.audio_input,
        streaming_usage: requested.streaming_usage && actual.streaming_usage,
        reasoning_summary: requested.reasoning_summary && actual.reasoning_summary,
        realtime: requested.realtime && actual.realtime,
        http_transport: requested.http_transport && actual.http_transport,
        websocket_transport: requested.websocket_transport && actual.websocket_transport,
        remote_compaction: requested.remote_compaction && actual.remote_compaction,
        context_window: min_option(requested.context_window, actual.context_window),
        max_output_tokens: min_option(requested.max_output_tokens, actual.max_output_tokens),
    };
    n
}

fn reported_name(i: usize) -> (name: &'static str)
    ensures
        name@ == reported_capability(i as int),
{
    if i == 0 {
        "tool_calls"
    } else if i == 1 {
        "parallel_tool_calls"
    } else if i == 2 {
        "namespaced_tools"
    } else if i == 3 {
        "deferred_tools"
    } else if i == 4 {
        "strict_json_schema"
    } else if i == 5 {
        "output_schema"
    } else if i == 6 {
        "text_input"
    } else if i == 7 {
        "image_input"
    } else if i == 8 {
        "audio_input"
    } else if i == 9 {
        "streaming_usage"
    } else if i == 10 {
        "reasoning_summary"
    } else if i == 11 {
        "realtime"
    } else if i == 12 {
        "remote_compaction"
    } else {
        proof { reveal_strlit(""); }
        ""
    }
}

fn reported_flag(caps: ProviderCapabilities, i: usize) -> (flag: bool)
    ensures
        flag == capability_flag(caps, i as int),
{
    if i == 0 {
        caps.tool_calls
    } else if i == 1 {
        caps.parallel_tool_calls
    } else if i == 2 {
        caps.namespaced_tools
    } else if i == 3 {
        caps.deferred_tools
    } else if i == 4 {
        caps.strict_json_schema
    } else if i == 5 {
        caps.output_schema
    } else if i == 6 {
        caps.text_input
    } else if i == 7 {
        caps.image_input
    } else if i == 8 {
        caps.audio_input
    } else if i == 9 {
        caps.streaming_usage
    } else if i == 10 {
        caps.reasoning_summary
    } else if i == 11 {
        caps.realtime
    } else if i == 12 {
        caps.remote_compaction
    } else {
        false
    }
}

fn lost_report(requested: ProviderCapabilities, n: ProviderCapabilities) -> (out: Vec<CapabilityDegradation>)
    ensures
        capability_names(out@) == lost_capabilities(requested, n),
        forall|i: int| 0 <= i < out@.len() ==> degradation_shape(#[trigger] out@[i]),
{
    let mut out: Vec<CapabilityDegradation> = Vec::new();
    let mut i: usize = 0;
    assert(capability_names(out@) =~= lost_prefix(requested, n, 0));
    while i < REPORTED_CAPABILITIES
        invariant
            i <= REPORTED_CAPABILITIES,
            capability_names(out@) == lost_prefix(requested, n, i as nat),
            forall|k: int| 0 <= k < out@.len() ==> degradation_shape(#[trigger] out@[k]),
        decreases REPORTED_CAPABILITIES - i,
    {
        let name = reported_name(i);
        let wanted = reported_flag(requested, i);
        let enabled = reported_flag(n, i);
        let ghost before = capability_names(out@);
        if wanted && !enabled {
            out.push(CapabilityDegradation {
                capability: name.to_owned(),
                code: "provider_capability_unavailable".to_owned(),
                message: concat("provider did not negotiate requested capability ", name),
            });
        }
        assert(capability_names(out@) =~= before + lost_if(name@, wanted, enabled));
        i = i + 1;
    }
    out
}

/// Negotiates a Run's requested capabilities against the provider's, and reports each
/// requested capability that was lost as a structured degradation.
pub fn negotiate_provider_capabilities(requested: ProviderCapabilities, actual: ProviderCapabilities) -> (out: (
    ProviderCapabilities,
    Vec<CapabilityDegradation>,
))
    ensures
        out.0 == negotiated(requested, actual),
        capability_names(out.1@) == lost_capabilities(requested, out.0),
        forall|i: int| 0 <= i < out.1@.len() ==> degradation_shape(#[trigger] out.1@[i]),
{
    let n = negotiated_set(requested, actual);
    let out = lost_report(requested, n);
    (n, out)
}

// ---------------------------------------------------------------------------------------------
// Dynamic tools
// ---------------------------------------------------------------------------------------------

/// A tool registered by a client for one Run.
#[derive(Debug)]
pub struct DynamicToolRegistration {
    pub namespace: String,
    pub name: String,
    pub description: String,
    pub input_schema: JsonValue,
    pub deferred: bool,
    pub requires_strict_schema: bool,
    pub output_media: Vec<String>,
}

/// Why a registration was rejected.
#[derive(Debug)]
pub struct DynamicToolValidationError {
    pub code: String,
    pub field: String,
    pub message: String,
}

/// Accepted registrations and rejected ones with their errors, each in registration order.
#[derive(Debug)]
pub struct DynamicToolValidation {
    pub accepted: Vec<DynamicToolRegistration>,
    pub rejected: Vec<(DynamicToolRegistration, DynamicToolValidationError)>,
}

pub open spec fn is_identifier_char(c: char) -> bool {
    ('a' <= c && c <= 'z') || ('A' <= c && c <= 'Z') || ('0' <= c && c <= '9') || c == '_' || c == '-'
}

/// Bounded ASCII letters, digits, underscores and hyphens (empty only where allowed).
pub open spec fn valid_identifier(v: Seq<char>, max_bytes: nat, allow_empty: bool) -> bool {
    &&& (allow_empty || v.len() > 0)
    &&& v.len() <= max_bytes
    &&& forall|i: int| 0 <= i < v.len() ==> is_identifier_char(#[trigger] v[i])
}

fn identifier_is_valid(value: &str, max_bytes: usize, allow_empty: bool) -> (ok: bool)
    ensures
        ok == valid_identifier(value@, max_bytes as nat, allow_empty),
{
    let chars = chars_of(value);
    if !allow_empty && chars.len() == 0 {
        return false;
    }
    if chars.len() > max_bytes {
        return false;
    }
    let mut i: usize = 0;
    while i < chars.len()
        invariant
            chars@ == value@,
            i <= chars@.len(),
            forall|k: int| 0 <= k < i ==> is_identifier_char(#[trigger] chars@[k]),
        decreases chars@.len() - i,
    {
        let c = chars[i];
        if !(('a' <= c && c <= 'z') || ('A' <= c && c <= 'Z') || ('0' <= c && c <= '9') || c == '_' || c == '-') {
            assert(!is_identifier_char(chars@[i as int]));
            return false;
        }
        i = i + 1;
    }
    true
}

/// The message of an `invalid_identifier` error.
pub open spec fn identifier_message() -> Seq<char> {
    "identifier must be bounded ASCII letters, digits, underscore, or hyphen"@
}

/// Checks an identifier of the registration's `field`: `Ok` when it is valid, otherwise the
/// `invalid_identifier` error naming that field.
pub fn validate_identifier(value: &str, field: &str, max_bytes: usize, allow_empty: bool) -> (out: Result<
    (),
    DynamicToolValidationError,
>)
    ensures
        out is Ok <==> valid_identifier(value@, max_bytes as nat, allow_empty),
        out matches Err(e) ==> error_view(e) == ("invalid_identifier"@, field@, identifier_message()),
{
    if identifier_is_valid(value, max_bytes, allow_empty) {
        Ok(())
    } else {
        Err(error("invalid_identifier", field, "identifier must be bounded ASCII letters, digits, underscore, or hyphen"))
    }
}

pub open spec fn media_supported(media: Seq<char>, provider: ProviderCapabilities) -> bool {
    if media == "text"@ {
        true
    } else if media == "image"@ {
        provider.image_input
    } else if media == "audio"@ {
        provider.audio_input
    } else {
        false
    }
}

pub open spec fn qualified_name(r: DynamicToolRegistration) -> Seq<char> {
    if r.namespace@.len() == 0 { r.name@ } else { r.namespace@ + "."@ + r.name@ }
}

pub open spec fn reserved_namespace(ns: Seq<char>) -> bool {
    ns == "hachimi"@ || ns == "system"@ || ns == "openai"@
}

/// The first failed check among those that look at the registration alone, as
/// (code, field, message).
pub open spec fn static_error(r: DynamicToolRegistration, provider: ProviderCapabilities) -> Option<
    (Seq<char>, Seq<char>, Seq<char>),
> {
    let ident = identifier_message();
    if !valid_identifier(r.namespace@, 64, true) {
        Some(("invalid_identifier"@, "namespace"@, ident))
    } else if !valid_identifier(r.name@, 128, false) {
        Some(("invalid_identifier"@, "name"@, ident))
    } else if reserved_namespace(r.namespace@) {
        Some(("reserved_namespace"@, "namespace"@, "the namespace is reserved by Hachimi"@))
    } else if r.namespace@.len() > 0 && !provider.namespaced_tools {
        Some(("namespace_unsupported"@, "namespace"@, "the selected provider does not support namespaced tools"@))
    } else if r.deferred && (r.namespace@.len() == 0 || !provider.deferred_tools) {
        Some(("deferred_tool_unsupported"@, "deferred"@, "deferred tools require a namespace and provider support"@))
    } else if r.requires_strict_schema && !provider.strict_json_schema {
        Some(("strict_schema_unsupported"@, "inputSchema"@, "the selected provider does not support strict JSON Schema"@))
    } else if !(r.input_schema is Object) || as_str(field(r.input_schema, "type"@)) != Some("object"@) {
        Some(("invalid_input_schema"@, "inputSchema"@, "tool input schema must be a JSON object schema"@))
    } else {
        None
    }
}

/// Every output medium of the registration is one the provider accepts.
pub open spec fn all_media_supported(r: DynamicToolRegistration, provider: ProviderCapabilities) -> bool {
    forall|i: int| 0 <= i < r.output_media@.len() ==> media_supported(#[trigger] r.output_media@[i]@, provider)
}

/// The first failed check of a registration, as (code, field, message), given the qualified
/// names already accepted.
pub open spec fn registration_error(
    r: DynamicToolRegistration,
    provider: ProviderCapabilities,
    names: Set<Seq<char>>,
) -> Option<(Seq<char>, Seq<char>, Seq<char>)> {
    if static_error(r, provider) is Some {
        static_error(r, provider)
    } else if !all_media_supported(r, provider) {
        Some(("output_media_unsupported"@, "outputMedia"@, "tool output media is not supported by the selected provider"@))
    } else if names.contains(qualified_name(r)) {
        Some(("duplicate_tool_name"@, "name"@, "a dynamic tool with the same qualified name is already registered"@))
    } else {
        None
    }
}

/// Validation outcome of each registration in turn, and the qualified names accepted.
pub open spec fn validation_outcome(regs: Seq<DynamicToolRegistration>, provider: ProviderCapabilities) -> (
    Seq<Option<(Seq<char>, Seq<char>, Seq<char>)>>,
    Set<Seq<char>>,
)
    decreases regs.len(),
{
    if regs.len() == 0 {
        (Seq::empty(), Set::empty())
    } else {
        let (codes, names) = validation_outcome(regs.drop_last(), provider);
        let r = regs.last();
        match registration_error(r, provider, names) {
            None => (codes.push(None), names.insert(qualified_name(r))),
            Some(e) => (codes.push(Some(e)), names),
        }
    }
}

pub open spec fn accepted_of(
    regs: Seq<DynamicToolRegistration>,
    outcome: Seq<Option<(Seq<char>, Seq<char>, Seq<char>)>>,
) -> Seq<DynamicToolRegistration>
    decreases regs.len(),
{
    if regs.len() == 0 || outcome.len() != regs.len() {
        Seq::empty()
    } else {
        let rest = accepted_of(regs.drop_last(), outcome.drop_last());
        if outcome.last() is None { rest.push(regs.last()) } else { rest }
    }
}

pub open spec fn rejected_of(
    regs: Seq<DynamicToolRegistration>,
    outcome: Seq<Option<(Seq<char>, Seq<char>, Seq<char>)>>,
) -> Seq<(DynamicToolRegistration, (Seq<char>, Seq<char>, Seq<char>))>
    decreases regs.len(),
{
    if regs.len() == 0 || outcome.len() != regs.len() {
        Seq::empty()
    } else {
        let rest = rejected_of(regs.drop_last(), outcome.drop_last());
        match outcome.last() {
            Some(e) => rest.push((regs.last(), e)),
            None => rest,
        }
    }
}

pub open spec fn error_view(e: DynamicToolValidationError) -> (Seq<char>, Seq<char>, Seq<char>) {
    (e.code@, e.field@, e.message@)
}

fn error(code: &str, field: &str, message: &str) -> (e: DynamicToolValidationError)
    ensures
        error_view(e) == (code@, field@, message@),
{
    DynamicToolValidationError { code: code.to_owned(), field: field.to_owned(), message: message.to_owned() }
}

fn qualified(r: &DynamicToolRegistration) -> (q: String)
    ensures
        q@ == qualified_name(*r),
{
    if r.namespace.unicode_len() == 0 {
        r.name.clone()
    } else {
        let mut q = r.namespace.clone();
        push_str(&mut q, ".");
        push_str(&mut q, &r.name);
        q
    }
}

fn contains_name(names: &Vec<String>, q: &String) -> (b: bool)
    ensures
        b == names@.map_values(|s: String| s@).contains(q@),
{
    let mut i: usize = 0;
    while i < names.len()
        invariant
            i <= names@.len(),
            forall|k: int| 0 <= k < i ==> names@[k]@ != q@,
        decreases names@.len() - i,
    {
        if str_eq(&names[i], q) {
            assert(names@.map_values(|s: String| s@)[i as int] == q@);
            return true;
        }
        i = i + 1;
    }
    proof {
        if names@.map_values(|s: String| s@).contains(q@) {
            let m = names@.map_values(|s: String| s@);
            let k = choose|k: int| 0 <= k < m.len() && #[trigger] m[k] == q@;
            assert(names@[k]@ == q@);
        }
    }
    false
}

fn check_static(r: &DynamicToolRegistration, provider: ProviderCapabilities) -> (out: Option<
    DynamicToolValidationError,
>)
    ensures
        match out {
            None => static_error(*r, provider) is None,
            Some(e) => static_error(*r, provider) == Some(error_view(e)),
        },
{
    proof {
        reveal_strlit("hachimi");
        reveal_strlit("system");
        reveal_strlit("openai");
        reveal_strlit("object");
    }
    if let Err(e) = validate_identifier(&r.namespace, "namespace", 64, true) {
        return Some(e);
    }
    if let Err(e) = validate_identifier(&r.name, "name", 128, false) {
        return Some(e);
    }
    if str_eq(&r.namespace, "hachimi") || str_eq(&r.namespace, "system") || str_eq(&r.namespace, "openai") {
        return Some(error("reserved_namespace", "namespace", "the namespace is reserved by Hachimi"));
    }
    let has_namespace = r.namespace.unicode_len() > 0;
    if has_namespace && !provider.namespaced_tools {
        return Some(error("namespace_unsupported", "namespace", "the selected provider does not support namespaced tools"));
    }
    if r.deferred && (!has_namespace || !provider.deferred_tools) {
        return Some(error("deferred_tool_unsupported", "deferred", "deferred tools require a namespace and provider support"));
    }
    if r.requires_strict_schema && !provider.strict_json_schema {
        return Some(error("strict_schema_unsupported", "inputSchema", "the selected provider does not support strict JSON Schema"));
    }
    let object_schema = match &r.input_schema {
        JsonValue::Object(_) => match get_str(&r.input_schema, "type") {
            Some(t) => str_eq(t, "object"),
            None => false,
        },
        _ => false,
    };
    if !object_schema {
        return Some(error("invalid_input_schema", "inputSchema", "tool input schema must be a JSON object schema"));
    }
    None
}

fn media_ok(r: &DynamicToolRegistration, provider: ProviderCapabilities) -> (ok: bool)
    ensures
        ok == all_media_supported(*r, provider),
{
    proof {
        reveal_strlit("text");
        reveal_strlit("image");
        reveal_strlit("audio");
    }
    let mut i: usize = 0;
    while i < r.output_media.len()
        invariant
            i <= r.output_media@.len(),
            forall|k: int| 0 <= k < i ==> media_supported(#[trigger] r.output_media@[k]@, provider),
        decreases r.output_media@.len() - i,
    {
        let media = &r.output_media[i];
        let supported = if str_eq(media, "text") {
            true
        } else if str_eq(media, "image") {
            provider.image_input
        } else if str_eq(media, "audio") {
            provider.audio_input
        } else {
            false
        };
        if !supported {
            assert(!media_supported(r.output_media@[i as int]@, provider));
            return false;
        }
        i = i + 1;
    }
    true
}

/// Checks one registration against the provider and the names accepted so far.
pub fn validate_registration(
    r: &DynamicToolRegistration,
    provider: ProviderCapabilities,
    names: &Vec<String>,
) -> (out: Option<DynamicToolValidationError>)
    ensures
        match out {
            None => registration_error(*r, provider, names@.map_values(|s: String| s@).to_set()) is None,
            Some(e) => registration_error(*r, provider, names@.map_values(|s: String| s@).to_set()) == Some(
                error_view(e),
            ),
        },
{
    let first = check_static(r, provider);
    if first.is_some() {
        return first;
    }
    if !media_ok(r, provider) {
        return Some(error("output_media_unsupported", "outputMedia", "tool output media is not supported by the selected provider"));
    }
    let q = qualified(r);
    if contains_name(names, &q) {
        assert(names@.map_values(|s: String| s@).to_set().contains(q@));
        return Some(error("duplicate_tool_name", "name", "a dynamic tool with the same qualified name is already registered"));
    }
    proof {
        if names@.map_values(|s: String| s@).to_set().contains(q@) {
            assert(names@.map_values(|s: String| s@).contains(q@));
        }
    }
    None
}

/// Validates dynamic tool registrations in order; accepted qualified names must be unique.
pub fn validate_dynamic_tools(registrations: Vec<DynamicToolRegistration>, provider: ProviderCapabilities) -> (out: DynamicToolValidation)
    ensures
        ({
            let (outcome, _) = validation_outcome(registrations@, provider);
            &&& out.accepted@ == accepted_of(registrations@, outcome)
            &&& out.rejected@.map_values(
                |x: (DynamicToolRegistration, DynamicToolValidationError)| (x.0, error_view(x.1)),
            ) == rejected_of(registrations@, outcome)
        }),
{
    broadcast use vstd::std_specs::vec::group_vec_axioms;
    let ghost regs = registrations@;
    let mut accepted: Vec<DynamicToolRegistration> = Vec::new();
    let mut rejected: Vec<(DynamicToolRegistration, DynamicToolValidationError)> = Vec::new();
    let mut names: Vec<String> = Vec::new();
    proof {
        assert(regs.take(0) =~= Seq::<DynamicToolRegistration>::empty());
        assert(names@.map_values(|s: String| s@).to_set() =~= Set::<Seq<char>>::empty());
        assert(rejected@.map_values(|x: (DynamicToolRegistration, DynamicToolValidationError)| (x.0, error_view(x.1)))
            =~= Seq::empty());
    }
    for r in it: registrations.into_iter()
        invariant
            it.seq() == regs,
            names@.map_values(|s: String| s@).to_set() == validation_outcome(regs.take(it.index() as int), provider).1,
            accepted@ == accepted_of(regs.take(it.index() as int), validation_outcome(regs.take(it.index() as int), provider).0),
            rejected@.map_values(|x: (DynamicToolRegistration, DynamicToolValidationError)| (x.0, error_view(x.1)))
                == rejected_of(regs.take(it.index() as int), validation_outcome(regs.take(it.index() as int), provider).0),
    {
        let ghost done = it.index() as int;
        proof {
            assert(regs.take(done + 1).drop_last() =~= regs.take(done));
            assert(regs.take(done + 1).last() == r);
            lemma_validation_outcome_len(regs.take(done + 1), provider);
            lemma_validation_outcome_len(regs.take(done), provider);
            let prev = validation_outcome(regs.take(done), provider);
            let next = validation_outcome(regs.take(done + 1), provider);
            assert(next.0.drop_last() =~= prev.0);
            assert(next.0.last() == registration_error(r, provider, prev.1));
        }
        let ghost acc_before = accepted@;
        let ghost rej_before = rejected@.map_values(|x: (DynamicToolRegistration, DynamicToolValidationError)| (x.0, error_view(x.1)));
        let ghost names_before = names@.map_values(|s: String| s@);
        match validate_registration(&r, provider, &names) {
            None => {
                let q = qualified(&r);
                names.push(q);
                accepted.push(r);
                proof {
                    assert(names@.map_values(|s: String| s@) =~= names_before.push(qualified_name(r)));
                    names_before.lemma_push_to_set_commute(qualified_name(r));
                }
            },
            Some(e) => {
                rejected.push((r, e));
                proof {
                    assert(rejected@.map_values(|x: (DynamicToolRegistration, DynamicToolValidationError)| (x.0, error_view(x.1)))
                        =~= rej_before.push((r, error_view(e))));
                }
            },
        }
    }
    assert(regs.take(regs.len() as int) =~= regs);
    DynamicToolValidation { accepted, rejected }
}

proof fn lemma_validation_outcome_len(regs: Seq<DynamicToolRegistration>, provider: ProviderCapabilities)
    ensures
        validation_outcome(regs, provider).0.len() == regs.len(),
    decreases regs.len(),
{
    if regs.len() > 0 {
        lemma_validation_outcome_len(regs.drop_last(), provider);
    }
}

} // verus!
