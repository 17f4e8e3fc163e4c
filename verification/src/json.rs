//! JSON values as the agent kernel reads them. Parsing and printing are serde_json's.

use vstd::prelude::*;

use crate::text::{chars_of, str_eq};

verus! {

/// A JSON value. Numbers keep serde_json's textual rendering; object members keep serde_json's
/// order (sorted by key, each key once).
#[derive(Debug)]
pub enum JsonValue {
    Null,
    Bool(bool),
    Number(String),
    String(String),
    Array(Vec<JsonValue>),
    Object(Vec<(String, JsonValue)>),
}

/// The mathematical value of a `JsonValue`.
pub enum JsonView {
    Null,
    Bool(bool),
    Number(Seq<char>),
    Str(Seq<char>),
    Array(Seq<JsonView>),
    Object(Seq<(Seq<char>, JsonView)>),
}

pub open spec fn json_view(v: JsonValue) -> JsonView
    decreases v,
{
    match v {
        JsonValue::Null => JsonView::Null,
        JsonValue::Bool(b) => JsonView::Bool(b),
        JsonValue::Number(n) => JsonView::Number(n@),
        JsonValue::String(s) => JsonView::Str(s@),
        JsonValue::Array(items) => JsonView::Array(items_view(items@)),
        JsonValue::Object(members) => JsonView::Object(members_view(members@)),
    }
}

pub open spec fn items_view(items: Seq<JsonValue>) -> Seq<JsonView>
    decreases items,
{
    if items.len() == 0 {
        Seq::empty()
    } else {
        items_view(items.drop_last()).push(json_view(items.last()))
    }
}

pub open spec fn members_view(members: Seq<(String, JsonValue)>) -> Seq<(Seq<char>, JsonView)>
    decreases members,
{
    if members.len() == 0 {
        Seq::empty()
    } else {
        members_view(members.drop_last()).push((members.last().0@, json_view(members.last().1)))
    }
}

#[verifier::external_type_specification]
#[verifier::external_body]
pub struct ExSerdeJsonValue(serde_json::Value);

/// The value serde_json parses from `text`, if it parses.
pub uninterp spec fn json_parse(text: Seq<char>) -> Option<JsonView>;

/// The compact text serde_json prints for `value`.
pub uninterp spec fn json_print(value: JsonView) -> Seq<char>;

/// The indented text serde_json pretty-prints for `value`.
pub uninterp spec fn json_print_pretty(value: JsonView) -> Seq<char>;

/// One-for-one conversion from serde_json's value tree, used by the JSON wrappers below.
#[verifier::external_body]
fn from_serde(value: &serde_json::Value) -> JsonValue {
    match value {
        serde_json::Value::Null => JsonValue::Null,
        serde_json::Value::Bool(b) => JsonValue::Bool(*b),
        serde_json::Value::Number(n) => JsonValue::Number(n.to_string()),
        serde_json::Value::String(s) => JsonValue::String(s.clone()),
        serde_json::Value::Array(a) => JsonValue::Array(a.iter().map(from_serde).collect()),
        serde_json::Value::Object(m) => JsonValue::Object(m.iter().map(|(k, v)| (k.clone(), from_serde(v))).collect()),
    }
}

/// One-for-one conversion into serde_json's value tree, used by the JSON wrappers below. A
/// number's text is read back with `serde_json::from_str`: JSON number text (`json_number_text`)
/// gives that number; other text gives whatever it parses as (`true` a boolean, for instance),
/// or null when it does not parse.
#[verifier::external_body]
fn to_serde(value: &JsonValue) -> serde_json::Value {
    match value {
        JsonValue::Null => serde_json::Value::Null,
        JsonValue::Bool(b) => serde_json::Value::Bool(*b),
        JsonValue::Number(n) => serde_json::from_str(n).unwrap_or(serde_json::Value::Null),
        JsonValue::String(s) => serde_json::Value::String(s.clone()),
        JsonValue::Array(a) => serde_json::Value::Array(a.iter().map(to_serde).collect()),
        JsonValue::Object(m) => serde_json::Value::Object(m.iter().map(|(k, v)| (k.clone(), to_serde(v))).collect()),
    }
}

/// `serde_json::from_str::<serde_json::Value>`: the parsed value, or `None` when `text` is not
/// JSON. What serde_json accepts and builds is named, not stated.
#[verifier::external_body]
pub fn parse_json(text: &str) -> (out: Option<JsonValue>)
    ensures
        match out {
            Some(v) => json_parse(text@) == Some(json_view(v)),
            None => json_parse(text@) is None,
        },
{
    serde_json::from_str::<serde_json::Value>(text).ok().map(|v| from_serde(&v))
}

/// `serde_json::to_string` of a value: its compact JSON text. The text is named, not stated.
#[verifier::external_body]
pub fn print_json(value: &JsonValue) -> (out: String)
    ensures
        out@ == json_print(json_view(*value)),
{
    serde_json::to_string(&to_serde(value)).unwrap_or_default()
}

/// `serde_json::to_string_pretty` of a value: its indented JSON text. The text is named, not
/// stated.
#[verifier::external_body]
pub(crate) fn print_json_pretty(value: &JsonValue) -> (out: String)
    ensures
        out@ == json_print_pretty(json_view(*value)),
{
    serde_json::to_string_pretty(&to_serde(value)).unwrap_or_default()
}

/// `c` is an ASCII digit.
pub open spec fn is_digit(c: char) -> bool {
    '0' <= c && c <= '9'
}

/// How many digits stand in `s` from position `i` on, up to the first non-digit.
pub open spec fn digits_run(s: Seq<char>, i: int) -> nat
    decreases s.len() - i,
{
    if 0 <= i < s.len() && is_digit(s[i]) {
        1 + digits_run(s, i + 1)
    } else {
        0
    }
}

/// Where the exponent of a number whose fraction ends at `i` ends, if it is well formed (or
/// `i` itself when there is none).
pub open spec fn exponent_end(s: Seq<char>, i: int) -> Option<int> {
    if i < s.len() && (s[i] == 'e' || s[i] == 'E') {
        let j = if i + 1 < s.len() && (s[i + 1] == '+' || s[i + 1] == '-') { i + 2 } else { i + 1 };
        if digits_run(s, j) >= 1 { Some(j + digits_run(s, j)) } else { None }
    } else {
        Some(i)
    }
}

/// `s` is a JSON number: an optional minus, an integer part without leading zeros, an optional
/// fraction of one or more digits, and an optional exponent of one or more digits.
pub open spec fn json_number_text(s: Seq<char>) -> bool {
    let i0: int = if s.len() > 0 && s[0] == '-' { 1 } else { 0 };
    let d = digits_run(s, i0);
    let i1 = i0 + d;
    let frac_ok = !(i1 < s.len() && s[i1] == '.') || digits_run(s, i1 + 1) >= 1;
    let i2 = if i1 < s.len() && s[i1] == '.' { i1 + 1 + digits_run(s, i1 + 1) } else { i1 };
    &&& d >= 1
    &&& (s[i0] == '0' ==> d == 1)
    &&& frac_ok
    &&& exponent_end(s, i2) == Some(s.len() as int)
}

/// Every number in `v` is JSON number text; serde_json renders and reads back such values
/// unchanged, while other number text does not stand for a JSON number.
pub open spec fn numbers_well_formed(v: JsonValue) -> bool
    decreases v,
{
    match v {
        JsonValue::Number(n) => json_number_text(n@),
        JsonValue::Array(items) => forall|i: int| 0 <= i < items@.len() ==> numbers_well_formed(#[trigger] items@[i]),
        JsonValue::Object(members) => forall|i: int|
            0 <= i < members@.len() ==> numbers_well_formed(#[trigger] members@[i].1),
        _ => true,
    }
}

fn count_digits(s: &Vec<char>, i: usize) -> (n: usize)
    requires
        i <= s@.len(),
    ensures
        n == digits_run(s@, i as int),
        i + n <= s@.len(),
{
    let mut j: usize = i;
    while j < s.len() && '0' <= s[j] && s[j] <= '9'
        invariant
            i <= j <= s@.len(),
            digits_run(s@, i as int) == (j - i) + digits_run(s@, j as int),
        decreases s@.len() - j,
    {
        j = j + 1;
    }
    j - i
}

/// Whether `text` is a JSON number.
pub fn is_json_number(text: &str) -> (b: bool)
    ensures
        b == json_number_text(text@),
{
    let s = chars_of(text);
    let i0: usize = if s.len() > 0 && s[0] == '-' { 1 } else { 0 };
    let d = count_digits(&s, i0);
    if d == 0 {
        return false;
    }
    if s[i0] == '0' && d != 1 {
        return false;
    }
    let i1 = i0 + d;
    let mut i2 = i1;
    if i1 < s.len() && s[i1] == '.' {
        let f = count_digits(&s, i1 + 1);
        if f == 0 {
            return false;
        }
        i2 = i1 + 1 + f;
    }
    if i2 < s.len() && (s[i2] == 'e' || s[i2] == 'E') {
        let j: usize = if i2 + 1 < s.len() && (s[i2 + 1] == '+' || s[i2 + 1] == '-') { i2 + 2 } else { i2 + 1 };
        let e = count_digits(&s, j);
        if e == 0 {
            return false;
        }
        return j + e == s.len();
    }
    i2 == s.len()
}

/// A number value holding `text`, when `text` is a JSON number; number text from outside the
/// library goes through here.
pub fn checked_json_number(text: &str) -> (out: Option<JsonValue>)
    ensures
        out is Some <==> json_number_text(text@),
        out matches Some(v) ==> json_view(v) == JsonView::Number(text@) && numbers_well_formed(v),
{
    if is_json_number(text) {
        Some(JsonValue::Number(text.to_owned()))
    } else {
        None
    }
}

/// The member `key` of an object.
pub open spec fn field(value: JsonValue, key: Seq<char>) -> Option<JsonValue> {
    match value {
        JsonValue::Object(members) => field_in(members@, key),
        _ => None,
    }
}

/// The last member named `key` (serde_json objects hold each key once).
pub open spec fn field_in(members: Seq<(String, JsonValue)>, key: Seq<char>) -> Option<JsonValue>
    decreases members.len(),
{
    if members.len() == 0 {
        None
    } else if members.last().0@ == key {
        Some(members.last().1)
    } else {
        field_in(members.drop_last(), key)
    }
}

/// `Value::get(key)`.
pub fn get<'a>(value: &'a JsonValue, key: &str) -> (out: Option<&'a JsonValue>)
    ensures
        match out {
            Some(v) => field(*value, key@) == Some(*v),
            None => field(*value, key@) is None,
        },
{
    match value {
        JsonValue::Object(members) => {
            let mut i = members.len();
            assert(members@.take(i as int) =~= members@);
            while i > 0
                invariant
                    field(*value, key@) == field_in(members@, key@),
                    i <= members@.len(),
                    field_in(members@, key@) == field_in(members@.take(i as int), key@),
                decreases i,
            {
                proof {
                    assert(members@.take(i as int).drop_last() =~= members@.take(i - 1));
                    assert(members@.take(i as int).last() == members@[i - 1]);
                }
                if str_eq(&members[i - 1].0, key) {
                    return Some(&members[i - 1].1);
                }
                i = i - 1;
            }
            proof {
                assert(members@.take(0) =~= Seq::<(String, JsonValue)>::empty());
            }
            None
        },
        _ => None,
    }
}

/// The text of a JSON string.
pub open spec fn as_str(value: Option<JsonValue>) -> Option<Seq<char>> {
    match value {
        Some(JsonValue::String(s)) => Some(s@),
        _ => None,
    }
}

/// `Value::as_str` of a member.
pub fn get_str<'a>(value: &'a JsonValue, key: &str) -> (out: Option<&'a String>)
    ensures
        match out {
            Some(s) => as_str(field(*value, key@)) == Some(s@),
            None => as_str(field(*value, key@)) is None,
        },
{
    match get(value, key) {
        Some(JsonValue::String(s)) => Some(s),
        _ => None,
    }
}

/// Whether the value is an object.
pub open spec fn is_object(value: JsonValue) -> bool {
    value is Object
}

pub open spec fn digit_value(c: char) -> nat {
    ((c as int) - 48) as nat
}

/// The value of a string of ASCII digits.
pub open spec fn digits_value(s: Seq<char>) -> nat
    decreases s.len(),
{
    if s.len() == 0 {
        0
    } else {
        digits_value(s.drop_last()) * 10 + digit_value(s.last())
    }
}

pub open spec fn all_digits(s: Seq<char>) -> bool {
    forall|i: int| 0 <= i < s.len() ==> '0' <= #[trigger] s[i] <= '9'
}

/// `Value::as_u64`: a number printed as plain digits that fits in 64 bits.
pub open spec fn as_u64(value: Option<JsonValue>) -> Option<u64> {
    match value {
        Some(JsonValue::Number(n)) => if n@.len() > 0 && all_digits(n@) && digits_value(n@) <= u64::MAX {
            Some(digits_value(n@) as u64)
        } else {
            None
        },
        _ => None,
    }
}

/// The value of a string of ASCII digits that fits in 64 bits.
pub fn parse_u64_digits(text: &str) -> (out: Option<u64>)
    ensures
        match out {
            Some(v) => text@.len() > 0 && all_digits(text@) && digits_value(text@) <= u64::MAX
                && v == digits_value(text@),
            None => !(text@.len() > 0 && all_digits(text@) && digits_value(text@) <= u64::MAX),
        },
{
    let chars = chars_of(text);
    if chars.len() == 0 {
        return None;
    }
    let mut value: u64 = 0;
    let mut i: usize = 0;
    while i < chars.len()
        invariant
            chars@ == text@,
            i <= chars@.len(),
            all_digits(chars@.take(i as int)),
            value == digits_value(chars@.take(i as int)),
        decreases chars@.len() - i,
    {
        let c = chars[i];
        proof {
            assert(chars@.take(i + 1).drop_last() =~= chars@.take(i as int));
            assert(chars@.take(i + 1).last() == c);
        }
        if !('0' <= c && c <= '9') {
            proof {
                assert(!all_digits(chars@)) by {
                    assert(chars@[i as int] == c);
                }
            }
            return None;
        }
        let d = (c as u32 - 48) as u64;
        if value > (u64::MAX - d) / 10 {
            proof {
                lemma_digits_monotone(chars@, i + 1);
            }
            return None;
        }
        value = value * 10 + d;
        i = i + 1;
    }
    assert(chars@.take(i as int) =~= chars@);
    Some(value)
}

proof fn lemma_digits_monotone(s: Seq<char>, i: int)
    requires
        0 <= i <= s.len(),
    ensures
        all_digits(s) ==> digits_value(s.take(i)) <= digits_value(s),
    decreases s.len() - i,
{
    if i < s.len() {
        lemma_digits_monotone(s, i + 1);
        assert(s.take(i + 1).drop_last() =~= s.take(i));
    } else {
        assert(s.take(i) =~= s);
    }
}

/// `Value::as_u64` of a member.
pub fn get_u64(value: &JsonValue, key: &str) -> (out: Option<u64>)
    ensures
        out == as_u64(field(*value, key@)),
{
    match get(value, key) {
        Some(JsonValue::Number(n)) => parse_u64_digits(n),
        _ => None,
    }
}

/// The value of a JSON boolean.
pub open spec fn as_bool(value: Option<JsonValue>) -> Option<bool> {
    match value {
        Some(JsonValue::Bool(b)) => Some(b),
        _ => None,
    }
}

/// `Value::as_bool` of a member.
pub fn get_bool(value: &JsonValue, key: &str) -> (out: Option<bool>)
    ensures
        out == as_bool(field(*value, key@)),
{
    match get(value, key) {
        Some(JsonValue::Bool(b)) => Some(*b),
        _ => None,
    }
}

proof fn lemma_items_view_facts(items: Seq<JsonValue>)
    ensures
        items_view(items).len() == items.len(),
        forall|i: int| 0 <= i < items.len() ==> #[trigger] items_view(items)[i] == json_view(items[i]),
    decreases items.len(),
{
    if items.len() > 0 {
        lemma_items_view_facts(items.drop_last());
    }
}

proof fn lemma_members_view_facts(ms: Seq<(String, JsonValue)>)
    ensures
        members_view(ms).len() == ms.len(),
        forall|i: int| 0 <= i < ms.len() ==> #[trigger] members_view(ms)[i] == (ms[i].0@, json_view(ms[i].1)),
    decreases ms.len(),
{
    if ms.len() > 0 {
        lemma_members_view_facts(ms.drop_last());
    }
}

/// A copy of a JSON value.
pub fn clone_json(v: &JsonValue) -> (out: JsonValue)
    ensures
        json_view(out) == json_view(*v),
    decreases v,
{
    match v {
        JsonValue::Null => JsonValue::Null,
        JsonValue::Bool(b) => JsonValue::Bool(*b),
        JsonValue::Number(n) => JsonValue::Number(n.clone()),
        JsonValue::String(s) => JsonValue::String(s.clone()),
        JsonValue::Array(items) => {
            let mut out: Vec<JsonValue> = Vec::new();
            let mut i: usize = 0;
            proof {
                lemma_items_view_facts(items@);
            }
            assert(*v == JsonValue::Array(*items));
            while i < items.len()
                invariant
                    *v == JsonValue::Array(*items),
                    i <= items@.len(),
                    items_view(items@).len() == items@.len(),
                    forall|k: int| 0 <= k < items@.len() ==> #[trigger] items_view(items@)[k] == json_view(items@[k]),
                    items_view(out@) == items_view(items@).take(i as int),
                decreases items@.len() - i,
            {
                proof {
                    assert(decreases_to!(*v => (*v)->Array_0));
                    assert(decreases_to!(*items => items@));
                    assert(decreases_to!(items@ => items@[i as int]));
                }
                let c = clone_json(&items[i]);
                let ghost before = out@;
                out.push(c);
                proof {
                    assert(out@.drop_last() =~= before);
                    assert(items_view(out@) =~= items_view(items@).take(i + 1));
                }
                i = i + 1;
            }
            assert(items_view(items@).take(i as int) =~= items_view(items@));
            JsonValue::Array(out)
        },
        JsonValue::Object(members) => {
            let mut out: Vec<(String, JsonValue)> = Vec::new();
            let mut i: usize = 0;
            proof {
                lemma_members_view_facts(members@);
            }
            assert(*v == JsonValue::Object(*members));
            while i < members.len()
                invariant
                    *v == JsonValue::Object(*members),
                    i <= members@.len(),
                    members_view(members@).len() == members@.len(),
                    forall|k: int| 0 <= k < members@.len() ==> #[trigger] members_view(members@)[k] == (members@[k].0@, json_view(members@[k].1)),
                    members_view(out@) == members_view(members@).take(i as int),
                decreases members@.len() - i,
            {
                proof {
                    assert(decreases_to!(*v => (*v)->Object_0));
                    assert(decreases_to!(*members => members@));
                    assert(decreases_to!(members@ => members@[i as int]));
                    assert(decreases_to!(members@[i as int] => members@[i as int].1));
                }
                let c = clone_json(&members[i].1);
                let k = members[i].0.clone();
                let ghost before = out@;
                out.push((k, c));
                proof {
                    assert(out@.drop_last() =~= before);
                    assert(members_view(out@) =~= members_view(members@).take(i + 1));
                }
                i = i + 1;
            }
            assert(members_view(members@).take(i as int) =~= members_view(members@));
            JsonValue::Object(out)
        },
    }
}

// ---------------------------------------------------------------------------------------------
// Building values
// ---------------------------------------------------------------------------------------------

pub open spec fn member_views(members: Seq<(String, JsonValue)>) -> Seq<(Seq<char>, JsonView)> {
    members.map_values(|m: (String, JsonValue)| (m.0@, json_view(m.1)))
}

pub open spec fn value_views(items: Seq<JsonValue>) -> Seq<JsonView> {
    items.map_values(|v: JsonValue| json_view(v))
}

proof fn lemma_members_views(ms: Seq<(String, JsonValue)>)
    ensures
        members_view(ms) == member_views(ms),
    decreases ms.len(),
{
    if ms.len() > 0 {
        lemma_members_views(ms.drop_last());
    }
    assert(members_view(ms) =~= member_views(ms));
}

proof fn lemma_items_views(items: Seq<JsonValue>)
    ensures
        items_view(items) == value_views(items),
    decreases items.len(),
{
    if items.len() > 0 {
        lemma_items_views(items.drop_last());
    }
    assert(items_view(items) =~= value_views(items));
}

/// An object of these members, in order.
pub fn json_object(members: Vec<(String, JsonValue)>) -> (out: JsonValue)
    ensures
        json_view(out) == JsonView::Object(member_views(members@)),
{
    proof {
        lemma_members_views(members@);
    }
    JsonValue::Object(members)
}

/// An array of these items, in order.
pub fn json_array(items: Vec<JsonValue>) -> (out: JsonValue)
    ensures
        json_view(out) == JsonView::Array(value_views(items@)),
{
    proof {
        lemma_items_views(items@);
    }
    JsonValue::Array(items)
}

pub fn json_str(text: &str) -> (out: JsonValue)
    ensures
        json_view(out) == JsonView::Str(text@),
{
    JsonValue::String(text.to_owned())
}

/// A number given by its JSON text, for text the library itself writes as a number;
/// `checked_json_number` checks text that comes from elsewhere.
pub fn json_number(text: &str) -> (out: JsonValue)
    ensures
        json_view(out) == JsonView::Number(text@),
{
    JsonValue::Number(text.to_owned())
}

pub fn json_member(key: &str, value: JsonValue) -> (out: (String, JsonValue))
    ensures
        out.0@ == key@,
        out.1 == value,
{
    (key.to_owned(), value)
}

} // verus!
