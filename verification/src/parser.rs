//! Reading a `ccusage` JSON report into usage by period and by model.
use vstd::prelude::*;
use crate::json::{JsonValue, JsonMember, json_get};
use crate::text::{decimal_u64, parse_u64_text};
use crate::totals::{TokenTotals, Tally, tally_fits, tally_add, tally_zero};

verus! {

broadcast use vstd::string::group_string_axioms;

// ---------------------------------------------------------------------------------------
// Reading fields
// ---------------------------------------------------------------------------------------

pub open spec fn key_seq(names: Seq<&str>) -> Seq<Seq<char>> {
    names.map_values(|n: &str| n@)
}

/// The text of the first of `names` under which `v` holds a string.
pub open spec fn first_text(v: JsonValue, names: Seq<Seq<char>>) -> Option<Seq<char>>
    decreases names.len(),
{
    if names.len() == 0 {
        None
    } else {
        match json_get(v, names[0]) {
            Some(JsonValue::Text(t)) => Some(t.text@),
            _ => first_text(v, names.drop_first()),
        }
    }
}

/// The value under the first of `names` that `v` has, whatever that value is.
pub open spec fn first_present(v: JsonValue, names: Seq<Seq<char>>) -> Option<JsonValue>
    decreases names.len(),
{
    if names.len() == 0 {
        None
    } else {
        match json_get(v, names[0]) {
            Some(f) => Some(f),
            None => first_present(v, names.drop_first()),
        }
    }
}

/// A field read as a token count: a number (exactly when it is a `u64`, else rounded and
/// clamped), or a string of decimal digits.
pub open spec fn count_reading(f: JsonValue) -> Option<u64> {
    match f {
        JsonValue::Number(n) => match n.as_u64 {
            Some(x) => Some(x),
            None => Some(n.rounded),
        },
        JsonValue::Text(t) => decimal_u64(t.text@),
        _ => None,
    }
}

/// A field read as a dollar amount, in micro-dollars.
pub open spec fn cost_reading(f: JsonValue) -> Option<i64> {
    match f {
        JsonValue::Number(n) => Some(n.millionths),
        JsonValue::Text(t) => t.millionths,
        _ => None,
    }
}

/// The count under the first of `names` present in `v`; zero when none is present or
/// that field does not read as a count.
pub open spec fn count_field(v: JsonValue, names: Seq<Seq<char>>) -> u64 {
    match first_present(v, names) {
        Some(f) => match count_reading(f) {
            Some(x) => x,
            None => 0,
        },
        None => 0,
    }
}

/// The cost under the first of `names` present in `v`.
pub open spec fn cost_field(v: JsonValue, names: Seq<Seq<char>>) -> Option<i64> {
    match first_present(v, names) {
        Some(f) => cost_reading(f),
        None => None,
    }
}

pub open spec fn input_keys() -> Seq<Seq<char>> {
    seq!["inputTokens"@, "input_tokens"@]
}

pub open spec fn output_keys() -> Seq<Seq<char>> {
    seq!["outputTokens"@, "output_tokens"@]
}

pub open spec fn cache_creation_keys() -> Seq<Seq<char>> {
    seq!["cacheCreationTokens"@, "cache_creation_tokens"@]
}

pub open spec fn cache_read_keys() -> Seq<Seq<char>> {
    seq!["cacheReadTokens"@, "cache_read_tokens"@]
}

pub open spec fn reasoning_keys() -> Seq<Seq<char>> {
    seq!["reasoningOutputTokens"@, "reasoning_output_tokens"@]
}

pub open spec fn total_keys() -> Seq<Seq<char>> {
    seq!["totalTokens"@, "total_tokens"@]
}

pub open spec fn cost_keys() -> Seq<Seq<char>> {
    seq!["totalCost"@, "costUSD"@, "cost"@, "costUsd"@]
}

pub open spec fn period_keys() -> Seq<Seq<char>> {
    seq!["period"@, "date"@, "month"@, "week"@]
}

pub open spec fn agent_keys() -> Seq<Seq<char>> {
    seq!["agent"@, "source"@, "type"@]
}

pub open spec fn model_name_keys() -> Seq<Seq<char>> {
    seq!["modelName"@, "model"@, "name"@]
}

pub open spec fn row_list_keys() -> Seq<Seq<char>> {
    seq!["daily"@, "weekly"@, "monthly"@, "sessions"@, "blocks"@]
}

/// The sum of the five token kinds of `v`.
pub open spec fn computed_total(v: JsonValue) -> int {
    count_field(v, input_keys()) + count_field(v, output_keys()) + count_field(
        v,
        cache_creation_keys(),
    ) + count_field(v, cache_read_keys()) + count_field(v, reasoning_keys())
}

/// Whether the sum of the five token kinds of `v` fits in a `u64`.
pub open spec fn totals_fit(v: JsonValue) -> bool {
    computed_total(v) <= u64::MAX
}

/// The totals that a report object stands for: each token kind, the larger of the stated
/// total and the sum of the kinds, and the cost.
pub open spec fn value_totals(v: JsonValue) -> TokenTotals {
    let stated = count_field(v, total_keys());
    TokenTotals {
        input_tokens: count_field(v, input_keys()),
        output_tokens: count_field(v, output_keys()),
        cache_creation_tokens: count_field(v, cache_creation_keys()),
        cache_read_tokens: count_field(v, cache_read_keys()),
        reasoning_output_tokens: count_field(v, reasoning_keys()),
        total_tokens: if stated >= computed_total(v) {
            stated
        } else {
            computed_total(v) as u64
        },
        cost_micro_usd: cost_field(v, cost_keys()),
    }
}

/// The text under the first of `names` that holds a string.
pub fn string_field(value: &JsonValue, names: &[&str]) -> (res: Option<String>)
    ensures
        match res {
            Some(s) => first_text(*value, key_seq(names@)) == Some(s@),
            None => first_text(*value, key_seq(names@)) is None,
        },
{
    let ghost keys = key_seq(names@);
    let mut i: usize = 0;
    assert(keys.skip(0) == keys);
    while i < names.len()
        invariant
            i <= names.len(),
            keys == key_seq(names@),
            first_text(*value, keys) == first_text(*value, keys.skip(i as int)),
        decreases names.len() - i,
    {
        assert(keys.skip(i as int)[0] == names@[i as int]@);
        match value.get(names[i]) {
            Some(field) => match field.as_text() {
                Some(t) => {
                    return Some(t.clone());
                },
                None => {},
            },
            None => {},
        }
        assert(keys.skip(i as int).drop_first() == keys.skip(i + 1));
        i = i + 1;
    }
    None
}

/// The value under the first of `names` that `value` has.
pub fn first_field<'a>(value: &'a JsonValue, names: &[&str]) -> (res: Option<&'a JsonValue>)
    ensures
        match res {
            Some(f) => first_present(*value, key_seq(names@)) == Some(*f),
            None => first_present(*value, key_seq(names@)) is None,
        },
{
    let ghost keys = key_seq(names@);
    let mut i: usize = 0;
    assert(keys.skip(0) == keys);
    while i < names.len()
        invariant
            i <= names.len(),
            keys == key_seq(names@),
            first_present(*value, keys) == first_present(*value, keys.skip(i as int)),
        decreases names.len() - i,
    {
        assert(keys.skip(i as int)[0] == names@[i as int]@);
        match value.get(names[i]) {
            Some(field) => {
                return Some(field);
            },
            None => {},
        }
        assert(keys.skip(i as int).drop_first() == keys.skip(i + 1));
        i = i + 1;
    }
    None
}

/// The count under the first of `names` present in `value`, or zero.
pub fn u64_field(value: &JsonValue, names: &[&str]) -> (res: u64)
    ensures
        res == count_field(*value, key_seq(names@)),
{
    match first_field(value, names) {
        Some(field) => {
            let reading = match field {
                JsonValue::Number(n) => match n.as_u64 {
                    Some(x) => Some(x),
                    None => Some(n.rounded),
                },
                JsonValue::Text(t) => parse_u64_text(t.text.as_str()),
                _ => None,
            };
            match reading {
                Some(x) => x,
                None => 0,
            }
        },
        None => 0,
    }
}

/// The cost under the first of `names` present in `value`.
pub fn cost_field_of(value: &JsonValue, names: &[&str]) -> (res: Option<i64>)
    ensures
        res == cost_field(*value, key_seq(names@)),
{
    match first_field(value, names) {
        Some(field) => match field {
            JsonValue::Number(n) => Some(n.millionths),
            JsonValue::Text(t) => t.millionths,
            _ => None,
        },
        None => None,
    }
}

/// The totals that `value` stands for; `None` exactly when the sum of its token kinds
/// does not fit in a `u64`.
pub fn totals_from_value(value: &JsonValue) -> (res: Option<TokenTotals>)
    ensures
        res is Some <==> totals_fit(*value),
        res matches Some(t) ==> t == value_totals(*value),
{
    let a0: [&str; 2] = ["inputTokens", "input_tokens"];
    let a1: [&str; 2] = ["outputTokens", "output_tokens"];
    let a2: [&str; 2] = ["cacheCreationTokens", "cache_creation_tokens"];
    let a3: [&str; 2] = ["cacheReadTokens", "cache_read_tokens"];
    let a4: [&str; 2] = ["reasoningOutputTokens", "reasoning_output_tokens"];
    let a5: [&str; 2] = ["totalTokens", "total_tokens"];
    let a6: [&str; 4] = ["totalCost", "costUSD", "cost", "costUsd"];
    assert(key_seq(a0@) == input_keys());
    assert(key_seq(a1@) == output_keys());
    assert(key_seq(a2@) == cache_creation_keys());
    assert(key_seq(a3@) == cache_read_keys());
    assert(key_seq(a4@) == reasoning_keys());
    assert(key_seq(a5@) == total_keys());
    assert(key_seq(a6@) == cost_keys());
    let input_tokens = u64_field(value, &a0);
    let output_tokens = u64_field(value, &a1);
    let cache_creation_tokens = u64_field(value, &a2);
    let cache_read_tokens = u64_field(value, &a3);
    let reasoning_output_tokens = u64_field(value, &a4);
    if output_tokens > u64::MAX - input_tokens {
        return None;
    }
    let s1 = input_tokens + output_tokens;
    if cache_creation_tokens > u64::MAX - s1 {
        return None;
    }
    let s2 = s1 + cache_creation_tokens;
    if cache_read_tokens > u64::MAX - s2 {
        return None;
    }
    let s3 = s2 + cache_read_tokens;
    if reasoning_output_tokens > u64::MAX - s3 {
        return None;
    }
    let computed = s3 + reasoning_output_tokens;
    let stated = u64_field(value, &a5);
    let total_tokens = if stated >= computed {
        stated
    } else {
        computed
    };
    let cost_micro_usd = cost_field_of(value, &a6);
    Some(
        TokenTotals {
            input_tokens,
            output_tokens,
            cache_creation_tokens,
            cache_read_tokens,
            reasoning_output_tokens,
            total_tokens,
            cost_micro_usd,
        },
    )
}


// ---------------------------------------------------------------------------------------
// Rows of the report
// ---------------------------------------------------------------------------------------

/// The items of the array under the first of `keys` that holds an array.
pub open spec fn first_array(root: JsonValue, keys: Seq<Seq<char>>) -> Option<Seq<JsonValue>>
    decreases keys.len(),
{
    if keys.len() == 0 {
        None
    } else {
        match json_get(root, keys[0]) {
            Some(JsonValue::Array(items)) => Some(items@),
            _ => first_array(root, keys.drop_first()),
        }
    }
}

/// The items of all the members of a `projects` object that are arrays, in member order.
pub open spec fn project_rows(members: Seq<JsonMember>) -> Seq<JsonValue>
    decreases members.len(),
{
    if members.len() == 0 {
        seq![]
    } else {
        project_rows(members.drop_last()) + match members.last().value {
            JsonValue::Array(items) => items@,
            _ => seq![],
        }
    }
}

/// The rows of a report: the first of the `daily`, `weekly`, `monthly`, `sessions` and
/// `blocks` lists that is present as an array; else the rows of every project under
/// `projects`; else none.
pub open spec fn rows_of(root: JsonValue) -> Seq<JsonValue> {
    match first_array(root, row_list_keys()) {
        Some(rows) => rows,
        None => match json_get(root, "projects"@) {
            Some(JsonValue::Object(members)) => project_rows(members@),
            _ => seq![],
        },
    }
}

pub open spec fn refs_are(refs: Seq<&JsonValue>, values: Seq<JsonValue>) -> bool {
    &&& refs.len() == values.len()
    &&& forall|i: int| 0 <= i < refs.len() ==> *(#[trigger] refs[i]) == values[i]
}

fn push_items<'a>(out: &mut Vec<&'a JsonValue>, items: &'a Vec<JsonValue>)
    ensures
        final(out)@.len() == old(out)@.len() + items@.len(),
        forall|i: int| 0 <= i < old(out)@.len() ==> final(out)@[i] == old(out)@[i],
        forall|i: int|
            0 <= i < items@.len() ==> *(#[trigger] final(out)@[old(out)@.len() + i]) == items@[i],
{
    let ghost start = out@;
    let mut j: usize = 0;
    while j < items.len()
        invariant
            j <= items.len(),
            out@.len() == start.len() + j,
            forall|i: int| 0 <= i < start.len() ==> out@[i] == start[i],
            forall|i: int| 0 <= i < j ==> *(#[trigger] out@[start.len() + i]) == items@[i],
        decreases items.len() - j,
    {
        out.push(&items[j]);
        j = j + 1;
    }
}

/// The rows of a report (see `rows_of`).
pub fn report_rows(root: &JsonValue) -> (res: Vec<&JsonValue>)
    ensures
        refs_are(res@, rows_of(*root)),
{
    let keys: [&str; 5] = ["daily", "weekly", "monthly", "sessions", "blocks"];
    let ghost ks = key_seq(keys@);
    assert(ks == row_list_keys());
    assert(ks.skip(0) == ks);
    let mut k: usize = 0;
    while k < 5
        invariant
            k <= 5,
            ks == key_seq(keys@),
            ks == row_list_keys(),
            keys@.len() == 5,
            first_array(*root, ks) == first_array(*root, ks.skip(k as int)),
        decreases 5 - k,
    {
        assert(ks.skip(k as int)[0] == keys@[k as int]@);
        match root.get(keys[k]) {
            Some(field) => match field.as_array() {
                Some(items) => {
                    let mut out: Vec<&JsonValue> = Vec::new();
                    push_items(&mut out, items);
                    assert forall|i: int| 0 <= i < out@.len() implies *(#[trigger] out@[i])
                        == items@[i] by {
                        assert(out@[0 + i] == out@[i]);
                    }
                    return out;
                },
                None => {},
            },
            None => {},
        }
        assert(ks.skip(k as int).drop_first() == ks.skip(k + 1));
        k = k + 1;
    }
    let mut out: Vec<&JsonValue> = Vec::new();
    match root.get("projects") {
        Some(JsonValue::Object(members)) => {
            let mut m: usize = 0;
            while m < members.len()
                invariant
                    m <= members.len(),
                    refs_are(out@, project_rows(members@.take(m as int))),
                decreases members.len() - m,
            {
                let ghost before = out@;
                let ghost added: Seq<JsonValue> = match members@[m as int].value {
                    JsonValue::Array(items) => items@,
                    _ => seq![],
                };
                assert(members@.take(m + 1).drop_last() == members@.take(m as int));
                assert(members@.take(m + 1).last() == members@[m as int]);
                assert(project_rows(members@.take(m + 1)) == project_rows(members@.take(m as int))
                    + added);
                match &members[m].value {
                    JsonValue::Array(items) => {
                        push_items(&mut out, items);
                    },
                    _ => {},
                }
                assert forall|i: int| 0 <= i < out@.len() implies *(#[trigger] out@[i]) == (
                project_rows(members@.take(m as int)) + added)[i] by {
                    if i >= before.len() {
                        assert(out@[before.len() + (i - before.len())] == out@[i]);
                    }
                }
                assert(refs_are(out@, project_rows(members@.take(m + 1))));
                m = m + 1;
            }
            assert(members@.take(members.len() as int) == members@);
        },
        _ => {},
    }
    out
}

// ---------------------------------------------------------------------------------------
// What a row contributes
// ---------------------------------------------------------------------------------------

/// The period of a row; `unknown` when it names none.
pub open spec fn row_period(row: JsonValue) -> Seq<char> {
    match first_text(row, period_keys()) {
        Some(p) => p,
        None => "unknown"@,
    }
}

/// The agent of a row; when it names none, `codex` for a row with a `models` field and
/// `all` otherwise.
pub open spec fn row_agent(row: JsonValue) -> Seq<char> {
    match first_text(row, agent_keys()) {
        Some(a) => a,
        None => if json_get(row, "models"@) is Some {
            "codex"@
        } else {
            "all"@
        },
    }
}

/// The usage of one model as one row reports it.
pub ghost struct ModelEntry {
    pub agent: Seq<char>,
    pub name: Seq<char>,
    pub value: JsonValue,
}

/// The model name of an item of a model list; `unknown` when it names none.
pub open spec fn item_model_name(v: JsonValue) -> Seq<char> {
    match first_text(v, model_name_keys()) {
        Some(n) => n,
        None => "unknown"@,
    }
}

pub open spec fn listed_models(agent: Seq<char>, items: Seq<JsonValue>) -> Seq<ModelEntry> {
    items.map_values(|v: JsonValue| ModelEntry { agent, name: item_model_name(v), value: v })
}

pub open spec fn named_models(agent: Seq<char>, members: Seq<JsonMember>) -> Seq<ModelEntry> {
    members.map_values(|m: JsonMember| ModelEntry { agent, name: m.key@, value: m.value })
}

/// The per-model usage of a row: its `modelBreakdowns` array if it has one; else its
/// `models` field, an object keyed by model name or an array of items naming their model.
pub open spec fn row_models(row: JsonValue) -> Seq<ModelEntry> {
    let agent = row_agent(row);
    match json_get(row, "modelBreakdowns"@) {
        Some(JsonValue::Array(items)) => listed_models(agent, items@),
        _ => match json_get(row, "models"@) {
            Some(JsonValue::Object(members)) => named_models(agent, members@),
            Some(JsonValue::Array(items)) => listed_models(agent, items@),
            _ => seq![],
        },
    }
}

/// The per-model usage of all rows, row after row.
pub open spec fn all_models(rows: Seq<JsonValue>) -> Seq<ModelEntry>
    decreases rows.len(),
{
    if rows.len() == 0 {
        seq![]
    } else {
        all_models(rows.drop_last()) + row_models(rows.last())
    }
}

// ---------------------------------------------------------------------------------------
// Whether reasoning tokens are reported
// ---------------------------------------------------------------------------------------

pub open spec fn has_reasoning_field(v: JsonValue) -> bool {
    json_get(v, "reasoningOutputTokens"@) is Some || json_get(v, "reasoning_output_tokens"@) is Some
}

pub open spec fn any_reasoning(items: Seq<JsonValue>) -> bool {
    exists|i: int| 0 <= i < items.len() && has_reasoning_field(#[trigger] items[i])
}

pub open spec fn any_member_reasoning(members: Seq<JsonMember>) -> bool {
    exists|i: int| 0 <= i < members.len() && has_reasoning_field(#[trigger] members[i].value)
}

pub open spec fn row_reports_reasoning(row: JsonValue) -> bool {
    ||| has_reasoning_field(row)
    ||| match json_get(row, "modelBreakdowns"@) {
        Some(JsonValue::Array(items)) => any_reasoning(items@),
        _ => false,
    }
    ||| match json_get(row, "models"@) {
        Some(JsonValue::Object(members)) => any_member_reasoning(members@),
        Some(JsonValue::Array(items)) => any_reasoning(items@),
        _ => false,
    }
}

/// Whether the report counts reasoning tokens anywhere: in its totals, in a row, or in a
/// row's per-model usage.
pub open spec fn reasoning_in(root: JsonValue) -> bool {
    ||| match json_get(root, "totals"@) {
        Some(t) => has_reasoning_field(t),
        None => false,
    }
    ||| exists|i: int| 0 <= i < rows_of(root).len() && row_reports_reasoning(#[trigger] rows_of(root)[i])
}

pub fn has_reasoning(value: &JsonValue) -> (res: bool)
    ensures
        res == has_reasoning_field(*value),
{
    value.get("reasoningOutputTokens").is_some() || value.get("reasoning_output_tokens").is_some()
}

fn items_have_reasoning(items: &Vec<JsonValue>) -> (res: bool)
    ensures
        res == any_reasoning(items@),
{
    let mut i: usize = 0;
    while i < items.len()
        invariant
            i <= items.len(),
            forall|j: int| 0 <= j < i ==> !has_reasoning_field(#[trigger] items@[j]),
        decreases items.len() - i,
    {
        if has_reasoning(&items[i]) {
            return true;
        }
        i = i + 1;
    }
    false
}

fn members_have_reasoning(members: &Vec<JsonMember>) -> (res: bool)
    ensures
        res == any_member_reasoning(members@),
{
    let mut i: usize = 0;
    while i < members.len()
        invariant
            i <= members.len(),
            forall|j: int| 0 <= j < i ==> !has_reasoning_field(#[trigger] members@[j].value),
        decreases members.len() - i,
    {
        if has_reasoning(&members[i].value) {
            return true;
        }
        i = i + 1;
    }
    false
}

fn row_has_reasoning(row: &JsonValue) -> (res: bool)
    ensures
        res == row_reports_reasoning(*row),
{
    if has_reasoning(row) {
        return true;
    }
    let in_breakdowns = match row.get("modelBreakdowns") {
        Some(JsonValue::Array(items)) => items_have_reasoning(items),
        _ => false,
    };
    if in_breakdowns {
        return true;
    }
    match row.get("models") {
        Some(JsonValue::Object(members)) => members_have_reasoning(members),
        Some(JsonValue::Array(items)) => items_have_reasoning(items),
        _ => false,
    }
}

/// Whether the report counts reasoning tokens anywhere (see `reasoning_in`).
pub fn reasoning_reported(root: &JsonValue) -> (res: bool)
    ensures
        res == reasoning_in(*root),
{
    match root.get("totals") {
        Some(t) => {
            if has_reasoning(t) {
                return true;
            }
        },
        None => {},
    }
    let rows = report_rows(root);
    let ghost all = rows_of(*root);
    let mut i: usize = 0;
    while i < rows.len()
        invariant
            i <= rows.len(),
            all == rows_of(*root),
            refs_are(rows@, all),
            forall|j: int| 0 <= j < i ==> !row_reports_reasoning(#[trigger] all[j]),
        decreases rows.len() - i,
    {
        if row_has_reasoning(rows[i]) {
            return true;
        }
        i = i + 1;
    }
    false
}

} // verus!
