//! Usage by period and by model, added up from the rows of a report.
use vstd::prelude::*;
use crate::grouping::{keyed_tally, has_key, groups_fit, lemma_keyed_tally_push, lemma_absent_key_zero, lemma_groups_fit_push, lemma_groups_fit_prefix, lemma_groups_fit_empty, entries_sum, groups_sum, distinct, law_groups_sum_is_entries_sum};
use crate::errors::AppError;
use crate::json::{JsonValue, JsonMember, json_get};
use crate::models::{DailyUsage, ModelUsage, UsageResponse};
use crate::parser::{row_period, row_agent, rows_of, all_models, report_rows, refs_are, reasoning_reported, reasoning_in, period_keys, agent_keys, value_totals, totals_fit, totals_from_value, string_field, key_seq, model_name_keys, item_model_name, listed_models, named_models, row_models, ModelEntry};
use crate::text::{text_eq, text_less, text_lt, lemma_text_lt_asymmetric, lemma_text_lt_transitive, lemma_text_lt_total, lemma_text_lt_irreflexive};
use crate::totals::{TokenTotals, Tally, tally_fits, tally_add, tally_zero};

verus! {

broadcast use vstd::string::group_string_axioms;

// ---------------------------------------------------------------------------------------
// Usage by period
// ---------------------------------------------------------------------------------------

/// Each row filed under its period, with the totals it stands for.
pub open spec fn daily_entries(rows: Seq<JsonValue>) -> Seq<(Seq<char>, TokenTotals)> {
    rows.map_values(|r: JsonValue| (row_period(r), value_totals(r)))
}

/// `d` holds one entry per period of `es`, each with the sum of that period's totals.
pub open spec fn daily_matches(d: Seq<DailyUsage>, es: Seq<(Seq<char>, TokenTotals)>) -> bool {
    &&& forall|a: int|
        0 <= a < d.len() ==> (#[trigger] d[a]).totals.tally() == keyed_tally(es, d[a].period@)
            && has_key(es, d[a].period@)
    &&& forall|a: int, b: int|
        0 <= a < b < d.len() ==> (#[trigger] d[a]).period@ != (#[trigger] d[b]).period@
    &&& forall|k: Seq<char>|
        #[trigger] has_key(es, k) ==> exists|a: int| 0 <= a < d.len() && (#[trigger] d[a]).period@ == k
}

/// Periods in strictly increasing order.
pub open spec fn daily_sorted(d: Seq<DailyUsage>) -> bool {
    forall|a: int, b: int|
        0 <= a < b < d.len() ==> text_lt((#[trigger] d[a]).period@, (#[trigger] d[b]).period@)
}

/// Adds the totals of one row to the usage of its period.
fn add_daily(
    daily: &mut Vec<DailyUsage>,
    period: String,
    totals: TokenTotals,
    Ghost(es): Ghost<Seq<(Seq<char>, TokenTotals)>>,
) -> (ok: bool)
    requires
        daily_matches(old(daily)@, es),
    ensures
        ok == tally_fits(keyed_tally(es.push((period@, totals)), period@)),
        ok ==> daily_matches(final(daily)@, es.push((period@, totals))),
{
    let ghost e = (period@, totals);
    let ghost full = es.push(e);
    let mut i: usize = 0;
    while i < daily.len()
        invariant
            i <= daily.len(),
            e == (period@, totals),
            full == es.push(e),
            daily_matches(daily@, es),
            forall|a: int| 0 <= a < i ==> (#[trigger] daily@[a]).period@ != period@,
        decreases daily.len() - i,
    {
        if text_eq(daily[i].period.as_str(), period.as_str()) {
            let ghost old_d = daily@;
            proof {
                lemma_keyed_tally_push(es, e, period@);
                assert(daily@[i as int].period@ == period@);
                assert(daily@[i as int].totals.tally() == keyed_tally(es, period@));
            }
            match daily[i].totals.checked_sum(&totals) {
                None => {
                    return false;
                },
                Some(t) => {
                    daily[i].totals = t;
                    proof {
                        assert forall|a: int| 0 <= a < daily@.len() implies (#[trigger] daily@[a]).totals.tally()
                            == keyed_tally(full, daily@[a].period@) && has_key(full, daily@[a].period@) by {
                            lemma_keyed_tally_push(es, e, daily@[a].period@);
                            assert(old_d[a].period@ == daily@[a].period@);
                            assert(has_key(es, old_d[a].period@));
                            let j = choose|j: int| 0 <= j < es.len() && (#[trigger] es[j]).0 == old_d[a].period@;
                            assert(full[j] == es[j]);
                        }
                        assert forall|k: Seq<char>| #[trigger] has_key(full, k) implies exists|a: int|
                            0 <= a < daily@.len() && (#[trigger] daily@[a]).period@ == k by {
                            let j = choose|j: int| 0 <= j < full.len() && (#[trigger] full[j]).0 == k;
                            if j < es.len() {
                                assert(full[j] == es[j]);
                                assert(has_key(es, k));
                                let a = choose|a: int| 0 <= a < old_d.len() && (#[trigger] old_d[a]).period@ == k;
                                assert(daily@[a].period@ == k);
                            } else {
                                assert(daily@[i as int].period@ == k);
                            }
                        }
                    }
                    return true;
                },
            }
        }
        i = i + 1;
    }
    proof {
        if has_key(es, period@) {
            let a = choose|a: int| 0 <= a < daily@.len() && (#[trigger] daily@[a]).period@ == period@;
        }
        lemma_absent_key_zero(es, period@);
        lemma_keyed_tally_push(es, e, period@);
    }
    let ghost old_d = daily@;
    daily.push(DailyUsage { period, totals });
    proof {
        assert forall|a: int| 0 <= a < daily@.len() implies (#[trigger] daily@[a]).totals.tally()
            == keyed_tally(full, daily@[a].period@) && has_key(full, daily@[a].period@) by {
            lemma_keyed_tally_push(es, e, daily@[a].period@);
            if a < old_d.len() {
                assert(old_d[a].period@ == daily@[a].period@);
                assert(has_key(es, old_d[a].period@));
                let j = choose|j: int| 0 <= j < es.len() && (#[trigger] es[j]).0 == old_d[a].period@;
                assert(full[j] == es[j]);
            } else {
                assert(full[es.len() as int] == e);
            }
        }
        assert forall|k: Seq<char>| #[trigger] has_key(full, k) implies exists|a: int|
            0 <= a < daily@.len() && (#[trigger] daily@[a]).period@ == k by {
            let j = choose|j: int| 0 <= j < full.len() && (#[trigger] full[j]).0 == k;
            if j < es.len() {
                assert(full[j] == es[j]);
                assert(has_key(es, k));
                let a = choose|a: int| 0 <= a < old_d.len() && (#[trigger] old_d[a]).period@ == k;
                assert(daily@[a].period@ == k);
            } else {
                assert(daily@[old_d.len() as int].period@ == k);
            }
        }
    }
    true
}


// ---------------------------------------------------------------------------------------
// Usage by model
// ---------------------------------------------------------------------------------------

/// Each model entry filed under its agent and model name, with the totals it stands for.
pub open spec fn keyed_models(ms: Seq<ModelEntry>) -> Seq<((Seq<char>, Seq<char>), TokenTotals)> {
    ms.map_values(|e: ModelEntry| ((e.agent, e.name), value_totals(e.value)))
}

/// Whether every model entry's token kinds add up within a `u64` and every running sum
/// per agent and model can be held: the condition under which adding them up never
/// overflows.
pub open spec fn models_ok(ms: Seq<ModelEntry>) -> bool {
    &&& forall|j: int| 0 <= j < ms.len() ==> totals_fit(#[trigger] ms[j].value)
    &&& groups_fit(keyed_models(ms))
}

pub open spec fn model_key(m: ModelUsage) -> (Seq<char>, Seq<char>) {
    (m.agent@, m.model_name@)
}

/// `m` holds one entry per agent and model of `es`, each with the sum of its totals.
pub open spec fn models_match(m: Seq<ModelUsage>, es: Seq<((Seq<char>, Seq<char>), TokenTotals)>) -> bool {
    &&& forall|a: int|
        0 <= a < m.len() ==> (#[trigger] m[a]).totals.tally() == keyed_tally(es, model_key(m[a]))
            && has_key(es, model_key(m[a]))
    &&& forall|a: int, b: int|
        0 <= a < b < m.len() ==> model_key(#[trigger] m[a]) != model_key(#[trigger] m[b])
    &&& forall|k: (Seq<char>, Seq<char>)|
        #[trigger] has_key(es, k) ==> exists|a: int| 0 <= a < m.len() && model_key(#[trigger] m[a]) == k
}

/// One more model entry adds one more keyed entry.
proof fn lemma_keyed_models_push(ms: Seq<ModelEntry>, e: ModelEntry)
    ensures
        keyed_models(ms.push(e)) == keyed_models(ms).push(((e.agent, e.name), value_totals(e.value))),
{
    assert(keyed_models(ms.push(e)) =~= keyed_models(ms).push(((e.agent, e.name), value_totals(e.value))));
}

/// Model entries that add up without overflow do so in their first entries too.
proof fn lemma_models_ok_prefix(ms: Seq<ModelEntry>, m: int)
    requires
        models_ok(ms),
        0 <= m <= ms.len(),
    ensures
        models_ok(ms.take(m)),
{
    assert(keyed_models(ms.take(m)) =~= keyed_models(ms).take(m));
    lemma_groups_fit_prefix(keyed_models(ms), m);
    assert forall|j: int| 0 <= j < ms.take(m).len() implies totals_fit(#[trigger] ms.take(m)[j].value) by {
        assert(ms.take(m)[j] == ms[j]);
    }
}

/// One more model entry adds up without overflow exactly when its own token kinds fit
/// and its group's new sum fits.
proof fn lemma_models_ok_push(ms: Seq<ModelEntry>, e: ModelEntry)
    requires
        models_ok(ms),
    ensures
        models_ok(ms.push(e)) == (totals_fit(e.value) && tally_fits(
            keyed_tally(keyed_models(ms.push(e)), (e.agent, e.name)),
        )),
{
    lemma_keyed_models_push(ms, e);
    lemma_groups_fit_push(keyed_models(ms), ((e.agent, e.name), value_totals(e.value)));
    assert(ms.push(e)[ms.len() as int] == e);
    if totals_fit(e.value) {
        assert forall|j: int| 0 <= j < ms.push(e).len() implies totals_fit(#[trigger] ms.push(e)[j].value) by {
            if j < ms.len() {
                assert(ms.push(e)[j] == ms[j]);
            }
        }
    }
}

/// Adds `totals` to the usage of `model_name` by `agent`.
fn add_model(
    models: &mut Vec<ModelUsage>,
    agent: &String,
    model_name: String,
    totals: TokenTotals,
    Ghost(es): Ghost<Seq<((Seq<char>, Seq<char>), TokenTotals)>>,
) -> (ok: bool)
    requires
        models_match(old(models)@, es),
    ensures
        ok == tally_fits(keyed_tally(es.push(((agent@, model_name@), totals)), (agent@, model_name@))),
        ok ==> models_match(final(models)@, es.push(((agent@, model_name@), totals))),
{
    let ghost key = (agent@, model_name@);
    let ghost e = (key, totals);
    let ghost full = es.push(e);
    let mut i: usize = 0;
    while i < models.len()
        invariant
            i <= models.len(),
            key == (agent@, model_name@),
            e == (key, totals),
            full == es.push(e),
            models_match(models@, es),
            forall|a: int| 0 <= a < i ==> model_key(#[trigger] models@[a]) != key,
        decreases models.len() - i,
    {
        if text_eq(models[i].agent.as_str(), agent.as_str()) && text_eq(
            models[i].model_name.as_str(),
            model_name.as_str(),
        ) {
            let ghost old_m = models@;
            proof {
                lemma_keyed_tally_push(es, e, key);
                assert(model_key(models@[i as int]) == key);
                assert(models@[i as int].totals.tally() == keyed_tally(es, key));
            }
            match models[i].totals.checked_sum(&totals) {
                None => {
                    return false;
                },
                Some(t) => {
                    models[i].totals = t;
                    proof {
                        assert forall|a: int| 0 <= a < models@.len() implies (#[trigger] models@[a]).totals.tally()
                            == keyed_tally(full, model_key(models@[a])) && has_key(full, model_key(models@[a])) by {
                            lemma_keyed_tally_push(es, e, model_key(models@[a]));
                            assert(model_key(old_m[a]) == model_key(models@[a]));
                            assert(has_key(es, model_key(old_m[a])));
                            let j = choose|j: int| 0 <= j < es.len() && (#[trigger] es[j]).0 == model_key(old_m[a]);
                            assert(full[j] == es[j]);
                        }
                        assert forall|k: (Seq<char>, Seq<char>)| #[trigger] has_key(full, k) implies exists|a: int|
                            0 <= a < models@.len() && model_key(#[trigger] models@[a]) == k by {
                            let j = choose|j: int| 0 <= j < full.len() && (#[trigger] full[j]).0 == k;
                            if j < es.len() {
                                assert(full[j] == es[j]);
                                assert(has_key(es, k));
                                let a = choose|a: int| 0 <= a < old_m.len() && model_key(#[trigger] old_m[a]) == k;
                                assert(model_key(models@[a]) == k);
                            } else {
                                assert(model_key(models@[i as int]) == k);
                            }
                        }
                        assert forall|a: int, b: int| 0 <= a < b < models@.len() implies model_key(#[trigger] models@[a])
                            != model_key(#[trigger] models@[b]) by {
                            assert(model_key(old_m[a]) == model_key(models@[a]));
                            assert(model_key(old_m[b]) == model_key(models@[b]));
                        }
                    }
                    return true;
                },
            }
        }
        i = i + 1;
    }
    proof {
        if has_key(es, key) {
            let a = choose|a: int| 0 <= a < models@.len() && model_key(#[trigger] models@[a]) == key;
        }
        lemma_absent_key_zero(es, key);
        lemma_keyed_tally_push(es, e, key);
    }
    let ghost old_m = models@;
    models.push(ModelUsage { model_name, agent: agent.clone(), totals });
    proof {
        assert(model_key(models@[old_m.len() as int]) == key);
        assert forall|a: int| 0 <= a < models@.len() implies (#[trigger] models@[a]).totals.tally()
            == keyed_tally(full, model_key(models@[a])) && has_key(full, model_key(models@[a])) by {
            lemma_keyed_tally_push(es, e, model_key(models@[a]));
            if a < old_m.len() {
                assert(model_key(old_m[a]) == model_key(models@[a]));
                assert(has_key(es, model_key(old_m[a])));
                let j = choose|j: int| 0 <= j < es.len() && (#[trigger] es[j]).0 == model_key(old_m[a]);
                assert(full[j] == es[j]);
            } else {
                assert(full[es.len() as int] == e);
            }
        }
        assert forall|k: (Seq<char>, Seq<char>)| #[trigger] has_key(full, k) implies exists|a: int|
            0 <= a < models@.len() && model_key(#[trigger] models@[a]) == k by {
            let j = choose|j: int| 0 <= j < full.len() && (#[trigger] full[j]).0 == k;
            if j < es.len() {
                assert(full[j] == es[j]);
                assert(has_key(es, k));
                let a = choose|a: int| 0 <= a < old_m.len() && model_key(#[trigger] old_m[a]) == k;
                assert(model_key(models@[a]) == k);
            } else {
                assert(model_key(models@[old_m.len() as int]) == k);
            }
        }
        assert forall|a: int, b: int| 0 <= a < b < models@.len() implies model_key(#[trigger] models@[a])
            != model_key(#[trigger] models@[b]) by {
            if b < old_m.len() {
                assert(model_key(old_m[a]) == model_key(models@[a]));
                assert(model_key(old_m[b]) == model_key(models@[b]));
            } else {
                assert(model_key(old_m[a]) == model_key(models@[a]));
            }
        }
    }
    true
}


/// The entry that `value`, filed under `agent` and `name`, contributes.
pub open spec fn entry_of(agent: Seq<char>, name: Seq<char>, value: JsonValue) -> ModelEntry {
    ModelEntry { agent, name, value }
}

/// Adds the totals that `value` stands for to the usage of `name` by `agent`.
fn add_model_value(
    models: &mut Vec<ModelUsage>,
    agent: &String,
    name: String,
    value: &JsonValue,
    Ghost(prev): Ghost<Seq<ModelEntry>>,
) -> (ok: bool)
    requires
        models_match(old(models)@, keyed_models(prev)),
        models_ok(prev),
    ensures
        ok == models_ok(prev.push(entry_of(agent@, name@, *value))),
        ok ==> models_match(final(models)@, keyed_models(prev.push(entry_of(agent@, name@, *value)))),
{
    let ghost e = entry_of(agent@, name@, *value);
    proof {
        lemma_models_ok_push(prev, e);
        lemma_keyed_models_push(prev, e);
    }
    match totals_from_value(value) {
        None => false,
        Some(totals) => add_model(models, agent, name, totals, Ghost(keyed_models(prev))),
    }
}

/// Adds the usage of each item of a model list, each naming its model.
fn add_listed_models(
    models: &mut Vec<ModelUsage>,
    agent: &String,
    items: &Vec<JsonValue>,
    Ghost(prev): Ghost<Seq<ModelEntry>>,
) -> (ok: bool)
    requires
        models_match(old(models)@, keyed_models(prev)),
        models_ok(prev),
    ensures
        ok == models_ok(prev + listed_models(agent@, items@)),
        ok ==> models_match(final(models)@, keyed_models(prev + listed_models(agent@, items@))),
{
    let ghost entries = listed_models(agent@, items@);
    let names: [&str; 3] = ["modelName", "model", "name"];
    assert(key_seq(names@) == model_name_keys());
    let mut j: usize = 0;
    while j < items.len()
        invariant
            j <= items.len(),
            entries == listed_models(agent@, items@),
            key_seq(names@) == model_name_keys(),
            models_ok(prev + entries.take(j as int)),
            models_match(models@, keyed_models(prev + entries.take(j as int))),
        decreases items.len() - j,
    {
        let ghost cur = prev + entries.take(j as int);
        let name = match string_field(&items[j], &names) {
            Some(n) => n,
            None => "unknown".to_string(),
        };
        assert(name@ == item_model_name(items@[j as int]));
        assert(entries[j as int] == entry_of(agent@, name@, items@[j as int]));
        assert(cur.push(entries[j as int]) == prev + entries.take(j + 1));
        if !add_model_value(models, agent, name, &items[j], Ghost(cur)) {
            proof {
                assert((prev + entries).take(cur.len() + 1 as int) == cur.push(entries[j as int]));
                if models_ok(prev + entries) {
                    lemma_models_ok_prefix(prev + entries, cur.len() + 1 as int);
                }
            }
            return false;
        }
        j = j + 1;
    }
    assert(entries.take(items.len() as int) == entries);
    true
}

/// Adds the usage of each member of a model object, keyed by model name.
fn add_named_models(
    models: &mut Vec<ModelUsage>,
    agent: &String,
    members: &Vec<JsonMember>,
    Ghost(prev): Ghost<Seq<ModelEntry>>,
) -> (ok: bool)
    requires
        models_match(old(models)@, keyed_models(prev)),
        models_ok(prev),
    ensures
        ok == models_ok(prev + named_models(agent@, members@)),
        ok ==> models_match(final(models)@, keyed_models(prev + named_models(agent@, members@))),
{
    let ghost entries = named_models(agent@, members@);
    let mut j: usize = 0;
    while j < members.len()
        invariant
            j <= members.len(),
            entries == named_models(agent@, members@),
            models_ok(prev + entries.take(j as int)),
            models_match(models@, keyed_models(prev + entries.take(j as int))),
        decreases members.len() - j,
    {
        let ghost cur = prev + entries.take(j as int);
        let name = members[j].key.clone();
        assert(entries[j as int] == entry_of(agent@, name@, members@[j as int].value));
        assert(cur.push(entries[j as int]) == prev + entries.take(j + 1));
        if !add_model_value(models, agent, name, &members[j].value, Ghost(cur)) {
            proof {
                assert((prev + entries).take(cur.len() + 1 as int) == cur.push(entries[j as int]));
                if models_ok(prev + entries) {
                    lemma_models_ok_prefix(prev + entries, cur.len() + 1 as int);
                }
            }
            return false;
        }
        j = j + 1;
    }
    assert(entries.take(members.len() as int) == entries);
    true
}

/// Adds the per-model usage of one row (see `row_models`).
fn add_row_models(
    models: &mut Vec<ModelUsage>,
    row: &JsonValue,
    agent: &String,
    Ghost(prev): Ghost<Seq<ModelEntry>>,
) -> (ok: bool)
    requires
        models_match(old(models)@, keyed_models(prev)),
        models_ok(prev),
        agent@ == row_agent(*row),
    ensures
        ok == models_ok(prev + row_models(*row)),
        ok ==> models_match(final(models)@, keyed_models(prev + row_models(*row))),
{
    match row.get("modelBreakdowns") {
        Some(JsonValue::Array(items)) => {
            return add_listed_models(models, agent, items, Ghost(prev));
        },
        _ => {},
    }
    match row.get("models") {
        Some(JsonValue::Object(members)) => add_named_models(models, agent, members, Ghost(prev)),
        Some(JsonValue::Array(items)) => add_listed_models(models, agent, items, Ghost(prev)),
        _ => {
            assert(prev + row_models(*row) == prev);
            true
        },
    }
}


// ---------------------------------------------------------------------------------------
// Ordering
// ---------------------------------------------------------------------------------------

/// Sorts usage by period, earliest first.
fn sort_daily(daily: Vec<DailyUsage>, Ghost(es): Ghost<Seq<(Seq<char>, TokenTotals)>>) -> (res: Vec<
    DailyUsage,
>)
    requires
        daily_matches(daily@, es),
    ensures
        daily_matches(res@, es),
        daily_sorted(res@),
{
    let ghost orig = daily@;
    let mut rest = daily;
    let mut sorted: Vec<DailyUsage> = Vec::new();
    while rest.len() > 0
        invariant
            rest@ == orig.take(rest@.len() as int),
            rest@.len() <= orig.len(),
            daily_matches(orig, es),
            forall|a: int|
                0 <= a < sorted@.len() ==> (#[trigger] sorted@[a]).totals.tally() == keyed_tally(
                    es,
                    sorted@[a].period@,
                ) && has_key(es, sorted@[a].period@),
            forall|a: int, b: int|
                0 <= a < sorted@.len() && 0 <= b < rest@.len() ==> (#[trigger] sorted@[a]).period@
                    != (#[trigger] rest@[b]).period@,
            forall|k: Seq<char>|
                #[trigger] has_key(es, k) ==> (exists|a: int|
                    0 <= a < sorted@.len() && (#[trigger] sorted@[a]).period@ == k) || (exists|b: int|
                    0 <= b < rest@.len() && (#[trigger] rest@[b]).period@ == k),
            daily_sorted(sorted@),
        decreases rest@.len(),
    {
        let ghost old_rest = rest@;
        let ghost old_sorted = sorted@;
        let x = match rest.pop() {
            Some(x) => x,
            None => {
                return sorted;
            },
        };
        assert(x == old_rest[old_rest.len() - 1]);
        assert(rest@ == old_rest.drop_last());
        assert(rest@ == orig.take(rest@.len() as int));
        let mut p: usize = 0;
        while p < sorted.len() && !text_less(x.period.as_str(), sorted[p].period.as_str())
            invariant
                p <= sorted@.len(),
                sorted@ == old_sorted,
                daily_sorted(old_sorted),
                forall|a: int| 0 <= a < old_sorted.len() ==> (#[trigger] old_sorted[a]).period@ != x.period@,
                forall|a: int| 0 <= a < p ==> text_lt((#[trigger] old_sorted[a]).period@, x.period@),
            decreases sorted@.len() - p,
        {
            proof {
                lemma_text_lt_total(x.period@, old_sorted[p as int].period@);
            }
            p = p + 1;
        }
        proof {
            assert forall|b: int| p <= b < old_sorted.len() implies text_lt(x.period@, (#[trigger] old_sorted[b]).period@) by {
                if b > p {
                    lemma_text_lt_transitive(x.period@, old_sorted[p as int].period@, old_sorted[b].period@);
                }
            }
        }
        sorted.insert(p, x);
        proof {
            let s2 = sorted@;
            assert forall|a: int, b: int| 0 <= a < b < s2.len() implies text_lt((#[trigger] s2[a]).period@, (#[trigger] s2[b]).period@) by {
                if a < p && b < p {
                } else if a < p && b == p {
                } else if a < p {
                    assert(s2[b] == old_sorted[b - 1]);
                } else if a == p {
                    assert(s2[b] == old_sorted[b - 1]);
                } else {
                    assert(s2[a] == old_sorted[a - 1]);
                    assert(s2[b] == old_sorted[b - 1]);
                }
            }
            assert forall|a: int| 0 <= a < s2.len() implies (#[trigger] s2[a]).totals.tally() == keyed_tally(es, s2[a].period@)
                && has_key(es, s2[a].period@) by {
                if a < p {
                } else if a == p {
                    assert(x == orig[rest@.len() as int]);
                } else {
                    assert(s2[a] == old_sorted[a - 1]);
                }
            }
            assert forall|a: int, b: int| 0 <= a < s2.len() && 0 <= b < rest@.len() implies (#[trigger] s2[a]).period@
                != (#[trigger] rest@[b]).period@ by {
                assert(rest@[b] == old_rest[b]);
                if a < p {
                } else if a == p {
                    assert(x == orig[rest@.len() as int]);
                    assert(rest@[b] == orig[b]);
                } else {
                    assert(s2[a] == old_sorted[a - 1]);
                }
            }
            assert forall|k: Seq<char>| #[trigger] has_key(es, k) implies (exists|a: int|
                0 <= a < s2.len() && (#[trigger] s2[a]).period@ == k) || (exists|b: int|
                0 <= b < rest@.len() && (#[trigger] rest@[b]).period@ == k) by {
                if exists|a: int| 0 <= a < old_sorted.len() && (#[trigger] old_sorted[a]).period@ == k {
                    let a = choose|a: int| 0 <= a < old_sorted.len() && (#[trigger] old_sorted[a]).period@ == k;
                    if a < p {
                        assert(s2[a].period@ == k);
                    } else {
                        assert(s2[a + 1] == old_sorted[a]);
                    }
                } else {
                    let b = choose|b: int| 0 <= b < old_rest.len() && (#[trigger] old_rest[b]).period@ == k;
                    if b < rest@.len() {
                        assert(rest@[b] == old_rest[b]);
                    } else {
                        assert(s2[p as int] == x);
                    }
                }
            }
        }
    }
    proof {
        assert forall|a: int, b: int| 0 <= a < b < sorted@.len() implies (#[trigger] sorted@[a]).period@
            != (#[trigger] sorted@[b]).period@ by {
            lemma_text_lt_irreflexive(sorted@[a].period@);
        }
    }
    sorted
}


/// The cost by which models are ranked: the cost in micro-dollars, or -1 when none is known.
pub open spec fn cost_rank(t: TokenTotals) -> int {
    match t.cost_micro_usd {
        Some(c) => c as int,
        None => -1,
    }
}

/// Whether model usage `x` is listed before `y`: higher cost first, then more tokens, then
/// model name in lexicographic order.
pub open spec fn model_before(x: ModelUsage, y: ModelUsage) -> bool {
    ||| cost_rank(x.totals) > cost_rank(y.totals)
    ||| (cost_rank(x.totals) == cost_rank(y.totals) && x.totals.total_tokens > y.totals.total_tokens)
    ||| (cost_rank(x.totals) == cost_rank(y.totals) && x.totals.total_tokens == y.totals.total_tokens
        && text_lt(x.model_name@, y.model_name@))
}

/// No model usage is listed after one that should come after it.
pub open spec fn models_sorted(m: Seq<ModelUsage>) -> bool {
    forall|a: int, b: int| 0 <= a < b < m.len() ==> !model_before(#[trigger] m[b], #[trigger] m[a])
}

/// Of two model usages, at most one is ranked before the other.
proof fn lemma_model_before_asymmetric(x: ModelUsage, y: ModelUsage)
    ensures
        !(model_before(x, y) && model_before(y, x)),
{
    lemma_text_lt_asymmetric(x.model_name@, y.model_name@);
}

/// Ranking model usages is transitive.
proof fn lemma_model_before_transitive(x: ModelUsage, y: ModelUsage, z: ModelUsage)
    requires
        model_before(x, y),
        model_before(y, z),
    ensures
        model_before(x, z),
{
    if text_lt(x.model_name@, y.model_name@) && text_lt(y.model_name@, z.model_name@) {
        lemma_text_lt_transitive(x.model_name@, y.model_name@, z.model_name@);
    }
}

/// Whether `x` is listed before `y` (see `model_before`).
fn listed_before(x: &ModelUsage, y: &ModelUsage) -> (res: bool)
    ensures
        res == model_before(*x, *y),
{
    let rx: i128 = match x.totals.cost_micro_usd {
        Some(c) => c as i128,
        None => -1,
    };
    let ry: i128 = match y.totals.cost_micro_usd {
        Some(c) => c as i128,
        None => -1,
    };
    if rx != ry {
        return rx > ry;
    }
    if x.totals.total_tokens != y.totals.total_tokens {
        return x.totals.total_tokens > y.totals.total_tokens;
    }
    text_less(x.model_name.as_str(), y.model_name.as_str())
}

/// Sorts model usage: highest cost first, then most tokens, then by model name.
fn sort_models(models: Vec<ModelUsage>, Ghost(es): Ghost<Seq<((Seq<char>, Seq<char>), TokenTotals)>>) -> (res: Vec<
    ModelUsage,
>)
    requires
        models_match(models@, es),
    ensures
        models_match(res@, es),
        models_sorted(res@),
{
    let ghost orig = models@;
    let mut rest = models;
    let mut sorted: Vec<ModelUsage> = Vec::new();
    while rest.len() > 0
        invariant
            rest@ == orig.take(rest@.len() as int),
            rest@.len() <= orig.len(),
            models_match(orig, es),
            forall|a: int|
                0 <= a < sorted@.len() ==> (#[trigger] sorted@[a]).totals.tally() == keyed_tally(
                    es,
                    model_key(sorted@[a]),
                ) && has_key(es, model_key(sorted@[a])),
            forall|a: int, b: int|
                0 <= a < b < sorted@.len() ==> model_key(#[trigger] sorted@[a]) != model_key(#[trigger] sorted@[b]),
            forall|a: int, b: int|
                0 <= a < sorted@.len() && 0 <= b < rest@.len() ==> model_key(#[trigger] sorted@[a])
                    != model_key(#[trigger] rest@[b]),
            forall|k: (Seq<char>, Seq<char>)|
                #[trigger] has_key(es, k) ==> (exists|a: int|
                    0 <= a < sorted@.len() && model_key(#[trigger] sorted@[a]) == k) || (exists|b: int|
                    0 <= b < rest@.len() && model_key(#[trigger] rest@[b]) == k),
            models_sorted(sorted@),
        decreases rest@.len(),
    {
        let ghost old_rest = rest@;
        let ghost old_sorted = sorted@;
        let x = match rest.pop() {
            Some(x) => x,
            None => {
                return sorted;
            },
        };
        assert(x == old_rest[old_rest.len() - 1]);
        assert(rest@ == old_rest.drop_last());
        assert(rest@ == orig.take(rest@.len() as int));
        let mut p: usize = 0;
        while p < sorted.len() && !listed_before(&x, &sorted[p])
            invariant
                p <= sorted@.len(),
                sorted@ == old_sorted,
                forall|a: int| 0 <= a < p ==> !model_before(x, #[trigger] old_sorted[a]),
            decreases sorted@.len() - p,
        {
            p = p + 1;
        }
        proof {
            assert forall|b: int| p <= b < old_sorted.len() implies !model_before(#[trigger] old_sorted[b], x) by {
                lemma_model_before_asymmetric(x, old_sorted[p as int]);
                if b > p && model_before(old_sorted[b], x) {
                    lemma_model_before_transitive(old_sorted[b], x, old_sorted[p as int]);
                }
            }
        }
        sorted.insert(p, x);
        proof {
            let s2 = sorted@;
            assert forall|a: int, b: int| 0 <= a < b < s2.len() implies !model_before(#[trigger] s2[b], #[trigger] s2[a]) by {
                if a < p && b < p {
                } else if a < p && b == p {
                } else if a < p {
                    assert(s2[b] == old_sorted[b - 1]);
                } else if a == p {
                    assert(s2[b] == old_sorted[b - 1]);
                } else {
                    assert(s2[a] == old_sorted[a - 1]);
                    assert(s2[b] == old_sorted[b - 1]);
                }
            }
            assert forall|a: int| 0 <= a < s2.len() implies (#[trigger] s2[a]).totals.tally() == keyed_tally(es, model_key(s2[a]))
                && has_key(es, model_key(s2[a])) by {
                if a < p {
                } else if a == p {
                    assert(x == orig[rest@.len() as int]);
                } else {
                    assert(s2[a] == old_sorted[a - 1]);
                }
            }
            assert forall|a: int, b: int| 0 <= a < b < s2.len() implies model_key(#[trigger] s2[a]) != model_key(#[trigger] s2[b]) by {
                if a < p && b < p {
                } else if a < p && b == p {
                    assert(old_rest[old_rest.len() - 1] == x);
                } else if a < p {
                    assert(s2[b] == old_sorted[b - 1]);
                } else if a == p {
                    assert(s2[b] == old_sorted[b - 1]);
                    assert(old_rest[old_rest.len() - 1] == x);
                } else {
                    assert(s2[a] == old_sorted[a - 1]);
                    assert(s2[b] == old_sorted[b - 1]);
                }
            }
            assert forall|a: int, b: int| 0 <= a < s2.len() && 0 <= b < rest@.len() implies model_key(#[trigger] s2[a])
                != model_key(#[trigger] rest@[b]) by {
                assert(rest@[b] == old_rest[b]);
                if a < p {
                } else if a == p {
                    assert(x == orig[rest@.len() as int]);
                    assert(rest@[b] == orig[b]);
                } else {
                    assert(s2[a] == old_sorted[a - 1]);
                }
            }
            assert forall|k: (Seq<char>, Seq<char>)| #[trigger] has_key(es, k) implies (exists|a: int|
                0 <= a < s2.len() && model_key(#[trigger] s2[a]) == k) || (exists|b: int|
                0 <= b < rest@.len() && model_key(#[trigger] rest@[b]) == k) by {
                if exists|a: int| 0 <= a < old_sorted.len() && model_key(#[trigger] old_sorted[a]) == k {
                    let a = choose|a: int| 0 <= a < old_sorted.len() && model_key(#[trigger] old_sorted[a]) == k;
                    if a < p {
                        assert(model_key(s2[a]) == k);
                    } else {
                        assert(s2[a + 1] == old_sorted[a]);
                    }
                } else {
                    let b = choose|b: int| 0 <= b < old_rest.len() && model_key(#[trigger] old_rest[b]) == k;
                    if b < rest@.len() {
                        assert(rest@[b] == old_rest[b]);
                    } else {
                        assert(s2[p as int] == x);
                    }
                }
            }
        }
    }
    sorted
}


// ---------------------------------------------------------------------------------------
// The grand total
// ---------------------------------------------------------------------------------------

/// The sum of the totals of `d`, added in order.
pub open spec fn daily_sum(d: Seq<DailyUsage>) -> Tally
    decreases d.len(),
{
    if d.len() == 0 {
        tally_zero()
    } else {
        tally_add(daily_sum(d.drop_last()), d.last().totals.tally())
    }
}

/// Whether each running sum of `d`, in order, can be held in a `TokenTotals`.
pub open spec fn prefix_sums_fit(d: Seq<DailyUsage>) -> bool {
    forall|n: int| 0 <= n <= d.len() ==> tally_fits(#[trigger] daily_sum(d.take(n)))
}

/// Adds up the totals of `daily` in order; `None` where a running sum overflows.
fn sum_daily(daily: &Vec<DailyUsage>) -> (res: Option<TokenTotals>)
    ensures
        res is Some <==> prefix_sums_fit(daily@),
        res matches Some(t) ==> t.tally() == daily_sum(daily@),
{
    let mut acc = TokenTotals::zero();
    let mut i: usize = 0;
    assert(daily@.take(0) == Seq::<DailyUsage>::empty());
    while i < daily.len()
        invariant
            i <= daily.len(),
            acc.tally() == daily_sum(daily@.take(i as int)),
            forall|n: int| 0 <= n <= i ==> tally_fits(#[trigger] daily_sum(daily@.take(n))),
        decreases daily.len() - i,
    {
        assert(daily@.take(i + 1).drop_last() == daily@.take(i as int));
        assert(daily@.take(i + 1).last() == daily@[i as int]);
        match acc.checked_sum(&daily[i].totals) {
            None => {
                assert(!tally_fits(daily_sum(daily@.take(i + 1))));
                return None;
            },
            Some(t) => {
                acc = t;
            },
        }
        i = i + 1;
    }
    assert(daily@.take(daily.len() as int) == daily@);
    Some(acc)
}

proof fn lemma_sorted_keys_equal(p: Seq<Seq<char>>, q: Seq<Seq<char>>)
    requires
        forall|a: int, b: int| 0 <= a < b < p.len() ==> text_lt(#[trigger] p[a], #[trigger] p[b]),
        forall|a: int, b: int| 0 <= a < b < q.len() ==> text_lt(#[trigger] q[a], #[trigger] q[b]),
        forall|k: Seq<char>| p.contains(k) <==> q.contains(k),
    ensures
        p == q,
    decreases p.len(),
{
    if p.len() == 0 {
        if q.len() > 0 {
            assert(q.contains(q[0]));
        }
        assert(p =~= q);
    } else {
        assert(p.contains(p[0]));
        let b = choose|b: int| 0 <= b < q.len() && q[b] == p[0];
        assert(q.contains(q[0]));
        let a = choose|a: int| 0 <= a < p.len() && p[a] == q[0];
        if a > 0 && b > 0 {
            assert(text_lt(p[0], p[a]));
            assert(text_lt(q[0], q[b]));
            lemma_text_lt_asymmetric(p[0], q[0]);
        }
        assert(p[0] == q[0]);
        let p1 = p.drop_first();
        let q1 = q.drop_first();
        assert forall|k: Seq<char>| p1.contains(k) <==> q1.contains(k) by {
            if p1.contains(k) {
                let i = choose|i: int| 0 <= i < p1.len() && p1[i] == k;
                assert(p[i + 1] == k);
                assert(text_lt(p[0], p[i + 1]));
                lemma_text_lt_irreflexive(k);
                assert(q.contains(k));
                let j = choose|j: int| 0 <= j < q.len() && q[j] == k;
                assert(j != 0);
                assert(q1[j - 1] == k);
            }
            if q1.contains(k) {
                let i = choose|i: int| 0 <= i < q1.len() && q1[i] == k;
                assert(q[i + 1] == k);
                assert(text_lt(q[0], q[i + 1]));
                lemma_text_lt_irreflexive(k);
                assert(p.contains(k));
                let j = choose|j: int| 0 <= j < p.len() && p[j] == k;
                assert(j != 0);
                assert(p1[j - 1] == k);
            }
        }
        assert forall|a: int, b: int| 0 <= a < b < p1.len() implies text_lt(#[trigger] p1[a], #[trigger] p1[b]) by {
            assert(p1[a] == p[a + 1] && p1[b] == p[b + 1]);
        }
        assert forall|a: int, b: int| 0 <= a < b < q1.len() implies text_lt(#[trigger] q1[a], #[trigger] q1[b]) by {
            assert(q1[a] == q[a + 1] && q1[b] == q[b + 1]);
        }
        lemma_sorted_keys_equal(p1, q1);
        assert(p.len() == q.len());
        assert forall|i: int| 0 <= i < p.len() implies p[i] == q[i] by {
            if i > 0 {
                assert(p[i] == p1[i - 1]);
                assert(q[i] == q1[i - 1]);
            }
        }
        assert(p =~= q);
    }
}

pub open spec fn periods(d: Seq<DailyUsage>) -> Seq<Seq<char>> {
    d.map_values(|x: DailyUsage| x.period@)
}

/// There is only one way to list the usage by period in order: two such lists agree.
proof fn lemma_sorted_daily_unique(
    d1: Seq<DailyUsage>,
    d2: Seq<DailyUsage>,
    es: Seq<(Seq<char>, TokenTotals)>,
)
    requires
        daily_matches(d1, es),
        daily_sorted(d1),
        daily_matches(d2, es),
        daily_sorted(d2),
    ensures
        d1.len() == d2.len(),
        forall|i: int| 0 <= i < d1.len() ==> (#[trigger] d1[i]).period@ == d2[i].period@ && d1[i].totals.tally() == d2[i].totals.tally(),
{
    let p = periods(d1);
    let q = periods(d2);
    assert forall|a: int, b: int| 0 <= a < b < p.len() implies text_lt(#[trigger] p[a], #[trigger] p[b]) by {
        assert(text_lt(d1[a].period@, d1[b].period@));
    }
    assert forall|a: int, b: int| 0 <= a < b < q.len() implies text_lt(#[trigger] q[a], #[trigger] q[b]) by {
        assert(text_lt(d2[a].period@, d2[b].period@));
    }
    assert forall|k: Seq<char>| p.contains(k) <==> q.contains(k) by {
        if p.contains(k) {
            let i = choose|i: int| 0 <= i < p.len() && p[i] == k;
            assert(d1[i].period@ == k);
            assert(has_key(es, k));
            let j = choose|j: int| 0 <= j < d2.len() && (#[trigger] d2[j]).period@ == k;
            assert(q[j] == k);
        }
        if q.contains(k) {
            let i = choose|i: int| 0 <= i < q.len() && q[i] == k;
            assert(d2[i].period@ == k);
            assert(has_key(es, k));
            let j = choose|j: int| 0 <= j < d1.len() && (#[trigger] d1[j]).period@ == k;
            assert(p[j] == k);
        }
    }
    lemma_sorted_keys_equal(p, q);
    assert forall|i: int| 0 <= i < d1.len() implies (#[trigger] d1[i]).period@ == d2[i].period@ && d1[i].totals.tally() == d2[i].totals.tally() by {
        assert(p[i] == q[i]);
    }
}

proof fn lemma_daily_sum_agree(d1: Seq<DailyUsage>, d2: Seq<DailyUsage>, n: int)
    requires
        d1.len() == d2.len(),
        0 <= n <= d1.len(),
        forall|i: int| 0 <= i < d1.len() ==> (#[trigger] d1[i]).totals.tally() == d2[i].totals.tally(),
    ensures
        daily_sum(d1.take(n)) == daily_sum(d2.take(n)),
    decreases n,
{
    if n > 0 {
        lemma_daily_sum_agree(d1, d2, n - 1);
        assert(d1.take(n).drop_last() == d1.take(n - 1));
        assert(d2.take(n).drop_last() == d2.take(n - 1));
        assert(d1.take(n).last() == d1[n - 1]);
        assert(d2.take(n).last() == d2[n - 1]);
    }
}


// ---------------------------------------------------------------------------------------
// The report
// ---------------------------------------------------------------------------------------

proof fn lemma_all_models_prefix(rows: Seq<JsonValue>, i: int)
    requires
        0 <= i <= rows.len(),
    ensures
        all_models(rows.take(i)).len() <= all_models(rows).len(),
        all_models(rows).take(all_models(rows.take(i)).len() as int) == all_models(rows.take(i)),
    decreases rows.len(),
{
    if i == rows.len() {
        assert(rows.take(i) == rows);
        assert(all_models(rows).take(all_models(rows).len() as int) == all_models(rows));
    } else {
        lemma_all_models_prefix(rows.drop_last(), i);
        assert(rows.drop_last().take(i) == rows.take(i));
        let m = all_models(rows.drop_last());
        let pre = all_models(rows.take(i));
        assert(all_models(rows) == m + row_models(rows.last()));
        assert((m + row_models(rows.last())).take(pre.len() as int) == m.take(pre.len() as int));
    }
}

/// Whether the report can be added up without overflow: every object's token kinds add up
/// within a `u64`, and every running sum (per period, per agent and model, and of the grand
/// total when the report states none) can be held. Where this fails, adding up overflows.
pub open spec fn report_fits(root: JsonValue) -> bool {
    let rows = rows_of(root);
    &&& forall|j: int| 0 <= j < rows.len() ==> totals_fit(#[trigger] rows[j])
    &&& groups_fit(daily_entries(rows))
    &&& models_ok(all_models(rows))
    &&& match json_get(root, "totals"@) {
        Some(t) => totals_fit(t),
        None => forall|d: Seq<DailyUsage>|
            #![trigger daily_matches(d, daily_entries(rows))]
            daily_matches(d, daily_entries(rows)) && daily_sorted(d) ==> prefix_sums_fit(d),
    }
}

/// `r` is the usage report that `root` holds: usage by period, one entry per period in
/// increasing order; usage by agent and model, one entry per pair, highest cost first, then
/// most tokens, then by model name; the report's own totals, or the sum over the periods
/// when it states none; whether reasoning tokens are counted; and nothing yet about where
/// the report came from.
pub open spec fn report_is(root: JsonValue, r: UsageResponse) -> bool {
    let rows = rows_of(root);
    &&& daily_matches(r.daily@, daily_entries(rows))
    &&& daily_sorted(r.daily@)
    &&& models_match(r.models@, keyed_models(all_models(rows)))
    &&& models_sorted(r.models@)
    &&& match json_get(root, "totals"@) {
        Some(t) => r.totals == value_totals(t),
        None => r.totals.tally() == daily_sum(r.daily@),
    }
    &&& r.reasoning_reported == reasoning_in(root)
    &&& r.generated_at@ == Seq::<char>::empty()
    &&& r.last_refreshed@ == Seq::<char>::empty()
    &&& !r.stale
    &&& !r.from_cache
    &&& r.ccusage_version is None
    &&& r.command@.len() == 0
    &&& r.warning is None
}

/// Adds up a `ccusage` JSON report into usage by period and by model.
///
/// `None` exactly where adding up overflows (see `report_fits`).
pub fn usage_from_json(root: &JsonValue) -> (res: Option<UsageResponse>)
    ensures
        res is Some <==> report_fits(*root),
        res matches Some(r) ==> report_is(*root, r),
{
    let rows = report_rows(root);
    let ghost all = rows_of(*root);
    let reasoning = reasoning_reported(root);
    let period_names: [&str; 4] = ["period", "date", "month", "week"];
    let agent_names: [&str; 3] = ["agent", "source", "type"];
    assert(key_seq(period_names@) == period_keys());
    assert(key_seq(agent_names@) == agent_keys());
    let mut daily: Vec<DailyUsage> = Vec::new();
    let mut models: Vec<ModelUsage> = Vec::new();
    proof {
        assert(daily_entries(all).take(0) == Seq::<(Seq<char>, TokenTotals)>::empty());
        lemma_groups_fit_empty(daily_entries(all).take(0));
        assert(all.take(0) == Seq::<JsonValue>::empty());
        lemma_groups_fit_empty(keyed_models(all_models(all.take(0))));
    }
    let mut i: usize = 0;
    while i < rows.len()
        invariant
            i <= rows.len(),
            all == rows_of(*root),
            refs_are(rows@, all),
            key_seq(period_names@) == period_keys(),
            key_seq(agent_names@) == agent_keys(),
            forall|j: int| 0 <= j < i ==> totals_fit(#[trigger] all[j]),
            groups_fit(daily_entries(all).take(i as int)),
            daily_matches(daily@, daily_entries(all).take(i as int)),
            models_ok(all_models(all.take(i as int))),
            models_match(models@, keyed_models(all_models(all.take(i as int)))),
        decreases rows.len() - i,
    {
        let row = rows[i];
        let ghost es = daily_entries(all).take(i as int);
        let ghost prev_models = all_models(all.take(i as int));
        let period = match string_field(row, &period_names) {
            Some(p) => p,
            None => "unknown".to_string(),
        };
        let agent = match string_field(row, &agent_names) {
            Some(a) => a,
            None => if row.get("models").is_some() {
                "codex".to_string()
            } else {
                "all".to_string()
            },
        };
        assert(period@ == row_period(all[i as int]));
        assert(agent@ == row_agent(all[i as int]));
        let row_totals = match totals_from_value(row) {
            Some(t) => t,
            None => {
                return None;
            },
        };
        proof {
            assert(daily_entries(all).take(i + 1) == es.push((period@, row_totals)));
            lemma_groups_fit_push(es, (period@, row_totals));
        }
        if !add_daily(&mut daily, period, row_totals, Ghost(es)) {
            proof {
                if groups_fit(daily_entries(all)) {
                    lemma_groups_fit_prefix(daily_entries(all), i + 1);
                }
            }
            return None;
        }
        proof {
            assert(all.take(i + 1).drop_last() == all.take(i as int));
            assert(all.take(i + 1).last() == all[i as int]);
            assert(all_models(all.take(i + 1)) == prev_models + row_models(all[i as int]));
        }
        if !add_row_models(&mut models, row, &agent, Ghost(prev_models)) {
            proof {
                lemma_all_models_prefix(all, i + 1);
                if models_ok(all_models(all)) {
                    lemma_models_ok_prefix(all_models(all), all_models(all.take(i + 1)).len() as int);
                }
            }
            return None;
        }
        i = i + 1;
    }
    proof {
        assert(daily_entries(all).take(rows.len() as int) == daily_entries(all));
        assert(all.take(rows.len() as int) == all);
    }
    let daily = sort_daily(daily, Ghost(daily_entries(all)));
    let models = sort_models(models, Ghost(keyed_models(all_models(all))));
    let totals = match root.get("totals") {
        Some(t) => match totals_from_value(t) {
            Some(x) => x,
            None => {
                return None;
            },
        },
        None => match sum_daily(&daily) {
            Some(x) => {
                proof {
                    assert forall|d: Seq<DailyUsage>|
                        #![trigger daily_matches(d, daily_entries(all))]
                        daily_matches(d, daily_entries(all)) && daily_sorted(d) implies prefix_sums_fit(d) by {
                        lemma_sorted_daily_unique(d, daily@, daily_entries(all));
                        assert forall|n: int| 0 <= n <= d.len() implies tally_fits(#[trigger] daily_sum(d.take(n))) by {
                            lemma_daily_sum_agree(d, daily@, n);
                        }
                    }
                }
                x
            },
            None => {
                return None;
            },
        },
    };
    Some(
        UsageResponse {
            totals,
            models,
            daily,
            reasoning_reported: reasoning,
            generated_at: String::new(),
            last_refreshed: String::new(),
            stale: false,
            from_cache: false,
            ccusage_version: None,
            command: Vec::new(),
            warning: None,
        },
    )
}


/// Reads a `ccusage` report from what the JSON reader gave: a reader error becomes a
/// `JsonParse` error carrying the reader's message; a document is added up as
/// `usage_from_json` says. A document must add up without overflow (`usage_from_json`
/// tells).
pub fn parse_usage_json(document: Result<JsonValue, String>) -> (res: Result<UsageResponse, AppError>)
    requires
        document matches Ok(root) ==> report_fits(root),
    ensures
        match document {
            Ok(root) => res matches Ok(r) && report_is(root, r),
            Err(message) => res matches Err(AppError::JsonParse { details }) && details == message,
        },
{
    match document {
        Err(message) => Err(AppError::JsonParse { details: message }),
        Ok(root) => match usage_from_json(&root) {
            Some(r) => Ok(r),
            None => {
                proof {
                    assert(false);
                }
                Err(AppError::JsonParse { details: String::new() })
            },
        },
    }
}

// ---------------------------------------------------------------------------------------
// Nothing lost, nothing invented
// ---------------------------------------------------------------------------------------

/// The sum of the totals of `m`, added in order.
pub open spec fn models_sum(m: Seq<ModelUsage>) -> Tally
    decreases m.len(),
{
    if m.len() == 0 {
        tally_zero()
    } else {
        tally_add(models_sum(m.drop_last()), m.last().totals.tally())
    }
}

pub open spec fn model_keys(m: Seq<ModelUsage>) -> Seq<(Seq<char>, Seq<char>)> {
    m.map_values(|x: ModelUsage| model_key(x))
}

proof fn lemma_daily_sum_groups(d: Seq<DailyUsage>, es: Seq<(Seq<char>, TokenTotals)>)
    requires
        forall|a: int| 0 <= a < d.len() ==> (#[trigger] d[a]).totals.tally() == keyed_tally(es, d[a].period@),
    ensures
        daily_sum(d) == groups_sum(periods(d), es),
    decreases d.len(),
{
    if d.len() > 0 {
        let init = d.drop_last();
        assert forall|a: int| 0 <= a < init.len() implies (#[trigger] init[a]).totals.tally() == keyed_tally(es, init[a].period@) by {
            assert(init[a] == d[a]);
        }
        lemma_daily_sum_groups(init, es);
        assert(periods(d).drop_last() =~= periods(init));
        assert(periods(d).last() == d[d.len() - 1].period@);
    }
}

proof fn lemma_models_sum_groups(m: Seq<ModelUsage>, es: Seq<((Seq<char>, Seq<char>), TokenTotals)>)
    requires
        forall|a: int| 0 <= a < m.len() ==> (#[trigger] m[a]).totals.tally() == keyed_tally(es, model_key(m[a])),
    ensures
        models_sum(m) == groups_sum(model_keys(m), es),
    decreases m.len(),
{
    if m.len() > 0 {
        let init = m.drop_last();
        assert forall|a: int| 0 <= a < init.len() implies (#[trigger] init[a]).totals.tally() == keyed_tally(es, model_key(init[a])) by {
            assert(init[a] == m[a]);
        }
        lemma_models_sum_groups(init, es);
        assert(model_keys(m).drop_last() =~= model_keys(init));
        assert(model_keys(m).last() == model_key(m[m.len() - 1]));
    }
}

/// Grouping rows by period loses and invents no usage: the usage by period adds up to the
/// usage of all rows together.
pub proof fn law_daily_total_is_rows_total(rows: Seq<JsonValue>, d: Seq<DailyUsage>)
    requires
        daily_matches(d, daily_entries(rows)),
    ensures
        daily_sum(d) == entries_sum(daily_entries(rows)),
{
    let es = daily_entries(rows);
    let p = periods(d);
    lemma_daily_sum_groups(d, es);
    assert(distinct(p)) by {
        assert forall|a: int, b: int| 0 <= a < b < p.len() implies p[a] != p[b] by {
            assert(d[a].period@ != d[b].period@);
        }
    }
    assert forall|k: Seq<char>| #[trigger] has_key(es, k) implies p.contains(k) by {
        let a = choose|a: int| 0 <= a < d.len() && (#[trigger] d[a]).period@ == k;
        assert(p[a] == k);
    }
    law_groups_sum_is_entries_sum(p, es);
}

/// Grouping model entries by agent and model loses and invents no usage: the usage by model
/// adds up to the usage of all model entries together.
pub proof fn law_models_total_is_entries_total(ms: Seq<ModelEntry>, m: Seq<ModelUsage>)
    requires
        models_match(m, keyed_models(ms)),
    ensures
        models_sum(m) == entries_sum(keyed_models(ms)),
{
    let es = keyed_models(ms);
    let p = model_keys(m);
    lemma_models_sum_groups(m, es);
    assert(distinct(p)) by {
        assert forall|a: int, b: int| 0 <= a < b < p.len() implies p[a] != p[b] by {
            assert(model_key(m[a]) != model_key(m[b]));
        }
    }
    assert forall|k: (Seq<char>, Seq<char>)| #[trigger] has_key(es, k) implies p.contains(k) by {
        let a = choose|a: int| 0 <= a < m.len() && model_key(#[trigger] m[a]) == k;
        assert(p[a] == k);
    }
    law_groups_sum_is_entries_sum(p, es);
}

/// A report adds up: its usage by period sums to the usage of all its rows, its usage by
/// model sums to the usage of all its model entries, and, when the JSON states no totals,
/// the grand total is the usage of all rows.
pub proof fn law_report_adds_up(root: JsonValue, r: UsageResponse)
    requires
        report_is(root, r),
    ensures
        daily_sum(r.daily@) == entries_sum(daily_entries(rows_of(root))),
        models_sum(r.models@) == entries_sum(keyed_models(all_models(rows_of(root)))),
        json_get(root, "totals"@) is None ==> r.totals.tally() == entries_sum(
            daily_entries(rows_of(root)),
        ),
{
    law_daily_total_is_rows_total(rows_of(root), r.daily@);
    law_models_total_is_entries_total(all_models(rows_of(root)), r.models@);
}

/// There is one way only to list usage by period in increasing order: two reports of the
/// same JSON have the same periods, in the same order, with the same totals.
pub proof fn law_daily_is_determined(root: JsonValue, r1: UsageResponse, r2: UsageResponse)
    requires
        report_is(root, r1),
        report_is(root, r2),
    ensures
        r1.daily@.len() == r2.daily@.len(),
        forall|i: int|
            0 <= i < r1.daily@.len() ==> (#[trigger] r1.daily@[i]).period@ == r2.daily@[i].period@
                && r1.daily@[i].totals.tally() == r2.daily@[i].totals.tally(),
        r1.totals.tally() == r2.totals.tally(),
{
    lemma_sorted_daily_unique(r1.daily@, r2.daily@, daily_entries(rows_of(root)));
    if json_get(root, "totals"@) is None {
        lemma_daily_sum_agree(r1.daily@, r2.daily@, r1.daily@.len() as int);
        assert(r1.daily@.take(r1.daily@.len() as int) == r1.daily@);
        assert(r2.daily@.take(r2.daily@.len() as int) == r2.daily@);
    }
}

/// How a report ranks its models: by cost, highest first (a model with no cost below every
/// model with a cost of zero or more); among equal costs, by total tokens, most first; among
/// equal costs and totals, by model name.
pub proof fn law_models_ranked(root: JsonValue, r: UsageResponse)
    requires
        report_is(root, r),
    ensures
        forall|a: int, b: int|
            0 <= a < b < r.models@.len() ==> {
                let x = (#[trigger] r.models@[a]).totals;
                let y = (#[trigger] r.models@[b]).totals;
                let cx: int = match x.cost_micro_usd {
                    Some(c) => c as int,
                    None => -1,
                };
                let cy: int = match y.cost_micro_usd {
                    Some(c) => c as int,
                    None => -1,
                };
                &&& cx >= cy
                &&& cx == cy ==> x.total_tokens >= y.total_tokens
                &&& cx == cy && x.total_tokens == y.total_tokens ==> !text_lt(
                    r.models@[b].model_name@,
                    r.models@[a].model_name@,
                )
            },
{
    assert forall|a: int, b: int| 0 <= a < b < r.models@.len() implies !model_before(
        #[trigger] r.models@[b],
        #[trigger] r.models@[a],
    ) by {}
}

} // verus!
