use ccusage_ui::errors::AppError;
use ccusage_ui::json::{JsonMember, JsonNumber, JsonText, JsonValue};
use ccusage_ui::report::{parse_usage_json, usage_from_json};

/// Reads JSON text the way the application does: serde_json's reader, with each number and
/// string carried as the readings that the report takes of it.
fn read_json(raw: &str) -> Result<JsonValue, String> {
    serde_json::from_str::<serde_json::Value>(raw)
        .map(|value| to_json(&value))
        .map_err(|err| err.to_string())
}

fn dollars_to_micro(dollars: f64) -> i64 {
    (dollars * 1_000_000.0).round() as i64
}

fn to_json(value: &serde_json::Value) -> JsonValue {
    match value {
        serde_json::Value::Null => JsonValue::Null,
        serde_json::Value::Bool(b) => JsonValue::Bool(*b),
        serde_json::Value::Number(n) => {
            let as_f64 = n.as_f64().or_else(|| n.as_i64().map(|v| v as f64));
            JsonValue::Number(JsonNumber {
                as_u64: n.as_u64(),
                rounded: n.as_f64().map(|v| v.max(0.0).round() as u64).unwrap_or(0),
                millionths: as_f64.map(dollars_to_micro).unwrap_or(0),
            })
        }
        serde_json::Value::String(s) => JsonValue::Text(JsonText {
            text: s.clone(),
            millionths: s.parse::<f64>().ok().map(dollars_to_micro),
        }),
        serde_json::Value::Array(items) => JsonValue::Array(items.iter().map(to_json).collect()),
        serde_json::Value::Object(map) => JsonValue::Object(
            map.iter()
                .map(|(key, value)| JsonMember {
                    key: key.clone(),
                    value: to_json(value),
                })
                .collect(),
        ),
    }
}

fn parse(raw: &str) -> Result<ccusage_ui::models::UsageResponse, AppError> {
    let document = read_json(raw);
    if let Ok(root) = &document {
        assert!(usage_from_json(root).is_some(), "token counts overflow");
    }
    parse_usage_json(document)
}

#[test]
fn parses_global_daily_model_breakdowns() {
    let json = r#"{
      "daily": [{
        "agent": "codex",
        "period": "2026-06-24",
        "inputTokens": 100,
        "outputTokens": 40,
        "cacheCreationTokens": 5,
        "cacheReadTokens": 10,
        "totalTokens": 155,
        "totalCost": 0.0123,
        "modelBreakdowns": [{
          "modelName": "gpt-5.1-codex-max",
          "inputTokens": 100,
          "outputTokens": 40,
          "cacheCreationTokens": 5,
          "cacheReadTokens": 10,
          "cost": 0.0123
        }]
      }],
      "totals": {
        "inputTokens": 100,
        "outputTokens": 40,
        "cacheCreationTokens": 5,
        "cacheReadTokens": 10,
        "totalTokens": 155,
        "totalCost": 0.0123
      }
    }"#;

    let parsed = parse(json).unwrap();
    assert!(!parsed.reasoning_reported);
    assert_eq!(parsed.totals.cost_micro_usd, Some(12_300));
    assert_eq!(parsed.models.len(), 1);
    assert_eq!(parsed.models[0].model_name, "gpt-5.1-codex-max");
    assert_eq!(parsed.models[0].totals.total_tokens, 155);
}

#[test]
fn parses_codex_models_object() {
    let json = r#"{
      "daily": [{
        "date": "2026-06-24",
        "inputTokens": 30,
        "outputTokens": 10,
        "reasoningOutputTokens": 7,
        "totalTokens": 47,
        "costUSD": 0.0042,
        "models": {
          "gpt-5": {
            "inputTokens": 30,
            "outputTokens": 10,
            "reasoningOutputTokens": 7,
            "totalTokens": 47,
            "isFallback": false
          }
        }
      }],
      "totals": {
        "inputTokens": 30,
        "outputTokens": 10,
        "reasoningOutputTokens": 7,
        "totalTokens": 47,
        "costUSD": 0.0042
      }
    }"#;

    let parsed = parse(json).unwrap();
    assert!(parsed.reasoning_reported);
    assert_eq!(parsed.totals.cost_micro_usd, Some(4_200));
    assert_eq!(parsed.models[0].agent, "codex");
    assert_eq!(parsed.models[0].totals.reasoning_output_tokens, 7);
    assert_eq!(parsed.models[0].totals.cost_micro_usd, None);
}

#[test]
fn handles_empty_report() {
    let json = r#"{
      "daily": [],
      "totals": {
        "cacheCreationTokens": 0,
        "cacheReadTokens": 0,
        "inputTokens": 0,
        "outputTokens": 0,
        "totalCost": 0,
        "totalTokens": 0
      }
    }"#;

    let parsed = parse(json).unwrap();
    assert!(parsed.models.is_empty());
    assert!(parsed.daily.is_empty());
    assert_eq!(parsed.totals.total_tokens, 0);
}

#[test]
fn treats_missing_cost_as_none() {
    let json = r#"{
      "daily": [{
        "period": "2026-06-24",
        "inputTokens": 1,
        "outputTokens": 2,
        "modelBreakdowns": [{
          "modelName": "model-a",
          "inputTokens": 1,
          "outputTokens": 2,
          "unexpected": "ignored"
        }]
      }],
      "totals": {
        "inputTokens": 1,
        "outputTokens": 2,
        "totalTokens": 3
      }
    }"#;

    let parsed = parse(json).unwrap();
    assert_eq!(parsed.totals.cost_micro_usd, None);
    assert_eq!(parsed.models[0].totals.cost_micro_usd, None);
}

#[test]
fn rejects_malformed_json() {
    let error = parse("{nope").unwrap_err();
    assert!(matches!(error, AppError::JsonParse { .. }));
}

#[test]
fn reader_message_is_kept_in_the_error() {
    let document = read_json("{nope");
    let message = document.as_ref().err().cloned().unwrap();
    match parse_usage_json(document) {
        Err(AppError::JsonParse { details }) => assert_eq!(details, message),
        _ => panic!("expected a JSON error"),
    }
}

#[test]
fn rows_of_one_period_are_merged_and_periods_sorted() {
    let json = r#"{
      "daily": [
        {"period": "2026-06-25", "inputTokens": 5, "totalCost": 0.5},
        {"period": "2026-06-24", "inputTokens": 1, "outputTokens": 2},
        {"period": "2026-06-25", "inputTokens": 7, "totalCost": 0.25}
      ]
    }"#;

    let parsed = parse(json).unwrap();
    assert_eq!(parsed.daily.len(), 2);
    assert_eq!(parsed.daily[0].period, "2026-06-24");
    assert_eq!(parsed.daily[0].totals.total_tokens, 3);
    assert_eq!(parsed.daily[0].totals.cost_micro_usd, None);
    assert_eq!(parsed.daily[1].period, "2026-06-25");
    assert_eq!(parsed.daily[1].totals.input_tokens, 12);
    assert_eq!(parsed.daily[1].totals.cost_micro_usd, Some(750_000));
}

#[test]
fn grand_total_without_totals_is_the_sum_of_all_rows() {
    let json = r#"{
      "weekly": [
        {"week": "2026-W25", "inputTokens": 10, "outputTokens": 1, "cost": 1},
        {"week": "2026-W26", "inputTokens": 20, "cacheReadTokens": 3},
        {"week": "2026-W25", "inputTokens": 30, "cost": "2.5"}
      ]
    }"#;

    let parsed = parse(json).unwrap();
    assert_eq!(parsed.totals.input_tokens, 60);
    assert_eq!(parsed.totals.output_tokens, 1);
    assert_eq!(parsed.totals.cache_read_tokens, 3);
    assert_eq!(parsed.totals.total_tokens, 64);
    assert_eq!(parsed.totals.cost_micro_usd, Some(3_500_000));
    let by_period: u64 = parsed.daily.iter().map(|d| d.totals.total_tokens).sum();
    assert_eq!(by_period, parsed.totals.total_tokens);
}

#[test]
fn models_are_grouped_by_agent_and_name_and_ranked() {
    let json = r#"{
      "daily": [
        {"period": "a", "agent": "agent-a", "modelBreakdowns": [
          {"modelName": "cheap", "inputTokens": 100, "cost": 0.001},
          {"modelName": "dear", "inputTokens": 1, "cost": 2}
        ]},
        {"period": "b", "agent": "agent-a", "modelBreakdowns": [
          {"modelName": "cheap", "inputTokens": 50, "cost": 0.002},
          {"model": "free", "inputTokens": 9}
        ]},
        {"period": "b", "source": "codex", "modelBreakdowns": [
          {"name": "cheap", "inputTokens": 1, "cost": 0.003}
        ]}
      ]
    }"#;

    let parsed = parse(json).unwrap();
    let names: Vec<(&str, &str)> = parsed
        .models
        .iter()
        .map(|m| (m.agent.as_str(), m.model_name.as_str()))
        .collect();
    assert_eq!(
        names,
        vec![
            ("agent-a", "dear"),
            ("agent-a", "cheap"),
            ("codex", "cheap"),
            ("agent-a", "free")
        ]
    );
    assert_eq!(parsed.models[1].totals.input_tokens, 150);
    assert_eq!(parsed.models[1].totals.cost_micro_usd, Some(3_000));
    assert_eq!(parsed.models[3].totals.cost_micro_usd, None);
    let model_tokens: u64 = parsed.models.iter().map(|m| m.totals.input_tokens).sum();
    assert_eq!(model_tokens, 161);
}

#[test]
fn ties_in_cost_rank_by_tokens_then_name() {
    let json = r#"{
      "daily": [
        {"period": "a", "modelBreakdowns": [
          {"modelName": "b-model", "inputTokens": 5, "cost": 1},
          {"modelName": "a-model", "inputTokens": 5, "cost": 1},
          {"modelName": "c-model", "inputTokens": 9, "cost": 1}
        ]}
      ]
    }"#;

    let parsed = parse(json).unwrap();
    let names: Vec<&str> = parsed.models.iter().map(|m| m.model_name.as_str()).collect();
    assert_eq!(names, vec!["c-model", "a-model", "b-model"]);
    assert!(parsed.models.iter().all(|m| m.agent == "all"));
}

#[test]
fn missing_names_fall_back() {
    let json = r#"{
      "daily": [
        {"inputTokens": 1, "models": [{"inputTokens": 2}]}
      ]
    }"#;

    let parsed = parse(json).unwrap();
    assert_eq!(parsed.daily[0].period, "unknown");
    assert_eq!(parsed.models[0].agent, "codex");
    assert_eq!(parsed.models[0].model_name, "unknown");
    assert!(!parsed.reasoning_reported);
}

#[test]
fn counts_read_from_strings_and_fractions() {
    let json = r#"{
      "daily": [
        {"period": "a", "input_tokens": "12", "output_tokens": 2.6, "cache_read_tokens": -4,
         "total_tokens": 3, "reasoning_output_tokens": "x"}
      ]
    }"#;

    let parsed = parse(json).unwrap();
    let t = parsed.daily[0].totals;
    assert_eq!(t.input_tokens, 12);
    assert_eq!(t.output_tokens, 3);
    assert_eq!(t.cache_read_tokens, 0);
    assert_eq!(t.reasoning_output_tokens, 0);
    assert_eq!(t.total_tokens, 15);
    assert!(parsed.reasoning_reported);
}

#[test]
fn stated_total_is_kept_when_larger() {
    let json = r#"{"daily": [{"period": "a", "inputTokens": 1, "totalTokens": 50}]}"#;
    let parsed = parse(json).unwrap();
    assert_eq!(parsed.daily[0].totals.total_tokens, 50);
    assert_eq!(parsed.totals.total_tokens, 50);
}

#[test]
fn project_rows_are_read_when_no_row_list() {
    let json = r#"{
      "projects": {
        "alpha": [{"period": "a", "inputTokens": 1}],
        "beta": [{"period": "a", "inputTokens": 2}, {"period": "b", "inputTokens": 4}],
        "gamma": {"period": "c", "inputTokens": 100}
      }
    }"#;

    let parsed = parse(json).unwrap();
    assert_eq!(parsed.daily.len(), 2);
    assert_eq!(parsed.daily[0].totals.input_tokens, 3);
    assert_eq!(parsed.daily[1].totals.input_tokens, 4);
    assert_eq!(parsed.totals.input_tokens, 7);
}

#[test]
fn no_rows_and_no_totals_give_zero() {
    let parsed = parse(r#"{"something": 1}"#).unwrap();
    assert!(parsed.daily.is_empty());
    assert!(parsed.models.is_empty());
    assert_eq!(parsed.totals.total_tokens, 0);
    assert_eq!(parsed.totals.cost_micro_usd, None);
    assert!(!parsed.from_cache);
    assert!(!parsed.stale);
    assert!(parsed.command.is_empty());
    assert_eq!(parsed.generated_at, "");
}

#[test]
fn reasoning_in_model_object_is_reported() {
    let json = r#"{"daily": [{"period": "a", "models": {"m": {"reasoning_output_tokens": 0}}}]}"#;
    let parsed = parse(json).unwrap();
    assert!(parsed.reasoning_reported);
}

#[test]
fn overflow_is_refused() {
    let json = r#"{"daily": [
        {"period": "a", "inputTokens": 18446744073709551615},
        {"period": "a", "inputTokens": 1}
    ]}"#;
    let root = read_json(json).unwrap();
    assert!(usage_from_json(&root).is_none());
}

#[test]
fn json_get_finds_members() {
    let root = read_json(r#"{"a": 1, "b": "text"}"#).unwrap();
    assert!(root.get("a").is_some());
    assert!(root.get("c").is_none());
    assert_eq!(root.get("b").and_then(|v| v.as_text()).map(|s| s.as_str()), Some("text"));
    assert!(root.get("a").and_then(|v| v.as_array()).is_none());
}
