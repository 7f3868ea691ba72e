use ccusage_ui::errors::{lock_error, ApiError, AppError};
use ccusage_ui::text::{
    chars_of, owned_text, parse_u64_text, push_char, push_text, text_eq, text_from_chars,
    text_less, trim_text,
};
use ccusage_ui::totals::{add_optional_cost, TokenTotals};

fn totals(input: u64, total: u64, cost: Option<i64>) -> TokenTotals {
    let mut t = TokenTotals::zero();
    t.input_tokens = input;
    t.total_tokens = total;
    t.cost_micro_usd = cost;
    t
}

#[test]
fn every_error_has_its_code_and_retry_hint() {
    let cases: Vec<(AppError, &str, bool, Option<&str>)> = vec![
        (
            AppError::NotInstalled {
                details: "d".to_string(),
            },
            "notInstalled",
            false,
            Some("d"),
        ),
        (AppError::Timeout, "timeout", true, None),
        (
            AppError::NonZeroExit {
                exit_code: Some(3),
                stderr: "bad".to_string(),
            },
            "nonZeroExit",
            true,
            Some("bad"),
        ),
        (
            AppError::JsonParse {
                details: "d".to_string(),
            },
            "jsonParse",
            false,
            Some("d"),
        ),
        (
            AppError::InvalidRequest {
                details: "d".to_string(),
            },
            "invalidRequest",
            false,
            Some("d"),
        ),
        (
            AppError::Settings {
                details: "d".to_string(),
            },
            "settings",
            false,
            Some("d"),
        ),
        (
            AppError::Cache {
                details: "d".to_string(),
            },
            "cache",
            true,
            Some("d"),
        ),
        (
            AppError::Io {
                details: "d".to_string(),
            },
            "io",
            true,
            Some("d"),
        ),
    ];
    for (error, code, retryable, details) in cases {
        let is_exit = matches!(error, AppError::NonZeroExit { .. });
        let api = ApiError::from(error);
        assert_eq!(api.code, code);
        assert_eq!(api.retryable, retryable);
        assert_eq!(api.details.as_deref(), details);
        assert_eq!(api.exit_code, if is_exit { Some(3) } else { None });
        assert!(!api.message.is_empty());
    }
}

#[test]
fn error_messages() {
    assert_eq!(
        ApiError::from(AppError::Timeout).message,
        "ccusage took too long to respond."
    );
    let lock = lock_error();
    assert_eq!(lock.code, "io");
    assert_eq!(lock.details.as_deref(), Some("internal state lock was poisoned"));
    assert!(lock.retryable);
}

#[test]
fn api_error_builders() {
    let e = ApiError::new("c", "m", true)
        .with_details("d".to_string())
        .with_exit_code(Some(1));
    assert_eq!(e.code, "c");
    assert_eq!(e.message, "m");
    assert_eq!(e.details.as_deref(), Some("d"));
    assert_eq!(e.exit_code, Some(1));
    assert!(e.retryable);
    assert_eq!(e.clone(), e);
}

#[test]
fn adding_totals_in_either_order() {
    let a = totals(1, 10, Some(5));
    let b = totals(2, 20, None);
    let mut ab = a;
    ab.add(&b);
    let mut ba = b;
    ba.add(&a);
    assert_eq!(ab, ba);
    assert_eq!(ab.input_tokens, 3);
    assert_eq!(ab.total_tokens, 30);
    assert_eq!(ab.cost_micro_usd, Some(5));
    let mut z = TokenTotals::zero();
    z.add(&a);
    assert_eq!(z, a);
}

#[test]
fn checked_sum_refuses_overflow() {
    let big = totals(u64::MAX, 0, None);
    assert!(big.checked_sum(&totals(1, 0, None)).is_none());
    assert!(totals(0, 0, Some(i64::MAX))
        .checked_sum(&totals(0, 0, Some(1)))
        .is_none());
    assert_eq!(
        totals(1, 2, Some(-3)).checked_sum(&totals(4, 5, Some(6))),
        Some(totals(5, 7, Some(3)))
    );
}

#[test]
fn optional_costs() {
    assert_eq!(add_optional_cost(Some(1), Some(2)), Some(3));
    assert_eq!(add_optional_cost(Some(1), None), Some(1));
    assert_eq!(add_optional_cost(None, Some(2)), Some(2));
    assert_eq!(add_optional_cost(None, None), None);
}

#[test]
fn text_helpers() {
    assert_eq!(trim_text("  a b \n"), "a b");
    assert_eq!(parse_u64_text("42"), Some(42));
    assert_eq!(parse_u64_text("+7"), Some(7));
    assert_eq!(parse_u64_text("-1"), None);
    assert_eq!(parse_u64_text("18446744073709551616"), None);
    assert_eq!(parse_u64_text(""), None);
    let mut s = owned_text("ab");
    push_char(&mut s, 'c');
    push_text(&mut s, "de");
    assert_eq!(s, "abcde");
    assert_eq!(chars_of("añb"), vec!['a', 'ñ', 'b']);
    assert_eq!(text_from_chars(&vec!['x', 'ÿ']), "xÿ");
    assert!(text_eq("same", "same"));
    assert!(!text_eq("same", "Same"));
    assert!(text_less("2026-06-09", "2026-06-10"));
    assert!(text_less("ab", "abc"));
    assert!(!text_less("abc", "abc"));
    assert!(!text_less("b", "abc"));
}


#[test]
fn defaults_are_empty() {
    let t = TokenTotals::default();
    assert_eq!(t, TokenTotals::zero());
    let r = ccusage_ui::models::UsageResponse::default();
    assert!(r.models.is_empty() && r.daily.is_empty() && r.warning.is_none());
    assert_eq!(ccusage_ui::models::ModelUsage::default().model_name, "");
    assert_eq!(ccusage_ui::models::DailyUsage::default().period, "");
}
