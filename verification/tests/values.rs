use gateway_core::accounting::{
    AccountingError, CalculatedCost, CostEstimate, CostEstimateStatus, CostSource, CurrencyCode, Decimal, Money,
    ProviderReportedCost, Usage,
};
use gateway_core::credential::ids::{
    AccountConcurrencyLimit, AccountWeight, CredentialError, CredentialRevision, ProviderAccountId,
};
use gateway_core::identity::{ProviderKind, PublicModelId};
use gateway_core::text::{is_blank, validate_text, IdentifierError};
use gateway_core::time::{TimeSpan, UnixTime};

#[test]
fn validate_text_accepts_a_prefixed_identifier() {
    assert_eq!(validate_text("acct_1", 128, false, Some("acct_")), Ok(()));
}

#[test]
fn validate_text_reports_each_failure() {
    assert_eq!(validate_text("", 128, false, None), Err(IdentifierError::Empty));
    let long = "a".repeat(129);
    assert_eq!(validate_text(&long, 128, false, None), Err(IdentifierError::TooLong));
    assert_eq!(validate_text("a\u{7}b", 128, false, None), Err(IdentifierError::ControlCharacter));
    assert_eq!(validate_text("a b", 128, false, None), Err(IdentifierError::Whitespace));
    assert_eq!(validate_text("a b", 128, true, None), Ok(()));
    assert_eq!(validate_text("key_1", 128, false, Some("acct_")), Err(IdentifierError::MissingPrefix));
    // The prefix alone is not enough.
    assert_eq!(validate_text("acct_", 128, false, Some("acct_")), Err(IdentifierError::MissingPrefix));
}

#[test]
fn validate_text_reports_a_control_byte_before_whitespace() {
    assert_eq!(validate_text("a\tb c", 128, false, None), Err(IdentifierError::ControlCharacter));
    assert_eq!(validate_text("a b\tc", 128, false, None), Err(IdentifierError::Whitespace));
}

#[test]
fn blank_text_is_whitespace_only() {
    assert!(is_blank(""));
    assert!(is_blank(" \t\n\u{3000}"));
    assert!(!is_blank(" x "));
}

#[test]
fn time_spans_convert_units() {
    assert_eq!(TimeSpan::from_secs(2).nanos, 2_000_000_000);
    assert_eq!(TimeSpan::from_millis(1500).as_secs(), 1);
    assert_eq!(TimeSpan::from_secs(3).as_millis(), 3000);
    assert!(TimeSpan::zero().is_zero());
    let t = UnixTime { nanos: 10 };
    assert_eq!(t.checked_add(TimeSpan { nanos: 5 }), Some(UnixTime { nanos: 15 }));
    assert_eq!(t.checked_sub(TimeSpan { nanos: 11 }), None);
    assert_eq!(t.duration_since(UnixTime { nanos: 4 }), Some(TimeSpan { nanos: 6 }));
    assert_eq!(t.duration_since(UnixTime { nanos: 11 }), None);
    assert_eq!(UnixTime { nanos: u128::MAX }.checked_add(TimeSpan { nanos: 1 }), None);
}

#[test]
fn decimal_parses_and_renders_ten_places() {
    let d = Decimal::parse("1.5").unwrap();
    assert_eq!(d.scaled(), 15_000_000_000);
    assert_eq!(d.canonical(), "1.5000000000");
    assert_eq!(Decimal::parse("0").unwrap().canonical(), "0.0000000000");
    assert_eq!(Decimal::parse("1.").unwrap().scaled(), 10_000_000_000);
    assert_eq!(Decimal::parse("9999999999.9999999999").unwrap().scaled(), 99_999_999_999_999_999_999);
    assert_eq!(Decimal::parse("0.0000000001").unwrap().scaled(), 1);
}

#[test]
fn decimal_rejects_malformed_text() {
    for text in ["", "-1", "+1", ".5", "1.2.3", "12345678901", "1.12345678901", "1a", "1 "] {
        assert_eq!(Decimal::parse(text), Err(AccountingError::InvalidDecimal), "{text}");
    }
}

#[test]
fn decimal_from_str_matches_parse() {
    let d: Decimal = "2.25".parse().unwrap();
    assert_eq!(d.scaled(), 22_500_000_000);
}

#[test]
fn decimal_range_and_addition() {
    assert!(Decimal::from_scaled(99_999_999_999_999_999_999).is_ok());
    assert_eq!(Decimal::from_scaled(100_000_000_000_000_000_000), Err(AccountingError::InvalidDecimal));
    let a = Decimal::from_scaled(5).unwrap();
    assert_eq!(a.checked_add(Decimal::from_scaled(7).unwrap()).unwrap().scaled(), 12);
    let max = Decimal::from_scaled(99_999_999_999_999_999_999).unwrap();
    assert_eq!(max.checked_add(Decimal::from_scaled(1).unwrap()), None);
    assert_eq!(Decimal::zero().scaled(), 0);
    assert_eq!(Decimal::default().scaled(), 0);
}

#[test]
fn currency_codes_are_three_upper_case_letters() {
    assert_eq!(CurrencyCode::new("USD").unwrap().as_str(), "USD");
    assert_eq!(CurrencyCode::usd().as_str(), "USD");
    assert!(CurrencyCode::new("EUR").unwrap().same_as(&CurrencyCode::new("EUR").unwrap()));
    for text in ["usd", "US", "USDX", "U5D", ""] {
        assert_eq!(CurrencyCode::new(text), Err(AccountingError::InvalidCurrency));
    }
}

#[test]
fn money_adds_only_in_one_currency() {
    let usd = CurrencyCode::usd();
    let a = Money::new(Decimal::from_scaled(10).unwrap(), usd);
    let b = Money::new(Decimal::from_scaled(20).unwrap(), usd);
    let sum = a.checked_add(b).unwrap();
    assert_eq!(sum.amount().scaled(), 30);
    let eur = Money::new(Decimal::from_scaled(1).unwrap(), CurrencyCode::new("EUR").unwrap());
    assert_eq!(a.checked_add(eur), None);
}

#[test]
fn usage_merge_keeps_older_facts_and_takes_newer_ones() {
    let mut usage = Usage::new();
    usage.input_tokens = Some(10);
    usage.output_tokens = Some(3);
    let newer = Usage { output_tokens: Some(7), total_tokens: Some(17), ..Usage::default() };
    usage.merge(&newer);
    assert_eq!(usage.input_tokens, Some(10));
    assert_eq!(usage.output_tokens, Some(7));
    assert_eq!(usage.total_tokens, Some(17));
    assert_eq!(usage.cached_tokens, None);
    // Merging the same observation again changes nothing.
    let once = usage.clone();
    usage.merge(&newer);
    assert_eq!(usage, once);
    // Merging an empty observation changes nothing.
    usage.merge(&Usage::new());
    assert_eq!(usage, once);
}

#[test]
fn cost_estimates_carry_status_and_source() {
    let unavailable = CostEstimate::unavailable();
    assert_eq!(unavailable.status(), CostEstimateStatus::Unknown);
    assert_eq!(unavailable.source(), CostSource::Unavailable);
    assert!(unavailable.total().is_none());
    let reported = ProviderReportedCost::from_usd_ticks(25).unwrap().into_estimate();
    assert_eq!(reported.source(), CostSource::ProviderReported);
    assert_eq!(reported.total().unwrap().amount().scaled(), 25);
    let calculated = CalculatedCost::from_usd_ticks(3).unwrap().into_estimate();
    assert_eq!(calculated.source(), CostSource::Calculated);
    assert_eq!(CostSource::Calculated.as_str(), "calculated");
    assert_eq!(CostEstimateStatus::Partial.as_str(), "partial");
}

#[test]
fn account_ids_need_the_prefix() {
    let id = ProviderAccountId::new("acct_a".to_string()).unwrap();
    assert_eq!(id.as_str(), "acct_a");
    assert_eq!(ProviderAccountId::new("a".to_string()), Err(IdentifierError::MissingPrefix));
    assert_eq!(ProviderAccountId::new("acct a".to_string()), Err(IdentifierError::Whitespace));
    let b = ProviderAccountId::new("acct_b".to_string()).unwrap();
    assert!(id.less_than(&b));
    assert!(!b.less_than(&id));
    assert!(id.same_as(&id.duplicate()));
}

#[test]
fn scheduling_knobs_reject_zero() {
    assert_eq!(AccountConcurrencyLimit::new(0), None);
    assert_eq!(AccountConcurrencyLimit::new(3).unwrap().get(), 3);
    assert_eq!(AccountWeight::new(0), None);
    assert_eq!(AccountWeight::new(101), None);
    assert_eq!(AccountWeight::new(100).unwrap().get(), 100);
    assert_eq!(AccountWeight::lowest().get(), 1);
}

#[test]
fn credential_revisions_are_positive_and_advance() {
    assert_eq!(CredentialRevision::new(0), Err(CredentialError::InvalidRevision));
    let r = CredentialRevision::new(4).unwrap();
    assert_eq!(r.next().unwrap().get(), 5);
    let last = CredentialRevision::new(u64::MAX).unwrap();
    assert_eq!(last.next(), Err(CredentialError::RevisionOverflow));
}

#[test]
fn provider_kinds_and_models_keep_their_text() {
    let kind = ProviderKind::new("openai".to_string());
    assert_eq!(kind.as_str(), "openai");
    assert!(kind.same_as(&kind.duplicate()));
    assert_eq!(PublicModelId::new("gpt-5".to_string()).as_str(), "gpt-5");
}

#[test]
fn trimming_and_lowercasing_agree_with_std() {
    let samples = ["", "  ", " Hello ", "\u{3000}Ab\u{2009}", "ÄBC-xyz", "\tX-Request-ID\n", "a\u{85}", "ẞtraße"];
    for s in samples {
        assert_eq!(gateway_core::text::trim_str(s), s.trim(), "{s:?}");
        assert_eq!(gateway_core::text::to_ascii_lowercase(s), s.to_ascii_lowercase(), "{s:?}");
    }
}
