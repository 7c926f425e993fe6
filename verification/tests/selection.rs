use gateway_core::credential::account::ProviderAccount;
use gateway_core::credential::quotient::rounded_quotient_key;
use gateway_core::credential::ids::{AccountConcurrencyLimit, AccountWeight, CredentialRevision, ProviderAccountId};
use gateway_core::credential::selection::{
    AccountCandidate, AccountEligibilityPolicy, AccountRuntimeSignals, AccountSchedulingBlocker, AccountScope,
    AccountSelectionContext, AccountSelectionPolicy, AccountSelector, PreferredAccountSelection, RotationStrategy,
};
use gateway_core::credential::state::{CredentialState, QuotaState};
use gateway_core::diagnostics::selection::{traced_candidate_positions, MAX_TRACED_CANDIDATES};
use gateway_core::identity::ProviderKind;
use gateway_core::engine::policy::{AccountPolicyError, AccountPolicyStart, AccountScheduleDecision, RequestPolicyFault};
use gateway_core::time::{TimeSpan, UnixTime};

fn at(secs: u64) -> UnixTime {
    UnixTime { nanos: secs as u128 * 1_000_000_000 }
}

fn id(text: &str) -> ProviderAccountId {
    ProviderAccountId::new(text.to_string()).unwrap()
}

fn signals() -> AccountRuntimeSignals {
    AccountRuntimeSignals {
        in_flight: 0,
        last_started_at: None,
        quota_reset_at: None,
        quota_remaining_rank: None,
        rate_limited_until: None,
        failure_rate_basis_points: None,
        first_output_latency_ms: None,
    }
}

fn candidate(name: &str, weight: u16) -> AccountCandidate {
    let account = ProviderAccount::new(
        id(name),
        ProviderKind::new("openai".to_string()),
        name.to_string(),
        Some("user".to_string()),
        "oauth".to_string(),
        CredentialRevision::new(1).unwrap(),
        None,
    )
    .with_account_facts(true, CredentialState::Ready, QuotaState::unknown(), None, None)
    .with_scheduling(None, AccountWeight::new(weight).unwrap());
    AccountCandidate { account, signals: signals() }
}

fn context(strategy: RotationStrategy) -> AccountSelectionContext {
    AccountSelectionContext {
        policy: AccountSelectionPolicy::new(strategy, 2, TimeSpan::zero()),
        now: at(1000),
        excluded_accounts: Vec::new(),
        preferred_account: None,
        preferred_account_overrides_weight: false,
        round_robin_cursor: 0,
        eligibility: AccountEligibilityPolicy::Enforce,
        account_scope: None,
    }
}

fn chosen(cs: &[AccountCandidate], ctx: &AccountSelectionContext, keys: &[u64]) -> Option<String> {
    AccountSelector.select(cs, ctx, keys).map(|s| s.candidate().account.id().as_str().to_string())
}

#[test]
fn rotation_strategy_names_round_trip() {
    for s in [
        RotationStrategy::Smart,
        RotationStrategy::QuotaResetPriority,
        RotationStrategy::RoundRobin,
        RotationStrategy::Sticky,
    ] {
        assert_eq!(RotationStrategy::parse(s.as_str()), Some(s));
    }
    assert_eq!(RotationStrategy::QuotaResetPriority.as_str(), "quota_reset_priority");
    assert_eq!(RotationStrategy::parse("random"), None);
}

#[test]
fn round_robin_walks_the_pool_in_id_order() {
    let cs = vec![candidate("acct_c", 1), candidate("acct_a", 1), candidate("acct_b", 1)];
    let mut ctx = context(RotationStrategy::RoundRobin);
    ctx.round_robin_cursor = 4;
    assert_eq!(chosen(&cs, &ctx, &[]), Some("acct_b".to_string()));
    ctx.round_robin_cursor = 3;
    assert_eq!(chosen(&cs, &ctx, &[]), Some("acct_a".to_string()));
}

#[test]
fn only_the_highest_weight_tier_is_scheduled() {
    let cs = vec![candidate("acct_a", 1), candidate("acct_b", 5), candidate("acct_c", 5)];
    let mut ctx = context(RotationStrategy::RoundRobin);
    for cursor in 0..4 {
        ctx.round_robin_cursor = cursor;
        assert_ne!(chosen(&cs, &ctx, &[]), Some("acct_a".to_string()));
    }
}

#[test]
fn quota_reset_priority_prefers_the_earliest_reset() {
    let mut a = candidate("acct_a", 1);
    a.signals.quota_reset_at = None;
    let mut b = candidate("acct_b", 1);
    b.signals.quota_reset_at = Some(at(500));
    let mut c = candidate("acct_c", 1);
    c.signals.quota_reset_at = Some(at(300));
    let cs = vec![a, b, c];
    assert_eq!(chosen(&cs, &context(RotationStrategy::QuotaResetPriority), &[]), Some("acct_c".to_string()));
}

#[test]
fn quota_reset_priority_breaks_ties_by_utilisation_then_start() {
    let mut a = candidate("acct_a", 1);
    a.signals.in_flight = 1;
    let mut b = candidate("acct_b", 1);
    b.signals.last_started_at = Some(at(10));
    let mut c = candidate("acct_c", 1);
    c.signals.last_started_at = Some(at(5));
    let cs = vec![a, b, c];
    assert_eq!(chosen(&cs, &context(RotationStrategy::QuotaResetPriority), &[]), Some("acct_c".to_string()));
}

#[test]
fn sticky_keeps_the_most_recently_started() {
    let mut a = candidate("acct_a", 1);
    a.signals.last_started_at = Some(at(10));
    let mut b = candidate("acct_b", 1);
    b.signals.last_started_at = Some(at(20));
    let c = candidate("acct_c", 1);
    let cs = vec![a, b, c];
    assert_eq!(chosen(&cs, &context(RotationStrategy::Sticky), &[]), Some("acct_b".to_string()));
}

#[test]
fn smart_takes_the_best_key_and_rotates_among_ties() {
    let cs = vec![candidate("acct_c", 1), candidate("acct_a", 1), candidate("acct_b", 1)];
    let mut ctx = context(RotationStrategy::Smart);
    assert_eq!(chosen(&cs, &ctx, &[1, 9, 3]), Some("acct_a".to_string()));
    ctx.round_robin_cursor = 1;
    assert_eq!(chosen(&cs, &ctx, &[9, 9, 3]), Some("acct_c".to_string()));
    ctx.round_robin_cursor = 2;
    assert_eq!(chosen(&cs, &ctx, &[9, 9, 3]), Some("acct_a".to_string()));
}

#[test]
fn blockers_keep_candidates_out() {
    let selector = AccountSelector;
    let mut ctx = context(RotationStrategy::RoundRobin);
    let busy = {
        let mut c = candidate("acct_a", 1);
        c.signals.in_flight = 2;
        c
    };
    assert_eq!(selector.scheduling_blocker(&busy, &ctx), Some(AccountSchedulingBlocker::ConcurrencyLimit));
    let limited = {
        let mut c = candidate("acct_a", 1);
        c.account = c.account.with_scheduling(AccountConcurrencyLimit::new(5), AccountWeight::lowest());
        c.signals.in_flight = 2;
        c
    };
    assert_eq!(selector.scheduling_blocker(&limited, &ctx), None);
    ctx.policy = AccountSelectionPolicy::new(RotationStrategy::RoundRobin, 2, TimeSpan::from_secs(10));
    let recent = {
        let mut c = candidate("acct_a", 1);
        c.signals.last_started_at = Some(at(995));
        c
    };
    assert_eq!(selector.scheduling_blocker(&recent, &ctx), Some(AccountSchedulingBlocker::RequestInterval));
    let later = {
        let mut c = candidate("acct_a", 1);
        c.signals.last_started_at = Some(at(990));
        c
    };
    assert_eq!(selector.scheduling_blocker(&later, &ctx), None);
    ctx.excluded_accounts = vec![id("acct_a")];
    assert_eq!(selector.scheduling_blocker(&later, &ctx), Some(AccountSchedulingBlocker::Excluded));
    ctx.account_scope = Some(AccountScope { allowed: vec![id("acct_b")] });
    assert_eq!(selector.scheduling_blocker(&later, &ctx), Some(AccountSchedulingBlocker::OutsideClientScope));
    let mut disabled = candidate("acct_b", 1);
    disabled.account = disabled.account.with_account_facts(false, CredentialState::Ready, QuotaState::unknown(), None, None);
    assert_eq!(selector.scheduling_blocker(&disabled, &ctx), Some(AccountSchedulingBlocker::LocalAvailability));
    ctx.eligibility = AccountEligibilityPolicy::BypassForDiagnostic;
    assert_eq!(selector.scheduling_blocker(&disabled, &ctx), None);
}

#[test]
fn nothing_eligible_selects_nothing() {
    let mut a = candidate("acct_a", 1);
    a.signals.in_flight = 2;
    assert!(AccountSelector.select(&[a], &context(RotationStrategy::RoundRobin), &[]).is_none());
    assert!(AccountSelector.select(&[], &context(RotationStrategy::Sticky), &[]).is_none());
}

#[test]
fn an_eligible_preferred_account_wins() {
    let cs = vec![candidate("acct_a", 1), candidate("acct_b", 1)];
    let mut ctx = context(RotationStrategy::RoundRobin);
    ctx.preferred_account = Some(id("acct_b"));
    let s = AccountSelector.select(&cs, &ctx, &[]).unwrap();
    assert_eq!(s.candidate().account.id().as_str(), "acct_b");
    assert_eq!(s.preferred(), PreferredAccountSelection::Hit);
}

#[test]
fn a_lower_weight_preferred_account_is_blocked_unless_it_overrides() {
    let cs = vec![candidate("acct_a", 1), candidate("acct_b", 3)];
    let mut ctx = context(RotationStrategy::RoundRobin);
    ctx.preferred_account = Some(id("acct_a"));
    let s = AccountSelector.select(&cs, &ctx, &[]).unwrap();
    assert_eq!(s.candidate().account.id().as_str(), "acct_b");
    assert_eq!(s.preferred(), PreferredAccountSelection::Blocked(AccountSchedulingBlocker::LowerWeight));
    ctx.preferred_account_overrides_weight = true;
    let s = AccountSelector.select(&cs, &ctx, &[]).unwrap();
    assert_eq!(s.candidate().account.id().as_str(), "acct_a");
    assert_eq!(s.preferred(), PreferredAccountSelection::Hit);
}

#[test]
fn missing_and_blocked_preferred_accounts_are_reported() {
    let cs = vec![candidate("acct_a", 1), candidate("acct_b", 1)];
    let mut ctx = context(RotationStrategy::RoundRobin);
    ctx.preferred_account = Some(id("acct_z"));
    assert_eq!(AccountSelector.select(&cs, &ctx, &[]).unwrap().preferred(), PreferredAccountSelection::Missing);
    ctx.preferred_account = Some(id("acct_a"));
    ctx.excluded_accounts = vec![id("acct_a")];
    let s = AccountSelector.select(&cs, &ctx, &[]).unwrap();
    assert_eq!(s.candidate().account.id().as_str(), "acct_b");
    assert_eq!(s.preferred(), PreferredAccountSelection::Blocked(AccountSchedulingBlocker::Excluded));
    ctx.preferred_account = None;
    assert_eq!(AccountSelector.select(&cs, &ctx, &[]).unwrap().preferred(), PreferredAccountSelection::NotRequested);
}

#[test]
fn policy_candidates_are_the_eligible_ones_in_order() {
    let mut busy = candidate("acct_b", 1);
    busy.signals.in_flight = 2;
    let cs = vec![candidate("acct_c", 1), busy, candidate("acct_a", 9)];
    let picked = AccountSelector.policy_candidates(&cs, &context(RotationStrategy::Smart));
    let ids: Vec<&str> = picked.iter().map(|c| c.account.id().as_str()).collect();
    assert_eq!(ids, vec!["acct_c", "acct_a"]);
}

#[test]
fn a_policy_pick_overrides_the_preferred_account() {
    let cs = vec![candidate("acct_a", 1), candidate("acct_b", 1)];
    let mut ctx = context(RotationStrategy::Smart);
    ctx.preferred_account = Some(id("acct_a"));
    let s = AccountSelector.select_policy_candidate(&cs, &ctx, &id("acct_b")).unwrap();
    assert_eq!(s.candidate().account.id().as_str(), "acct_b");
    assert_eq!(s.preferred(), PreferredAccountSelection::OverriddenByPolicy);
    let s = AccountSelector.select_policy_candidate(&cs, &ctx, &id("acct_a")).unwrap();
    assert_eq!(s.preferred(), PreferredAccountSelection::Hit);
    assert!(AccountSelector.select_policy_candidate(&cs, &ctx, &id("acct_z")).is_none());
}

#[test]
fn wait_candidates_put_preferred_then_heavier_then_id() {
    let mut busy = candidate("acct_d", 1);
    busy.signals.in_flight = 2;
    let mut excluded = candidate("acct_e", 9);
    excluded.signals.in_flight = 2;
    let cs = vec![candidate("acct_c", 1), candidate("acct_b", 5), busy, excluded, candidate("acct_a", 1)];
    let mut ctx = context(RotationStrategy::RoundRobin);
    ctx.preferred_account = Some(id("acct_c"));
    ctx.excluded_accounts = vec![id("acct_e")];
    let ids: Vec<String> = AccountSelector
        .wait_candidates(&cs, &ctx)
        .iter()
        .map(|i| i.as_str().to_string())
        .collect();
    assert_eq!(ids, vec!["acct_c", "acct_b", "acct_a", "acct_d"]);
}

#[test]
fn capacity_snapshot_counts_the_request_pool() {
    let mut a = candidate("acct_a", 1);
    a.signals.in_flight = 1;
    let mut b = candidate("acct_b", 1);
    b.signals.in_flight = 2;
    let mut gone = candidate("acct_c", 1);
    gone.signals.in_flight = 1;
    let cs = vec![a, b, gone];
    let mut ctx = context(RotationStrategy::RoundRobin);
    ctx.excluded_accounts = vec![id("acct_c")];
    let snapshot = AccountSelector.capacity_snapshot(&cs, &ctx).unwrap();
    assert_eq!(snapshot.used_slots(), 3);
    assert_eq!(snapshot.total_slots(), 4);
    let after = snapshot.with_acquired_request();
    assert_eq!(after.used_slots(), 4);
    assert_eq!(after.with_acquired_request().used_slots(), 4);
    assert!(AccountSelector.capacity_snapshot(&[], &ctx).is_none());
}

#[test]
fn selection_trace_puts_selected_first_and_caps_candidates() {
    let names = ["acct_a", "acct_b", "acct_c", "acct_d", "acct_e", "acct_f", "acct_g", "acct_h"];
    let cs: Vec<AccountCandidate> = names.iter().map(|n| candidate(n, 1)).collect();
    assert_eq!(traced_candidate_positions(&cs, Some(3)), vec![3, 0, 1, 2, 4, 5]);
    assert_eq!(traced_candidate_positions(&cs, None), vec![0, 1, 2, 3, 4, 5]);
    assert_eq!(traced_candidate_positions(&cs[..2], Some(1)), vec![1, 0]);
    assert_eq!(traced_candidate_positions(&cs[..0], None), Vec::<usize>::new());
    assert_eq!(MAX_TRACED_CANDIDATES, 6);
}

#[test]
fn selection_trace_skips_other_entries_of_the_selected_account() {
    let cs = vec![candidate("acct_a", 1), candidate("acct_b", 1), candidate("acct_a", 2)];
    assert_eq!(traced_candidate_positions(&cs, Some(2)), vec![2, 1]);
}

#[test]
fn policy_selection_asks_once_and_maps_failures() {
    use_policy_steps();
}

fn use_policy_steps() {
    let none: Vec<AccountCandidate> = Vec::new();
    let ctx = context(RotationStrategy::RoundRobin);
    assert!(matches!(AccountSelector.begin_policy_selection(&none, &ctx), AccountPolicyStart::NoCandidate));
    let cs = vec![candidate("acct_a", 1), candidate("acct_b", 2)];
    let offered = match AccountSelector.begin_policy_selection(&cs, &ctx) {
        AccountPolicyStart::Ask(offered) => offered,
        AccountPolicyStart::NoCandidate => panic!("eligible candidates were not offered"),
    };
    assert_eq!(offered.len(), 2);
    assert_eq!(offered[1].account_id().as_str(), "acct_b");
    let fault = AccountSelector.finish_policy_selection(Err(RequestPolicyFault), &offered, &cs, &ctx, &[]);
    assert!(matches!(fault, Err(AccountPolicyError::Fault)));
    let rejected = AccountSelector.finish_policy_selection(Ok(AccountScheduleDecision::Reject), &offered, &cs, &ctx, &[]);
    assert!(matches!(rejected, Err(AccountPolicyError::Rejected)));
    let unknown =
        AccountSelector.finish_policy_selection(Ok(AccountScheduleDecision::Pick(id("acct_z"))), &offered, &cs, &ctx, &[]);
    assert!(matches!(unknown, Err(AccountPolicyError::Fault)));
    let picked =
        AccountSelector.finish_policy_selection(Ok(AccountScheduleDecision::Pick(id("acct_b"))), &offered, &cs, &ctx, &[]);
    assert_eq!(picked.ok().unwrap().unwrap().candidate().account.id().as_str(), "acct_b");
}

fn double_quotient_key(a: u32, b: u32) -> u128 {
    let value = a as f64 / b as f64;
    (value * (1u128 << 84) as f64) as u128
}

#[test]
fn quotient_keys_are_the_rounded_doubles() {
    let samples: [(u32, u32); 12] = [
        (0, 1),
        (0, 7),
        (1, 1),
        (1, 3),
        (2, 3),
        (5, 7),
        (7, 5),
        (u32::MAX, 1),
        (1, u32::MAX),
        (4_294_967_294, 4_294_967_295),
        (4_294_967_293, 4_294_967_294),
        (123_456_789, 987_654_321),
    ];
    for (a, b) in samples {
        assert_eq!(rounded_quotient_key(a, b), double_quotient_key(a, b), "{a}/{b}");
    }
    assert_eq!(rounded_quotient_key(1, 2), 1u128 << 83);
    assert_eq!(
        rounded_quotient_key(4_294_967_294, 4_294_967_295),
        rounded_quotient_key(4_294_967_293, 4_294_967_294)
    );
}

#[test]
fn utilisations_that_round_alike_fall_through_to_the_start_time() {
    let limited = |name: &str, in_flight: u32, limit: u32, started: u64| {
        let mut c = candidate(name, 1);
        c.account = c.account.with_scheduling(AccountConcurrencyLimit::new(limit), AccountWeight::new(1).unwrap());
        c.signals.in_flight = in_flight;
        c.signals.last_started_at = Some(at(started));
        c
    };
    let a = limited("acct_a", 4_294_967_293, 4_294_967_294, 20);
    let b = limited("acct_b", 4_294_967_294, 4_294_967_295, 10);
    let cs = vec![a, b];
    assert_eq!(chosen(&cs, &context(RotationStrategy::QuotaResetPriority), &[]), Some("acct_b".to_string()));
}
