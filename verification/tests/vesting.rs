use vesting_ledger::allocation::TokenAllocation;
use vesting_ledger::arith::{tokens_from_percent, tokens_to_percent, MAX_SUPPLY_PERCENT};
use vesting_ledger::deployer::{
    AccountStatus, TokenDeployer, TransferOutcome, WrappedTokenAllocation,
};
use vesting_ledger::errors::VestingError;

const SUPPLY: u128 = 1_000_000;

fn factory() -> String {
    "tokenhub.testnet".to_string()
}

fn schedule(
    allocated_percent: u64,
    initial_release: u64,
    start: u64,
    end: u64,
    interval: u64,
) -> WrappedTokenAllocation {
    WrappedTokenAllocation {
        allocated_percent,
        initial_release,
        vesting_start_time: start,
        vesting_end_time: end,
        vesting_interval: interval,
    }
}

/// The single-account ledger used throughout: 50.00% allocated to alice,
/// 10.00% released at start, vesting over [0, 1000) in steps of 100.
fn alice_ledger() -> TokenDeployer {
    let inputs = vec![("alice".to_string(), schedule(5000, 1000, 0, 1000, 100))];
    TokenDeployer::new(false, &factory(), "token.testnet".to_string(), SUPPLY, inputs).unwrap()
}

#[test]
fn initialize_rejects_existing_state() {
    let r = TokenDeployer::new(true, &factory(), "t".to_string(), SUPPLY, vec![]);
    assert_eq!(r.err(), Some(VestingError::AlreadyInitialized));
}

#[test]
fn initialize_requires_factory_caller() {
    let caller = "mallory.testnet".to_string();
    let r = TokenDeployer::new(false, &caller, "t".to_string(), SUPPLY, vec![]);
    assert_eq!(r.err(), Some(VestingError::Unauthorized));
}

#[test]
fn initialize_rejects_interval_longer_than_window() {
    let inputs = vec![("a".to_string(), schedule(5000, 0, 0, 1000, 1001))];
    let r = TokenDeployer::new(false, &factory(), "t".to_string(), SUPPLY, inputs);
    assert_eq!(r.err(), Some(VestingError::InvalidAllocation));
}

#[test]
fn initialize_rejects_zero_interval() {
    let inputs = vec![("a".to_string(), schedule(5000, 0, 0, 1000, 0))];
    let r = TokenDeployer::new(false, &factory(), "t".to_string(), SUPPLY, inputs);
    assert_eq!(r.err(), Some(VestingError::InvalidAllocation));
}

#[test]
fn initialize_rejects_empty_window() {
    let inputs = vec![("a".to_string(), schedule(5000, 0, 500, 500, 1))];
    let r = TokenDeployer::new(false, &factory(), "t".to_string(), SUPPLY, inputs);
    assert_eq!(r.err(), Some(VestingError::InvalidAllocation));
}

#[test]
fn initialize_rejects_release_beyond_allocation() {
    let inputs = vec![("a".to_string(), schedule(1000, 1001, 0, 1000, 100))];
    let r = TokenDeployer::new(false, &factory(), "t".to_string(), SUPPLY, inputs);
    assert_eq!(r.err(), Some(VestingError::InvalidAllocation));
}

#[test]
fn initialize_rejects_cumulative_supply_excess() {
    let inputs = vec![
        ("a".to_string(), schedule(6000, 0, 0, 1000, 100)),
        ("b".to_string(), schedule(6000, 0, 0, 1000, 100)),
    ];
    let r = TokenDeployer::new(false, &factory(), "t".to_string(), SUPPLY, inputs);
    assert_eq!(r.err(), Some(VestingError::SupplyExceeded));
}

#[test]
fn initialize_accepts_exactly_full_supply() {
    let inputs = vec![
        ("a".to_string(), schedule(6000, 0, 0, 1000, 100)),
        ("b".to_string(), schedule(4000, 0, 0, 1000, 100)),
    ];
    let d = TokenDeployer::new(false, &factory(), "t".to_string(), SUPPLY, inputs).unwrap();
    assert!(d.validate_allocation_list());
}

#[test]
fn validate_reports_partial_configuration() {
    let d = alice_ledger();
    assert!(!d.validate_allocation_list());
}

#[test]
fn claimable_timeline_matches_schedule() {
    let d = alice_ledger();
    let alice = "alice".to_string();
    // At start: only the initial release of 10.00% is claimable.
    assert_eq!(d.compute_claimable(&alice, 0), Ok(100_000));
    // Half way: 5 of 10 intervals of the vesting 40.00%, plus the release.
    assert_eq!(d.compute_claimable(&alice, 500), Ok(300_000));
    // From the end onward: the full 50.00%.
    assert_eq!(d.compute_claimable(&alice, 1000), Ok(500_000));
    assert_eq!(d.compute_claimable(&alice, u64::MAX), Ok(500_000));
}

#[test]
fn claimable_counts_only_whole_intervals() {
    let d = alice_ledger();
    let alice = "alice".to_string();
    // 199ns into the schedule only one full interval of 100ns has elapsed.
    assert_eq!(d.compute_claimable(&alice, 199), Ok(140_000));
}

#[test]
fn claimable_is_zero_before_start_without_release() {
    let inputs = vec![("a".to_string(), schedule(5000, 0, 100, 1100, 100))];
    let d = TokenDeployer::new(false, &factory(), "t".to_string(), SUPPLY, inputs).unwrap();
    let a = "a".to_string();
    assert_eq!(d.compute_claimable(&a, 0), Ok(0));
    assert_eq!(d.compute_claimable(&a, 99), Ok(0));
    assert_eq!(d.compute_claimable(&a, 100), Ok(0));
    assert_eq!(d.compute_claimable(&a, 199), Ok(0));
    assert_eq!(d.compute_claimable(&a, 200), Ok(50_000));
}

#[test]
fn initial_release_is_claimable_before_start() {
    // The initial release is part of the claimable sum even ahead of the
    // vesting start.
    let d = alice_ledger();
    let alice = "alice".to_string();
    let inputs = vec![("alice".to_string(), schedule(5000, 1000, 500, 1500, 100))];
    let late = TokenDeployer::new(false, &factory(), "t".to_string(), SUPPLY, inputs).unwrap();
    assert_eq!(late.compute_claimable(&alice, 0), Ok(100_000));
    assert_eq!(d.compute_claimable(&alice, 0), Ok(100_000));
}

#[test]
fn unknown_account_is_error_at_claim_and_zero_at_query() {
    let mut d = alice_ledger();
    let bob = "bob".to_string();
    assert_eq!(d.compute_claimable(&bob, 0), Err(VestingError::UnknownAccount));
    assert_eq!(d.claim(&bob, 0).err(), Some(VestingError::UnknownAccount));
    let status = d.check_account(&bob, 0).unwrap();
    assert_eq!(
        status,
        AccountStatus {
            allocated_percent: 0,
            initial_release: 0,
            vesting_start_time: 0,
            vesting_end_time: 0,
            vesting_interval: 0,
            claimed: 0,
            claimable_amount: 0,
        }
    );
}

#[test]
fn check_account_reports_allocation_and_claimable() {
    let d = alice_ledger();
    let alice = "alice".to_string();
    let status = d.check_account(&alice, 500).unwrap();
    assert_eq!(status.allocated_percent, 5000);
    assert_eq!(status.initial_release, 1000);
    assert_eq!(status.vesting_start_time, 0);
    assert_eq!(status.vesting_end_time, 1000);
    assert_eq!(status.vesting_interval, 100);
    assert_eq!(status.claimed, 0);
    assert_eq!(status.claimable_amount, 300_000);
}

#[test]
fn claim_with_nothing_vested_fails_and_changes_nothing() {
    let inputs = vec![("a".to_string(), schedule(5000, 0, 100, 1100, 100))];
    let mut d =
        TokenDeployer::new(false, &factory(), "t".to_string(), SUPPLY, inputs).unwrap();
    let a = "a".to_string();
    assert_eq!(d.claim(&a, 0).err(), Some(VestingError::NothingToClaim));
    assert_eq!(d.get_allocation_list()[0].1.claimed, 0);
    // No transfer is outstanding, so no confirmation is accepted either.
    let r = d.on_claim_finished(&a, 0, &vec![TransferOutcome::Succeeded]);
    assert_eq!(r.err(), Some(VestingError::UnexpectedCallback));
}

#[test]
fn confirmed_claim_commits_exactly_once() {
    let mut d = alice_ledger();
    let alice = "alice".to_string();
    let req = d.claim(&alice, 1000).unwrap();
    assert_eq!(req.receiver_id, "alice");
    assert_eq!(req.amount, 500_000);
    // The ledger is not debited before the confirmation arrives.
    assert_eq!(d.get_allocation_list()[0].1.claimed, 0);
    let r = d.on_claim_finished(&alice, 500_000, &vec![TransferOutcome::Succeeded]);
    assert_eq!(r, Ok(true));
    assert_eq!(d.get_allocation_list()[0].1.claimed, 5000);
    // A second confirmation for the same request must not double-credit.
    let again = d.on_claim_finished(&alice, 500_000, &vec![TransferOutcome::Succeeded]);
    assert_eq!(again.err(), Some(VestingError::UnexpectedCallback));
    assert_eq!(d.get_allocation_list()[0].1.claimed, 5000);
}

#[test]
fn partial_claim_records_converted_percent() {
    let mut d = alice_ledger();
    let alice = "alice".to_string();
    let req = d.claim(&alice, 500).unwrap();
    assert_eq!(req.amount, 300_000);
    let r = d.on_claim_finished(&alice, 300_000, &vec![TransferOutcome::Succeeded]);
    assert_eq!(r, Ok(true));
    // 300_000 of 1_000_000 tokens is 30.00%.
    assert_eq!(d.get_allocation_list()[0].1.claimed, 3000);
    // What is claimable afterwards drops by the claimed share.
    assert_eq!(d.compute_claimable(&alice, 500), Ok(0));
    assert_eq!(d.compute_claimable(&alice, 600), Ok(40_000));
}

#[test]
fn rejected_transfer_leaves_claim_retryable() {
    let mut d = alice_ledger();
    let alice = "alice".to_string();
    let before = d.compute_claimable(&alice, 500).unwrap();
    let req = d.claim(&alice, 500).unwrap();
    assert_eq!(req.amount, before);
    let r = d.on_claim_finished(&alice, req.amount, &vec![TransferOutcome::Failed]);
    assert_eq!(r, Ok(false));
    // Nothing was recorded, and a retry sees the very same amount.
    assert_eq!(d.get_allocation_list()[0].1.claimed, 0);
    assert_eq!(d.compute_claimable(&alice, 500), Ok(before));
    let retry = d.claim(&alice, 500).unwrap();
    assert_eq!(retry.amount, before);
}

#[test]
fn callback_must_carry_exactly_one_result() {
    let mut d = alice_ledger();
    let alice = "alice".to_string();
    d.claim(&alice, 1000).unwrap();
    let none: Vec<TransferOutcome> = vec![];
    assert_eq!(
        d.on_claim_finished(&alice, 500_000, &none).err(),
        Some(VestingError::MalformedCallback)
    );
    let two = vec![TransferOutcome::Succeeded, TransferOutcome::Succeeded];
    assert_eq!(
        d.on_claim_finished(&alice, 500_000, &two).err(),
        Some(VestingError::MalformedCallback)
    );
    // The outstanding transfer is still there and can be settled.
    let r = d.on_claim_finished(&alice, 500_000, &vec![TransferOutcome::Succeeded]);
    assert_eq!(r, Ok(true));
}

#[test]
fn callback_must_match_outstanding_transfer() {
    let mut d = alice_ledger();
    let alice = "alice".to_string();
    let bob = "bob".to_string();
    d.claim(&alice, 1000).unwrap();
    let one = vec![TransferOutcome::Succeeded];
    assert_eq!(
        d.on_claim_finished(&bob, 500_000, &one).err(),
        Some(VestingError::UnexpectedCallback)
    );
    assert_eq!(
        d.on_claim_finished(&alice, 400_000, &one).err(),
        Some(VestingError::UnexpectedCallback)
    );
    assert_eq!(d.get_allocation_list()[0].1.claimed, 0);
}

#[test]
fn commit_beyond_allocation_is_overdraw() {
    let mut d = alice_ledger();
    let alice = "alice".to_string();
    // 60.00% of the supply against a 50.00% allocation.
    let r = d.commit_claim(&alice, 600_000);
    assert_eq!(r.err(), Some(VestingError::Overdraw));
    assert_eq!(d.get_allocation_list()[0].1.claimed, 0);
    // Far past the whole supply is an overdraw as well.
    let r = d.commit_claim(&alice, u128::MAX);
    assert_eq!(r.err(), Some(VestingError::Overdraw));
}

#[test]
fn commit_for_unknown_account_fails() {
    let mut d = alice_ledger();
    let bob = "bob".to_string();
    assert_eq!(d.commit_claim(&bob, 1).err(), Some(VestingError::UnknownAccount));
}

#[test]
fn allocation_list_keeps_insertion_order() {
    let inputs = vec![
        ("zeta".to_string(), schedule(1000, 0, 0, 1000, 100)),
        ("alpha".to_string(), schedule(2000, 0, 0, 1000, 100)),
        ("mid".to_string(), schedule(3000, 0, 0, 1000, 100)),
    ];
    let d = TokenDeployer::new(false, &factory(), "t".to_string(), SUPPLY, inputs).unwrap();
    let list = d.get_allocation_list();
    assert_eq!(list.len(), 3);
    assert_eq!(list[0].0, "zeta");
    assert_eq!(list[1].0, "alpha");
    assert_eq!(list[2].0, "mid");
    assert_eq!(list[1].1.allocated_percent, 2000);
    assert_eq!(list[2].1.claimed, 0);
}

#[test]
fn stored_allocation_strips_back_to_submitted_schedule() {
    let d = alice_ledger();
    let stored = d.get_allocation_list()[0].1;
    let back = WrappedTokenAllocation::from(stored);
    assert_eq!(back, schedule(5000, 1000, 0, 1000, 100));
}

#[test]
fn default_allocation_is_the_invalid_sentinel() {
    let a = TokenAllocation::default();
    assert_eq!(a.allocated_percent, 0);
    assert_eq!(a.claimed, 1);
    assert!(!a.check_valid());
}

#[test]
fn percent_token_conversions_truncate_downward() {
    // 33.33% of 1_000_000 tokens.
    assert_eq!(tokens_from_percent(3333, SUPPLY), 333_300);
    assert_eq!(tokens_to_percent(333_300, SUPPLY), Some(3333));
    // A supply that does not divide evenly truncates toward zero.
    assert_eq!(tokens_from_percent(3333, 999), 332);
    assert_eq!(tokens_to_percent(333, 999), Some(3333));
    assert_eq!(tokens_from_percent(1, 999), 0);
    assert_eq!(MAX_SUPPLY_PERCENT, 10000);
}

#[test]
fn percent_round_trip_never_gains() {
    for supply in [1u128, 3, 999, 10_000, 1_000_000] {
        for p in [0u64, 1, 7, 999, 1000, 3333, 9999, 10000] {
            let tokens = tokens_from_percent(p, supply);
            let back = tokens_to_percent(tokens, supply).unwrap();
            assert!(back <= p, "{} -> {} -> {} with supply {}", p, tokens, back, supply);
        }
    }
}

#[test]
fn conversion_overflowing_percent_space_is_detected() {
    // More tokens than any share could stand for: the percent value would
    // not even fit in 64 bits.
    assert_eq!(tokens_to_percent(u128::MAX, 1), None);
}

#[test]
fn error_messages_name_the_failure() {
    assert_eq!(
        VestingError::NothingToClaim.message(),
        "there is nothing to claim at the moment"
    );
    assert!(VestingError::Overdraw.message().contains("claimed"));
    assert!(VestingError::Unauthorized.message().contains("factory"));
}

#[test]
fn fully_claimed_release_account_reads_as_invalid() {
    // Claiming the whole 50.00% pushes `claimed` past
    // `allocated_percent - initial_release`; the defensive re-check then
    // refuses the record on every later read.
    let mut d = alice_ledger();
    let alice = "alice".to_string();
    d.claim(&alice, 1000).unwrap();
    let r = d.on_claim_finished(&alice, 500_000, &vec![TransferOutcome::Succeeded]);
    assert_eq!(r, Ok(true));
    assert_eq!(d.get_allocation_list()[0].1.claimed, 5000);
    assert_eq!(
        d.compute_claimable(&alice, 1000),
        Err(VestingError::InvalidAllocation)
    );
}
