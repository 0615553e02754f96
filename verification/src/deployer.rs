use crate::allocation::TokenAllocation;
use crate::arith::{
    spec_tokens_to_percent, tokens_to_percent, MAX_SUPPLY_PERCENT, MAX_TOTAL_SUPPLY,
};
use crate::errors::VestingError;
use vstd::prelude::*;

verus! {

/// The single outcome an external transfer request resolves to.
#[derive(Clone, Copy, Debug, PartialEq, Eq, Structural)]
pub enum TransferOutcome {
    /// The asset collaborator confirmed the transfer.
    Succeeded,
    /// The transfer failed or could not be confirmed.
    Failed,
}

/// A transfer the embedding runtime must forward to the asset collaborator:
/// `amount` tokens to `receiver_id`.  The ledger is not debited until the
/// outcome comes back through [`TokenDeployer::on_claim_finished`].
pub struct TransferRequest {
    /// Account the tokens go to.
    pub receiver_id: String,
    /// Token amount to move.
    pub amount: u128,
}

/// An allocation as submitted at initialization: everything but the
/// `claimed` counter, which always starts at zero.
#[derive(Clone, Copy, Debug, PartialEq, Eq, Structural)]
pub struct WrappedTokenAllocation {
    /// Share of the total supply, fixed-point basis 10000.
    pub allocated_percent: u64,
    /// Portion claimable already at vesting start, same basis.
    pub initial_release: u64,
    /// When vesting begins.
    pub vesting_start_time: u64,
    /// When the full allocation is vested.
    pub vesting_end_time: u64,
    /// Granularity of vesting.
    pub vesting_interval: u64,
}

impl From<TokenAllocation> for WrappedTokenAllocation {
    /// Strips the `claimed` counter off a stored allocation, leaving the
    /// schedule as it was submitted.
    fn from(alloc: TokenAllocation) -> (r: Self) {
        WrappedTokenAllocation {
            allocated_percent: alloc.allocated_percent,
            initial_release: alloc.initial_release,
            vesting_start_time: alloc.vesting_start_time,
            vesting_end_time: alloc.vesting_end_time,
            vesting_interval: alloc.vesting_interval,
        }
    }
}

impl vstd::std_specs::convert::FromSpecImpl<TokenAllocation> for WrappedTokenAllocation {
    open spec fn obeys_from_spec() -> bool {
        true
    }

    open spec fn from_spec(alloc: TokenAllocation) -> Self {
        WrappedTokenAllocation {
            allocated_percent: alloc.allocated_percent,
            initial_release: alloc.initial_release,
            vesting_start_time: alloc.vesting_start_time,
            vesting_end_time: alloc.vesting_end_time,
            vesting_interval: alloc.vesting_interval,
        }
    }
}

/// What a read-only account query reports.
#[derive(Clone, Copy, Debug, PartialEq, Eq, Structural)]
pub struct AccountStatus {
    /// Share of the total supply, fixed-point basis 10000.
    pub allocated_percent: u64,
    /// Portion claimable already at vesting start.
    pub initial_release: u64,
    /// When vesting begins.
    pub vesting_start_time: u64,
    /// When the full allocation is vested.
    pub vesting_end_time: u64,
    /// Granularity of vesting.
    pub vesting_interval: u64,
    /// Share already claimed, in percent units.
    pub claimed: u64,
    /// Tokens claimable right now.
    pub claimable_amount: u128,
}

/// The one transfer the coordinator is waiting on.
struct PendingClaim {
    account: String,
    amount: u128,
}

/// The designated deployer identity: only this caller may initialize.
pub open spec fn spec_token_factory_account() -> Seq<char> {
    "tokenhub.testnet"@
}

/// Returns the designated deployer identity.
pub fn token_factory_account() -> (r: String)
    ensures
        r@ == spec_token_factory_account(),
{
    "tokenhub.testnet".to_owned()
}

/// The stored record an input allocation turns into: same schedule, with
/// the `claimed` counter starting at zero.
pub open spec fn alloc_from_input(w: WrappedTokenAllocation) -> TokenAllocation {
    TokenAllocation {
        allocated_percent: w.allocated_percent,
        initial_release: w.initial_release,
        vesting_start_time: w.vesting_start_time,
        vesting_end_time: w.vesting_end_time,
        vesting_interval: w.vesting_interval,
        claimed: 0,
    }
}

/// No two entries are keyed by the same account name.
pub open spec fn keys_unique(allocs: Seq<(String, TokenAllocation)>) -> bool {
    forall|i: int, j: int| 0 <= i < j < allocs.len() ==> allocs[i].0@ != allocs[j].0@
}

/// No two input entries are keyed by the same account name.
pub open spec fn input_keys_unique(inputs: Seq<(String, WrappedTokenAllocation)>) -> bool {
    forall|i: int, j: int| 0 <= i < j < inputs.len() ==> inputs[i].0@ != inputs[j].0@
}

/// Whether some entry is keyed by `account`.
pub open spec fn contains_account(
    allocs: Seq<(String, TokenAllocation)>,
    account: Seq<char>,
) -> bool {
    exists|i: int| 0 <= i < allocs.len() && allocs[i].0@ == account
}

/// Position of the entry keyed by `account`; meaningful when
/// [`contains_account`] holds and keys are unique.
pub open spec fn account_index(allocs: Seq<(String, TokenAllocation)>, account: Seq<char>) -> int {
    choose|i: int| 0 <= i < allocs.len() && allocs[i].0@ == account
}

/// The allocation stored for `account`.
pub open spec fn alloc_for(
    allocs: Seq<(String, TokenAllocation)>,
    account: Seq<char>,
) -> TokenAllocation {
    allocs[account_index(allocs, account)].1
}

/// Sum of all allocated percentages, in fixed-point units.
pub open spec fn sum_percent(allocs: Seq<(String, TokenAllocation)>) -> int
    decreases allocs.len(),
{
    if allocs.len() == 0 {
        0
    } else {
        sum_percent(allocs.drop_last()) + allocs.last().1.allocated_percent
    }
}

pub proof fn lemma_sum_percent_nonneg(allocs: Seq<(String, TokenAllocation)>)
    ensures
        sum_percent(allocs) >= 0,
    decreases allocs.len(),
{
    if allocs.len() > 0 {
        lemma_sum_percent_nonneg(allocs.drop_last());
    }
}

/// Each single allocated percentage is bounded by the total sum.
pub proof fn lemma_sum_percent_element(allocs: Seq<(String, TokenAllocation)>, i: int)
    requires
        0 <= i < allocs.len(),
    ensures
        allocs[i].1.allocated_percent <= sum_percent(allocs),
    decreases allocs.len(),
{
    if i == allocs.len() - 1 {
        lemma_sum_percent_nonneg(allocs.drop_last());
    } else {
        lemma_sum_percent_element(allocs.drop_last(), i);
        assert(allocs.drop_last()[i] == allocs[i]);
    }
}

pub proof fn lemma_sum_percent_push(allocs: Seq<(String, TokenAllocation)>, x: (String, TokenAllocation))
    ensures
        sum_percent(allocs.push(x)) == sum_percent(allocs) + x.1.allocated_percent,
{
    assert(allocs.push(x).drop_last() =~= allocs);
    assert(allocs.push(x).last() == x);
}

/// Replacing an entry with one of the same allocated percentage keeps the sum.
pub proof fn lemma_sum_percent_update(
    allocs: Seq<(String, TokenAllocation)>,
    i: int,
    x: (String, TokenAllocation),
)
    requires
        0 <= i < allocs.len(),
        x.1.allocated_percent == allocs[i].1.allocated_percent,
    ensures
        sum_percent(allocs.update(i, x)) == sum_percent(allocs),
    decreases allocs.len(),
{
    let t = allocs.update(i, x);
    if i == allocs.len() - 1 {
        assert(t.drop_last() =~= allocs.drop_last());
        assert(t.last() == x);
    } else {
        assert(t.drop_last() =~= allocs.drop_last().update(i, x));
        lemma_sum_percent_update(allocs.drop_last(), i, x);
        assert(t.last() == allocs.last());
    }
}

/// The sum over a prefix never exceeds the sum over the whole sequence.
pub proof fn lemma_sum_percent_take_le(allocs: Seq<(String, TokenAllocation)>, n: int)
    requires
        0 <= n <= allocs.len(),
    ensures
        sum_percent(allocs.take(n)) <= sum_percent(allocs),
    decreases allocs.len(),
{
    if n == allocs.len() {
        assert(allocs.take(n) =~= allocs);
    } else {
        assert(allocs.take(n) =~= allocs.drop_last().take(n));
        lemma_sum_percent_take_le(allocs.drop_last(), n);
    }
}

/// Extending a prefix by one entry adds that entry's percentage to its sum.
pub proof fn lemma_sum_percent_take_step(allocs: Seq<(String, TokenAllocation)>, n: int)
    requires
        0 <= n < allocs.len(),
    ensures
        sum_percent(allocs.take(n + 1)) == sum_percent(allocs.take(n))
            + allocs[n].1.allocated_percent,
{
    assert(allocs.take(n + 1).drop_last() =~= allocs.take(n));
    assert(allocs.take(n + 1).last() == allocs[n]);
}

/// With unique keys, any position holding `account` is the position
/// [`account_index`] denotes.
pub proof fn lemma_account_index_unique(
    allocs: Seq<(String, TokenAllocation)>,
    account: Seq<char>,
    i: int,
)
    requires
        keys_unique(allocs),
        0 <= i < allocs.len(),
        allocs[i].0@ == account,
    ensures
        contains_account(allocs, account),
        account_index(allocs, account) == i,
{
    assert(contains_account(allocs, account));
    let j = account_index(allocs, account);
    assert(0 <= j < allocs.len() && allocs[j].0@ == account);
    if j < i {
        assert(allocs[j].0@ != allocs[i].0@);
    } else if i < j {
        assert(allocs[i].0@ != allocs[j].0@);
    }
}

/// Outcome of constructing the first `n` allocations in submission order:
/// each entry's schedule invariants are enforced as it is inserted, and the
/// running percentage total may never exceed the basis.  The earliest
/// failure wins.
pub open spec fn spec_build_allocations(
    inputs: Seq<(String, WrappedTokenAllocation)>,
    n: int,
) -> Result<Seq<(String, TokenAllocation)>, VestingError>
    recommends
        0 <= n <= inputs.len(),
    decreases n,
{
    if n <= 0 {
        Ok(Seq::empty())
    } else {
        match spec_build_allocations(inputs, n - 1) {
            Err(e) => Err(e),
            Ok(s) => {
                let a = alloc_from_input(inputs[n - 1].1);
                if !a.valid() {
                    Err(VestingError::InvalidAllocation)
                } else if sum_percent(s) + a.allocated_percent > MAX_SUPPLY_PERCENT as int {
                    Err(VestingError::SupplyExceeded)
                } else {
                    Ok(s.push((inputs[n - 1].0, a)))
                }
            },
        }
    }
}

/// A failure while building the first `n` entries is the failure of every
/// longer prefix as well.
pub proof fn lemma_build_error_persists(
    inputs: Seq<(String, WrappedTokenAllocation)>,
    n: int,
    m: int,
)
    requires
        0 <= n <= m,
        spec_build_allocations(inputs, n) is Err,
    ensures
        spec_build_allocations(inputs, m) == spec_build_allocations(inputs, n),
    decreases m - n,
{
    if m > n {
        lemma_build_error_persists(inputs, n, m - 1);
    }
}

/// A successfully built prefix carries the inputs over verbatim, in order,
/// with `claimed` zeroed, every entry valid, and the total within the basis.
pub proof fn lemma_build_ok_properties(inputs: Seq<(String, WrappedTokenAllocation)>, n: int)
    requires
        0 <= n <= inputs.len(),
        spec_build_allocations(inputs, n) is Ok,
    ensures
        ({
            let s = spec_build_allocations(inputs, n)->Ok_0;
            &&& s.len() == n
            &&& forall|k: int|
                0 <= k < n ==> s[k].0 == inputs[k].0 && s[k].1 == alloc_from_input(inputs[k].1)
            &&& forall|k: int| 0 <= k < n ==> (#[trigger] s[k].1).valid()
            &&& sum_percent(s) <= MAX_SUPPLY_PERCENT as int
        }),
    decreases n,
{
    if n > 0 {
        lemma_build_ok_properties(inputs, n - 1);
        let prev = spec_build_allocations(inputs, n - 1)->Ok_0;
        let a = alloc_from_input(inputs[n - 1].1);
        lemma_sum_percent_push(prev, (inputs[n - 1].0, a));
        lemma_sum_percent_nonneg(prev);
    }
}

/// Outcome of initialization: rejected when state already exists or the
/// caller is not the token factory, otherwise the outcome of building every
/// submitted allocation.
pub open spec fn spec_init_outcome(
    state_exists: bool,
    caller: Seq<char>,
    inputs: Seq<(String, WrappedTokenAllocation)>,
) -> Result<Seq<(String, TokenAllocation)>, VestingError> {
    if state_exists {
        Err(VestingError::AlreadyInitialized)
    } else if caller != spec_token_factory_account() {
        Err(VestingError::Unauthorized)
    } else {
        spec_build_allocations(inputs, inputs.len() as int)
    }
}

/// Outcome of recording a confirmed claim of `amount` tokens against
/// `account`: the token amount is converted back to percent units (with the
/// same downward truncation) and added to `claimed`, unless the account is
/// unknown, its record violates the schedule invariants, or the addition
/// would exceed the allocated share.
pub open spec fn spec_commit_outcome(
    allocs: Seq<(String, TokenAllocation)>,
    total_supply: u128,
    account: Seq<char>,
    amount: u128,
) -> Result<Seq<(String, TokenAllocation)>, VestingError> {
    if !contains_account(allocs, account) {
        Err(VestingError::UnknownAccount)
    } else {
        let i = account_index(allocs, account);
        let a = allocs[i].1;
        if !a.valid() {
            Err(VestingError::InvalidAllocation)
        } else {
            let pct = spec_tokens_to_percent(amount as int, total_supply as int);
            if a.claimed + pct > a.allocated_percent {
                Err(VestingError::Overdraw)
            } else {
                Ok(
                    allocs.update(
                        i,
                        (
                            allocs[i].0,
                            TokenAllocation {
                                allocated_percent: a.allocated_percent,
                                initial_release: a.initial_release,
                                vesting_start_time: a.vesting_start_time,
                                vesting_end_time: a.vesting_end_time,
                                vesting_interval: a.vesting_interval,
                                claimed: (a.claimed + pct) as u64,
                            },
                        ),
                    ),
                )
            }
        }
    }
}

/// A recorded claim is all-or-nothing and strictly local: it touches only
/// the target account's entry, keeps every account name in place, and the
/// `claimed` counter never decreases.
pub proof fn lemma_commit_is_local_and_monotonic(
    allocs: Seq<(String, TokenAllocation)>,
    total_supply: u128,
    account: Seq<char>,
    amount: u128,
)
    requires
        1 <= total_supply,
        spec_commit_outcome(allocs, total_supply, account, amount) is Ok,
    ensures
        ({
            let after = spec_commit_outcome(allocs, total_supply, account, amount)->Ok_0;
            let i = account_index(allocs, account);
            &&& after.len() == allocs.len()
            &&& forall|k: int| 0 <= k < allocs.len() && k != i ==> after[k] == allocs[k]
            &&& forall|k: int| 0 <= k < allocs.len() ==> (#[trigger] after[k]).0 == allocs[k].0
            &&& after[i].1.claimed >= allocs[i].1.claimed
            &&& after[i].1.allocated_percent == allocs[i].1.allocated_percent
        }),
{
    crate::arith::lemma_tokens_to_percent_decompose(amount as int, total_supply as int);
}

/// The vesting ledger and claim coordinator.
///
/// Holds the external asset contract's name, the token supply backing the
/// 100% basis, the allocations in insertion order, and the at most one
/// transfer whose confirmation is outstanding.
pub struct TokenDeployer {
    ft_contract_name: String,
    total_supply: u128,
    allocations: Vec<(String, TokenAllocation)>,
    pending_claim: Option<PendingClaim>,
}

impl TokenDeployer {
    /// The backing token supply.
    pub closed spec fn spec_supply(&self) -> u128 {
        self.total_supply
    }

    /// The asset contract's account name.
    pub closed spec fn spec_ft_contract(&self) -> Seq<char> {
        self.ft_contract_name@
    }

    /// The stored allocations, in insertion order.
    pub closed spec fn spec_allocations(&self) -> Seq<(String, TokenAllocation)> {
        self.allocations@
    }

    /// The outstanding transfer, as account name and token amount.
    pub closed spec fn spec_pending(&self) -> Option<(Seq<char>, u128)> {
        match self.pending_claim {
            Some(ref p) => Some((p.account@, p.amount)),
            None => None,
        }
    }

    /// Structural well-formedness: a usable supply within the conversion
    /// bound, unique account keys, and a percentage total within the basis.
    pub open spec fn wf(&self) -> bool {
        &&& 1 <= self.spec_supply() <= MAX_TOTAL_SUPPLY
        &&& keys_unique(self.spec_allocations())
        &&& sum_percent(self.spec_allocations()) <= MAX_SUPPLY_PERCENT as int
    }

    /// Whether an allocation exists for `account`.
    pub open spec fn spec_has_account(&self, account: Seq<char>) -> bool {
        contains_account(self.spec_allocations(), account)
    }

    /// The allocation stored for `account`.
    pub open spec fn spec_alloc_of(&self, account: Seq<char>) -> TokenAllocation {
        alloc_for(self.spec_allocations(), account)
    }

    /// Tokens claimable by `account` at `at_time`.
    pub open spec fn spec_claimable_of(&self, account: Seq<char>, at_time: u64) -> int {
        self.spec_alloc_of(account).spec_claimable(self.spec_supply() as int, at_time)
    }

    /// Constructs the ledger from the submitted allocations.
    ///
    /// Fails with `AlreadyInitialized` when contract state already exists,
    /// with `Unauthorized` unless the caller is the token factory, with
    /// `InvalidAllocation` when a submitted schedule is inconsistent, and
    /// with `SupplyExceeded` when the running percentage total would pass
    /// 100%.  On success every account starts with nothing claimed and no
    /// transfer outstanding.
    pub fn new(
        state_exists: bool,
        caller_id: &String,
        ft_contract_name: String,
        total_supply: u128,
        allocations: Vec<(String, WrappedTokenAllocation)>,
    ) -> (r: Result<TokenDeployer, VestingError>)
        requires
            input_keys_unique(allocations@),
            1 <= total_supply <= MAX_TOTAL_SUPPLY,
        ensures
            match r {
                Ok(d) => {
                    &&& spec_init_outcome(state_exists, caller_id@, allocations@) == Ok::<
                        Seq<(String, TokenAllocation)>,
                        VestingError,
                    >(d.spec_allocations())
                    &&& d.wf()
                    &&& d.spec_supply() == total_supply
                    &&& d.spec_ft_contract() == ft_contract_name@
                    &&& d.spec_pending() is None
                    &&& d.spec_allocations().len() == allocations@.len()
                    &&& forall|k: int|
                        0 <= k < allocations@.len() ==> (#[trigger] d.spec_allocations()[k]).0
                            == allocations@[k].0 && d.spec_allocations()[k].1 == alloc_from_input(
                            allocations@[k].1,
                        )
                    &&& forall|k: int|
                        0 <= k < d.spec_allocations().len() ==> (
                        #[trigger] d.spec_allocations()[k]).1.valid()
                },
                Err(e) => spec_init_outcome(state_exists, caller_id@, allocations@) == Err::<
                    Seq<(String, TokenAllocation)>,
                    VestingError,
                >(e),
            },
    {
        if state_exists {
            return Err(VestingError::AlreadyInitialized);
        }
        let factory = token_factory_account();
        if !(*caller_id == factory) {
            return Err(VestingError::Unauthorized);
        }
        let ghost inputs = allocations@;
        let mut allocs: Vec<(String, TokenAllocation)> = Vec::new();
        let mut running: u64 = 0;
        let mut idx: usize = 0;
        while idx < allocations.len()
            invariant
                !state_exists,
                caller_id@ == spec_token_factory_account(),
                idx <= allocations.len(),
                inputs == allocations@,
                spec_build_allocations(inputs, idx as int) == Ok::<
                    Seq<(String, TokenAllocation)>,
                    VestingError,
                >(allocs@),
                allocs@.len() == idx,
                running == sum_percent(allocs@),
                running <= MAX_SUPPLY_PERCENT,
            decreases allocations.len() - idx,
        {
            let w = allocations[idx].1;
            let a = TokenAllocation {
                allocated_percent: w.allocated_percent,
                initial_release: w.initial_release,
                vesting_start_time: w.vesting_start_time,
                vesting_end_time: w.vesting_end_time,
                vesting_interval: w.vesting_interval,
                claimed: 0,
            };
            proof {
                assert(a == alloc_from_input(inputs[idx as int].1));
            }
            if !a.check_valid() {
                proof {
                    assert(spec_build_allocations(inputs, idx as int + 1) == Err::<
                        Seq<(String, TokenAllocation)>,
                        VestingError,
                    >(VestingError::InvalidAllocation));
                    lemma_build_error_persists(inputs, idx as int + 1, inputs.len() as int);
                }
                return Err(VestingError::InvalidAllocation);
            }
            if a.allocated_percent > MAX_SUPPLY_PERCENT - running {
                proof {
                    assert(spec_build_allocations(inputs, idx as int + 1) == Err::<
                        Seq<(String, TokenAllocation)>,
                        VestingError,
                    >(VestingError::SupplyExceeded));
                    lemma_build_error_persists(inputs, idx as int + 1, inputs.len() as int);
                }
                return Err(VestingError::SupplyExceeded);
            }
            let name = allocations[idx].0.clone();
            proof {
                lemma_sum_percent_push(allocs@, (name, a));
            }
            running = running + a.allocated_percent;
            allocs.push((name, a));
            idx = idx + 1;
        }
        proof {
            lemma_build_ok_properties(inputs, inputs.len() as int);
            assert forall|i: int, j: int| 0 <= i < j < allocs@.len() implies allocs@[i].0@
                != allocs@[j].0@ by {
                assert(allocs@[i].0 == inputs[i].0);
                assert(allocs@[j].0 == inputs[j].0);
            }
        }
        Ok(
            TokenDeployer {
                ft_contract_name,
                total_supply,
                allocations: allocs,
                pending_claim: None,
            },
        )
    }

    /// Position of `account_id` in the allocation list, if present.
    fn find_account(&self, account_id: &String) -> (r: Option<usize>)
        ensures
            match r {
                Some(i) => i < self.spec_allocations().len() && self.spec_allocations()[
                    i as int
                ].0@ == account_id@,
                None => !contains_account(self.spec_allocations(), account_id@),
            },
    {
        let mut j: usize = 0;
        while j < self.allocations.len()
            invariant
                j <= self.allocations.len(),
                forall|k: int| 0 <= k < j ==> self.allocations@[k].0@ != account_id@,
            decreases self.allocations.len() - j,
        {
            if self.allocations[j].0 == *account_id {
                return Some(j);
            }
            j = j + 1;
        }
        None
    }

    /// The allocations in insertion order, for external display.
    pub fn get_allocation_list(&self) -> (r: &Vec<(String, TokenAllocation)>)
        ensures
            r@ == self.spec_allocations(),
    {
        &self.allocations
    }

    /// Tokens claimable by `account_id` at `at_time`, re-checking the
    /// stored record's invariants first.  Fails with `UnknownAccount` when
    /// no allocation exists, and with `InvalidAllocation` when the stored
    /// record is inconsistent.
    pub fn compute_claimable(&self, account_id: &String, at_time: u64) -> (r: Result<
        u128,
        VestingError,
    >)
        requires
            self.wf(),
        ensures
            match r {
                Ok(v) => {
                    &&& self.spec_has_account(account_id@)
                    &&& self.spec_alloc_of(account_id@).valid()
                    &&& 0 <= self.spec_claimable_of(account_id@, at_time)
                    &&& v == self.spec_claimable_of(account_id@, at_time)
                },
                Err(e) => {
                    &&& (e == VestingError::UnknownAccount <==> !self.spec_has_account(
                        account_id@,
                    ))
                    &&& (e == VestingError::InvalidAllocation <==> self.spec_has_account(
                        account_id@,
                    ) && (!self.spec_alloc_of(account_id@).valid() || self.spec_claimable_of(
                        account_id@,
                        at_time,
                    ) < 0))
                    &&& (e == VestingError::UnknownAccount || e
                        == VestingError::InvalidAllocation)
                },
            },
    {
        match self.find_account(account_id) {
            None => Err(VestingError::UnknownAccount),
            Some(i) => {
                proof {
                    lemma_account_index_unique(self.spec_allocations(), account_id@, i as int);
                    lemma_sum_percent_element(self.spec_allocations(), i as int);
                    lemma_sum_percent_nonneg(self.spec_allocations());
                }
                let a = self.allocations[i].1;
                a.claimable_tokens(self.total_supply, at_time)
            },
        }
    }

    /// Reports an account's allocation and its currently claimable amount.
    /// A missing account reads as zero entitlement, not as an error; a
    /// stored record that fails its invariants reads as `InvalidAllocation`.
    pub fn check_account(&self, account_id: &String, at_time: u64) -> (r: Result<
        AccountStatus,
        VestingError,
    >)
        requires
            self.wf(),
        ensures
            !self.spec_has_account(account_id@) ==> r == Ok::<AccountStatus, VestingError>(
                AccountStatus {
                    allocated_percent: 0,
                    initial_release: 0,
                    vesting_start_time: 0,
                    vesting_end_time: 0,
                    vesting_interval: 0,
                    claimed: 0,
                    claimable_amount: 0,
                },
            ),
            self.spec_has_account(account_id@) ==> match r {
                Ok(st) => {
                    &&& self.spec_alloc_of(account_id@).valid()
                    &&& 0 <= self.spec_claimable_of(account_id@, at_time)
                    &&& st == (AccountStatus {
                        allocated_percent: self.spec_alloc_of(account_id@).allocated_percent,
                        initial_release: self.spec_alloc_of(account_id@).initial_release,
                        vesting_start_time: self.spec_alloc_of(account_id@).vesting_start_time,
                        vesting_end_time: self.spec_alloc_of(account_id@).vesting_end_time,
                        vesting_interval: self.spec_alloc_of(account_id@).vesting_interval,
                        claimed: self.spec_alloc_of(account_id@).claimed,
                        claimable_amount: self.spec_claimable_of(account_id@, at_time) as u128,
                    })
                },
                Err(e) => e == VestingError::InvalidAllocation && (!self.spec_alloc_of(
                    account_id@,
                ).valid() || self.spec_claimable_of(account_id@, at_time) < 0),
            },
    {
        match self.find_account(account_id) {
            None => Ok(
                AccountStatus {
                    allocated_percent: 0,
                    initial_release: 0,
                    vesting_start_time: 0,
                    vesting_end_time: 0,
                    vesting_interval: 0,
                    claimed: 0,
                    claimable_amount: 0,
                },
            ),
            Some(i) => {
                proof {
                    lemma_account_index_unique(self.spec_allocations(), account_id@, i as int);
                    lemma_sum_percent_element(self.spec_allocations(), i as int);
                    lemma_sum_percent_nonneg(self.spec_allocations());
                }
                let a = self.allocations[i].1;
                match a.claimable_tokens(self.total_supply, at_time) {
                    Err(e) => Err(e),
                    Ok(v) => Ok(
                        AccountStatus {
                            allocated_percent: a.allocated_percent,
                            initial_release: a.initial_release,
                            vesting_start_time: a.vesting_start_time,
                            vesting_end_time: a.vesting_end_time,
                            vesting_interval: a.vesting_interval,
                            claimed: a.claimed,
                            claimable_amount: v,
                        },
                    ),
                }
            },
        }
    }

    /// Requests a claim for the caller: computes the claimable amount at
    /// `at_time` and, when it is positive, records the transfer as
    /// outstanding and hands back the request the runtime must forward to
    /// the asset collaborator.  The ledger itself is not debited here.
    pub fn claim(&mut self, caller_id: &String, at_time: u64) -> (r: Result<
        TransferRequest,
        VestingError,
    >)
        requires
            old(self).wf(),
        ensures
            final(self).wf(),
            final(self).spec_supply() == old(self).spec_supply(),
            final(self).spec_ft_contract() == old(self).spec_ft_contract(),
            final(self).spec_allocations() == old(self).spec_allocations(),
            match r {
                Ok(req) => {
                    &&& old(self).spec_has_account(caller_id@)
                    &&& old(self).spec_alloc_of(caller_id@).valid()
                    &&& old(self).spec_claimable_of(caller_id@, at_time) > 0
                    &&& req.amount == old(self).spec_claimable_of(caller_id@, at_time)
                    &&& req.receiver_id@ == caller_id@
                    &&& final(self).spec_pending() == Some((caller_id@, req.amount))
                },
                Err(e) => {
                    &&& final(self).spec_pending() == old(self).spec_pending()
                    &&& (e == VestingError::UnknownAccount <==> !old(self).spec_has_account(
                        caller_id@,
                    ))
                    &&& (e == VestingError::InvalidAllocation <==> old(self).spec_has_account(
                        caller_id@,
                    ) && (!old(self).spec_alloc_of(caller_id@).valid() || old(self).spec_claimable_of(caller_id@, at_time) < 0))
                    &&& (e == VestingError::NothingToClaim <==> old(self).spec_has_account(
                        caller_id@,
                    ) && old(self).spec_alloc_of(caller_id@).valid() && old(self).spec_claimable_of(caller_id@, at_time) == 0)
                    &&& (e == VestingError::UnknownAccount || e == VestingError::InvalidAllocation
                        || e == VestingError::NothingToClaim)
                },
            },
    {
        match self.compute_claimable(caller_id, at_time) {
            Err(e) => Err(e),
            Ok(amount) => {
                if amount == 0 {
                    Err(VestingError::NothingToClaim)
                } else {
                    self.pending_claim = Some(
                        PendingClaim { account: caller_id.clone(), amount },
                    );
                    Ok(TransferRequest { receiver_id: caller_id.clone(), amount })
                }
            },
        }
    }

    /// Records a confirmed claim: converts `amount` back to percent units
    /// and adds it to the account's `claimed` counter.  Fails with
    /// `UnknownAccount`, `InvalidAllocation`, or — when the addition would
    /// exceed the allocated share — `Overdraw`; every failure leaves the
    /// ledger untouched.
    pub fn commit_claim(&mut self, account_id: &String, amount: u128) -> (r: Result<
        (),
        VestingError,
    >)
        requires
            old(self).wf(),
        ensures
            final(self).wf(),
            final(self).spec_supply() == old(self).spec_supply(),
            final(self).spec_ft_contract() == old(self).spec_ft_contract(),
            final(self).spec_pending() == old(self).spec_pending(),
            match r {
                Ok(()) => spec_commit_outcome(
                    old(self).spec_allocations(),
                    old(self).spec_supply(),
                    account_id@,
                    amount,
                ) == Ok::<Seq<(String, TokenAllocation)>, VestingError>(
                    final(self).spec_allocations(),
                ),
                Err(e) => {
                    &&& spec_commit_outcome(
                        old(self).spec_allocations(),
                        old(self).spec_supply(),
                        account_id@,
                        amount,
                    ) == Err::<Seq<(String, TokenAllocation)>, VestingError>(e)
                    &&& final(self).spec_allocations() == old(self).spec_allocations()
                },
            },
    {
        let idx_opt = self.find_account(account_id);
        match idx_opt {
            None => Err(VestingError::UnknownAccount),
            Some(i) => {
                proof {
                    lemma_account_index_unique(self.spec_allocations(), account_id@, i as int);
                }
                let a = self.allocations[i].1;
                if !a.check_valid() {
                    return Err(VestingError::InvalidAllocation);
                }
                proof {
                    lemma_sum_percent_element(self.spec_allocations(), i as int);
                    lemma_sum_percent_nonneg(self.spec_allocations());
                }
                match tokens_to_percent(amount, self.total_supply) {
                    None => Err(VestingError::Overdraw),
                    Some(pct) => {
                        if (a.claimed as u128) + (pct as u128) > (a.allocated_percent as u128) {
                            Err(VestingError::Overdraw)
                        } else {
                            let ghost old_allocs = self.allocations@;
                            self.allocations[i].1.claimed = a.claimed + pct;
                            proof {
                                let x = (
                                    old_allocs[i as int].0,
                                    TokenAllocation {
                                        allocated_percent: a.allocated_percent,
                                        initial_release: a.initial_release,
                                        vesting_start_time: a.vesting_start_time,
                                        vesting_end_time: a.vesting_end_time,
                                        vesting_interval: a.vesting_interval,
                                        claimed: (a.claimed + pct) as u64,
                                    },
                                );
                                assert(self.allocations@ =~= old_allocs.update(i as int, x));
                                lemma_sum_percent_update(old_allocs, i as int, x);
                                assert forall|p: int, q: int|
                                    0 <= p < q < self.allocations@.len() implies self.allocations@[
                                    p
                                ].0@ != self.allocations@[q].0@ by {
                                    assert(old_allocs[p].0@ != old_allocs[q].0@);
                                }
                            }
                            Ok(())
                        }
                    },
                }
            },
        }
    }

    /// Settles the outstanding transfer from its confirmation callback.
    ///
    /// The callback must carry exactly one result (`MalformedCallback`
    /// otherwise) and must match the one outstanding transfer
    /// (`UnexpectedCallback` otherwise — in particular, a second callback
    /// for an already settled claim is rejected).  A failed transfer leaves
    /// the ledger untouched and merely clears the outstanding entry, so a
    /// later retry sees the same claimable amount.  A confirmed transfer is
    /// committed through [`Self::commit_claim`]; its `Overdraw` failure is
    /// surfaced, never swallowed.
    pub fn on_claim_finished(
        &mut self,
        predecessor_account_id: &String,
        amount: u128,
        results: &Vec<TransferOutcome>,
    ) -> (r: Result<bool, VestingError>)
        requires
            old(self).wf(),
        ensures
            final(self).wf(),
            final(self).spec_supply() == old(self).spec_supply(),
            final(self).spec_ft_contract() == old(self).spec_ft_contract(),
            results@.len() != 1 ==> r == Err::<bool, VestingError>(VestingError::MalformedCallback)
                && final(self).spec_allocations() == old(self).spec_allocations() && final(self).spec_pending() == old(self).spec_pending(),
            results@.len() == 1 && old(self).spec_pending() != Some(
                (predecessor_account_id@, amount),
            ) ==> r == Err::<bool, VestingError>(VestingError::UnexpectedCallback) && final(self).spec_allocations() == old(self).spec_allocations() && final(self).spec_pending()
                == old(self).spec_pending(),
            results@.len() == 1 && old(self).spec_pending() == Some(
                (predecessor_account_id@, amount),
            ) ==> {
                &&& final(self).spec_pending() is None
                &&& (results@[0] == TransferOutcome::Failed ==> r == Ok::<bool, VestingError>(
                    false,
                ) && final(self).spec_allocations() == old(self).spec_allocations())
                &&& (results@[0] == TransferOutcome::Succeeded ==> match r {
                    Ok(b) => b == true && spec_commit_outcome(
                        old(self).spec_allocations(),
                        old(self).spec_supply(),
                        predecessor_account_id@,
                        amount,
                    ) == Ok::<Seq<(String, TokenAllocation)>, VestingError>(
                        final(self).spec_allocations(),
                    ),
                    Err(e) => spec_commit_outcome(
                        old(self).spec_allocations(),
                        old(self).spec_supply(),
                        predecessor_account_id@,
                        amount,
                    ) == Err::<Seq<(String, TokenAllocation)>, VestingError>(e) && final(self).spec_allocations() == old(self).spec_allocations(),
                })
            },
    {
        if results.len() != 1 {
            return Err(VestingError::MalformedCallback);
        }
        let matches_pending = match &self.pending_claim {
            None => false,
            Some(p) => p.amount == amount && p.account == *predecessor_account_id,
        };
        if !matches_pending {
            return Err(VestingError::UnexpectedCallback);
        }
        self.pending_claim = None;
        let outcome = results[0];
        match outcome {
            TransferOutcome::Failed => Ok(false),
            TransferOutcome::Succeeded => {
                match self.commit_claim(predecessor_account_id, amount) {
                    Ok(()) => Ok(true),
                    Err(e) => Err(e),
                }
            },
        }
    }

    /// Whether the ledger is fully configured: every stored allocation
    /// passes its invariants and the percentages sum to exactly 100%.
    pub fn validate_allocation_list(&self) -> (r: bool)
        requires
            self.wf(),
        ensures
            r == (sum_percent(self.spec_allocations()) == MAX_SUPPLY_PERCENT as int && (forall|
                k: int,
            |
                0 <= k < self.spec_allocations().len() ==> (
                #[trigger] self.spec_allocations()[k]).1.valid())),
    {
        let mut total: u64 = 0;
        let mut j: usize = 0;
        proof {
            assert(self.spec_allocations().take(0) =~= Seq::<(String, TokenAllocation)>::empty());
        }
        while j < self.allocations.len()
            invariant
                self.wf(),
                j <= self.allocations.len(),
                total == sum_percent(self.spec_allocations().take(j as int)),
                total <= MAX_SUPPLY_PERCENT,
                forall|k: int| 0 <= k < j ==> (#[trigger] self.spec_allocations()[k]).1.valid(),
            decreases self.allocations.len() - j,
        {
            let a = self.allocations[j].1;
            if !a.check_valid() {
                return false;
            }
            proof {
                lemma_sum_percent_take_step(self.spec_allocations(), j as int);
                lemma_sum_percent_take_le(self.spec_allocations(), j as int + 1);
                lemma_sum_percent_nonneg(self.spec_allocations().take(j as int));
            }
            total = total + a.allocated_percent;
            j = j + 1;
        }
        proof {
            assert(self.spec_allocations().take(self.allocations@.len() as int)
                =~= self.spec_allocations());
        }
        total == MAX_SUPPLY_PERCENT
    }

    /// Holding the ledger fixed, the claimable amount for a valid
    /// allocation never shrinks as time advances.
    pub proof fn lemma_claimable_monotonic(&self, account: Seq<char>, t1: u64, t2: u64)
        requires
            self.spec_alloc_of(account).valid(),
            t1 <= t2,
        ensures
            self.spec_claimable_of(account, t1) <= self.spec_claimable_of(account, t2),
    {
        self.spec_alloc_of(account).lemma_claimable_monotonic(
            self.spec_supply() as int,
            t1,
            t2,
        );
    }

    /// A rejected transfer leaves every allocation untouched, so a retry
    /// against the resulting ledger computes the very same claimable
    /// amount.
    pub proof fn lemma_rejected_retry_same_claimable(
        pre: &TokenDeployer,
        post: &TokenDeployer,
        account: Seq<char>,
        at_time: u64,
    )
        requires
            post.spec_allocations() == pre.spec_allocations(),
            post.spec_supply() == pre.spec_supply(),
        ensures
            post.spec_claimable_of(account, at_time) == pre.spec_claimable_of(account, at_time),
    {
    }
}

} // verus!
