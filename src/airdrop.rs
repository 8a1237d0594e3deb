//! Genesis airdrop: a per-address claim ledger whose unlocked share grows by
//! a quarter for each mission category the claimant has completed.
use vstd::prelude::*;
use crate::bytes::bytes_eq;
use crate::common::{assert_sent_native_token_balance, fee_paid, Coin, Outbound};
use crate::errors::ContractError;
use crate::math::{lemma_unlocked_bounded, lemma_unlocked_monotonic, unlocked_amount, unlocked_spec};

verus! {

/// Stored configuration of the airdrop. Addresses are canonical.
#[derive(Clone, Debug)]
pub struct Config {
    pub owner: Vec<u8>,
    pub starterra_token: Vec<u8>,
    pub lp_staking_addresses: Vec<Vec<u8>>,
    pub stt_staking_addresses: Vec<Vec<u8>>,
    pub ido_addresses: Vec<Vec<u8>>,
    pub claim_fee: u128,
}

/// Ledger record of one claimant.
#[derive(Clone, Copy, Debug, PartialEq, Eq, Structural)]
pub struct AirdropInfo {
    pub amount: u128,
    pub already_claimed: u128,
}

/// An administrative registration: the record to store for `address`.
#[derive(Clone, Debug, PartialEq, Eq)]
pub struct AirdropAccount {
    pub address: String,
    pub already_claimed: u128,
    pub amount: u128,
}

/// Which mission categories a claimant has completed.
#[derive(Clone, Copy, Debug, PartialEq, Eq, Structural)]
pub struct PassedMissions {
    pub is_in_lp_staking: bool,
    pub is_in_stt_staking: bool,
    pub is_in_ido: bool,
}

/// Answer to a user-info query.
#[derive(Clone, Copy, Debug, PartialEq, Eq, Structural)]
pub struct AirdropUserInfoResponse {
    pub claimed_amount: u128,
    pub initial_claim_amount: u128,
    pub current_passed_missions: PassedMissions,
}

/// Queries the airdrop answers.
#[derive(Clone, Debug, PartialEq, Eq)]
pub enum QueryMsg {
    Config,
    UserInfo { address: String },
}

/// Migration message; it carries nothing.
#[derive(Clone, Copy, Debug, PartialEq, Eq, Structural)]
pub struct MigrateMsg {}

/// A successful claim: the record to store and the amount to transfer.
#[derive(Clone, Copy, Debug, PartialEq, Eq, Structural)]
pub struct ClaimOutcome {
    pub record: AirdropInfo,
    pub transfer_amount: u128,
}

/// A staking delegate's answer counts when it reports a nonzero bond; a
/// failed query (`None`) counts as not staking.
pub open spec fn stakes(bond: Option<u128>) -> bool {
    match bond {
        Some(b) => b > 0,
        None => false,
    }
}

/// Some staking delegate of the category reports a bond.
pub open spec fn any_stakes(bonds: Seq<Option<u128>>) -> bool {
    exists|i: int| 0 <= i < bonds.len() && stakes(#[trigger] bonds[i])
}

/// Some offering of the category reports the user as joined; a failed query
/// (`None`) counts as not joined.
pub open spec fn any_joined(answers: Seq<Option<bool>>) -> bool {
    exists|i: int| 0 <= i < answers.len() && #[trigger] answers[i] == Some(true)
}

pub open spec fn flag(b: bool) -> int {
    if b {
        1
    } else {
        0
    }
}

/// One base tier plus one for each completed category.
pub open spec fn tier_count_spec(m: PassedMissions) -> u128 {
    (1 + flag(m.is_in_lp_staking) + flag(m.is_in_stt_staking) + flag(m.is_in_ido)) as u128
}

/// What a claimant with allocation `amount` may have received in total.
pub open spec fn possible_claim_spec(amount: u128, m: PassedMissions) -> int {
    unlocked_spec(amount, tier_count_spec(m))
}

/// Outcome of a claim against `record`, in the order the checks are made.
pub open spec fn claim_spec(fee: u128, record: AirdropInfo, funds: Seq<Coin>, m: PassedMissions) -> Result<
    ClaimOutcome,
    ContractError,
> {
    let possible = possible_claim_spec(record.amount, m);
    if !fee_paid(funds, fee) {
        Err(ContractError::InsufficientFee)
    } else if record.already_claimed >= record.amount {
        Err(ContractError::AlreadyClaimed)
    } else if possible <= record.already_claimed {
        Err(ContractError::DoMoreTasks)
    } else {
        Ok(
            ClaimOutcome {
                record: AirdropInfo { amount: record.amount, already_claimed: possible as u128 },
                transfer_amount: (possible - record.already_claimed) as u128,
            },
        )
    }
}

/// The record after a claim: an error leaves it as it was.
pub open spec fn record_after(record: AirdropInfo, r: Result<ClaimOutcome, ContractError>) -> AirdropInfo {
    match r {
        Ok(o) => o.record,
        Err(_) => record,
    }
}

/// Whether any staking delegate of one category reports a bond (fail-open).
pub fn user_stake_check(bonds: &Vec<Option<u128>>) -> (r: bool)
    ensures
        r == any_stakes(bonds@),
{
    let mut i: usize = 0;
    while i < bonds.len()
        invariant
            i <= bonds.len(),
            forall|j: int| 0 <= j < i ==> !stakes(#[trigger] bonds@[j]),
        decreases bonds.len() - i,
    {
        match bonds[i] {
            Some(b) => if b > 0 {
                return true;
            },
            None => {},
        }
        i = i + 1;
    }
    false
}

/// Whether any offering of the category reports the user as joined
/// (fail-open).
pub fn user_ido_check(answers: &Vec<Option<bool>>) -> (r: bool)
    ensures
        r == any_joined(answers@),
{
    let mut i: usize = 0;
    while i < answers.len()
        invariant
            i <= answers.len(),
            forall|j: int| 0 <= j < i ==> #[trigger] answers@[j] != Some(true),
        decreases answers.len() - i,
    {
        match answers[i] {
            Some(b) => if b {
                return true;
            },
            None => {},
        }
        i = i + 1;
    }
    false
}

/// The completed categories, from the answers of every delegate.
pub fn passed_missions(
    lp_bonds: &Vec<Option<u128>>,
    stt_bonds: &Vec<Option<u128>>,
    ido_answers: &Vec<Option<bool>>,
) -> (r: PassedMissions)
    ensures
        r.is_in_lp_staking == any_stakes(lp_bonds@),
        r.is_in_stt_staking == any_stakes(stt_bonds@),
        r.is_in_ido == any_joined(ido_answers@),
{
    PassedMissions {
        is_in_lp_staking: user_stake_check(lp_bonds),
        is_in_stt_staking: user_stake_check(stt_bonds),
        is_in_ido: user_ido_check(ido_answers),
    }
}

/// Number of unlocked quarters.
pub fn tier_count(m: &PassedMissions) -> (r: u128)
    ensures
        r == tier_count_spec(*m),
        1 <= r <= 4,
{
    let mut n: u128 = 1;
    if m.is_in_lp_staking {
        n = n + 1;
    }
    if m.is_in_stt_staking {
        n = n + 1;
    }
    if m.is_in_ido {
        n = n + 1;
    }
    n
}

/// Total a claimant with allocation `base_claim` may have received:
/// `floor(base_claim * tier_count / 4)`.
pub fn fetch_user_possible_claim(base_claim: u128, m: &PassedMissions) -> (r: u128)
    ensures
        r == possible_claim_spec(base_claim, *m),
        r <= base_claim,
{
    let t = tier_count(m);
    unlocked_amount(base_claim, t)
}

/// A claim: checks the fee, then that something is left, then that a newly
/// completed category unlocked more than was claimed; on success the record
/// is raised to the unlocked total and the difference is to be transferred.
pub fn claim(config: &Config, record: &AirdropInfo, funds: &Vec<Coin>, m: &PassedMissions) -> (r: Result<
    ClaimOutcome,
    ContractError,
>)
    ensures
        r == claim_spec(config.claim_fee, *record, funds@, *m),
{
    let paid = assert_sent_native_token_balance(funds, config.claim_fee);
    if paid.is_err() {
        return Err(ContractError::InsufficientFee);
    }
    if record.already_claimed >= record.amount {
        return Err(ContractError::AlreadyClaimed);
    }
    let possible = fetch_user_possible_claim(record.amount, m);
    if possible <= record.already_claimed {
        return Err(ContractError::DoMoreTasks);
    }
    Ok(
        ClaimOutcome {
            record: AirdropInfo { amount: record.amount, already_claimed: possible },
            transfer_amount: possible - record.already_claimed,
        },
    )
}

/// The owner replaces the ledger records of the given accounts; the records
/// are returned in the order of `accounts`, for the caller to store.
pub fn register_airdrop_accounts(config: &Config, caller: &[u8], accounts: &Vec<AirdropAccount>) -> (r:
    Result<Vec<AirdropInfo>, ContractError>)
    ensures
        r is Ok <==> caller@ == config.owner@,
        r is Err ==> r == Err::<Vec<AirdropInfo>, ContractError>(ContractError::Unauthorized),
        r matches Ok(v) ==> v@.len() == accounts@.len() && forall|i: int|
            0 <= i < accounts@.len() ==> #[trigger] v@[i] == (AirdropInfo {
                amount: accounts@[i].amount,
                already_claimed: accounts@[i].already_claimed,
            }),
{
    if !bytes_eq(config.owner.as_slice(), caller) {
        return Err(ContractError::Unauthorized);
    }
    let mut out: Vec<AirdropInfo> = Vec::new();
    let mut i: usize = 0;
    while i < accounts.len()
        invariant
            i <= accounts.len(),
            out@.len() == i,
            forall|j: int|
                0 <= j < i ==> #[trigger] out@[j] == (AirdropInfo {
                    amount: accounts@[j].amount,
                    already_claimed: accounts@[j].already_claimed,
                }),
        decreases accounts.len() - i,
    {
        out.push(AirdropInfo { amount: accounts[i].amount, already_claimed: accounts[i].already_claimed });
        i = i + 1;
    }
    Ok(out)
}

/// The user-info answer for a record and the categories completed now.
pub fn query_user_info(record: &AirdropInfo, m: &PassedMissions) -> (r: AirdropUserInfoResponse)
    ensures
        r.claimed_amount == record.already_claimed,
        r.initial_claim_amount == record.amount,
        r.current_passed_missions == *m,
{
    AirdropUserInfoResponse {
        claimed_amount: record.already_claimed,
        initial_claim_amount: record.amount,
        current_passed_missions: *m,
    }
}

/// The stored configuration after an update: each given field replaces the
/// stored one.
pub open spec fn updated_config(
    c: Config,
    lp: Option<Vec<Vec<u8>>>,
    stt: Option<Vec<Vec<u8>>>,
    ido: Option<Vec<Vec<u8>>>,
    claim_fee: Option<u128>,
) -> Config {
    Config {
        owner: c.owner,
        starterra_token: c.starterra_token,
        lp_staking_addresses: match lp {
            Some(v) => v,
            None => c.lp_staking_addresses,
        },
        stt_staking_addresses: match stt {
            Some(v) => v,
            None => c.stt_staking_addresses,
        },
        ido_addresses: match ido {
            Some(v) => v,
            None => c.ido_addresses,
        },
        claim_fee: match claim_fee {
            Some(f) => f,
            None => c.claim_fee,
        },
    }
}

/// The owner updates the configuration; a given `owner` becomes the
/// proposed owner, who takes over only by accepting.
pub fn update_config(
    config: &mut Config,
    pending_owner: &mut Option<Vec<u8>>,
    caller: &[u8],
    owner: Option<Vec<u8>>,
    lp_staking_addresses: Option<Vec<Vec<u8>>>,
    stt_staking_addresses: Option<Vec<Vec<u8>>>,
    ido_addresses: Option<Vec<Vec<u8>>>,
    claim_fee: Option<u128>,
) -> (r: Result<(), ContractError>)
    ensures
        r is Ok <==> caller@ == old(config).owner@,
        r is Err ==> r == Err::<(), ContractError>(ContractError::Unauthorized) && *final(config) == *old(
            config,
        ) && *final(pending_owner) == *old(pending_owner),
        r is Ok ==> *final(config) == updated_config(
            *old(config),
            lp_staking_addresses,
            stt_staking_addresses,
            ido_addresses,
            claim_fee,
        ) && *final(pending_owner) == (match owner {
            Some(o) => Some(o),
            None => *old(pending_owner),
        }),
{
    if !bytes_eq(config.owner.as_slice(), caller) {
        return Err(ContractError::Unauthorized);
    }
    match owner {
        Some(o) => {
            *pending_owner = Some(o);
        },
        None => {},
    }
    match lp_staking_addresses {
        Some(v) => {
            config.lp_staking_addresses = v;
        },
        None => {},
    }
    match stt_staking_addresses {
        Some(v) => {
            config.stt_staking_addresses = v;
        },
        None => {},
    }
    match ido_addresses {
        Some(v) => {
            config.ido_addresses = v;
        },
        None => {},
    }
    match claim_fee {
        Some(f) => {
            config.claim_fee = f;
        },
        None => {},
    }
    Ok(())
}

/// The owner withdraws the contract's whole native balance to `to`.
pub fn ust_withdraw(config: &Config, caller: &[u8], to: String, native_balance: u128) -> (r: Result<
    Vec<Outbound>,
    ContractError,
>)
    ensures
        caller@ != config.owner@ ==> r == Err::<Vec<Outbound>, ContractError>(ContractError::Unauthorized),
        caller@ == config.owner@ && native_balance == 0 ==> r == Err::<Vec<Outbound>, ContractError>(
            ContractError::BalanceIsEmpty,
        ),
        caller@ == config.owner@ && native_balance > 0 ==> (r matches Ok(v) && v@ == seq![
            Outbound::NativeSend { to, amount: native_balance },
        ]),
{
    if !bytes_eq(config.owner.as_slice(), caller) {
        return Err(ContractError::Unauthorized);
    }
    if native_balance == 0 {
        return Err(ContractError::BalanceIsEmpty);
    }
    let mut out: Vec<Outbound> = Vec::new();
    out.push(Outbound::NativeSend { to, amount: native_balance });
    Ok(out)
}

/// The owner sends `amount` of the token and the whole native balance, if
/// any, to `to`.
pub fn emergency_withdraw(
    config: &Config,
    caller: &[u8],
    amount: u128,
    to: String,
    native_balance: u128,
) -> (r: Result<Vec<Outbound>, ContractError>)
    ensures
        caller@ != config.owner@ ==> r == Err::<Vec<Outbound>, ContractError>(ContractError::Unauthorized),
        caller@ == config.owner@ ==> (r matches Ok(v) && v@ == if native_balance > 0 {
            seq![
                Outbound::TokenTransfer { recipient: to, amount },
                Outbound::NativeSend { to, amount: native_balance },
            ]
        } else {
            seq![Outbound::TokenTransfer { recipient: to, amount }]
        }),
{
    if !bytes_eq(config.owner.as_slice(), caller) {
        return Err(ContractError::Unauthorized);
    }
    let mut out: Vec<Outbound> = Vec::new();
    let to2 = to.clone();
    out.push(Outbound::TokenTransfer { recipient: to, amount });
    if native_balance > 0 {
        out.push(Outbound::NativeSend { to: to2, amount: native_balance });
    }
    Ok(out)
}

/// The owner ends the airdrop: the native balance goes to the owner
/// (`owner_address` is its readable form) and the remaining tokens are burnt.
pub fn end_airdrop_genesis(
    config: &Config,
    caller: &[u8],
    owner_address: String,
    native_balance: u128,
    token_balance: u128,
) -> (r: Result<Vec<Outbound>, ContractError>)
    ensures
        caller@ != config.owner@ ==> r == Err::<Vec<Outbound>, ContractError>(ContractError::Unauthorized),
        caller@ == config.owner@ ==> (r matches Ok(v) && v@ == (if native_balance > 0 {
            seq![Outbound::NativeSend { to: owner_address, amount: native_balance }]
        } else {
            Seq::<Outbound>::empty()
        }) + (if token_balance > 0 {
            seq![Outbound::TokenBurn { amount: token_balance }]
        } else {
            Seq::<Outbound>::empty()
        })),
{
    if !bytes_eq(config.owner.as_slice(), caller) {
        return Err(ContractError::Unauthorized);
    }
    let mut out: Vec<Outbound> = Vec::new();
    if native_balance > 0 {
        out.push(Outbound::NativeSend { to: owner_address, amount: native_balance });
    }
    if token_balance > 0 {
        out.push(Outbound::TokenBurn { amount: token_balance });
    }
    proof {
        assert(out@ =~= (if native_balance > 0 {
            seq![Outbound::NativeSend { to: owner_address, amount: native_balance }]
        } else {
            Seq::<Outbound>::empty()
        }) + (if token_balance > 0 {
            seq![Outbound::TokenBurn { amount: token_balance }]
        } else {
            Seq::<Outbound>::empty()
        }));
    }
    Ok(out)
}

/// A claim never lowers the claimed total, and a successful one raises it by
/// exactly the transferred amount, up to at most the allocation.
pub proof fn lemma_claim_never_decreases(fee: u128, record: AirdropInfo, funds: Seq<Coin>, m: PassedMissions)
    ensures
        record_after(record, claim_spec(fee, record, funds, m)).already_claimed >= record.already_claimed,
        record_after(record, claim_spec(fee, record, funds, m)).amount == record.amount,
        claim_spec(fee, record, funds, m) matches Ok(o) ==> o.record.already_claimed == record.already_claimed
            + o.transfer_amount && o.transfer_amount > 0 && o.record.already_claimed <= record.amount,
{
    lemma_unlocked_bounded(record.amount, tier_count_spec(m));
}

/// The claimed total after a sequence of claims, each with the funds it
/// attached and the categories completed at its time.
pub open spec fn claim_run(fee: u128, record: AirdropInfo, calls: Seq<(Seq<Coin>, PassedMissions)>) -> AirdropInfo
    decreases calls.len(),
{
    if calls.len() == 0 {
        record
    } else {
        let prev = claim_run(fee, record, calls.drop_last());
        record_after(prev, claim_spec(fee, prev, calls.last().0, calls.last().1))
    }
}

/// Across successive claims the claimed total never decreases.
pub proof fn lemma_claimed_monotonic_over_calls(
    fee: u128,
    record: AirdropInfo,
    calls: Seq<(Seq<Coin>, PassedMissions)>,
    i: int,
    j: int,
)
    requires
        0 <= i <= j <= calls.len(),
    ensures
        claim_run(fee, record, calls.take(i)).already_claimed <= claim_run(fee, record, calls.take(j)).already_claimed,
    decreases j - i,
{
    if i < j {
        lemma_claimed_monotonic_over_calls(fee, record, calls, i, j - 1);
        let s = calls.take(j);
        assert(s.drop_last() =~= calls.take(j - 1));
        let prev = claim_run(fee, record, calls.take(j - 1));
        lemma_claim_never_decreases(fee, prev, s.last().0, s.last().1);
    }
}

/// After a successful claim, a further claim whose completed categories are
/// no more than before (and whose fee is paid) is refused with
/// `DoMoreTasks` while something is left, else with `AlreadyClaimed`; either
/// way the record stays as it is.
pub proof fn lemma_no_new_category_no_claim(
    fee: u128,
    record: AirdropInfo,
    funds1: Seq<Coin>,
    m1: PassedMissions,
    funds2: Seq<Coin>,
    m2: PassedMissions,
)
    requires
        claim_spec(fee, record, funds1, m1) is Ok,
        tier_count_spec(m2) <= tier_count_spec(m1),
        fee_paid(funds2, fee),
    ensures
        ({
            let r1 = claim_spec(fee, record, funds1, m1)->Ok_0.record;
            let r2 = claim_spec(fee, r1, funds2, m2);
            &&& r2 is Err
            &&& record_after(r1, r2) == r1
            &&& r1.already_claimed < r1.amount ==> r2 == Err::<ClaimOutcome, ContractError>(
                ContractError::DoMoreTasks,
            )
            &&& r1.already_claimed >= r1.amount ==> r2 == Err::<ClaimOutcome, ContractError>(
                ContractError::AlreadyClaimed,
            )
        }),
{
    lemma_unlocked_monotonic(record.amount, tier_count_spec(m2), tier_count_spec(m1));
    lemma_unlocked_bounded(record.amount, tier_count_spec(m1));
    lemma_unlocked_bounded(record.amount, tier_count_spec(m2));
}

/// Once the whole allocation is claimed, a claim whose fee is paid is
/// refused with `AlreadyClaimed`.
pub proof fn lemma_fully_claimed_rejects(fee: u128, record: AirdropInfo, funds: Seq<Coin>, m: PassedMissions)
    requires
        record.already_claimed == record.amount,
        fee_paid(funds, fee),
    ensures
        claim_spec(fee, record, funds, m) == Err::<ClaimOutcome, ContractError>(ContractError::AlreadyClaimed),
{
}

} // verus!
