//! Offering (IDO) contract: admission of participants in a fixed order of
//! checks, configuration with time guards, and status queries.
use vstd::prelude::*;
use crate::bytes::bytes_eq;
use crate::common::OrderBy;
use crate::errors::ContractError;

verus! {

/// Stored configuration of an offering. Addresses are canonical.
#[derive(Clone, Debug)]
pub struct Config {
    pub owner: Vec<u8>,
    pub pending_owner: Option<Vec<u8>>,
    pub prefund_address: Vec<u8>,
    pub kyc_terms_vault_address: Vec<u8>,
    pub ido_token: Vec<u8>,
    pub ido_token_price: u128,
    pub end_date: u64,
    pub paused: bool,
    pub snapshot_time: Option<u64>,
    pub minimum_prefund: u128,
}

/// Global counters of an offering.
#[derive(Clone, Copy, Debug, PartialEq, Eq, Structural)]
pub struct State {
    pub number_of_participants: u64,
}

/// Stored record of one address, and the answer to `FunderInfo`.
#[derive(Clone, Copy, Debug, PartialEq, Eq, Structural)]
pub struct ParticipantResponse {
    pub is_joined: bool,
}

/// Answer to `Status`.
#[derive(Clone, Copy, Debug, PartialEq, Eq, Structural)]
pub struct StatusResponse {
    pub is_closed: bool,
    pub is_paused: bool,
    pub snapshot_time: Option<u64>,
}

/// Answer to `Participants`: readable addresses.
#[derive(Clone, Debug, PartialEq, Eq)]
pub struct ParticipantsResponse {
    pub users: Vec<String>,
}

/// Answer to `State`.
#[derive(Clone, Copy, Debug, PartialEq, Eq, Structural)]
pub struct StateResponse {
    pub number_of_participants: u64,
}

/// Queries an offering answers.
#[derive(Clone, Debug, PartialEq, Eq)]
pub enum QueryMsg {
    FunderInfo { address: String },
    Config,
    State,
    Status { block_time: Option<u64> },
    SnapshotTime,
    Participants { start_after: Option<String>, limit: Option<u32>, order_by: Option<OrderBy> },
}

/// Migration message; it carries nothing.
#[derive(Clone, Copy, Debug, PartialEq, Eq, Structural)]
pub struct MigrateMsg {}

/// What the KYC vault reports of the caller.
#[derive(Clone, Copy, Debug, PartialEq, Eq, Structural)]
pub struct KycAnswer {
    pub is_verified: bool,
    pub is_accepted: bool,
}

/// Where an admission stands: refused, waiting for a delegate's answer, or
/// admitted with the new counters and record.
#[derive(Clone, Copy, Debug, PartialEq, Eq, Structural)]
pub enum Admission {
    Refused(ContractError),
    NeedPrefundBalance,
    NeedKycStatus,
    Admitted(State, ParticipantResponse),
}

/// The admission decision, checks in this order: already joined, paused,
/// closed, deposit at the prefund delegate, KYC, terms of use; a counter
/// that cannot grow refuses the admission last. A delegate's answer is
/// asked for only once every earlier check has passed.
pub open spec fn join_spec(
    c: Config,
    st: State,
    p: ParticipantResponse,
    now: u64,
    available_funds: Option<u128>,
    kyc: Option<KycAnswer>,
) -> Admission {
    if p.is_joined {
        Admission::Refused(ContractError::AlreadyJoined)
    } else if c.paused {
        Admission::Refused(ContractError::IdoPaused)
    } else if now > c.end_date {
        Admission::Refused(ContractError::IdoClosed)
    } else {
        match available_funds {
            None => Admission::NeedPrefundBalance,
            Some(a) => if a < c.minimum_prefund {
                Admission::Refused(ContractError::NotEnoughDeposit)
            } else {
                match kyc {
                    None => Admission::NeedKycStatus,
                    Some(k) => if !k.is_verified {
                        Admission::Refused(ContractError::KycFailed)
                    } else if !k.is_accepted {
                        Admission::Refused(ContractError::TouFailed)
                    } else if st.number_of_participants == u64::MAX {
                        Admission::Refused(ContractError::CounterOverflow)
                    } else {
                        Admission::Admitted(
                            State { number_of_participants: (st.number_of_participants + 1) as u64 },
                            ParticipantResponse { is_joined: true },
                        )
                    },
                }
            },
        }
    }
}

/// One step of a join: the host supplies each delegate answer that was
/// asked for and calls again, until the caller is refused or admitted.
pub fn join_ido(
    config: &Config,
    state: &State,
    participant: &ParticipantResponse,
    now: u64,
    available_funds: Option<u128>,
    kyc: Option<KycAnswer>,
) -> (r: Admission)
    ensures
        r == join_spec(*config, *state, *participant, now, available_funds, kyc),
{
    if participant.is_joined {
        return Admission::Refused(ContractError::AlreadyJoined);
    }
    if config.paused {
        return Admission::Refused(ContractError::IdoPaused);
    }
    if now > config.end_date {
        return Admission::Refused(ContractError::IdoClosed);
    }
    let funds = match available_funds {
        None => {
            return Admission::NeedPrefundBalance;
        },
        Some(a) => a,
    };
    if funds < config.minimum_prefund {
        return Admission::Refused(ContractError::NotEnoughDeposit);
    }
    let k = match kyc {
        None => {
            return Admission::NeedKycStatus;
        },
        Some(k) => k,
    };
    if !k.is_verified {
        return Admission::Refused(ContractError::KycFailed);
    }
    if !k.is_accepted {
        return Admission::Refused(ContractError::TouFailed);
    }
    if state.number_of_participants == u64::MAX {
        return Admission::Refused(ContractError::CounterOverflow);
    }
    Admission::Admitted(
        State { number_of_participants: state.number_of_participants + 1 },
        ParticipantResponse { is_joined: true },
    )
}

/// A caller who deposited too little is refused with `NotEnoughDeposit`
/// once the local checks pass, whatever the KYC vault would report: the
/// deposit is checked first.
pub proof fn lemma_deposit_checked_before_kyc(
    c: Config,
    st: State,
    p: ParticipantResponse,
    now: u64,
    available_funds: u128,
    kyc: Option<KycAnswer>,
)
    requires
        !p.is_joined,
        !c.paused,
        now <= c.end_date,
        available_funds < c.minimum_prefund,
    ensures
        join_spec(c, st, p, now, Some(available_funds), kyc) == Admission::Refused(ContractError::NotEnoughDeposit),
{
}

/// Once joined, a caller is refused with `AlreadyJoined` whatever else holds.
pub proof fn lemma_join_once(
    c: Config,
    st: State,
    now: u64,
    available_funds: Option<u128>,
    kyc: Option<KycAnswer>,
)
    ensures
        join_spec(c, st, ParticipantResponse { is_joined: true }, now, available_funds, kyc)
            == Admission::Refused(ContractError::AlreadyJoined),
{
}

/// Optional fields of a configuration update.
#[derive(Clone, Debug)]
pub struct ConfigUpdate {
    pub owner: Option<Vec<u8>>,
    pub prefund_address: Option<Vec<u8>>,
    pub kyc_terms_vault_address: Option<Vec<u8>>,
    pub ido_token: Option<Vec<u8>>,
    pub ido_token_price: Option<u128>,
    pub end_date: Option<u64>,
    pub paused: Option<bool>,
    pub snapshot_time: Option<u64>,
    pub minimum_prefund: Option<u128>,
}

pub open spec fn or_keep<T>(new: Option<T>, old: T) -> T {
    match new {
        Some(v) => v,
        None => old,
    }
}

/// The update decision: only the owner may update; a new end date and a
/// new snapshot time must both lie after `now`.
pub open spec fn update_spec(c: Config, caller: Seq<u8>, now: u64, u: ConfigUpdate) -> Result<Config, ContractError> {
    if caller != c.owner@ {
        Err(ContractError::Unauthorized)
    } else if u.end_date matches Some(e) && e <= now {
        Err(ContractError::EndDateInThePast)
    } else if u.snapshot_time matches Some(t) && t <= now {
        Err(ContractError::SnapshotTimeFromPast)
    } else {
        Ok(
            Config {
                owner: c.owner,
                pending_owner: match u.owner {
                    Some(o) => Some(o),
                    None => c.pending_owner,
                },
                prefund_address: or_keep(u.prefund_address, c.prefund_address),
                kyc_terms_vault_address: or_keep(u.kyc_terms_vault_address, c.kyc_terms_vault_address),
                ido_token: or_keep(u.ido_token, c.ido_token),
                ido_token_price: or_keep(u.ido_token_price, c.ido_token_price),
                end_date: or_keep(u.end_date, c.end_date),
                paused: or_keep(u.paused, c.paused),
                snapshot_time: match u.snapshot_time {
                    Some(t) => Some(t),
                    None => c.snapshot_time,
                },
                minimum_prefund: or_keep(u.minimum_prefund, c.minimum_prefund),
            },
        )
    }
}

/// The owner updates the configuration; a given `owner` becomes the
/// proposed owner.
pub fn update_config(config: Config, caller: &[u8], now: u64, update: ConfigUpdate) -> (r: Result<
    Config,
    ContractError,
>)
    ensures
        r == update_spec(config, caller@, now, update),
{
    if !bytes_eq(config.owner.as_slice(), caller) {
        return Err(ContractError::Unauthorized);
    }
    match update.end_date {
        Some(e) => if e <= now {
            return Err(ContractError::EndDateInThePast);
        },
        None => {},
    }
    match update.snapshot_time {
        Some(t) => if t <= now {
            return Err(ContractError::SnapshotTimeFromPast);
        },
        None => {},
    }
    let ghost u = update;
    let ghost c0 = config;
    let ConfigUpdate {
        owner,
        prefund_address,
        kyc_terms_vault_address,
        ido_token,
        ido_token_price,
        end_date,
        paused,
        snapshot_time,
        minimum_prefund,
    } = update;
    let mut c = config;
    if let Some(o) = owner {
        c.pending_owner = Some(o);
    }
    if let Some(v) = prefund_address {
        c.prefund_address = v;
    }
    if let Some(v) = kyc_terms_vault_address {
        c.kyc_terms_vault_address = v;
    }
    if let Some(v) = ido_token {
        c.ido_token = v;
    }
    if let Some(v) = ido_token_price {
        c.ido_token_price = v;
    }
    if let Some(v) = end_date {
        c.end_date = v;
    }
    if let Some(v) = paused {
        c.paused = v;
    }
    if let Some(v) = minimum_prefund {
        c.minimum_prefund = v;
    }
    if let Some(v) = snapshot_time {
        c.snapshot_time = Some(v);
    }
    proof {
        assert(update_spec(c0, caller@, now, u) == Ok::<Config, ContractError>(c));
    }
    Ok(c)
}

/// A new offering, refused when its end date is not after `now`.
pub fn instantiate(
    now: u64,
    owner: Vec<u8>,
    prefund_address: Vec<u8>,
    kyc_terms_vault_address: Vec<u8>,
    ido_token: Vec<u8>,
    ido_token_price: u128,
    end_date: u64,
    paused: bool,
    minimum_prefund: u128,
) -> (r: Result<(Config, State), ContractError>)
    ensures
        end_date <= now ==> r == Err::<(Config, State), ContractError>(ContractError::EndDateInThePast),
        end_date > now ==> r == Ok::<(Config, State), ContractError>(
            (
                Config {
                    owner,
                    pending_owner: None,
                    prefund_address,
                    kyc_terms_vault_address,
                    ido_token,
                    ido_token_price,
                    end_date,
                    paused,
                    snapshot_time: None,
                    minimum_prefund,
                },
                State { number_of_participants: 0 },
            ),
        ),
{
    if end_date <= now {
        return Err(ContractError::EndDateInThePast);
    }
    Ok(
        (
            Config {
                owner,
                pending_owner: None,
                prefund_address,
                kyc_terms_vault_address,
                ido_token,
                ido_token_price,
                end_date,
                paused,
                snapshot_time: None,
                minimum_prefund,
            },
            State { number_of_participants: 0 },
        ),
    )
}

/// The status at `block_time`, or at `now` without one: closed once the
/// end date lies before that time.
pub fn query_ido_status(config: &Config, now: u64, block_time: Option<u64>) -> (r: StatusResponse)
    ensures
        r.is_closed == (config.end_date < or_keep(block_time, now)),
        r.is_paused == config.paused,
        r.snapshot_time == config.snapshot_time,
{
    let t = match block_time {
        Some(t) => t,
        None => now,
    };
    StatusResponse { is_closed: config.end_date < t, is_paused: config.paused, snapshot_time: config.snapshot_time }
}

/// The `SnapshotTime` answer.
pub fn query_snapshot_time(config: &Config) -> (r: Option<u64>)
    ensures
        r == config.snapshot_time,
{
    config.snapshot_time
}

/// The `State` answer.
pub fn query_ido_state(state: &State) -> (r: StateResponse)
    ensures
        r.number_of_participants == state.number_of_participants,
{
    StateResponse { number_of_participants: state.number_of_participants }
}

/// A participant's record; an absent one reads as not joined.
pub fn query_participant(record: Option<ParticipantResponse>) -> (r: ParticipantResponse)
    ensures
        r.is_joined == (record matches Some(p) && p.is_joined),
{
    match record {
        Some(p) => p,
        None => ParticipantResponse { is_joined: false },
    }
}

} // verus!
