//! Items shared by the contracts: scan direction, native coins attached to a
//! call, and the fee check made before a claim.
use vstd::prelude::*;
use vstd::string::*;
use crate::errors::ContractError;

verus! {

/// Direction of a paginated scan.
#[derive(Clone, Copy, Debug, PartialEq, Eq, Structural)]
pub enum OrderBy {
    Asc,
    Desc,
}

/// An amount of a native denomination attached to a call.
#[derive(Clone, Debug, PartialEq, Eq)]
pub struct Coin {
    pub denom: String,
    pub amount: u128,
}

/// The denomination in which fees are paid.
pub open spec fn native_denom() -> Seq<char> {
    seq!['u', 'u', 's', 'd']
}

/// The amount of the first attached coin in the fee denomination, if any.
pub open spec fn first_native(funds: Seq<Coin>) -> Option<u128>
    decreases funds.len(),
{
    if funds.len() == 0 {
        None
    } else if funds[0].denom@ == native_denom() {
        Some(funds[0].amount)
    } else {
        first_native(funds.drop_first())
    }
}

/// Whether the attached funds pay `fee`: a zero fee is paid by nothing.
pub open spec fn fee_paid(funds: Seq<Coin>, fee: u128) -> bool {
    match first_native(funds) {
        Some(a) => fee <= a,
        None => fee == 0,
    }
}

/// The name of the fee denomination.
pub fn fee_denom() -> (r: String)
    ensures
        r@ == native_denom(),
{
    let denom = String::from_str("uusd");
    proof {
        reveal_strlit("uusd");
        assert(denom@ =~= native_denom());
    }
    denom
}

/// The coin of `funds` in the fee denomination, searched in order.
pub fn find_native(funds: &Vec<Coin>) -> (r: Option<u128>)
    ensures
        r == first_native(funds@),
{
    let denom = fee_denom();
    proof {
        assert(funds@.subrange(0, funds.len() as int) =~= funds@);
    }
    let mut i: usize = 0;
    while i < funds.len()
        invariant
            i <= funds.len(),
            denom@ == native_denom(),
            first_native(funds@) == first_native(funds@.subrange(i as int, funds.len() as int)),
        decreases funds.len() - i,
    {
        proof {
            assert(funds@.subrange(i as int, funds.len() as int).drop_first() =~= funds@.subrange(
                i + 1,
                funds.len() as int,
            ));
        }
        if funds[i].denom == denom {
            return Some(funds[i].amount);
        }
        i = i + 1;
    }
    None
}

/// Amount of the fee denomination attached to a call, zero when none is.
pub fn get_sent_native_token_amount(funds: &Vec<Coin>) -> (r: u128)
    ensures
        r == match first_native(funds@) {
            Some(a) => a,
            None => 0,
        },
{
    match find_native(funds) {
        Some(a) => a,
        None => 0,
    }
}

/// Succeeds exactly when the attached funds pay `fee`.
pub fn assert_sent_native_token_balance(funds: &Vec<Coin>, fee: u128) -> (r: Result<(), ContractError>)
    ensures
        r is Ok <==> fee_paid(funds@, fee),
        r is Err ==> r == Err::<(), ContractError>(ContractError::InsufficientFee),
{
    match find_native(funds) {
        Some(a) => if fee <= a {
            Ok(())
        } else {
            Err(ContractError::InsufficientFee)
        },
        None => if fee == 0 {
            Ok(())
        } else {
            Err(ContractError::InsufficientFee)
        },
    }
}

/// An instruction that the host carries out after the message succeeded.
#[derive(Clone, Debug, PartialEq, Eq)]
pub enum Outbound {
    /// Transfer of the engine's token to `recipient`.
    TokenTransfer { recipient: String, amount: u128 },
    /// Burn of the engine's token held by the contract.
    TokenBurn { amount: u128 },
    /// Send of the native fee denomination to `to`.
    NativeSend { to: String, amount: u128 },
}

/// Amounts to transfer and to burn, accumulated over several operations.
#[derive(Clone, Copy, Debug, PartialEq, Eq, Structural)]
pub struct TransferBurn {
    pub transfer: u128,
    pub burn: u128,
}

impl TransferBurn {
    /// Adds `other` to both totals.
    pub fn sum_assign(&mut self, other: TransferBurn)
        requires
            old(self).transfer + other.transfer <= u128::MAX,
            old(self).burn + other.burn <= u128::MAX,
        ensures
            final(self).transfer == old(self).transfer + other.transfer,
            final(self).burn == old(self).burn + other.burn,
    {
        self.transfer = self.transfer + other.transfer;
        self.burn = self.burn + other.burn;
    }
}

} // verus!
