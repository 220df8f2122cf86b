//! The Launchpad: derives, funds and initialises new Collection accounts.
use vstd::prelude::*;
use crate::account::{
    derive_sub_account, lower_of, lowercase_bytes, stake_spec, storage_stake, sub_account,
    valid_account, AccountError, MAX_ACCOUNT_LEN, NFT_CONTRACT_STORAGE,
};
use crate::vault::opt_view;

verus! {

#[derive(Debug, Clone, Copy, PartialEq, Eq, Structural)]
pub enum LaunchError {
    /// The split percentage is above 100.
    InvalidSplit,
    /// The attached deposit does not cover the collection's storage stake.
    InsufficientPayment,
    /// The derived collection account breaks the naming grammar.
    InvalidAccountId,
    /// The storage stake does not fit in `u128`.
    ArithmeticOverflow,
}

/// Record of a collection launch, for off-chain indexers.
pub enum Event {
    Launch {
        creator_id: Vec<u8>,
        collection_id: Vec<u8>,
        mint_price: u128,
        name: String,
        symbol: String,
        mint_currency: Option<Vec<u8>>,
    },
}

/// What a successful launch asks the host to do: create `collection_id`,
/// fund it with `stake`, deploy the collection code and call its
/// initialiser with the event's creator as owner and the given terms; then
/// log the event.
pub struct LaunchPlan {
    pub stake: u128,
    pub payment_split_percent: u128,
    pub event: Event,
}

pub struct Contract {}

impl Contract {
    /// Account of the collection launched under `parent` for `symbol`.
    pub open spec fn collection_account(symbol: Seq<char>, parent: Seq<u8>) -> Seq<u8> {
        sub_account(lower_of(symbol), parent)
    }

    /// Launches a collection for `symbol` under the launchpad's own account
    /// `current_id`, owned by `caller`, who attached `attached`. Refused
    /// before anything is scheduled when the split is above 100, the stake
    /// overflows, the deposit falls short of it, or the derived account is
    /// malformed, in that order.
    pub fn launch(
        &self,
        current_id: &Vec<u8>,
        caller: Vec<u8>,
        name: String,
        symbol: String,
        mint_price: u128,
        mint_currency: Option<Vec<u8>>,
        payment_split_percent: u128,
        attached: u128,
        nft_code_len: u128,
    ) -> (r: Result<LaunchPlan, LaunchError>)
        ensures
            ({
                let stake = stake_spec(nft_code_len as int, NFT_CONTRACT_STORAGE as int);
                let id = Self::collection_account(symbol@, current_id@);
                &&& payment_split_percent > 100 ==> r == Err::<LaunchPlan, LaunchError>(LaunchError::InvalidSplit)
                &&& payment_split_percent <= 100 && stake > u128::MAX ==> r == Err::<LaunchPlan, LaunchError>(LaunchError::ArithmeticOverflow)
                &&& payment_split_percent <= 100 && stake <= u128::MAX && attached < stake ==> r == Err::<LaunchPlan, LaunchError>(LaunchError::InsufficientPayment)
                &&& payment_split_percent <= 100 && stake <= u128::MAX && attached >= stake && !valid_account(id) ==> r == Err::<LaunchPlan, LaunchError>(LaunchError::InvalidAccountId)
                &&& payment_split_percent <= 100 && stake <= u128::MAX && attached >= stake && valid_account(id) ==> r is Ok && ({
                    let p = r->Ok_0;
                    &&& p.stake == stake
                    &&& p.payment_split_percent == payment_split_percent
                    &&& match p.event {
                        Event::Launch { creator_id, collection_id, mint_price: price, name: n, symbol: s, mint_currency: c } =>
                            creator_id@ == caller@ && collection_id@ == id && price == mint_price
                            && n@ == name@ && s@ == symbol@ && opt_view(c) == opt_view(mint_currency),
                    }
                })
            }),
    {
        if payment_split_percent > 100 {
            return Err(LaunchError::InvalidSplit);
        }
        let stake = match storage_stake(nft_code_len, NFT_CONTRACT_STORAGE) {
            Some(s) => s,
            None => return Err(LaunchError::ArithmeticOverflow),
        };
        if attached < stake {
            return Err(LaunchError::InsufficientPayment);
        }
        let lower = lowercase_bytes(symbol.as_str());
        if lower.len() > MAX_ACCOUNT_LEN || current_id.len() > MAX_ACCOUNT_LEN {
            return Err(LaunchError::InvalidAccountId);
        }
        let collection_id = match derive_sub_account(&lower, current_id) {
            Ok(a) => a,
            Err(AccountError::InvalidAccountId) => return Err(LaunchError::InvalidAccountId),
        };
        Ok(LaunchPlan {
            stake,
            payment_split_percent,
            event: Event::Launch { creator_id: caller, collection_id, mint_price, name, symbol, mint_currency },
        })
    }
}

} // verus!
