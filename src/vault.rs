//! Per-token escrow: holds one pending balance until its creator releases it.
use vstd::prelude::*;
use crate::account::same_bytes;

verus! {

#[derive(Debug, Clone, Copy, PartialEq, Eq, Structural)]
pub enum VaultError {
    /// `withdraw` was called by an account other than the creating Collection.
    Unauthorized,
    /// Fungible tokens arrived from a contract other than the vault's
    /// currency, or at a vault that holds native currency.
    WrongToken,
    /// A transfer notification came directly from a transaction signer.
    NotCrossContract,
}

/// An outgoing transfer the caller must perform.
#[derive(Debug)]
pub enum Transfer {
    /// Native transfer of `amount` to `receiver`.
    Native { receiver: Vec<u8>, amount: u128 },
    /// `ft_transfer` of `amount` to `receiver` on `token`, followed by a
    /// `storage_withdraw` on the same token contract.
    Fungible { token: Vec<u8>, receiver: Vec<u8>, amount: u128 },
}

impl Transfer {
    pub open spec fn amount_spec(&self) -> u128 {
        match self {
            Transfer::Native { amount, .. } => *amount,
            Transfer::Fungible { amount, .. } => *amount,
        }
    }

    pub open spec fn receiver_spec(&self) -> Seq<u8> {
        match self {
            Transfer::Native { receiver, .. } => receiver@,
            Transfer::Fungible { receiver, .. } => receiver@,
        }
    }

    /// The token contract of a fungible transfer, `None` for a native one.
    pub open spec fn token_spec(&self) -> Option<Seq<u8>> {
        match self {
            Transfer::Native { .. } => None,
            Transfer::Fungible { token, .. } => Some(token@),
        }
    }
}

pub open spec fn opt_view(o: Option<Vec<u8>>) -> Option<Seq<u8>> {
    match o {
        Some(v) => Some(v@),
        None => None,
    }
}

/// What `withdraw` guarantees when called by `predecessor` for `claimant`
/// on vault `before`, leaving `after` and returning `r`.
pub open spec fn withdraw_post(before: Contract, after: Contract, predecessor: Seq<u8>, claimant: Seq<u8>, r: Result<Transfer, VaultError>) -> bool {
    &&& after.owner_contract == before.owner_contract
    &&& after.ft_contract == before.ft_contract
    &&& predecessor != before.owner_contract@ ==> r == Err::<Transfer, VaultError>(VaultError::Unauthorized) && after.amount == before.amount
    &&& predecessor == before.owner_contract@ ==> r is Ok && after.amount == 0
        && r->Ok_0.amount_spec() == before.amount
        && r->Ok_0.receiver_spec() == claimant
        && r->Ok_0.token_spec() == opt_view(before.ft_contract)
}

/// Two withdrawals in a row by the owning contract both succeed: the first
/// releases the whole balance and empties the vault, the second releases
/// nothing.
pub proof fn withdraw_twice(
    v0: Contract,
    v1: Contract,
    v2: Contract,
    owner: Seq<u8>,
    first_claimant: Seq<u8>,
    second_claimant: Seq<u8>,
    r1: Result<Transfer, VaultError>,
    r2: Result<Transfer, VaultError>,
)
    requires
        owner == v0.owner_contract@,
        withdraw_post(v0, v1, owner, first_claimant, r1),
        withdraw_post(v1, v2, owner, second_claimant, r2),
    ensures
        r1 is Ok && r1->Ok_0.amount_spec() == v0.amount,
        v1.amount == 0,
        r2 is Ok && r2->Ok_0.amount_spec() == 0,
        v2.amount == 0,
{
}

/// A withdrawal by any account other than the owning contract is refused
/// and leaves the balance as it was.
pub proof fn withdraw_by_stranger_rejected(
    v0: Contract,
    v1: Contract,
    caller: Seq<u8>,
    claimant: Seq<u8>,
    r: Result<Transfer, VaultError>,
)
    requires
        caller != v0.owner_contract@,
        withdraw_post(v0, v1, caller, claimant, r),
    ensures
        r == Err::<Transfer, VaultError>(VaultError::Unauthorized),
        v1.amount == v0.amount,
{
}

pub struct Contract {
    pub owner_contract: Vec<u8>,
    pub ft_contract: Option<Vec<u8>>,
    pub amount: u128,
}

impl Contract {
    /// One-time initialiser: the caller becomes the owning contract and the
    /// balance starts at zero.
    pub fn init(predecessor: Vec<u8>, ft_contract: Option<Vec<u8>>) -> (r: Contract)
        ensures
            r.owner_contract@ == predecessor@,
            opt_view(r.ft_contract) == opt_view(ft_contract),
            r.amount == 0,
    {
        Contract { owner_contract: predecessor, ft_contract, amount: 0 }
    }

    /// Records the attached native deposit as the escrowed balance.
    pub fn deposit_near(&mut self, attached: u128)
        ensures
            final(self).amount == attached,
            final(self).owner_contract == old(self).owner_contract,
            final(self).ft_contract == old(self).ft_contract,
    {
        self.amount = attached;
    }

    /// Fungible-token receiver hook. The notification must come from the
    /// vault's token contract through a cross-contract call, and the
    /// received amount becomes the balance; a native vault takes no tokens.
    /// Returns the unused amount, always zero on success.
    pub fn ft_on_transfer(&mut self, predecessor: &Vec<u8>, signer: &Vec<u8>, amount: u128) -> (r: Result<u128, VaultError>)
        ensures
            final(self).owner_contract == old(self).owner_contract,
            final(self).ft_contract == old(self).ft_contract,
            old(self).ft_contract is None ==> r == Err::<u128, VaultError>(VaultError::WrongToken),
            old(self).ft_contract is Some && predecessor@ != old(self).ft_contract->Some_0@ ==> r == Err::<u128, VaultError>(VaultError::WrongToken),
            old(self).ft_contract is Some && predecessor@ == old(self).ft_contract->Some_0@ && predecessor@ == signer@ ==> r == Err::<u128, VaultError>(VaultError::NotCrossContract),
            old(self).ft_contract is Some && predecessor@ == old(self).ft_contract->Some_0@ && predecessor@ != signer@ ==> r == Ok::<u128, VaultError>(0) && final(self).amount == amount,
            r is Err ==> final(self).amount == old(self).amount,
    {
        match &self.ft_contract {
            None => Err(VaultError::WrongToken),
            Some(token) => {
                if !same_bytes(predecessor, token) {
                    Err(VaultError::WrongToken)
                } else if same_bytes(predecessor, signer) {
                    Err(VaultError::NotCrossContract)
                } else {
                    self.amount = amount;
                    Ok(0)
                }
            },
        }
    }

    /// Releases the whole balance to `claimant` and resets it to zero. Only
    /// the owning contract may call it; a second call releases zero.
    pub fn withdraw(&mut self, predecessor: &Vec<u8>, claimant: Vec<u8>) -> (r: Result<Transfer, VaultError>)
        ensures
            withdraw_post(*old(self), *final(self), predecessor@, claimant@, r),
    {
        if !same_bytes(predecessor, &self.owner_contract) {
            return Err(VaultError::Unauthorized);
        }
        let amount = self.amount;
        let t = match &self.ft_contract {
            Some(token) => Transfer::Fungible { token: token.clone(), receiver: claimant, amount },
            None => Transfer::Native { receiver: claimant, amount },
        };
        self.amount = 0;
        Ok(t)
    }
}

} // verus!
