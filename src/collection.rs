//! The NFT Collection: mint counter, supply cap, price split, deposit
//! ledgers and the owned-token ledger.
use vstd::prelude::*;
use crate::account::{
    derive_sub_account, join_sub_account, same_bytes, stake_spec, storage_stake, sub_account,
    valid_account, AccountError, MAX_ACCOUNT_LEN, STORAGE_PER_SALE, VAULT_STORAGE,
};
use crate::ledger::Ledger;
use crate::vault::opt_view;

verus! {

#[derive(Debug, Clone, Copy, PartialEq, Eq, Structural)]
pub enum CollectionError {
    /// The split percentage given at initialisation is above 100.
    InvalidSplit,
    /// A derived or given account identifier breaks the naming grammar.
    InvalidAccountId,
    /// The mint would exceed a nonzero supply cap.
    SupplyExceeded,
    /// The attached deposit or the pre-deposited token balance is too small.
    InsufficientPayment,
    /// A checked integer operation would overflow.
    ArithmeticOverflow,
    /// The token id is, or once was, in use.
    DuplicateToken,
    /// The caller does not own the token.
    NotOwner,
    /// A storage deposit is below the minimum.
    DepositTooSmall,
    /// Fungible tokens arrived from a contract other than the mint currency.
    WrongToken,
    /// A transfer notification came directly from a transaction signer.
    NotCrossContract,
    /// The nominal sender of a token transfer is not the transaction signer.
    SenderNotSigner,
}

/// A token in the owned-token ledger.
pub struct Token {
    pub token_id: Vec<u8>,
    pub owner_id: Vec<u8>,
}

pub open spec fn token_view(t: Token) -> (Seq<u8>, Seq<u8>) {
    (t.token_id@, t.owner_id@)
}

/// Whether `s` records `owner` as the owner of token `id`.
pub open spec fn owns(s: Seq<Token>, id: Seq<u8>, owner: Seq<u8>) -> bool {
    exists|i: int| 0 <= i < s.len() && #[trigger] token_view(s[i]) == (id, owner)
}

/// Whether token `id` appears anywhere in `s`.
pub open spec fn has_token(s: Seq<Token>, id: Seq<u8>) -> bool {
    exists|i: int| 0 <= i < s.len() && (#[trigger] s[i]).token_id@ == id
}

/// The ledger as (id, owner) pairs, in order.
pub open spec fn tokens_view(s: Seq<Token>) -> Seq<(Seq<u8>, Seq<u8>)> {
    s.map_values(|t: Token| token_view(t))
}

/// Keeps the pairs whose id is not `id`.
pub open spec fn keeps(id: Seq<u8>) -> spec_fn((Seq<u8>, Seq<u8>)) -> bool {
    |v: (Seq<u8>, Seq<u8>)| v.0 != id
}

/// No two tokens of `s` share an id.
pub open spec fn unique_ids(s: Seq<Token>) -> bool {
    forall|i: int, j: int| 0 <= i < j < s.len() ==> (#[trigger] s[i]).token_id@ != (#[trigger] s[j]).token_id@
}

/// Whether `id` is among the recorded ids.
pub open spec fn was_minted(ids: Seq<Vec<u8>>, id: Seq<u8>) -> bool {
    exists|i: int| 0 <= i < ids.len() && (#[trigger] ids[i])@ == id
}

/// Share of `price` routed to the vault: `floor(price * percent / 100)`.
pub open spec fn vault_share(price: int, percent: int) -> int {
    (price * percent) / 100
}

/// Share of `price` paid to the collection owner: the rest.
pub open spec fn owner_share(price: int, percent: int) -> int {
    price - vault_share(price, percent)
}

/// Splits `price` into `(vault_amount, owner_amount)`; `None` when
/// `price * percent` overflows `u128`.
pub fn split_payment(price: u128, percent: u8) -> (r: Option<(u128, u128)>)
    requires
        percent <= 100,
    ensures
        price * percent <= u128::MAX ==> r is Some
            && r->Some_0.0 == vault_share(price as int, percent as int)
            && r->Some_0.1 == owner_share(price as int, percent as int),
        price * percent > u128::MAX ==> r is None,
{
    match price.checked_mul(percent as u128) {
        None => None,
        Some(product) => {
            let vault_amount = product / 100;
            assert(vault_amount <= price) by (nonlinear_arith)
                requires product == price * percent, percent <= 100, vault_amount == product / 100;
            Some((vault_amount, price - vault_amount))
        },
    }
}

/// What a successful mint asks the host to do, besides recording the token:
/// create `vault_account` funded with `vault_stake` and deploy the vault,
/// then move `vault_amount` into it and `owner_amount` to `owner`, natively
/// or on the token contract `currency`.
pub struct MintPlan {
    pub token: Token,
    pub vault_account: Vec<u8>,
    pub vault_stake: u128,
    pub vault_amount: u128,
    pub owner: Vec<u8>,
    pub owner_amount: u128,
    pub currency: Option<Vec<u8>>,
}

/// What a successful burn asks the host to do: call `withdraw` on
/// `vault_account` for `claimant`, without waiting on the outcome.
pub struct BurnPlan {
    pub vault_account: Vec<u8>,
    pub claimant: Vec<u8>,
}

pub struct Contract {
    /// The collection's own account.
    pub account_id: Vec<u8>,
    pub owner_id: Vec<u8>,
    pub index: u128,
    pub total_supply: u128,
    pub mint_price: u128,
    pub mint_currency: Option<Vec<u8>>,
    pub payment_split_percent: u8,
    /// Size in bytes of the vault code deployed on each mint.
    pub vault_code_len: u128,
    pub storage_deposits: Ledger,
    pub ft_deposits: Ledger,
    pub tokens: Vec<Token>,
    /// Every token id ever minted, burned ones included.
    pub minted_ids: Vec<Vec<u8>>,
}

fn contains_id(ids: &Vec<Vec<u8>>, id: &Vec<u8>) -> (r: bool)
    ensures
        r == was_minted(ids@, id@),
{
    let mut i: usize = 0;
    while i < ids.len()
        invariant
            0 <= i <= ids@.len(),
            forall|j: int| 0 <= j < i ==> (#[trigger] ids@[j])@ != id@,
        decreases ids@.len() - i,
    {
        if same_bytes(&ids[i], id) {
            return true;
        }
        i = i + 1;
    }
    false
}

fn find_token(tokens: &Vec<Token>, id: &Vec<u8>) -> (r: Option<usize>)
    ensures
        r is Some ==> r->Some_0 < tokens@.len() && tokens@[r->Some_0 as int].token_id@ == id@,
        r is None ==> !has_token(tokens@, id@),
{
    let mut i: usize = 0;
    while i < tokens.len()
        invariant
            0 <= i <= tokens@.len(),
            forall|j: int| 0 <= j < i ==> (#[trigger] tokens@[j]).token_id@ != id@,
        decreases tokens@.len() - i,
    {
        if same_bytes(&tokens[i].token_id, id) {
            return Some(i);
        }
        i = i + 1;
    }
    None
}

fn owns_token(tokens: &Vec<Token>, id: &Vec<u8>, owner: &Vec<u8>) -> (r: bool)
    ensures
        r == owns(tokens@, id@, owner@),
{
    let mut i: usize = 0;
    while i < tokens.len()
        invariant
            0 <= i <= tokens@.len(),
            forall|j: int| 0 <= j < i ==> #[trigger] token_view(tokens@[j]) != (id@, owner@),
        decreases tokens@.len() - i,
    {
        if same_bytes(&tokens[i].token_id, id) && same_bytes(&tokens[i].owner_id, owner) {
            assert(token_view(tokens@[i as int]) == (id@, owner@));
            return true;
        }
        i = i + 1;
    }
    false
}

pub open spec fn appears_in(s: Seq<Token>, v: (Seq<u8>, Seq<u8>), n: int) -> bool {
    exists|k: int| 0 <= k < n && #[trigger] token_view(s[k]) == v
}

/// With unique ids, removing a present id shortens the ledger by one.
proof fn lemma_drop_one(s: Seq<Token>, id: Seq<u8>)
    requires
        unique_ids(s),
        has_token(s, id),
    ensures
        tokens_view(s).filter(keeps(id)).len() == s.len() - 1,
    decreases s.len(),
{
    reveal(Seq::filter);
    let t = tokens_view(s);
    assert(t.drop_last() =~= tokens_view(s.drop_last()));
    if s.last().token_id@ == id {
        assert forall|i: int| 0 <= i < s.len() - 1 implies #[trigger] s[i].token_id@ != id by {
            assert(s[i].token_id@ != s[s.len() - 1].token_id@);
        }
        lemma_filter_all(s.drop_last(), id);
    } else {
        let k = choose|k: int| 0 <= k < s.len() && (#[trigger] s[k]).token_id@ == id;
        assert(s.drop_last()[k].token_id@ == id);
        lemma_drop_one(s.drop_last(), id);
    }
}

/// A ledger without the id keeps all of its entries.
proof fn lemma_filter_all(s: Seq<Token>, id: Seq<u8>)
    requires
        forall|i: int| 0 <= i < s.len() ==> #[trigger] s[i].token_id@ != id,
    ensures
        tokens_view(s).filter(keeps(id)).len() == s.len(),
    decreases s.len(),
{
    reveal(Seq::filter);
    if s.len() > 0 {
        let t = tokens_view(s);
        assert(t.drop_last() =~= tokens_view(s.drop_last()));
        lemma_filter_all(s.drop_last(), id);
    }
}

/// The tokens of `tokens` whose id is not `id`, in order.
fn without_token(tokens: &Vec<Token>, id: &Vec<u8>) -> (r: Vec<Token>)
    requires
        unique_ids(tokens@),
    ensures
        tokens_view(r@) == tokens_view(tokens@).filter(keeps(id@)),
        unique_ids(r@),
        forall|j: int| 0 <= j < r@.len() ==> appears_in(tokens@, token_view(#[trigger] r@[j]), tokens@.len() as int),
        !has_token(r@, id@),
        forall|id2: Seq<u8>, o: Seq<u8>| id2 != id@ ==> (owns(r@, id2, o) <==> owns(tokens@, id2, o)),
{
    let mut r: Vec<Token> = Vec::new();
    let mut i: usize = 0;
    while i < tokens.len()
        invariant
            0 <= i <= tokens@.len(),
            forall|j: int| 0 <= j < r@.len() ==> (#[trigger] r@[j]).token_id@ != id@,
            forall|j: int| 0 <= j < r@.len() ==> appears_in(tokens@, token_view(#[trigger] r@[j]), i as int),
            forall|k: int| 0 <= k < i && (#[trigger] tokens@[k]).token_id@ != id@ ==> appears_in(r@, token_view(tokens@[k]), r@.len() as int),
            tokens_view(r@) == tokens_view(tokens@).subrange(0, i as int).filter(keeps(id@)),
            unique_ids(r@),
            unique_ids(tokens@),
        decreases tokens@.len() - i,
    {
        let ghost tv = tokens_view(tokens@);
        proof {
            reveal(Seq::filter);
            assert(tv.subrange(0, i + 1).drop_last() =~= tv.subrange(0, i as int));
            assert(tv.subrange(0, i + 1).last() == tv[i as int]);
        }
        if !same_bytes(&tokens[i].token_id, id) {
            let t = Token { token_id: tokens[i].token_id.clone(), owner_id: tokens[i].owner_id.clone() };
            let ghost before = r@;
            r.push(t);
            assert(token_view(r@[r@.len() - 1]) == token_view(tokens@[i as int]));
            assert(tokens_view(r@) =~= tokens_view(before).push(tv[i as int]));
            assert forall|a: int, c: int| 0 <= a < c < r@.len() implies (#[trigger] r@[a]).token_id@ != (#[trigger] r@[c]).token_id@ by {
                if c == r@.len() - 1 {
                    assert(r@[a] == before[a]);
                    assert(appears_in(tokens@, token_view(before[a]), i as int));
                    let k = choose|k: int| 0 <= k < i && #[trigger] token_view(tokens@[k]) == token_view(before[a]);
                    assert(tokens@[k].token_id@ != tokens@[i as int].token_id@);
                } else {
                    assert(r@[a] == before[a] && r@[c] == before[c]);
                }
            }
            assert forall|k: int| 0 <= k < i && (#[trigger] tokens@[k]).token_id@ != id@ implies appears_in(r@, token_view(tokens@[k]), r@.len() as int) by {
                let j = choose|j: int| 0 <= j < before.len() && #[trigger] token_view(before[j]) == token_view(tokens@[k]);
                assert(token_view(r@[j]) == token_view(tokens@[k]));
            }
            assert(appears_in(tokens@, token_view(r@[r@.len() - 1]), i + 1));
        }
        assert(tokens_view(r@) == tv.subrange(0, i + 1).filter(keeps(id@)));
        assert forall|j: int| 0 <= j < r@.len() implies appears_in(tokens@, token_view(#[trigger] r@[j]), i + 1) by {
            if j < r@.len() - 1 || tokens@[i as int].token_id@ == id@ {
                let k = choose|k: int| 0 <= k < i && #[trigger] token_view(tokens@[k]) == token_view(r@[j]);
            }
        }
        i = i + 1;
    }
    assert(tokens_view(tokens@).subrange(0, tokens@.len() as int) =~= tokens_view(tokens@));
    assert forall|id2: Seq<u8>, o: Seq<u8>| id2 != id@ implies (owns(r@, id2, o) <==> owns(tokens@, id2, o)) by {
        if owns(r@, id2, o) {
            let j = choose|j: int| 0 <= j < r@.len() && #[trigger] token_view(r@[j]) == (id2, o);
            assert(appears_in(tokens@, token_view(r@[j]), tokens@.len() as int));
            let k = choose|k: int| 0 <= k < tokens@.len() && #[trigger] token_view(tokens@[k]) == token_view(r@[j]);
            assert(token_view(tokens@[k]) == (id2, o));
        }
        if owns(tokens@, id2, o) {
            let k = choose|k: int| 0 <= k < tokens@.len() && #[trigger] token_view(tokens@[k]) == (id2, o);
            assert(tokens@[k].token_id@ != id@);
            assert(appears_in(r@, token_view(tokens@[k]), r@.len() as int));
            let j = choose|j: int| 0 <= j < r@.len() && #[trigger] token_view(r@[j]) == token_view(tokens@[k]);
            assert(token_view(r@[j]) == (id2, o));
        }
    }
    r
}

/// The vault and owner shares always add up to the price exactly, the
/// vault's share never exceeding it.
pub proof fn split_is_exact(price: u128, percent: u8)
    requires
        percent <= 100,
    ensures
        vault_share(price as int, percent as int) + owner_share(price as int, percent as int) == price,
        0 <= vault_share(price as int, percent as int) <= price,
{
    assert(0 <= (price * percent) / 100 <= price) by (nonlinear_arith)
        requires percent <= 100, price >= 0;
}

/// Without a supply cap, a mint that meets the payment, arithmetic, naming
/// and uniqueness conditions is never refused, so it raises the counter by
/// exactly one whatever later becomes of the promises it schedules.
pub proof fn unlimited_mint_goes_through(c: Contract, caller: Seq<u8>, attached: u128, token_id: Seq<u8>)
    requires
        c.total_supply == 0,
        c.index < u128::MAX,
        c.vault_stake_spec() <= u128::MAX,
        c.mint_currency is None ==> attached >= c.mint_price + c.vault_stake_spec(),
        c.mint_currency is Some ==> attached >= c.vault_stake_spec() && c.ft_deposits.balance(caller) >= c.mint_price,
        c.mint_price * c.payment_split_percent <= u128::MAX,
        valid_account(sub_account(token_id, c.account_id@)),
        !was_minted(c.minted_ids@, token_id),
    ensures
        c.mint_error(caller, attached, token_id) is None,
{
}

/// Minting past a nonzero supply cap is refused.
pub proof fn mint_beyond_supply_rejected(c: Contract, caller: Seq<u8>, attached: u128, token_id: Seq<u8>)
    requires
        c.total_supply > 0,
        c.index >= c.total_supply,
    ensures
        c.mint_error(caller, attached, token_id) == Some(CollectionError::SupplyExceeded),
{
}

/// In native mode, a deposit below price plus vault stake is refused.
pub proof fn native_underpayment_rejected(c: Contract, caller: Seq<u8>, attached: u128, token_id: Seq<u8>)
    requires
        c.mint_currency is None,
        attached < c.mint_price + c.vault_stake_spec(),
    ensures
        c.mint_error(caller, attached, token_id) is Some,
{
}

/// In fungible-token mode, a pre-deposit below the price is refused
/// whatever native deposit is attached.
pub proof fn ft_underfunded_rejected(c: Contract, caller: Seq<u8>, attached: u128, token_id: Seq<u8>)
    requires
        c.mint_currency is Some,
        c.ft_deposits.balance(caller) < c.mint_price,
    ensures
        c.mint_error(caller, attached, token_id) is Some,
{
}

impl Contract {
    /// The collection's invariant: a split percentage within `[0, 100]`, a
    /// well-formed own account, and ledger ids that are unique and all
    /// recorded as minted.
    pub open spec fn wf(&self) -> bool {
        &&& self.payment_split_percent <= 100
        &&& valid_account(self.account_id@)
        &&& unique_ids(self.tokens@)
        &&& forall|i: int| 0 <= i < self.tokens@.len() ==> was_minted(self.minted_ids@, (#[trigger] self.tokens@[i]).token_id@)
    }

    /// The terms fixed at initialisation are the same in `self` and `other`.
    pub open spec fn same_terms(&self, other: &Contract) -> bool {
        &&& self.account_id == other.account_id
        &&& self.owner_id == other.owner_id
        &&& self.total_supply == other.total_supply
        &&& self.mint_price == other.mint_price
        &&& self.mint_currency == other.mint_currency
        &&& self.payment_split_percent == other.payment_split_percent
        &&& self.vault_code_len == other.vault_code_len
    }

    /// Minimum balance a freshly created vault account must receive.
    pub open spec fn vault_stake_spec(&self) -> int {
        stake_spec(self.vault_code_len as int, VAULT_STORAGE as int)
    }

    /// The reason a mint by `caller` with `attached` native deposit of token
    /// `token_id` is refused, checked in this order; `None` when it goes
    /// through.
    pub open spec fn mint_error(&self, caller: Seq<u8>, attached: u128, token_id: Seq<u8>) -> Option<CollectionError> {
        if self.total_supply > 0 && self.index >= self.total_supply {
            Some(CollectionError::SupplyExceeded)
        } else if self.index == u128::MAX || self.vault_stake_spec() > u128::MAX {
            Some(CollectionError::ArithmeticOverflow)
        } else if self.mint_currency is None && attached < self.mint_price + self.vault_stake_spec() {
            Some(CollectionError::InsufficientPayment)
        } else if self.mint_currency is Some && (attached < self.vault_stake_spec()
            || self.ft_deposits.balance(caller) < self.mint_price) {
            Some(CollectionError::InsufficientPayment)
        } else if self.mint_price * self.payment_split_percent > u128::MAX {
            Some(CollectionError::ArithmeticOverflow)
        } else if !valid_account(sub_account(token_id, self.account_id@)) {
            Some(CollectionError::InvalidAccountId)
        } else if was_minted(self.minted_ids@, token_id) {
            Some(CollectionError::DuplicateToken)
        } else {
            None
        }
    }

    /// Initialises a collection living at `account_id`, owned by `owner_id`.
    pub fn new(
        account_id: Vec<u8>,
        owner_id: Vec<u8>,
        mint_price: u128,
        mint_currency: Option<Vec<u8>>,
        payment_split_percent: u128,
        total_supply: u128,
        vault_code_len: u128,
    ) -> (r: Result<Contract, CollectionError>)
        ensures
            payment_split_percent > 100 ==> r == Err::<Contract, CollectionError>(CollectionError::InvalidSplit),
            payment_split_percent <= 100 && !valid_account(account_id@) ==> r == Err::<Contract, CollectionError>(CollectionError::InvalidAccountId),
            payment_split_percent <= 100 && valid_account(account_id@) ==> r is Ok && ({
                let c = r->Ok_0;
                &&& c.wf()
                &&& c.account_id@ == account_id@
                &&& c.owner_id@ == owner_id@
                &&& c.index == 0
                &&& c.total_supply == total_supply
                &&& c.mint_price == mint_price
                &&& opt_view(c.mint_currency) == opt_view(mint_currency)
                &&& c.payment_split_percent == payment_split_percent
                &&& c.vault_code_len == vault_code_len
                &&& c.tokens@.len() == 0
                &&& c.minted_ids@.len() == 0
                &&& forall|k: Seq<u8>| #[trigger] c.storage_deposits.balance(k) == 0
                &&& forall|k: Seq<u8>| #[trigger] c.ft_deposits.balance(k) == 0
            }),
    {
        if payment_split_percent > 100 {
            return Err(CollectionError::InvalidSplit);
        }
        if !crate::account::account_id_is_valid(&account_id) {
            return Err(CollectionError::InvalidAccountId);
        }
        let storage_deposits = Ledger::new();
        let ft_deposits = Ledger::new();
        Ok(Contract {
            account_id,
            owner_id,
            index: 0,
            total_supply,
            mint_price,
            mint_currency,
            payment_split_percent: payment_split_percent as u8,
            vault_code_len,
            storage_deposits,
            ft_deposits,
            tokens: Vec::new(),
            minted_ids: Vec::new(),
        })
    }
    /// Mints `token_id` for `token_owner_id`, paid by `caller` with
    /// `attached` native deposit. Refused, with nothing changed, exactly when
    /// `mint_error` names a reason. Otherwise the counter grows by one, the
    /// token enters the ledger, and in fungible-token mode the price is taken
    /// out of the caller's pre-deposited balance so one deposit pays for one
    /// mint only.
    pub fn nft_mint(&mut self, caller: &Vec<u8>, attached: u128, token_id: Vec<u8>, token_owner_id: Vec<u8>) -> (r: Result<MintPlan, CollectionError>)
        requires
            old(self).wf(),
        ensures
            final(self).wf(),
            old(self).mint_error(caller@, attached, token_id@) is Some ==> r == Err::<MintPlan, CollectionError>(old(self).mint_error(caller@, attached, token_id@)->Some_0)
                && *final(self) == *old(self),
            old(self).mint_error(caller@, attached, token_id@) is None ==> r is Ok && ({
                let p = r->Ok_0;
                let o = *old(self);
                let f = *final(self);
                &&& f.index == o.index + 1
                &&& f.tokens@.len() == o.tokens@.len() + 1
                &&& f.tokens@.drop_last() == o.tokens@
                &&& token_view(f.tokens@.last()) == token_view(p.token)
                &&& token_view(p.token) == (token_id@, token_owner_id@)
                &&& owns(f.tokens@, token_id@, token_owner_id@)
                &&& f.minted_ids@.len() == o.minted_ids@.len() + 1
                &&& f.minted_ids@.last()@ == token_id@
                &&& f.minted_ids@.drop_last() == o.minted_ids@
                &&& p.vault_account@ == sub_account(token_id@, o.account_id@)
                &&& p.vault_stake == o.vault_stake_spec()
                &&& p.vault_amount == vault_share(o.mint_price as int, o.payment_split_percent as int)
                &&& p.owner_amount == owner_share(o.mint_price as int, o.payment_split_percent as int)
                &&& p.owner@ == o.owner_id@
                &&& opt_view(p.currency) == opt_view(o.mint_currency)
                &&& o.mint_currency is Some ==> f.ft_deposits.balance(caller@) == o.ft_deposits.balance(caller@) - o.mint_price
                &&& forall|k: Seq<u8>| (o.mint_currency is None || k != caller@) ==> #[trigger] f.ft_deposits.balance(k) == o.ft_deposits.balance(k)
                &&& f.storage_deposits == o.storage_deposits
                &&& f.account_id == o.account_id && f.owner_id == o.owner_id
                &&& f.total_supply == o.total_supply && f.mint_price == o.mint_price
                &&& f.mint_currency == o.mint_currency
                &&& f.payment_split_percent == o.payment_split_percent
                &&& f.vault_code_len == o.vault_code_len
            }),
    {
        if self.total_supply > 0 && self.index >= self.total_supply {
            return Err(CollectionError::SupplyExceeded);
        }
        if self.index == u128::MAX {
            return Err(CollectionError::ArithmeticOverflow);
        }
        let stake = match storage_stake(self.vault_code_len, VAULT_STORAGE) {
            Some(s) => s,
            None => return Err(CollectionError::ArithmeticOverflow),
        };
        let deposited = self.ft_deposits.get(caller);
        match &self.mint_currency {
            None => {
                if attached < stake || attached - stake < self.mint_price {
                    return Err(CollectionError::InsufficientPayment);
                }
            },
            Some(_) => {
                if attached < stake || deposited < self.mint_price {
                    return Err(CollectionError::InsufficientPayment);
                }
            },
        }
        let (vault_amount, owner_amount) = match split_payment(self.mint_price, self.payment_split_percent) {
            Some(split) => split,
            None => return Err(CollectionError::ArithmeticOverflow),
        };
        if token_id.len() > MAX_ACCOUNT_LEN {
            return Err(CollectionError::InvalidAccountId);
        }
        let vault_account = match derive_sub_account(&token_id, &self.account_id) {
            Ok(a) => a,
            Err(AccountError::InvalidAccountId) => return Err(CollectionError::InvalidAccountId),
        };
        if contains_id(&self.minted_ids, &token_id) {
            return Err(CollectionError::DuplicateToken);
        }
        self.index = self.index + 1;
        if self.mint_currency.is_some() {
            self.ft_deposits.set(caller.clone(), deposited - self.mint_price);
        }
        self.minted_ids.push(token_id.clone());
        self.tokens.push(Token { token_id: token_id.clone(), owner_id: token_owner_id.clone() });
        let token = Token { token_id, owner_id: token_owner_id };
        let currency = match &self.mint_currency {
            Some(c) => Some(c.clone()),
            None => None,
        };
        let ghost n = self.tokens@.len() - 1;
        assert(token_view(self.tokens@[n]) == token_view(token));
        assert(self.tokens@.drop_last() =~= old(self).tokens@);
        assert(self.minted_ids@.drop_last() =~= old(self).minted_ids@);
        proof {
            let m = self.minted_ids@.len() - 1;
            assert(self.minted_ids@[m]@ == token_id@);
            assert forall|i: int| 0 <= i < self.tokens@.len() implies was_minted(self.minted_ids@, (#[trigger] self.tokens@[i]).token_id@) by {
                if i < n {
                    assert(old(self).tokens@[i] == self.tokens@[i]);
                    let k = choose|k: int| 0 <= k < old(self).minted_ids@.len() && (#[trigger] old(self).minted_ids@[k])@ == old(self).tokens@[i].token_id@;
                    assert(self.minted_ids@[k] == old(self).minted_ids@[k]);
                }
            }
            assert forall|a: int, c: int| 0 <= a < c < self.tokens@.len() implies (#[trigger] self.tokens@[a]).token_id@ != (#[trigger] self.tokens@[c]).token_id@ by {
                if c == n {
                    assert(old(self).tokens@[a] == self.tokens@[a]);
                    assert(was_minted(old(self).minted_ids@, old(self).tokens@[a].token_id@));
                } else {
                    assert(old(self).tokens@[a] == self.tokens@[a]);
                    assert(old(self).tokens@[c] == self.tokens@[c]);
                }
            }
        }
        Ok(MintPlan {
            token,
            vault_account,
            vault_stake: stake,
            vault_amount,
            owner: self.owner_id.clone(),
            owner_amount,
            currency,
        })
    }

    /// Burns `token_id` on behalf of `caller`, its owner: the token leaves
    /// the ledger at once, whatever later becomes of the vault withdrawal
    /// that the returned plan asks for. Refused with nothing changed when
    /// `caller` does not own it.
    pub fn burn(&mut self, caller: &Vec<u8>, token_id: &Vec<u8>) -> (r: Result<BurnPlan, CollectionError>)
        requires
            old(self).wf(),
        ensures
            final(self).wf(),
            !owns(old(self).tokens@, token_id@, caller@) ==> r == Err::<BurnPlan, CollectionError>(CollectionError::NotOwner)
                && *final(self) == *old(self),
            owns(old(self).tokens@, token_id@, caller@) ==> r is Ok
                && r->Ok_0.vault_account@ == sub_account(token_id@, old(self).account_id@)
                && r->Ok_0.claimant@ == caller@
                && tokens_view(final(self).tokens@) == tokens_view(old(self).tokens@).filter(keeps(token_id@))
                && final(self).tokens@.len() == old(self).tokens@.len() - 1
                && !has_token(final(self).tokens@, token_id@)
                && (forall|id2: Seq<u8>, o: Seq<u8>| id2 != token_id@ ==>
                    (owns(final(self).tokens@, id2, o) <==> owns(old(self).tokens@, id2, o)))
                && final(self).index == old(self).index
                && final(self).minted_ids == old(self).minted_ids
                && final(self).storage_deposits == old(self).storage_deposits
                && final(self).ft_deposits == old(self).ft_deposits
                && final(self).account_id == old(self).account_id
                && final(self).owner_id == old(self).owner_id
                && final(self).total_supply == old(self).total_supply
                && final(self).mint_price == old(self).mint_price
                && final(self).mint_currency == old(self).mint_currency
                && final(self).payment_split_percent == old(self).payment_split_percent
                && final(self).vault_code_len == old(self).vault_code_len,
    {
        if !owns_token(&self.tokens, token_id, caller) {
            return Err(CollectionError::NotOwner);
        }
        let ghost before = self.tokens@;
        self.tokens = without_token(&self.tokens, token_id);
        proof {
            assert forall|i: int| 0 <= i < self.tokens@.len() implies was_minted(self.minted_ids@, (#[trigger] self.tokens@[i]).token_id@) by {
                let k = choose|k: int| 0 <= k < before.len() && #[trigger] token_view(before[k]) == token_view(self.tokens@[i]);
                assert(was_minted(self.minted_ids@, before[k].token_id@));
            }
            lemma_drop_one(before, token_id@);
        }
        Ok(BurnPlan { vault_account: join_sub_account(token_id, &self.account_id), claimant: caller.clone() })
    }

    /// Adds `attached` to the storage balance of `account_id`, or of
    /// `caller` when none is named.
    pub fn storage_deposit(&mut self, caller: Vec<u8>, account_id: Option<Vec<u8>>, attached: u128) -> (r: Result<(), CollectionError>)
        ensures
            ({
                let who = match account_id { Some(a) => a@, None => caller@ };
                let before = old(self).storage_deposits.balance(who);
                &&& attached < STORAGE_PER_SALE ==> r == Err::<(), CollectionError>(CollectionError::DepositTooSmall)
                &&& attached >= STORAGE_PER_SALE && before + attached > u128::MAX ==> r == Err::<(), CollectionError>(CollectionError::ArithmeticOverflow)
                &&& r is Err ==> *final(self) == *old(self)
                &&& attached >= STORAGE_PER_SALE && before + attached <= u128::MAX ==> r is Ok
                    && final(self).storage_deposits.balance(who) == before + attached
                    && (forall|k: Seq<u8>| k != who ==> #[trigger] final(self).storage_deposits.balance(k) == old(self).storage_deposits.balance(k))
                    && final(self).ft_deposits == old(self).ft_deposits
                    && final(self).tokens == old(self).tokens
                    && final(self).minted_ids == old(self).minted_ids
                    && final(self).index == old(self).index
                    && final(self).same_terms(old(self))
            }),
    {
        let who = match account_id {
            Some(a) => a,
            None => caller,
        };
        if attached < STORAGE_PER_SALE {
            return Err(CollectionError::DepositTooSmall);
        }
        let before = self.storage_deposits.get(&who);
        match before.checked_add(attached) {
            None => Err(CollectionError::ArithmeticOverflow),
            Some(total) => {
                self.storage_deposits.set(who, total);
                Ok(())
            },
        }
    }

    /// Fungible-token receiver hook for purchase pre-deposits. With a mint
    /// currency set, the notification must come from that token contract
    /// through a cross-contract call whose nominal sender is the signer; the
    /// whole amount is credited to the signer and zero is returned unused.
    /// Without a mint currency no token contract matches, so the transfer is
    /// refused and the tokens go back to the sender.
    pub fn ft_on_transfer(&mut self, predecessor: &Vec<u8>, signer: &Vec<u8>, sender_id: &Vec<u8>, amount: u128) -> (r: Result<u128, CollectionError>)
        ensures
            ({
                let o = *old(self);
                let checked = o.mint_currency is Some;
                let before = o.ft_deposits.balance(signer@);
                &&& !checked ==> r == Err::<u128, CollectionError>(CollectionError::WrongToken)
                &&& checked && predecessor@ != o.mint_currency->Some_0@ ==> r == Err::<u128, CollectionError>(CollectionError::WrongToken)
                &&& checked && predecessor@ == o.mint_currency->Some_0@ && predecessor@ == signer@ ==> r == Err::<u128, CollectionError>(CollectionError::NotCrossContract)
                &&& checked && predecessor@ == o.mint_currency->Some_0@ && predecessor@ != signer@ && sender_id@ != signer@ ==> r == Err::<u128, CollectionError>(CollectionError::SenderNotSigner)
                &&& checked && predecessor@ == o.mint_currency->Some_0@ && predecessor@ != signer@ && sender_id@ == signer@ && before + amount > u128::MAX ==> r == Err::<u128, CollectionError>(CollectionError::ArithmeticOverflow)
                &&& r is Err ==> *final(self) == o
                &&& checked && predecessor@ == o.mint_currency->Some_0@ && predecessor@ != signer@ && sender_id@ == signer@ && before + amount <= u128::MAX ==> r == Ok::<u128, CollectionError>(0)
                    && final(self).ft_deposits.balance(signer@) == before + amount
                    && (forall|k: Seq<u8>| k != signer@ ==> #[trigger] final(self).ft_deposits.balance(k) == o.ft_deposits.balance(k))
                    && final(self).storage_deposits == o.storage_deposits
                    && final(self).tokens == o.tokens
                    && final(self).minted_ids == o.minted_ids
                    && final(self).index == o.index
                    && final(self).same_terms(&o)
            }),
    {
        let accepted = match &self.mint_currency {
            None => false,
            Some(currency) => same_bytes(predecessor, currency),
        };
        if !accepted {
            return Err(CollectionError::WrongToken);
        }
        if same_bytes(predecessor, signer) {
            return Err(CollectionError::NotCrossContract);
        }
        if !same_bytes(sender_id, signer) {
            return Err(CollectionError::SenderNotSigner);
        }
        let before = self.ft_deposits.get(signer);
        match before.checked_add(amount) {
            None => Err(CollectionError::ArithmeticOverflow),
            Some(total) => {
                self.ft_deposits.set(signer.clone(), total);
                Ok(0)
            },
        }
    }

    /// Owner of `token_id`, if it is in the ledger.
    pub fn nft_token(&self, token_id: &Vec<u8>) -> (r: Option<Vec<u8>>)
        requires
            self.wf(),
        ensures
            r is None <==> !has_token(self.tokens@, token_id@),
            r is Some ==> owns(self.tokens@, token_id@, r->Some_0@),
    {
        match find_token(&self.tokens, token_id) {
            Some(i) => {
                assert(token_view(self.tokens@[i as int]) == (token_id@, self.tokens@[i as int].owner_id@));
                Some(self.tokens[i].owner_id.clone())
            },
            None => None,
        }
    }

    /// Number of tokens currently in the ledger.
    pub fn nft_total_supply(&self) -> (r: usize)
        ensures
            r == self.tokens@.len(),
    {
        self.tokens.len()
    }

    /// Moves `token_id` from `caller`, its owner, to `receiver_id`.
    /// Refused with nothing changed when `caller` does not own it.
    pub fn nft_transfer(&mut self, caller: &Vec<u8>, receiver_id: Vec<u8>, token_id: &Vec<u8>) -> (r: Result<(), CollectionError>)
        requires
            old(self).wf(),
        ensures
            final(self).wf(),
            !owns(old(self).tokens@, token_id@, caller@) ==> r == Err::<(), CollectionError>(CollectionError::NotOwner)
                && *final(self) == *old(self),
            owns(old(self).tokens@, token_id@, caller@) ==> r is Ok
                && final(self).tokens@.len() == old(self).tokens@.len()
                && owns(final(self).tokens@, token_id@, receiver_id@)
                && (forall|o: Seq<u8>| owns(final(self).tokens@, token_id@, o) ==> o == receiver_id@)
                && (forall|id2: Seq<u8>, o: Seq<u8>| id2 != token_id@ ==>
                    (owns(final(self).tokens@, id2, o) <==> owns(old(self).tokens@, id2, o)))
                && final(self).index == old(self).index
                && final(self).minted_ids == old(self).minted_ids
                && final(self).storage_deposits == old(self).storage_deposits
                && final(self).ft_deposits == old(self).ft_deposits
                && final(self).same_terms(old(self)),
    {
        let i = match find_token(&self.tokens, token_id) {
            Some(i) => i,
            None => {
                proof {
                    if owns(self.tokens@, token_id@, caller@) {
                        let j = choose|j: int| 0 <= j < self.tokens@.len() && #[trigger] token_view(self.tokens@[j]) == (token_id@, caller@);
                        assert(self.tokens@[j].token_id@ == token_id@);
                    }
                }
                return Err(CollectionError::NotOwner);
            },
        };
        if !same_bytes(&self.tokens[i].owner_id, caller) {
            proof {
                assert(token_view(self.tokens@[i as int]) != (token_id@, caller@));
                assert forall|j: int| 0 <= j < old(self).tokens@.len() implies #[trigger] token_view(old(self).tokens@[j]) != (token_id@, caller@) by {
                    if j != i {
                        assert(old(self).tokens@[j].token_id@ != old(self).tokens@[i as int].token_id@);
                    }
                }
            }
            return Err(CollectionError::NotOwner);
        }
        assert(token_view(self.tokens@[i as int]) == (token_id@, caller@));
        let ghost before = self.tokens@;
        let ghost rv = receiver_id@;
        self.tokens.set(i, Token { token_id: token_id.clone(), owner_id: receiver_id });
        proof {
            let after = self.tokens@;
            assert(token_view(after[i as int]) == (token_id@, rv));
            assert forall|j: int| 0 <= j < after.len() && j != i implies #[trigger] after[j] == before[j] by {}
            assert forall|a: int, c: int| 0 <= a < c < after.len() implies (#[trigger] after[a]).token_id@ != (#[trigger] after[c]).token_id@ by {
                assert(before[a].token_id@ != before[c].token_id@);
                if a != i { assert(after[a] == before[a]); }
                if c != i { assert(after[c] == before[c]); }
            }
            assert forall|j: int| 0 <= j < after.len() implies was_minted(self.minted_ids@, (#[trigger] after[j]).token_id@) by {
                assert(was_minted(self.minted_ids@, before[j].token_id@));
                if j != i { assert(after[j] == before[j]); }
            }
            assert forall|o: Seq<u8>| owns(after, token_id@, o) implies o == rv by {
                let j = choose|j: int| 0 <= j < after.len() && #[trigger] token_view(after[j]) == (token_id@, o);
                if j != i {
                    assert(after[j] == before[j]);
                    assert(before[j].token_id@ != before[i as int].token_id@);
                }
            }
            assert forall|id2: Seq<u8>, o: Seq<u8>| id2 != token_id@ implies (owns(after, id2, o) <==> owns(before, id2, o)) by {
                if owns(after, id2, o) {
                    let j = choose|j: int| 0 <= j < after.len() && #[trigger] token_view(after[j]) == (id2, o);
                    assert(j != i);
                    assert(after[j] == before[j]);
                    assert(token_view(before[j]) == (id2, o));
                }
                if owns(before, id2, o) {
                    let j = choose|j: int| 0 <= j < before.len() && #[trigger] token_view(before[j]) == (id2, o);
                    assert(j != i);
                    assert(after[j] == before[j]);
                    assert(token_view(after[j]) == (id2, o));
                }
            }
        }
        Ok(())
    }

    /// Native balance `account_id` has staked for storage.
    pub fn storage_balance_of(&self, account_id: &Vec<u8>) -> (r: u128)
        ensures
            r == self.storage_deposits.balance(account_id@),
    {
        self.storage_deposits.get(account_id)
    }

    /// Fungible-token balance `account_id` has pre-deposited for minting.
    pub fn ft_deposits_of(&self, account_id: &Vec<u8>) -> (r: u128)
        ensures
            r == self.ft_deposits.balance(account_id@),
    {
        self.ft_deposits.get(account_id)
    }

    /// Number of successful mints so far.
    pub fn index(&self) -> (r: u128)
        ensures
            r == self.index,
    {
        self.index
    }

    /// Supply cap; zero means unlimited.
    pub fn total_supply(&self) -> (r: u128)
        ensures
            r == self.total_supply,
    {
        self.total_supply
    }
}

} // verus!
