use nft_launchpad::account::{
    derive_sub_account, storage_stake, AccountError,
    NFT_CONTRACT_STORAGE, STORAGE_PER_SALE, VAULT_STORAGE,
};
use nft_launchpad::collection::{split_payment, CollectionError, Contract as Collection};
use nft_launchpad::launchpad::{Contract as Launchpad, Event, LaunchError};
use nft_launchpad::vault::{Contract as Vault, Transfer, VaultError};

fn b(s: &str) -> Vec<u8> {
    s.as_bytes().to_vec()
}

fn s(t: &str) -> String {
    t.to_string()
}

const CODE_LEN: u128 = 100;
const STAKE: u128 = 100 * 10_000_000_000_000_000_000 + VAULT_STORAGE;

fn native_collection(price: u128, percent: u128, supply: u128) -> Collection {
    Collection::new(b("abc.launchpad.test"), b("creator.test"), price, None, percent, supply, CODE_LEN).unwrap()
}

fn ft_collection(price: u128) -> Collection {
    Collection::new(b("abc.launchpad.test"), b("creator.test"), price, Some(b("usdc.test")), 30, 0, CODE_LEN).unwrap()
}

#[test]
fn derives_collection_and_vault_accounts() {
    let collection = derive_sub_account(&b("abc"), &b("launchpad.test")).unwrap();
    assert_eq!(collection, b("abc.launchpad.test"));
    let vault = derive_sub_account(&b("7"), &collection).unwrap();
    assert_eq!(vault, b("7.abc.launchpad.test"));
}

#[test]
fn launch_derives_lowercase_collection() {
    let lp = Launchpad {};
    let stake = CODE_LEN * 10_000_000_000_000_000_000 + NFT_CONTRACT_STORAGE;
    let plan = lp
        .launch(&b("launchpad.test"), b("alice.test"), s("Alpha"), s("ABC"), 1000, None, 30, stake, CODE_LEN)
        .unwrap();
    assert_eq!(plan.stake, stake);
    assert_eq!(plan.payment_split_percent, 30);
    match plan.event {
        Event::Launch { creator_id, collection_id, mint_price, name, symbol, mint_currency } => {
            assert_eq!(creator_id, b("alice.test"));
            assert_eq!(collection_id, b("abc.launchpad.test"));
            assert_eq!(mint_price, 1000);
            assert_eq!(name, "Alpha");
            assert_eq!(symbol, "ABC");
            assert!(mint_currency.is_none());
        }
    }
}

#[test]
fn launch_lowercases_unicode_symbols() {
    let lp = Launchpad {};
    let stake = CODE_LEN * 10_000_000_000_000_000_000 + NFT_CONTRACT_STORAGE;
    let plan = lp
        .launch(&b("launchpad.test"), b("alice.test"), s("Kelvin"), s("\u{212A}BC"), 1, None, 0, stake, CODE_LEN)
        .unwrap();
    let Event::Launch { collection_id, .. } = plan.event;
    assert_eq!(collection_id, b("kbc.launchpad.test"));
}

#[test]
fn launch_rejects_short_deposit_and_bad_symbol() {
    let lp = Launchpad {};
    let stake = CODE_LEN * 10_000_000_000_000_000_000 + NFT_CONTRACT_STORAGE;
    let r = lp.launch(&b("launchpad.test"), b("alice.test"), s("A"), s("ABC"), 1, None, 0, stake - 1, CODE_LEN);
    assert!(matches!(r, Err(LaunchError::InsufficientPayment)));
    let r = lp.launch(&b("launchpad.test"), b("alice.test"), s("A"), s("A B"), 1, None, 0, stake, CODE_LEN);
    assert!(matches!(r, Err(LaunchError::InvalidAccountId)));
    let r = lp.launch(&b("launchpad.test"), b("alice.test"), s("A"), s("ABC"), 1, None, 101, stake, CODE_LEN);
    assert!(matches!(r, Err(LaunchError::InvalidSplit)));
    let r = lp.launch(&b("launchpad.test"), b("alice.test"), s("A"), s("ABC"), 1, None, 0, u128::MAX, u128::MAX);
    assert!(matches!(r, Err(LaunchError::ArithmeticOverflow)));
}

fn accepted(id: &str) -> bool {
    Collection::new(b(id), b("owner.test"), 0, None, 0, 0, 0).is_ok()
}

#[test]
fn account_grammar() {
    assert!(accepted("abc.launchpad.test"));
    assert!(accepted("a-b_c.d1"));
    assert!(!accepted("a"));
    assert!(!accepted("Abc.test"));
    assert!(!accepted(".abc"));
    assert!(!accepted("abc."));
    assert!(!accepted("a..b"));
    assert!(!accepted("a-_b"));
    assert!(!accepted("caf\u{e9}.test"));
    assert!(!accepted(&"a".repeat(65)));
    assert!(accepted(&"a".repeat(64)));
    assert!(Collection::new(vec![0xff, 0x61], b("owner.test"), 0, None, 0, 0, 0).is_err());
    assert_eq!(derive_sub_account(&b("x y"), &b("test")), Err(AccountError::InvalidAccountId));
    assert_eq!(derive_sub_account(&b("ab"), &b("test")), Ok(b("ab.test")));
}

#[test]
fn storage_stake_formula() {
    assert_eq!(storage_stake(CODE_LEN, VAULT_STORAGE), Some(STAKE));
    assert_eq!(storage_stake(0, 5), Some(5));
    assert_eq!(storage_stake(u128::MAX, 0), None);
}

#[test]
fn split_of_thousand_at_thirty_percent() {
    assert_eq!(split_payment(1000, 30), Some((300, 700)));
    assert_eq!(split_payment(999, 33), Some((329, 670)));
    assert_eq!(split_payment(u128::MAX, 2), None);
}

#[test]
fn split_always_sums_to_price() {
    for percent in 0u8..=100 {
        for price in [0u128, 1, 7, 99, 100, 101, 1000, 123_456_789, u128::MAX / 100] {
            let (v, o) = split_payment(price, percent).unwrap();
            assert_eq!(v + o, price);
            assert_eq!(v, price * percent as u128 / 100);
        }
    }
}

#[test]
fn native_mint_increments_index_and_plans_payments() {
    let mut c = native_collection(1000, 30, 0);
    for i in 0..3u128 {
        let id = format!("{}", i + 7);
        let plan = c.nft_mint(&b("buyer.test"), 1000 + STAKE, b(&id), b("buyer.test")).unwrap();
        assert_eq!(c.index(), i + 1);
        assert_eq!(plan.vault_account, b(&format!("{}.abc.launchpad.test", i + 7)));
        assert_eq!(plan.vault_stake, STAKE);
        assert_eq!(plan.vault_amount, 300);
        assert_eq!(plan.owner_amount, 700);
        assert_eq!(plan.owner, b("creator.test"));
        assert!(plan.currency.is_none());
        assert_eq!(plan.token.token_id, b(&id));
        assert_eq!(plan.token.owner_id, b("buyer.test"));
    }
    assert_eq!(c.tokens.len(), 3);
}

#[test]
fn mint_beyond_supply_is_rejected() {
    let mut c = native_collection(10, 50, 1);
    assert!(c.nft_mint(&b("buyer.test"), 10 + STAKE, b("1"), b("buyer.test")).is_ok());
    let r = c.nft_mint(&b("buyer.test"), 10 + STAKE, b("2"), b("buyer.test"));
    assert!(matches!(r, Err(CollectionError::SupplyExceeded)));
    assert_eq!(c.index(), 1);
    assert_eq!(c.total_supply(), 1);
    assert_eq!(c.tokens.len(), 1);
}

#[test]
fn native_underpayment_is_rejected() {
    let mut c = native_collection(1000, 30, 0);
    let r = c.nft_mint(&b("buyer.test"), 999 + STAKE, b("7"), b("buyer.test"));
    assert!(matches!(r, Err(CollectionError::InsufficientPayment)));
    assert_eq!(c.index(), 0);
    assert_eq!(c.tokens.len(), 0);
    assert!(c.nft_mint(&b("buyer.test"), 1000 + STAKE, b("7"), b("buyer.test")).is_ok());
}

#[test]
fn ft_mint_requires_deposit_and_consumes_it() {
    let mut c = ft_collection(500);
    let r = c.nft_mint(&b("buyer.test"), u128::MAX, b("7"), b("buyer.test"));
    assert!(matches!(r, Err(CollectionError::InsufficientPayment)));
    assert_eq!(c.ft_on_transfer(&b("usdc.test"), &b("buyer.test"), &b("buyer.test"), 600), Ok(0));
    assert_eq!(c.ft_deposits_of(&b("buyer.test")), 600);
    let r = c.nft_mint(&b("buyer.test"), STAKE - 1, b("7"), b("buyer.test"));
    assert!(matches!(r, Err(CollectionError::InsufficientPayment)));
    let plan = c.nft_mint(&b("buyer.test"), STAKE, b("7"), b("buyer.test")).unwrap();
    assert_eq!(plan.vault_amount, 150);
    assert_eq!(plan.owner_amount, 350);
    assert_eq!(plan.currency, Some(b("usdc.test")));
    assert_eq!(c.ft_deposits_of(&b("buyer.test")), 100);
    let r = c.nft_mint(&b("buyer.test"), STAKE, b("8"), b("buyer.test"));
    assert!(matches!(r, Err(CollectionError::InsufficientPayment)));
}

#[test]
fn ft_on_transfer_checks_its_sources() {
    let mut c = ft_collection(500);
    assert_eq!(c.ft_on_transfer(&b("other.test"), &b("buyer.test"), &b("buyer.test"), 5), Err(CollectionError::WrongToken));
    assert_eq!(c.ft_on_transfer(&b("usdc.test"), &b("usdc.test"), &b("usdc.test"), 5), Err(CollectionError::NotCrossContract));
    assert_eq!(c.ft_on_transfer(&b("usdc.test"), &b("buyer.test"), &b("eve.test"), 5), Err(CollectionError::SenderNotSigner));
    assert_eq!(c.ft_deposits_of(&b("buyer.test")), 0);
    assert_eq!(c.ft_on_transfer(&b("usdc.test"), &b("buyer.test"), &b("buyer.test"), 5), Ok(0));
    assert_eq!(c.ft_on_transfer(&b("usdc.test"), &b("buyer.test"), &b("buyer.test"), 7), Ok(0));
    assert_eq!(c.ft_deposits_of(&b("buyer.test")), 12);
    assert_eq!(
        c.ft_on_transfer(&b("usdc.test"), &b("buyer.test"), &b("buyer.test"), u128::MAX),
        Err(CollectionError::ArithmeticOverflow)
    );
    let mut n = native_collection(1, 1, 0);
    assert_eq!(n.ft_on_transfer(&b("usdc.test"), &b("buyer.test"), &b("buyer.test"), 5), Err(CollectionError::WrongToken));
    assert_eq!(n.ft_deposits_of(&b("buyer.test")), 0);
}

#[test]
fn mint_rejects_bad_or_reused_token_ids() {
    let mut c = native_collection(0, 0, 0);
    let r = c.nft_mint(&b("buyer.test"), STAKE, b("Bad Id"), b("buyer.test"));
    assert!(matches!(r, Err(CollectionError::InvalidAccountId)));
    assert!(c.nft_mint(&b("buyer.test"), STAKE, b("7"), b("buyer.test")).is_ok());
    let r = c.nft_mint(&b("buyer.test"), STAKE, b("7"), b("buyer.test"));
    assert!(matches!(r, Err(CollectionError::DuplicateToken)));
    assert!(c.burn(&b("buyer.test"), &b("7")).is_ok());
    let r = c.nft_mint(&b("buyer.test"), STAKE, b("7"), b("buyer.test"));
    assert!(matches!(r, Err(CollectionError::DuplicateToken)));
    assert_eq!(c.index(), 1);
}

#[test]
fn mint_split_overflow_is_rejected() {
    let mut c = Collection::new(b("abc.test"), b("creator.test"), u128::MAX / 2, Some(b("usdc.test")), 100, 0, 0).unwrap();
    assert_eq!(c.ft_on_transfer(&b("usdc.test"), &b("buyer.test"), &b("buyer.test"), u128::MAX), Ok(0));
    let r = c.nft_mint(&b("buyer.test"), VAULT_STORAGE, b("7"), b("buyer.test"));
    assert!(matches!(r, Err(CollectionError::ArithmeticOverflow)));
    assert_eq!(c.index(), 0);
}

#[test]
fn new_rejects_bad_terms() {
    let r = Collection::new(b("abc.test"), b("creator.test"), 1, None, 101, 0, 0);
    assert!(matches!(r, Err(CollectionError::InvalidSplit)));
    let r = Collection::new(b("ABC"), b("creator.test"), 1, None, 100, 0, 0);
    assert!(matches!(r, Err(CollectionError::InvalidAccountId)));
}

#[test]
fn burn_by_non_owner_is_rejected() {
    let mut c = native_collection(0, 0, 0);
    c.nft_mint(&b("buyer.test"), STAKE, b("7"), b("buyer.test")).unwrap();
    let r = c.burn(&b("eve.test"), &b("7"));
    assert!(matches!(r, Err(CollectionError::NotOwner)));
    let r = c.burn(&b("buyer.test"), &b("8"));
    assert!(matches!(r, Err(CollectionError::NotOwner)));
    assert_eq!(c.tokens.len(), 1);
    assert_eq!(c.tokens[0].token_id, b("7"));
    assert_eq!(c.tokens[0].owner_id, b("buyer.test"));
}

#[test]
fn burn_removes_token_without_waiting_for_vault() {
    let mut c = native_collection(0, 0, 0);
    c.nft_mint(&b("buyer.test"), STAKE, b("7"), b("buyer.test")).unwrap();
    c.nft_mint(&b("other.test"), STAKE, b("8"), b("other.test")).unwrap();
    let plan = c.burn(&b("buyer.test"), &b("7")).unwrap();
    assert_eq!(plan.vault_account, b("7.abc.launchpad.test"));
    assert_eq!(plan.claimant, b("buyer.test"));
    assert_eq!(c.tokens.len(), 1);
    assert_eq!(c.tokens[0].token_id, b("8"));
    assert_eq!(c.index(), 2);
    assert!(matches!(c.burn(&b("buyer.test"), &b("7")), Err(CollectionError::NotOwner)));
}

#[test]
fn storage_deposits_accumulate() {
    let mut c = native_collection(0, 0, 0);
    assert_eq!(c.storage_deposit(b("a.test"), None, STORAGE_PER_SALE - 1), Err(CollectionError::DepositTooSmall));
    assert_eq!(c.storage_balance_of(&b("a.test")), 0);
    assert_eq!(c.storage_deposit(b("a.test"), None, STORAGE_PER_SALE), Ok(()));
    assert_eq!(c.storage_deposit(b("a.test"), Some(b("b.test")), STORAGE_PER_SALE + 1), Ok(()));
    assert_eq!(c.storage_deposit(b("b.test"), None, STORAGE_PER_SALE), Ok(()));
    assert_eq!(c.storage_balance_of(&b("a.test")), STORAGE_PER_SALE);
    assert_eq!(c.storage_balance_of(&b("b.test")), 2 * STORAGE_PER_SALE + 1);
    assert_eq!(c.storage_deposits.entries.len(), 2);
    assert_eq!(c.storage_deposit(b("b.test"), None, u128::MAX), Err(CollectionError::ArithmeticOverflow));
    assert_eq!(c.storage_balance_of(&b("b.test")), 2 * STORAGE_PER_SALE + 1);
}

#[test]
fn vault_withdraw_by_stranger_is_rejected() {
    let mut v = Vault::init(b("abc.test"), None);
    v.deposit_near(300);
    assert!(matches!(v.withdraw(&b("eve.test"), b("eve.test")), Err(VaultError::Unauthorized)));
    assert_eq!(v.amount, 300);
}

#[test]
fn vault_withdraw_twice() {
    let mut v = Vault::init(b("abc.test"), None);
    v.deposit_near(300);
    match v.withdraw(&b("abc.test"), b("buyer.test")).unwrap() {
        Transfer::Native { receiver, amount } => {
            assert_eq!(receiver, b("buyer.test"));
            assert_eq!(amount, 300);
        }
        Transfer::Fungible { .. } => panic!("expected a native transfer"),
    }
    assert_eq!(v.amount, 0);
    match v.withdraw(&b("abc.test"), b("buyer.test")).unwrap() {
        Transfer::Native { amount, .. } => assert_eq!(amount, 0),
        Transfer::Fungible { .. } => panic!("expected a native transfer"),
    }
    assert_eq!(v.amount, 0);
}

#[test]
fn vault_fungible_flow() {
    let mut v = Vault::init(b("abc.test"), Some(b("usdc.test")));
    assert_eq!(v.ft_on_transfer(&b("other.test"), &b("buyer.test"), 5), Err(VaultError::WrongToken));
    assert_eq!(v.ft_on_transfer(&b("usdc.test"), &b("usdc.test"), 5), Err(VaultError::NotCrossContract));
    assert_eq!(v.amount, 0);
    assert_eq!(v.ft_on_transfer(&b("usdc.test"), &b("buyer.test"), 150), Ok(0));
    assert_eq!(v.amount, 150);
    match v.withdraw(&b("abc.test"), b("buyer.test")).unwrap() {
        Transfer::Fungible { token, receiver, amount } => {
            assert_eq!(token, b("usdc.test"));
            assert_eq!(receiver, b("buyer.test"));
            assert_eq!(amount, 150);
        }
        Transfer::Native { .. } => panic!("expected a fungible transfer"),
    }
    assert_eq!(v.amount, 0);
    let mut n = Vault::init(b("abc.test"), None);
    assert_eq!(n.ft_on_transfer(&b("usdc.test"), &b("buyer.test"), 5), Err(VaultError::WrongToken));
    assert_eq!(n.amount, 0);
}

#[test]
fn transfer_moves_ownership() {
    let mut c = native_collection(0, 0, 0);
    c.nft_mint(&b("buyer.test"), STAKE, b("7"), b("buyer.test")).unwrap();
    c.nft_mint(&b("buyer.test"), STAKE, b("8"), b("buyer.test")).unwrap();
    assert_eq!(c.nft_total_supply(), 2);
    assert_eq!(c.nft_token(&b("7")), Some(b("buyer.test")));
    assert_eq!(c.nft_token(&b("9")), None);
    assert_eq!(c.nft_transfer(&b("eve.test"), b("eve.test"), &b("7")), Err(CollectionError::NotOwner));
    assert_eq!(c.nft_transfer(&b("buyer.test"), b("bob.test"), &b("9")), Err(CollectionError::NotOwner));
    assert_eq!(c.nft_token(&b("7")), Some(b("buyer.test")));
    assert_eq!(c.nft_transfer(&b("buyer.test"), b("bob.test"), &b("7")), Ok(()));
    assert_eq!(c.nft_token(&b("7")), Some(b("bob.test")));
    assert_eq!(c.nft_token(&b("8")), Some(b("buyer.test")));
    assert_eq!(c.nft_total_supply(), 2);
    assert!(matches!(c.burn(&b("buyer.test"), &b("7")), Err(CollectionError::NotOwner)));
    assert!(c.burn(&b("bob.test"), &b("7")).is_ok());
    assert_eq!(c.nft_total_supply(), 1);
    assert_eq!(c.nft_token(&b("7")), None);
}
