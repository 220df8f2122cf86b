//! Account identifiers, sub-account derivation and storage-stake arithmetic.
use vstd::prelude::*;

verus! {

/// Price in yoctoNEAR of one byte of stored state.
pub const NEAR_PER_STORAGE: u128 = 10_000_000_000_000_000_000;

/// Fixed reserve attached when deploying a Collection contract.
pub const NFT_CONTRACT_STORAGE: u128 = 20_000_000_000_000_000_000_000;

/// Fixed reserve attached when deploying a Vault contract.
pub const VAULT_STORAGE: u128 = 20_000_000_000_000_000_000_000;

/// Minimum storage deposit accepted by a Collection.
pub const STORAGE_PER_SALE: u128 = 10_000_000_000_000_000_000_000;

pub const MIN_ACCOUNT_LEN: usize = 2;

pub const MAX_ACCOUNT_LEN: usize = 64;

pub open spec fn is_separator(b: u8) -> bool {
    b == 45u8 || b == 46u8 || b == 95u8
}

pub open spec fn is_lower_alnum(b: u8) -> bool {
    (48u8 <= b && b <= 57u8) || (97u8 <= b && b <= 122u8)
}

/// The account-naming grammar: 2 to 64 bytes of lower-case letters, digits
/// and the separators `-`, `_`, `.`; separators never lead, trail or touch.
pub open spec fn valid_account(s: Seq<u8>) -> bool {
    &&& MIN_ACCOUNT_LEN <= s.len() <= MAX_ACCOUNT_LEN
    &&& forall|i: int| 0 <= i < s.len() ==> is_lower_alnum(#[trigger] s[i]) || is_separator(s[i])
    &&& !is_separator(s[0])
    &&& !is_separator(s[s.len() - 1])
    &&& forall|i: int| 0 <= i < s.len() - 1 ==> !(is_separator(#[trigger] s[i]) && is_separator(s[i + 1]))
}

/// UTF-8 bytes of the lower-case form of `s`.
pub uninterp spec fn lower_of(s: Seq<char>) -> Seq<u8>;

/// `"<discriminator>.<parent>"`.
pub open spec fn sub_account(discriminator: Seq<u8>, parent: Seq<u8>) -> Seq<u8> {
    discriminator + seq![46u8] + parent
}

/// `len * NEAR_PER_STORAGE + overhead`, as a mathematical integer.
pub open spec fn stake_spec(len: int, overhead: int) -> int {
    len * NEAR_PER_STORAGE + overhead
}

#[derive(Debug, Clone, Copy, PartialEq, Eq, Structural)]
pub enum AccountError {
    /// The identifier breaks the account-naming grammar.
    InvalidAccountId,
}

/// Byte-wise equality of two identifiers.
pub fn same_bytes(a: &Vec<u8>, b: &Vec<u8>) -> (r: bool)
    ensures
        r == (a@ == b@),
{
    if a.len() != b.len() {
        return false;
    }
    let mut i: usize = 0;
    while i < a.len()
        invariant
            a@.len() == b@.len(),
            0 <= i <= a@.len(),
            forall|j: int| 0 <= j < i ==> a@[j] == b@[j],
        decreases a@.len() - i,
    {
        if a[i] != b[i] {
            return false;
        }
        i = i + 1;
    }
    assert(a@ =~= b@);
    true
}

/// Relies on near_sdk's `AccountId::validate` (near-account-id): it accepts
/// exactly the identifiers of the naming grammar, byte length included;
/// bytes that are not UTF-8 hold a byte outside the grammar anyway.
#[verifier::external_body]
pub(crate) fn account_id_is_valid(s: &Vec<u8>) -> (r: bool)
    ensures
        r == valid_account(s@),
{
    match std::str::from_utf8(s) {
        Ok(text) => near_sdk::AccountId::validate(text).is_ok(),
        Err(_) => false,
    }
}

/// Relies on `str::to_lowercase`: its result depends on the characters of
/// `s` alone; the wrapper hands back that result's UTF-8 bytes.
#[verifier::external_body]
pub(crate) fn lowercase_bytes(s: &str) -> (r: Vec<u8>)
    ensures
        r@ == lower_of(s@),
{
    s.to_lowercase().into_bytes()
}

/// Derives `"<discriminator>.<parent>"` and checks it against the grammar
/// before any account creation is attempted.
pub fn derive_sub_account(discriminator: &Vec<u8>, parent: &Vec<u8>) -> (r: Result<Vec<u8>, AccountError>)
    requires
        discriminator@.len() + parent@.len() + 1 <= usize::MAX,
    ensures
        valid_account(sub_account(discriminator@, parent@)) ==> r == Ok::<Vec<u8>, AccountError>(r->Ok_0) && r->Ok_0@ == sub_account(discriminator@, parent@),
        !valid_account(sub_account(discriminator@, parent@)) ==> r == Err::<Vec<u8>, AccountError>(AccountError::InvalidAccountId),
{
    let id = join_sub_account(discriminator, parent);
    if account_id_is_valid(&id) {
        Ok(id)
    } else {
        Err(AccountError::InvalidAccountId)
    }
}

/// `"<discriminator>.<parent>"`, without grammar check.
pub fn join_sub_account(discriminator: &Vec<u8>, parent: &Vec<u8>) -> (r: Vec<u8>)
    ensures
        r@ == sub_account(discriminator@, parent@),
{
    let mut r: Vec<u8> = Vec::new();
    let mut i: usize = 0;
    while i < discriminator.len()
        invariant
            0 <= i <= discriminator@.len(),
            r@ =~= discriminator@.subrange(0, i as int),
        decreases discriminator@.len() - i,
    {
        r.push(discriminator[i]);
        i = i + 1;
    }
    r.push(46u8);
    let mut j: usize = 0;
    while j < parent.len()
        invariant
            0 <= j <= parent@.len(),
            r@ =~= discriminator@ + seq![46u8] + parent@.subrange(0, j as int),
        decreases parent@.len() - j,
    {
        r.push(parent[j]);
        j = j + 1;
    }
    r
}

/// Minimum balance for an account holding `len` bytes of code plus a fixed
/// `overhead`; `None` only when that amount exceeds `u128`.
pub fn storage_stake(len: u128, overhead: u128) -> (r: Option<u128>)
    ensures
        stake_spec(len as int, overhead as int) <= u128::MAX ==> r == Some(stake_spec(len as int, overhead as int) as u128),
        stake_spec(len as int, overhead as int) > u128::MAX ==> r is None,
{
    match len.checked_mul(NEAR_PER_STORAGE) {
        Some(bytes) => bytes.checked_add(overhead),
        None => {
            assert(len * NEAR_PER_STORAGE + overhead > u128::MAX) by (nonlinear_arith)
                requires len * NEAR_PER_STORAGE > u128::MAX, overhead >= 0;
            None
        },
    }
}

} // verus!
