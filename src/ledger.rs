//! The custody book: token accounts, assets (mints) and their metadata, with
//! the three moves the protocol relies on. A transfer is authorised by the
//! owner of the source account; a mint by the asset's mint authority.

use vstd::prelude::*;
use crate::address::Address;
use crate::error::ReceiptErrorCode;

verus! {

/// A holding account of one asset.
#[derive(Clone, Copy, Debug)]
pub struct TokenAccount {
    pub address: Address,
    pub mint: Address,
    pub owner: Address,
    pub amount: u64,
}

/// A fungible asset.
#[derive(Clone, Copy, Debug)]
pub struct MintAccount {
    pub address: Address,
    pub decimals: u8,
    pub supply: u64,
    pub mint_authority: Address,
    pub freeze_authority: Option<Address>,
    /// Where the asset's metadata lives, and who may move that pointer.
    pub metadata_pointer: Option<MetadataPointer>,
}

/// The metadata-pointer extension of an asset.
#[derive(Clone, Copy, Debug)]
pub struct MetadataPointer {
    pub authority: Address,
    pub metadata_address: Address,
}

/// Descriptive metadata of a receipt asset.
#[derive(Debug)]
pub struct TokenMetadataArgs {
    pub name: String,
    pub symbol: String,
    pub uri: String,
}

/// Metadata attached to an asset.
#[derive(Debug)]
pub struct AssetMetadata {
    pub mint: Address,
    pub update_authority: Address,
    pub name: String,
    pub symbol: String,
    pub uri: String,
}

pub struct MetadataView {
    pub mint: Seq<u8>,
    pub update_authority: Seq<u8>,
    pub name: Seq<char>,
    pub symbol: Seq<char>,
    pub uri: Seq<char>,
}

impl View for AssetMetadata {
    type V = MetadataView;

    open spec fn view(&self) -> MetadataView {
        MetadataView { mint: self.mint@, update_authority: self.update_authority@, name: self.name@, symbol: self.symbol@, uri: self.uri@ }
    }
}

/// All accounts and assets known to the custody service.
pub struct Ledger {
    pub accounts: Vec<TokenAccount>,
    pub mints: Vec<MintAccount>,
    pub metadata: Vec<AssetMetadata>,
}

pub struct LedgerView {
    pub accounts: Seq<TokenAccount>,
    pub mints: Seq<MintAccount>,
    pub metadata: Seq<MetadataView>,
}

impl View for Ledger {
    type V = LedgerView;

    open spec fn view(&self) -> LedgerView {
        LedgerView {
            accounts: self.accounts@,
            mints: self.mints@,
            metadata: self.metadata@.map_values(|m: AssetMetadata| m@),
        }
    }
}

pub open spec fn credited(acc: TokenAccount, amount: int) -> TokenAccount {
    TokenAccount { amount: (acc.amount + amount) as u64, ..acc }
}

pub open spec fn debited(acc: TokenAccount, amount: int) -> TokenAccount {
    TokenAccount { amount: (acc.amount - amount) as u64, ..acc }
}

pub open spec fn raised(m: MintAccount, amount: int) -> MintAccount {
    MintAccount { supply: (m.supply + amount) as u64, ..m }
}

impl LedgerView {
    pub open spec fn is_account(self, a: Seq<u8>) -> bool {
        exists|i: int| 0 <= i < self.accounts.len() && (#[trigger] self.accounts[i]).address@ == a
    }

    pub open spec fn is_mint(self, a: Seq<u8>) -> bool {
        exists|i: int| 0 <= i < self.mints.len() && (#[trigger] self.mints[i]).address@ == a
    }

    pub open spec fn is_fresh(self, a: Seq<u8>) -> bool {
        !self.is_account(a) && !self.is_mint(a)
    }

    pub open spec fn has_metadata(self, m: Seq<u8>) -> bool {
        exists|i: int| 0 <= i < self.metadata.len() && (#[trigger] self.metadata[i]).mint == m
    }

    pub open spec fn account_index(self, a: Seq<u8>) -> int {
        choose|i: int| 0 <= i < self.accounts.len() && (#[trigger] self.accounts[i]).address@ == a
    }

    pub open spec fn mint_index(self, a: Seq<u8>) -> int {
        choose|i: int| 0 <= i < self.mints.len() && (#[trigger] self.mints[i]).address@ == a
    }

    pub open spec fn account(self, a: Seq<u8>) -> TokenAccount {
        self.accounts[self.account_index(a)]
    }

    pub open spec fn mint(self, a: Seq<u8>) -> MintAccount {
        self.mints[self.mint_index(a)]
    }

    /// The amount held by account `a`.
    pub open spec fn balance(self, a: Seq<u8>) -> int {
        self.account(a).amount as int
    }

    /// The total supply of asset `m`.
    pub open spec fn supply(self, m: Seq<u8>) -> int {
        self.mint(m).supply as int
    }

    /// The book is consistent: addresses are unique, every account holds a
    /// known asset, and each asset's supply is what its accounts hold.
    pub open spec fn wf(self) -> bool {
        &&& self.keys_unique()
        &&& forall|i: int| 0 <= i < self.accounts.len() ==> self.is_mint((#[trigger] self.accounts[i]).mint@)
        &&& forall|k: int| 0 <= k < self.mints.len()
            ==> held(self.accounts, (#[trigger] self.mints[k]).address@) == self.mints[k].supply
    }

    /// Addresses are unique among accounts and assets together.
    pub open spec fn keys_unique(self) -> bool {
        &&& forall|i: int, j: int|
            0 <= i < self.accounts.len() && 0 <= j < self.accounts.len() && i != j
                ==> (#[trigger] self.accounts[i]).address@ != (#[trigger] self.accounts[j]).address@
        &&& forall|i: int, j: int|
            0 <= i < self.mints.len() && 0 <= j < self.mints.len() && i != j
                ==> (#[trigger] self.mints[i]).address@ != (#[trigger] self.mints[j]).address@
        &&& forall|i: int, j: int|
            0 <= i < self.accounts.len() && 0 <= j < self.mints.len()
                ==> (#[trigger] self.accounts[i]).address@ != (#[trigger] self.mints[j]).address@
    }

    /// Why a transfer of `amount` from `from` to `to` signed by `signer` is
    /// refused, if it is.
    pub open spec fn transfer_error(self, from: Seq<u8>, to: Seq<u8>, amount: u64, signer: Seq<u8>) -> Option<ReceiptErrorCode> {
        if !self.is_account(from) || !self.is_account(to) || from == to
            || self.account(from).mint@ != self.account(to).mint@ {
            Some(ReceiptErrorCode::InvalidInput)
        } else if self.account(from).owner@ != signer {
            Some(ReceiptErrorCode::AuthorityMismatch)
        } else if self.account(from).amount < amount {
            Some(ReceiptErrorCode::InsufficientFunds)
        } else if self.account(to).amount + amount > u64::MAX {
            Some(ReceiptErrorCode::InvalidInput)
        } else {
            None
        }
    }

    pub open spec fn transferred(self, from: Seq<u8>, to: Seq<u8>, amount: u64) -> LedgerView {
        LedgerView {
            accounts: self.accounts
                .update(self.account_index(from), debited(self.account(from), amount as int))
                .update(self.account_index(to), credited(self.account(to), amount as int)),
            ..self
        }
    }

    /// Why minting `amount` of asset `mint` to `to` under `authority` is
    /// refused, if it is.
    pub open spec fn mint_error(self, mint: Seq<u8>, to: Seq<u8>, amount: u64, authority: Seq<u8>) -> Option<ReceiptErrorCode> {
        if !self.is_mint(mint) || !self.is_account(to) || self.account(to).mint@ != mint {
            Some(ReceiptErrorCode::InvalidInput)
        } else if self.mint(mint).mint_authority@ != authority {
            Some(ReceiptErrorCode::AuthorityMismatch)
        } else if self.mint(mint).supply + amount > u64::MAX || self.account(to).amount + amount > u64::MAX {
            Some(ReceiptErrorCode::InvalidInput)
        } else {
            None
        }
    }

    pub open spec fn create_account_error(self, address: Seq<u8>, mint: Seq<u8>) -> Option<ReceiptErrorCode> {
        if !self.is_fresh(address) {
            Some(ReceiptErrorCode::DuplicateSetup)
        } else if !self.is_mint(mint) {
            Some(ReceiptErrorCode::InvalidInput)
        } else {
            None
        }
    }

    pub open spec fn metadata_error(self, mint: Seq<u8>, authority: Seq<u8>) -> Option<ReceiptErrorCode> {
        if !self.is_mint(mint) {
            Some(ReceiptErrorCode::InvalidInput)
        } else if self.mint(mint).mint_authority@ != authority {
            Some(ReceiptErrorCode::AuthorityMismatch)
        } else if self.has_metadata(mint) {
            Some(ReceiptErrorCode::DuplicateSetup)
        } else {
            None
        }
    }

    pub open spec fn minted(self, mint: Seq<u8>, to: Seq<u8>, amount: u64) -> LedgerView {
        LedgerView {
            accounts: self.accounts.update(self.account_index(to), credited(self.account(to), amount as int)),
            mints: self.mints.update(self.mint_index(mint), raised(self.mint(mint), amount as int)),
            ..self
        }
    }
}

/// What the accounts in `accounts` of asset `m` hold together.
pub open spec fn held(accounts: Seq<TokenAccount>, m: Seq<u8>) -> int
    decreases accounts.len(),
{
    if accounts.len() == 0 {
        0
    } else {
        held(accounts.drop_last(), m) + share(accounts.last(), m)
    }
}

/// What account `a` holds of asset `m`.
pub open spec fn share(a: TokenAccount, m: Seq<u8>) -> int {
    if a.mint@ == m {
        a.amount as int
    } else {
        0
    }
}

pub proof fn lemma_held_push(s: Seq<TokenAccount>, a: TokenAccount, m: Seq<u8>)
    ensures
        held(s.push(a), m) == held(s, m) + share(a, m),
{
    assert(s.push(a).drop_last() =~= s);
}

pub proof fn lemma_held_update(s: Seq<TokenAccount>, i: int, a: TokenAccount, m: Seq<u8>)
    requires
        0 <= i < s.len(),
    ensures
        held(s.update(i, a), m) == held(s, m) - share(s[i], m) + share(a, m),
    decreases s.len(),
{
    let t = s.update(i, a);
    if i == s.len() - 1 {
        assert(t.drop_last() =~= s.drop_last());
    } else {
        assert(t.drop_last() =~= s.drop_last().update(i, a));
        lemma_held_update(s.drop_last(), i, a, m);
    }
}

/// Each account holds at most what its asset's accounts hold together, and
/// so do two distinct accounts.
pub proof fn lemma_held_bound(s: Seq<TokenAccount>, i: int, j: int, m: Seq<u8>)
    requires
        0 <= i < s.len(),
        0 <= j < s.len(),
    ensures
        share(s[i], m) <= held(s, m),
        i != j ==> share(s[i], m) + share(s[j], m) <= held(s, m),
    decreases s.len(),
{
    lemma_held_nonneg(s.drop_last(), m);
    let n = s.len() - 1;
    if i < n && j < n {
        lemma_held_bound(s.drop_last(), i, j, m);
    } else if i < n {
        lemma_held_bound(s.drop_last(), i, i, m);
    } else if j < n {
        lemma_held_bound(s.drop_last(), j, j, m);
    }
}

pub proof fn lemma_held_nonneg(s: Seq<TokenAccount>, m: Seq<u8>)
    ensures
        held(s, m) >= 0,
    decreases s.len(),
{
    if s.len() > 0 {
        lemma_held_nonneg(s.drop_last(), m);
    }
}

/// No account of asset `m`: nothing held.
pub proof fn lemma_held_none(s: Seq<TokenAccount>, m: Seq<u8>)
    requires
        forall|i: int| 0 <= i < s.len() ==> (#[trigger] s[i]).mint@ != m,
    ensures
        held(s, m) == 0,
    decreases s.len(),
{
    if s.len() > 0 {
        assert(s.last() == s[s.len() - 1]);
        assert forall|i: int| 0 <= i < s.drop_last().len() implies (#[trigger] s.drop_last()[i]).mint@ != m by {
            assert(s.drop_last()[i] == s[i]);
        }
        lemma_held_none(s.drop_last(), m);
    }
}

/// The result that an error verdict stands for.
pub open spec fn outcome(e: Option<ReceiptErrorCode>) -> Result<(), ReceiptErrorCode> {
    match e {
        Some(e) => Err(e),
        None => Ok(()),
    }
}

/// A book whose addresses are those of a well-formed one is well-formed.
proof fn lemma_same_addresses_wf(a: LedgerView, b: LedgerView)
    requires
        a.keys_unique(),
        a.accounts.len() == b.accounts.len(),
        a.mints.len() == b.mints.len(),
        forall|i: int| 0 <= i < a.accounts.len() ==> (#[trigger] a.accounts[i]).address == b.accounts[i].address,
        forall|i: int| 0 <= i < a.mints.len() ==> (#[trigger] a.mints[i]).address == b.mints[i].address,
    ensures
        b.keys_unique(),
{
    assert forall|i: int, j: int|
        0 <= i < b.accounts.len() && 0 <= j < b.accounts.len() && i != j
        implies (#[trigger] b.accounts[i]).address@ != (#[trigger] b.accounts[j]).address@ by {
        assert(a.accounts[i].address == b.accounts[i].address);
        assert(a.accounts[j].address == b.accounts[j].address);
    }
    assert forall|i: int, j: int|
        0 <= i < b.mints.len() && 0 <= j < b.mints.len() && i != j
        implies (#[trigger] b.mints[i]).address@ != (#[trigger] b.mints[j]).address@ by {
        assert(a.mints[i].address == b.mints[i].address);
        assert(a.mints[j].address == b.mints[j].address);
    }
    assert forall|i: int, j: int|
        0 <= i < b.accounts.len() && 0 <= j < b.mints.len()
        implies (#[trigger] b.accounts[i]).address@ != (#[trigger] b.mints[j]).address@ by {
        assert(a.accounts[i].address == b.accounts[i].address);
        assert(a.mints[j].address == b.mints[j].address);
    }
}

/// Where only amounts and supplies change, every address keeps its position.
pub proof fn lemma_same_addresses_index(a: LedgerView, b: LedgerView, x: Seq<u8>)
    requires
        a.keys_unique(),
        a.accounts.len() == b.accounts.len(),
        a.mints.len() == b.mints.len(),
        forall|i: int| 0 <= i < a.accounts.len() ==> (#[trigger] a.accounts[i]).address == b.accounts[i].address,
        forall|i: int| 0 <= i < a.mints.len() ==> (#[trigger] a.mints[i]).address == b.mints[i].address,
    ensures
        b.keys_unique(),
        b.is_account(x) == a.is_account(x),
        b.is_mint(x) == a.is_mint(x),
        a.is_account(x) ==> b.account_index(x) == a.account_index(x),
        a.is_mint(x) ==> b.mint_index(x) == a.mint_index(x),
{
    lemma_same_addresses_wf(a, b);
    if a.is_account(x) {
        let k = a.account_index(x);
        assert(b.accounts[k].address == a.accounts[k].address);
        lemma_account_index(b, k);
    }
    if b.is_account(x) {
        let k = b.account_index(x);
        assert(b.accounts[k].address == a.accounts[k].address);
        assert(a.is_account(x));
    }
    if a.is_mint(x) {
        let k = a.mint_index(x);
        assert(b.mints[k].address == a.mints[k].address);
        lemma_mint_index(b, k);
    }
    if b.is_mint(x) {
        let k = b.mint_index(x);
        assert(b.mints[k].address == a.mints[k].address);
        assert(a.is_mint(x));
    }
}

/// A transfer keeps every address in place and leaves the assets alone.
pub proof fn lemma_transferred(v: LedgerView, from: Seq<u8>, to: Seq<u8>, amount: u64, signer: Seq<u8>, x: Seq<u8>)
    requires
        v.wf(),
        v.transfer_error(from, to, amount, signer) is None,
    ensures
        v.transferred(from, to, amount).mints == v.mints,
        v.transferred(from, to, amount).wf(),
        v.transferred(from, to, amount).is_account(x) == v.is_account(x),
        v.is_account(x) ==> v.transferred(from, to, amount).account_index(x) == v.account_index(x),
        v.is_account(x) && x != from && x != to ==> v.transferred(from, to, amount).account(x) == v.account(x),
        v.transferred(from, to, amount).balance(from) == v.balance(from) - amount,
        v.transferred(from, to, amount).balance(to) == v.balance(to) + amount,
{
    let w = v.transferred(from, to, amount);
    lemma_same_addresses_index(v, w, x);
    lemma_same_addresses_index(v, w, from);
    lemma_same_addresses_index(v, w, to);
    if v.is_account(x) && x != from && x != to {
        let k = v.account_index(x);
        if k == v.account_index(from) {
            assert(v.accounts[k].address@ == from);
        }
        if k == v.account_index(to) {
            assert(v.accounts[k].address@ == to);
        }
    }
    assert(v.account_index(from) != v.account_index(to)) by {
        assert(v.accounts[v.account_index(from)].address@ == from);
        assert(v.accounts[v.account_index(to)].address@ == to);
    }
    let i = v.account_index(from);
    let j = v.account_index(to);
    let d = debited(v.account(from), amount as int);
    let c = credited(v.account(to), amount as int);
    let s1 = v.accounts.update(i, d);
    assert forall|k: int| 0 <= k < w.accounts.len() implies w.is_mint((#[trigger] w.accounts[k]).mint@) by {
        assert(w.accounts[k].mint == v.accounts[k].mint);
        assert(v.is_mint(v.accounts[k].mint@));
    }
    assert forall|k: int| 0 <= k < w.mints.len()
        implies held(w.accounts, (#[trigger] w.mints[k]).address@) == w.mints[k].supply by {
        let m = w.mints[k].address@;
        lemma_held_update(v.accounts, i, d, m);
        lemma_held_update(s1, j, c, m);
        assert(s1[j] == v.accounts[j]);
        assert(v.mints[k] == w.mints[k]);
    }
}

/// A mint keeps every address in place and changes only the receiving
/// account and the asset's supply.
pub proof fn lemma_minted(v: LedgerView, mint: Seq<u8>, to: Seq<u8>, amount: u64, authority: Seq<u8>, x: Seq<u8>)
    requires
        v.wf(),
        v.mint_error(mint, to, amount, authority) is None,
    ensures
        v.minted(mint, to, amount).wf(),
        v.minted(mint, to, amount).is_account(x) == v.is_account(x),
        v.minted(mint, to, amount).is_mint(x) == v.is_mint(x),
        v.is_account(x) && x != to ==> v.minted(mint, to, amount).account(x) == v.account(x),
        v.is_mint(x) && x != mint ==> v.minted(mint, to, amount).mint(x) == v.mint(x),
        v.minted(mint, to, amount).balance(to) == v.balance(to) + amount,
        v.minted(mint, to, amount).supply(mint) == v.supply(mint) + amount,
{
    let w = v.minted(mint, to, amount);
    lemma_same_addresses_index(v, w, x);
    lemma_same_addresses_index(v, w, mint);
    lemma_same_addresses_index(v, w, to);
    if v.is_account(x) && x != to {
        let k = v.account_index(x);
        if k == v.account_index(to) {
            assert(v.accounts[k].address@ == to);
        }
    }
    if v.is_mint(x) && x != mint {
        let k = v.mint_index(x);
        if k == v.mint_index(mint) {
            assert(v.mints[k].address@ == mint);
        }
    }
    let j = v.account_index(to);
    let mi = v.mint_index(mint);
    let c = credited(v.account(to), amount as int);
    assert forall|k: int| 0 <= k < w.accounts.len() implies w.is_mint((#[trigger] w.accounts[k]).mint@) by {
        assert(w.accounts[k].mint == v.accounts[k].mint);
        assert(v.is_mint(v.accounts[k].mint@));
        lemma_same_addresses_index(v, w, v.accounts[k].mint@);
    }
    assert forall|k: int| 0 <= k < w.mints.len()
        implies held(w.accounts, (#[trigger] w.mints[k]).address@) == w.mints[k].supply by {
        let m = w.mints[k].address@;
        lemma_held_update(v.accounts, j, c, m);
        assert(v.mints[k].address == w.mints[k].address);
        assert(held(v.accounts, v.mints[k].address@) == v.mints[k].supply);
        if k != mi {
            assert(v.mints[k].address@ != v.mints[mi].address@);
            assert(v.mints[mi].address@ == mint);
        }
    }
}

pub proof fn lemma_account_index(v: LedgerView, i: int)
    requires
        v.keys_unique(),
        0 <= i < v.accounts.len(),
    ensures
        v.is_account(v.accounts[i].address@),
        v.account_index(v.accounts[i].address@) == i,
{
    let a = v.accounts[i].address@;
    assert(v.is_account(a));
    let k = v.account_index(a);
    assert(v.accounts[k].address@ == a);
}

pub proof fn lemma_mint_index(v: LedgerView, i: int)
    requires
        v.keys_unique(),
        0 <= i < v.mints.len(),
    ensures
        v.is_mint(v.mints[i].address@),
        v.mint_index(v.mints[i].address@) == i,
{
    let a = v.mints[i].address@;
    assert(v.is_mint(a));
    let k = v.mint_index(a);
    assert(v.mints[k].address@ == a);
}

impl Ledger {
    /// An empty book.
    pub fn new() -> (r: Ledger)
        ensures
            r@.accounts.len() == 0,
            r@.mints.len() == 0,
            r@.metadata.len() == 0,
            r@.wf(),
    {
        Ledger { accounts: Vec::new(), mints: Vec::new(), metadata: Vec::new() }
    }

    /// The position of account `a`.
    pub fn find_account(&self, a: &Address) -> (r: Option<usize>)
        requires
            self@.wf(),
        ensures
            r is None <==> !self@.is_account(a@),
            r matches Some(i) ==> i < self@.accounts.len() && self@.account_index(a@) == i
                && self@.accounts[i as int].address@ == a@,
    {
        let mut i: usize = 0;
        while i < self.accounts.len()
            invariant
                i <= self.accounts@.len(),
                self@.wf(),
                forall|k: int| 0 <= k < i ==> (#[trigger] self.accounts@[k]).address@ != a@,
            decreases self.accounts@.len() - i,
        {
            if self.accounts[i].address.same(a) {
                proof { lemma_account_index(self@, i as int); }
                return Some(i);
            }
            i = i + 1;
        }
        None
    }

    /// The position of asset `m`.
    pub fn find_mint(&self, m: &Address) -> (r: Option<usize>)
        requires
            self@.wf(),
        ensures
            r is None <==> !self@.is_mint(m@),
            r matches Some(i) ==> i < self@.mints.len() && self@.mint_index(m@) == i
                && self@.mints[i as int].address@ == m@,
    {
        let mut i: usize = 0;
        while i < self.mints.len()
            invariant
                i <= self.mints@.len(),
                self@.wf(),
                forall|k: int| 0 <= k < i ==> (#[trigger] self.mints@[k]).address@ != m@,
            decreases self.mints@.len() - i,
        {
            if self.mints[i].address.same(m) {
                proof { lemma_mint_index(self@, i as int); }
                return Some(i);
            }
            i = i + 1;
        }
        None
    }

    /// Whether no account and no asset stands at `a`.
    pub fn is_fresh(&self, a: &Address) -> (r: bool)
        requires
            self@.wf(),
        ensures
            r == self@.is_fresh(a@),
    {
        self.find_account(a).is_none() && self.find_mint(a).is_none()
    }

    /// Whether asset `m` has metadata attached.
    pub fn has_metadata(&self, m: &Address) -> (r: bool)
        ensures
            r == self@.has_metadata(m@),
    {
        let mut i: usize = 0;
        while i < self.metadata.len()
            invariant
                i <= self.metadata@.len(),
                forall|k: int| 0 <= k < i ==> (#[trigger] self@.metadata[k]).mint != m@,
            decreases self.metadata@.len() - i,
        {
            if self.metadata[i].mint.same(m) {
                assert(self@.metadata[i as int].mint == m@);
                return true;
            }
            i = i + 1;
        }
        false
    }

    /// Opens an empty account of asset `mint` at `address`, owned by `owner`.
    pub fn create_account(&mut self, address: &Address, mint: &Address, owner: &Address) -> (r: Result<(), ReceiptErrorCode>)
        requires
            old(self)@.wf(),
        ensures
            final(self)@.wf(),
            r == outcome(old(self)@.create_account_error(address@, mint@)),
            r is Ok ==> final(self)@ == (LedgerView {
                accounts: old(self)@.accounts.push(TokenAccount { address: *address, mint: *mint, owner: *owner, amount: 0 }),
                ..old(self)@
            }),
            r is Err ==> final(self)@ == old(self)@,
    {
        if !self.is_fresh(address) {
            return Err(ReceiptErrorCode::DuplicateSetup);
        }
        if self.find_mint(mint).is_none() {
            return Err(ReceiptErrorCode::InvalidInput);
        }
        self.accounts.push(TokenAccount { address: *address, mint: *mint, owner: *owner, amount: 0 });
        proof {
            let v = self@;
            let n = v.accounts.len() - 1;
            assert forall|i: int, j: int|
                0 <= i < v.accounts.len() && 0 <= j < v.mints.len()
                implies (#[trigger] v.accounts[i]).address@ != (#[trigger] v.mints[j]).address@ by {
                if i == n {
                    assert(old(self)@.mints[j] == v.mints[j]);
                } else {
                    assert(old(self)@.accounts[i] == v.accounts[i]);
                }
            }
            assert forall|i: int, j: int|
                0 <= i < v.accounts.len() && 0 <= j < v.accounts.len() && i != j
                implies (#[trigger] v.accounts[i]).address@ != (#[trigger] v.accounts[j]).address@ by {
                if i == n {
                    assert(old(self)@.accounts[j] == v.accounts[j]);
                } else if j == n {
                    assert(old(self)@.accounts[i] == v.accounts[i]);
                } else {
                    assert(old(self)@.accounts[i] == v.accounts[i]);
                    assert(old(self)@.accounts[j] == v.accounts[j]);
                }
            }
            let o = old(self)@;
            let fresh = TokenAccount { address: *address, mint: *mint, owner: *owner, amount: 0 };
            assert(v.accounts =~= o.accounts.push(fresh));
            assert forall|k: int| 0 <= k < v.accounts.len() implies v.is_mint((#[trigger] v.accounts[k]).mint@) by {
                if k < n {
                    assert(o.accounts[k] == v.accounts[k]);
                }
            }
            assert forall|k: int| 0 <= k < v.mints.len()
                implies held(v.accounts, (#[trigger] v.mints[k]).address@) == v.mints[k].supply by {
                lemma_held_push(o.accounts, fresh, v.mints[k].address@);
                assert(o.mints[k] == v.mints[k]);
            }
        }
        Ok(())
    }

    /// Creates asset `address` with no supply.
    pub fn create_mint(&mut self, address: &Address, decimals: u8, mint_authority: &Address, freeze_authority: Option<Address>, metadata_pointer: Option<MetadataPointer>) -> (r: Result<(), ReceiptErrorCode>)
        requires
            old(self)@.wf(),
        ensures
            final(self)@.wf(),
            r is Err <==> !old(self)@.is_fresh(address@),
            r is Err ==> r == Err::<(), ReceiptErrorCode>(ReceiptErrorCode::DuplicateSetup) && final(self)@ == old(self)@,
            r is Ok ==> final(self)@ == (LedgerView {
                mints: old(self)@.mints.push(MintAccount {
                    address: *address,
                    decimals,
                    supply: 0,
                    mint_authority: *mint_authority,
                    freeze_authority,
                    metadata_pointer,
                }),
                ..old(self)@
            }),
    {
        if !self.is_fresh(address) {
            return Err(ReceiptErrorCode::DuplicateSetup);
        }
        self.mints.push(MintAccount {
            address: *address,
            decimals,
            supply: 0,
            mint_authority: *mint_authority,
            freeze_authority,
            metadata_pointer,
        });
        proof {
            let v = self@;
            let n = v.mints.len() - 1;
            assert forall|i: int, j: int|
                0 <= i < v.accounts.len() && 0 <= j < v.mints.len()
                implies (#[trigger] v.accounts[i]).address@ != (#[trigger] v.mints[j]).address@ by {
                if j == n {
                    assert(old(self)@.accounts[i] == v.accounts[i]);
                } else {
                    assert(old(self)@.mints[j] == v.mints[j]);
                }
            }
            assert forall|i: int, j: int|
                0 <= i < v.mints.len() && 0 <= j < v.mints.len() && i != j
                implies (#[trigger] v.mints[i]).address@ != (#[trigger] v.mints[j]).address@ by {
                if i == n {
                    assert(old(self)@.mints[j] == v.mints[j]);
                } else if j == n {
                    assert(old(self)@.mints[i] == v.mints[i]);
                } else {
                    assert(old(self)@.mints[i] == v.mints[i]);
                    assert(old(self)@.mints[j] == v.mints[j]);
                }
            }
            let o = old(self)@;
            assert(v.accounts == o.accounts);
            assert forall|k: int| 0 <= k < v.accounts.len() implies v.is_mint((#[trigger] v.accounts[k]).mint@) by {
                assert(o.is_mint(o.accounts[k].mint@));
                let w = choose|w: int| 0 <= w < o.mints.len() && (#[trigger] o.mints[w]).address@ == o.accounts[k].mint@;
                assert(v.mints[w] == o.mints[w]);
            }
            assert forall|i: int| 0 <= i < o.accounts.len() implies (#[trigger] o.accounts[i]).mint@ != address@ by {
                assert(o.is_mint(o.accounts[i].mint@));
            }
            lemma_held_none(o.accounts, address@);
            assert forall|k: int| 0 <= k < v.mints.len()
                implies held(v.accounts, (#[trigger] v.mints[k]).address@) == v.mints[k].supply by {
                if k < n {
                    assert(o.mints[k] == v.mints[k]);
                }
            }
        }
        Ok(())
    }

    /// Checks a transfer without making it: the positions of the two
    /// accounts, or why it would be refused.
    pub fn check_transfer(&self, from: &Address, to: &Address, amount: u64, signer: &Address) -> (r: Result<(usize, usize), ReceiptErrorCode>)
        requires
            self@.wf(),
        ensures
            r is Err <==> self@.transfer_error(from@, to@, amount, signer@) is Some,
            r matches Err(e) ==> self@.transfer_error(from@, to@, amount, signer@) == Some(e),
            r matches Ok((i, j)) ==> i == self@.account_index(from@) && j == self@.account_index(to@)
                && i < self@.accounts.len() && j < self@.accounts.len(),
    {
        let i = match self.find_account(from) {
            Some(i) => i,
            None => return Err(ReceiptErrorCode::InvalidInput),
        };
        let j = match self.find_account(to) {
            Some(j) => j,
            None => return Err(ReceiptErrorCode::InvalidInput),
        };
        let src = self.accounts[i];
        let dst = self.accounts[j];
        if from.same(to) || !src.mint.same(&dst.mint) {
            return Err(ReceiptErrorCode::InvalidInput);
        }
        if !src.owner.same(signer) {
            return Err(ReceiptErrorCode::AuthorityMismatch);
        }
        if src.amount < amount {
            return Err(ReceiptErrorCode::InsufficientFunds);
        }
        if dst.amount > u64::MAX - amount {
            return Err(ReceiptErrorCode::InvalidInput);
        }
        Ok((i, j))
    }

    /// Moves `amount` from `from` to `to`, authorised by `signer`.
    pub fn transfer(&mut self, from: &Address, to: &Address, amount: u64, signer: &Address) -> (r: Result<(), ReceiptErrorCode>)
        requires
            old(self)@.wf(),
        ensures
            final(self)@.wf(),
            r == outcome(old(self)@.transfer_error(from@, to@, amount, signer@)),
            r is Ok ==> final(self)@ == old(self)@.transferred(from@, to@, amount),
            r is Err ==> final(self)@ == old(self)@,
    {
        let (i, j) = match self.check_transfer(from, to, amount, signer) {
            Ok(p) => p,
            Err(e) => return Err(e),
        };
        let src = self.accounts[i];
        let dst = self.accounts[j];
        let ghost pre = self@;
        self.accounts.set(i, TokenAccount { amount: src.amount - amount, ..src });
        self.accounts.set(j, TokenAccount { amount: dst.amount + amount, ..dst });
        proof {
            assert(self@.accounts =~= pre.transferred(from@, to@, amount).accounts);
            lemma_transferred(pre, from@, to@, amount, signer@, from@);
        }
        Ok(())
    }

    /// Checks a mint without making it: the positions of the asset and of
    /// the account, or why it would be refused.
    pub fn check_mint_to(&self, mint: &Address, to: &Address, amount: u64, authority: &Address) -> (r: Result<(usize, usize), ReceiptErrorCode>)
        requires
            self@.wf(),
        ensures
            r is Err <==> self@.mint_error(mint@, to@, amount, authority@) is Some,
            r matches Err(e) ==> self@.mint_error(mint@, to@, amount, authority@) == Some(e),
            r matches Ok((m, j)) ==> m == self@.mint_index(mint@) && j == self@.account_index(to@)
                && m < self@.mints.len() && j < self@.accounts.len(),
    {
        let m = match self.find_mint(mint) {
            Some(m) => m,
            None => return Err(ReceiptErrorCode::InvalidInput),
        };
        let j = match self.find_account(to) {
            Some(j) => j,
            None => return Err(ReceiptErrorCode::InvalidInput),
        };
        let asset = self.mints[m];
        let dst = self.accounts[j];
        if !dst.mint.same(mint) {
            return Err(ReceiptErrorCode::InvalidInput);
        }
        if !asset.mint_authority.same(authority) {
            return Err(ReceiptErrorCode::AuthorityMismatch);
        }
        if asset.supply > u64::MAX - amount || dst.amount > u64::MAX - amount {
            return Err(ReceiptErrorCode::InvalidInput);
        }
        Ok((m, j))
    }

    /// Mints `amount` of asset `mint` to account `to`, authorised by `authority`.
    pub fn mint_to(&mut self, mint: &Address, to: &Address, amount: u64, authority: &Address) -> (r: Result<(), ReceiptErrorCode>)
        requires
            old(self)@.wf(),
        ensures
            final(self)@.wf(),
            r == outcome(old(self)@.mint_error(mint@, to@, amount, authority@)),
            r is Ok ==> final(self)@ == old(self)@.minted(mint@, to@, amount),
            r is Err ==> final(self)@ == old(self)@,
    {
        let (m, j) = match self.check_mint_to(mint, to, amount, authority) {
            Ok(p) => p,
            Err(e) => return Err(e),
        };
        let asset = self.mints[m];
        let dst = self.accounts[j];
        let ghost pre = self@;
        self.accounts.set(j, TokenAccount { amount: dst.amount + amount, ..dst });
        self.mints.set(m, MintAccount { supply: asset.supply + amount, ..asset });
        proof {
            assert(self@.accounts =~= pre.minted(mint@, to@, amount).accounts);
            assert(self@.mints =~= pre.minted(mint@, to@, amount).mints);
            lemma_minted(pre, mint@, to@, amount, authority@, to@);
        }
        Ok(())
    }

    /// Attaches metadata to asset `mint`, authorised by its mint authority,
    /// to be updated later by `update_authority`.
    pub fn initialize_metadata(&mut self, mint: &Address, args: &TokenMetadataArgs, authority: &Address, update_authority: &Address) -> (r: Result<(), ReceiptErrorCode>)
        requires
            old(self)@.wf(),
        ensures
            final(self)@.wf(),
            r == outcome(old(self)@.metadata_error(mint@, authority@)),
            r is Ok ==> final(self)@ == (LedgerView {
                metadata: old(self)@.metadata.push(MetadataView {
                    mint: mint@,
                    update_authority: update_authority@,
                    name: args.name@,
                    symbol: args.symbol@,
                    uri: args.uri@,
                }),
                ..old(self)@
            }),
            r is Err ==> final(self)@ == old(self)@,
    {
        let m = match self.find_mint(mint) {
            Some(m) => m,
            None => return Err(ReceiptErrorCode::InvalidInput),
        };
        if !self.mints[m].mint_authority.same(authority) {
            return Err(ReceiptErrorCode::AuthorityMismatch);
        }
        if self.has_metadata(mint) {
            return Err(ReceiptErrorCode::DuplicateSetup);
        }
        let ghost pre = self@;
        self.metadata.push(AssetMetadata {
            mint: *mint,
            update_authority: *update_authority,
            name: args.name.clone(),
            symbol: args.symbol.clone(),
            uri: args.uri.clone(),
        });
        proof {
            assert(self@.metadata =~= pre.metadata.push(MetadataView {
                mint: mint@,
                update_authority: update_authority@,
                name: args.name@,
                symbol: args.symbol@,
                uri: args.uri@,
            }));
        }
        Ok(())
    }

    /// The amount held by account `a`.
    pub fn balance(&self, a: &Address) -> (r: Option<u64>)
        requires
            self@.wf(),
        ensures
            r is None <==> !self@.is_account(a@),
            r matches Some(n) ==> n == self@.balance(a@),
    {
        match self.find_account(a) {
            Some(i) => Some(self.accounts[i].amount),
            None => None,
        }
    }

    /// The total supply of asset `m`.
    pub fn supply(&self, m: &Address) -> (r: Option<u64>)
        requires
            self@.wf(),
        ensures
            r is None <==> !self@.is_mint(m@),
            r matches Some(n) ==> n == self@.supply(m@),
    {
        match self.find_mint(m) {
            Some(i) => Some(self.mints[i].supply),
            None => None,
        }
    }

    /// The decimal precision of asset `m`.
    pub fn decimals(&self, m: &Address) -> (r: Option<u8>)
        requires
            self@.wf(),
        ensures
            r is None <==> !self@.is_mint(m@),
            r matches Some(d) ==> d == self@.mint(m@).decimals,
    {
        match self.find_mint(m) {
            Some(i) => Some(self.mints[i].decimals),
            None => None,
        }
    }
}

} // verus!
