//! The two operations of the protocol over the registry and the custody
//! book: one-time setup per underlying asset, and deposit.

use vstd::prelude::*;
use crate::address::Address;
use crate::derivation::{created_program_address, found_program_address, program_address_with_bump, verify_program_address};
use crate::error::ReceiptErrorCode;
use crate::ledger::{Ledger, LedgerView, MetadataPointer, MetadataView, TokenAccount, TokenMetadataArgs, outcome, lemma_transferred};
use crate::metadata::{args_lens, metadata_rent, metadata_rent_lamports};
use crate::state::{
    ReceiptState, state_seeds, vault_authority_seeds, receipt_mint_seeds, mint_vault_seeds,
    state_seed_list, vault_authority_seed_list, receipt_mint_seed_list, mint_vault_seed_list,
};

verus! {

/// A registry record and the address it is stored at.
#[derive(Clone, Copy, Debug)]
pub struct RecordEntry {
    pub address: Address,
    pub state: ReceiptState,
}

/// The program's state: its identity, its registry records and the custody
/// book they refer to.
pub struct Protocol {
    pub program_id: Address,
    pub records: Vec<RecordEntry>,
    pub ledger: Ledger,
}

pub struct ProtocolView {
    pub program_id: Seq<u8>,
    pub records: Seq<RecordEntry>,
    pub ledger: LedgerView,
}

impl View for Protocol {
    type V = ProtocolView;

    open spec fn view(&self) -> ProtocolView {
        ProtocolView { program_id: self.program_id@, records: self.records@, ledger: self.ledger@ }
    }
}

/// A deposit of `amount` by `user`, with the accounts it names.
#[derive(Clone, Copy, Debug)]
pub struct DepositRequest {
    pub user: Address,
    /// The user's account of the underlying asset.
    pub user_token_account: Address,
    /// The user's account of the receipt asset.
    pub user_receipt_account: Address,
    /// The registry record of the underlying asset.
    pub receipt_state: Address,
    pub token_mint: Address,
    pub token_mint_vault: Address,
    pub crypto_receipt_mint: Address,
    pub amount: u64,
}

/// What a successful setup reports.
#[derive(Clone, Copy, Debug)]
pub struct SetupOutcome {
    /// Where the new registry record is stored.
    pub state_address: Address,
    /// Lamports to move from the requester to the receipt asset's account to
    /// fund its metadata (zero without metadata).
    pub metadata_lamports: u64,
}

/// The UTF-8 lengths of the metadata strings, if metadata is asked for.
pub open spec fn metadata_lens(metadata: Option<TokenMetadataArgs>) -> Option<(nat, nat, nat)> {
    match metadata {
        Some(args) => Some(args_lens(&args)),
        None => None,
    }
}

/// The lamports that a setup with `metadata` reports.
pub open spec fn setup_lamports(metadata: Option<TokenMetadataArgs>) -> u64 {
    match metadata_lens(metadata) {
        Some(l) => metadata_rent(l.0, l.1, l.2).unwrap(),
        None => 0,
    }
}

/// The canonical derived address of `seeds`.
pub open spec fn derived(seeds: Seq<Seq<u8>>, program: Seq<u8>) -> (Seq<u8>, u8) {
    found_program_address(seeds, program).unwrap()
}

/// A new escrow account of `mint` owned by `owner`.
pub open spec fn is_new_escrow(acc: TokenAccount, address: Seq<u8>, mint: Seq<u8>, owner: Seq<u8>) -> bool {
    acc.address@ == address && acc.mint@ == mint && acc.owner@ == owner && acc.amount == 0
}

/// The address that `seeds` give with `bump` appended.
pub open spec fn created(seeds: Seq<Seq<u8>>, bump: u8, program: Seq<u8>) -> Option<Seq<u8>> {
    created_program_address(seeds.push(seq![bump]), program)
}

impl ProtocolView {
    pub open spec fn has_record(self, a: Seq<u8>) -> bool {
        exists|i: int| 0 <= i < self.records.len() && (#[trigger] self.records[i]).address@ == a
    }

    pub open spec fn record_index(self, a: Seq<u8>) -> int {
        choose|i: int| 0 <= i < self.records.len() && (#[trigger] self.records[i]).address@ == a
    }

    /// The record stored at `a`.
    pub open spec fn record(self, a: Seq<u8>) -> ReceiptState {
        self.records[self.record_index(a)].state
    }

    /// Record addresses are unique, and the book is well-formed.
    pub open spec fn wf(self) -> bool {
        &&& self.ledger.wf()
        &&& forall|i: int, j: int|
            0 <= i < self.records.len() && 0 <= j < self.records.len() && i != j
                ==> (#[trigger] self.records[i]).address@ != (#[trigger] self.records[j]).address@
        &&& forall|i: int| 0 <= i < self.records.len() ==> self.stands_at_derived_address(#[trigger] self.records[i])
    }

    /// A record is stored at the address derived from its underlying asset.
    pub open spec fn stands_at_derived_address(self, e: RecordEntry) -> bool {
        found_program_address(state_seeds(e.state.token_mint@), self.program_id) matches Some((a, _))
            && a == e.address@
    }

    /// The record address of `token_mint` and its bump.
    pub open spec fn state_of(self, token_mint: Seq<u8>) -> (Seq<u8>, u8) {
        derived(state_seeds(token_mint), self.program_id)
    }

    /// Why setting up `token_mint` is refused, if it is.
    pub open spec fn setup_error(self, token_mint: Seq<u8>, metadata: Option<TokenMetadataArgs>) -> Option<ReceiptErrorCode> {
        let pid = self.program_id;
        let state = self.state_of(token_mint).0;
        let authority = found_program_address(vault_authority_seeds(state), pid);
        let vault = found_program_address(mint_vault_seeds(state, token_mint), pid);
        let rmint = found_program_address(receipt_mint_seeds(state), pid);
        let rvault = found_program_address(mint_vault_seeds(state, rmint.unwrap().0), pid);
        if !self.ledger.is_mint(token_mint) {
            Some(ReceiptErrorCode::InvalidInput)
        } else if found_program_address(state_seeds(token_mint), pid) is None {
            Some(ReceiptErrorCode::InvalidInput)
        } else if self.has_record(state) {
            Some(ReceiptErrorCode::DuplicateSetup)
        } else if authority is None || vault is None || rmint is None || rvault is None {
            Some(ReceiptErrorCode::InvalidInput)
        } else if !self.ledger.is_fresh(vault.unwrap().0) || !self.ledger.is_fresh(rmint.unwrap().0)
            || !self.ledger.is_fresh(rvault.unwrap().0) || vault.unwrap().0 == rmint.unwrap().0
            || vault.unwrap().0 == rvault.unwrap().0 || rmint.unwrap().0 == rvault.unwrap().0
            || self.ledger.has_metadata(rmint.unwrap().0) {
            Some(ReceiptErrorCode::DuplicateSetup)
        } else if metadata_lens(metadata) matches Some(l) && metadata_rent(l.0, l.1, l.2) is None {
            Some(ReceiptErrorCode::InvalidInput)
        } else {
            None
        }
    }

    /// `new` is this state after setting up `token_mint` at the request of
    /// `requester`: one record more, two escrows and the receipt asset
    /// created under the derived authority, metadata attached if asked for.
    pub open spec fn setup_done(self, new: ProtocolView, requester: Seq<u8>, token_mint: Seq<u8>, metadata: Option<TokenMetadataArgs>) -> bool {
        let pid = self.program_id;
        let (state, bump) = self.state_of(token_mint);
        let (authority, authority_bump) = derived(vault_authority_seeds(state), pid);
        let (vault, vault_bump) = derived(mint_vault_seeds(state, token_mint), pid);
        let (rmint, rmint_bump) = derived(receipt_mint_seeds(state), pid);
        let (rvault, rvault_bump) = derived(mint_vault_seeds(state, rmint), pid);
        let n = self.records.len();
        let rec = new.records[n as int];
        let na = self.ledger.accounts.len();
        let nm = self.ledger.mints.len();
        let m = new.ledger.mints[nm as int];
        &&& new.program_id == pid
        // the registry record
        &&& new.records.len() == n + 1
        &&& new.records.subrange(0, n as int) == self.records
        &&& rec.address@ == state
        &&& rec.state.authority@ == requester
        &&& rec.state.token_mint@ == token_mint
        &&& rec.state.token_mint_vault@ == vault
        &&& rec.state.crypto_receipt_mint@ == rmint
        &&& rec.state.crypto_receipt_vault@ == rvault
        &&& rec.state.bump == bump
        &&& rec.state.vault_authority_bump == authority_bump
        &&& rec.state.token_mint_vault_bump == vault_bump
        &&& rec.state.receipt_mint_bump == rmint_bump
        &&& rec.state.receipt_mint_vault_bump == rvault_bump
        // each stored bump re-derives its address
        &&& created(state_seeds(token_mint), bump, pid) == Some(state)
        &&& created(vault_authority_seeds(state), authority_bump, pid) == Some(authority)
        &&& created(mint_vault_seeds(state, token_mint), vault_bump, pid) == Some(vault)
        &&& created(receipt_mint_seeds(state), rmint_bump, pid) == Some(rmint)
        &&& created(mint_vault_seeds(state, rmint), rvault_bump, pid) == Some(rvault)
        // the two escrows
        &&& new.ledger.accounts.len() == na + 2
        &&& new.ledger.accounts.subrange(0, na as int) == self.ledger.accounts
        &&& is_new_escrow(new.ledger.accounts[na as int], vault, token_mint, authority)
        &&& is_new_escrow(new.ledger.accounts[na + 1int], rvault, rmint, authority)
        // the receipt asset
        &&& new.ledger.mints.len() == nm + 1
        &&& new.ledger.mints.subrange(0, nm as int) == self.ledger.mints
        &&& m.address@ == rmint
        &&& m.decimals == self.ledger.mint(token_mint).decimals
        &&& m.supply == 0
        &&& m.mint_authority@ == authority
        &&& m.freeze_authority matches Some(f) && f@ == authority
        &&& match metadata {
            Some(_) => m.metadata_pointer matches Some(ptr) && ptr.authority@ == authority
                && ptr.metadata_address@ == rmint,
            None => m.metadata_pointer is None,
        }
        // its metadata
        &&& new.ledger.metadata == match metadata {
            Some(args) => self.ledger.metadata.push(
                MetadataView { mint: rmint, update_authority: authority, name: args.name@, symbol: args.symbol@, uri: args.uri@ },
            ),
            None => self.ledger.metadata,
        }
    }

    /// The shared authority that record `state` signs with: its seeds and
    /// stored bump re-derived.
    pub open spec fn signer_of(self, state: Seq<u8>) -> Option<Seq<u8>> {
        created(vault_authority_seeds(state), self.record(state).vault_authority_bump, self.program_id)
    }

    /// Why a deposit is refused, if it is.
    pub open spec fn deposit_error(self, req: DepositRequest) -> Option<ReceiptErrorCode> {
        let state = req.receipt_state@;
        let rec = self.record(state);
        let book = self.ledger;
        if !self.has_record(state) {
            Some(ReceiptErrorCode::InvalidInput)
        } else if rec.token_mint@ != req.token_mint@ || rec.token_mint_vault@ != req.token_mint_vault@
            || rec.crypto_receipt_mint@ != req.crypto_receipt_mint@ || req.token_mint@ == req.crypto_receipt_mint@ {
            Some(ReceiptErrorCode::InvalidInput)
        } else if created(state_seeds(req.token_mint@), rec.bump, self.program_id) != Some(state)
            || created(mint_vault_seeds(state, req.token_mint@), rec.token_mint_vault_bump, self.program_id)
                != Some(req.token_mint_vault@)
            || created(receipt_mint_seeds(state), rec.receipt_mint_bump, self.program_id)
                != Some(req.crypto_receipt_mint@)
            || self.signer_of(state) is None {
            Some(ReceiptErrorCode::AuthorityMismatch)
        } else if req.amount == 0 {
            Some(ReceiptErrorCode::InvalidInput)
        } else if !book.is_account(req.user_token_account@)
            || book.account(req.user_token_account@).mint@ != req.token_mint@
            || book.account(req.user_token_account@).owner@ != req.user@ {
            Some(ReceiptErrorCode::InvalidInput)
        } else if !book.is_account(req.user_receipt_account@)
            || book.account(req.user_receipt_account@).mint@ != req.crypto_receipt_mint@
            || book.account(req.user_receipt_account@).owner@ != req.user@ {
            Some(ReceiptErrorCode::InvalidInput)
        } else if book.transfer_error(req.user_token_account@, req.token_mint_vault@, req.amount, req.user@) is Some {
            book.transfer_error(req.user_token_account@, req.token_mint_vault@, req.amount, req.user@)
        } else {
            book.mint_error(req.crypto_receipt_mint@, req.user_receipt_account@, req.amount,
                self.signer_of(state).unwrap())
        }
    }

    /// The state after a deposit: the amount moved into escrow, then the same
    /// amount of receipts minted to the user.
    pub open spec fn deposit_effect(self, req: DepositRequest) -> ProtocolView {
        ProtocolView {
            ledger: self.ledger
                .transferred(req.user_token_account@, req.token_mint_vault@, req.amount)
                .minted(req.crypto_receipt_mint@, req.user_receipt_account@, req.amount),
            ..self
        }
    }
}

pub proof fn lemma_record_index(v: ProtocolView, i: int)
    requires
        v.wf(),
        0 <= i < v.records.len(),
    ensures
        v.has_record(v.records[i].address@),
        v.record_index(v.records[i].address@) == i,
{
    let a = v.records[i].address@;
    assert(v.has_record(a));
    let k = v.record_index(a);
    assert(v.records[k].address@ == a);
}

impl Protocol {
    /// A program with no records, over the custody book `ledger`.
    pub fn new(program_id: Address, ledger: Ledger) -> (r: Protocol)
        requires
            ledger@.wf(),
        ensures
            r@.program_id == program_id@,
            r@.records.len() == 0,
            r@.ledger == ledger@,
            r@.wf(),
    {
        Protocol { program_id, records: Vec::new(), ledger }
    }

    /// Takes in a record already stored (as when the program state is loaded
    /// from its accounts): refused with `AuthorityMismatch` unless it stands
    /// at the address derived from its asset, and with `DuplicateSetup` where
    /// a record is already stored there.
    pub fn add_record(&mut self, entry: RecordEntry) -> (r: Result<(), ReceiptErrorCode>)
        requires
            old(self)@.wf(),
        ensures
            final(self)@.wf(),
            r == (if !old(self)@.stands_at_derived_address(entry) {
                Err(ReceiptErrorCode::AuthorityMismatch)
            } else if old(self)@.has_record(entry.address@) {
                Err(ReceiptErrorCode::DuplicateSetup)
            } else {
                Ok(())
            }),
            r is Ok ==> final(self)@ == (ProtocolView { records: old(self)@.records.push(entry), ..old(self)@ }),
            r is Err ==> final(self)@ == old(self)@,
    {
        match ReceiptState::find_state_address(&self.program_id, &entry.state.token_mint) {
            Some((a, _)) => {
                if !a.same(&entry.address) {
                    return Err(ReceiptErrorCode::AuthorityMismatch);
                }
            },
            None => return Err(ReceiptErrorCode::AuthorityMismatch),
        }
        if self.find_record(&entry.address).is_some() {
            return Err(ReceiptErrorCode::DuplicateSetup);
        }
        let ghost pre = self@;
        self.records.push(entry);
        proof {
            let v = self@;
            let n = pre.records.len();
            assert forall|i: int, j: int|
                0 <= i < v.records.len() && 0 <= j < v.records.len() && i != j
                implies (#[trigger] v.records[i]).address@ != (#[trigger] v.records[j]).address@ by {
                if i == n {
                    assert(pre.records[j] == v.records[j]);
                } else if j == n {
                    assert(pre.records[i] == v.records[i]);
                } else {
                    assert(pre.records[i] == v.records[i]);
                    assert(pre.records[j] == v.records[j]);
                }
            }
            assert forall|i: int| 0 <= i < v.records.len() implies v.stands_at_derived_address(#[trigger] v.records[i]) by {
                if i < n {
                    assert(pre.records[i] == v.records[i]);
                }
            }
            assert(v.records =~= pre.records.push(entry));
        }
        Ok(())
    }

    /// The position of the record stored at `a`.
    pub fn find_record(&self, a: &Address) -> (r: Option<usize>)
        requires
            self@.wf(),
        ensures
            r is None <==> !self@.has_record(a@),
            r matches Some(i) ==> i < self@.records.len() && self@.record_index(a@) == i
                && self@.records[i as int].address@ == a@,
    {
        let mut i: usize = 0;
        while i < self.records.len()
            invariant
                i <= self.records@.len(),
                self@.wf(),
                forall|k: int| 0 <= k < i ==> (#[trigger] self.records@[k]).address@ != a@,
            decreases self.records@.len() - i,
        {
            if self.records[i].address.same(a) {
                proof { lemma_record_index(self@, i as int); }
                return Some(i);
            }
            i = i + 1;
        }
        None
    }

    /// Moves `req.amount` of the underlying asset from the user into escrow
    /// and mints the same amount of receipts to the user, signed by the
    /// derived authority. Either both moves happen or neither does. A zero
    /// amount is refused as `InvalidInput`.
    pub fn deposit(&mut self, req: &DepositRequest) -> (r: Result<(), ReceiptErrorCode>)
        requires
            old(self)@.wf(),
        ensures
            final(self)@.wf(),
            r == outcome(old(self)@.deposit_error(*req)),
            r is Ok ==> final(self)@ == old(self)@.deposit_effect(*req),
            r is Err ==> final(self)@ == old(self)@,
    {
        let k = match self.find_record(&req.receipt_state) {
            Some(k) => k,
            None => return Err(ReceiptErrorCode::InvalidInput),
        };
        let rec = self.records[k].state;
        if !rec.token_mint.same(&req.token_mint) || !rec.token_mint_vault.same(&req.token_mint_vault)
            || !rec.crypto_receipt_mint.same(&req.crypto_receipt_mint)
            || req.token_mint.same(&req.crypto_receipt_mint) {
            return Err(ReceiptErrorCode::InvalidInput);
        }
        let state = &req.receipt_state;
        if !verify_program_address(state_seed_list(&req.token_mint), rec.bump, &self.program_id, state)
            || !verify_program_address(
                mint_vault_seed_list(state, &req.token_mint),
                rec.token_mint_vault_bump,
                &self.program_id,
                &req.token_mint_vault,
            )
            || !verify_program_address(
                receipt_mint_seed_list(state),
                rec.receipt_mint_bump,
                &self.program_id,
                &req.crypto_receipt_mint,
            ) {
            return Err(ReceiptErrorCode::AuthorityMismatch);
        }
        let authority = match program_address_with_bump(
            vault_authority_seed_list(state),
            rec.vault_authority_bump,
            &self.program_id,
        ) {
            Some(a) => a,
            None => return Err(ReceiptErrorCode::AuthorityMismatch),
        };
        if req.amount == 0 {
            return Err(ReceiptErrorCode::InvalidInput);
        }
        match self.ledger.find_account(&req.user_token_account) {
            Some(i) => {
                let acc = self.ledger.accounts[i];
                if !acc.mint.same(&req.token_mint) || !acc.owner.same(&req.user) {
                    return Err(ReceiptErrorCode::InvalidInput);
                }
            },
            None => return Err(ReceiptErrorCode::InvalidInput),
        }
        match self.ledger.find_account(&req.user_receipt_account) {
            Some(i) => {
                let acc = self.ledger.accounts[i];
                if !acc.mint.same(&req.crypto_receipt_mint) || !acc.owner.same(&req.user) {
                    return Err(ReceiptErrorCode::InvalidInput);
                }
            },
            None => return Err(ReceiptErrorCode::InvalidInput),
        }
        if let Err(e) = self.ledger.check_transfer(&req.user_token_account, &req.token_mint_vault, req.amount, &req.user) {
            return Err(e);
        }
        if let Err(e) = self.ledger.check_mint_to(&req.crypto_receipt_mint, &req.user_receipt_account, req.amount, &authority) {
            return Err(e);
        }
        let ghost pre = self.ledger@;
        proof {
            let from = req.user_token_account@;
            let to = req.token_mint_vault@;
            let dest = req.user_receipt_account@;
            lemma_transferred(pre, from, to, req.amount, req.user@, dest);
            lemma_transferred(pre, from, to, req.amount, req.user@, from);
            lemma_transferred(pre, from, to, req.amount, req.user@, to);
            assert(dest != from && dest != to);
        }
        let moved = self.ledger.transfer(&req.user_token_account, &req.token_mint_vault, req.amount, &req.user);
        assert(moved is Ok);
        let minted = self.ledger.mint_to(&req.crypto_receipt_mint, &req.user_receipt_account, req.amount, &authority);
        assert(minted is Ok);
        Ok(())
    }

    /// One-time setup for `token_mint`, requested by `requester`: derives
    /// the record, the shared authority, the underlying escrow, the receipt
    /// asset (with the underlying asset's decimals) and the receipt escrow,
    /// creates them, attaches `metadata` if given, and stores the record.
    /// Nothing is created unless everything is.
    pub fn initialize(&mut self, requester: &Address, token_mint: &Address, metadata: &Option<TokenMetadataArgs>) -> (r: Result<SetupOutcome, ReceiptErrorCode>)
        requires
            old(self)@.wf(),
        ensures
            final(self)@.wf(),
            r is Err <==> old(self)@.setup_error(token_mint@, *metadata) is Some,
            r matches Err(e) ==> old(self)@.setup_error(token_mint@, *metadata) == Some(e),
            r is Err ==> final(self)@ == old(self)@,
            r matches Ok(o) ==> old(self)@.setup_done(final(self)@, requester@, token_mint@, *metadata)
                && o.state_address@ == old(self)@.state_of(token_mint@).0
                && o.metadata_lamports == setup_lamports(*metadata),
    {
        let decimals = match self.ledger.decimals(token_mint) {
            Some(d) => d,
            None => return Err(ReceiptErrorCode::InvalidInput),
        };
        let (state, bump) = match ReceiptState::find_state_address(&self.program_id, token_mint) {
            Some(p) => p,
            None => return Err(ReceiptErrorCode::InvalidInput),
        };
        if self.find_record(&state).is_some() {
            return Err(ReceiptErrorCode::DuplicateSetup);
        }
        let (authority, authority_bump) = match ReceiptState::find_vault_authority(&self.program_id, &state) {
            Some(p) => p,
            None => return Err(ReceiptErrorCode::InvalidInput),
        };
        let (vault, vault_bump) = match ReceiptState::find_mint_vault_authority(&self.program_id, &state, token_mint) {
            Some(p) => p,
            None => return Err(ReceiptErrorCode::InvalidInput),
        };
        let (rmint, rmint_bump) = match ReceiptState::find_receipt_mint(&self.program_id, &state) {
            Some(p) => p,
            None => return Err(ReceiptErrorCode::InvalidInput),
        };
        let (rvault, rvault_bump) = match ReceiptState::find_mint_vault_authority(&self.program_id, &state, &rmint) {
            Some(p) => p,
            None => return Err(ReceiptErrorCode::InvalidInput),
        };
        if !self.ledger.is_fresh(&vault) || !self.ledger.is_fresh(&rmint) || !self.ledger.is_fresh(&rvault)
            || vault.same(&rmint) || vault.same(&rvault) || rmint.same(&rvault) || self.ledger.has_metadata(&rmint) {
            return Err(ReceiptErrorCode::DuplicateSetup);
        }
        let lamports: u64 = match metadata {
            Some(args) => match metadata_rent_lamports(args) {
                Some(l) => l,
                None => return Err(ReceiptErrorCode::InvalidInput),
            },
            None => 0,
        };
        let ghost pre = self@;
        let opened = self.ledger.create_account(&vault, token_mint, &authority);
        assert(opened is Ok);
        proof {
            let v = self.ledger@;
            assert(v.is_fresh(rmint@)) by {
                if v.is_account(rmint@) {
                    let k = choose|k: int| 0 <= k < v.accounts.len() && (#[trigger] v.accounts[k]).address@ == rmint@;
                    if k < pre.ledger.accounts.len() {
                        assert(pre.ledger.accounts[k] == v.accounts[k]);
                    }
                }
                if v.is_mint(rmint@) {
                    let k = choose|k: int| 0 <= k < v.mints.len() && (#[trigger] v.mints[k]).address@ == rmint@;
                    assert(pre.ledger.mints[k] == v.mints[k]);
                }
            }
        }
        let pointer = match metadata {
            Some(_) => Some(MetadataPointer { authority, metadata_address: rmint }),
            None => None,
        };
        let created_mint = self.ledger.create_mint(&rmint, decimals, &authority, Some(authority), pointer);
        assert(created_mint is Ok);
        proof {
            let v = self.ledger@;
            let nm = v.mints.len() - 1;
            assert(v.mints[nm].address@ == rmint@);
            assert(v.is_mint(rmint@));
            assert(v.is_fresh(rvault@)) by {
                if v.is_account(rvault@) {
                    let k = choose|k: int| 0 <= k < v.accounts.len() && (#[trigger] v.accounts[k]).address@ == rvault@;
                    if k < pre.ledger.accounts.len() {
                        assert(pre.ledger.accounts[k] == v.accounts[k]);
                    }
                }
                if v.is_mint(rvault@) {
                    let k = choose|k: int| 0 <= k < v.mints.len() && (#[trigger] v.mints[k]).address@ == rvault@;
                    if k < pre.ledger.mints.len() {
                        assert(pre.ledger.mints[k] == v.mints[k]);
                    }
                }
            }
        }
        let opened_receipt = self.ledger.create_account(&rvault, &rmint, &authority);
        assert(opened_receipt is Ok);
        match metadata {
            Some(args) => {
                proof {
                    let v = self.ledger@;
                    let nm = v.mints.len() - 1;
                    crate::ledger::lemma_mint_index(v, nm);
                    assert(!v.has_metadata(rmint@)) by {
                        if v.has_metadata(rmint@) {
                            let k = choose|k: int| 0 <= k < v.metadata.len() && (#[trigger] v.metadata[k]).mint == rmint@;
                            assert(pre.ledger.metadata[k] == v.metadata[k]);
                        }
                    }
                }
                let attached = self.ledger.initialize_metadata(&rmint, args, &authority, &authority);
                assert(attached is Ok);
            },
            None => {},
        }
        let entry = RecordEntry {
            address: state,
            state: ReceiptState {
                authority: *requester,
                token_mint: *token_mint,
                token_mint_vault: vault,
                crypto_receipt_mint: rmint,
                crypto_receipt_vault: rvault,
                bump,
                vault_authority_bump: authority_bump,
                token_mint_vault_bump: vault_bump,
                receipt_mint_bump: rmint_bump,
                receipt_mint_vault_bump: rvault_bump,
            },
        };
        self.records.push(entry);
        proof {
            let v = self@;
            let n = pre.records.len();
            assert(v.records.subrange(0, n as int) =~= pre.records);
            assert(v.ledger.accounts.subrange(0, pre.ledger.accounts.len() as int) =~= pre.ledger.accounts);
            assert(v.ledger.mints.subrange(0, pre.ledger.mints.len() as int) =~= pre.ledger.mints);
            assert forall|i: int, j: int|
                0 <= i < v.records.len() && 0 <= j < v.records.len() && i != j
                implies (#[trigger] v.records[i]).address@ != (#[trigger] v.records[j]).address@ by {
                if i == n {
                    assert(pre.records[j] == v.records[j]);
                } else if j == n {
                    assert(pre.records[i] == v.records[i]);
                } else {
                    assert(pre.records[i] == v.records[i]);
                    assert(pre.records[j] == v.records[j]);
                }
            }
        }
        Ok(SetupOutcome { state_address: state, metadata_lamports: lamports })
    }
}

} // verus!
