//! What holds of the protocol across operations.

use vstd::prelude::*;
use crate::error::ReceiptErrorCode;
use crate::ledger::{LedgerView, TokenMetadataArgs, held, lemma_account_index, lemma_mint_index, lemma_transferred, lemma_minted, lemma_held_bound};
use crate::protocol::{ProtocolView, DepositRequest, derived, lemma_record_index};
use crate::state::{ReceiptState, vault_authority_seeds, mint_vault_seeds, receipt_mint_seeds};

verus! {

/// The receipt supply of a record equals the balance of its escrow.
pub open spec fn backed(v: LedgerView, rec: ReceiptState) -> bool {
    v.supply(rec.crypto_receipt_mint@) == v.balance(rec.token_mint_vault@)
}

/// Once an asset is set up, setting it up again fails with `DuplicateSetup`,
/// whoever asks and with whatever metadata.
pub proof fn setup_is_unique(
    p: ProtocolView,
    new: ProtocolView,
    requester: Seq<u8>,
    token_mint: Seq<u8>,
    metadata: Option<TokenMetadataArgs>,
    again: Option<TokenMetadataArgs>,
)
    requires
        p.wf(),
        p.setup_error(token_mint, metadata) is None,
        p.setup_done(new, requester, token_mint, metadata),
    ensures
        new.setup_error(token_mint, again) == Some(ReceiptErrorCode::DuplicateSetup),
{
    let k = p.ledger.mint_index(token_mint);
    assert(new.ledger.mints.subrange(0, p.ledger.mints.len() as int)[k] == new.ledger.mints[k]);
    assert(new.ledger.mints[k].address@ == token_mint);
    assert(new.ledger.is_mint(token_mint));
    let n = p.records.len() as int;
    assert(new.records[n].address@ == p.state_of(token_mint).0);
    assert(new.has_record(new.state_of(token_mint).0));
}

/// In every well-formed state an underlying asset has at most one record.
pub proof fn one_record_per_asset(p: ProtocolView, i: int, j: int)
    requires
        p.wf(),
        0 <= i < p.records.len(),
        0 <= j < p.records.len(),
        p.records[i].state.token_mint@ == p.records[j].state.token_mint@,
    ensures
        i == j,
{
    assert(p.stands_at_derived_address(p.records[i]));
    assert(p.stands_at_derived_address(p.records[j]));
}

/// A transfer out of an account signed by anyone but its owner is refused,
/// and so is a mint authorised by anyone but the asset's mint authority.
pub proof fn only_owner_moves_funds(v: LedgerView, from: Seq<u8>, to: Seq<u8>, mint: Seq<u8>, amount: u64, signer: Seq<u8>)
    ensures
        v.is_account(from) && v.account(from).owner@ != signer ==> v.transfer_error(from, to, amount, signer) is Some,
        v.is_mint(mint) && v.mint(mint).mint_authority@ != signer ==> v.mint_error(mint, to, amount, signer) is Some,
{
}

/// After setup, the underlying escrow can be moved from, and the receipt
/// asset minted, only under the derived authority.
pub proof fn setup_binds_authority(
    p: ProtocolView,
    new: ProtocolView,
    requester: Seq<u8>,
    token_mint: Seq<u8>,
    metadata: Option<TokenMetadataArgs>,
    to: Seq<u8>,
    amount: u64,
    signer: Seq<u8>,
)
    requires
        p.wf(),
        new.wf(),
        p.setup_error(token_mint, metadata) is None,
        p.setup_done(new, requester, token_mint, metadata),
        signer != derived(vault_authority_seeds(p.state_of(token_mint).0), p.program_id).0,
    ensures
        new.ledger.transfer_error(derived(mint_vault_seeds(p.state_of(token_mint).0, token_mint), p.program_id).0, to, amount, signer) is Some,
        new.ledger.mint_error(derived(receipt_mint_seeds(p.state_of(token_mint).0), p.program_id).0, to, amount, signer) is Some,
{
    let na = p.ledger.accounts.len() as int;
    let nm = p.ledger.mints.len() as int;
    lemma_account_index(new.ledger, na);
    lemma_mint_index(new.ledger, nm);
}

/// A new record starts backed: no receipts and an empty escrow; and the
/// receipt asset has the decimal precision of the underlying asset.
pub proof fn setup_starts_backed(
    p: ProtocolView,
    new: ProtocolView,
    requester: Seq<u8>,
    token_mint: Seq<u8>,
    metadata: Option<TokenMetadataArgs>,
)
    requires
        p.wf(),
        new.wf(),
        p.setup_error(token_mint, metadata) is None,
        p.setup_done(new, requester, token_mint, metadata),
    ensures
        new.has_record(p.state_of(token_mint).0),
        backed(new.ledger, new.record(p.state_of(token_mint).0)),
        new.ledger.supply(new.record(p.state_of(token_mint).0).crypto_receipt_mint@) == 0,
        new.ledger.balance(new.record(p.state_of(token_mint).0).token_mint_vault@) == 0,
        new.ledger.mint(new.record(p.state_of(token_mint).0).crypto_receipt_mint@).decimals
            == p.ledger.mint(token_mint).decimals,
{
    let n = p.records.len() as int;
    lemma_record_index(new, n);
    let na = p.ledger.accounts.len() as int;
    let nm = p.ledger.mints.len() as int;
    lemma_account_index(new.ledger, na);
    lemma_mint_index(new.ledger, nm);
}

/// A successful deposit adds its amount to the escrow's balance, to the
/// receipt supply and to the user's receipts, so a backed record stays
/// backed.
pub proof fn deposit_keeps_backing(p: ProtocolView, req: DepositRequest)
    requires
        p.wf(),
        p.deposit_error(req) is None,
    ensures
        p.deposit_effect(req).ledger.balance(req.token_mint_vault@) == p.ledger.balance(req.token_mint_vault@) + req.amount,
        p.deposit_effect(req).ledger.supply(req.crypto_receipt_mint@) == p.ledger.supply(req.crypto_receipt_mint@) + req.amount,
        p.deposit_effect(req).ledger.balance(req.user_receipt_account@)
            == p.ledger.balance(req.user_receipt_account@) + req.amount,
        backed(p.ledger, p.record(req.receipt_state@)) ==> backed(p.deposit_effect(req).ledger, p.record(req.receipt_state@)),
{
    let v = p.ledger;
    let from = req.user_token_account@;
    let vault = req.token_mint_vault@;
    let dest = req.user_receipt_account@;
    let rmint = req.crypto_receipt_mint@;
    let w = v.transferred(from, vault, req.amount);
    lemma_transferred(v, from, vault, req.amount, req.user@, dest);
    lemma_transferred(v, from, vault, req.amount, req.user@, vault);
    lemma_transferred(v, from, vault, req.amount, req.user@, rmint);
    assert(dest != from && dest != vault);
    let authority = p.signer_of(req.receipt_state@).unwrap();
    lemma_minted(w, rmint, dest, req.amount, authority, vault);
}

/// Under the backing invariant the mint step of a deposit cannot overflow:
/// once the transfer into escrow is accepted, the receipt supply and the
/// user's receipt account both have room for the amount.
pub proof fn backed_mint_fits(p: ProtocolView, req: DepositRequest)
    requires
        p.wf(),
        p.has_record(req.receipt_state@),
        p.record(req.receipt_state@).token_mint_vault@ == req.token_mint_vault@,
        p.record(req.receipt_state@).crypto_receipt_mint@ == req.crypto_receipt_mint@,
        backed(p.ledger, p.record(req.receipt_state@)),
        req.token_mint@ != req.crypto_receipt_mint@,
        p.ledger.is_account(req.user_token_account@),
        p.ledger.account(req.user_token_account@).mint@ == req.token_mint@,
        p.ledger.is_account(req.user_receipt_account@),
        p.ledger.account(req.user_receipt_account@).mint@ == req.crypto_receipt_mint@,
        p.ledger.transfer_error(req.user_token_account@, req.token_mint_vault@, req.amount, req.user@) is None,
    ensures
        p.ledger.transferred(req.user_token_account@, req.token_mint_vault@, req.amount)
            .supply(req.crypto_receipt_mint@) + req.amount <= u64::MAX,
        p.ledger.transferred(req.user_token_account@, req.token_mint_vault@, req.amount)
            .account(req.user_receipt_account@).amount + req.amount <= u64::MAX,
{
    let v = p.ledger;
    let from = req.user_token_account@;
    let vault = req.token_mint_vault@;
    let dest = req.user_receipt_account@;
    let tm = req.token_mint@;
    let rm = req.crypto_receipt_mint@;
    lemma_transferred(v, from, vault, req.amount, req.user@, dest);
    let i = v.account_index(from);
    let j = v.account_index(vault);
    let d = v.account_index(dest);
    assert(v.accounts[i].address@ == from);
    assert(v.accounts[j].address@ == vault);
    assert(i != j);
    assert(v.is_mint(v.accounts[i].mint@));
    assert(v.is_mint(v.accounts[d].mint@));
    let k = v.mint_index(tm);
    assert(held(v.accounts, v.mints[k].address@) == v.mints[k].supply);
    lemma_held_bound(v.accounts, i, j, tm);
    let kr = v.mint_index(rm);
    assert(held(v.accounts, v.mints[kr].address@) == v.mints[kr].supply);
    lemma_held_bound(v.accounts, d, d, rm);
}

/// The total of the requests in a run that are accepted.
pub open spec fn accepted_total(p: ProtocolView, reqs: Seq<DepositRequest>) -> int
    decreases reqs.len(),
{
    if reqs.len() == 0 {
        0
    } else {
        let q = after_deposits(p, reqs.drop_last());
        accepted_total(p, reqs.drop_last()) + if q.deposit_error(reqs.last()) is None {
            reqs.last().amount as int
        } else {
            0
        }
    }
}

/// The state after a run of deposit requests, each applied where it is
/// accepted and leaving the state as it was where it is refused.
pub open spec fn after_deposits(p: ProtocolView, reqs: Seq<DepositRequest>) -> ProtocolView
    decreases reqs.len(),
{
    if reqs.len() == 0 {
        p
    } else {
        let q = after_deposits(p, reqs.drop_last());
        if q.deposit_error(reqs.last()) is None {
            q.deposit_effect(reqs.last())
        } else {
            q
        }
    }
}

/// After any run of deposits into the record at `state`, a record that was
/// backed is still backed: receipt supply equals the escrow's balance.
pub proof fn deposits_keep_backing(p: ProtocolView, reqs: Seq<DepositRequest>, state: Seq<u8>)
    requires
        p.wf(),
        backed(p.ledger, p.record(state)),
        forall|i: int| 0 <= i < reqs.len() ==> (#[trigger] reqs[i]).receipt_state@ == state,
    ensures
        after_deposits(p, reqs).wf(),
        after_deposits(p, reqs).records == p.records,
        backed(after_deposits(p, reqs).ledger, p.record(state)),
        p.has_record(state) ==> after_deposits(p, reqs).ledger.balance(p.record(state).token_mint_vault@)
            == p.ledger.balance(p.record(state).token_mint_vault@) + accepted_total(p, reqs),
        p.has_record(state) ==> after_deposits(p, reqs).ledger.supply(p.record(state).crypto_receipt_mint@)
            == p.ledger.supply(p.record(state).crypto_receipt_mint@) + accepted_total(p, reqs),
    decreases reqs.len(),
{
    if reqs.len() > 0 {
        let rest = reqs.drop_last();
        assert forall|i: int| 0 <= i < rest.len() implies (#[trigger] rest[i]).receipt_state@ == state by {
            assert(rest[i] == reqs[i]);
        }
        deposits_keep_backing(p, rest, state);
        let q = after_deposits(p, rest);
        let req = reqs.last();
        assert(req == reqs[reqs.len() - 1]);
        if q.deposit_error(req) is None {
            deposit_keeps_backing(q, req);
            let w = q.ledger.transferred(req.user_token_account@, req.token_mint_vault@, req.amount);
            lemma_transferred(q.ledger, req.user_token_account@, req.token_mint_vault@, req.amount, req.user@, req.user_receipt_account@);
            lemma_minted(w, req.crypto_receipt_mint@, req.user_receipt_account@, req.amount,
                q.signer_of(state).unwrap(), req.user_receipt_account@);
        }
    }
}

} // verus!
