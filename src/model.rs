//! The escrow record, the token accounts, the account sets of each operation,
//! and the state transitions that the ledger's operations carry out.
use crate::address::Key;
use vstd::prelude::*;

verus! {

/// Why an operation was refused. A refused operation changes nothing.
#[derive(Clone, Copy, Debug, PartialEq, Eq, Structural)]
pub enum EscrowError {
    /// A source account holds less than the amount to move.
    InsufficientFunds,
    /// The signer is not the identity the operation requires.
    Unauthorized,
    /// A live escrow already exists for this initializer and seed.
    AlreadyExists,
    /// The escrow or an account does not exist, or was already closed.
    NotFound,
    /// An account holds another asset, or belongs to someone else, than the
    /// operation requires.
    AssetMismatch,
    /// A destination balance would exceed `u64::MAX`.
    Overflow,
    /// No bump gives a valid program address for the escrow's seeds.
    AddressUnavailable,
}

/// A custody account holding a quantity of one asset.
#[derive(Clone, Copy, Debug, PartialEq, Eq)]
pub struct TokenAccount {
    /// The identity that may move funds out of the account.
    pub owner: Key,
    /// The asset the account holds.
    pub mint: Key,
    /// The quantity held.
    pub amount: u64,
}

impl TokenAccount {
    pub open spec fn with_amount(self, amount: u64) -> TokenAccount {
        TokenAccount { owner: self.owner, mint: self.mint, amount }
    }
}

/// The terms of one swap.
#[derive(Clone, Copy, Debug, PartialEq, Eq)]
pub struct Escrow {
    pub seed: u64,
    pub bump: u8,
    pub initializer: Key,
    pub mint_a: Key,
    pub mint_b: Key,
    pub initializer_amount: u64,
    pub taker_amount: u64,
}

/// A live escrow in the ledger: its derived address, its record, and the
/// index of its vault.
#[derive(Clone, Copy, Debug, PartialEq, Eq)]
pub struct Slot {
    pub address: Key,
    pub record: Escrow,
    pub vault: usize,
}

/// The accounts of a checked transfer: `amount` of `mint` from `from` to `to`,
/// signed by `authority`.
#[derive(Clone, Copy, Debug, PartialEq, Eq)]
pub struct TransferChecked {
    pub from: usize,
    pub mint: Key,
    pub to: usize,
    pub authority: Key,
}

/// The accounts of `initialize`: the signing initializer, the two assets and
/// the initializer's asset-A account.
#[derive(Clone, Copy, Debug, PartialEq, Eq)]
pub struct Initialize {
    pub initializer: Key,
    pub mint_a: Key,
    pub mint_b: Key,
    pub initializer_ata_a: usize,
}

/// The accounts of `cancel`: the signing initializer, the escrow, its vault and
/// the initializer's asset-A account that receives the refund.
#[derive(Clone, Copy, Debug, PartialEq, Eq)]
pub struct Cancel {
    pub initializer: Key,
    pub initializer_ata_a: usize,
    pub escrow: usize,
    pub vault: usize,
}

/// The accounts of `exchange`: the signing counterparty, its asset-A and
/// asset-B accounts, the initializer's asset-B account, the escrow and its vault.
#[derive(Clone, Copy, Debug, PartialEq, Eq)]
pub struct Exchange {
    pub taker: Key,
    pub taker_ata_a: usize,
    pub taker_ata_b: usize,
    pub initializer_ata_b: usize,
    pub escrow: usize,
    pub vault: usize,
}

/// The state of a ledger: its program id, its accounts and its escrows, each
/// by index; a closed account or escrow stays as `None`, so an index is never
/// reused.
pub struct LedgerView {
    pub program_id: Key,
    pub accounts: Seq<Option<TokenAccount>>,
    pub escrows: Seq<Option<Slot>>,
}

/// The account at index `i`, if it exists.
pub open spec fn account_at(accounts: Seq<Option<TokenAccount>>, i: int) -> Option<TokenAccount> {
    if 0 <= i < accounts.len() {
        accounts[i]
    } else {
        None
    }
}

/// What a checked transfer of `amount` does to `accounts`: the new accounts,
/// or why it is refused.
pub open spec fn transfer_outcome(
    accounts: Seq<Option<TokenAccount>>,
    t: TransferChecked,
    amount: u64,
) -> Result<Seq<Option<TokenAccount>>, EscrowError> {
    let from = account_at(accounts, t.from as int);
    let to = account_at(accounts, t.to as int);
    if from is None || to is None {
        Err(EscrowError::NotFound)
    } else if from->Some_0.mint != t.mint || to->Some_0.mint != t.mint {
        Err(EscrowError::AssetMismatch)
    } else if from->Some_0.owner != t.authority {
        Err(EscrowError::Unauthorized)
    } else if from->Some_0.amount < amount {
        Err(EscrowError::InsufficientFunds)
    } else {
        let f = from->Some_0;
        let debited = accounts.update(t.from as int, Some(f.with_amount((f.amount - amount) as u64)));
        let d = debited[t.to as int]->Some_0;
        if d.amount + amount > u64::MAX {
            Err(EscrowError::Overflow)
        } else {
            Ok(debited.update(t.to as int, Some(d.with_amount((d.amount + amount) as u64))))
        }
    }
}

impl LedgerView {
    pub open spec fn account(self, i: int) -> Option<TokenAccount> {
        account_at(self.accounts, i)
    }

    /// The live escrow at index `k`, if any.
    pub open spec fn slot(self, k: int) -> Option<Slot> {
        if 0 <= k < self.escrows.len() {
            self.escrows[k]
        } else {
            None
        }
    }

    /// Whether a live escrow exists for `initializer` and `seed`.
    pub open spec fn has_live(self, initializer: Key, seed: u64) -> bool {
        exists|k: int|
            0 <= k < self.escrows.len() && (#[trigger] self.escrows[k] matches Some(s)
                && s.record.initializer == initializer && s.record.seed == seed)
    }

    /// Every live escrow has a live vault of asset A under its derived
    /// address; no two live escrows share an initializer and seed, or a vault.
    pub open spec fn wf(self) -> bool {
        &&& forall|k: int|
            0 <= k < self.escrows.len() && (#[trigger] self.escrows[k]) is Some ==> {
                let s = self.escrows[k]->Some_0;
                &&& self.account(s.vault as int) is Some
                &&& self.account(s.vault as int)->Some_0.owner == s.address
                &&& self.account(s.vault as int)->Some_0.mint == s.record.mint_a
            }
        &&& forall|k1: int, k2: int|
            0 <= k1 < self.escrows.len() && 0 <= k2 < self.escrows.len() && k1 != k2
                && (#[trigger] self.escrows[k1]) is Some && (#[trigger] self.escrows[k2]) is Some
                ==> {
                let s1 = self.escrows[k1]->Some_0;
                let s2 = self.escrows[k2]->Some_0;
                &&& (s1.record.initializer != s2.record.initializer || s1.record.seed != s2.record.seed)
                &&& s1.vault != s2.vault
            }
    }

    /// `initialize` once the escrow's address and bump are derived: the new
    /// state and the index of the new escrow, or the unchanged state and why.
    pub open spec fn open_step(
        self,
        ctx: Initialize,
        seed: u64,
        bump: u8,
        address: Key,
        initializer_amount: u64,
        taker_amount: u64,
    ) -> (LedgerView, Result<usize, EscrowError>) {
        let src = self.account(ctx.initializer_ata_a as int);
        if src is None {
            (self, Err(EscrowError::NotFound))
        } else if src->Some_0.mint != ctx.mint_a || src->Some_0.owner != ctx.initializer {
            (self, Err(EscrowError::AssetMismatch))
        } else if self.has_live(ctx.initializer, seed) {
            (self, Err(EscrowError::AlreadyExists))
        } else if src->Some_0.amount < initializer_amount {
            (self, Err(EscrowError::InsufficientFunds))
        } else {
            let s = src->Some_0;
            let vault = TokenAccount { owner: address, mint: ctx.mint_a, amount: initializer_amount };
            let slot = Slot {
                address,
                record: ctx.record(seed, bump, initializer_amount, taker_amount),
                vault: self.accounts.len() as usize,
            };
            (
                LedgerView {
                    program_id: self.program_id,
                    accounts: self.accounts.update(
                        ctx.initializer_ata_a as int,
                        Some(s.with_amount((s.amount - initializer_amount) as u64)),
                    ).push(Some(vault)),
                    escrows: self.escrows.push(Some(slot)),
                },
                Ok(self.escrows.len() as usize),
            )
        }
    }

    /// The state without escrow `k` and its vault, with `accounts` in place
    /// of the old accounts.
    pub open spec fn close(self, accounts: Seq<Option<TokenAccount>>, k: int) -> LedgerView {
        let s = self.escrows[k]->Some_0;
        LedgerView {
            program_id: self.program_id,
            accounts: accounts.update(s.vault as int, None),
            escrows: self.escrows.update(k, None),
        }
    }

    /// `cancel`: the new state, or the unchanged state and why.
    pub open spec fn cancel_step(self, c: Cancel) -> (LedgerView, Result<(), EscrowError>) {
        let slot = self.slot(c.escrow as int);
        if slot is None {
            (self, Err(EscrowError::NotFound))
        } else {
            let s = slot->Some_0;
            let dest = self.account(c.initializer_ata_a as int);
            if c.initializer != s.record.initializer {
                (self, Err(EscrowError::Unauthorized))
            } else if c.vault != s.vault || c.initializer_ata_a == s.vault {
                (self, Err(EscrowError::AssetMismatch))
            } else if dest is None {
                (self, Err(EscrowError::NotFound))
            } else if dest->Some_0.owner != s.record.initializer {
                (self, Err(EscrowError::AssetMismatch))
            } else {
                let out = TransferChecked {
                    from: s.vault,
                    mint: s.record.mint_a,
                    to: c.initializer_ata_a,
                    authority: s.address,
                };
                match transfer_outcome(
                    self.accounts,
                    out,
                    self.account(s.vault as int)->Some_0.amount,
                ) {
                    Err(e) => (self, Err(e)),
                    Ok(a) => (self.close(a, c.escrow as int), Ok(())),
                }
            }
        }
    }

    /// `exchange`: the new state, or the unchanged state and why.
    pub open spec fn exchange_step(self, e: Exchange) -> (LedgerView, Result<(), EscrowError>) {
        let slot = self.slot(e.escrow as int);
        if slot is None {
            (self, Err(EscrowError::NotFound))
        } else {
            let s = slot->Some_0;
            let recv = self.account(e.initializer_ata_b as int);
            let dest = self.account(e.taker_ata_a as int);
            if e.vault != s.vault || e.taker_ata_a == s.vault || e.taker_ata_b == s.vault
                || e.initializer_ata_b == s.vault {
                (self, Err(EscrowError::AssetMismatch))
            } else if recv is None || dest is None {
                (self, Err(EscrowError::NotFound))
            } else if recv->Some_0.owner != s.record.initializer || dest->Some_0.owner != e.taker {
                (self, Err(EscrowError::AssetMismatch))
            } else {
                let pay = TransferChecked {
                    from: e.taker_ata_b,
                    mint: s.record.mint_b,
                    to: e.initializer_ata_b,
                    authority: e.taker,
                };
                let out = TransferChecked {
                    from: s.vault,
                    mint: s.record.mint_a,
                    to: e.taker_ata_a,
                    authority: s.address,
                };
                match transfer_outcome(self.accounts, pay, s.record.taker_amount) {
                    Err(err) => (self, Err(err)),
                    Ok(a1) => match transfer_outcome(
                        a1,
                        out,
                        self.account(s.vault as int)->Some_0.amount,
                    ) {
                        Err(err) => (self, Err(err)),
                        Ok(a2) => (self.close(a2, e.escrow as int), Ok(())),
                    },
                }
            }
        }
    }
}


/// Whether `a` holds the same accounts as `b`, with the same owners and
/// assets, whatever their balances.
pub open spec fn same_shape(a: Seq<Option<TokenAccount>>, b: Seq<Option<TokenAccount>>) -> bool {
    &&& a.len() == b.len()
    &&& forall|i: int|
        0 <= i < a.len() ==> ((#[trigger] a[i]) is Some <==> b[i] is Some) && (a[i] is Some ==> a[i]->Some_0.owner
            == b[i]->Some_0.owner && a[i]->Some_0.mint == b[i]->Some_0.mint)
}

/// A transfer changes balances only.
pub proof fn lemma_transfer_shape(accounts: Seq<Option<TokenAccount>>, t: TransferChecked, amount: u64)
    requires
        transfer_outcome(accounts, t, amount) is Ok,
    ensures
        same_shape(transfer_outcome(accounts, t, amount)->Ok_0, accounts),
{
}

impl LedgerView {
    /// Closing a live escrow, after its accounts changed balances only, keeps
    /// the ledger well formed.
    pub proof fn lemma_close_wf(self, a: Seq<Option<TokenAccount>>, k: int)
        requires
            self.wf(),
            same_shape(a, self.accounts),
            self.slot(k) is Some,
        ensures
            self.close(a, k).wf(),
    {
        let n = self.close(a, k);
        assert forall|j: int| 0 <= j < n.escrows.len() && (#[trigger] n.escrows[j]) is Some implies {
            let s = n.escrows[j]->Some_0;
            &&& n.account(s.vault as int) is Some
            &&& n.account(s.vault as int)->Some_0.owner == s.address
            &&& n.account(s.vault as int)->Some_0.mint == s.record.mint_a
        } by {
            assert(self.escrows[j] is Some);
            assert(self.escrows[k] is Some);
            let s = n.escrows[j]->Some_0;
            assert(self.account(s.vault as int) is Some);
            assert(a[s.vault as int] is Some);
        }
        assert forall|k1: int, k2: int|
            0 <= k1 < n.escrows.len() && 0 <= k2 < n.escrows.len() && k1 != k2
                && (#[trigger] n.escrows[k1]) is Some && (#[trigger] n.escrows[k2]) is Some
                implies {
                let s1 = n.escrows[k1]->Some_0;
                let s2 = n.escrows[k2]->Some_0;
                &&& (s1.record.initializer != s2.record.initializer || s1.record.seed != s2.record.seed)
                &&& s1.vault != s2.vault
            } by {
            assert(self.escrows[k1] is Some);
            assert(self.escrows[k2] is Some);
        }
    }
}

impl Initialize {
    pub open spec fn record(self, seed: u64, bump: u8, initializer_amount: u64, taker_amount: u64) -> Escrow {
        Escrow {
            seed,
            bump,
            initializer: self.initializer,
            mint_a: self.mint_a,
            mint_b: self.mint_b,
            initializer_amount,
            taker_amount,
        }
    }

    /// The escrow record that `initialize` stores.
    pub fn initalize_escrow(
        &self,
        seed: u64,
        bump: u8,
        initalizer_amount: u64,
        taker_amount: u64,
    ) -> (r: Escrow)
        ensures
            r == self.record(seed, bump, initalizer_amount, taker_amount),
    {
        Escrow {
            seed,
            bump,
            initializer: self.initializer,
            mint_a: self.mint_a,
            mint_b: self.mint_b,
            initializer_amount: initalizer_amount,
            taker_amount,
        }
    }

    /// The transfer that funds `vault` from the initializer's asset-A account.
    pub fn into_deposit_contenxt(&self, vault: usize) -> (r: TransferChecked)
        ensures
            r == (TransferChecked {
                from: self.initializer_ata_a,
                mint: self.mint_a,
                to: vault,
                authority: self.initializer,
            }),
    {
        TransferChecked {
            from: self.initializer_ata_a,
            mint: self.mint_a,
            to: vault,
            authority: self.initializer,
        }
    }
}

} // verus!
