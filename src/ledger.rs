//! The ledger: token accounts and live escrows, and the three escrow
//! operations, each of which applies all of its effects or none.
use crate::address::{derive_escrow_address, escrow_address, key_eq, Key};
use crate::model::{
    lemma_transfer_shape, transfer_outcome, Cancel, Escrow, EscrowError, Exchange, Initialize, LedgerView, Slot,
    TokenAccount, TransferChecked,
};
use vstd::prelude::*;

verus! {

/// Token accounts and escrows of one escrow program.
pub struct Ledger {
    program_id: Key,
    accounts: Vec<Option<TokenAccount>>,
    escrows: Vec<Option<Slot>>,
}

impl View for Ledger {
    type V = LedgerView;

    closed spec fn view(&self) -> LedgerView {
        LedgerView { program_id: self.program_id, accounts: self.accounts@, escrows: self.escrows@ }
    }
}

impl Ledger {
    /// An empty ledger for the program `program_id`.
    pub fn new(program_id: Key) -> (r: Ledger)
        ensures
            r@ == (LedgerView { program_id, accounts: Seq::empty(), escrows: Seq::empty() }),
            r@.wf(),
    {
        let r = Ledger { program_id, accounts: Vec::new(), escrows: Vec::new() };
        assert(r@.accounts =~= Seq::empty());
        assert(r@.escrows =~= Seq::empty());
        r
    }

    /// The program id the escrows' addresses are derived for.
    pub fn program_id(&self) -> (r: Key)
        ensures
            r == self@.program_id,
    {
        self.program_id
    }

    /// Creates a token account of `mint` owned by `owner` and holding
    /// `amount`, and returns its index.
    pub fn open_account(&mut self, owner: Key, mint: Key, amount: u64) -> (r: usize)
        requires
            old(self)@.wf(),
        ensures
            r == old(self)@.accounts.len(),
            final(self)@ == (LedgerView {
                accounts: old(self)@.accounts.push(Some(TokenAccount { owner, mint, amount })),
                ..old(self)@
            }),
            final(self)@.wf(),
    {
        let r = self.accounts.len();
        self.accounts.push(Some(TokenAccount { owner, mint, amount }));
        proof {
            let v = self@;
            assert forall|k: int| 0 <= k < v.escrows.len() && (#[trigger] v.escrows[k]) is Some implies {
                let s = v.escrows[k]->Some_0;
                &&& v.account(s.vault as int) == old(self)@.account(s.vault as int)
            } by {
                let s = v.escrows[k]->Some_0;
                assert(old(self)@.escrows[k] is Some);
                assert(old(self)@.account(s.vault as int) is Some);
            }
        }
        r
    }

    /// The account at index `i`, if it exists.
    pub fn account(&self, i: usize) -> (r: Option<TokenAccount>)
        ensures
            r == self@.account(i as int),
    {
        if i < self.accounts.len() {
            self.accounts[i]
        } else {
            None
        }
    }

    /// The balance of the account at index `i`, if it exists.
    pub fn balance(&self, i: usize) -> (r: Option<u64>)
        ensures
            r == (match self@.account(i as int) {
                Some(a) => Some(a.amount),
                None => None,
            }),
    {
        match self.account(i) {
            Some(a) => Some(a.amount),
            None => None,
        }
    }

    /// The live escrow at index `k`, if any.
    pub fn slot(&self, k: usize) -> (r: Option<Slot>)
        ensures
            r == self@.slot(k as int),
    {
        if k < self.escrows.len() {
            self.escrows[k]
        } else {
            None
        }
    }

    /// The record of the live escrow at index `k`, if any.
    pub fn escrow(&self, k: usize) -> (r: Option<Escrow>)
        ensures
            r == (match self@.slot(k as int) {
                Some(s) => Some(s.record),
                None => None,
            }),
    {
        match self.slot(k) {
            Some(s) => Some(s.record),
            None => None,
        }
    }

    /// Whether a live escrow exists for `initializer` and `seed`.
    pub fn find_live(&self, initializer: &Key, seed: u64) -> (r: bool)
        ensures
            r == self@.has_live(*initializer, seed),
    {
        let mut i: usize = 0;
        while i < self.escrows.len()
            invariant
                0 <= i <= self.escrows@.len(),
                forall|j: int|
                    0 <= j < i ==> !(#[trigger] self.escrows@[j] matches Some(s)
                        && s.record.initializer == *initializer && s.record.seed == seed),
            decreases self.escrows@.len() - i,
        {
            match self.escrows[i] {
                Some(s) => {
                    if key_eq(&s.record.initializer, initializer) && s.record.seed == seed {
                        assert(self.escrows@[i as int] matches Some(s)
                            && s.record.initializer == *initializer && s.record.seed == seed);
                        return true;
                    }
                },
                None => {},
            }
            i = i + 1;
        }
        false
    }

    /// Opens an escrow whose derived address and bump are `address` and
    /// `bump`: records the terms, creates a vault of asset A under `address`,
    /// and moves `initializer_amount` into it. Returns the escrow's index.
    pub fn initialize_at(
        &mut self,
        ctx: &Initialize,
        seed: u64,
        bump: u8,
        address: Key,
        initializer_amount: u64,
        taker_amount: u64,
    ) -> (r: Result<usize, EscrowError>)
        requires
            old(self)@.wf(),
        ensures
            (final(self)@, r) == old(self)@.open_step(
                *ctx,
                seed,
                bump,
                address,
                initializer_amount,
                taker_amount,
            ),
            final(self)@.wf(),
    {
        let ghost v0 = self@;
        let src = match self.account(ctx.initializer_ata_a) {
            Some(a) => a,
            None => return Err(EscrowError::NotFound),
        };
        if !key_eq(&src.mint, &ctx.mint_a) || !key_eq(&src.owner, &ctx.initializer) {
            return Err(EscrowError::AssetMismatch);
        }
        if self.find_live(&ctx.initializer, seed) {
            return Err(EscrowError::AlreadyExists);
        }
        if src.amount < initializer_amount {
            return Err(EscrowError::InsufficientFunds);
        }
        let vault = self.accounts.len();
        self.accounts.push(Some(TokenAccount { owner: address, mint: ctx.mint_a, amount: 0 }));
        let k = self.escrows.len();
        let record = ctx.initalize_escrow(seed, bump, initializer_amount, taker_amount);
        self.escrows.push(Some(Slot { address, record, vault }));
        let deposited = ctx.deposit(self, vault, initializer_amount);
        proof {
            let expected = v0.open_step(*ctx, seed, bump, address, initializer_amount, taker_amount).0;
            assert(self@.accounts =~= expected.accounts);
            assert(self@.escrows =~= expected.escrows);
            let v = self@;
            assert forall|j: int| 0 <= j < v.escrows.len() && (#[trigger] v.escrows[j]) is Some implies {
                let s = v.escrows[j]->Some_0;
                &&& v.account(s.vault as int) is Some
                &&& v.account(s.vault as int)->Some_0.owner == s.address
                &&& v.account(s.vault as int)->Some_0.mint == s.record.mint_a
            } by {
                if j < k {
                    assert(v0.escrows[j] is Some);
                }
            }
            assert forall|k1: int, k2: int|
                0 <= k1 < v.escrows.len() && 0 <= k2 < v.escrows.len() && k1 != k2
                    && (#[trigger] v.escrows[k1]) is Some && (#[trigger] v.escrows[k2]) is Some
                    implies {
                    let s1 = v.escrows[k1]->Some_0;
                    let s2 = v.escrows[k2]->Some_0;
                    &&& (s1.record.initializer != s2.record.initializer || s1.record.seed != s2.record.seed)
                    &&& s1.vault != s2.vault
                } by {
                if k1 < k {
                    assert(v0.escrows[k1] is Some);
                    assert(v0.account(v0.escrows[k1]->Some_0.vault as int) is Some);
                }
                if k2 < k {
                    assert(v0.escrows[k2] is Some);
                    assert(v0.account(v0.escrows[k2]->Some_0.vault as int) is Some);
                }
                if k1 == k {
                    assert(!(v0.escrows[k2] matches Some(s) && s.record.initializer == ctx.initializer
                        && s.record.seed == seed));
                }
                if k2 == k {
                    assert(!(v0.escrows[k1] matches Some(s) && s.record.initializer == ctx.initializer
                        && s.record.seed == seed));
                }
            }
        }
        match deposited {
            Ok(()) => Ok(k),
            Err(e) => Err(e),
        }
    }

    /// Opens an escrow for `ctx.initializer` and `seed` at the address derived
    /// from them and the program id; see `initialize_at`.
    pub fn initialize(
        &mut self,
        ctx: &Initialize,
        seed: u64,
        initializer_amount: u64,
        taker_amount: u64,
    ) -> (r: Result<usize, EscrowError>)
        requires
            old(self)@.wf(),
        ensures
            final(self)@.wf(),
            match escrow_address(old(self)@.program_id, ctx.initializer, seed) {
                None => r == Err::<usize, EscrowError>(EscrowError::AddressUnavailable)
                    && final(self)@ == old(self)@,
                Some(d) => (final(self)@, r) == old(self)@.open_step(
                    *ctx,
                    seed,
                    d.1,
                    d.0,
                    initializer_amount,
                    taker_amount,
                ),
            },
    {
        match derive_escrow_address(&self.program_id, &ctx.initializer, seed) {
            None => Err(EscrowError::AddressUnavailable),
            Some((address, bump)) => self.initialize_at(
                ctx,
                seed,
                bump,
                address,
                initializer_amount,
                taker_amount,
            ),
        }
    }

    /// Refunds the vault of escrow `c.escrow` to the initializer's asset-A
    /// account, then closes the vault and the escrow.
    pub fn cancel(&mut self, c: &Cancel) -> (r: Result<(), EscrowError>)
        requires
            old(self)@.wf(),
        ensures
            (final(self)@, r) == old(self)@.cancel_step(*c),
            final(self)@.wf(),
    {
        let ghost v0 = self@;
        let s = match self.slot(c.escrow) {
            Some(s) => s,
            None => return Err(EscrowError::NotFound),
        };
        if !key_eq(&c.initializer, &s.record.initializer) {
            return Err(EscrowError::Unauthorized);
        }
        if c.vault != s.vault || c.initializer_ata_a == s.vault {
            return Err(EscrowError::AssetMismatch);
        }
        let dest = match self.account(c.initializer_ata_a) {
            Some(a) => a,
            None => return Err(EscrowError::NotFound),
        };
        if !key_eq(&dest.owner, &s.record.initializer) {
            return Err(EscrowError::AssetMismatch);
        }
        proof {
            assert(v0.escrows[c.escrow as int] is Some);
        }
        let amount = match self.account(s.vault) {
            Some(v) => v.amount,
            None => 0,
        };
        let out = TransferChecked {
            from: s.vault,
            mint: s.record.mint_a,
            to: c.initializer_ata_a,
            authority: s.address,
        };
        match self.transfer_checked(&out, amount) {
            Ok(()) => {},
            Err(e) => return Err(e),
        }
        proof {
            lemma_transfer_shape(v0.accounts, out, amount);
            v0.lemma_close_wf(self@.accounts, c.escrow as int);
        }
        self.accounts.set(s.vault, None);
        self.escrows.set(c.escrow, None);
        Ok(())
    }

    /// Moves `taker_amount` of asset B from the counterparty to the
    /// initializer and the vault's whole balance of asset A to the
    /// counterparty, then closes the vault and the escrow.
    pub fn exchange(&mut self, e: &Exchange) -> (r: Result<(), EscrowError>)
        requires
            old(self)@.wf(),
        ensures
            (final(self)@, r) == old(self)@.exchange_step(*e),
            final(self)@.wf(),
    {
        let ghost v0 = self@;
        let s = match self.slot(e.escrow) {
            Some(s) => s,
            None => return Err(EscrowError::NotFound),
        };
        if e.vault != s.vault || e.taker_ata_a == s.vault || e.taker_ata_b == s.vault
            || e.initializer_ata_b == s.vault {
            return Err(EscrowError::AssetMismatch);
        }
        let (recv, dest) = match (self.account(e.initializer_ata_b), self.account(e.taker_ata_a)) {
            (Some(recv), Some(dest)) => (recv, dest),
            _ => return Err(EscrowError::NotFound),
        };
        if !key_eq(&recv.owner, &s.record.initializer) || !key_eq(&dest.owner, &e.taker) {
            return Err(EscrowError::AssetMismatch);
        }
        proof {
            assert(v0.escrows[e.escrow as int] is Some);
        }
        let amount = match self.account(s.vault) {
            Some(v) => v.amount,
            None => 0,
        };
        let saved_from = self.account(e.taker_ata_b);
        let saved_to = self.account(e.initializer_ata_b);
        let pay = TransferChecked {
            from: e.taker_ata_b,
            mint: s.record.mint_b,
            to: e.initializer_ata_b,
            authority: e.taker,
        };
        match self.transfer_checked(&pay, s.record.taker_amount) {
            Ok(()) => {},
            Err(err) => return Err(err),
        }
        let ghost a1 = self@.accounts;
        let out = TransferChecked {
            from: s.vault,
            mint: s.record.mint_a,
            to: e.taker_ata_a,
            authority: s.address,
        };
        match self.transfer_checked(&out, amount) {
            Ok(()) => {},
            Err(err) => {
                self.accounts.set(e.initializer_ata_b, saved_to);
                self.accounts.set(e.taker_ata_b, saved_from);
                assert(self@.accounts =~= v0.accounts);
                return Err(err);
            },
        }
        proof {
            lemma_transfer_shape(v0.accounts, pay, s.record.taker_amount);
            lemma_transfer_shape(a1, out, amount);
            v0.lemma_close_wf(self@.accounts, e.escrow as int);
        }
        self.accounts.set(s.vault, None);
        self.escrows.set(e.escrow, None);
        Ok(())
    }

    /// Moves `amount` of `t.mint` from `t.from` to `t.to`, signed by
    /// `t.authority`.
    pub fn transfer_checked(&mut self, t: &TransferChecked, amount: u64) -> (r: Result<
        (),
        EscrowError,
    >)
        ensures
            match transfer_outcome(old(self)@.accounts, *t, amount) {
                Ok(a) => r is Ok && final(self)@ == (LedgerView { accounts: a, ..old(self)@ }),
                Err(e) => r == Err::<(), EscrowError>(e) && final(self)@ == old(self)@,
            },
    {
        let (f, d) = match (self.account(t.from), self.account(t.to)) {
            (Some(f), Some(d)) => (f, d),
            _ => return Err(EscrowError::NotFound),
        };
        if !key_eq(&f.mint, &t.mint) || !key_eq(&d.mint, &t.mint) {
            return Err(EscrowError::AssetMismatch);
        }
        if !key_eq(&f.owner, &t.authority) {
            return Err(EscrowError::Unauthorized);
        }
        if f.amount < amount {
            return Err(EscrowError::InsufficientFunds);
        }
        let debited = TokenAccount { owner: f.owner, mint: f.mint, amount: f.amount - amount };
        let d2 = if t.from == t.to {
            debited
        } else {
            d
        };
        if d2.amount > u64::MAX - amount {
            return Err(EscrowError::Overflow);
        }
        self.accounts.set(t.from, Some(debited));
        self.accounts.set(
            t.to,
            Some(TokenAccount { owner: d2.owner, mint: d2.mint, amount: d2.amount + amount }),
        );
        Ok(())
    }
}

impl Initialize {
    /// Funds `vault` with `initalizer_amount` of asset A from the
    /// initializer's account.
    pub fn deposit(&self, ledger: &mut Ledger, vault: usize, initalizer_amount: u64) -> (r: Result<
        (),
        EscrowError,
    >)
        ensures
            match transfer_outcome(
                old(ledger)@.accounts,
                (TransferChecked {
                    from: self.initializer_ata_a,
                    mint: self.mint_a,
                    to: vault,
                    authority: self.initializer,
                }),
                initalizer_amount,
            ) {
                Ok(a) => r is Ok && final(ledger)@ == (LedgerView { accounts: a, ..old(ledger)@ }),
                Err(e) => r == Err::<(), EscrowError>(e) && final(ledger)@ == old(ledger)@,
            },
    {
        ledger.transfer_checked(&self.into_deposit_contenxt(vault), initalizer_amount)
    }
}

} // verus!
