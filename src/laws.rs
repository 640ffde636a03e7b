//! Properties of the escrow operations, stated over their transitions and
//! proved from them.
use crate::address::Key;
use crate::model::{Cancel, EscrowError, Exchange, Initialize, LedgerView};
use vstd::prelude::*;

verus! {

/// A successful `initialize` leaves exactly `initializer_amount` in the new
/// vault, takes exactly that much from the initializer's account, and records
/// the terms as given.
pub proof fn lemma_open_conserves(
    v: LedgerView,
    ctx: Initialize,
    seed: u64,
    bump: u8,
    address: Key,
    initializer_amount: u64,
    taker_amount: u64,
)
    requires
        v.wf(),
        v.accounts.len() < usize::MAX,
        v.escrows.len() < usize::MAX,
        v.open_step(ctx, seed, bump, address, initializer_amount, taker_amount).1 is Ok,
    ensures
        ({
            let (n, r) = v.open_step(ctx, seed, bump, address, initializer_amount, taker_amount);
            let s = n.slot(r->Ok_0 as int)->Some_0;
            &&& n.slot(r->Ok_0 as int) is Some
            &&& s.record == ctx.record(seed, bump, initializer_amount, taker_amount)
            &&& s.address == address
            &&& n.account(s.vault as int)->Some_0.amount == initializer_amount
            &&& v.account(s.vault as int) is None
            &&& n.account(ctx.initializer_ata_a as int)->Some_0.amount == v.account(
                ctx.initializer_ata_a as int,
            )->Some_0.amount - initializer_amount
        }),
{
}

/// A failed `initialize` changes nothing; when it fails for want of funds, no
/// escrow exists for that initializer and seed.
pub proof fn lemma_failed_open_leaves_nothing(
    v: LedgerView,
    ctx: Initialize,
    seed: u64,
    bump: u8,
    address: Key,
    initializer_amount: u64,
    taker_amount: u64,
)
    requires
        v.open_step(ctx, seed, bump, address, initializer_amount, taker_amount).1 is Err,
    ensures
        v.open_step(ctx, seed, bump, address, initializer_amount, taker_amount).0 == v,
        v.open_step(ctx, seed, bump, address, initializer_amount, taker_amount).1 == Err::<
            usize,
            EscrowError,
        >(EscrowError::InsufficientFunds) ==> !v.has_live(ctx.initializer, seed),
{
}

/// A failed `exchange` changes nothing: the escrow stays live and its vault
/// keeps its balance.
pub proof fn lemma_failed_exchange_leaves_escrow(v: LedgerView, e: Exchange)
    requires
        v.exchange_step(e).1 is Err,
    ensures
        v.exchange_step(e).0 == v,
        v.slot(e.escrow as int) == v.exchange_step(e).0.slot(e.escrow as int),
{
}

/// `cancel` signed by anyone but the escrow's initializer fails with
/// `Unauthorized` and changes nothing.
pub proof fn lemma_cancel_needs_initializer(v: LedgerView, c: Cancel)
    requires
        v.slot(c.escrow as int) is Some,
        c.initializer != v.slot(c.escrow as int)->Some_0.record.initializer,
    ensures
        v.cancel_step(c) == (v, Err::<(), EscrowError>(EscrowError::Unauthorized)),
{
}

/// After a successful `cancel`, the escrow and its vault are gone, and any
/// later `cancel` or `exchange` of that escrow fails with `NotFound`.
pub proof fn lemma_cancel_is_final(v: LedgerView, c: Cancel, c2: Cancel, e2: Exchange)
    requires
        v.wf(),
        v.cancel_step(c).1 is Ok,
        c2.escrow == c.escrow,
        e2.escrow == c.escrow,
    ensures
        ({
            let n = v.cancel_step(c).0;
            &&& n.slot(c.escrow as int) is None
            &&& n.account(c.vault as int) is None
            &&& n.cancel_step(c2) == (n, Err::<(), EscrowError>(EscrowError::NotFound))
            &&& n.exchange_step(e2) == (n, Err::<(), EscrowError>(EscrowError::NotFound))
        }),
{
}

/// After a successful `exchange`, the escrow and its vault are gone, and any
/// later `cancel` or `exchange` of that escrow fails with `NotFound`.
pub proof fn lemma_exchange_is_final(v: LedgerView, e: Exchange, c2: Cancel, e2: Exchange)
    requires
        v.wf(),
        v.exchange_step(e).1 is Ok,
        c2.escrow == e.escrow,
        e2.escrow == e.escrow,
    ensures
        ({
            let n = v.exchange_step(e).0;
            &&& n.slot(e.escrow as int) is None
            &&& n.account(e.vault as int) is None
            &&& n.cancel_step(c2) == (n, Err::<(), EscrowError>(EscrowError::NotFound))
            &&& n.exchange_step(e2) == (n, Err::<(), EscrowError>(EscrowError::NotFound))
        }),
{
}

/// A successful `exchange` between distinct accounts credits the initializer
/// with exactly `taker_amount` of asset B, debits the counterparty by as much,
/// and credits the counterparty with the vault's whole balance of asset A.
pub proof fn lemma_exchange_settles(v: LedgerView, e: Exchange)
    requires
        v.wf(),
        v.exchange_step(e).1 is Ok,
        e.taker_ata_a != e.initializer_ata_b,
        e.taker_ata_a != e.taker_ata_b,
        e.taker_ata_b != e.initializer_ata_b,
    ensures
        ({
            let n = v.exchange_step(e).0;
            let s = v.slot(e.escrow as int)->Some_0;
            &&& n.account(e.initializer_ata_b as int)->Some_0.amount == v.account(
                e.initializer_ata_b as int,
            )->Some_0.amount + s.record.taker_amount
            &&& n.account(e.taker_ata_b as int)->Some_0.amount == v.account(
                e.taker_ata_b as int,
            )->Some_0.amount - s.record.taker_amount
            &&& n.account(e.taker_ata_a as int)->Some_0.amount == v.account(
                e.taker_ata_a as int,
            )->Some_0.amount + v.account(s.vault as int)->Some_0.amount
        }),
{
}

/// In a well-formed ledger, no two live escrows share an initializer and a
/// seed.
pub proof fn lemma_one_live_escrow_per_seed(v: LedgerView, k1: int, k2: int)
    requires
        v.wf(),
        v.slot(k1) is Some,
        v.slot(k2) is Some,
        v.slot(k1)->Some_0.record.initializer == v.slot(k2)->Some_0.record.initializer,
        v.slot(k1)->Some_0.record.seed == v.slot(k2)->Some_0.record.seed,
    ensures
        k1 == k2,
{
    assert(v.escrows[k1] is Some && v.escrows[k2] is Some);
}

/// Opening an escrow and then cancelling it, by the same initializer into the
/// same account, succeeds and leaves every balance as before; only the closed
/// vault and escrow remain, as closed entries.
pub proof fn lemma_open_cancel_round_trip(
    v: LedgerView,
    ctx: Initialize,
    seed: u64,
    bump: u8,
    address: Key,
    initializer_amount: u64,
    taker_amount: u64,
)
    requires
        v.wf(),
        v.accounts.len() < usize::MAX,
        v.escrows.len() < usize::MAX,
        v.open_step(ctx, seed, bump, address, initializer_amount, taker_amount).1 is Ok,
    ensures
        ({
            let (n, r) = v.open_step(ctx, seed, bump, address, initializer_amount, taker_amount);
            let c = Cancel {
                initializer: ctx.initializer,
                initializer_ata_a: ctx.initializer_ata_a,
                escrow: r->Ok_0,
                vault: v.accounts.len() as usize,
            };
            let (m, r2) = n.cancel_step(c);
            &&& r2 is Ok
            &&& m.accounts == v.accounts.push(None)
            &&& m.escrows == v.escrows.push(None)
        }),
{
    let (n, r) = v.open_step(ctx, seed, bump, address, initializer_amount, taker_amount);
    let c = Cancel {
        initializer: ctx.initializer,
        initializer_ata_a: ctx.initializer_ata_a,
        escrow: r->Ok_0,
        vault: v.accounts.len() as usize,
    };
    let src = v.account(ctx.initializer_ata_a as int)->Some_0;
    let vault = v.accounts.len() as int;
    assert(n.slot(r->Ok_0 as int) is Some);
    assert(n.slot(r->Ok_0 as int)->Some_0.vault == vault);
    assert(n.account(vault)->Some_0.amount == initializer_amount);
    assert(n.account(ctx.initializer_ata_a as int)->Some_0.amount == src.amount - initializer_amount);
    let (m, r2) = n.cancel_step(c);
    assert(r2 is Ok);
    assert(m.accounts =~= v.accounts.push(None)) by {
        assert(m.accounts[ctx.initializer_ata_a as int] == v.accounts[ctx.initializer_ata_a as int]);
    }
    assert(m.accounts =~= v.accounts.push(None));
    assert(m.escrows =~= v.escrows.push(None));
}

} // verus!
