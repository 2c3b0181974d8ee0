//! A two-party escrow over a ledger of token-holding accounts: a maker deposits asset A
//! into a vault controlled by a derived authority and asks for asset B in return; a taker
//! settles, or the maker cancels. Each operation is checked in full before any balance moves.

pub mod error;
pub mod instructions;
pub mod laws;
pub mod ledger;
pub mod state;

use vstd::prelude::*;
use crate::error::EscrowError;
use crate::instructions::make::{make_check, made, Make};
use crate::instructions::refund::{refund_check, refunded, Refund};
use crate::instructions::take::{take_check, taken, Take};
use crate::ledger::Ledger;

verus! {

/// Opens the escrow `(ctx.maker, seed)` that offers `amount` of asset A for `receive` of
/// asset B. Returns the index of the new vault.
pub fn make(ledger: &mut Ledger, ctx: &Make, seed: u64, receive: u64, amount: u64) -> (r: Result<
    usize,
    EscrowError,
>)
    requires
        old(ledger)@.wf(),
    ensures
        final(ledger)@.wf(),
        r is Ok <==> make_check(old(ledger)@, *ctx, seed, receive, amount) is Ok,
        r matches Err(e) ==> make_check(old(ledger)@, *ctx, seed, receive, amount) == Err::<(), _>(e)
            && final(ledger)@ == old(ledger)@,
        r matches Ok(vault) ==> vault == old(ledger)@.accounts.len() && final(ledger)@ == made(
            old(ledger)@,
            *ctx,
            seed,
            receive,
            amount,
        ),
{
    instructions::make::handler(ledger, ctx, seed, receive, amount)
}

/// Settles an escrow: the taker pays the maker and receives the vault's balance, which is
/// returned.
pub fn take(ledger: &mut Ledger, ctx: &Take) -> (r: Result<u64, EscrowError>)
    requires
        old(ledger)@.wf(),
    ensures
        final(ledger)@.wf(),
        r is Ok <==> take_check(old(ledger)@, *ctx) is Ok,
        r matches Err(e) ==> take_check(old(ledger)@, *ctx) == Err::<(), _>(e) && final(ledger)@
            == old(ledger)@,
        r matches Ok(n) ==> n == old(ledger)@.amount(
            old(ledger)@.offer(ctx.escrow.maker, ctx.escrow.seed).vault as int,
        ) && final(ledger)@ == taken(old(ledger)@, *ctx),
{
    instructions::take::handler(ledger, ctx)
}

/// Cancels an escrow: the vault's balance, which is returned, goes back to the maker.
pub fn refund(ledger: &mut Ledger, ctx: &Refund) -> (r: Result<u64, EscrowError>)
    requires
        old(ledger)@.wf(),
    ensures
        final(ledger)@.wf(),
        r is Ok <==> refund_check(old(ledger)@, *ctx) is Ok,
        r matches Err(e) ==> refund_check(old(ledger)@, *ctx) == Err::<(), _>(e) && final(ledger)@
            == old(ledger)@,
        r matches Ok(n) ==> n == old(ledger)@.amount(
            old(ledger)@.offer(ctx.escrow.maker, ctx.escrow.seed).vault as int,
        ) && final(ledger)@ == refunded(old(ledger)@, *ctx),
{
    instructions::refund::handler(ledger, ctx)
}

} // verus!
