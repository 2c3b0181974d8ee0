use vstd::prelude::*;
use crate::error::EscrowError;
use crate::ledger::{lemma_moved_wf, Ledger, LedgerView};
use crate::state::{Authority, EscrowKey};

verus! {

/// The accounts that settling an escrow refers to.
#[derive(Clone, Copy, Debug, PartialEq, Eq, Structural)]
pub struct Take {
    /// The party that pays asset B and receives asset A; it signs.
    pub taker: u64,
    /// The record to settle.
    pub escrow: EscrowKey,
    /// The asset held in the vault.
    pub mint_a: u64,
    /// The asset the maker asked for.
    pub mint_b: u64,
    /// The taker's holding account of asset A, which receives the vault's balance.
    pub taker_ata_a: usize,
    /// The taker's holding account of asset B, which pays the maker.
    pub taker_ata_b: usize,
    /// The maker's holding account of asset B, which is paid.
    pub maker_ata_b: usize,
}

/// The ledger after the taker has paid the maker.
pub open spec fn paid(v: LedgerView, ctx: Take) -> LedgerView {
    let o = v.offer(ctx.escrow.maker, ctx.escrow.seed);
    v.moved(ctx.taker_ata_b as int, ctx.maker_ata_b as int, o.escrow.receive)
}

/// The outcome of settling, by the first check that fails.
pub open spec fn take_check(v: LedgerView, ctx: Take) -> Result<(), EscrowError> {
    let k = ctx.escrow;
    let o = v.offer(k.maker, k.seed);
    if !v.is_open(k.maker, k.seed) {
        Err(EscrowError::RecordNotFound)
    } else if ctx.mint_a != o.escrow.mint_a {
        Err(EscrowError::InvalidMintA)
    } else if ctx.mint_b != o.escrow.mint_b {
        Err(EscrowError::InvalidMintB)
    } else if !v.controls(ctx.taker_ata_a as int, Authority::User(ctx.taker)) || !v.controls(
        ctx.taker_ata_b as int,
        Authority::User(ctx.taker),
    ) || !v.controls(ctx.maker_ata_b as int, Authority::User(k.maker)) {
        Err(EscrowError::InvalidAccount)
    } else if v.accounts[ctx.taker_ata_a as int].mint != ctx.mint_a {
        Err(EscrowError::InvalidMintA)
    } else if v.accounts[ctx.taker_ata_b as int].mint != ctx.mint_b
        || v.accounts[ctx.maker_ata_b as int].mint != ctx.mint_b {
        Err(EscrowError::InvalidMintB)
    } else if v.amount(ctx.taker_ata_b as int) < o.escrow.receive {
        Err(EscrowError::InsufficientBalance)
    } else if ctx.taker_ata_b != ctx.maker_ata_b && v.amount(ctx.maker_ata_b as int)
        + o.escrow.receive > u64::MAX {
        Err(EscrowError::Overflow)
    } else if paid(v, ctx).amount(ctx.taker_ata_a as int) + v.amount(o.vault as int) > u64::MAX {
        Err(EscrowError::Overflow)
    } else {
        Ok(())
    }
}

/// The ledger after a successful settle: asset B goes from taker to maker, the vault's whole
/// balance goes to the taker, then the vault and the record are closed.
pub open spec fn taken(v: LedgerView, ctx: Take) -> LedgerView {
    let k = ctx.escrow;
    let vault = v.offer(k.maker, k.seed).vault as int;
    paid(v, ctx).moved(vault, ctx.taker_ata_a as int, v.amount(vault)).retired(k.maker, k.seed)
}

/// Settles an escrow; returns the amount of asset A paid to the taker.
pub fn handler(ledger: &mut Ledger, ctx: &Take) -> (r: Result<u64, EscrowError>)
    requires
        old(ledger)@.wf(),
    ensures
        final(ledger)@.wf(),
        r is Ok <==> take_check(old(ledger)@, *ctx) is Ok,
        r matches Err(e) ==> take_check(old(ledger)@, *ctx) == Err::<(), _>(e) && final(ledger)@
            == old(ledger)@,
        r matches Ok(n) ==> n == old(ledger)@.amount(
            old(ledger)@.offer(ctx.escrow.maker, ctx.escrow.seed).vault as int,
        ) && final(ledger)@ == taken(old(ledger)@, *ctx),
{
    let ghost v0 = ledger@;
    let maker = ctx.escrow.maker;
    let seed = ctx.escrow.seed;
    let x = match ledger.find_offer(maker, seed) {
        Some(x) => x,
        None => {
            return Err(EscrowError::RecordNotFound);
        },
    };
    let offer = ledger.offers[x];
    if ctx.mint_a != offer.escrow.mint_a {
        return Err(EscrowError::InvalidMintA);
    }
    if ctx.mint_b != offer.escrow.mint_b {
        return Err(EscrowError::InvalidMintB);
    }
    if !ledger.controls(ctx.taker_ata_a, Authority::User(ctx.taker)) || !ledger.controls(
        ctx.taker_ata_b,
        Authority::User(ctx.taker),
    ) || !ledger.controls(ctx.maker_ata_b, Authority::User(maker)) {
        return Err(EscrowError::InvalidAccount);
    }
    if ledger.mint(ctx.taker_ata_a) != ctx.mint_a {
        return Err(EscrowError::InvalidMintA);
    }
    if ledger.mint(ctx.taker_ata_b) != ctx.mint_b || ledger.mint(ctx.maker_ata_b) != ctx.mint_b {
        return Err(EscrowError::InvalidMintB);
    }
    let receive = offer.escrow.receive;
    if ledger.balance(ctx.taker_ata_b) < receive {
        return Err(EscrowError::InsufficientBalance);
    }
    if ctx.taker_ata_b != ctx.maker_ata_b && ledger.balance(ctx.maker_ata_b) > u64::MAX - receive {
        return Err(EscrowError::Overflow);
    }
    proof {
        assert(v0.vault_ok(v0.offers[x as int]));
        lemma_moved_wf(v0, ctx.taker_ata_b as int, ctx.maker_ata_b as int, receive);
    }
    let ghost v1 = paid(v0, *ctx);
    let deposit = ledger.balance(offer.vault);
    // The taker's asset-A balance once the maker is paid, worked out before anything moves
    // so that a refused settle leaves the ledger as it was.
    let to_taker = if ctx.taker_ata_a == ctx.taker_ata_b {
        if ctx.taker_ata_b == ctx.maker_ata_b {
            ledger.balance(ctx.taker_ata_a)
        } else {
            ledger.balance(ctx.taker_ata_a) - receive
        }
    } else if ctx.taker_ata_a == ctx.maker_ata_b {
        ledger.balance(ctx.taker_ata_a) + receive
    } else {
        ledger.balance(ctx.taker_ata_a)
    };
    assert(to_taker == v1.amount(ctx.taker_ata_a as int));
    if deposit > u64::MAX - to_taker {
        return Err(EscrowError::Overflow);
    }
    ledger.transfer(Authority::User(ctx.taker), ctx.taker_ata_b, ctx.maker_ata_b, receive);
    assert(ledger@ == v1);
    let seeds = offer.escrow.signer_seeds();
    ledger.transfer_signed(seeds, offer.vault, ctx.taker_ata_a, deposit);
    proof {
        assert(ledger@.offers == v0.offers);
        assert(ledger@.keyed(x as int, maker, seed));
    }
    ledger.retire(seeds, x, maker, seed);
    Ok(deposit)
}

} // verus!
