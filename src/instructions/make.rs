use vstd::prelude::*;
use crate::error::EscrowError;
use crate::laws::lemma_open_stores_inputs;
use crate::ledger::{Ledger, LedgerView};
use crate::state::{canonical_bump, derive_authority, derived, Authority, Escrow, Offer, TokenAccount};

verus! {

/// The accounts that opening an escrow refers to.
#[derive(Clone, Copy, Debug, PartialEq, Eq, Structural)]
pub struct Make {
    /// The depositing party, who signs.
    pub maker: u64,
    /// The asset deposited.
    pub mint_a: u64,
    /// The asset asked for in return.
    pub mint_b: u64,
    /// The maker's holding account of asset A, which pays the deposit.
    pub maker_ata_a: usize,
}

/// The outcome of opening, by the first check that fails.
pub open spec fn make_check(v: LedgerView, ctx: Make, seed: u64, receive: u64, amount: u64) -> Result<
    (),
    EscrowError,
> {
    let a = ctx.maker_ata_a as int;
    if v.is_open(ctx.maker, seed) {
        Err(EscrowError::DuplicateSeed)
    } else if receive == 0 || amount == 0 {
        Err(EscrowError::InvalidAmount)
    } else if !v.controls(a, Authority::User(ctx.maker)) {
        Err(EscrowError::InvalidAccount)
    } else if v.accounts[a].mint != ctx.mint_a {
        Err(EscrowError::InvalidMintA)
    } else if v.amount(a) < amount {
        Err(EscrowError::InsufficientBalance)
    } else {
        Ok(())
    }
}

/// The record an Open stores.
pub open spec fn opened_record(ctx: Make, seed: u64, receive: u64) -> Escrow {
    Escrow {
        seed,
        maker: ctx.maker,
        mint_a: ctx.mint_a,
        mint_b: ctx.mint_b,
        receive,
        bump: canonical_bump(ctx.maker, seed),
    }
}

/// The ledger after a successful Open: the deposit leaves the maker's account for a new
/// vault controlled by the derived authority, and the record is stored.
pub open spec fn made(v: LedgerView, ctx: Make, seed: u64, receive: u64, amount: u64) -> LedgerView {
    let a = ctx.maker_ata_a as int;
    LedgerView {
        accounts: v.accounts.update(a, v.accounts[a].with_amount((v.amount(a) - amount) as u64)).push(
            TokenAccount { owner: derived(ctx.maker, seed), mint: ctx.mint_a, amount, live: true },
        ),
        offers: v.offers.push(
            Offer { escrow: opened_record(ctx, seed, receive), vault: v.accounts.len() as usize },
        ),
    }
}

/// Opens the escrow `(ctx.maker, seed)`: stores the record, creates its vault and moves
/// `amount` of asset A into it. Returns the vault's account index.
pub fn handler(ledger: &mut Ledger, ctx: &Make, seed: u64, receive: u64, amount: u64) -> (r: Result<
    usize,
    EscrowError,
>)
    requires
        old(ledger)@.wf(),
    ensures
        final(ledger)@.wf(),
        r is Ok <==> make_check(old(ledger)@, *ctx, seed, receive, amount) is Ok,
        r matches Err(e) ==> make_check(old(ledger)@, *ctx, seed, receive, amount) == Err::<(), _>(e)
            && final(ledger)@ == old(ledger)@,
        r matches Ok(vault) ==> vault == old(ledger)@.accounts.len() && final(ledger)@ == made(
            old(ledger)@,
            *ctx,
            seed,
            receive,
            amount,
        ),
{
    if ledger.is_open(ctx.maker, seed) {
        return Err(EscrowError::DuplicateSeed);
    }
    if receive == 0 || amount == 0 {
        return Err(EscrowError::InvalidAmount);
    }
    if !ledger.controls(ctx.maker_ata_a, Authority::User(ctx.maker)) {
        return Err(EscrowError::InvalidAccount);
    }
    if ledger.mint(ctx.maker_ata_a) != ctx.mint_a {
        return Err(EscrowError::InvalidMintA);
    }
    if ledger.balance(ctx.maker_ata_a) < amount {
        return Err(EscrowError::InsufficientBalance);
    }
    let ghost v0 = ledger@;
    let vault = ledger.num_accounts();
    proof {
        lemma_open_stores_inputs(v0, *ctx, seed, receive, amount);
    }
    let (authority, bump) = derive_authority(ctx.maker, seed);
    let mut a = ledger.accounts[ctx.maker_ata_a];
    a.amount = a.amount - amount;
    ledger.accounts.set(ctx.maker_ata_a, a);
    ledger.accounts.push(TokenAccount { owner: authority, mint: ctx.mint_a, amount, live: true });
    let escrow = Escrow {
        seed,
        maker: ctx.maker,
        mint_a: ctx.mint_a,
        mint_b: ctx.mint_b,
        receive,
        bump,
    };
    ledger.offers.push(Offer { escrow, vault });
    proof {
        let w = made(v0, *ctx, seed, receive, amount);
        assert(ledger@.accounts =~= w.accounts);
        assert(ledger@.offers =~= w.offers);
    }
    Ok(vault)
}

} // verus!
