use vstd::prelude::*;
use crate::error::EscrowError;
use crate::ledger::{lemma_moved_wf, lemma_retired_wf, lemma_unique_offer, Ledger, LedgerView};
use crate::state::{Authority, EscrowKey};

verus! {

/// The accounts that cancelling an escrow refers to.
#[derive(Clone, Copy, Debug, PartialEq, Eq, Structural)]
pub struct Refund {
    /// The party that signs the cancel; it must be the record's maker.
    pub maker: u64,
    /// The record to cancel.
    pub escrow: EscrowKey,
    /// The asset held in the vault.
    pub mint_a: u64,
    /// The maker's holding account of asset A, which receives the refund.
    pub maker_ata_a: usize,
}

/// The outcome of cancelling, by the first check that fails.
pub open spec fn refund_check(v: LedgerView, ctx: Refund) -> Result<(), EscrowError> {
    let k = ctx.escrow;
    let o = v.offer(k.maker, k.seed);
    if !v.is_open(k.maker, k.seed) {
        Err(EscrowError::RecordNotFound)
    } else if ctx.maker != o.escrow.maker {
        Err(EscrowError::InvalidMaker)
    } else if ctx.mint_a != o.escrow.mint_a {
        Err(EscrowError::InvalidMintA)
    } else if !v.controls(ctx.maker_ata_a as int, Authority::User(ctx.maker)) {
        Err(EscrowError::InvalidAccount)
    } else if v.accounts[ctx.maker_ata_a as int].mint != ctx.mint_a {
        Err(EscrowError::InvalidMintA)
    } else if v.amount(ctx.maker_ata_a as int) + v.amount(o.vault as int) > u64::MAX {
        Err(EscrowError::Overflow)
    } else {
        Ok(())
    }
}

/// The ledger after a successful cancel: the vault's whole balance goes back to the maker's
/// account, then the vault and the record are closed.
pub open spec fn refunded(v: LedgerView, ctx: Refund) -> LedgerView {
    let k = ctx.escrow;
    let vault = v.offer(k.maker, k.seed).vault as int;
    v.moved(vault, ctx.maker_ata_a as int, v.amount(vault)).retired(k.maker, k.seed)
}

/// The ledger after the vault is drained back to the maker's account and closed, with the
/// record still in place.
pub open spec fn drained(v: LedgerView, ctx: Refund) -> LedgerView {
    let k = ctx.escrow;
    let vault = v.offer(k.maker, k.seed).vault as int;
    v.moved(vault, ctx.maker_ata_a as int, v.amount(vault)).vault_closed(
        v.offer_index(k.maker, k.seed),
    )
}

/// Cancels an escrow; returns the amount refunded to the maker.
pub fn handler(ledger: &mut Ledger, ctx: &Refund) -> (r: Result<u64, EscrowError>)
    requires
        old(ledger)@.wf(),
    ensures
        final(ledger)@.wf(),
        r is Ok <==> refund_check(old(ledger)@, *ctx) is Ok,
        r matches Err(e) ==> refund_check(old(ledger)@, *ctx) == Err::<(), _>(e) && final(ledger)@
            == old(ledger)@,
        r matches Ok(n) ==> n == old(ledger)@.amount(
            old(ledger)@.offer(ctx.escrow.maker, ctx.escrow.seed).vault as int,
        ) && final(ledger)@ == refunded(old(ledger)@, *ctx),
{
    let x = match ledger.find_offer(ctx.escrow.maker, ctx.escrow.seed) {
        Some(x) => x,
        None => {
            return Err(EscrowError::RecordNotFound);
        },
    };
    let escrow = ledger.offers[x].escrow;
    if ctx.maker != escrow.maker {
        return Err(EscrowError::InvalidMaker);
    }
    if ctx.mint_a != escrow.mint_a {
        return Err(EscrowError::InvalidMintA);
    }
    if !ledger.controls(ctx.maker_ata_a, Authority::User(ctx.maker)) {
        return Err(EscrowError::InvalidAccount);
    }
    if ledger.mint(ctx.maker_ata_a) != ctx.mint_a {
        return Err(EscrowError::InvalidMintA);
    }
    proof {
        assert(ledger@.vault_ok(ledger@.offers[x as int]));
    }
    let vault = ledger.offers[x].vault;
    if ledger.balance(vault) > u64::MAX - ledger.balance(ctx.maker_ata_a) {
        return Err(EscrowError::Overflow);
    }
    let ghost v0 = ledger@;
    proof {
        lemma_unique_offer(v0, x as int, ctx.escrow.maker, ctx.escrow.seed);
        lemma_moved_wf(v0, vault as int, ctx.maker_ata_a as int, v0.amount(vault as int));
        let v1 = v0.moved(vault as int, ctx.maker_ata_a as int, v0.amount(vault as int));
        assert(v1.keyed(x as int, ctx.escrow.maker, ctx.escrow.seed));
        lemma_unique_offer(v1, x as int, ctx.escrow.maker, ctx.escrow.seed);
        lemma_retired_wf(v1, ctx.escrow.maker, ctx.escrow.seed);
    }
    let r = ctx.refund_and_close_vault(ledger, x);
    // The record goes last, once its vault is closed.
    ledger.remove_offer(x);
    proof {
        let w = refunded(v0, *ctx);
        assert(ledger@.accounts =~= w.accounts);
        assert(ledger@.offers =~= w.offers);
    }
    r
}

impl Refund {
    /// Moves the vault's entire balance back to the maker's account, then closes the vault,
    /// both signed for by the record's derived authority. The record itself is left in place.
    /// The record at index `x` is the one this cancel refers to, and the checks have passed.
    pub fn refund_and_close_vault(&self, ledger: &mut Ledger, x: usize) -> (r: Result<
        u64,
        EscrowError,
    >)
        requires
            old(ledger)@.wf(),
            old(ledger)@.keyed(x as int, self.escrow.maker, self.escrow.seed),
            refund_check(old(ledger)@, *self) is Ok,
        ensures
            r == Ok::<u64, EscrowError>(
                old(ledger)@.amount(old(ledger)@.offers[x as int].vault as int),
            ),
            final(ledger)@ == drained(old(ledger)@, *self),
            final(ledger)@.offers == old(ledger)@.offers,
    {
        proof {
            lemma_unique_offer(ledger@, x as int, self.escrow.maker, self.escrow.seed);
            assert(ledger@.vault_ok(ledger@.offers[x as int]));
        }
        let ghost v0 = ledger@;
        let offer = ledger.offers[x];
        let seeds = offer.escrow.signer_seeds();
        let amount = ledger.balance(offer.vault);
        ledger.transfer_signed(seeds, offer.vault, self.maker_ata_a, amount);
        proof {
            assert(ledger@.offers == v0.offers);
        }
        ledger.close_vault(seeds, x);
        Ok(amount)
    }
}

} // verus!
