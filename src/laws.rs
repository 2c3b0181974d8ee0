use vstd::prelude::*;
use crate::error::EscrowError;
use crate::instructions::make::{make_check, made, opened_record, Make};
use crate::instructions::refund::{refund_check, refunded, Refund};
use crate::instructions::take::{paid, take_check, taken, Take};
use crate::ledger::{lemma_moved_wf, lemma_retired_wf, lemma_unique_offer, LedgerView};
use crate::state::{derived, Authority, EscrowKey, Offer};

verus! {

/// A successful Open leaves a well-formed ledger in which the record of `(maker, seed)` is
/// open, holds exactly the supplied inputs, and its vault holds exactly the deposit.
pub proof fn lemma_open_stores_inputs(v: LedgerView, ctx: Make, seed: u64, receive: u64, amount: u64)
    requires
        v.wf(),
        v.accounts.len() <= usize::MAX,
        make_check(v, ctx, seed, receive, amount) is Ok,
    ensures
        made(v, ctx, seed, receive, amount).wf(),
        made(v, ctx, seed, receive, amount).is_open(ctx.maker, seed),
        made(v, ctx, seed, receive, amount).offer(ctx.maker, seed) == (Offer {
            escrow: opened_record(ctx, seed, receive),
            vault: v.accounts.len() as usize,
        }),
        made(v, ctx, seed, receive, amount).amount(v.accounts.len() as int) == amount,
        made(v, ctx, seed, receive, amount).accounts[v.accounts.len() as int].live,
{
    let w = made(v, ctx, seed, receive, amount);
    let n = v.offers.len() as int;
    assert forall|i: int, j: int|
        0 <= i < j < w.offers.len() && w.offers[i].escrow.maker
            == w.offers[j].escrow.maker implies #[trigger] w.offers[i].escrow.seed
        != #[trigger] w.offers[j].escrow.seed by {
        if j == n {
            assert(!v.keyed(i, ctx.maker, seed));
        }
    }
    let a = ctx.maker_ata_a as int;
    let m = v.accounts.len() as int;
    assert(w.accounts.len() == m + 1);
    assert(w.accounts[m].live && w.accounts[m].owner == derived(ctx.maker, seed));
    assert forall|k: int| 0 <= k < m implies {
        &&& (#[trigger] w.accounts[k]).live == v.accounts[k].live
        &&& w.accounts[k].owner == v.accounts[k].owner
        &&& w.accounts[k].mint == v.accounts[k].mint
    } by {
        if k == a {
            assert(w.accounts[k] == v.accounts[a].with_amount((v.amount(a) - amount) as u64));
        } else {
            assert(w.accounts[k] == v.accounts[k]);
        }
    }
    assert forall|i: int| 0 <= i < w.offers.len() implies #[trigger] w.vault_ok(w.offers[i]) by {
        if i < n {
            assert(v.vault_ok(v.offers[i]));
            assert(w.offers[i] == v.offers[i]);
        } else {
            assert(w.offers[i].vault == m);
        }
    }
    assert(w.keyed(n, ctx.maker, seed));
    lemma_unique_offer(w, n, ctx.maker, seed);
}

/// Open then Settle: when the taker's and maker's holding accounts are in place, the taker
/// can pay, and no credited balance would pass `u64::MAX`, the Settle succeeds; the maker's
/// asset-B account gains exactly the receive amount, the taker's asset-A account gains
/// exactly the vault's balance at settle time, and the record and its vault are gone. The three holding accounts are distinct (when the taker's two
/// accounts, or the taker's and the maker's, are one, the gains net out).
pub proof fn lemma_open_then_settle(
    v0: LedgerView,
    mk: Make,
    seed: u64,
    receive: u64,
    amount: u64,
    tk: Take,
)
    requires
        v0.wf(),
        v0.accounts.len() <= usize::MAX,
        make_check(v0, mk, seed, receive, amount) is Ok,
        tk.escrow == (EscrowKey { maker: mk.maker, seed }),
        tk.mint_a == mk.mint_a,
        tk.mint_b == mk.mint_b,
        tk.taker_ata_a != tk.taker_ata_b,
        tk.taker_ata_b != tk.maker_ata_b,
        tk.taker_ata_a != tk.maker_ata_b,
        ({
            let v1 = made(v0, mk, seed, receive, amount);
            &&& v1.holds(tk.taker_ata_a as int, Authority::User(tk.taker), mk.mint_a)
            &&& v1.holds(tk.taker_ata_b as int, Authority::User(tk.taker), mk.mint_b)
            &&& v1.holds(tk.maker_ata_b as int, Authority::User(mk.maker), mk.mint_b)
            &&& v1.amount(tk.taker_ata_b as int) >= receive
            &&& v1.amount(tk.maker_ata_b as int) + receive <= u64::MAX
            &&& v1.amount(tk.taker_ata_a as int) + amount <= u64::MAX
        }),
    ensures
        ({
            let v1 = made(v0, mk, seed, receive, amount);
            take_check(v1, tk) is Ok
        }),
        ({
            let v1 = made(v0, mk, seed, receive, amount);
            let v2 = taken(v1, tk);
            let vault = v0.accounts.len() as int;
            &&& v2.amount(tk.maker_ata_b as int) == v1.amount(tk.maker_ata_b as int) + receive
            &&& v2.amount(tk.taker_ata_a as int) == v1.amount(tk.taker_ata_a as int) + v1.amount(
                vault,
            )
            &&& v2.amount(tk.taker_ata_b as int) == v1.amount(tk.taker_ata_b as int) - receive
            &&& !v2.is_open(mk.maker, seed)
            &&& !v2.accounts[vault].live
            &&& v2.wf()
        }),
{
    lemma_open_stores_inputs(v0, mk, seed, receive, amount);
    let v1 = made(v0, mk, seed, receive, amount);
    let vault = v0.accounts.len() as int;
    assert(v1.amount(vault) == amount);
    assert(paid(v1, tk).amount(tk.taker_ata_a as int) == v1.amount(tk.taker_ata_a as int));
    assert(take_check(v1, tk) is Ok);
    lemma_settle_retires(v1, tk);
    assert(v1.offer(mk.maker, seed).vault == v0.accounts.len());
}

/// Settle on a well-formed ledger closes the record and its vault and keeps the ledger
/// well formed.
pub proof fn lemma_settle_retires(v: LedgerView, tk: Take)
    requires
        v.wf(),
        take_check(v, tk) is Ok,
    ensures
        taken(v, tk).wf(),
        !taken(v, tk).is_open(tk.escrow.maker, tk.escrow.seed),
        !taken(v, tk).accounts[v.offer(tk.escrow.maker, tk.escrow.seed).vault as int].live,
        tk.taker_ata_a != tk.taker_ata_b && tk.taker_ata_b != tk.maker_ata_b && tk.taker_ata_a
            != tk.maker_ata_b ==> {
            let o = v.offer(tk.escrow.maker, tk.escrow.seed);
            let w = taken(v, tk);
            &&& w.amount(tk.maker_ata_b as int) == v.amount(tk.maker_ata_b as int)
                + o.escrow.receive
            &&& w.amount(tk.taker_ata_b as int) == v.amount(tk.taker_ata_b as int)
                - o.escrow.receive
            &&& w.amount(tk.taker_ata_a as int) == v.amount(tk.taker_ata_a as int) + v.amount(
                o.vault as int,
            )
        },
{
    let k = tk.escrow;
    let x = v.offer_index(k.maker, k.seed);
    assert(v.keyed(x, k.maker, k.seed));
    let o = v.offers[x];
    assert(v.vault_ok(o));
    let vault = o.vault as int;
    lemma_moved_wf(v, tk.taker_ata_b as int, tk.maker_ata_b as int, o.escrow.receive);
    let v1 = v.moved(tk.taker_ata_b as int, tk.maker_ata_b as int, o.escrow.receive);
    lemma_moved_wf(v1, vault, tk.taker_ata_a as int, v.amount(vault));
    let v2 = v1.moved(vault, tk.taker_ata_a as int, v.amount(vault));
    assert(v2.keyed(x, k.maker, k.seed));
    lemma_unique_offer(v2, x, k.maker, k.seed);
    lemma_retired_wf(v2, k.maker, k.seed);
    assert(v2.offer(k.maker, k.seed) == o);
    let ta = tk.taker_ata_a as int;
    let tb = tk.taker_ata_b as int;
    let mb = tk.maker_ata_b as int;
    assert(vault != ta && vault != tb && vault != mb);
    if ta != tb && tb != mb && ta != mb {
        assert(v1.amount(mb) == v.amount(mb) + o.escrow.receive);
        assert(v1.amount(tb) == v.amount(tb) - o.escrow.receive);
        assert(v1.amount(ta) == v.amount(ta));
        assert(v1.amount(vault) == v.amount(vault));
        assert(v2.amount(ta) == v.amount(ta) + v.amount(vault));
        assert(v2.amount(mb) == v1.amount(mb));
        assert(v2.amount(tb) == v1.amount(tb));
    }
}

/// Cancel on a well-formed ledger closes the record and its vault and keeps the ledger
/// well formed.
pub proof fn lemma_cancel_retires(v: LedgerView, rf: Refund)
    requires
        v.wf(),
        refund_check(v, rf) is Ok,
    ensures
        refunded(v, rf).wf(),
        !refunded(v, rf).is_open(rf.escrow.maker, rf.escrow.seed),
        !refunded(v, rf).accounts[v.offer(rf.escrow.maker, rf.escrow.seed).vault as int].live,
        refunded(v, rf).amount(rf.maker_ata_a as int) == v.amount(rf.maker_ata_a as int)
            + v.amount(v.offer(rf.escrow.maker, rf.escrow.seed).vault as int),
{
    let k = rf.escrow;
    let x = v.offer_index(k.maker, k.seed);
    assert(v.keyed(x, k.maker, k.seed));
    let o = v.offers[x];
    assert(v.vault_ok(o));
    let vault = o.vault as int;
    lemma_moved_wf(v, vault, rf.maker_ata_a as int, v.amount(vault));
    let v1 = v.moved(vault, rf.maker_ata_a as int, v.amount(vault));
    assert(v1.keyed(x, k.maker, k.seed));
    lemma_unique_offer(v1, x, k.maker, k.seed);
    lemma_retired_wf(v1, k.maker, k.seed);
}

/// Open then Cancel into the same holding account: the maker's asset-A balance returns to
/// its level before the Open, and the record and its vault are gone.
pub proof fn lemma_open_then_cancel(
    v0: LedgerView,
    mk: Make,
    seed: u64,
    receive: u64,
    amount: u64,
    rf: Refund,
)
    requires
        v0.wf(),
        v0.accounts.len() <= usize::MAX,
        make_check(v0, mk, seed, receive, amount) is Ok,
        rf.escrow.maker == mk.maker,
        rf.escrow.seed == seed,
        rf.maker_ata_a == mk.maker_ata_a,
        refund_check(made(v0, mk, seed, receive, amount), rf) is Ok,
    ensures
        ({
            let v2 = refunded(made(v0, mk, seed, receive, amount), rf);
            &&& v2.amount(mk.maker_ata_a as int) == v0.amount(mk.maker_ata_a as int)
            &&& !v2.is_open(mk.maker, seed)
            &&& !v2.accounts[v0.accounts.len() as int].live
            &&& v2.wf()
        }),
{
    lemma_open_stores_inputs(v0, mk, seed, receive, amount);
    let v1 = made(v0, mk, seed, receive, amount);
    lemma_cancel_retires(v1, rf);
}

/// After a Settle, a second Settle or a Cancel of the same record fails with
/// `RecordNotFound` (and a refused operation changes nothing).
pub proof fn lemma_settle_is_final(v: LedgerView, tk: Take, again: Take, rf: Refund)
    requires
        v.wf(),
        take_check(v, tk) is Ok,
        again.escrow == tk.escrow,
        rf.escrow == tk.escrow,
    ensures
        take_check(taken(v, tk), again) == Err::<(), EscrowError>(EscrowError::RecordNotFound),
        refund_check(taken(v, tk), rf) == Err::<(), EscrowError>(EscrowError::RecordNotFound),
{
    lemma_settle_retires(v, tk);
}

/// After a Cancel, a Settle or a second Cancel of the same record fails with
/// `RecordNotFound` (and a refused operation changes nothing).
pub proof fn lemma_cancel_is_final(v: LedgerView, rf: Refund, tk: Take, again: Refund)
    requires
        v.wf(),
        refund_check(v, rf) is Ok,
        tk.escrow == rf.escrow,
        again.escrow == rf.escrow,
    ensures
        take_check(refunded(v, rf), tk) == Err::<(), EscrowError>(EscrowError::RecordNotFound),
        refund_check(refunded(v, rf), again) == Err::<(), EscrowError>(
            EscrowError::RecordNotFound,
        ),
{
    lemma_cancel_retires(v, rf);
}

/// A Cancel of an open record signed by anyone but its maker fails with `InvalidMaker`
/// (and a refused operation changes nothing).
pub proof fn lemma_cancel_needs_maker(v: LedgerView, rf: Refund)
    requires
        v.is_open(rf.escrow.maker, rf.escrow.seed),
        rf.maker != rf.escrow.maker,
    ensures
        refund_check(v, rf) == Err::<(), EscrowError>(EscrowError::InvalidMaker),
{
    let x = v.offer_index(rf.escrow.maker, rf.escrow.seed);
    assert(v.keyed(x, rf.escrow.maker, rf.escrow.seed));
}

} // verus!
