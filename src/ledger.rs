use vstd::prelude::*;
use crate::state::{canonical_bump, derived, Authority, Offer, SignerSeeds, TokenAccount};

verus! {

/// The ledger runtime's state as this library sees it: holding accounts,
/// addressed by index, and the open escrow records.
pub struct Ledger {
    pub accounts: Vec<TokenAccount>,
    pub offers: Vec<Offer>,
}

/// The mathematical model of a `Ledger`.
pub struct LedgerView {
    pub accounts: Seq<TokenAccount>,
    pub offers: Seq<Offer>,
}

impl View for Ledger {
    type V = LedgerView;

    open spec fn view(&self) -> LedgerView {
        LedgerView { accounts: self.accounts@, offers: self.offers@ }
    }
}

impl LedgerView {
    /// Offer `i` is the record of `(maker, seed)`.
    pub open spec fn keyed(self, i: int, maker: u64, seed: u64) -> bool {
        &&& 0 <= i < self.offers.len()
        &&& self.offers[i].escrow.maker == maker
        &&& self.offers[i].escrow.seed == seed
    }

    pub open spec fn is_open(self, maker: u64, seed: u64) -> bool {
        exists|i: int| self.keyed(i, maker, seed)
    }

    pub open spec fn offer_index(self, maker: u64, seed: u64) -> int {
        choose|i: int| self.keyed(i, maker, seed)
    }

    pub open spec fn offer(self, maker: u64, seed: u64) -> Offer {
        self.offers[self.offer_index(maker, seed)]
    }

    /// Account `i` exists, is open, and is controlled by `owner`.
    pub open spec fn controls(self, i: int, owner: Authority) -> bool {
        &&& 0 <= i < self.accounts.len()
        &&& self.accounts[i].live
        &&& self.accounts[i].owner == owner
    }

    /// Account `i` exists, is open, and holds asset `mint` for `owner`.
    pub open spec fn holds(self, i: int, owner: Authority, mint: u64) -> bool {
        &&& self.controls(i, owner)
        &&& self.accounts[i].mint == mint
    }

    pub open spec fn amount(self, i: int) -> u64 {
        self.accounts[i].amount
    }

    /// The offer's vault is open, holds its asset A, and is controlled by its derived
    /// authority; the record stores that authority's derivation parameter.
    pub open spec fn vault_ok(self, o: Offer) -> bool {
        &&& self.holds(o.vault as int, derived(o.escrow.maker, o.escrow.seed), o.escrow.mint_a)
        &&& o.escrow.bump == canonical_bump(o.escrow.maker, o.escrow.seed)
    }

    /// At most one record per (maker, seed) pair, and each record's vault is in place.
    pub open spec fn wf(self) -> bool {
        &&& forall|i: int, j: int|
            #![trigger self.offers[i], self.offers[j]]
            0 <= i < j < self.offers.len() && self.offers[i].escrow.maker
                == self.offers[j].escrow.maker ==> self.offers[i].escrow.seed
                != self.offers[j].escrow.seed
        &&& forall|i: int| 0 <= i < self.offers.len() ==> #[trigger] self.vault_ok(self.offers[i])
    }

    /// `amt` units moved from account `from` to account `to`; nothing moves when they are one account.
    pub open spec fn moved(self, from: int, to: int, amt: u64) -> LedgerView {
        if from == to {
            self
        } else {
            let a = self.accounts.update(
                from,
                self.accounts[from].with_amount((self.accounts[from].amount - amt) as u64),
            );
            LedgerView {
                accounts: a.update(to, a[to].with_amount((a[to].amount + amt) as u64)),
                offers: self.offers,
            }
        }
    }

    /// The vault of the record at index `x` closed: emptied and no longer live. The record
    /// itself stays.
    pub open spec fn vault_closed(self, x: int) -> LedgerView {
        let v = self.offers[x].vault as int;
        LedgerView { accounts: self.accounts.update(v, self.accounts[v].closed()), offers: self.offers }
    }

    /// The record of `(maker, seed)` removed and its vault closed: emptied and no longer live.
    pub open spec fn retired(self, maker: u64, seed: u64) -> LedgerView {
        let v = self.offer(maker, seed).vault as int;
        LedgerView {
            accounts: self.accounts.update(v, self.accounts[v].closed()),
            offers: self.offers.remove(self.offer_index(maker, seed)),
        }
    }
}

/// In a well-formed ledger, a record found for `(maker, seed)` is the one `offer_index` names.
pub proof fn lemma_unique_offer(v: LedgerView, i: int, maker: u64, seed: u64)
    requires
        v.wf(),
        v.keyed(i, maker, seed),
    ensures
        v.is_open(maker, seed),
        v.offer_index(maker, seed) == i,
{
    let j = v.offer_index(maker, seed);
    assert(v.keyed(j, maker, seed));
    if i < j {
        assert(v.offers[i].escrow.seed != v.offers[j].escrow.seed);
    } else if j < i {
        assert(v.offers[j].escrow.seed != v.offers[i].escrow.seed);
    }
}

/// Moving units between accounts changes no owner, asset or liveness, so well-formedness stays.
pub proof fn lemma_moved_wf(v: LedgerView, from: int, to: int, amt: u64)
    requires
        v.wf(),
        0 <= from < v.accounts.len(),
        0 <= to < v.accounts.len(),
    ensures
        v.moved(from, to, amt).wf(),
        v.moved(from, to, amt).offers == v.offers,
        v.moved(from, to, amt).accounts.len() == v.accounts.len(),
        forall|k: int|
            0 <= k < v.accounts.len() ==> {
                &&& (#[trigger] v.moved(from, to, amt).accounts[k]).owner == v.accounts[k].owner
                &&& v.moved(from, to, amt).accounts[k].mint == v.accounts[k].mint
                &&& v.moved(from, to, amt).accounts[k].live == v.accounts[k].live
            },
{
    let w = v.moved(from, to, amt);
    assert forall|i: int| 0 <= i < w.offers.len() implies #[trigger] w.vault_ok(w.offers[i]) by {
        assert(v.vault_ok(v.offers[i]));
    }
}

/// Retiring a record and its vault keeps the rest of a well-formed ledger well formed.
pub proof fn lemma_retired_wf(v: LedgerView, maker: u64, seed: u64)
    requires
        v.wf(),
        v.is_open(maker, seed),
    ensures
        v.retired(maker, seed).wf(),
        !v.retired(maker, seed).is_open(maker, seed),
        forall|m: u64, s: u64|
            !(m == maker && s == seed) ==> #[trigger] v.retired(maker, seed).is_open(m, s)
                == v.is_open(m, s),
{
    let x = v.offer_index(maker, seed);
    assert(v.keyed(x, maker, seed));
    let o = v.offers[x];
    assert(v.vault_ok(o));
    let w = v.retired(maker, seed);
    assert(w.offers == v.offers.remove(x));
    assert forall|i: int, j: int|
        0 <= i < j < w.offers.len() && w.offers[i].escrow.maker
            == w.offers[j].escrow.maker implies #[trigger] w.offers[i].escrow.seed
        != #[trigger] w.offers[j].escrow.seed by {
        let i0 = if i < x { i } else { i + 1 };
        let j0 = if j < x { j } else { j + 1 };
        assert(w.offers[i] == v.offers[i0]);
        assert(w.offers[j] == v.offers[j0]);
        assert(v.offers[i0].escrow.seed != v.offers[j0].escrow.seed);
    }
    assert forall|i: int| 0 <= i < w.offers.len() implies #[trigger] w.vault_ok(w.offers[i]) by {
        let i0 = if i < x { i } else { i + 1 };
        assert(w.offers[i] == v.offers[i0]);
        assert(v.vault_ok(v.offers[i0]));
        if i0 < x {
            assert(v.offers[i0].escrow.maker != maker || v.offers[i0].escrow.seed != seed);
        } else {
            assert(v.offers[x].escrow.maker != v.offers[i0].escrow.maker
                || v.offers[x].escrow.seed != v.offers[i0].escrow.seed);
        }
    }
    if w.is_open(maker, seed) {
        let i = choose|i: int| w.keyed(i, maker, seed);
        let i0 = if i < x { i } else { i + 1 };
        assert(w.offers[i] == v.offers[i0]);
        lemma_unique_offer(v, i0, maker, seed);
    }
    assert forall|m: u64, s: u64| !(m == maker && s == seed) implies #[trigger] w.is_open(m, s)
        == v.is_open(m, s) by {
        if w.is_open(m, s) {
            let i = choose|i: int| w.keyed(i, m, s);
            let i0 = if i < x { i } else { i + 1 };
            assert(w.offers[i] == v.offers[i0]);
            assert(v.keyed(i0, m, s));
        }
        if v.is_open(m, s) {
            let i = choose|i: int| v.keyed(i, m, s);
            assert(i != x);
            let i1 = if i < x { i } else { i - 1 };
            assert(w.offers[i1] == v.offers[i]);
            assert(w.keyed(i1, m, s));
        }
    }
}

impl Ledger {
    /// An empty ledger.
    pub fn new() -> (r: Ledger)
        ensures
            r@.accounts.len() == 0,
            r@.offers.len() == 0,
            r@.wf(),
    {
        Ledger { accounts: Vec::new(), offers: Vec::new() }
    }

    /// Number of accounts ever created; account indices run below it.
    pub fn num_accounts(&self) -> (r: usize)
        ensures
            r == self@.accounts.len(),
    {
        self.accounts.len()
    }

    /// The balance held in account `i`.
    pub fn balance(&self, i: usize) -> (r: u64)
        requires
            i < self@.accounts.len(),
        ensures
            r == self@.amount(i as int),
    {
        self.accounts[i].amount
    }

    /// Whether account `i` exists and is open.
    pub fn is_live(&self, i: usize) -> (r: bool)
        ensures
            r == (i < self@.accounts.len() && self@.accounts[i as int].live),
    {
        i < self.accounts.len() && self.accounts[i].live
    }

    /// Whether account `i` exists, is open, and is controlled by `owner`.
    pub fn controls(&self, i: usize, owner: Authority) -> (r: bool)
        ensures
            r == self@.controls(i as int, owner),
    {
        i < self.accounts.len() && self.accounts[i].live && self.accounts[i].owner == owner
    }

    /// The asset held in account `i`.
    pub fn mint(&self, i: usize) -> (r: u64)
        requires
            i < self@.accounts.len(),
        ensures
            r == self@.accounts[i as int].mint,
    {
        self.accounts[i].mint
    }

    /// Whether account `i` exists, is open, and holds asset `mint` for `owner`.
    pub fn holds(&self, i: usize, owner: Authority, mint: u64) -> (r: bool)
        ensures
            r == self@.holds(i as int, owner, mint),
    {
        if i < self.accounts.len() {
            let a = self.accounts[i];
            a.live && a.owner == owner && a.mint == mint
        } else {
            false
        }
    }

    /// Whether a record for `(maker, seed)` is open.
    pub fn is_open(&self, maker: u64, seed: u64) -> (r: bool)
        requires
            self@.wf(),
        ensures
            r == self@.is_open(maker, seed),
    {
        self.find_offer(maker, seed).is_some()
    }

    /// The index of the record of `(maker, seed)`, if one is open.
    pub fn find_offer(&self, maker: u64, seed: u64) -> (r: Option<usize>)
        requires
            self@.wf(),
        ensures
            r is None <==> !self@.is_open(maker, seed),
            r matches Some(i) ==> i == self@.offer_index(maker, seed) && self@.keyed(
                i as int,
                maker,
                seed,
            ),
    {
        let mut i: usize = 0;
        while i < self.offers.len()
            invariant
                i <= self.offers@.len(),
                self@.wf(),
                forall|k: int| 0 <= k < i ==> !self@.keyed(k, maker, seed),
            decreases self.offers@.len() - i,
        {
            let e = self.offers[i].escrow;
            if e.maker == maker && e.seed == seed {
                proof {
                    lemma_unique_offer(self@, i as int, maker, seed);
                }
                return Some(i);
            }
            i = i + 1;
        }
        None
    }

    /// Opens a new holding account of `amount` units of asset `mint` for the person `owner`.
    pub fn create_holding(&mut self, owner: u64, mint: u64, amount: u64) -> (r: usize)
        requires
            old(self)@.wf(),
        ensures
            r == old(self)@.accounts.len(),
            final(self)@.accounts == old(self)@.accounts.push(
                TokenAccount { owner: Authority::User(owner), mint, amount, live: true },
            ),
            final(self)@.offers == old(self)@.offers,
            final(self)@.wf(),
    {
        let r = self.accounts.len();
        self.accounts.push(TokenAccount { owner: Authority::User(owner), mint, amount, live: true });
        proof {
            assert forall|i: int| 0 <= i < self@.offers.len() implies #[trigger] self@.vault_ok(
                self@.offers[i],
            ) by {
                assert(old(self)@.vault_ok(old(self)@.offers[i]));
            }
        }
        r
    }

    /// The holding account of asset `mint` for `owner`, opened empty if there is none.
    pub fn ensure_holding(&mut self, owner: u64, mint: u64) -> (r: usize)
        requires
            old(self)@.wf(),
        ensures
            final(self)@.holds(r as int, Authority::User(owner), mint),
            final(self)@.offers == old(self)@.offers,
            final(self)@.wf(),
            (exists|i: int| old(self)@.holds(i, Authority::User(owner), mint)) ==> final(self)@
                == old(self)@,
            !(exists|i: int| old(self)@.holds(i, Authority::User(owner), mint)) ==> {
                &&& r == old(self)@.accounts.len()
                &&& final(self)@.accounts == old(self)@.accounts.push(
                    TokenAccount { owner: Authority::User(owner), mint, amount: 0, live: true },
                )
            },
    {
        let mut i: usize = 0;
        while i < self.accounts.len()
            invariant
                i <= self@.accounts.len(),
                self@ == old(self)@,
                self@.wf(),
                forall|k: int| 0 <= k < i ==> !self@.holds(k, Authority::User(owner), mint),
            decreases self@.accounts.len() - i,
        {
            if self.holds(i, Authority::User(owner), mint) {
                return i;
            }
            i = i + 1;
        }
        self.create_holding(owner, mint, 0)
    }

    /// Moves `amt` units from account `from`, which `authority` controls, to account `to`.
    pub(crate) fn transfer(&mut self, authority: Authority, from: usize, to: usize, amt: u64)
        requires
            old(self)@.wf(),
            from < old(self)@.accounts.len() ==> old(self)@.accounts[from as int].owner == authority,
            from < old(self)@.accounts.len(),
            to < old(self)@.accounts.len(),
            old(self)@.amount(from as int) >= amt,
            from == to || old(self)@.amount(to as int) + amt <= u64::MAX,
        ensures
            final(self)@ == old(self)@.moved(from as int, to as int, amt),
            final(self)@.wf(),
    {
        proof {
            lemma_moved_wf(self@, from as int, to as int, amt);
        }
        if from != to {
            let mut a = self.accounts[from];
            a.amount = a.amount - amt;
            self.accounts.set(from, a);
            let mut b = self.accounts[to];
            b.amount = b.amount + amt;
            self.accounts.set(to, b);
        }
        assert(self@.accounts =~= old(self)@.moved(from as int, to as int, amt).accounts);
    }

    /// Moves `amt` units out of account `from`, which a derived authority controls, signed
    /// for by that authority's seeds.
    pub(crate) fn transfer_signed(&mut self, seeds: SignerSeeds, from: usize, to: usize, amt: u64)
        requires
            old(self)@.wf(),
            from < old(self)@.accounts.len(),
            to < old(self)@.accounts.len(),
            seeds.signs(old(self)@.accounts[from as int].owner),
            old(self)@.amount(from as int) >= amt,
            from == to || old(self)@.amount(to as int) + amt <= u64::MAX,
        ensures
            final(self)@ == old(self)@.moved(from as int, to as int, amt),
            final(self)@.wf(),
    {
        let owner = self.accounts[from].owner;
        self.transfer(owner, from, to, amt);
    }

    /// Closes the empty vault of the record at index `x`, signed for by the vault authority's
    /// seeds. The record stays.
    pub(crate) fn close_vault(&mut self, seeds: SignerSeeds, x: usize)
        requires
            x < old(self)@.offers.len(),
            old(self)@.offers[x as int].vault < old(self)@.accounts.len(),
            seeds.signs(old(self)@.accounts[old(self)@.offers[x as int].vault as int].owner),
            old(self)@.amount(old(self)@.offers[x as int].vault as int) == 0,
        ensures
            final(self)@ == old(self)@.vault_closed(x as int),
    {
        let v = self.offers[x].vault;
        let mut a = self.accounts[v];
        a.amount = 0;
        a.live = false;
        self.accounts.set(v, a);
        assert(self@.accounts =~= old(self)@.vault_closed(x as int).accounts);
    }

    /// Removes the record at index `x`.
    pub(crate) fn remove_offer(&mut self, x: usize)
        requires
            x < old(self)@.offers.len(),
        ensures
            final(self)@.accounts == old(self)@.accounts,
            final(self)@.offers == old(self)@.offers.remove(x as int),
    {
        self.offers.remove(x);
    }

    /// Closes the empty vault of the record at index `x` of `(maker, seed)`, signed for by the
    /// vault authority's seeds, then removes the record.
    pub(crate) fn retire(&mut self, seeds: SignerSeeds, x: usize, maker: u64, seed: u64)
        requires
            old(self)@.wf(),
            old(self)@.keyed(x as int, maker, seed),
            seeds.signs(old(self)@.accounts[old(self)@.offers[x as int].vault as int].owner),
            old(self)@.amount(old(self)@.offers[x as int].vault as int) == 0,
        ensures
            final(self)@ == old(self)@.retired(maker, seed),
            final(self)@.wf(),
            !final(self)@.is_open(maker, seed),
    {
        proof {
            lemma_unique_offer(self@, x as int, maker, seed);
            lemma_retired_wf(self@, maker, seed);
            assert(self@.vault_ok(self@.offers[x as int]));
        }
        self.close_vault(seeds, x);
        self.remove_offer(x);
        assert(self@.accounts =~= old(self)@.retired(maker, seed).accounts);
        assert(self@.offers =~= old(self)@.retired(maker, seed).offers);
    }
}

} // verus!
