use vstd::prelude::*;

verus! {

/// Who controls a holding account: a person's key, or the authority derived
/// from the tag `"escrow"`, a maker and a seed, which has no private key.
#[derive(Clone, Copy, Debug, PartialEq, Eq, Structural)]
pub enum Authority {
    User(u64),
    Program { maker: u64, seed: u64 },
}

/// The controlling authority of the vault of the escrow `(maker, seed)`.
pub open spec fn derived(maker: u64, seed: u64) -> Authority {
    Authority::Program { maker, seed }
}

/// The derivation parameter that makes the identifier of `(maker, seed)` valid. In this
/// ledger every pair yields a valid identifier at the first parameter tried.
pub open spec fn canonical_bump(maker: u64, seed: u64) -> u8 {
    255
}

/// Derives the vault authority of the escrow `(maker, seed)` and its derivation parameter:
/// a pure function of the pair.
pub fn derive_authority(maker: u64, seed: u64) -> (r: (Authority, u8))
    ensures
        r == (derived(maker, seed), canonical_bump(maker, seed)),
{
    (Authority::Program { maker, seed }, 255)
}

/// The address of an escrow record, which is determined by its maker and seed.
#[derive(Clone, Copy, Debug, PartialEq, Eq, Structural)]
pub struct EscrowKey {
    pub maker: u64,
    pub seed: u64,
}

/// The durable state of an open trade offer.
#[derive(Clone, Copy, Debug, PartialEq, Eq, Structural)]
pub struct Escrow {
    pub seed: u64,
    pub maker: u64,
    pub mint_a: u64,
    pub mint_b: u64,
    pub receive: u64,
    pub bump: u8,
}

/// A token-holding account: `amount` units of asset `mint`, controlled by `owner`.
/// A closed account stays in place with `live == false`, so that account indices are stable.
#[derive(Clone, Copy, Debug, PartialEq, Eq, Structural)]
pub struct TokenAccount {
    pub owner: Authority,
    pub mint: u64,
    pub amount: u64,
    pub live: bool,
}

impl TokenAccount {
    pub open spec fn with_amount(self, amount: u64) -> TokenAccount {
        TokenAccount { owner: self.owner, mint: self.mint, amount, live: self.live }
    }

    pub open spec fn closed(self) -> TokenAccount {
        TokenAccount { owner: self.owner, mint: self.mint, amount: 0, live: false }
    }
}

/// An open escrow record together with the index of the vault it controls.
#[derive(Clone, Copy, Debug, PartialEq, Eq, Structural)]
pub struct Offer {
    pub escrow: Escrow,
    pub vault: usize,
}

/// The signing context for an operation on behalf of a derived authority:
/// the same parameters that derived it, and the stored bump.
#[derive(Clone, Copy, Debug, PartialEq, Eq, Structural)]
pub struct SignerSeeds {
    pub maker: u64,
    pub seed: u64,
    pub bump: u8,
}

impl Escrow {
    /// The signing context of this record's vault authority.
    pub fn signer_seeds(&self) -> (r: SignerSeeds)
        ensures
            r == (SignerSeeds { maker: self.maker, seed: self.seed, bump: self.bump }),
    {
        SignerSeeds { maker: self.maker, seed: self.seed, bump: self.bump }
    }
}

impl SignerSeeds {
    /// These seeds sign for `owner`: they derive it, with its own derivation parameter.
    pub open spec fn signs(self, owner: Authority) -> bool {
        owner == derived(self.maker, self.seed) && self.bump == canonical_bump(self.maker, self.seed)
    }

    /// Whether these seeds may sign for an account controlled by `owner`.
    pub fn signs_for(&self, owner: Authority) -> (r: bool)
        ensures
            r == self.signs(owner),
    {
        let (derived_owner, bump) = derive_authority(self.maker, self.seed);
        owner == derived_owner && self.bump == bump
    }
}

} // verus!
