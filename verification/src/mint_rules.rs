//! The rules that decide whether a mint inscription counts, and how an
//! accepted mint changes its deployment's supply and holder count.

use vstd::prelude::*;
use crate::decimal::{decimal_text, format_u128, parse_u128, parse_u128_spec};
use crate::inscription::InscriptionMint;
use crate::records::{Deployment, Mint};

verus! {

/// Whether `mint` is accepted under `deployment`: its operation is `mint`,
/// it mints exactly the per-mint limit, under the deployment's protocol, and
/// the deployment's maximum and minted supply are both amounts with supply
/// still left (`max > minted`).
pub open spec fn allows_mint(deployment: Deployment, mint: InscriptionMint) -> bool {
    &&& mint.op@ == seq!['m', 'i', 'n', 't']
    &&& mint.amt@ == deployment.lim@
    &&& mint.p@ == deployment.p@
    &&& parse_u128_spec(deployment.max@) matches Some(max)
    &&& parse_u128_spec(deployment.minted@) matches Some(minted)
    &&& max > minted
}

/// Whether `m` is a mint of the ticker `tick` on chain `chain_id`.
pub open spec fn mints_ticker(m: Mint, chain_id: i64, tick: Seq<char>) -> bool {
    m.chain_id == chain_id && m.tick@ == tick
}

/// Decides a mint inscription against the deployment of its ticker found on
/// its chain, if any: with none found it is refused.
pub fn is_allow_mint(found: Option<&Deployment>, mint: &InscriptionMint) -> (res: bool)
    ensures
        res == (found matches Some(d) && allows_mint(*d, *mint)),
{
    let deployment = match found {
        Some(d) => d,
        None => {
            return false;
        },
    };
    let mint_op = String::from_str("mint");
    proof {
        reveal_strlit("mint");
    }
    assert(mint_op@ == seq!['m', 'i', 'n', 't']);
    if mint.op == mint_op && mint.amt == deployment.lim && mint.p == deployment.p {
        let max = match parse_u128(deployment.max.as_str()) {
            Some(i) => i,
            None => {
                return false;
            },
        };
        let minted = match parse_u128(deployment.minted.as_str()) {
            Some(i) => i,
            None => {
                return false;
            },
        };
        if max > minted {
            assert(allows_mint(*deployment, *mint));
            return true;
        }
    }
    false
}

/// How an accepted mint changes its deployment.
#[derive(Debug)]
pub enum MintTally {
    /// The new minted supply, and 1 where the minter held none of the
    /// ticker before (a new holder), else 0.
    Update { minted: String, add_holder: i64 },
    /// The deployment's minted supply is not an amount.
    BadMinted,
    /// The new supply does not fit in a `u128`.
    Overflow,
}

impl Deployment {
    /// Whether none of `owner_mints` (all the mints of one owner) is of this
    /// deployment's ticker on its chain.
    pub fn is_first_mint(&self, owner_mints: &Vec<Mint>) -> (res: bool)
        ensures
            res == !(exists|i: int|
                0 <= i < owner_mints@.len() && #[trigger] mints_ticker(
                    owner_mints@[i],
                    self.chain_id,
                    self.tick@,
                )),
    {
        let mut i: usize = 0;
        while i < owner_mints.len()
            invariant
                i <= owner_mints@.len(),
                forall|j: int|
                    0 <= j < i ==> !#[trigger] mints_ticker(
                        owner_mints@[j],
                        self.chain_id,
                        self.tick@,
                    ),
            decreases owner_mints@.len() - i,
        {
            let m = &owner_mints[i];
            if m.chain_id == self.chain_id && m.tick == self.tick {
                assert(mints_ticker(owner_mints@[i as int], self.chain_id, self.tick@));
                return false;
            }
            i = i + 1;
        }
        true
    }

    /// The change that a mint of `token_number` by an owner whose mints are
    /// `owner_mints` makes to this deployment.
    pub fn tally_mint(&self, owner_mints: &Vec<Mint>, token_number: u128) -> (res: MintTally)
        ensures
            match parse_u128_spec(self.minted@) {
                None => res is BadMinted,
                Some(m) => if m + token_number > u128::MAX {
                    res is Overflow
                } else {
                    res matches MintTally::Update { minted, add_holder } && minted@
                        == decimal_text((m + token_number) as nat) && add_holder == (if (exists|
                        i: int|
                        0 <= i < owner_mints@.len() && #[trigger] mints_ticker(
                            owner_mints@[i],
                            self.chain_id,
                            self.tick@,
                        )) {
                        0i64
                    } else {
                        1i64
                    })
                },
            },
    {
        let add_holder: i64 = if self.is_first_mint(owner_mints) {
            1
        } else {
            0
        };
        let minted = match parse_u128(self.minted.as_str()) {
            Some(m) => m,
            None => {
                return MintTally::BadMinted;
            },
        };
        match minted.checked_add(token_number) {
            Some(total) => MintTally::Update { minted: format_u128(total), add_holder },
            None => MintTally::Overflow,
        }
    }
}

/// A mint is accepted exactly when its operation text is `mint`, its amount
/// text is the deployment's per-mint limit text (no other amount, larger or
/// smaller), its protocol text is the deployment's, and the deployment's
/// maximum and minted supply read as amounts with the maximum above the
/// supply.
pub proof fn lemma_mint_acceptance(deployment: Deployment, mint: InscriptionMint)
    ensures
        allows_mint(deployment, mint) ==> {
            &&& mint.op@ == seq!['m', 'i', 'n', 't']
            &&& mint.amt@ == deployment.lim@
            &&& mint.p@ == deployment.p@
        },
        allows_mint(deployment, mint) <== {
            &&& mint.op@ == seq!['m', 'i', 'n', 't']
            &&& mint.amt@ == deployment.lim@
            &&& mint.p@ == deployment.p@
            &&& parse_u128_spec(deployment.max@) is Some
            &&& parse_u128_spec(deployment.minted@) is Some
            &&& parse_u128_spec(deployment.minted@)->0 < parse_u128_spec(deployment.max@)->0
        },
        mint.amt@ != deployment.lim@ ==> !allows_mint(deployment, mint),
{
}

/// An earlier mint counts as one of a ticker on a chain exactly when it is
/// on that chain and its ticker text is that ticker: a mint of any other
/// ticker (of the same length or not) or on another chain does not.
pub proof fn lemma_mints_ticker_exact(m: Mint, chain_id: i64, tick: Seq<char>)
    ensures
        mints_ticker(m, chain_id, tick) <==> (m.chain_id == chain_id && m.tick@ == tick),
{
}

/// An owner whose earlier mints are all of other tickers or other chains is a
/// new holder: `tally_mint` adds one holder; an owner with an earlier mint of
/// the same ticker on the same chain adds none.
pub proof fn lemma_new_holder(deployment: Deployment, owner_mints: Seq<Mint>)
    ensures
        (forall|i: int|
            0 <= i < owner_mints.len() ==> (#[trigger] owner_mints[i]).chain_id
                != deployment.chain_id || owner_mints[i].tick@ != deployment.tick@) ==> !(exists|
            i: int|
            0 <= i < owner_mints.len() && #[trigger] mints_ticker(
                owner_mints[i],
                deployment.chain_id,
                deployment.tick@,
            )),
        (exists|i: int|
            0 <= i < owner_mints.len() && (#[trigger] owner_mints[i]).chain_id
                == deployment.chain_id && owner_mints[i].tick@ == deployment.tick@) ==> (exists|
            i: int|
            0 <= i < owner_mints.len() && #[trigger] mints_ticker(
                owner_mints[i],
                deployment.chain_id,
                deployment.tick@,
            )),
{
    if exists|i: int|
        0 <= i < owner_mints.len() && (#[trigger] owner_mints[i]).chain_id == deployment.chain_id
            && owner_mints[i].tick@ == deployment.tick@ {
        let i = choose|i: int|
            0 <= i < owner_mints.len() && (#[trigger] owner_mints[i]).chain_id
                == deployment.chain_id && owner_mints[i].tick@ == deployment.tick@;
        assert(mints_ticker(owner_mints[i], deployment.chain_id, deployment.tick@));
    }
}

/// A mint that the rules accept always meets a deployment whose supply so
/// far is an amount below its maximum, so recording it never stops at an
/// unreadable supply (`tally_mint` gives no `BadMinted` for it).
pub proof fn lemma_accepted_mint_has_supply(deployment: Deployment, mint: InscriptionMint)
    requires
        allows_mint(deployment, mint),
    ensures
        parse_u128_spec(deployment.minted@) is Some,
        parse_u128_spec(deployment.max@) is Some,
        parse_u128_spec(deployment.minted@)->0 < parse_u128_spec(deployment.max@)->0,
{
}

} // verus!
