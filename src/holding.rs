use vstd::prelude::*;
use crate::key::Key;

verus! {

/// One account that custodies a quantity of a single asset type.
#[derive(Clone, Copy, Debug)]
pub struct Holding {
    /// The asset type held.
    pub mint: Key,
    /// The identity whose authorisation moves funds out of this holding.
    pub owner: Key,
    pub amount: u64,
    /// False once the holding has been closed.
    pub open: bool,
}

/// What holding `h` contributes to the circulating amount of asset `m`.
pub open spec fn share(h: Holding, m: Seq<u8>) -> int {
    if h.open && h.mint@ == m {
        h.amount as int
    } else {
        0
    }
}

/// The total amount of asset `m` held by the open holdings of `s`.
pub open spec fn supply(s: Seq<Holding>, m: Seq<u8>) -> int
    decreases s.len(),
{
    if s.len() == 0 {
        0
    } else {
        supply(s.drop_last(), m) + share(s.last(), m)
    }
}

/// Replacing one holding changes the supply by the difference of the two shares.
pub proof fn lemma_supply_update(s: Seq<Holding>, i: int, h: Holding, m: Seq<u8>)
    requires
        0 <= i < s.len(),
    ensures
        supply(s.update(i, h), m) == supply(s, m) - share(s[i], m) + share(h, m),
    decreases s.len(),
{
    let t = s.update(i, h);
    if i == s.len() - 1 {
        assert(t.drop_last() =~= s.drop_last());
    } else {
        assert(t.drop_last() =~= s.drop_last().update(i, h));
        lemma_supply_update(s.drop_last(), i, h, m);
    }
}

/// Appending a holding adds its share to the supply.
pub proof fn lemma_supply_push(s: Seq<Holding>, h: Holding, m: Seq<u8>)
    ensures
        supply(s.push(h), m) == supply(s, m) + share(h, m),
{
    assert(s.push(h).drop_last() =~= s);
}

} // verus!
