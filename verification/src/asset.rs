//! Tracked code units, alive or dead, as scanned from a workspace.

use vstd::prelude::*;

verus! {

/// A tracked code unit.
pub struct Asset {
    pub id: String,
    pub name: String,
    pub asset_type: String,
    pub location: String,
    pub language: Option<String>,
    pub tags: Vec<String>,
    pub alive: bool,
    pub line_count: usize,
}

/// How many assets of `s` are alive.
pub open spec fn count_alive(s: Seq<Asset>) -> nat
    decreases s.len(),
{
    if s.len() == 0 {
        0
    } else {
        count_alive(s.drop_last()) + if s.last().alive {
            1nat
        } else {
            0
        }
    }
}

/// No more assets are alive than there are assets.
pub proof fn lemma_count_alive_le_len(s: Seq<Asset>)
    ensures
        count_alive(s) <= s.len(),
    decreases s.len(),
{
    if s.len() > 0 {
        lemma_count_alive_le_len(s.drop_last());
    }
}

/// Counts the alive assets.
#[verifier::loop_isolation(false)]
pub fn count_alive_assets(assets: &Vec<Asset>) -> (n: usize)
    ensures
        n == count_alive(assets@),
        n <= assets@.len(),
{
    let mut n: usize = 0;
    let mut i: usize = 0;
    proof {
        assert(assets@.take(0int) =~= Seq::<Asset>::empty());
        lemma_count_alive_le_len(assets@);
    }
    while i < assets.len()
        invariant
            0 <= i <= assets@.len(),
            n == count_alive(assets@.take(i as int)),
            n <= i,
        decreases assets@.len() - i,
    {
        proof {
            assert(assets@.take(i + 1).drop_last() =~= assets@.take(i as int));
            assert(assets@.take(i + 1).last() == assets@[i as int]);
        }
        if assets[i].alive {
            n = n + 1;
        }
        i = i + 1;
    }
    proof {
        assert(assets@.take(assets@.len() as int) =~= assets@);
    }
    n
}

} // verus!
