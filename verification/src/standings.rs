//! Team standings: ordering a roster by score, highest first.

use vstd::prelude::*;

verus! {

use crate::docs::Player;

/// Scores never increase along the sequence.
pub open spec fn sorted_desc(s: Seq<Player>) -> bool {
    forall|a: int, b: int| 0 <= a < b < s.len() ==> (#[trigger] s[a]).points >= (#[trigger] s[b]).points
}

/// The players ordered by points, highest first: a permutation of the
/// input.
pub fn sort_players(players: Vec<Player>) -> (r: Vec<Player>)
    ensures
        r@.to_multiset() == players@.to_multiset(),
        r@.len() == players@.len(),
        sorted_desc(r@),
{
    broadcast use vstd::seq_lib::group_to_multiset_ensures;

    let mut rem = players;
    let ghost all = rem@.to_multiset();
    let mut out: Vec<Player> = Vec::new();
    while rem.len() > 0
        invariant
            out@.to_multiset().add(rem@.to_multiset()) == all,
            out@.len() + rem@.len() == all.len(),
            sorted_desc(out@),
            forall|a: int, b: int|
                0 <= a < out@.len() && 0 <= b < rem@.len() ==> (#[trigger] out@[a]).points >= (
                #[trigger] rem@[b]).points,
        decreases rem@.len(),
    {
        let mut best: usize = 0;
        let mut j: usize = 1;
        while j < rem.len()
            invariant
                best < j <= rem@.len(),
                rem@.len() > 0,
                forall|k: int|
                    0 <= k < j ==> rem@[best as int].points >= (#[trigger] rem@[k]).points,
            decreases rem@.len() - j,
        {
            if rem[j].points > rem[best].points {
                best = j;
            }
            j = j + 1;
        }
        let ghost rem0 = rem@;
        let ghost out0 = out@;
        let p = rem.remove(best);
        out.push(p);
        proof {
            assert(rem0.contains(p)) by {
                assert(rem0[best as int] == p);
            }
            out0.to_multiset_ensures();
            rem0.to_multiset_ensures();
            assert(out@ == out0.push(p));
            assert(rem@ == rem0.remove(best as int));
            assert(out0.push(p).to_multiset() == out0.to_multiset().insert(p));
            assert(rem0.remove(best as int).to_multiset() == rem0.to_multiset().remove(p));
            assert(rem0.to_multiset().count(p) > 0);
            assert(out@.to_multiset().add(rem@.to_multiset()) =~= all);
            assert forall|a: int, b: int|
                0 <= a < out@.len() && 0 <= b < rem@.len() implies (#[trigger] out@[a]).points >= (
            #[trigger] rem@[b]).points by {
                if a < out@.len() - 1 {
                    assert(out@[a] == out0[a]);
                }
                if b < best {
                    assert(rem@[b] == rem0[b]);
                } else {
                    assert(rem@[b] == rem0[b + 1]);
                }
            }
        }
    }
    out
}

} // verus!
