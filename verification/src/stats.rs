//! Filter-map-reduce over all clients, for statistics: apply a function
//! that optionally produces a token, and reduce to per-token counts sorted
//! with the highest count first. The caller turns counts into fractions of
//! the returned total.

use vstd::prelude::*;

use crate::client::ClientRepo;
use crate::player::{Player, PlayerClientData, PlayerRepo};

verus! {

/// How many rows hold a client.
pub open spec fn client_count(s: Seq<Player>) -> int
    decreases s.len(),
{
    if s.len() == 0 {
        0
    } else {
        (if s[0].client is Some {
            1int
        } else {
            0int
        }) + client_count(s.drop_first())
    }
}

proof fn lemma_client_count_bound(s: Seq<Player>)
    ensures
        0 <= client_count(s) <= s.len(),
    decreases s.len(),
{
    if s.len() > 0 {
        lemma_client_count_bound(s.drop_first());
    }
}

/// The index of `token` in the accumulator, if present.
fn find_token(acc: &Vec<(u64, u32)>, token: u64) -> (r: Option<usize>)
    ensures
        match r {
            Some(k) => k < acc@.len() && acc@[k as int].0 == token,
            None => forall|a: int| 0 <= a < acc@.len() ==> acc@[a].0 != token,
        },
{
    let mut k: usize = 0;
    while k < acc.len()
        invariant
            k <= acc@.len(),
            forall|a: int| 0 <= a < k ==> acc@[a].0 != token,
        decreases acc@.len() - k,
    {
        if acc[k].0 == token {
            return Some(k);
        }
        k = k + 1;
    }
    None
}

impl ClientRepo {
    /// Applies `fmr` to every client and returns each produced token with
    /// the number of clients that produced it, highest count first, together
    /// with the number of clients seen. Tokens are distinct, every count is
    /// between one and the total, and the counts sum to at most the total.
    pub fn filter_map_reduce<F: Fn(&PlayerClientData) -> Option<u64>>(
        players: &PlayerRepo,
        fmr: F,
    ) -> (r: (Vec<(u64, u32)>, u32))
        requires
            players.players@.len() < u32::MAX,
            forall|c: &PlayerClientData| #[trigger] call_requires(fmr, (c,)),
        ensures
            r.1 == client_count(players.players@),
            forall|k: int, l: int| 0 <= k < l < r.0@.len() ==> r.0@[k].1 >= r.0@[l].1,
            forall|k: int, l: int| 0 <= k < l < r.0@.len() ==> r.0@[k].0 != r.0@[l].0,
            forall|k: int| 0 <= k < r.0@.len() ==> 1 <= (#[trigger] r.0@[k]).1 <= r.1,
    {
        let ghost s = players.players@;
        let mut acc: Vec<(u64, u32)> = Vec::new();
        let mut total: u32 = 0;
        let mut i: usize = 0;
        proof {
            assert(s.skip(0) =~= s);
            lemma_client_count_bound(s);
        }
        while i < players.players.len()
            invariant
                players.players@ == s,
                s.len() < u32::MAX,
                i <= s.len(),
                forall|c: &PlayerClientData| #[trigger] call_requires(fmr, (c,)),
                total + client_count(s.skip(i as int)) == client_count(s),
                0 <= client_count(s) <= s.len(),
                total <= i,
                forall|k: int, l: int| 0 <= k < l < acc@.len() ==> acc@[k].0 != acc@[l].0,
                forall|k: int| 0 <= k < acc@.len() ==> 1 <= (#[trigger] acc@[k]).1 <= total,
            decreases s.len() - i,
        {
            proof {
                assert(s.skip(i as int).drop_first() =~= s.skip(i as int + 1));
                assert(s.skip(i as int)[0] == s[i as int]);
                lemma_client_count_bound(s.skip(i as int + 1));
                lemma_client_count_bound(s.skip(i as int));
            }
            match &players.players[i].client {
                Some(client) => {
                    total = total + 1;
                    match fmr(client) {
                        Some(token) => {
                            match find_token(&acc, token) {
                                Some(k) => {
                                    let count = acc[k].1;
                                    let ghost acc0 = acc@;
                                    let _ = acc.remove(k);
                                    acc.insert(k, (token, count + 1));
                                    proof {
                                        assert(acc@ =~= acc0.update(
                                            k as int,
                                            (token, (count + 1) as u32),
                                        ));
                                    }
                                },
                                None => {
                                    acc.push((token, 1));
                                },
                            }
                        },
                        None => {},
                    }
                },
                None => {},
            }
            i = i + 1;
        }
        proof {
            assert(s.skip(s.len() as int) =~= Seq::<Player>::empty());
        }

        // Extract by descending count.
        let mut out: Vec<(u64, u32)> = Vec::new();
        while acc.len() > 0
            invariant
                forall|k: int, l: int| 0 <= k < l < out@.len() ==> out@[k].1 >= out@[l].1,
                forall|k: int, l: int| 0 <= k < l < out@.len() ==> out@[k].0 != out@[l].0,
                forall|k: int| 0 <= k < out@.len() ==> 1 <= (#[trigger] out@[k]).1 <= total,
                forall|k: int, l: int| 0 <= k < acc@.len() && 0 <= l < acc@.len() && k != l
                    ==> acc@[k].0 != acc@[l].0,
                forall|k: int| 0 <= k < acc@.len() ==> 1 <= (#[trigger] acc@[k]).1 <= total,
                forall|k: int, l: int|
                    0 <= k < out@.len() && 0 <= l < acc@.len() ==> out@[k].1 >= acc@[l].1
                        && out@[k].0 != acc@[l].0,
            decreases acc@.len(),
        {
            let mut best: usize = 0;
            let mut m: usize = 1;
            while m < acc.len()
                invariant
                    best < m || (best == 0 && m <= 1),
                    best < acc@.len(),
                    m <= acc@.len(),
                    forall|k: int| 0 <= k < m ==> acc@[best as int].1 >= (#[trigger] acc@[k]).1,
                decreases acc@.len() - m,
            {
                if acc[m].1 > acc[best].1 {
                    best = m;
                }
                m = m + 1;
            }
            let ghost acc0 = acc@;
            let picked = acc.remove(best);
            let ghost out0 = out@;
            out.push(picked);
            proof {
                assert(out@ =~= out0.push(acc0[best as int]));
                assert forall|k: int, l: int|
                    0 <= k < out@.len() && 0 <= l < acc@.len()
                    implies out@[k].1 >= acc@[l].1 && out@[k].0 != acc@[l].0 by {
                    let l0 = if l < best as int {
                        l
                    } else {
                        l + 1
                    };
                    assert(acc@[l] == acc0[l0]);
                    if k < out0.len() {
                        assert(out@[k] == out0[k]);
                    } else {
                        assert(out@[k] == acc0[best as int]);
                    }
                }
            }
        }
        (out, total)
    }
}

} // verus!
