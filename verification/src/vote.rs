//! Day-phase vote resolution: one validated submission per alive
//! player is tallied, and the unique strict maximum (if any) is moved
//! from the alive to the dead partition. A tie at the maximum
//! eliminates nobody.

use vstd::prelude::*;

use crate::night::name_views;
use crate::roster::{has_name, Entry, GameStatus};
use crate::tally::{is_unique_max, only_max_index};

verus! {

/// The number of votes cast for `name`.
pub open spec fn count_votes(votes: Seq<Seq<char>>, name: Seq<char>) -> nat
    decreases votes.len(),
{
    if votes.len() == 0 {
        0
    } else {
        count_votes(votes.drop_last(), name) + if votes.last() == name {
            1nat
        } else {
            0nat
        }
    }
}

/// The alive player at position `i` drew strictly more votes than
/// every other alive player.
pub open spec fn is_vote_winner(alive: Seq<Entry>, votes: Seq<Seq<char>>, i: int) -> bool {
    &&& 0 <= i < alive.len()
    &&& forall|j: int|
        0 <= j < alive.len() && j != i ==> count_votes(votes, alive[j].name@) < count_votes(
            votes,
            alive[i].name@,
        )
}

/// Count the votes cast for one name.
fn tally_for(votes: &Vec<String>, name: &String) -> (c: usize)
    ensures
        c == count_votes(name_views(votes@), name@),
{
    let mut c: usize = 0;
    let mut j: usize = 0;
    while j < votes.len()
        invariant
            0 <= j <= votes@.len(),
            c <= j,
            c == count_votes(name_views(votes@).take(j as int), name@),
        decreases votes@.len() - j,
    {
        proof {
            assert(name_views(votes@).take(j + 1).drop_last() =~= name_views(votes@).take(
                j as int,
            ));
            assert(name_views(votes@).take(j + 1).last() == name_views(votes@)[j as int]);
        }
        if votes[j] == *name {
            c += 1;
        }
        j += 1;
    }
    proof {
        assert(name_views(votes@).take(votes@.len() as int) =~= name_views(votes@));
    }
    c
}

impl GameStatus {
    /// Resolve one day's vote. Each submission names an alive player
    /// (the input layer re-prompts until it does), one submission per
    /// alive player. The player holding the unique strict maximum of
    /// the tally is moved to the dead partition and reported; a tie at
    /// the maximum changes nothing.
    pub fn vote(&mut self, votes: &Vec<String>) -> (eliminated: Option<String>)
        requires
            old(self).wf(),
            votes@.len() == old(self).alive@.len(),
            forall|j: int|
                0 <= j < votes@.len() ==> has_name(old(self).alive@, #[trigger] votes@[j]@),
        ensures
            final(self).wf(),
            final(self).alive@.len() + final(self).dead@.len() == old(self).alive@.len() + old(
                self,
            ).dead@.len(),
            match eliminated {
                Some(name) => ({
                    let i = choose|i: int|
                        is_vote_winner(old(self).alive@, name_views(votes@), i);
                    &&& exists|i: int| is_vote_winner(old(self).alive@, name_views(votes@), i)
                    &&& name@ == old(self).alive@[i].name@
                    &&& final(self).alive@ == old(self).alive@.remove(i)
                    &&& final(self).dead@ == old(self).dead@.push(old(self).alive@[i])
                }),
                None => {
                    &&& forall|i: int| !is_vote_winner(old(self).alive@, name_views(votes@), i)
                    &&& final(self).alive@ == old(self).alive@
                    &&& final(self).dead@ == old(self).dead@
                },
            },
    {
        let ghost a0 = self.alive@;
        let ghost vv = name_views(votes@);
        let n = self.alive.len();
        let mut counts: Vec<usize> = Vec::new();
        let mut i: usize = 0;
        while i < n
            invariant
                0 <= i <= n,
                n == self.alive@.len(),
                self.alive@ == a0,
                self.dead@ == old(self).dead@,
                vv == name_views(votes@),
                counts@.len() == i,
                forall|k: int| 0 <= k < i ==> counts@[k] == count_votes(vv, a0[k].name@),
            decreases n - i,
        {
            let c = tally_for(votes, &self.alive[i].name);
            counts.push(c);
            i += 1;
        }
        match only_max_index(&counts) {
            Some(w) => {
                proof {
                    assert(is_vote_winner(a0, vv, w as int)) by {
                        assert(is_unique_max(counts@, w as int));
                        assert forall|j: int|
                            0 <= j < a0.len() && j != w as int implies count_votes(vv, a0[j].name@)
                            < count_votes(vv, a0[w as int].name@) by {
                            assert(counts@[j] < counts@[w as int]);
                        }
                    }
                    let i0 = choose|i: int| is_vote_winner(a0, vv, i);
                    if i0 != w as int {
                        assert(count_votes(vv, a0[i0].name@) < count_votes(vv, a0[w as int].name@));
                        assert(count_votes(vv, a0[w as int].name@) < count_votes(vv, a0[i0].name@));
                    }
                }
                let e = self.alive.remove(w);
                let name = e.name.clone();
                self.dead.push(e);
                proof {
                    lemma_remove_keeps_wf(a0, old(self).dead@, w as int);
                }
                Some(name)
            },
            None => {
                proof {
                    assert forall|i: int| !is_vote_winner(a0, vv, i) by {
                        if is_vote_winner(a0, vv, i) {
                            assert forall|j: int|
                                0 <= j < counts@.len() && j != i implies counts@[j]
                                < counts@[i] by {
                                assert(count_votes(vv, a0[j].name@) < count_votes(vv, a0[i].name@));
                            }
                            assert(is_unique_max(counts@, i));
                        }
                    }
                }
                None
            },
        }
    }
}

/// Moving one entry from the alive to the dead partition keeps the
/// roster's name invariants.
proof fn lemma_remove_keeps_wf(alive: Seq<Entry>, dead: Seq<Entry>, w: int)
    requires
        0 <= w < alive.len(),
        crate::roster::distinct_names(alive),
        crate::roster::distinct_names(dead),
        crate::roster::disjoint_names(alive, dead),
    ensures
        crate::roster::distinct_names(alive.remove(w)),
        crate::roster::distinct_names(dead.push(alive[w])),
        crate::roster::disjoint_names(alive.remove(w), dead.push(alive[w])),
{
    let a1 = alive.remove(w);
    let d1 = dead.push(alive[w]);
    assert forall|x: int, y: int| 0 <= x < y < a1.len() implies a1[x].name@ != a1[y].name@ by {
        let xo = if x < w {
            x
        } else {
            x + 1
        };
        let yo = if y < w {
            y
        } else {
            y + 1
        };
        assert(a1[x] == alive[xo]);
        assert(a1[y] == alive[yo]);
    }
    assert forall|x: int, y: int| 0 <= x < y < d1.len() implies d1[x].name@ != d1[y].name@ by {
        if y < dead.len() {
        } else {
            assert(d1[y] == alive[w]);
            assert(alive[w].name@ != dead[x].name@);
        }
    }
    assert forall|x: int, y: int|
        0 <= x < a1.len() && 0 <= y < d1.len() implies a1[x].name@ != d1[y].name@ by {
        let xo = if x < w {
            x
        } else {
            x + 1
        };
        assert(a1[x] == alive[xo]);
        if y < dead.len() {
            assert(alive[xo].name@ != dead[y].name@);
        } else {
            assert(d1[y] == alive[w]);
            if xo < w {
                assert(alive[xo].name@ != alive[w].name@);
            } else {
                assert(alive[w].name@ != alive[xo].name@);
            }
        }
    }
}

} // verus!
