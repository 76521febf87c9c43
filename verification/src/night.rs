//! Night-phase kill resolution: the kill-intent set gathered from the
//! Werewolves' actions is resolved against each targeted player's own
//! kill rule (Werewolves immune, a guard absorbs one attempt), and the
//! dead are moved out of the alive partition.

use vstd::prelude::*;

use crate::player::Player;
use crate::role::Role;
use crate::roster::{distinct_names, has_name, Entry, GameStatus};

verus! {

/// The views of a list of names.
pub open spec fn name_views(names: Seq<String>) -> Seq<Seq<char>> {
    names.map_values(|s: String| s@)
}

/// No name occurs twice in the list.
pub open spec fn distinct_name_list(names: Seq<Seq<char>>) -> bool {
    forall|i: int, j: int| 0 <= i < j < names.len() ==> names[i] != names[j]
}

/// The kill rule of a single entry: a targeted player dies exactly
/// when they are not a Werewolf and not guarded.
pub open spec fn dies(e: Entry, kills: Seq<Seq<char>>) -> bool {
    &&& e.player.role != Role::Werewolf
    &&& kills.contains(e.name@)
    &&& !e.player.guarded
}

/// What is left of one entry after the night: a guarded non-Werewolf
/// who was targeted has their guard consumed; anyone else who stays
/// alive is unchanged.
pub open spec fn after_night(e: Entry, kills: Seq<Seq<char>>) -> Entry {
    if e.player.role != Role::Werewolf && kills.contains(e.name@) && e.player.guarded {
        Entry { name: e.name, player: Player { role: e.player.role, guarded: false } }
    } else {
        e
    }
}

/// The alive partition after resolving `kills`, in roster order.
pub open spec fn surviving(alive: Seq<Entry>, kills: Seq<Seq<char>>) -> Seq<Entry>
    decreases alive.len(),
{
    if alive.len() == 0 {
        Seq::empty()
    } else {
        surviving(alive.drop_last(), kills) + if dies(alive.last(), kills) {
            Seq::empty()
        } else {
            seq![after_night(alive.last(), kills)]
        }
    }
}

/// The entries that the night kills, in roster order.
pub open spec fn fallen(alive: Seq<Entry>, kills: Seq<Seq<char>>) -> Seq<Entry>
    decreases alive.len(),
{
    if alive.len() == 0 {
        Seq::empty()
    } else {
        fallen(alive.drop_last(), kills) + if dies(alive.last(), kills) {
            seq![alive.last()]
        } else {
            Seq::empty()
        }
    }
}

/// Every player is accounted for after a night: the survivors and the
/// fallen together are exactly the old alive partition (so the total
/// population never changes), they carry the same names, and names
/// stay distinct.
pub proof fn lemma_night_partition(alive: Seq<Entry>, kills: Seq<Seq<char>>)
    ensures
        surviving(alive, kills).len() + fallen(alive, kills).len() == alive.len(),
        forall|n: Seq<char>|
            #[trigger] has_name(surviving(alive, kills), n) ==> has_name(alive, n),
        forall|n: Seq<char>| #[trigger] has_name(fallen(alive, kills), n) ==> has_name(alive, n),
        distinct_names(alive) ==> distinct_names(surviving(alive, kills)),
        distinct_names(alive) ==> distinct_names(fallen(alive, kills)),
        distinct_names(alive) ==> forall|n: Seq<char>|
            #[trigger] has_name(surviving(alive, kills), n) ==> !has_name(fallen(alive, kills), n),
    decreases alive.len(),
{
    if alive.len() > 0 {
        let prefix = alive.drop_last();
        let last = alive.last();
        lemma_night_partition(prefix, kills);
        assert forall|n: Seq<char>| #[trigger] has_name(surviving(alive, kills), n) implies
            has_name(alive, n) by {
            let s = surviving(alive, kills);
            let i = choose|i: int| 0 <= i < s.len() && #[trigger] s[i].name@ == n;
            if i < surviving(prefix, kills).len() {
                assert(surviving(prefix, kills)[i].name@ == n);
                assert(has_name(surviving(prefix, kills), n));
                assert(has_name(prefix, n));
                let k = choose|k: int| 0 <= k < prefix.len() && #[trigger] prefix[k].name@ == n;
                assert(alive[k].name@ == n);
            } else {
                assert(s[i] == after_night(last, kills));
                assert(alive[alive.len() - 1].name@ == n);
            }
        }
        assert forall|n: Seq<char>| #[trigger] has_name(fallen(alive, kills), n) implies has_name(
            alive,
            n,
        ) by {
            let s = fallen(alive, kills);
            let i = choose|i: int| 0 <= i < s.len() && #[trigger] s[i].name@ == n;
            if i < fallen(prefix, kills).len() {
                assert(fallen(prefix, kills)[i].name@ == n);
                assert(has_name(fallen(prefix, kills), n));
                assert(has_name(prefix, n));
                let k = choose|k: int| 0 <= k < prefix.len() && #[trigger] prefix[k].name@ == n;
                assert(alive[k].name@ == n);
            } else {
                assert(s[i] == last);
                assert(alive[alive.len() - 1].name@ == n);
            }
        }
        if distinct_names(alive) {
            assert(distinct_names(prefix)) by {
                assert forall|i: int, j: int|
                    0 <= i < j < prefix.len() implies prefix[i].name@ != prefix[j].name@ by {
                    assert(alive[i].name@ != alive[j].name@);
                }
            }
            assert forall|n: Seq<char>| has_name(prefix, n) implies n != last.name@ by {
                let k = choose|k: int| 0 <= k < prefix.len() && #[trigger] prefix[k].name@ == n;
                assert(alive[k].name@ != alive[alive.len() - 1].name@);
            }
            assert(distinct_names(surviving(alive, kills))) by {
                let s = surviving(alive, kills);
                let sp = surviving(prefix, kills);
                assert forall|i: int, j: int|
                    0 <= i < j < s.len() implies s[i].name@ != s[j].name@ by {
                    if j < sp.len() {
                    } else {
                        assert(s[j] == after_night(last, kills));
                        assert(s[i] == sp[i]);
                        assert(has_name(sp, s[i].name@));
                        assert(has_name(prefix, s[i].name@));
                    }
                }
            }
            assert(distinct_names(fallen(alive, kills))) by {
                let s = fallen(alive, kills);
                let sp = fallen(prefix, kills);
                assert forall|i: int, j: int|
                    0 <= i < j < s.len() implies s[i].name@ != s[j].name@ by {
                    if j < sp.len() {
                    } else {
                        assert(s[j] == last);
                        assert(s[i] == sp[i]);
                        assert(has_name(sp, s[i].name@));
                        assert(has_name(prefix, s[i].name@));
                    }
                }
            }
            assert forall|n: Seq<char>|
                #[trigger] has_name(surviving(alive, kills), n) implies !has_name(
                fallen(alive, kills),
                n,
            ) by {
                if has_name(fallen(alive, kills), n) {
                    let s = surviving(alive, kills);
                    let f = fallen(alive, kills);
                    let i = choose|i: int| 0 <= i < s.len() && #[trigger] s[i].name@ == n;
                    let j = choose|j: int| 0 <= j < f.len() && #[trigger] f[j].name@ == n;
                    if i < surviving(prefix, kills).len() {
                        assert(surviving(prefix, kills)[i].name@ == n);
                        assert(has_name(surviving(prefix, kills), n));
                        assert(has_name(prefix, n));
                        if j < fallen(prefix, kills).len() {
                            assert(fallen(prefix, kills)[j].name@ == n);
                            assert(has_name(fallen(prefix, kills), n));
                            assert(false);
                        } else {
                            // the last entry fell, yet a prefix survivor
                            // carries its name
                            assert(f[j] == last);
                            assert(false);
                        }
                    } else {
                        // the last entry survived, so it did not fall
                        assert(s[i] == after_night(last, kills));
                        assert(!dies(last, kills));
                        if j < fallen(prefix, kills).len() {
                            assert(fallen(prefix, kills)[j].name@ == n);
                            assert(has_name(fallen(prefix, kills), n));
                            assert(has_name(prefix, n));
                            assert(false);
                        } else {
                            assert(f.len() == fallen(prefix, kills).len());
                            assert(false);
                        }
                    }
                }
            }
        }
    }
}

/// A Werewolf never falls to the night's kill path, whatever the guard
/// states and the kill-intent set: every alive Werewolf entry is still
/// present, unchanged, among the survivors, and no fallen entry is a
/// Werewolf.
pub proof fn lemma_werewolves_survive(alive: Seq<Entry>, kills: Seq<Seq<char>>)
    ensures
        forall|i: int|
            0 <= i < alive.len() && (#[trigger] alive[i]).player.role == Role::Werewolf
                ==> surviving(alive, kills).contains(alive[i]),
        forall|j: int|
            0 <= j < fallen(alive, kills).len() ==> (#[trigger] fallen(alive, kills)[j]).player.role
                != Role::Werewolf,
    decreases alive.len(),
{
    if alive.len() > 0 {
        let prefix = alive.drop_last();
        let last = alive.last();
        lemma_werewolves_survive(prefix, kills);
        assert forall|i: int|
            0 <= i < alive.len() && (#[trigger] alive[i]).player.role
                == Role::Werewolf implies surviving(alive, kills).contains(alive[i]) by {
            if i < alive.len() - 1 {
                assert(prefix[i] == alive[i]);
                assert(surviving(prefix, kills).contains(alive[i]));
                let k = choose|k: int|
                    0 <= k < surviving(prefix, kills).len() && surviving(prefix, kills)[k]
                        == alive[i];
                assert(surviving(alive, kills)[k] == alive[i]);
            } else {
                assert(!dies(last, kills));
                assert(after_night(last, kills) == last);
                let n = surviving(prefix, kills).len() as int;
                assert(surviving(alive, kills)[n] == last);
            }
        }
    }
}

/// Add a kill intent to the set, keeping it a set: a name already
/// marked is not marked twice.
pub fn add_kill(kills: &mut Vec<String>, name: &String)
    requires
        distinct_name_list(name_views(old(kills)@)),
    ensures
        distinct_name_list(name_views(final(kills)@)),
        name_views(final(kills)@).contains(name@),
        forall|n: Seq<char>|
            #[trigger] name_views(final(kills)@).contains(n) <==> (name_views(
                old(kills)@,
            ).contains(n) || n == name@),
{
    let ghost k0 = kills@;
    let mut i: usize = 0;
    while i < kills.len()
        invariant
            0 <= i <= kills@.len(),
            kills@ == k0,
            k0 == old(kills)@,
            distinct_name_list(name_views(old(kills)@)),
            forall|j: int| 0 <= j < i ==> #[trigger] name_views(k0)[j] != name@,
        decreases kills@.len() - i,
    {
        if kills[i] == *name {
            proof {
                assert forall|a: int, b: int|
                    0 <= a < b < name_views(kills@).len() implies name_views(kills@)[a]
                    != name_views(kills@)[b] by {
                    assert(name_views(old(kills)@)[a] != name_views(old(kills)@)[b]);
                }
                assert(distinct_name_list(name_views(kills@)));
                assert(name_views(k0)[i as int] == name@);
                assert forall|n: Seq<char>|
                    #[trigger] name_views(kills@).contains(n) <==> (name_views(k0).contains(n) || n
                        == name@) by {
                    if n == name@ {
                        assert(name_views(k0)[i as int] == n);
                    }
                }
            }
            return;
        }
        i += 1;
    }
    kills.push(name.clone());
    proof {
        assert(name_views(kills@) =~= name_views(k0).push(name@));
        assert(name_views(kills@)[k0.len() as int] == name@);
        assert forall|a: int, b: int|
            0 <= a < b < name_views(kills@).len() implies name_views(kills@)[a] != name_views(
            kills@,
        )[b] by {
            if b < k0.len() {
                assert(name_views(k0)[a] != name_views(k0)[b]);
            } else {
                assert(name_views(kills@)[b] == name@);
                assert(name_views(k0)[a] != name@);
            }
        }
        assert forall|n: Seq<char>|
            #[trigger] name_views(kills@).contains(n) <==> (name_views(k0).contains(n) || n
                == name@) by {
            if name_views(k0).contains(n) {
                let j = choose|j: int|
                    0 <= j < name_views(k0).len() && #[trigger] name_views(k0)[j] == n;
                assert(name_views(kills@)[j] == n);
            }
            if name_views(kills@).contains(n) {
                let j = choose|j: int|
                    0 <= j < name_views(kills@).len() && #[trigger] name_views(kills@)[j] == n;
                if j < k0.len() {
                    assert(name_views(k0)[j] == n);
                }
            }
        }
    }
}

/// Whether the kill-intent set holds `name`.
fn contains_name(kills: &Vec<String>, name: &String) -> (r: bool)
    ensures
        r == name_views(kills@).contains(name@),
{
    let mut i: usize = 0;
    while i < kills.len()
        invariant
            0 <= i <= kills@.len(),
            forall|j: int| 0 <= j < i ==> #[trigger] name_views(kills@)[j] != name@,
        decreases kills@.len() - i,
    {
        if kills[i] == *name {
            proof {
                assert(name_views(kills@)[i as int] == name@);
            }
            return true;
        }
        i += 1;
    }
    proof {
        if name_views(kills@).contains(name@) {
            let j = choose|j: int|
                0 <= j < name_views(kills@).len() && #[trigger] name_views(kills@)[j] == name@;
            assert(false);
        }
    }
    false
}

impl GameStatus {
    /// Resolve the night's kill-intent set against the alive partition:
    /// every targeted alive player faces their own kill rule, the dead
    /// are moved to the dead partition, and the names of the killed are
    /// reported in roster order. Werewolves never die here, a guard
    /// absorbs one attempt, and the total population is unchanged.
    pub fn resolve_kills(&mut self, kills: &Vec<String>) -> (killed: Vec<String>)
        requires
            old(self).wf(),
        ensures
            final(self).wf(),
            final(self).alive@ == surviving(old(self).alive@, name_views(kills@)),
            final(self).dead@ == old(self).dead@ + fallen(old(self).alive@, name_views(kills@)),
            final(self).alive@.len() + final(self).dead@.len() == old(self).alive@.len() + old(
                self,
            ).dead@.len(),
            killed@.len() == fallen(old(self).alive@, name_views(kills@)).len(),
            forall|i: int|
                0 <= i < killed@.len() ==> killed@[i]@ == fallen(
                    old(self).alive@,
                    name_views(kills@),
                )[i].name@,
            forall|i: int|
                0 <= i < old(self).alive@.len() && (#[trigger] old(self).alive@[i]).player.role
                    == Role::Werewolf ==> final(self).alive@.contains(old(self).alive@[i]),
    {
        let ghost a0 = self.alive@;
        let ghost kv = name_views(kills@);
        let n = self.alive.len();
        let mut survivors: Vec<Entry> = Vec::new();
        let mut moved: Vec<Entry> = Vec::new();
        let mut killed: Vec<String> = Vec::new();
        let mut i: usize = 0;
        while i < n
            invariant
                0 <= i <= n,
                n == a0.len(),
                self.alive@ == a0.subrange(i as int, n as int),
                self.dead@ == old(self).dead@,
                kv == name_views(kills@),
                survivors@ == surviving(a0.take(i as int), kv),
                moved@ == fallen(a0.take(i as int), kv),
                killed@.len() == moved@.len(),
                forall|j: int| 0 <= j < killed@.len() ==> killed@[j]@ == moved@[j].name@,
            decreases n - i,
        {
            let mut e = self.alive.remove(0);
            proof {
                assert(a0.subrange(i as int, n as int)[0] == a0[i as int]);
                assert(self.alive@ =~= a0.subrange(i + 1, n as int));
                assert(a0.take(i + 1).drop_last() =~= a0.take(i as int));
                assert(a0.take(i + 1).last() == a0[i as int]);
            }
            if contains_name(kills, &e.name) {
                let died = e.player.killed();
                if died {
                    killed.push(e.name.clone());
                    moved.push(e);
                } else {
                    survivors.push(e);
                }
            } else {
                survivors.push(e);
            }
            i += 1;
        }
        proof {
            assert(a0.take(n as int) =~= a0);
        }
        self.alive = survivors;
        self.dead.append(&mut moved);
        proof {
            lemma_night_partition(a0, kv);
            let ghost d0 = old(self).dead@;
            assert forall|x: int, y: int|
                0 <= x < y < self.dead@.len() implies self.dead@[x].name@
                != self.dead@[y].name@ by {
                if x < d0.len() && y >= d0.len() {
                    assert(has_name(fallen(a0, kv), self.dead@[y].name@)) by {
                        assert(fallen(a0, kv)[y - d0.len()] == self.dead@[y]);
                    }
                    assert(has_name(a0, self.dead@[y].name@));
                    let k = choose|k: int|
                        0 <= k < a0.len() && #[trigger] a0[k].name@ == self.dead@[y].name@;
                    assert(a0[k].name@ != d0[x].name@);
                } else if x >= d0.len() {
                    assert(fallen(a0, kv)[x - d0.len()] == self.dead@[x]);
                    assert(fallen(a0, kv)[y - d0.len()] == self.dead@[y]);
                }
            }
            assert forall|x: int, y: int|
                0 <= x < self.alive@.len() && 0 <= y < self.dead@.len() implies self.alive@[x].name@
                != self.dead@[y].name@ by {
                assert(has_name(surviving(a0, kv), self.alive@[x].name@)) by {
                    assert(surviving(a0, kv)[x] == self.alive@[x]);
                }
                assert(has_name(a0, self.alive@[x].name@));
                if y < d0.len() {
                    let k = choose|k: int|
                        0 <= k < a0.len() && #[trigger] a0[k].name@ == self.alive@[x].name@;
                    assert(a0[k].name@ != d0[y].name@);
                } else {
                    assert(has_name(fallen(a0, kv), self.dead@[y].name@)) by {
                        assert(fallen(a0, kv)[y - d0.len()] == self.dead@[y]);
                    }
                    if self.alive@[x].name@ == self.dead@[y].name@ {
                        assert(false);
                    }
                }
            }
            lemma_werewolves_survive(a0, kv);
        }
        killed
    }
}

} // verus!
