//! The authoritative roster: the alive/dead partition of players keyed
//! by their unique names, the inspection abilities that read it, and
//! the win evaluator.

use vstd::prelude::*;

use crate::player::Player;
use crate::role::{Role, RoleKind};

verus! {

/// One roster slot: a player's unique name and their hidden state.
pub struct Entry {
    pub name: String,
    pub player: Player,
}

/// `entries` holds some entry named `name`.
pub open spec fn has_name(entries: Seq<Entry>, name: Seq<char>) -> bool {
    exists|i: int| 0 <= i < entries.len() && #[trigger] entries[i].name@ == name
}

/// The index of the entry named `name` (unique when names are distinct).
pub open spec fn index_of_name(entries: Seq<Entry>, name: Seq<char>) -> int {
    choose|i: int| 0 <= i < entries.len() && #[trigger] entries[i].name@ == name
}

/// The role of the entry named `name`.
pub open spec fn role_of(entries: Seq<Entry>, name: Seq<char>) -> Role {
    entries[index_of_name(entries, name)].player.role
}

/// No two entries share a name.
pub open spec fn distinct_names(entries: Seq<Entry>) -> bool {
    forall|i: int, j: int|
        0 <= i < j < entries.len() ==> entries[i].name@ != entries[j].name@
}

/// No entry of `a` shares a name with an entry of `b`.
pub open spec fn disjoint_names(a: Seq<Entry>, b: Seq<Entry>) -> bool {
    forall|i: int, j: int|
        0 <= i < a.len() && 0 <= j < b.len() ==> a[i].name@ != b[j].name@
}

/// The number of Werewolves among `entries`.
pub open spec fn werewolf_count(entries: Seq<Entry>) -> nat
    decreases entries.len(),
{
    if entries.len() == 0 {
        0
    } else {
        werewolf_count(entries.drop_last()) + if entries.last().player.role
            == Role::Werewolf {
            1nat
        } else {
            0nat
        }
    }
}

/// The live game state: every player stands in exactly one of the two
/// partitions, and names are unique across both for the whole game.
pub struct GameStatus {
    pub alive: Vec<Entry>,
    pub dead: Vec<Entry>,
}

impl GameStatus {
    /// The roster's standing invariant: names are unique within each
    /// partition and across the two.
    pub open spec fn wf(self) -> bool {
        &&& distinct_names(self.alive@)
        &&& distinct_names(self.dead@)
        &&& disjoint_names(self.alive@, self.dead@)
    }

    /// `name` currently belongs to an alive player.
    pub fn is_alive(&self, name: &String) -> (r: bool)
        ensures
            r == has_name(self.alive@, name@),
    {
        find_index(&self.alive, name).is_some()
    }

    /// `name` currently belongs to a dead player.
    pub fn is_dead(&self, name: &String) -> (r: bool)
        ensures
            r == has_name(self.dead@, name@),
    {
        find_index(&self.dead, name).is_some()
    }

    /// The role of the alive player named `name`; the display layer
    /// uses it to run each player's private turn.
    pub fn role_of_alive(&self, name: &String) -> (r: Role)
        requires
            self.wf(),
            has_name(self.alive@, name@),
        ensures
            r == role_of(self.alive@, name@),
    {
        let i = find_index(&self.alive, name).unwrap();
        proof {
            lemma_found_index_unique(self.alive@, name@, i as int);
        }
        self.alive[i].player.role
    }

    /// The Fortune Teller's night inspection: the alignment (not the
    /// exact role) of one alive player.
    pub fn fortune_tell(&self, name: &String) -> (k: RoleKind)
        requires
            self.wf(),
            has_name(self.alive@, name@),
        ensures
            k == role_of(self.alive@, name@).kind_spec(),
    {
        self.role_of_alive(name).kind()
    }

    /// The Medium's night inspection: the exact role of one dead player.
    pub fn medium_reveal(&self, name: &String) -> (r: Role)
        requires
            self.wf(),
            has_name(self.dead@, name@),
        ensures
            r == role_of(self.dead@, name@),
    {
        let i = find_index(&self.dead, name).unwrap();
        proof {
            lemma_found_index_unique(self.dead@, name@, i as int);
        }
        self.dead[i].player.role
    }

    /// The Hunter's night action: set the guard flag of the alive
    /// player named `name`. Everything else is unchanged.
    pub fn guard(&mut self, name: &String)
        requires
            old(self).wf(),
            has_name(old(self).alive@, name@),
        ensures
            final(self).wf(),
            final(self).dead == old(self).dead,
            final(self).alive@ == old(self).alive@.update(
                index_of_name(old(self).alive@, name@),
                (Entry {
                    name: old(self).alive@[index_of_name(old(self).alive@, name@)].name,
                    player: Player {
                        role: role_of(old(self).alive@, name@),
                        guarded: true,
                    },
                }),
            ),
    {
        let ghost a0 = self.alive@;
        let i = find_index(&self.alive, name).unwrap();
        proof {
            lemma_found_index_unique(a0, name@, i as int);
        }
        let mut e = self.alive.remove(i);
        e.player.guarded = true;
        self.alive.insert(i, e);
        proof {
            assert(self.alive@ =~= a0.update(
                i as int,
                (Entry {
                    name: a0[i as int].name,
                    player: Player { role: a0[i as int].player.role, guarded: true },
                }),
            ));
        }
    }

    /// A snapshot of the alive players' names, in roster order.
    pub fn alive_names(&self) -> (r: Vec<String>)
        ensures
            r@.len() == self.alive@.len(),
            forall|i: int| 0 <= i < r@.len() ==> r@[i] == self.alive@[i].name,
    {
        clone_names(&self.alive)
    }

    /// A snapshot of the dead players' names, in roster order.
    pub fn dead_names(&self) -> (r: Vec<String>)
        ensures
            r@.len() == self.dead@.len(),
            forall|i: int| 0 <= i < r@.len() ==> r@[i] == self.dead@[i].name,
    {
        clone_names(&self.dead)
    }

    /// The win evaluator. With no Werewolf left alive the villager side
    /// has won; with Werewolves holding at least half of the alive
    /// seats (ties included: they can no longer be outvoted) the
    /// werewolf side has won; otherwise the game continues.
    pub fn winner(&self) -> (r: Option<RoleKind>)
        ensures
            (r == Some(RoleKind::Villager)) <==> werewolf_count(self.alive@) == 0,
            (r == Some(RoleKind::Werewolf)) <==> (werewolf_count(self.alive@) > 0
                && self.alive@.len() <= 2 * werewolf_count(self.alive@)),
            (r == None::<RoleKind>) <==> (werewolf_count(self.alive@) > 0 && self.alive@.len()
                > 2 * werewolf_count(self.alive@)),
    {
        let n = self.alive.len();
        let mut w: usize = 0;
        let mut i: usize = 0;
        while i < n
            invariant
                0 <= i <= n,
                n == self.alive@.len(),
                w <= i,
                w == werewolf_count(self.alive@.take(i as int)),
            decreases n - i,
        {
            proof {
                assert(self.alive@.take(i + 1).drop_last() =~= self.alive@.take(i as int));
                assert(self.alive@.take(i + 1).last() == self.alive@[i as int]);
            }
            if self.alive[i].player.role == Role::Werewolf {
                w += 1;
            }
            i += 1;
        }
        proof {
            assert(self.alive@.take(n as int) =~= self.alive@);
        }
        if w == 0 {
            Some(RoleKind::Villager)
        } else if w >= n - w {
            Some(RoleKind::Werewolf)
        } else {
            None
        }
    }
}

/// The position of the entry named `name`, searched front to back.
pub fn find_index(entries: &Vec<Entry>, name: &String) -> (r: Option<usize>)
    ensures
        match r {
            Some(i) => i < entries@.len() && entries@[i as int].name@ == name@,
            None => !has_name(entries@, name@),
        },
{
    let mut i: usize = 0;
    while i < entries.len()
        invariant
            0 <= i <= entries@.len(),
            forall|j: int| 0 <= j < i ==> #[trigger] entries@[j].name@ != name@,
        decreases entries@.len() - i,
    {
        if entries[i].name == *name {
            return Some(i);
        }
        i += 1;
    }
    None
}

/// With distinct names, an index found by search is the index that the
/// specification names.
pub proof fn lemma_found_index_unique(entries: Seq<Entry>, name: Seq<char>, i: int)
    requires
        distinct_names(entries),
        0 <= i < entries.len(),
        entries[i].name@ == name,
    ensures
        index_of_name(entries, name) == i,
{
    let j = index_of_name(entries, name);
    assert(0 <= j < entries.len() && entries[j].name@ == name);
    if j != i {
        if j < i {
            assert(entries[j].name@ != entries[i].name@);
        } else {
            assert(entries[i].name@ != entries[j].name@);
        }
    }
}

fn clone_names(entries: &Vec<Entry>) -> (r: Vec<String>)
    ensures
        r@.len() == entries@.len(),
        forall|i: int| 0 <= i < r@.len() ==> r@[i] == entries@[i].name,
{
    let mut r: Vec<String> = Vec::new();
    let mut i: usize = 0;
    while i < entries.len()
        invariant
            0 <= i <= entries@.len(),
            r@.len() == i,
            forall|j: int| 0 <= j < i ==> r@[j] == entries@[j].name,
        decreases entries@.len() - i,
    {
        r.push(entries[i].name.clone());
        i += 1;
    }
    r
}

} // verus!
