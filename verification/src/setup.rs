//! Game setup: the builder that collects validated player names and
//! role counts, the roster construction (roles shuffled uniformly and
//! assigned one to one), and the Fortune Teller's start-of-game random
//! reveal.

use vstd::prelude::*;

use crate::player::Player;
use crate::role::{Role, RoleKind};
use crate::roster::{Entry, GameStatus};

verus! {

/// No two names read the same.
pub open spec fn distinct_strings(names: Seq<String>) -> bool {
    forall|i: int, j: int| 0 <= i < j < names.len() ==> names[i]@ != names[j]@
}

/// The total player count a role-count list asks for.
pub open spec fn role_total(roles: Seq<(Role, usize)>) -> nat
    decreases roles.len(),
{
    if roles.len() == 0 {
        0
    } else {
        role_total(roles.drop_last()) + roles.last().1 as nat
    }
}

/// The flat role list a role-count list stands for: each role repeated
/// its count times, in list order.
pub open spec fn role_expansion(roles: Seq<(Role, usize)>) -> Seq<Role>
    decreases roles.len(),
{
    if roles.len() == 0 {
        Seq::empty()
    } else {
        role_expansion(roles.drop_last()) + Seq::new(
            roles.last().1 as nat,
            |k: int| roles.last().0,
        )
    }
}

/// The roles of a roster partition, in roster order.
pub open spec fn entry_roles(entries: Seq<Entry>) -> Seq<Role> {
    entries.map_values(|e: Entry| e.player.role)
}

/// The flat role list is exactly as long as the counts say.
pub proof fn lemma_role_expansion_len(roles: Seq<(Role, usize)>)
    ensures
        role_expansion(roles).len() == role_total(roles),
    decreases roles.len(),
{
    if roles.len() > 0 {
        lemma_role_expansion_len(roles.drop_last());
    }
}

/// Relies on rand::seq::SliceRandom::shuffle: an in-place permutation
/// (a Fisher-Yates pass of swaps) of the slice's own elements.
#[verifier::external_body]
fn shuffle_roles(roles: &mut Vec<Role>)
    ensures
        final(roles)@.len() == old(roles)@.len(),
        final(roles)@.to_multiset() == old(roles)@.to_multiset(),
{
    let mut rng = rand::thread_rng();
    rand::seq::SliceRandom::shuffle(roles.as_mut_slice(), &mut rng);
}

/// Relies on rand::Rng::gen_range over `0..n`: a value drawn uniformly
/// from the non-empty range, so always below `n`.
#[verifier::external_body]
fn rand_below(n: usize) -> (r: usize)
    requires
        n > 0,
    ensures
        r < n,
{
    rand::Rng::gen_range(&mut rand::thread_rng(), 0..n)
}

/// The setup wizard's state: the validated name list and role counts,
/// collected step by step by the input layer before the game is made.
pub struct GameBuilder {
    pub players: Vec<String>,
    pub roles: Vec<(Role, usize)>,
}

impl GameBuilder {
    pub fn new() -> (b: GameBuilder)
        ensures
            b.players@.len() == 0,
            b.roles@.len() == 0,
    {
        GameBuilder { players: Vec::new(), roles: Vec::new() }
    }

    /// Record the validated name list: more than two players, all names
    /// unique.
    pub fn set_players(self, players: Vec<String>) -> (b: GameBuilder)
        requires
            players@.len() > 2,
            distinct_strings(players@),
        ensures
            b.players == players,
            b.roles == self.roles,
    {
        GameBuilder { players, roles: self.roles }
    }

    /// Record the validated role counts: at least one Werewolf among
    /// them.
    pub fn set_roles(self, roles: Vec<(Role, usize)>) -> (b: GameBuilder)
        requires
            role_expansion(roles@).contains(Role::Werewolf),
        ensures
            b.roles == roles,
            b.players == self.players,
    {
        GameBuilder { players: self.players, roles }
    }

    /// Build the game: the role counts must add up to the player count.
    pub fn make(self) -> (g: GameStatus)
        requires
            distinct_strings(self.players@),
            self.players@.len() == role_total(self.roles@),
        ensures
            g.wf(),
            g.dead@.len() == 0,
            g.alive@.len() == self.players@.len(),
            forall|i: int| 0 <= i < g.alive@.len() ==> (#[trigger] g.alive@[i]).name
                == self.players@[i],
            entry_roles(g.alive@).to_multiset() == role_expansion(self.roles@).to_multiset(),
            forall|i: int|
                0 <= i < g.alive@.len() ==> ((#[trigger] g.alive@[i]).player.guarded
                    <==> g.alive@[i].player.role == Role::Werewolf),
    {
        GameStatus::new(self.players, self.roles)
    }
}

impl GameStatus {
    /// Construct the roster from validated names and role counts: the
    /// flat role list is shuffled uniformly at random and assigned one
    /// to one to the names; everyone starts alive, guard flags as
    /// `Player::new` sets them.
    pub fn new(players: Vec<String>, roles: Vec<(Role, usize)>) -> (g: GameStatus)
        requires
            distinct_strings(players@),
            players@.len() == role_total(roles@),
        ensures
            g.wf(),
            g.dead@.len() == 0,
            g.alive@.len() == players@.len(),
            forall|i: int| 0 <= i < g.alive@.len() ==> (#[trigger] g.alive@[i]).name == players@[i],
            entry_roles(g.alive@).to_multiset() == role_expansion(roles@).to_multiset(),
            forall|i: int|
                0 <= i < g.alive@.len() ==> ((#[trigger] g.alive@[i]).player.guarded
                    <==> g.alive@[i].player.role == Role::Werewolf),
    {
        let mut role_list: Vec<Role> = Vec::new();
        let mut i: usize = 0;
        while i < roles.len()
            invariant
                0 <= i <= roles@.len(),
                role_list@ == role_expansion(roles@.take(i as int)),
            decreases roles@.len() - i,
        {
            let (role, num) = roles[i];
            let mut c: usize = 0;
            while c < num
                invariant
                    0 <= c <= num,
                    (role, num) == roles@[i as int],
                    0 <= i < roles@.len(),
                    role_list@ == role_expansion(roles@.take(i as int)) + Seq::new(
                        c as nat,
                        |k: int| role,
                    ),
                decreases num - c,
            {
                role_list.push(role);
                proof {
                    assert(role_list@ =~= role_expansion(roles@.take(i as int)) + Seq::new(
                        (c + 1) as nat,
                        |k: int| role,
                    ));
                }
                c += 1;
            }
            proof {
                assert(roles@.take(i + 1).drop_last() =~= roles@.take(i as int));
                assert(roles@.take(i + 1).last() == roles@[i as int]);
                assert(role_list@ =~= role_expansion(roles@.take(i + 1)));
            }
            i += 1;
        }
        proof {
            assert(roles@.take(roles@.len() as int) =~= roles@);
            lemma_role_expansion_len(roles@);
        }
        shuffle_roles(&mut role_list);
        let ghost shuffled = role_list@;
        let mut alive: Vec<Entry> = Vec::new();
        let mut k: usize = 0;
        while k < players.len()
            invariant
                0 <= k <= players@.len(),
                players@.len() == role_list@.len(),
                role_list@ == shuffled,
                alive@.len() == k,
                forall|j: int| 0 <= j < k ==> (#[trigger] alive@[j]).name == players@[j],
                forall|j: int| 0 <= j < k ==> (#[trigger] alive@[j]).player.role == shuffled[j],
                forall|j: int|
                    0 <= j < k ==> ((#[trigger] alive@[j]).player.guarded <==> shuffled[j]
                        == Role::Werewolf),
            decreases players@.len() - k,
        {
            let p = Player::new(role_list[k]);
            alive.push(Entry { name: players[k].clone(), player: p });
            k += 1;
        }
        let g = GameStatus { alive, dead: Vec::new() };
        proof {
            assert(entry_roles(g.alive@) =~= shuffled);
            assert forall|x: int, y: int|
                0 <= x < y < g.alive@.len() implies g.alive@[x].name@ != g.alive@[y].name@ by {
                assert(players@[x]@ != players@[y]@);
            }
        }
        g
    }

    /// The Fortune Teller's start-of-game reveal: a player drawn at
    /// random among those alive who neither project the Werewolf kind
    /// nor are the teller, together with the alignment they project
    /// (necessarily not Werewolf). `None` exactly when nobody is
    /// eligible.
    pub fn start_reveal(&self, teller: &String) -> (r: Option<(String, RoleKind)>)
        ensures
            match r {
                Some(pair) => exists|i: int|
                    0 <= i < self.alive@.len() && (#[trigger] self.alive@[i]).name@ == pair.0@
                        && self.alive@[i].player.role.kind_spec() == pair.1 && pair.1
                        != RoleKind::Werewolf && pair.0@ != teller@,
                None => forall|i: int|
                    0 <= i < self.alive@.len() ==> ((#[trigger] self.alive@[i]).player.role.kind_spec()
                        == RoleKind::Werewolf || self.alive@[i].name@ == teller@),
            },
    {
        let mut eligible: Vec<usize> = Vec::new();
        let mut i: usize = 0;
        while i < self.alive.len()
            invariant
                0 <= i <= self.alive@.len(),
                forall|k: int|
                    0 <= k < eligible@.len() ==> (#[trigger] eligible@[k]) < i as usize,
                forall|k: int|
                    0 <= k < eligible@.len() ==> (self.alive@[eligible@[k] as int].player.role.kind_spec()
                        != RoleKind::Werewolf && self.alive@[eligible@[k] as int].name@
                        != teller@),
                eligible@.len() == 0 ==> forall|j: int|
                    0 <= j < i ==> ((#[trigger] self.alive@[j]).player.role.kind_spec()
                        == RoleKind::Werewolf || self.alive@[j].name@ == teller@),
            decreases self.alive@.len() - i,
        {
            let kind = self.alive[i].player.role.kind();
            if kind != RoleKind::Werewolf && !(self.alive[i].name == *teller) {
                eligible.push(i);
            }
            i += 1;
        }
        if eligible.len() == 0 {
            return None;
        }
        let pick = rand_below(eligible.len());
        let idx = eligible[pick];
        let name = self.alive[idx].name.clone();
        let kind = self.alive[idx].player.role.kind();
        proof {
            assert(self.alive@[idx as int].name@ == name@);
        }
        Some((name, kind))
    }
}

} // verus!
