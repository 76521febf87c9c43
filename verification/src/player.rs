//! Per-player mutable state and the kill-resolution rule it owns.

use vstd::prelude::*;

use crate::role::Role;

verus! {

/// One player's hidden state: the assigned role and a single-use guard
/// flag. Werewolves are created with `guarded = true`, but the kill
/// path never consults the flag for them: they are immune to it
/// entirely and can only leave the game through the day vote.
#[derive(Clone, Copy, Debug, PartialEq, Eq, Structural)]
pub struct Player {
    pub role: Role,
    pub guarded: bool,
}

impl Player {
    pub fn new(role: Role) -> (p: Player)
        ensures
            p.role == role,
            p.guarded == (role == Role::Werewolf),
    {
        match role {
            Role::Werewolf => Player { role, guarded: true },
            _ => Player { role, guarded: false },
        }
    }

    /// Resolve one kill attempt against this player.
    ///
    /// A Werewolf never dies here. Any other player survives a first
    /// attempt while guarded, consuming the guard; unguarded, they die.
    pub fn killed(&mut self) -> (died: bool)
        ensures
            final(self).role == old(self).role,
            old(self).role == Role::Werewolf ==> !died && *final(self) == *old(self),
            old(self).role != Role::Werewolf && old(self).guarded ==> !died
                && !final(self).guarded,
            old(self).role != Role::Werewolf && !old(self).guarded ==> died
                && *final(self) == *old(self),
    {
        match self.role {
            Role::Werewolf => false,
            _ => {
                if self.guarded {
                    self.guarded = false;
                    false
                } else {
                    true
                }
            },
        }
    }
}

} // verus!
