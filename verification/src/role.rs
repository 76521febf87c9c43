//! The closed enumeration of character roles and the coarse alignment
//! ("kind") each role projects to inspection abilities.

use vstd::prelude::*;

verus! {

/// A character role, fixed for a player once assigned.
#[derive(Clone, Copy, Debug, PartialEq, Eq, Structural)]
pub enum Role {
    Villager,
    FortuneTeller,
    Medium,
    Hunter,
    Maniac,
    Werewolf,
}

/// The alignment a role reveals under inspection. Every role except
/// `Werewolf` projects `Villager`; in particular the `Maniac` is
/// indistinguishable from a villager under inspection.
#[derive(Clone, Copy, Debug, PartialEq, Eq, Structural)]
pub enum RoleKind {
    Villager,
    Werewolf,
}

/// What a role does during the night phase. The mapping from role to
/// action is a closed, exhaustive dispatch: adding a role forces an
/// update here.
#[derive(Clone, Copy, Debug, PartialEq, Eq, Structural)]
pub enum NightAction {
    /// No game-state effect; the player takes a placeholder turn.
    Sleep,
    /// Reveal the `RoleKind` of one alive player.
    SeeAlive,
    /// Reveal the exact `Role` of one dead player.
    SeeDead,
    /// Mark one alive player for death (resolved at the end of the night).
    Kill,
    /// Set the guard flag of one alive player.
    Guard,
}

impl Role {
    /// The alignment this role projects to inspection abilities.
    pub open spec fn kind_spec(self) -> RoleKind {
        if self == Role::Werewolf {
            RoleKind::Werewolf
        } else {
            RoleKind::Villager
        }
    }

    pub fn kind(&self) -> (k: RoleKind)
        ensures
            k == self.kind_spec(),
    {
        match self {
            Role::Werewolf => RoleKind::Werewolf,
            _ => RoleKind::Villager,
        }
    }

    /// The night action this role performs.
    pub open spec fn night_action_spec(self) -> NightAction {
        match self {
            Role::Villager => NightAction::Sleep,
            Role::Maniac => NightAction::Sleep,
            Role::FortuneTeller => NightAction::SeeAlive,
            Role::Medium => NightAction::SeeDead,
            Role::Werewolf => NightAction::Kill,
            Role::Hunter => NightAction::Guard,
        }
    }

    pub fn night_action(&self) -> (a: NightAction)
        ensures
            a == self.night_action_spec(),
    {
        match self {
            Role::Villager => NightAction::Sleep,
            Role::Maniac => NightAction::Sleep,
            Role::FortuneTeller => NightAction::SeeAlive,
            Role::Medium => NightAction::SeeDead,
            Role::Werewolf => NightAction::Kill,
            Role::Hunter => NightAction::Guard,
        }
    }

    /// Every role, in declaration order; the setup wizard prompts for a
    /// count of each.
    pub fn variants() -> (v: Vec<Role>)
        ensures
            v@ =~= seq![
                Role::Villager,
                Role::FortuneTeller,
                Role::Medium,
                Role::Hunter,
                Role::Maniac,
                Role::Werewolf,
            ],
    {
        let mut v: Vec<Role> = Vec::new();
        v.push(Role::Villager);
        v.push(Role::FortuneTeller);
        v.push(Role::Medium);
        v.push(Role::Hunter);
        v.push(Role::Maniac);
        v.push(Role::Werewolf);
        v
    }

    /// The display name of the role.
    pub fn as_str(&self) -> (s: &'static str)
        ensures
            self == Role::Villager ==> s@ == "Villager"@,
            self == Role::FortuneTeller ==> s@ == "FortuneTeller"@,
            self == Role::Medium ==> s@ == "Medium"@,
            self == Role::Hunter ==> s@ == "Hunter"@,
            self == Role::Maniac ==> s@ == "Maniac"@,
            self == Role::Werewolf ==> s@ == "Werewolf"@,
    {
        match self {
            Role::Villager => "Villager",
            Role::FortuneTeller => "FortuneTeller",
            Role::Medium => "Medium",
            Role::Hunter => "Hunter",
            Role::Maniac => "Maniac",
            Role::Werewolf => "Werewolf",
        }
    }
}

impl RoleKind {
    /// The display name of the alignment.
    pub fn as_str(&self) -> (s: &'static str)
        ensures
            self == RoleKind::Villager ==> s@ == "Villager"@,
            self == RoleKind::Werewolf ==> s@ == "Werewolf"@,
    {
        match self {
            RoleKind::Villager => "Villager",
            RoleKind::Werewolf => "Werewolf",
        }
    }
}

} // verus!
