use werewolf::night::add_kill;
use werewolf::player::Player;
use werewolf::role::{NightAction, Role, RoleKind};
use werewolf::roster::{Entry, GameStatus};
use werewolf::setup::GameBuilder;
use werewolf::tally::only_max_index;

fn entry(name: &str, role: Role, guarded: bool) -> Entry {
    Entry { name: name.to_string(), player: Player { role, guarded } }
}

fn roster(alive: Vec<Entry>, dead: Vec<Entry>) -> GameStatus {
    GameStatus { alive, dead }
}

fn names(v: &[&str]) -> Vec<String> {
    v.iter().map(|s| s.to_string()).collect()
}

#[test]
fn role_kinds() {
    assert_eq!(Role::Villager.kind(), RoleKind::Villager);
    assert_eq!(Role::FortuneTeller.kind(), RoleKind::Villager);
    assert_eq!(Role::Medium.kind(), RoleKind::Villager);
    assert_eq!(Role::Hunter.kind(), RoleKind::Villager);
    assert_eq!(Role::Maniac.kind(), RoleKind::Villager);
    assert_eq!(Role::Werewolf.kind(), RoleKind::Werewolf);
}

#[test]
fn role_night_actions() {
    assert_eq!(Role::Villager.night_action(), NightAction::Sleep);
    assert_eq!(Role::Maniac.night_action(), NightAction::Sleep);
    assert_eq!(Role::FortuneTeller.night_action(), NightAction::SeeAlive);
    assert_eq!(Role::Medium.night_action(), NightAction::SeeDead);
    assert_eq!(Role::Werewolf.night_action(), NightAction::Kill);
    assert_eq!(Role::Hunter.night_action(), NightAction::Guard);
}

#[test]
fn role_variants_and_names() {
    let v = Role::variants();
    assert_eq!(
        v,
        vec![
            Role::Villager,
            Role::FortuneTeller,
            Role::Medium,
            Role::Hunter,
            Role::Maniac,
            Role::Werewolf,
        ]
    );
    assert_eq!(Role::FortuneTeller.as_str(), "FortuneTeller");
    assert_eq!(RoleKind::Werewolf.as_str(), "Werewolf");
}

#[test]
fn player_new_guard_flags() {
    let w = Player::new(Role::Werewolf);
    assert_eq!(w.role, Role::Werewolf);
    assert!(w.guarded);
    let v = Player::new(Role::Villager);
    assert_eq!(v.role, Role::Villager);
    assert!(!v.guarded);
}

#[test]
fn killed_werewolf_immune() {
    let mut p = Player { role: Role::Werewolf, guarded: false };
    assert!(!p.killed());
    assert!(!p.killed());
    let mut q = Player { role: Role::Werewolf, guarded: true };
    assert!(!q.killed());
}

#[test]
fn killed_guard_consumed_then_dies() {
    let mut p = Player { role: Role::Villager, guarded: true };
    assert!(!p.killed());
    assert!(!p.guarded);
    assert!(p.killed());
}

#[test]
fn only_max_picks_unique_maximum() {
    assert_eq!(only_max_index(&vec![3, 1]), Some(0));
    assert_eq!(only_max_index(&vec![1, 4, 2]), Some(1));
    assert_eq!(only_max_index(&vec![7]), Some(0));
}

#[test]
fn only_max_tie_gives_none() {
    assert_eq!(only_max_index(&vec![2, 2, 1]), None);
    assert_eq!(only_max_index(&vec![0, 0]), None);
    assert_eq!(only_max_index(&Vec::new()), None);
}

#[test]
fn winner_no_werewolves_is_villager_win() {
    let g = roster(
        vec![entry("ann", Role::Villager, false), entry("bea", Role::Hunter, false)],
        vec![entry("wolf", Role::Werewolf, true)],
    );
    assert_eq!(g.winner(), Some(RoleKind::Villager));
}

#[test]
fn winner_ties_go_to_werewolves() {
    // one against one: equal counts, the werewolves win
    let g = roster(
        vec![entry("ann", Role::Villager, false), entry("wolf", Role::Werewolf, true)],
        Vec::new(),
    );
    assert_eq!(g.winner(), Some(RoleKind::Werewolf));
    // two against two as well
    let h = roster(
        vec![
            entry("ann", Role::Villager, false),
            entry("bea", Role::Maniac, false),
            entry("wolf", Role::Werewolf, true),
            entry("fang", Role::Werewolf, true),
        ],
        Vec::new(),
    );
    assert_eq!(h.winner(), Some(RoleKind::Werewolf));
}

#[test]
fn winner_continue_while_outnumbered() {
    let g = roster(
        vec![
            entry("ann", Role::Villager, false),
            entry("bea", Role::Villager, false),
            entry("wolf", Role::Werewolf, true),
        ],
        Vec::new(),
    );
    assert_eq!(g.winner(), None);
}

#[test]
fn vote_tie_at_max_eliminates_nobody() {
    // votes {A:2, B:2, C:1}
    let mut g = roster(
        vec![
            entry("A", Role::Villager, false),
            entry("B", Role::Villager, false),
            entry("C", Role::Werewolf, true),
            entry("D", Role::Villager, false),
            entry("E", Role::Hunter, false),
        ],
        Vec::new(),
    );
    let out = g.vote(&names(&["A", "A", "B", "B", "C"]));
    assert_eq!(out, None);
    assert_eq!(g.alive.len(), 5);
    assert_eq!(g.dead.len(), 0);
}

#[test]
fn vote_unique_max_is_eliminated() {
    // votes {A:3, B:1}
    let mut g = roster(
        vec![
            entry("A", Role::Villager, false),
            entry("B", Role::Werewolf, true),
            entry("C", Role::Villager, false),
            entry("D", Role::Medium, false),
        ],
        Vec::new(),
    );
    let out = g.vote(&names(&["A", "A", "A", "B"]));
    assert_eq!(out, Some("A".to_string()));
    assert_eq!(g.alive.len(), 3);
    assert_eq!(g.dead.len(), 1);
    assert_eq!(g.dead[0].name, "A");
    assert!(!g.is_alive(&"A".to_string()));
    assert!(g.is_dead(&"A".to_string()));
}

#[test]
fn vote_can_eliminate_a_werewolf() {
    let mut g = roster(
        vec![
            entry("ann", Role::Villager, false),
            entry("bea", Role::Villager, false),
            entry("wolf", Role::Werewolf, true),
        ],
        Vec::new(),
    );
    let out = g.vote(&names(&["wolf", "wolf", "ann"]));
    assert_eq!(out, Some("wolf".to_string()));
    assert_eq!(g.winner(), Some(RoleKind::Villager));
}

#[test]
fn guard_absorbs_one_kill_then_player_dies() {
    let mut g = roster(
        vec![
            entry("ann", Role::Villager, false),
            entry("hank", Role::Hunter, false),
            entry("wolf", Role::Werewolf, true),
        ],
        Vec::new(),
    );
    g.guard(&"ann".to_string());
    // night one: the guarded target survives and the guard is consumed
    let killed = g.resolve_kills(&names(&["ann"]));
    assert!(killed.is_empty());
    assert!(g.is_alive(&"ann".to_string()));
    // night two: the same target, now unguarded, dies
    let killed = g.resolve_kills(&names(&["ann"]));
    assert_eq!(killed, names(&["ann"]));
    assert!(!g.is_alive(&"ann".to_string()));
    assert!(g.is_dead(&"ann".to_string()));
    assert_eq!(g.alive.len() + g.dead.len(), 3);
}

#[test]
fn unused_guard_persists_to_a_later_night() {
    let mut g = roster(
        vec![entry("ann", Role::Villager, false), entry("wolf", Role::Werewolf, true)],
        Vec::new(),
    );
    g.guard(&"ann".to_string());
    // a night in which ann is not targeted does not consume the guard
    let killed = g.resolve_kills(&Vec::new());
    assert!(killed.is_empty());
    let killed = g.resolve_kills(&names(&["ann"]));
    assert!(killed.is_empty());
    assert!(g.is_alive(&"ann".to_string()));
}

#[test]
fn werewolf_never_dies_at_night() {
    for guarded in [false, true] {
        let mut g = roster(
            vec![
                entry("wolf", Role::Werewolf, guarded),
                entry("ann", Role::Villager, false),
                entry("bea", Role::Villager, false),
            ],
            Vec::new(),
        );
        let killed = g.resolve_kills(&names(&["wolf"]));
        assert!(killed.is_empty());
        assert!(g.is_alive(&"wolf".to_string()));
        assert_eq!(g.alive.len(), 3);
    }
}

#[test]
fn night_kills_are_reported_and_moved() {
    let mut g = roster(
        vec![
            entry("ann", Role::Villager, false),
            entry("bea", Role::Medium, false),
            entry("col", Role::Maniac, false),
        ],
        Vec::new(),
    );
    let killed = g.resolve_kills(&names(&["col", "ann"]));
    assert_eq!(killed, names(&["ann", "col"]));
    assert_eq!(g.alive.len(), 1);
    assert_eq!(g.dead.len(), 2);
    assert_eq!(g.alive.len() + g.dead.len(), 3);
}

#[test]
fn empty_kill_list_kills_nobody() {
    let mut g = roster(vec![entry("ann", Role::Villager, false)], Vec::new());
    let killed = g.resolve_kills(&Vec::new());
    assert!(killed.is_empty());
    assert_eq!(g.alive.len(), 1);
    assert_eq!(g.dead.len(), 0);
}

#[test]
fn add_kill_keeps_the_intent_list_a_set() {
    let mut kills: Vec<String> = Vec::new();
    add_kill(&mut kills, &"ann".to_string());
    add_kill(&mut kills, &"ann".to_string());
    add_kill(&mut kills, &"bea".to_string());
    assert_eq!(kills, names(&["ann", "bea"]));
}

#[test]
fn inspections_reveal_kind_and_role() {
    let g = roster(
        vec![
            entry("tina", Role::FortuneTeller, false),
            entry("max", Role::Maniac, false),
            entry("wolf", Role::Werewolf, true),
        ],
        vec![entry("hank", Role::Hunter, false)],
    );
    // the Fortune Teller sees alignments, and the Maniac passes as a villager
    assert_eq!(g.fortune_tell(&"max".to_string()), RoleKind::Villager);
    assert_eq!(g.fortune_tell(&"wolf".to_string()), RoleKind::Werewolf);
    // the Medium sees the exact role of the dead
    assert_eq!(g.medium_reveal(&"hank".to_string()), Role::Hunter);
    assert_eq!(g.role_of_alive(&"tina".to_string()), Role::FortuneTeller);
}

#[test]
fn start_reveal_never_names_wolf_or_teller() {
    let g = roster(
        vec![
            entry("tina", Role::FortuneTeller, false),
            entry("wolf", Role::Werewolf, true),
            entry("ann", Role::Villager, false),
            entry("bea", Role::Villager, false),
            entry("max", Role::Maniac, false),
        ],
        Vec::new(),
    );
    for _ in 0..300 {
        let (name, kind) = g.start_reveal(&"tina".to_string()).unwrap();
        assert_ne!(name, "wolf");
        assert_ne!(name, "tina");
        assert_eq!(kind, RoleKind::Villager);
    }
}

#[test]
fn start_reveal_none_without_eligible_player() {
    let g = roster(
        vec![entry("tina", Role::FortuneTeller, false), entry("wolf", Role::Werewolf, true)],
        Vec::new(),
    );
    assert_eq!(g.start_reveal(&"tina".to_string()), None);
}

#[test]
fn builder_assigns_all_roles_to_all_players() {
    let g = GameBuilder::new()
        .set_players(names(&["ann", "bea", "col", "dot", "eli"]))
        .set_roles(vec![(Role::Villager, 3), (Role::Werewolf, 1), (Role::FortuneTeller, 1)])
        .make();
    assert_eq!(g.alive.len(), 5);
    assert_eq!(g.dead.len(), 0);
    let alive = g.alive_names();
    assert_eq!(alive, names(&["ann", "bea", "col", "dot", "eli"]));
    let mut villagers = 0;
    let mut wolves = 0;
    let mut tellers = 0;
    for name in &alive {
        match g.role_of_alive(name) {
            Role::Villager => villagers += 1,
            Role::Werewolf => wolves += 1,
            Role::FortuneTeller => tellers += 1,
            _ => panic!("unexpected role"),
        }
    }
    assert_eq!((villagers, wolves, tellers), (3, 1, 1));
}

#[test]
fn five_player_first_night() {
    // five players; the Werewolf kills an unguarded Villager on night one
    let mut g = roster(
        vec![
            entry("ann", Role::Villager, false),
            entry("bea", Role::Villager, false),
            entry("col", Role::Villager, false),
            entry("wolf", Role::Werewolf, true),
            entry("tina", Role::FortuneTeller, false),
        ],
        Vec::new(),
    );
    let mut kills: Vec<String> = Vec::new();
    add_kill(&mut kills, &"ann".to_string());
    let killed = g.resolve_kills(&kills);
    assert_eq!(killed, names(&["ann"]));
    assert_eq!(g.alive.len(), 4);
    assert_eq!(g.dead.len(), 1);
    // one Werewolf against three others: the game continues
    assert_eq!(g.winner(), None);
}

#[test]
fn population_constant_across_phases() {
    let mut g = roster(
        vec![
            entry("ann", Role::Villager, false),
            entry("bea", Role::Villager, false),
            entry("col", Role::Hunter, false),
            entry("wolf", Role::Werewolf, true),
        ],
        Vec::new(),
    );
    assert_eq!(g.alive.len() + g.dead.len(), 4);
    g.vote(&names(&["bea", "bea", "bea", "ann"]));
    assert_eq!(g.alive.len() + g.dead.len(), 4);
    g.guard(&"col".to_string());
    assert_eq!(g.alive.len() + g.dead.len(), 4);
    g.resolve_kills(&names(&["ann"]));
    assert_eq!(g.alive.len() + g.dead.len(), 4);
    g.resolve_kills(&names(&["col"]));
    assert_eq!(g.alive.len() + g.dead.len(), 4);
}
