use bare_king::ability::{activate_ability, metadata, targeted_ability, trigger_effects, Abilities, TargetOutcome};
use bare_king::board::{Coord, Enemy, Piece};
use bare_king::game_data::{default_game_state, GameData, SelectSquare};
use bare_king::home::default_user_values;

fn c(x: i64, y: i64) -> Coord {
    Coord { x, y }
}

fn enemy(x: i64, y: i64) -> Enemy {
    Enemy { x, y, piece: Piece::Pawn, moves: vec![c(x, y), c(x, y)] }
}

fn playing(energy: i64) -> GameData {
    let mut g = default_game_state();
    g.alive = true;
    g.player.energy = energy;
    g.player.sub_round = 0;
    g
}

fn waiting_for(g: &mut GameData, a: Abilities) {
    g.select_square = SelectSquare { point: c(0, 0), select_mode: true, read: false, ability: a };
}

#[test]
fn metadata_of_each_ability() {
    let m = metadata(Abilities::Airstrike([c(0, 0); 5]));
    assert_eq!(m.name, "Airstrike");
    assert_eq!(m.cost, 20);
    assert_eq!(m.duration, Some(3));
    let m = metadata(Abilities::ShortTermGains);
    assert_eq!(m.name, "Crippling Debt");
    assert_eq!(m.cost, -30);
    assert_eq!(m.duration, Some(15));
    let m = metadata(Abilities::Blip);
    assert_eq!(m.name, "blip");
    assert_eq!(m.cost, -2);
    assert_eq!(m.duration, None);
    let m = metadata(Abilities::Null);
    assert_eq!(m.name, "no ability selected");
    assert_eq!(m.description, "no ability has been selected");
    assert_eq!(m.cost, 99);
    let m = metadata(Abilities::ColdStorage);
    assert_eq!(m.duration, Some(9999));
    assert_eq!(
        m.description,
        "Activate ability to store 5 energy. Active a second time to get 10 energy back"
    );
    assert_eq!(metadata(Abilities::Teleport).cost, 15);
    assert_eq!(metadata(Abilities::Martyrdom).cost, 0);
    assert_eq!(metadata(Abilities::Bank).duration, Some(5));
    assert_eq!(metadata(Abilities::Redstone).name, "Redstone Powder");
    assert_eq!(metadata(Abilities::Dope).duration, Some(9999));
}

#[test]
fn without_the_energy_nothing_happens() {
    let mut g = playing(14);
    g.enemies = vec![enemy(3, 3)];
    let user = default_user_values();
    assert!(!activate_ability(Abilities::Teleport, &mut g, &user));
    assert_eq!(g.player.energy, 14);
    assert!(!g.select_square.select_mode);
}

#[test]
fn targeted_abilities_open_the_picker() {
    let user = default_user_values();
    let mut g = playing(20);
    assert!(activate_ability(Abilities::Jump, &mut g, &user));
    assert_eq!(g.player.energy, 15);
    assert!(g.select_square.select_mode);
    assert!(matches!(g.select_square.ability, Abilities::Jump));
}

#[test]
fn redstone_lengthens_effects() {
    let user = default_user_values();
    let mut g = playing(5);
    g.effects = vec![(Abilities::Bank, 3), (Abilities::Dope, 0)];
    assert!(activate_ability(Abilities::Redstone, &mut g, &user));
    assert_eq!(g.player.energy, 0);
    assert!(matches!(g.effects[0], (Abilities::Bank, 5)));
    assert!(matches!(g.effects[1], (Abilities::Dope, 2)));
}

#[test]
fn martyrdom_clears_the_board() {
    let user = default_user_values();
    let mut g = playing(0);
    g.enemies = vec![enemy(1, 1), enemy(2, 2)];
    assert!(activate_ability(Abilities::Martyrdom, &mut g, &user));
    assert!(g.enemies.is_empty());
    assert!(matches!(g.effects[0], (Abilities::Martyrdom, 1)));
}

#[test]
fn blip_spawns_five_and_shortens_effects() {
    let user = default_user_values();
    let mut g = playing(0);
    g.effects = vec![(Abilities::Bank, 1), (Abilities::Dope, 9)];
    assert!(activate_ability(Abilities::Blip, &mut g, &user));
    assert_eq!(g.player.energy, 2);
    assert_eq!(g.enemies.len(), 5);
    assert!(matches!(g.effects[0], (Abilities::Bank, 0)));
    assert!(matches!(g.effects[1], (Abilities::Dope, 7)));
    assert_eq!(g.player.sub_round, 5);
    assert_eq!(g.sounds, vec![("abilities/warp.wav".to_string(), 40)]);
}

#[test]
fn cold_storage_stores_then_returns() {
    let user = default_user_values();
    let mut g = playing(12);
    assert!(activate_ability(Abilities::ColdStorage, &mut g, &user));
    assert_eq!(g.player.energy, 7);
    assert!(matches!(g.effects[0], (Abilities::ColdStorage, 9999)));
    assert!(activate_ability(Abilities::ColdStorage, &mut g, &user));
    assert_eq!(g.player.energy, 12);
    assert!(g.effects.is_empty());
}

#[test]
fn radial_blast_spares_corners_and_far_pieces() {
    let user = default_user_values();
    let mut g = playing(10);
    // the king stands on (8, 8)
    g.enemies = vec![enemy(10, 9), enemy(10, 10), enemy(8, 6), enemy(11, 8), enemy(6, 7)];
    assert!(activate_ability(Abilities::RBlast, &mut g, &user));
    let left: Vec<(i64, i64)> = g.enemies.iter().map(|e| (e.x, e.y)).collect();
    assert_eq!(left, vec![(10, 10), (11, 8)]);
    assert_eq!(g.sounds, vec![("abilities/fire.wav".to_string(), 100)]);
}

#[test]
fn radial_blast_misses_while_the_king_slides() {
    let user = default_user_values();
    let mut g = playing(10);
    g.player.half_x = 15;
    g.enemies = vec![enemy(8, 9)];
    activate_ability(Abilities::RBlast, &mut g, &user);
    assert_eq!(g.enemies.len(), 1);
}

#[test]
fn passive_abilities_become_effects() {
    let user = default_user_values();
    let mut g = playing(30);
    assert!(activate_ability(Abilities::Peaceful, &mut g, &user));
    assert!(activate_ability(Abilities::ShortTermGains, &mut g, &user));
    assert_eq!(g.player.energy, 50);
    assert!(matches!(g.effects[0], (Abilities::Peaceful, 15)));
    assert!(matches!(g.effects[1], (Abilities::ShortTermGains, 15)));
}

#[test]
fn teleport_moves_the_king_at_once() {
    let mut g = playing(0);
    waiting_for(&mut g, Abilities::Teleport);
    assert!(matches!(targeted_ability(&mut g, c(2, 13)), TargetOutcome::Done));
    assert_eq!((g.player.target_x, g.player.target_y), (2, 13));
    assert_eq!((g.player.half_x, g.player.half_y), (4, 26));
}

#[test]
fn jump_reaches_three_squares() {
    let mut g = playing(0);
    waiting_for(&mut g, Abilities::Jump);
    assert!(matches!(targeted_ability(&mut g, c(8, 11)), TargetOutcome::Done));
    assert_eq!((g.player.target_x, g.player.target_y), (8, 11));
    let mut g = playing(0);
    waiting_for(&mut g, Abilities::Jump);
    // (2, 2) away is within three squares
    assert!(matches!(targeted_ability(&mut g, c(10, 10)), TargetOutcome::Done));
    let mut g = playing(0);
    waiting_for(&mut g, Abilities::Jump);
    assert!(matches!(targeted_ability(&mut g, c(11, 10)), TargetOutcome::TooFarAway));
    assert_eq!((g.player.target_x, g.player.target_y), (8, 8));
    assert_eq!(g.player.energy, 5);
}

#[test]
fn death_laser_path_and_victims() {
    let mut g = playing(0);
    g.player.half_x = 0;
    g.player.half_y = 0;
    g.enemies = vec![enemy(5, 0), enemy(5, 2), enemy(0, 5)];
    waiting_for(&mut g, Abilities::DeathLaser);
    match targeted_ability(&mut g, c(1, 0)) {
        TargetOutcome::LaserPath(path) => {
            // from (0, 0) along the row, a twenty-fifth of a square per point, up to x = 15
            assert_eq!(path.len(), 250);
            assert_eq!(path[0], c(0, 0));
            assert_eq!(path[1], c(2, 0));
            assert_eq!(path[249], c(498, 0));
        }
        _ => panic!("expected a laser"),
    }
    // the laser covers x in 0..=9.96 on row 0: (5, 0) is hit
    let left: Vec<(i64, i64)> = g.enemies.iter().map(|e| (e.x, e.y)).collect();
    assert_eq!(left, vec![(5, 2), (0, 5)]);
}

#[test]
fn death_laser_stops_at_the_edge() {
    let mut g = playing(0);
    g.player.half_x = 28;
    g.player.half_y = 28;
    waiting_for(&mut g, Abilities::DeathLaser);
    match targeted_ability(&mut g, c(15, 15)) {
        // from (14, 14) towards (15, 15): 25 more points reach (15, 15)
        TargetOutcome::LaserPath(path) => assert_eq!(path.len(), 26),
        _ => panic!("expected a laser"),
    }
}

#[test]
fn airstrike_is_scheduled_around_the_square() {
    let mut seen = std::collections::HashSet::new();
    for _ in 0..20 {
        let mut g = playing(0);
        waiting_for(&mut g, Abilities::Airstrike([c(0, 0); 5]));
        targeted_ability(&mut g, c(7, 4));
        assert_eq!(g.effects.len(), 1);
        match g.effects[0] {
            (Abilities::Airstrike(b), 2) => {
                for p in b {
                    assert!(p.x >= 40 && p.x < 100, "{:?}", p);
                    assert!(p.y >= 10 && p.y < 70, "{:?}", p);
                    seen.insert((p.x, p.y));
                }
            }
            _ => panic!("expected an airstrike"),
        }
    }
    assert!(seen.len() > 1);
}

#[test]
fn effects_take_their_turn() {
    let mut g = playing(26);
    g.effects = vec![(Abilities::Bank, 0), (Abilities::ShortTermGains, 4), (Abilities::Bank, 2)];
    trigger_effects(&mut g);
    assert_eq!(g.player.energy, 28);
    assert!(g.alive);
    let mut g = playing(1);
    g.effects = vec![(Abilities::ShortTermGains, 4)];
    trigger_effects(&mut g);
    assert!(!g.alive);
    let mut g = playing(1);
    g.effects = vec![(Abilities::Martyrdom, 1)];
    trigger_effects(&mut g);
    assert!(g.alive);
    g.effects = vec![(Abilities::Martyrdom, 0)];
    trigger_effects(&mut g);
    assert!(!g.alive);
}

#[test]
fn airstrike_destroys_within_three_squares() {
    let mut g = playing(0);
    g.enemies = vec![enemy(5, 5), enemy(8, 5), enemy(9, 5), enemy(7, 7)];
    g.effects = vec![(Abilities::Airstrike([c(50, 50), c(50, 50), c(50, 50), c(50, 50), c(90, 90)]), 0)];
    trigger_effects(&mut g);
    let left: Vec<(i64, i64)> = g.enemies.iter().map(|e| (e.x, e.y)).collect();
    // (8, 5) is exactly three away from (5, 5) and goes; (7, 7) is near (9, 9)
    assert_eq!(left, vec![(9, 5)]);
}

#[test]
fn cold_storage_returns_energy_stored_before_other_effects() {
    let user = default_user_values();
    let mut g = playing(5);
    g.effects = vec![(Abilities::ColdStorage, 9999), (Abilities::Bank, 3)];
    assert!(activate_ability(Abilities::ColdStorage, &mut g, &user));
    assert_eq!(g.player.energy, 10);
    assert_eq!(g.effects.len(), 1);
    assert!(matches!(g.effects[0], (Abilities::Bank, 3)));
}

#[test]
fn an_unaffordable_ability_changes_nothing() {
    let user = default_user_values();
    let mut g = playing(0);
    g.effects = vec![(Abilities::ColdStorage, 9999), (Abilities::Bank, 3)];
    assert!(!activate_ability(Abilities::ColdStorage, &mut g, &user));
    assert_eq!(g.player.energy, 0);
    assert_eq!(g.effects.len(), 2);
    assert!(!activate_ability(Abilities::Teleport, &mut g, &user));
    assert!(!g.select_square.select_mode);
    assert_eq!(g.player.energy, 0);
}
