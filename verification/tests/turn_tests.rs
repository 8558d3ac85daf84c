use bare_king::ability::Abilities;
use bare_king::board::{Coord, Enemy, Piece};
use bare_king::game_data::{default_game_state, GameData};
use bare_king::turn::{
    piece_energy, piece_points, same_enemy, score_multiplier, vect_difference, Multiplier,
};

fn c(x: i64, y: i64) -> Coord {
    Coord { x, y }
}

fn enemy(x: i64, y: i64, piece: Piece) -> Enemy {
    Enemy { x, y, piece, moves: vec![c(x, y), c(x, y)] }
}

fn playing() -> GameData {
    let mut g = default_game_state();
    g.alive = true;
    g.player.sub_round = 0;
    g
}

#[test]
fn piece_energies() {
    assert_eq!(piece_energy(Piece::Pawn), 1);
    assert_eq!(piece_energy(Piece::Rook), 2);
    assert_eq!(piece_energy(Piece::Knight), 2);
    assert_eq!(piece_energy(Piece::Bishop), 3);
    assert_eq!(piece_energy(Piece::Queen), 5);
    assert_eq!(piece_energy(Piece::King(3)), 5);
}

#[test]
fn taking_a_piece_gives_its_energy() {
    let mut g = playing();
    g.enemies = vec![enemy(8, 8, Piece::Bishop), enemy(3, 3, Piece::Pawn)];
    g.player.energy = 4;
    let taken = g.take_piece(true).unwrap();
    assert_eq!(taken.piece, Piece::Bishop);
    assert_eq!(g.player.energy, 7);
    assert_eq!(g.enemies.len(), 1);
    assert_eq!(g.enemies[0].x, 3);
}

#[test]
fn taking_caps_energy_only_when_asked() {
    let mut g = playing();
    g.enemies = vec![enemy(8, 8, Piece::Queen)];
    g.player.energy = 28;
    g.take_piece(true);
    assert_eq!(g.player.energy, 30);
    let mut g = playing();
    g.enemies = vec![enemy(8, 8, Piece::Queen)];
    g.player.energy = 28;
    g.take_piece(false);
    assert_eq!(g.player.energy, 33);
}

#[test]
fn two_pieces_on_the_square_pay_only_for_the_first() {
    let mut g = playing();
    g.enemies = vec![enemy(8, 8, Piece::Pawn), enemy(8, 8, Piece::Queen)];
    let taken = g.take_piece(true).unwrap();
    assert_eq!(taken.piece, Piece::Pawn);
    assert_eq!(g.player.energy, 1);
    assert!(g.enemies.is_empty());
}

#[test]
fn nothing_to_take() {
    let mut g = playing();
    g.enemies = vec![enemy(3, 3, Piece::Pawn)];
    assert!(g.take_piece(true).is_none());
    assert_eq!(g.player.energy, 0);
    assert_eq!(g.enemies.len(), 1);
}

#[test]
fn the_third_move_ends_the_round() {
    let mut g = playing();
    let (_, over) = g.make_move();
    assert!(!over);
    assert_eq!(g.player.sub_round, 1);
    g.make_move();
    let (_, over) = g.make_move();
    assert!(over);
    assert_eq!(g.player.sub_round, 0);
    assert_eq!(g.round, 1);
}

#[test]
fn finishing_a_round_ticks_and_ends_effects() {
    let mut g = playing();
    g.effects = vec![(Abilities::Bank, 1), (Abilities::Dope, 3)];
    g.player.energy = 25;
    let killed = g.finish_round(0);
    assert!(killed.is_empty());
    // the investment pays out (25 + 10 capped at 30) and ends
    assert_eq!(g.player.energy, 30);
    assert_eq!(g.effects.len(), 1);
    assert!(matches!(g.effects[0], (Abilities::Dope, 2)));
    assert!(g.enemies.is_empty());
}

#[test]
fn finishing_a_round_spawns_by_difficulty() {
    let mut g = playing();
    g.finish_round(3);
    assert_eq!(g.enemies.len(), 3);
    let mut g = playing();
    g.effects = vec![(Abilities::Peaceful, 5)];
    g.finish_round(3);
    assert_eq!(g.enemies.len(), 0);
    let mut g = playing();
    g.effects = vec![(Abilities::Peaceful, 5)];
    g.finish_round(7);
    assert_eq!(g.enemies.len(), 2);
}

#[test]
fn a_due_airstrike_is_reported_as_kills() {
    let mut g = playing();
    g.enemies = vec![enemy(5, 5, Piece::Pawn)];
    let blast = [c(50, 50); 5];
    // the enemy moves first: a pawn with a move of its own square stays at (5, 5)
    g.effects = vec![(Abilities::Airstrike(blast), 1)];
    let killed = g.finish_round(0);
    assert_eq!(killed.len(), 1);
    assert_eq!((killed[0].x, killed[0].y), (5, 5));
    assert!(g.enemies.is_empty());
    assert!(g.effects.is_empty());
}

#[test]
fn difference_keeps_what_is_gone() {
    let a = enemy(1, 1, Piece::Pawn);
    let b = enemy(2, 2, Piece::Rook);
    let d = enemy(3, 3, Piece::Queen);
    let before = vec![a.clone(), b.clone(), d.clone()];
    let after = vec![b.clone()];
    let gone = vect_difference(&before, &after);
    assert_eq!(gone.len(), 2);
    assert!(same_enemy(&gone[0], &a));
    assert!(same_enemy(&gone[1], &d));
    assert!(!same_enemy(&a, &b));
    let mut moved = a.clone();
    moved.moves.push(c(4, 4));
    assert!(!same_enemy(&a, &moved));
}

#[test]
fn piece_point_values() {
    assert_eq!(piece_points(Piece::Pawn), 2);
    assert_eq!(piece_points(Piece::Knight), 5);
    assert_eq!(piece_points(Piece::Rook), 5);
    assert_eq!(piece_points(Piece::Bishop), 7);
    assert_eq!(piece_points(Piece::Queen), 10);
    assert_eq!(piece_points(Piece::King(0)), 12);
    assert_eq!(piece_points(Piece::King(-1)), 12);
    assert_eq!(piece_points(Piece::King(2)), 0);
}

#[test]
fn a_split_king_comes_back_one_level_lower() {
    let mut g = playing();
    g.enemies = vec![enemy(1, 1, Piece::Pawn)];
    g.split_king(3, 4, 40);
    assert_eq!(g.enemies.len(), 2);
    let k = &g.enemies[1];
    assert_eq!((k.x, k.y), (4, 40));
    assert_eq!(k.piece, Piece::King(2));
    assert_eq!(k.moves, vec![c(4, 40), c(4, 40)]);
}

#[test]
fn a_single_kill_is_worth_its_plain_value() {
    let effects = vec![(Abilities::BloodBath, 2), (Abilities::Martyrdom, 1)];
    assert_eq!(score_multiplier(1, &effects), Multiplier { tenths: 10, halvings: 0 });
}

#[test]
fn multi_kills_add_a_tenth_each() {
    assert_eq!(score_multiplier(3, &vec![]), Multiplier { tenths: 13, halvings: 0 });
    assert_eq!(score_multiplier(0, &vec![]), Multiplier { tenths: 10, halvings: 0 });
}

#[test]
fn blood_bath_doubles_once_and_martyrdom_halves_each() {
    let effects = vec![
        (Abilities::Martyrdom, 1),
        (Abilities::BloodBath, 3),
        (Abilities::Bank, 4),
        (Abilities::BloodBath, 1),
        (Abilities::Martyrdom, 1),
    ];
    assert_eq!(score_multiplier(4, &effects), Multiplier { tenths: 28, halvings: 2 });
}

#[test]
fn a_second_blood_bath_does_not_stack() {
    let one = vec![(Abilities::BloodBath, 3)];
    let two = vec![(Abilities::BloodBath, 3), (Abilities::BloodBath, 2)];
    assert_eq!(score_multiplier(5, &one), score_multiplier(5, &two));
    assert_eq!(score_multiplier(5, &two), Multiplier { tenths: 30, halvings: 0 });
}

#[test]
fn martyrdom_kills_the_player_when_the_next_round_ends() {
    let mut g = playing();
    g.effects = vec![(Abilities::Martyrdom, 1), (Abilities::Bank, 3)];
    g.finish_round(0);
    assert!(!g.alive);
    assert_eq!(g.effects.len(), 1);
    assert!(matches!(g.effects[0], (Abilities::Bank, 2)));
}

#[test]
fn an_airstrike_waits_one_round_then_strikes() {
    let mut g = playing();
    g.enemies = vec![enemy(5, 5, Piece::Pawn), enemy(12, 12, Piece::Pawn)];
    let blast = [c(50, 50); 5];
    g.effects = vec![(Abilities::Airstrike(blast), 2)];
    let killed = g.finish_round(0);
    assert!(killed.is_empty());
    assert_eq!(g.effects.len(), 1);
    assert!(matches!(g.effects[0], (Abilities::Airstrike(_), 1)));
    // keep the two pieces where they are for the second round
    g.enemies = vec![enemy(5, 5, Piece::Pawn), enemy(12, 12, Piece::Pawn)];
    let killed = g.finish_round(0);
    assert_eq!(killed.len(), 1);
    assert_eq!((killed[0].x, killed[0].y), (5, 5));
    assert_eq!(g.enemies.len(), 1);
    assert_eq!((g.enemies[0].x, g.enemies[0].y), (12, 12));
    assert!(g.effects.is_empty());
}

#[test]
fn a_calming_lull_takes_five_off_the_spawn_count() {
    let mut g = playing();
    assert_eq!(g.spawn_count(false, 8), 8);
    assert_eq!(g.spawn_count(true, 8), 1);
    g.effects = vec![(Abilities::Peaceful, 15)];
    assert_eq!(g.spawn_count(false, 8), 3);
    assert_eq!(g.spawn_count(false, 2), 0);
    assert_eq!(g.spawn_count(true, 2), 1);
}

#[test]
fn a_frame_moves_only_when_a_key_is_pressed_or_a_move_is_owed() {
    let mut g = playing();
    g.player.target_x = 4;
    assert!(g.player_turn(false, false, false, false).is_none());
    assert_eq!((g.player.target_x, g.player.sub_round), (4, 0));
    let (_, over) = g.player_turn(true, false, false, false).unwrap();
    assert!(!over);
    assert_eq!((g.player.target_x, g.player.sub_round), (3, 1));
    g.player.sub_round = 5;
    let (_, over) = g.player_turn(false, false, false, false).unwrap();
    assert!(over);
    assert_eq!((g.player.sub_round, g.round), (0, 1));
}

#[test]
fn energy_is_capped_at_thirty() {
    let mut g = playing();
    g.player.energy = 34;
    g.cap_energy();
    assert_eq!(g.player.energy, 30);
    g.player.energy = 12;
    g.cap_energy();
    assert_eq!(g.player.energy, 12);
}
