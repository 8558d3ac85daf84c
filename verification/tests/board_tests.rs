use bare_king::board::{plan_moves, settled_len, Coord, Enemy, Piece};
use bare_king::game_data::{default_game_state, GameData, SpawnRoll};

fn c(x: i64, y: i64) -> Coord {
    Coord { x, y }
}

fn game_with(enemies: Vec<Enemy>, target: Coord) -> GameData {
    let mut g = default_game_state();
    g.player.target_x = target.x;
    g.player.target_y = target.y;
    g.player.half_x = 2 * target.x;
    g.player.half_y = 2 * target.y;
    g.alive = true;
    g.enemies = enemies;
    g
}

#[test]
fn pawn_steps_along_the_longer_distance() {
    assert_eq!(plan_moves(Piece::Pawn, 3, 3, c(8, 4), 2), vec![c(3, 3), c(4, 3)]);
    assert_eq!(plan_moves(Piece::Pawn, 3, 3, c(0, 3), 2), vec![c(3, 3), c(2, 3)]);
    assert_eq!(plan_moves(Piece::Pawn, 3, 3, c(4, 0), 2), vec![c(3, 3), c(3, 2)]);
    // equal distances go along the column
    assert_eq!(plan_moves(Piece::Pawn, 3, 3, c(5, 5), 2), vec![c(3, 3), c(3, 4)]);
    // on the target itself the pawn steps down
    assert_eq!(plan_moves(Piece::Pawn, 3, 3, c(3, 3), 2), vec![c(3, 3), c(3, 4)]);
}

#[test]
fn king_moves_like_a_pawn() {
    assert_eq!(plan_moves(Piece::King(2), 10, 10, c(10, 2), 5), vec![c(10, 10), c(10, 9)]);
}

#[test]
fn rook_runs_to_the_target_line() {
    assert_eq!(
        plan_moves(Piece::Rook, 2, 5, c(6, 4), 2),
        vec![c(2, 5), c(3, 5), c(4, 5), c(5, 5), c(6, 5)]
    );
    assert_eq!(plan_moves(Piece::Rook, 2, 5, c(2, 3), 2), vec![c(2, 5), c(2, 4), c(2, 3)]);
}

#[test]
fn knight_runs_two_then_sidesteps() {
    // horizontal run towards x, then one square towards the target's row
    assert_eq!(
        plan_moves(Piece::Knight, 5, 5, c(12, 3), 2),
        vec![c(5, 5), c(6, 5), c(7, 5), c(7, 4)]
    );
    // vertical run, the sidestep goes towards the target's column
    assert_eq!(
        plan_moves(Piece::Knight, 5, 5, c(4, 12), 2),
        vec![c(5, 5), c(5, 6), c(5, 7), c(4, 7)]
    );
}

#[test]
fn knight_sidestep_may_leave_the_board() {
    // target straight ahead on the last row: the sidestep goes to row 16
    assert_eq!(
        plan_moves(Piece::Knight, 5, 15, c(12, 15), 2),
        vec![c(5, 15), c(6, 15), c(7, 15), c(7, 16)]
    );
}

#[test]
fn bishop_runs_diagonally_with_the_roll() {
    // |yd| = 2, roll 3: five squares
    assert_eq!(
        plan_moves(Piece::Bishop, 5, 5, c(9, 7), 3),
        vec![c(5, 5), c(6, 6), c(7, 7), c(8, 8), c(9, 9)]
    );
    // cut at the board's edge
    assert_eq!(plan_moves(Piece::Bishop, 1, 1, c(0, 0), 7), vec![c(1, 1), c(0, 0)]);
}

#[test]
fn queen_chooses_diagonal_only_on_a_diagonal() {
    assert_eq!(plan_moves(Piece::Queen, 5, 5, c(7, 7), 2), vec![c(5, 5), c(6, 6), c(7, 7), c(8, 8)]);
    assert_eq!(plan_moves(Piece::Queen, 5, 5, c(8, 6), 2), vec![c(5, 5), c(6, 5), c(7, 5), c(8, 5)]);
}

#[test]
fn moves_off_the_board_are_dropped() {
    assert_eq!(plan_moves(Piece::Rook, -160, 40, c(3, 3), 2), Vec::<Coord>::new());
    assert_eq!(plan_moves(Piece::Pawn, 15, 4, c(20, 4), 2), vec![c(15, 4)]);
}

#[test]
fn settling_cuts_taken_and_outside_squares() {
    let moves = vec![c(1, 1), c(2, 1), c(3, 1), c(16, 1)];
    assert_eq!(settled_len(&moves, &vec![c(-10, -10)]), 3);
    assert_eq!(settled_len(&moves, &vec![c(-10, -10), c(3, 1)]), 2);
    // a square checked earlier is not checked again
    assert_eq!(settled_len(&moves, &vec![c(-10, -10), c(2, 1), c(3, 1)]), 2);
    assert_eq!(settled_len(&vec![c(20, 20)], &vec![c(-10, -10)]), 0);
}

#[test]
fn enemies_move_then_announce_the_next_move() {
    let pawn = Enemy { x: 3, y: 3, piece: Piece::Pawn, moves: vec![c(3, 3), c(4, 3)] };
    let mut g = game_with(vec![pawn], c(10, 3));
    g.enemy_move_with_rolls(&vec![2]);
    assert!(g.alive);
    assert_eq!(g.enemies[0].x, 4);
    assert_eq!(g.enemies[0].y, 3);
    assert_eq!(g.enemies[0].moves, vec![c(4, 3), c(5, 3)]);
}

#[test]
fn an_enemy_passing_the_king_kills_it() {
    let rook = Enemy { x: 0, y: 5, piece: Piece::Rook, moves: vec![c(0, 5), c(1, 5), c(2, 5), c(3, 5)] };
    let mut g = game_with(vec![rook], c(2, 5));
    g.enemy_move_with_rolls(&vec![2]);
    assert!(!g.alive);
    assert_eq!((g.enemies[0].x, g.enemies[0].y), (3, 5));
}

#[test]
fn the_second_enemy_cannot_land_on_a_taken_square() {
    let a = Enemy { x: 4, y: 4, piece: Piece::Pawn, moves: vec![c(4, 4), c(5, 4)] };
    let b = Enemy { x: 6, y: 4, piece: Piece::Pawn, moves: vec![c(6, 4), c(5, 4)] };
    let mut g = game_with(vec![a, b], c(12, 12));
    g.enemy_move_with_rolls(&vec![2, 2]);
    assert_eq!((g.enemies[0].x, g.enemies[0].y), (5, 4));
    assert_eq!((g.enemies[1].x, g.enemies[1].y), (6, 4));
}

#[test]
fn enemies_without_a_move_are_left_alone() {
    let idle = Enemy { x: 4, y: 4, piece: Piece::Pawn, moves: vec![c(4, 4)] };
    let mut g = game_with(vec![idle], c(4, 4));
    g.enemy_move_with_rolls(&vec![5]);
    assert!(g.alive);
    assert_eq!(g.enemies[0].moves, vec![c(4, 4)]);
}

#[test]
fn an_enemy_with_every_square_blocked_stays_off_the_board() {
    let waiting = Enemy {
        x: -160,
        y: 40,
        piece: Piece::Pawn,
        moves: vec![c(-160, 40), c(-160, 40), c(0, 6)],
    };
    let blocker = Enemy { x: 1, y: 6, piece: Piece::Pawn, moves: vec![c(1, 6), c(0, 6)] };
    let mut g = game_with(vec![blocker, waiting], c(10, 10));
    g.enemy_move_with_rolls(&vec![2, 2]);
    assert_eq!((g.enemies[0].x, g.enemies[0].y), (0, 6));
    assert_eq!((g.enemies[1].x, g.enemies[1].y), (-160, 40));
    assert_eq!(g.enemies[1].moves, Vec::<Coord>::new());
}

#[test]
fn random_bishop_moves_vary_in_length() {
    let mut lengths = std::collections::HashSet::new();
    for _ in 0..300 {
        let bishop = Enemy { x: 0, y: 0, piece: Piece::Bishop, moves: vec![c(0, 0), c(0, 0)] };
        let mut g = game_with(vec![bishop], c(15, 15));
        g.enemy_move();
        // from (0, 0) towards (15, 15): |yd| = 15, so 17..=22 squares, 16 on the board
        let n = g.enemies[0].moves.len();
        assert!(n <= 16);
        lengths.insert(n);
        let bishop = Enemy { x: 9, y: 9, piece: Piece::Bishop, moves: vec![c(9, 9), c(9, 9)] };
        let mut g = game_with(vec![bishop], c(9, 8));
        g.enemy_move();
        // |yd| = 1: 3..=8 squares up and to the right
        let n = g.enemies[0].moves.len();
        assert!(n >= 3 && n <= 8, "length {}", n);
        lengths.insert(100 + n);
    }
    assert!(lengths.len() > 2);
}

#[test]
fn spawned_enemies_wait_off_the_board() {
    let mut g = default_game_state();
    g.round = 0;
    let roll = SpawnRoll { offset: 6, side: 0, rook: true, knight: true, bishop: true, queen: true, king: true };
    g.spawn_from_rolls(&vec![roll]);
    let e = &g.enemies[0];
    assert_eq!(e.piece, Piece::Pawn);
    assert_eq!((e.x, e.y), (-160, -40));
    assert_eq!(e.moves, vec![c(-160, -40), c(-160, -40), c(0, 6)]);
}

#[test]
fn spawn_edges_and_pieces_follow_the_rolls() {
    let mut g = default_game_state();
    g.round = 80;
    let plain = SpawnRoll { offset: 3, side: 1, rook: false, knight: false, bishop: false, queen: false, king: false };
    let rook = SpawnRoll { side: 2, rook: true, ..plain };
    let bishop = SpawnRoll { side: 3, rook: true, knight: true, bishop: true, ..plain };
    let king = SpawnRoll { king: true, queen: true, ..plain };
    g.spawn_from_rolls(&vec![plain, rook, bishop, king]);
    assert_eq!(g.enemies[0].piece, Piece::Pawn);
    assert_eq!(g.enemies[0].moves[2], c(15, 3));
    assert_eq!((g.enemies[0].x, g.enemies[0].y), (140, -100));
    assert_eq!(g.enemies[1].piece, Piece::Rook);
    assert_eq!(g.enemies[1].moves[2], c(3, 0));
    assert_eq!(g.enemies[2].piece, Piece::Bishop);
    assert_eq!(g.enemies[2].moves[2], c(3, 15));
    // four spawned together: the king splits ceil(4 / 2) = 2 times
    assert_eq!(g.enemies[3].piece, Piece::King(2));
}

#[test]
fn early_rounds_spawn_only_pawns() {
    let mut g = default_game_state();
    g.round = 10;
    let all = SpawnRoll { offset: 0, side: 0, rook: true, knight: true, bishop: true, queen: true, king: true };
    g.spawn_from_rolls(&vec![all]);
    assert_eq!(g.enemies[0].piece, Piece::Pawn);
    g.round = 11;
    g.spawn_from_rolls(&vec![all]);
    assert_eq!(g.enemies[1].piece, Piece::Knight);
    g.round = 26;
    g.spawn_from_rolls(&vec![all]);
    assert_eq!(g.enemies[2].piece, Piece::Bishop);
    g.round = 51;
    g.spawn_from_rolls(&vec![all]);
    assert_eq!(g.enemies[3].piece, Piece::Queen);
    g.round = 76;
    g.spawn_from_rolls(&vec![all, all, all]);
    assert_eq!(g.enemies[4].piece, Piece::King(2));
}

#[test]
fn random_spawns_enter_on_the_edges() {
    let mut g = default_game_state();
    g.round = 100;
    g.spawn_enemy(false, 40);
    assert_eq!(g.enemies.len(), 40);
    let mut places = std::collections::HashSet::new();
    for e in &g.enemies {
        let s = e.moves[2];
        assert!(s.x == 0 || s.x == 15 || s.y == 0 || s.y == 15);
        assert!((0..=15).contains(&s.x) && (0..=15).contains(&s.y));
        assert_eq!(e.x, -20 * (8 - s.x));
        assert_eq!(e.y, -20 * (8 - s.y));
        places.insert((s.x, s.y));
    }
    assert!(places.len() > 1);
}
