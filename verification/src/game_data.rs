use vstd::prelude::*;
use crate::ability::Abilities;
pub use crate::board::{Coord, Enemy, Piece};
use crate::board::{coord_in_limit, EnemyView, enemy_views, in_limit, settle, settle_one, blocked, on_board, planned_moves, plan_moves, settled_len};
use crate::player::{Player, player_in_limit};
use crate::random::{random_range, random_ratio};

verus! {

/// Which slot the ability picker is filling and which page of abilities it
/// shows.
#[derive(Clone, Copy, Debug)]
pub struct SelectAbility {
    pub slot: usize,
    pub open: bool,
    pub page: usize,
}

impl Default for SelectAbility {
    fn default() -> (s: SelectAbility)
        ensures
            s.slot == 0,
            !s.open,
            s.page == 0,
    {
        SelectAbility { slot: 0, open: false, page: 0 }
    }
}

/// A targeted ability waiting for the player to click a square.
#[derive(Clone, Copy, Debug)]
pub struct SelectSquare {
    pub point: Coord,
    pub select_mode: bool,
    pub read: bool,
    pub ability: Abilities,
}

impl Default for SelectSquare {
    fn default() -> (s: SelectSquare)
        ensures
            s.point == (Coord { x: 0, y: 0 }),
            !s.select_mode,
            !s.read,
            s.ability is Null,
    {
        SelectSquare { point: Coord { x: 0, y: 0 }, read: false, select_mode: false, ability: Abilities::Null }
    }
}

/// The state of a game: the player, the round, the enemies on and around the
/// board, the active effects with the rounds they have left, the menus'
/// state and the sounds waiting to be played (a name and a volume in
/// percent).
pub struct GameData {
    pub player: Player,
    pub round: u64,
    pub enemies: Vec<Enemy>,
    pub alive: bool,
    pub select_ability: SelectAbility,
    pub pause: bool,
    pub select_square: SelectSquare,
    pub effects: Vec<(Abilities, i64)>,
    pub select_texture_pack: bool,
    pub select_keybinds: bool,
    pub keybind_focus: i64,
    pub sounds: Vec<(String, u32)>,
}

/// Every position is within the model's limit.
pub open spec fn enemies_in_limit(es: Seq<Enemy>) -> bool {
    forall|i: int| 0 <= i < es.len() ==> in_limit(#[trigger] es[i].x as int) && in_limit(es[i].y as int)
}

/// The blast points of every airstrike are within the model's limit.
pub open spec fn effects_in_limit(effects: Seq<(Abilities, i64)>) -> bool {
    forall|i: int|
        0 <= i < effects.len() ==> match (#[trigger] effects[i]).0 {
            Abilities::Airstrike(b) => forall|k: int| 0 <= k < 5 ==> coord_in_limit(#[trigger] b[k]),
            _ => true,
        }
}

impl GameData {
    pub open spec fn wf(&self) -> bool {
        &&& player_in_limit(self.player)
        &&& enemies_in_limit(self.enemies@)
        &&& effects_in_limit(self.effects@)
    }

    pub open spec fn target(&self) -> Coord {
        Coord { x: self.player.target_x, y: self.player.target_y }
    }
}

/// The first square taken before any enemy moves: one off the board, so that
/// cutting moves back against it only drops squares off the board.
pub open spec fn first_filled() -> Coord {
    Coord { x: -10i64, y: -10i64 }
}

/// One enemy's part of the enemies' move, given the squares already taken by
/// the enemies before it: an enemy with an announced move goes to the last
/// square of it that is on the board and not taken, takes that square, and
/// announces its next move towards `target`.  The flag says whether its move
/// passed over `target`.
pub open spec fn march_step(e: EnemyView, filled: Seq<Coord>, target: Coord, roll: int) -> (
    EnemyView,
    Seq<Coord>,
    bool,
) {
    if e.moves.len() <= 1 {
        (e, filled, false)
    } else {
        let m = settle(e.moves, filled);
        let x = if m.len() > 0 {
            m.last().x
        } else {
            e.x
        };
        let y = if m.len() > 0 {
            m.last().y
        } else {
            e.y
        };
        let filled2 = if m.len() > 0 {
            filled.push(Coord { x, y })
        } else {
            filled
        };
        (
            EnemyView {
                x,
                y,
                piece: e.piece,
                moves: planned_moves(e.piece, x as int, y as int, target.x as int, target.y as int, roll),
            },
            filled2,
            e.moves.contains(target),
        )
    }
}

/// The first `n` enemies after their move, the squares taken, and whether
/// any of their moves passed over `target`.
pub open spec fn march(es: Seq<EnemyView>, target: Coord, rolls: Seq<i64>, n: nat) -> (
    Seq<EnemyView>,
    Seq<Coord>,
    bool,
)
    decreases n,
{
    if n == 0 {
        (Seq::empty(), seq![first_filled()], false)
    } else {
        let prev = march(es, target, rolls, (n - 1) as nat);
        let s = march_step(es[n - 1], prev.1, target, rolls[n - 1] as int);
        (prev.0.push(s.0), s.1, prev.2 || s.2)
    }
}

proof fn lemma_settle_one_last(m: Seq<Coord>, j: Coord)
    ensures
        settle_one(m, j).len() > 0 ==> !blocked(settle_one(m, j).last(), j),
    decreases m.len(),
{
    if m.len() > 0 && blocked(m.last(), j) {
        lemma_settle_one_last(m.drop_last(), j);
    }
}

/// A move cut back against at least one taken square ends on the board.
pub proof fn lemma_settle_on_board(m: Seq<Coord>, filled: Seq<Coord>)
    requires
        filled.len() > 0,
    ensures
        settle(m, filled).len() > 0 ==> on_board(settle(m, filled).last()),
{
    lemma_settle_one_last(settle(m, filled.drop_last()), filled.last());
}

pub proof fn lemma_march_filled(es: Seq<EnemyView>, target: Coord, rolls: Seq<i64>, n: nat)
    requires
        n <= es.len(),
    ensures
        march(es, target, rolls, n).1.len() > 0,
        march(es, target, rolls, n).0.len() == n,
    decreases n,
{
    if n > 0 {
        lemma_march_filled(es, target, rolls, (n - 1) as nat);
    }
}

fn coord_in(v: &Vec<Coord>, c: Coord) -> (r: bool)
    ensures
        r == v@.contains(c),
{
    let mut i: usize = 0;
    while i < v.len()
        invariant
            i <= v@.len(),
            forall|k: int| 0 <= k < i ==> v@[k] != c,
        decreases v@.len() - i,
    {
        if v[i] == c {
            return true;
        }
        i = i + 1;
    }
    false
}

impl GameData {
    /// The enemies' move with the random extra lengths of diagonal moves
    /// given, one per enemy in order.  In order, each enemy with an announced
    /// move of more than its own square goes to the last square of that move
    /// that is on the board and not taken by an enemy that went before it,
    /// and announces its next move towards the player's square (see `march`).
    /// The player dies if any of those moves passed over its square.
    pub fn enemy_move_with_rolls(&mut self, rolls: &Vec<i64>)
        requires
            old(self).wf(),
            rolls@.len() == old(self).enemies@.len(),
            forall|i: int| 0 <= i < rolls@.len() ==> 2 <= #[trigger] rolls@[i] < 8,
        ensures
            final(self).wf(),
            enemy_views(final(self).enemies@) == march(
                enemy_views(old(self).enemies@),
                old(self).target(),
                rolls@,
                old(self).enemies@.len() as nat,
            ).0,
            final(self).alive == (old(self).alive && !march(
                enemy_views(old(self).enemies@),
                old(self).target(),
                rolls@,
                old(self).enemies@.len() as nat,
            ).2),
            final(self).player == old(self).player,
            final(self).round == old(self).round,
            final(self).effects@ == old(self).effects@,
            final(self).sounds@ == old(self).sounds@,
            final(self).pause == old(self).pause,
            final(self).keybind_focus == old(self).keybind_focus,
            final(self).select_square == old(self).select_square,
            final(self).select_ability == old(self).select_ability,
            final(self).select_texture_pack == old(self).select_texture_pack,
            final(self).select_keybinds == old(self).select_keybinds,
    {
        let ghost es = enemy_views(old(self).enemies@);
        let target = Coord { x: self.player.target_x, y: self.player.target_y };
        let ghost old_alive = self.alive;
        let mut filled: Vec<Coord> = Vec::new();
        filled.push(Coord { x: -10, y: -10 });
        let n = self.enemies.len();
        let mut k: usize = 0;
        assert(filled@ =~= seq![first_filled()]);
        assert(enemy_views(self.enemies@).take(0) =~= Seq::<EnemyView>::empty());
        while k < n
            invariant
                0 <= k <= n,
                n == self.enemies@.len(),
                n == es.len(),
                rolls@.len() == n,
                forall|i: int| 0 <= i < rolls@.len() ==> 2 <= #[trigger] rolls@[i] < 8,
                es == enemy_views(old(self).enemies@),
                target == old(self).target(),
                player_in_limit(self.player),
                self.player == old(self).player,
                enemies_in_limit(self.enemies@),
                enemy_views(self.enemies@).take(k as int) == march(es, target, rolls@, k as nat).0,
                forall|i: int| k <= i < n ==> (#[trigger] self.enemies@[i])@ == es[i],
                filled@ == march(es, target, rolls@, k as nat).1,
                self.alive == (old_alive && !march(es, target, rolls@, k as nat).2),
                old_alive == old(self).alive,
                self.round == old(self).round,
                self.effects@ == old(self).effects@,
                self.sounds@ == old(self).sounds@,
                self.pause == old(self).pause,
                self.keybind_focus == old(self).keybind_focus,
                self.select_square == old(self).select_square,
                self.select_ability == old(self).select_ability,
                self.select_texture_pack == old(self).select_texture_pack,
                self.select_keybinds == old(self).select_keybinds,
            decreases n - k,
        {
            proof {
                lemma_march_filled(es, target, rolls@, k as nat);
            }
            let ghost prev = march(es, target, rolls@, k as nat);
            let ghost e_old = es[k as int];
            assert(self.enemies@[k as int]@ == e_old);
            if self.enemies[k].moves.len() > 1 {
                let hit = coord_in(&self.enemies[k].moves, target);
                let keep = settled_len(&self.enemies[k].moves, &filled);
                let piece = self.enemies[k].piece;
                let mut x = self.enemies[k].x;
                let mut y = self.enemies[k].y;
                proof {
                    lemma_settle_on_board(e_old.moves, prev.1);
                }
                if keep > 0 {
                    x = self.enemies[k].moves[keep - 1].x;
                    y = self.enemies[k].moves[keep - 1].y;
                    filled.push(Coord { x, y });
                }
                let moves = plan_moves(piece, x, y, target, rolls[k]);
                if hit {
                    self.alive = false;
                }
                self.enemies.set(k, Enemy { x, y, piece, moves });
            }
            let ghost s = march_step(e_old, prev.1, target, rolls@[k as int] as int);
            assert(enemy_views(self.enemies@).take(k + 1) =~= prev.0.push(s.0));
            k = k + 1;
        }
        assert(enemy_views(self.enemies@).take(n as int) =~= enemy_views(self.enemies@));
    }
}


/// The random draws behind one spawned enemy: `side` (in `0..4`) picks the
/// board edge it comes from, `offset` (in `0..15`) its place along that edge,
/// and each flag, drawn only once the round allows that piece, whether the
/// piece is upgraded to it.
#[derive(Clone, Copy, Debug)]
pub struct SpawnRoll {
    pub offset: i64,
    pub side: i64,
    pub rook: bool,
    pub knight: bool,
    pub bishop: bool,
    pub queen: bool,
    pub king: bool,
}

pub open spec fn roll_valid(r: SpawnRoll) -> bool {
    0 <= r.offset < 15 && 0 <= r.side < 4
}

/// The edge square an enemy enters: the left, right, top or bottom edge.
pub open spec fn spawn_square(r: SpawnRoll) -> Coord {
    if r.side == 0 {
        Coord { x: 0, y: r.offset }
    } else if r.side == 1 {
        Coord { x: 15, y: r.offset }
    } else if r.side == 2 {
        Coord { x: r.offset, y: 0 }
    } else {
        Coord { x: r.offset, y: 15 }
    }
}

/// The piece an enemy is: a pawn, upgraded in turn to a rook and a knight
/// after round 10, a bishop after round 25, a queen after round 50 and a
/// king after round 75, each by its own draw; a king splits
/// `ceil(count / 2)` times, `count` being the number of enemies spawned
/// together.
pub open spec fn spawn_piece(round: u64, r: SpawnRoll, count: int) -> Piece {
    let p1 = if round > 10 && r.rook {
        Piece::Rook
    } else {
        Piece::Pawn
    };
    let p2 = if round > 10 && r.knight {
        Piece::Knight
    } else {
        p1
    };
    let p3 = if round > 25 && r.bishop {
        Piece::Bishop
    } else {
        p2
    };
    let p4 = if round > 50 && r.queen {
        Piece::Queen
    } else {
        p3
    };
    if round > 75 && r.king {
        Piece::King(((count + 1) / 2) as i64)
    } else {
        p4
    }
}

/// A spawned enemy waits off the board, twenty times as far out as its edge
/// square is from the board's middle, and announces its entry on that edge
/// square.
pub open spec fn spawned_enemy(round: u64, r: SpawnRoll, count: int) -> EnemyView {
    let sq = spawn_square(r);
    let out = Coord { x: (-20 * (8 - sq.x)) as i64, y: (-20 * (8 - sq.y)) as i64 };
    EnemyView { x: out.x, y: out.y, piece: spawn_piece(round, r, count), moves: seq![out, out, sq] }
}

pub open spec fn has_peaceful(effects: Seq<(Abilities, i64)>) -> bool {
    exists|i: int| 0 <= i < effects.len() && (#[trigger] effects[i]).0 is Peaceful
}

/// How many enemies a spawn brings: one for a single spawn, else the
/// difficulty rounded up, less five while a calming lull is active, and
/// never fewer than none.
pub open spec fn spawn_count_of(effects: Seq<(Abilities, i64)>, single: bool, difficulty_ceil: int) -> int {
    if single {
        1
    } else {
        let d = if has_peaceful(effects) {
            difficulty_ceil - 5
        } else {
            difficulty_ceil
        };
        if d < 0 {
            0
        } else {
            d
        }
    }
}

fn spawn_one(round: u64, r: SpawnRoll, count: i64) -> (e: Enemy)
    requires
        roll_valid(r),
        0 <= count < i64::MAX,
    ensures
        e@ == spawned_enemy(round, r, count as int),
{
    let (sx, sy) = if r.side == 0 {
        (0i64, r.offset)
    } else if r.side == 1 {
        (15i64, r.offset)
    } else if r.side == 2 {
        (r.offset, 0i64)
    } else {
        (r.offset, 15i64)
    };
    let mut piece = Piece::Pawn;
    if round > 10 && r.rook {
        piece = Piece::Rook;
    }
    if round > 10 && r.knight {
        piece = Piece::Knight;
    }
    if round > 25 && r.bishop {
        piece = Piece::Bishop;
    }
    if round > 50 && r.queen {
        piece = Piece::Queen;
    }
    if round > 75 && r.king {
        piece = Piece::King((count + 1) / 2);
    }
    let ox = -20 * (8 - sx);
    let oy = -20 * (8 - sy);
    let mut moves: Vec<Coord> = Vec::new();
    moves.push(Coord { x: ox, y: oy });
    moves.push(Coord { x: ox, y: oy });
    moves.push(Coord { x: sx, y: sy });
    let e = Enemy { x: ox, y: oy, piece, moves };
    assert(e@.moves =~= spawned_enemy(round, r, count as int).moves);
    e
}

/// The random draws for one spawned enemy, each coin drawn only when the
/// round allows its piece: one in four for a rook, a knight or a bishop,
/// three in twenty for a queen or a king.
pub(crate) fn draw_spawn_roll(round: u64) -> (r: SpawnRoll)
    ensures
        roll_valid(r),
        r.rook ==> round > 10,
        r.knight ==> round > 10,
        r.bishop ==> round > 25,
        r.queen ==> round > 50,
        r.king ==> round > 75,
{
    let offset = random_range(0, 15);
    let side = random_range(0, 4);
    let rook = round > 10 && random_ratio(1, 4);
    let knight = round > 10 && random_ratio(1, 4);
    let bishop = round > 25 && random_ratio(1, 4);
    let queen = round > 50 && random_ratio(3, 20);
    let king = round > 75 && random_ratio(3, 20);
    SpawnRoll { offset, side, rook, knight, bishop, queen, king }
}

fn peaceful_active(effects: &Vec<(Abilities, i64)>) -> (r: bool)
    ensures
        r == has_peaceful(effects@),
{
    let mut i: usize = 0;
    while i < effects.len()
        invariant
            i <= effects@.len(),
            forall|k: int| 0 <= k < i ==> (#[trigger] effects@[k]).0 !is Peaceful,
        decreases effects@.len() - i,
    {
        if let Abilities::Peaceful = effects[i].0 {
            return true;
        }
        i = i + 1;
    }
    false
}

impl GameData {
    /// The enemies' move, each enemy's diagonal lengthened by a random
    /// `2..8` squares: the result is that of `enemy_move_with_rolls` for
    /// some such draws.
    pub fn enemy_move(&mut self)
        requires
            old(self).wf(),
        ensures
            final(self).wf(),
            exists|rolls: Seq<i64>|
                {
                    &&& rolls.len() == old(self).enemies@.len()
                    &&& forall|i: int| 0 <= i < rolls.len() ==> 2 <= #[trigger] rolls[i] < 8
                    &&& enemy_views(final(self).enemies@) == march(
                        enemy_views(old(self).enemies@),
                        old(self).target(),
                        rolls,
                        old(self).enemies@.len() as nat,
                    ).0
                    &&& final(self).alive == (old(self).alive && !march(
                        enemy_views(old(self).enemies@),
                        old(self).target(),
                        rolls,
                        old(self).enemies@.len() as nat,
                    ).2)
                },
            final(self).player == old(self).player,
            final(self).round == old(self).round,
            final(self).effects@ == old(self).effects@,
            final(self).sounds@ == old(self).sounds@,
            final(self).pause == old(self).pause,
            final(self).keybind_focus == old(self).keybind_focus,
            final(self).select_square == old(self).select_square,
            final(self).select_ability == old(self).select_ability,
            final(self).select_texture_pack == old(self).select_texture_pack,
            final(self).select_keybinds == old(self).select_keybinds,
    {
        let mut rolls: Vec<i64> = Vec::new();
        let n = self.enemies.len();
        while rolls.len() < n
            invariant
                rolls@.len() <= n,
                forall|i: int| 0 <= i < rolls@.len() ==> 2 <= #[trigger] rolls@[i] < 8,
            decreases n - rolls@.len(),
        {
            rolls.push(random_range(2, 8));
        }
        self.enemy_move_with_rolls(&rolls);
    }

    /// How many enemies `spawn_enemy` brings (see `spawn_count_of`);
    /// `difficulty_ceil` is the game's difficulty rounded up.
    pub fn spawn_count(&self, single: bool, difficulty_ceil: i64) -> (n: i64)
        requires
            i64::MIN + 5 <= difficulty_ceil,
        ensures
            n == spawn_count_of(self.effects@, single, difficulty_ceil as int),
            n >= 0,
    {
        let mut d = difficulty_ceil;
        if peaceful_active(&self.effects) {
            d = d - 5;
        }
        if d < 0 {
            d = 0;
        }
        if single {
            d = 1;
        }
        d
    }

    /// Adds one spawned enemy per draw, after the enemies already there (see
    /// `spawned_enemy`); the number of draws is the number spawned together.
    pub fn spawn_from_rolls(&mut self, rolls: &Vec<SpawnRoll>)
        requires
            old(self).wf(),
            rolls@.len() < i64::MAX,
            forall|i: int| 0 <= i < rolls@.len() ==> roll_valid(#[trigger] rolls@[i]),
        ensures
            final(self).wf(),
            enemy_views(final(self).enemies@) == enemy_views(old(self).enemies@) + rolls@.map_values(
                |r: SpawnRoll| spawned_enemy(old(self).round, r, rolls@.len() as int),
            ),
            final(self).player == old(self).player,
            final(self).round == old(self).round,
            final(self).alive == old(self).alive,
            final(self).effects@ == old(self).effects@,
            final(self).sounds@ == old(self).sounds@,
            final(self).pause == old(self).pause,
            final(self).keybind_focus == old(self).keybind_focus,
            final(self).select_square == old(self).select_square,
            final(self).select_ability == old(self).select_ability,
            final(self).select_texture_pack == old(self).select_texture_pack,
            final(self).select_keybinds == old(self).select_keybinds,
    {
        let count = rolls.len() as i64;
        let mut i: usize = 0;
        while i < rolls.len()
            invariant
                i <= rolls@.len(),
                count == rolls@.len(),
                count < i64::MAX,
                forall|k: int| 0 <= k < rolls@.len() ==> roll_valid(#[trigger] rolls@[k]),
                self.wf(),
                enemy_views(self.enemies@) == enemy_views(old(self).enemies@) + rolls@.take(
                    i as int,
                ).map_values(|r: SpawnRoll| spawned_enemy(old(self).round, r, count as int)),
                self.player == old(self).player,
                self.round == old(self).round,
                self.alive == old(self).alive,
                self.effects@ == old(self).effects@,
                self.sounds@ == old(self).sounds@,
                self.pause == old(self).pause,
                self.keybind_focus == old(self).keybind_focus,
                self.select_square == old(self).select_square,
                self.select_ability == old(self).select_ability,
                self.select_texture_pack == old(self).select_texture_pack,
                self.select_keybinds == old(self).select_keybinds,
            decreases rolls@.len() - i,
        {
            let e = spawn_one(self.round, rolls[i], count);
            let ghost before = self.enemies@;
            self.enemies.push(e);
            assert(rolls@.take(i + 1) =~= rolls@.take(i as int).push(rolls@[i as int]));
            assert(enemy_views(self.enemies@) =~= enemy_views(before).push(e@));
            assert(rolls@.take(i + 1).map_values(
                |r: SpawnRoll| spawned_enemy(old(self).round, r, count as int),
            ) =~= rolls@.take(i as int).map_values(
                |r: SpawnRoll| spawned_enemy(old(self).round, r, count as int),
            ).push(spawned_enemy(old(self).round, rolls@[i as int], count as int)));
            assert(enemy_views(self.enemies@) =~= enemy_views(old(self).enemies@) + rolls@.take(
                i + 1,
            ).map_values(|r: SpawnRoll| spawned_enemy(old(self).round, r, count as int)));
            i = i + 1;
        }
        assert(rolls@.take(rolls@.len() as int) =~= rolls@);
    }

    /// Spawns `spawn_count` new enemies (see `spawn_count_of`), each from its
    /// own random draws; the result is that of `spawn_from_rolls` for some
    /// such draws.
    pub fn spawn_enemy(&mut self, single: bool, difficulty_ceil: i64)
        requires
            old(self).wf(),
            i64::MIN + 5 <= difficulty_ceil < i64::MAX,
        ensures
            final(self).wf(),
            exists|rolls: Seq<SpawnRoll>|
                {
                    &&& rolls.len() == spawn_count_of(old(self).effects@, single, difficulty_ceil as int)
                    &&& forall|i: int| 0 <= i < rolls.len() ==> roll_valid(#[trigger] rolls[i])
                    &&& enemy_views(final(self).enemies@) == enemy_views(old(self).enemies@)
                        + rolls.map_values(
                        |r: SpawnRoll| spawned_enemy(old(self).round, r, rolls.len() as int),
                    )
                },
            final(self).player == old(self).player,
            final(self).round == old(self).round,
            final(self).alive == old(self).alive,
            final(self).effects@ == old(self).effects@,
            final(self).sounds@ == old(self).sounds@,
            final(self).pause == old(self).pause,
            final(self).keybind_focus == old(self).keybind_focus,
            final(self).select_square == old(self).select_square,
            final(self).select_ability == old(self).select_ability,
            final(self).select_texture_pack == old(self).select_texture_pack,
            final(self).select_keybinds == old(self).select_keybinds,
    {
        let d = self.spawn_count(single, difficulty_ceil);
        let mut rolls: Vec<SpawnRoll> = Vec::new();
        let mut k: i64 = 0;
        while k < d
            invariant
                0 <= k <= d,
                rolls@.len() == k,
                forall|i: int| 0 <= i < rolls@.len() ==> roll_valid(#[trigger] rolls@[i]),
            decreases d - k,
        {
            rolls.push(draw_spawn_roll(self.round));
            k = k + 1;
        }
        self.spawn_from_rolls(&rolls);
    }
}

/// The state a new game starts from, and the one shown before the first
/// game: the king on square (8, 8) with no energy and its move counter past
/// the third move, round zero, no enemies, no effects, the player not yet
/// alive, the ability picker on its second slot and no key binding row in
/// focus.
pub fn default_game_state() -> (g: GameData)
    ensures
        g.wf(),
        g.player == (Player { half_x: 16, half_y: 16, target_x: 8, target_y: 8, sub_round: 4, energy: 0 }),
        g.round == 0,
        g.enemies@.len() == 0,
        !g.alive,
        g.select_ability.slot == 1 && !g.select_ability.open && g.select_ability.page == 0,
        !g.pause,
        g.select_square.point == (Coord { x: 0, y: 0 }) && !g.select_square.select_mode
            && !g.select_square.read && g.select_square.ability is Null,
        g.effects@.len() == 0,
        !g.select_texture_pack,
        !g.select_keybinds,
        g.keybind_focus == -3,
        g.sounds@.len() == 0,
{
    GameData {
        player: Player { half_x: 16, half_y: 16, target_x: 8, target_y: 8, sub_round: 4, energy: 0 },
        round: 0,
        enemies: Vec::new(),
        alive: false,
        select_ability: SelectAbility { slot: 1, open: false, page: 0 },
        pause: false,
        select_square: SelectSquare {
            point: Coord { x: 0, y: 0 },
            read: false,
            select_mode: false,
            ability: Abilities::Null,
        },
        effects: Vec::new(),
        select_texture_pack: false,
        select_keybinds: false,
        keybind_focus: -3,
        sounds: Vec::new(),
    }
}

} // verus!
