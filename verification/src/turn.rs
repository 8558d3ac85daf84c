use vstd::prelude::*;
use crate::ability::{apply_effects, trigger_effects, Abilities};
use crate::board::{coord_in_limit, enemy_views, in_limit, remove_flagged, Coord, Enemy, EnemyView, Piece};
use crate::player::{after_keys, player_movement};
use crate::game_data::{march, roll_valid, spawn_count_of, spawned_enemy, GameData, SpawnRoll};

verus! {

/// The energy the player gains for taking a piece.
pub open spec fn piece_energy_of(p: Piece) -> i64 {
    match p {
        Piece::Pawn => 1,
        Piece::Rook => 2,
        Piece::Knight => 2,
        Piece::Bishop => 3,
        _ => 5,
    }
}

/// The energy the player gains for taking a piece: one for a pawn, two for
/// a rook or a knight, three for a bishop, five for a queen or a king.
pub fn piece_energy(p: Piece) -> (v: i64)
    ensures
        v == piece_energy_of(p),
{
    match p {
        Piece::Pawn => 1,
        Piece::Rook => 2,
        Piece::Knight => 2,
        Piece::Bishop => 3,
        _ => 5,
    }
}

pub open spec fn piece_points_of(p: Piece) -> i64 {
    match p {
        Piece::Pawn => 2,
        Piece::Knight => 5,
        Piece::Rook => 5,
        Piece::Bishop => 7,
        Piece::Queen => 10,
        Piece::King(a) => if a <= 0 {
            12
        } else {
            0
        },
    }
}

/// The points a taken piece is worth before the multi-kill multiplier: two
/// for a pawn, five for a knight or a rook, seven for a bishop, ten for a
/// queen, twelve for a king that no longer splits and nothing for one that
/// does (it splits instead, see `split_king`).
pub fn piece_points(p: Piece) -> (v: i64)
    ensures
        v == piece_points_of(p),
{
    match p {
        Piece::Pawn => 2,
        Piece::Knight => 5,
        Piece::Rook => 5,
        Piece::Bishop => 7,
        Piece::Queen => 10,
        Piece::King(a) => if a <= 0 {
            12
        } else {
            0
        },
    }
}

/// The multi-kill multiplier of one frame, exactly: `tenths / 10`, halved
/// `halvings` times.
#[derive(Clone, Copy, Debug, PartialEq, Eq, Structural)]
pub struct Multiplier {
    pub tenths: u64,
    pub halvings: u64,
}

pub open spec fn bloodbath_active(effects: Seq<(Abilities, i64)>) -> bool {
    exists|i: int| 0 <= i < effects.len() && (#[trigger] effects[i]).0 is BloodBath
}

pub open spec fn martyrdoms(effects: Seq<(Abilities, i64)>) -> nat {
    effects.filter(|e: (Abilities, i64)| e.0 is Martyrdom).len()
}

/// The multiplier for `killed` pieces taken in one frame: exactly one for a
/// single piece; otherwise one and a tenth per piece, doubled once while any
/// blood bath is active, and halved once for every martyrdom.
pub open spec fn multiplier_of(killed: int, effects: Seq<(Abilities, i64)>) -> Multiplier {
    if killed == 1 {
        Multiplier { tenths: 10, halvings: 0 }
    } else {
        Multiplier {
            tenths: ((10 + killed) * (if bloodbath_active(effects) {
                2int
            } else {
                1int
            })) as u64,
            halvings: martyrdoms(effects) as u64,
        }
    }
}

/// The score multiplier of a frame in which `killed` pieces were taken
/// (see `multiplier_of`).
pub fn score_multiplier(killed: u64, effects: &Vec<(Abilities, i64)>) -> (m: Multiplier)
    requires
        killed <= u64::MAX / 2 - 10,
    ensures
        m == multiplier_of(killed as int, effects@),
{
    let ghost is_m = |e: (Abilities, i64)| e.0 is Martyrdom;
    let mut bloodbath = false;
    let mut halvings: u64 = 0;
    let mut i: usize = 0;
    assert(effects@.take(0) =~= Seq::<(Abilities, i64)>::empty());
    while i < effects.len()
        invariant
            i <= effects@.len(),
            is_m == (|e: (Abilities, i64)| e.0 is Martyrdom),
            bloodbath == exists|k: int| 0 <= k < i && (#[trigger] effects@[k]).0 is BloodBath,
            halvings == effects@.take(i as int).filter(is_m).len(),
            halvings <= i,
        decreases effects@.len() - i,
    {
        let e = effects[i];
        proof {
            assert(effects@.take(i + 1) =~= effects@.take(i as int).push(e));
            effects@.take(i as int).lemma_filter_push(e, is_m);
        }
        match e.0 {
            Abilities::BloodBath => {
                bloodbath = true;
            },
            Abilities::Martyrdom => {
                halvings = halvings + 1;
            },
            _ => {},
        }
        i = i + 1;
    }
    assert(effects@.take(effects@.len() as int) =~= effects@);
    if killed == 1 {
        return Multiplier { tenths: 10, halvings: 0 };
    }
    let tenths = if bloodbath {
        (10 + killed) * 2
    } else {
        10 + killed
    };
    Multiplier { tenths, halvings }
}

fn same_moves(a: &Vec<Coord>, b: &Vec<Coord>) -> (r: bool)
    ensures
        r == (a@ == b@),
{
    if a.len() != b.len() {
        return false;
    }
    let mut i: usize = 0;
    while i < a.len()
        invariant
            i <= a@.len(),
            a@.len() == b@.len(),
            forall|k: int| 0 <= k < i ==> a@[k] == b@[k],
        decreases a@.len() - i,
    {
        if a[i] != b[i] {
            return false;
        }
        i = i + 1;
    }
    assert(a@ =~= b@);
    true
}

/// Whether two enemies stand on the same square as the same piece with the
/// same announced move.
pub fn same_enemy(a: &Enemy, b: &Enemy) -> (r: bool)
    ensures
        r == (a@ == b@),
{
    a.x == b.x && a.y == b.y && a.piece == b.piece && same_moves(&a.moves, &b.moves)
}

fn contains_enemy(v: &Vec<Enemy>, e: &Enemy) -> (r: bool)
    ensures
        r == enemy_views(v@).contains(e@),
{
    let mut i: usize = 0;
    while i < v.len()
        invariant
            i <= v@.len(),
            forall|k: int| 0 <= k < i ==> v@[k]@ != e@,
        decreases v@.len() - i,
    {
        if same_enemy(&v[i], e) {
            assert(enemy_views(v@)[i as int] == e@);
            return true;
        }
        i = i + 1;
    }
    assert forall|k: int| 0 <= k < enemy_views(v@).len() implies enemy_views(v@)[k] != e@ by {
        assert(v@[k]@ != e@);
    }
    false
}

/// The enemies of `v1` that are not in `v2`, in the order of `v1`: the
/// pieces an action took, given the enemies before and after it.
pub fn vect_difference(v1: &Vec<Enemy>, v2: &Vec<Enemy>) -> (d: Vec<Enemy>)
    ensures
        enemy_views(d@) == enemy_views(v1@).filter(|e: EnemyView| !enemy_views(v2@).contains(e)),
{
    let ghost keep = |e: EnemyView| !enemy_views(v2@).contains(e);
    let mut d: Vec<Enemy> = Vec::new();
    let mut i: usize = 0;
    assert(enemy_views(v1@).take(0) =~= Seq::<EnemyView>::empty());
    while i < v1.len()
        invariant
            i <= v1@.len(),
            enemy_views(d@) == enemy_views(v1@).take(i as int).filter(keep),
            keep == (|e: EnemyView| !enemy_views(v2@).contains(e)),
        decreases v1@.len() - i,
    {
        let ghost before = d@;
        proof {
            assert(enemy_views(v1@).take(i + 1) =~= enemy_views(v1@).take(i as int).push(v1@[i as int]@));
            enemy_views(v1@).take(i as int).lemma_filter_push(v1@[i as int]@, keep);
        }
        if !contains_enemy(v2, &v1[i]) {
            let e = v1[i].clone();
            d.push(e);
            assert(enemy_views(d@) =~= enemy_views(before).push(e@));
        }
        i = i + 1;
    }
    assert(enemy_views(v1@).take(v1@.len() as int) =~= enemy_views(v1@));
    d
}

pub open spec fn at_square(e: EnemyView, c: Coord) -> bool {
    e.x == c.x && e.y == c.y
}

/// What a move onto the target square takes: the first enemy standing
/// there, if any.
pub open spec fn first_at(es: Seq<EnemyView>, c: Coord) -> Option<EnemyView> {
    let taken = es.filter(|e: EnemyView| at_square(e, c));
    if taken.len() > 0 {
        Some(taken[0])
    } else {
        None
    }
}

/// The effects after a round went by: one round less for each.
pub open spec fn ticked(effects: Seq<(Abilities, i64)>) -> Seq<(Abilities, i64)> {
    effects.map_values(|e: (Abilities, i64)| (e.0, (e.1 - 1) as i64))
}

pub open spec fn still_active(effects: Seq<(Abilities, i64)>) -> Seq<(Abilities, i64)> {
    effects.filter(|e: (Abilities, i64)| e.1 > 0)
}

impl GameData {
    /// Takes the enemies standing on the player's square off the board.  The
    /// player gains the energy of the first one taken, the total capped at
    /// thirty when `cap` is set; the first one taken is returned.
    pub fn take_piece(&mut self, cap: bool) -> (taken: Option<Enemy>)
        requires
            old(self).wf(),
            old(self).player.energy <= i64::MAX - 5,
        ensures
            final(self).wf(),
            enemy_views(final(self).enemies@) == enemy_views(old(self).enemies@).filter(
                |e: EnemyView| !at_square(e, old(self).target()),
            ),
            match taken {
                Some(t) => first_at(enemy_views(old(self).enemies@), old(self).target()) == Some(t@),
                None => first_at(enemy_views(old(self).enemies@), old(self).target()) is None,
            },
            final(self).player.energy == match first_at(
                enemy_views(old(self).enemies@),
                old(self).target(),
            ) {
                Some(t) => if cap && old(self).player.energy + piece_energy_of(t.piece) >= 30 {
                    30
                } else {
                    old(self).player.energy + piece_energy_of(t.piece)
                },
                None => old(self).player.energy as int,
            },
            final(self).player.half_x == old(self).player.half_x,
            final(self).player.half_y == old(self).player.half_y,
            final(self).player.target_x == old(self).player.target_x,
            final(self).player.target_y == old(self).player.target_y,
            final(self).player.sub_round == old(self).player.sub_round,
            final(self).alive == old(self).alive,
            final(self).round == old(self).round,
            final(self).effects@ == old(self).effects@,
            final(self).sounds@ == old(self).sounds@,
            final(self).select_square == old(self).select_square,
    {
        let target = Coord { x: self.player.target_x, y: self.player.target_y };
        let ghost orig = enemy_views(self.enemies@);
        let mut flags: Vec<bool> = Vec::new();
        let mut first: Option<Enemy> = None;
        let mut i: usize = 0;
        let ghost at = |e: EnemyView| at_square(e, target);
        assert(orig.take(0) =~= Seq::<EnemyView>::empty());
        while i < self.enemies.len()
            invariant
                i <= self.enemies@.len(),
                orig == enemy_views(self.enemies@),
                target == old(self).target(),
                at == (|e: EnemyView| at_square(e, target)),
                flags@.len() == i,
                forall|k: int| 0 <= k < i ==> #[trigger] flags@[k] == at_square(self.enemies@[k]@, target),
                match first {
                    Some(t) => orig.take(i as int).filter(at).len() > 0 && orig.take(i as int).filter(at)[0] == t@,
                    None => orig.take(i as int).filter(at).len() == 0,
                },
            decreases self.enemies@.len() - i,
        {
            let hit = self.enemies[i].x == target.x && self.enemies[i].y == target.y;
            proof {
                assert(orig.take(i + 1) =~= orig.take(i as int).push(orig[i as int]));
                orig.take(i as int).lemma_filter_push(orig[i as int], at);
            }
            if hit && first.is_none() {
                first = Some(self.enemies[i].clone());
            }
            flags.push(hit);
            i = i + 1;
        }
        assert(orig.take(i as int) =~= orig);
        let ghost before = self.enemies@;
        remove_flagged(&mut self.enemies, &flags, Ghost(|e: EnemyView| !at_square(e, target)));
        proof {
            crate::ability::lemma_filter_keeps_limit(before, |e: EnemyView| !at_square(e, target), self.enemies@);
        }
        match &first {
            Some(t) => {
                self.player.energy = self.player.energy + piece_energy(t.piece);
                if cap && self.player.energy >= 30 {
                    self.player.energy = 30;
                }
            },
            None => {},
        }
        first
    }
}

fn clone_enemies(v: &Vec<Enemy>) -> (r: Vec<Enemy>)
    ensures
        enemy_views(r@) == enemy_views(v@),
{
    let mut r: Vec<Enemy> = Vec::new();
    let mut i: usize = 0;
    while i < v.len()
        invariant
            i <= v@.len(),
            enemy_views(r@) == enemy_views(v@).take(i as int),
        decreases v@.len() - i,
    {
        let e = v[i].clone();
        let ghost before = r@;
        r.push(e);
        assert(enemy_views(r@) =~= enemy_views(before).push(e@));
        assert(enemy_views(r@) =~= enemy_views(v@).take(i + 1));
        i = i + 1;
    }
    assert(enemy_views(v@).take(v@.len() as int) =~= enemy_views(v@));
    r
}

fn tick_effects(effects: &mut Vec<(Abilities, i64)>)
    requires
        forall|k: int| 0 <= k < old(effects)@.len() ==> (#[trigger] old(effects)@[k]).1 > i64::MIN,
    ensures
        final(effects)@ == ticked(old(effects)@),
{
    let ghost pre = old(effects)@;
    let mut i: usize = 0;
    while i < effects.len()
        invariant
            i <= effects@.len(),
            effects@.len() == pre.len(),
            forall|k: int| 0 <= k < pre.len() ==> (#[trigger] pre[k]).1 > i64::MIN,
            forall|k: int| 0 <= k < i ==> #[trigger] effects@[k] == (pre[k].0, (pre[k].1 - 1) as i64),
            forall|k: int| i <= k < effects@.len() ==> #[trigger] effects@[k] == pre[k],
        decreases effects@.len() - i,
    {
        let e = effects[i];
        effects.set(i, (e.0, e.1 - 1));
        i = i + 1;
    }
    assert(effects@ =~= ticked(pre));
}

fn drop_expired(effects: &mut Vec<(Abilities, i64)>)
    ensures
        final(effects)@ == still_active(old(effects)@),
{
    let ghost pre = old(effects)@;
    let ghost active = |e: (Abilities, i64)| e.1 > 0;
    let mut kept: Vec<(Abilities, i64)> = Vec::new();
    let mut i: usize = 0;
    assert(pre.take(0) =~= Seq::<(Abilities, i64)>::empty());
    while i < effects.len()
        invariant
            i <= effects@.len(),
            effects@ == pre,
            active == (|e: (Abilities, i64)| e.1 > 0),
            kept@ == pre.take(i as int).filter(active),
        decreases effects@.len() - i,
    {
        let e = effects[i];
        proof {
            assert(pre.take(i + 1) =~= pre.take(i as int).push(e));
            pre.take(i as int).lemma_filter_push(e, active);
        }
        if e.1 > 0 {
            kept.push(e);
        }
        i = i + 1;
    }
    assert(pre.take(pre.len() as int) =~= pre);
    *effects = kept;
}

/// The enemies, energy, life and effects at the end of a round, given the
/// random draws of the enemies' move and of the spawn: the enemies move,
/// new enemies are spawned, every effect loses a round and takes its turn,
/// and the effects with no rounds left end.  The last part is the pieces
/// the effects destroyed.
pub open spec fn round_end(
    pre: GameData,
    move_rolls: Seq<i64>,
    spawn_rolls: Seq<SpawnRoll>,
) -> (Seq<EnemyView>, int, bool, Seq<(Abilities, i64)>, Seq<EnemyView>) {
    let m = march(enemy_views(pre.enemies@), pre.target(), move_rolls, pre.enemies@.len() as nat);
    let spawned = m.0 + spawn_rolls.map_values(
        |r: SpawnRoll| spawned_enemy(pre.round, r, spawn_rolls.len() as int),
    );
    let s = apply_effects((pre.player.energy as int, pre.alive && !m.2, spawned), ticked(pre.effects@));
    (s.2, s.0, s.1, still_active(ticked(pre.effects@)), spawned.filter(|e: EnemyView| !s.2.contains(e)))
}

/// What the player's move on the board does (see `make_move`): the move
/// is counted, the piece on the king's square, if any, is taken, the energy
/// capped at thirty, and after the third move of a round the round counter
/// goes up and the move count starts again.
pub open spec fn moved(pre: GameData, post: GameData, r: (Option<Enemy>, bool)) -> bool {
    let taken = first_at(enemy_views(pre.enemies@), pre.target());
    &&& r.1 == (pre.player.sub_round + 1 >= 3)
    &&& post.player.sub_round == (if r.1 {
        0
    } else {
        pre.player.sub_round + 1
    })
    &&& post.round == (if r.1 {
        pre.round + 1
    } else {
        pre.round as int
    })
    &&& enemy_views(post.enemies@) == enemy_views(pre.enemies@).filter(
        |e: EnemyView| !at_square(e, pre.target()),
    )
    &&& match r.0 {
        Some(t) => taken == Some(t@),
        None => taken is None,
    }
    &&& post.player.energy == match taken {
        Some(t) => if pre.player.energy + piece_energy_of(t.piece) >= 30 {
            30
        } else {
            pre.player.energy + piece_energy_of(t.piece)
        },
        None => pre.player.energy as int,
    }
    &&& post.player.half_x == pre.player.half_x
    &&& post.player.half_y == pre.player.half_y
    &&& post.player.target_x == pre.player.target_x
    &&& post.player.target_y == pre.player.target_y
    &&& post.alive == pre.alive
    &&& post.effects@ == pre.effects@
    &&& post.sounds@ == pre.sounds@
    &&& post.select_square == pre.select_square
}

impl GameData {
    /// The player's move on the board: the move is counted, the piece on
    /// the king's square, if any, is taken (see `take_piece`, the energy
    /// capped at thirty), and after the third move of a round the round
    /// counter goes up and the move count starts again.  Returns the piece
    /// taken and whether the round is over, after which `finish_round` lets
    /// the enemies and effects take their turn.
    pub fn make_move(&mut self) -> (r: (Option<Enemy>, bool))
        requires
            old(self).wf(),
            old(self).player.sub_round < 255,
            old(self).round < u64::MAX,
            old(self).player.energy <= i64::MAX - 5,
        ensures
            final(self).wf(),
            moved(*old(self), *final(self), r),
    {
        self.player.sub_round = self.player.sub_round + 1;
        let taken = self.take_piece(true);
        let mut over = false;
        if self.player.sub_round >= 3 {
            self.player.sub_round = 0;
            self.round = self.round + 1;
            over = true;
        }
        (taken, over)
    }

    /// The rest of a round once the player's third move is made (see
    /// `round_end`); `difficulty_ceil` is the difficulty of the new round
    /// rounded up.  The result holds for some random draws of the enemies'
    /// move and of the spawn, and the pieces destroyed by the effects are
    /// returned.
    pub fn finish_round(&mut self, difficulty_ceil: i64) -> (killed: Vec<Enemy>)
        requires
            old(self).wf(),
            i64::MIN + 5 <= difficulty_ceil < i64::MAX,
            old(self).player.energy <= i64::MAX - 10,
            forall|k: int| 0 <= k < old(self).effects@.len() ==> (#[trigger] old(self).effects@[k]).1 > i64::MIN,
        ensures
            final(self).wf(),
            exists|move_rolls: Seq<i64>, spawn_rolls: Seq<SpawnRoll>|
                #![trigger round_end(*old(self), move_rolls, spawn_rolls)]
                {
                    let out = round_end(*old(self), move_rolls, spawn_rolls);
                    &&& move_rolls.len() == old(self).enemies@.len()
                    &&& forall|i: int| 0 <= i < move_rolls.len() ==> 2 <= #[trigger] move_rolls[i] < 8
                    &&& spawn_rolls.len() == spawn_count_of(old(self).effects@, false, difficulty_ceil as int)
                    &&& forall|i: int| 0 <= i < spawn_rolls.len() ==> roll_valid(#[trigger] spawn_rolls[i])
                    &&& enemy_views(final(self).enemies@) == out.0
                    &&& final(self).player.energy == out.1
                    &&& final(self).alive == out.2
                    &&& final(self).effects@ == out.3
                    &&& enemy_views(killed@) == out.4
                },
            final(self).player.half_x == old(self).player.half_x,
            final(self).player.half_y == old(self).player.half_y,
            final(self).player.target_x == old(self).player.target_x,
            final(self).player.target_y == old(self).player.target_y,
            final(self).player.sub_round == old(self).player.sub_round,
            final(self).round == old(self).round,
            final(self).sounds@ == old(self).sounds@,
            final(self).select_square == old(self).select_square,
    {
        let ghost pre = *old(self);
        self.enemy_move();
        let ghost after_move = *self;
        let ghost mr = choose|rolls: Seq<i64>|
            {
                &&& rolls.len() == pre.enemies@.len()
                &&& forall|i: int| 0 <= i < rolls.len() ==> 2 <= #[trigger] rolls[i] < 8
                &&& enemy_views(after_move.enemies@) == march(
                    enemy_views(pre.enemies@),
                    pre.target(),
                    rolls,
                    pre.enemies@.len() as nat,
                ).0
                &&& after_move.alive == (pre.alive && !march(
                    enemy_views(pre.enemies@),
                    pre.target(),
                    rolls,
                    pre.enemies@.len() as nat,
                ).2)
            };
        self.spawn_enemy(false, difficulty_ceil);
        let ghost after_spawn = *self;
        let ghost sr = choose|rolls: Seq<SpawnRoll>|
            {
                &&& rolls.len() == spawn_count_of(after_move.effects@, false, difficulty_ceil as int)
                &&& forall|i: int| 0 <= i < rolls.len() ==> roll_valid(#[trigger] rolls[i])
                &&& enemy_views(after_spawn.enemies@) == enemy_views(after_move.enemies@)
                    + rolls.map_values(
                    |r: SpawnRoll| spawned_enemy(after_move.round, r, rolls.len() as int),
                )
            };
        tick_effects(&mut self.effects);
        proof {
            assert forall|i: int| 0 <= i < self.effects@.len() implies match (
            #[trigger] self.effects@[i]).0 {
                Abilities::Airstrike(b) => forall|k: int| 0 <= k < 5 ==> coord_in_limit(#[trigger] b[k]),
                _ => true,
            } by {
                assert(self.effects@[i].0 == after_spawn.effects@[i].0);
            }
        }
        let start = clone_enemies(&self.enemies);
        trigger_effects(self);
        let killed = vect_difference(&start, &self.enemies);
        let ghost before_drop = self.effects@;
        drop_expired(&mut self.effects);
        proof {
            assert forall|i: int| 0 <= i < self.effects@.len() implies match (
            #[trigger] self.effects@[i]).0 {
                Abilities::Airstrike(b) => forall|k: int| 0 <= k < 5 ==> coord_in_limit(#[trigger] b[k]),
                _ => true,
            } by {
                let x = self.effects@[i];
                before_drop.lemma_filter_contains_rev(|e: (Abilities, i64)| e.1 > 0, x);
                let j = choose|j: int| 0 <= j < before_drop.len() && before_drop[j] == x;
                assert(before_drop[j] == x);
            }
        }
        assert({
            let out = round_end(pre, mr, sr);
            &&& enemy_views(self.enemies@) == out.0
            &&& self.player.energy == out.1
            &&& self.alive == out.2
            &&& self.effects@ == out.3
            &&& enemy_views(killed@) == out.4
        });
        killed
    }
}

impl GameData {
    /// A taken king that still splits comes back as a king with one split
    /// less on the square `(x, y)`, announcing that it stays there.
    pub fn split_king(&mut self, level: i64, x: i64, y: i64)
        requires
            old(self).wf(),
            in_limit(x as int),
            in_limit(y as int),
            level > i64::MIN,
        ensures
            final(self).wf(),
            enemy_views(final(self).enemies@) == enemy_views(old(self).enemies@).push(
                EnemyView {
                    x,
                    y,
                    piece: Piece::King((level - 1) as i64),
                    moves: seq![Coord { x, y }, Coord { x, y }],
                },
            ),
            final(self).player == old(self).player,
            final(self).alive == old(self).alive,
            final(self).round == old(self).round,
            final(self).effects@ == old(self).effects@,
            final(self).sounds@ == old(self).sounds@,
            final(self).select_square == old(self).select_square,
    {
        let mut moves: Vec<Coord> = Vec::new();
        moves.push(Coord { x, y });
        moves.push(Coord { x, y });
        let e = Enemy { x, y, piece: Piece::King(level - 1), moves };
        let ghost before = self.enemies@;
        self.enemies.push(e);
        assert(e@.moves =~= seq![Coord { x, y }, Coord { x, y }]);
        assert(enemy_views(self.enemies@) =~= enemy_views(before).push(e@));
    }
}

/// The game with the player moved by the movement keys of a frame.
pub open spec fn keyed(pre: GameData, left: bool, right: bool, up: bool, down: bool) -> GameData {
    GameData { player: after_keys(pre.player, left, right, up, down), ..pre }
}

/// Whether a frame makes a move: a movement key was pressed, or the king
/// still has a move owed from an ability (a move count above three).
pub open spec fn move_due(pressed: bool, sub_round: u8) -> bool {
    pressed || sub_round > 3
}

impl GameData {
    /// The player's part of a frame on the board: the movement keys move
    /// the king's square (see `player_movement`), and when a move is due
    /// (see `move_due`) it is made (see `make_move`), whose result is
    /// returned.
    pub fn player_turn(&mut self, left: bool, right: bool, up: bool, down: bool) -> (r: Option<(Option<Enemy>, bool)>)
        requires
            old(self).wf(),
            old(self).player.sub_round < 255,
            old(self).round < u64::MAX,
            old(self).player.energy <= i64::MAX - 5,
        ensures
            final(self).wf(),
            r is Some == move_due(left || right || up || down, old(self).player.sub_round),
            match r {
                Some(m) => moved(keyed(*old(self), left, right, up, down), *final(self), m),
                None => *final(self) == keyed(*old(self), left, right, up, down),
            },
    {
        let pressed = player_movement(&mut self.player, left, right, up, down);
        if pressed || self.player.sub_round > 3 {
            Some(self.make_move())
        } else {
            None
        }
    }

    /// Brings the energy down to thirty when it is above.
    pub fn cap_energy(&mut self)
        ensures
            final(self).player.energy == (if old(self).player.energy > 30 {
                30
            } else {
                old(self).player.energy
            }),
            *final(self) == (GameData {
                player: crate::player::Player { energy: final(self).player.energy, ..old(self).player },
                ..*old(self)
            }),
    {
        if self.player.energy > 30 {
            self.player.energy = 30;
        }
    }
}

} // verus!
