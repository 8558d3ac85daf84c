use vstd::prelude::*;

verus! {

/// Largest distance from the board's corner that a coordinate of the model may
/// take.  Pieces are spawned at most 160 squares off the board, so this bound
/// only rules out values that no game reaches; it keeps every sum below the
/// limits of `i64`.
pub const COORD_LIMIT: i64 = 1_000_000;

/// A square of the board, column `x` and row `y`; the board itself spans
/// `0..=15` in both directions.  The same pair is used, with its unit stated
/// where it differs, for points measured in tenths of a square.
#[derive(Clone, Copy, Debug, PartialEq, Eq, Structural)]
pub struct Coord {
    pub x: i64,
    pub y: i64,
}

/// The kind of an enemy piece.  A king carries the number of times it still
/// splits in two when it is taken.
#[derive(Clone, Copy, Debug, PartialEq, Eq, Structural)]
pub enum Piece {
    Pawn,
    Knight,
    Rook,
    Bishop,
    Queen,
    King(i64),
}

/// An enemy piece: where it stands and the squares of its announced move,
/// the first of which is the square it starts from.
#[derive(Debug)]
pub struct Enemy {
    pub x: i64,
    pub y: i64,
    pub piece: Piece,
    pub moves: Vec<Coord>,
}

impl Clone for Enemy {
    fn clone(&self) -> (e: Self)
        ensures
            e@ == self@,
    {
        let moves = self.moves.clone();
        assert(moves@ =~= self.moves@);
        Enemy { x: self.x, y: self.y, piece: self.piece, moves }
    }
}

/// What an enemy is, with its move list as a sequence.
pub struct EnemyView {
    pub x: i64,
    pub y: i64,
    pub piece: Piece,
    pub moves: Seq<Coord>,
}

impl View for Enemy {
    type V = EnemyView;

    open spec fn view(&self) -> EnemyView {
        EnemyView { x: self.x, y: self.y, piece: self.piece, moves: self.moves@ }
    }
}

pub open spec fn enemy_views(es: Seq<Enemy>) -> Seq<EnemyView> {
    es.map_values(|e: Enemy| e@)
}

pub open spec fn in_limit(v: int) -> bool {
    -COORD_LIMIT <= v <= COORD_LIMIT
}

pub open spec fn coord_in_limit(c: Coord) -> bool {
    in_limit(c.x as int) && in_limit(c.y as int)
}

pub open spec fn on_board(c: Coord) -> bool {
    0 <= c.x <= 15 && 0 <= c.y <= 15
}

pub open spec fn abs(v: int) -> int {
    if v < 0 {
        -v
    } else {
        v
    }
}

/// One square towards a signed distance: back for a negative one, forward
/// otherwise.
pub open spec fn step(d: int) -> int {
    if d < 0 {
        -1
    } else {
        1
    }
}

/// `n` squares in a straight line from `(x, y)`, the first being `(x, y)`
/// itself, each `(dx, dy)` from the one before.
pub open spec fn ray(x: int, y: int, dx: int, dy: int, n: int) -> Seq<Coord> {
    Seq::new(n as nat, |e: int| Coord { x: (x + dx * e) as i64, y: (y + dy * e) as i64 })
}

/// A line of `n` squares along the larger of the two distances to the target,
/// along the vertical one when they are equal.
pub open spec fn axis_ray(x: int, y: int, xd: int, yd: int, n: int) -> Seq<Coord> {
    if abs(xd) > abs(yd) {
        ray(x, y, step(xd), 0, n)
    } else {
        ray(x, y, 0, step(yd), n)
    }
}

/// The straight move of a rook: up to the target's column or row, along the
/// larger distance.
pub open spec fn rook_ray(x: int, y: int, xd: int, yd: int) -> Seq<Coord> {
    if abs(xd) > abs(yd) {
        ray(x, y, step(xd), 0, abs(xd) + 1)
    } else {
        ray(x, y, 0, step(yd), abs(yd) + 1)
    }
}

/// The diagonal move of a bishop or queen: towards the target's quadrant,
/// `|yd| + roll` squares long, the piece's own square included.
pub open spec fn diagonal_ray(x: int, y: int, xd: int, yd: int, roll: int) -> Seq<Coord> {
    ray(x, y, step(xd), step(yd), abs(yd) + roll)
}

/// The line a piece at `(x, y)` announces when the player's king is headed
/// for `(tx, ty)`, before squares off the board are dropped.  `roll` is the
/// random extra length of a diagonal move.
pub open spec fn raw_plan(piece: Piece, x: int, y: int, tx: int, ty: int, roll: int) -> Seq<Coord> {
    let xd = tx - x;
    let yd = ty - y;
    match piece {
        Piece::Pawn => axis_ray(x, y, xd, yd, 2),
        Piece::King(_) => axis_ray(x, y, xd, yd, 2),
        Piece::Knight => axis_ray(x, y, xd, yd, 3),
        Piece::Rook => rook_ray(x, y, xd, yd),
        Piece::Bishop => diagonal_ray(x, y, xd, yd, roll),
        Piece::Queen => if abs(yd) == abs(xd) {
            diagonal_ray(x, y, xd, yd, roll)
        } else {
            rook_ray(x, y, xd, yd)
        },
    }
}

pub open spec fn keep_on_board(s: Seq<Coord>) -> Seq<Coord> {
    s.filter(|c: Coord| on_board(c))
}

/// The sidestep a knight adds at the end of its straight run: one square
/// across the run, towards the target.
pub open spec fn knight_hook(last: Coord, x: int, y: int, xd: int, yd: int) -> Coord {
    if abs(xd) > abs(yd) {
        Coord { x: last.x, y: (y + step(yd)) as i64 }
    } else {
        Coord { x: (x + step(xd)) as i64, y: last.y }
    }
}

/// The move a piece announces: its line with the squares off the board
/// dropped, and for a knight that keeps at least one square, the sidestep.
pub open spec fn planned_moves(piece: Piece, x: int, y: int, tx: int, ty: int, roll: int) -> Seq<
    Coord,
> {
    let kept = keep_on_board(raw_plan(piece, x, y, tx, ty, roll));
    if piece is Knight && kept.len() > 0 {
        kept.push(knight_hook(kept.last(), x, y, tx - x, ty - y))
    } else {
        kept
    }
}

/// Whether a square cannot end a move while `j` is taken: it is `j`, or it
/// is off the board.
pub open spec fn blocked(c: Coord, j: Coord) -> bool {
    c == j || !on_board(c)
}

/// Drops squares from the end of a move for as long as the last one is
/// blocked by `j`.
pub open spec fn settle_one(m: Seq<Coord>, j: Coord) -> Seq<Coord>
    decreases m.len(),
{
    if m.len() > 0 && blocked(m.last(), j) {
        settle_one(m.drop_last(), j)
    } else {
        m
    }
}

/// A move cut back against each taken square in turn, in the order they
/// were taken.
pub open spec fn settle(m: Seq<Coord>, filled: Seq<Coord>) -> Seq<Coord>
    decreases filled.len(),
{
    if filled.len() == 0 {
        m
    } else {
        settle_one(settle(m, filled.drop_last()), filled.last())
    }
}

pub proof fn lemma_settle_one_is_prefix(m: Seq<Coord>, j: Coord)
    ensures
        settle_one(m, j).len() <= m.len(),
        settle_one(m, j) == m.take(settle_one(m, j).len() as int),
    decreases m.len(),
{
    if m.len() > 0 && blocked(m.last(), j) {
        lemma_settle_one_is_prefix(m.drop_last(), j);
        assert(m.drop_last().take(settle_one(m, j).len() as int) =~= m.take(
            settle_one(m, j).len() as int,
        ));
    } else {
        assert(m.take(m.len() as int) =~= m);
    }
}

/// Squares `e * (dx, dy)` from `(x, y)` for `e` in `0..n`, those on the board.
fn board_ray(x: i64, y: i64, dx: i64, dy: i64, n: i64) -> (r: Vec<Coord>)
    requires
        in_limit(x as int),
        in_limit(y as int),
        -1 <= dx <= 1,
        -1 <= dy <= 1,
        0 <= n <= 3 * COORD_LIMIT,
    ensures
        r@ == keep_on_board(ray(x as int, y as int, dx as int, dy as int, n as int)),
{
    let mut r: Vec<Coord> = Vec::new();
    let mut e: i64 = 0;
    while e < n
        invariant
            0 <= e <= n,
            n <= 3 * COORD_LIMIT,
            in_limit(x as int),
            in_limit(y as int),
            -1 <= dx <= 1,
            -1 <= dy <= 1,
            r@ == keep_on_board(ray(x as int, y as int, dx as int, dy as int, e as int)),
        decreases n - e,
    {
        let c = Coord { x: x + scaled(dx, e), y: y + scaled(dy, e) };
        proof {
            let before = ray(x as int, y as int, dx as int, dy as int, e as int);
            let after = ray(x as int, y as int, dx as int, dy as int, e + 1);
            assert(after =~= before.push(c));
            before.lemma_filter_push(c, |c: Coord| on_board(c));
        }
        if 0 <= c.x && c.x <= 15 && 0 <= c.y && c.y <= 15 {
            r.push(c);
        }
        e = e + 1;
    }
    r
}

/// `d * e` for a unit direction `d`.
fn scaled(d: i64, e: i64) -> (r: i64)
    requires
        -1 <= d <= 1,
        0 <= e <= 3 * COORD_LIMIT,
    ensures
        r == d * e,
        -3 * COORD_LIMIT <= r <= 3 * COORD_LIMIT,
{
    if d < 0 {
        assert(d * e == -e) by (nonlinear_arith)
            requires
                d == -1,
        ;
        -e
    } else if d > 0 {
        assert(d * e == e) by (nonlinear_arith)
            requires
                d == 1,
        ;
        e
    } else {
        assert(d * e == 0) by (nonlinear_arith)
            requires
                d == 0,
        ;
        0
    }
}

fn sign_step(d: i64) -> (s: i64)
    ensures
        s == step(d as int),
{
    if d < 0 {
        -1
    } else {
        1
    }
}

fn abs_i64(d: i64) -> (a: i64)
    requires
        -2 * COORD_LIMIT <= d <= 2 * COORD_LIMIT,
    ensures
        a == abs(d as int),
{
    if d < 0 {
        -d
    } else {
        d
    }
}

/// The move announced by a `piece` standing on `(x, y)` while the player's
/// king is headed for `target`; `roll`, drawn from `2..8`, lengthens a
/// diagonal move.
pub fn plan_moves(piece: Piece, x: i64, y: i64, target: Coord, roll: i64) -> (moves: Vec<Coord>)
    requires
        in_limit(x as int),
        in_limit(y as int),
        coord_in_limit(target),
        2 <= roll < 8,
    ensures
        moves@ == planned_moves(piece, x as int, y as int, target.x as int, target.y as int, roll as int),
{
    let xd = target.x - x;
    let yd = target.y - y;
    let axd = abs_i64(xd);
    let ayd = abs_i64(yd);
    let sx = sign_step(xd);
    let sy = sign_step(yd);
    let horizontal = axd > ayd;
    let mut kept = match piece {
        Piece::Pawn | Piece::King(_) => if horizontal {
            board_ray(x, y, sx, 0, 2)
        } else {
            board_ray(x, y, 0, sy, 2)
        },
        Piece::Knight => if horizontal {
            board_ray(x, y, sx, 0, 3)
        } else {
            board_ray(x, y, 0, sy, 3)
        },
        Piece::Rook => if horizontal {
            board_ray(x, y, sx, 0, axd + 1)
        } else {
            board_ray(x, y, 0, sy, ayd + 1)
        },
        Piece::Bishop => board_ray(x, y, sx, sy, ayd + roll),
        Piece::Queen => if ayd == axd {
            board_ray(x, y, sx, sy, ayd + roll)
        } else if horizontal {
            board_ray(x, y, sx, 0, axd + 1)
        } else {
            board_ray(x, y, 0, sy, ayd + 1)
        },
    };
    if let Piece::Knight = piece {
        if kept.len() > 0 {
            let last = kept[kept.len() - 1];
            let hook = if horizontal {
                Coord { x: last.x, y: y + sy }
            } else {
                Coord { x: x + sx, y: last.y }
            };
            kept.push(hook);
        }
    }
    kept
}

/// How many squares of `moves` are left once the move is cut back against
/// each square of `filled` in turn (see `settle`).
pub fn settled_len(moves: &Vec<Coord>, filled: &Vec<Coord>) -> (k: usize)
    ensures
        k <= moves@.len(),
        moves@.take(k as int) == settle(moves@, filled@),
{
    let mut k: usize = moves.len();
    let mut i: usize = 0;
    assert(moves@.take(k as int) =~= moves@);
    assert(filled@.take(0) =~= Seq::<Coord>::empty());
    while i < filled.len()
        invariant
            i <= filled@.len(),
            k <= moves@.len(),
            moves@.take(k as int) == settle(moves@, filled@.take(i as int)),
        decreases filled@.len() - i,
    {
        let j = filled[i];
        let ghost start = k;
        proof {
            lemma_settle_one_is_prefix(moves@.take(start as int), j);
        }
        while k > 0 && (moves[k - 1] == j || !(0 <= moves[k - 1].x && moves[k - 1].x <= 15 && 0
            <= moves[k - 1].y && moves[k - 1].y <= 15))
            invariant
                k <= start <= moves@.len(),
                settle_one(moves@.take(start as int), j) == settle_one(moves@.take(k as int), j),
            decreases k,
        {
            assert(moves@.take(k as int).drop_last() =~= moves@.take(k - 1));
            k = k - 1;
        }
        assert(filled@.take(i + 1).drop_last() =~= filled@.take(i as int));
        i = i + 1;
    }
    assert(filled@.take(filled@.len() as int) =~= filled@);
    k
}

/// Filtering twice keeps what both predicates keep.
pub proof fn lemma_filter_filter<A>(s: Seq<A>, p: spec_fn(A) -> bool, q: spec_fn(A) -> bool)
    ensures
        s.filter(p).filter(q) == s.filter(|a: A| p(a) && q(a)),
    decreases s.len(),
{
    reveal(Seq::filter);
    if s.len() > 0 {
        lemma_filter_filter(s.drop_last(), p, q);
        let last = s.last();
        if p(last) {
            s.drop_last().filter(p).lemma_filter_push(last, q);
        }
    }
}

/// Removes, in place and keeping the order of the rest, the enemies whose
/// flag is set; the flags mark exactly the enemies that `keep` rejects.
pub(crate) fn remove_flagged(
    v: &mut Vec<Enemy>,
    flags: &Vec<bool>,
    Ghost(keep): Ghost<spec_fn(EnemyView) -> bool>,
)
    requires
        flags@.len() == old(v)@.len(),
        forall|i: int| 0 <= i < flags@.len() ==> #[trigger] flags@[i] == !keep(old(v)@[i]@),
    ensures
        enemy_views(final(v)@) == enemy_views(old(v)@).filter(keep),
{
    let ghost orig = enemy_views(old(v)@);
    let ghost orig_raw = old(v)@;
    let mut i: usize = 0;
    let mut j: usize = 0;
    assert(orig.take(0) =~= Seq::<EnemyView>::empty());
    assert(enemy_views(v@).take(0) =~= Seq::<EnemyView>::empty());
    assert(v@.skip(0) =~= orig_raw.skip(0));
    while j < flags.len()
        invariant
            i <= j <= flags@.len(),
            flags@.len() == orig.len(),
            orig == enemy_views(orig_raw),
            orig_raw == old(v)@,
            forall|k: int| 0 <= k < flags@.len() ==> #[trigger] flags@[k] == !keep(orig_raw[k]@),
            v@.len() == i + (orig.len() - j),
            enemy_views(v@).take(i as int) == orig.take(j as int).filter(keep),
            v@.skip(i as int) == orig_raw.skip(j as int),
        decreases flags@.len() - j,
    {
        let ghost before = v@;
        assert(before[i as int] == orig_raw[j as int]) by {
            assert(before.skip(i as int)[0] == orig_raw.skip(j as int)[0]);
        }
        assert(before.skip(i + 1) =~= orig_raw.skip(j + 1)) by {
            assert forall|k: int| 0 <= k < before.skip(i + 1).len() implies #[trigger] before.skip(i + 1)[k]
                == orig_raw.skip(j + 1)[k] by {
                assert(before.skip(i as int)[k + 1] == orig_raw.skip(j as int)[k + 1]);
            }
        }
        assert(orig.take(j + 1) =~= orig.take(j as int).push(orig[j as int]));
        proof {
            orig.take(j as int).lemma_filter_push(orig[j as int], keep);
        }
        if flags[j] {
            v.remove(i);
            assert(enemy_views(v@).take(i as int) =~= enemy_views(before).take(i as int));
            assert(v@.skip(i as int) =~= before.skip(i + 1));
        } else {
            assert(enemy_views(v@).take(i + 1) =~= enemy_views(before).take(i as int).push(
                before[i as int]@,
            ));
            i = i + 1;
        }
        j = j + 1;
    }
    assert(orig.take(j as int) =~= orig);
    assert(enemy_views(v@).take(i as int) =~= enemy_views(v@));
}

} // verus!
