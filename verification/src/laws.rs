use vstd::prelude::*;
use crate::board::{
    abs, enemy_views, keep_on_board, lemma_settle_one_is_prefix, on_board, planned_moves, raw_plan,
    settle, Coord, EnemyView, Piece,
};
use crate::ability::{
    ability_name, activated, ability_cost, apply_effect, apply_effects, clear_of_strikes, targeted,
    laser_inside, laser_point, laser_run, survives_laser,
    Abilities, TargetOutcome,
};
use crate::game_data::{
    has_peaceful, lemma_march_filled, lemma_settle_on_board, spawn_piece, march, march_step, roll_valid, spawn_count_of, spawn_square, spawned_enemy,
    GameData, SpawnRoll,
};
use crate::turn::{bloodbath_active, martyrdoms, multiplier_of, round_end, still_active, ticked};
use crate::player::{nudge, slide};
use crate::text::{
    description_cut, description_lines, help_cut, help_lines, help_wraps, other_than, sep_at,
    space_cut, split_from, split_parts, without_char,
};
use crate::keys::{known_keys, lemma_known_keys_plain, plain_name};
use crate::home::{
    kind_index,
    ability_key_part, bound_ability_key, bound_key, key_for, key_list_text, key_lists_complete,
    saved_bindings, UserData,
};

verus! {

/// A key press never moves the king's square off the board: from a square
/// on the board, each coordinate nudged stays within `0..=15` and moves by
/// at most one.
pub proof fn law_move_stays_on_board(v: int, back: bool)
    requires
        0 <= v <= 15,
    ensures
        0 <= nudge(v, back) <= 15,
        abs(nudge(v, back) - v) <= 1,
{
}

/// The drawn king closes in on its square: each frame takes half a square
/// off the distance until it is there, and then it stays.
pub proof fn law_slide_closes_in(from: int, to: int)
    ensures
        abs(slide(from, to) - to) == (if abs(from - to) > 0 {
            abs(from - to) - 1
        } else {
            0
        }),
{
}

/// Every square of an announced move is on the board, except the sidestep
/// a knight adds at its end.
pub proof fn law_planned_moves_on_board(piece: Piece, x: int, y: int, tx: int, ty: int, roll: int)
    ensures
        forall|i: int|
            0 <= i < planned_moves(piece, x, y, tx, ty, roll).len() && !(piece is Knight && i
                == planned_moves(piece, x, y, tx, ty, roll).len() - 1) ==> on_board(
                #[trigger] planned_moves(piece, x, y, tx, ty, roll)[i],
            ),
{
    let raw = raw_plan(piece, x, y, tx, ty, roll);
    let kept = keep_on_board(raw);
    assert forall|i: int| 0 <= i < kept.len() implies on_board(#[trigger] kept[i]) by {
        raw.lemma_filter_pred(|c: Coord| on_board(c), i);
    }
}

/// The two lines of an ability description hold the whole description, in
/// order, and the first has at most sixty characters.
pub proof fn law_description_lines_keep_text(d: Seq<char>)
    ensures
        description_lines(d).0 + description_lines(d).1 == d,
        description_lines(d).0.len() <= 60,
{
    if d.len() > 60 {
        lemma_cut(d, 60);
        let c = description_cut(d, 60);
        assert(d.take(c) + d.skip(c) =~= d);
    } else {
        assert(d + Seq::<char>::empty() =~= d);
    }
}

proof fn lemma_cut(d: Seq<char>, k: int)
    requires
        52 <= k <= d.len(),
    ensures
        52 <= description_cut(d, k) <= k,
    decreases k,
{
    if k >= 53 && d[k - 1] != ' ' {
        lemma_cut(d, k - 1);
    }
}

proof fn lemma_space_cut(rem: Seq<char>, k: int)
    requires
        k <= rem.len(),
    ensures
        0 <= space_cut(rem, k) <= (if k < 0 { 0 } else { k }),
        space_cut(rem, k) > 0 ==> rem[space_cut(rem, k) - 1] == ' ',
    decreases k,
{
    if k > 0 && rem[k - 1] != ' ' {
        lemma_space_cut(rem, k - 1);
    }
}

/// Wrapping a help text loses and adds nothing: its lines, put back
/// together, are the text; every line but the last has at most fifty
/// characters and ends in a space.
pub proof fn law_help_lines_keep_text(rem: Seq<char>, i: int)
    requires
        help_wraps(rem, i),
        i >= 0,
    ensures
        help_lines(rem, i).flatten() == rem,
        forall|j: int|
            0 <= j < help_lines(rem, i).len() - 1 ==> (#[trigger] help_lines(rem, i)[j]).len() <= 50
                && help_lines(rem, i)[j].len() > 0 && help_lines(rem, i)[j].last() == ' ',
    decreases 30 - i,
{
    let lines = help_lines(rem, i);
    if i >= 30 {
        assert(lines.drop_first() =~= Seq::<Seq<char>>::empty());
        assert(lines.drop_first().flatten() =~= Seq::<char>::empty());
        assert(lines.flatten() =~= rem);
    } else {
        let k = help_cut(rem);
        let lim = if rem.len() < 50 { rem.len() as int } else { 50 };
        lemma_space_cut(rem, lim);
        let rest = rem.skip(k);
        if rest.len() <= 50 {
            assert(lines.drop_first().drop_first() =~= Seq::<Seq<char>>::empty());
            assert(lines.drop_first().drop_first().flatten() =~= Seq::<char>::empty());
            assert(lines.drop_first().flatten() =~= rest);
            assert(rem.take(k) + rest =~= rem);
        } else {
            law_help_lines_keep_text(rest, i + 1);
            assert(lines.drop_first() =~= help_lines(rest, i + 1));
            assert(rem.take(k) + rest =~= rem);
            assert forall|j: int|
                0 <= j < lines.len() - 1 implies (#[trigger] lines[j]).len() <= 50 && lines[j].len()
                > 0 && lines[j].last() == ' ' by {
                if j > 0 {
                    assert(lines[j] == help_lines(rest, i + 1)[j - 1]);
                }
            }
        }
    }
}

proof fn lemma_split_skip(s: Seq<char>, start: int, i: int, j: int)
    requires
        0 <= i <= j <= s.len(),
        forall|k: int| i <= k < j ==> s[k] != ',',
    ensures
        split_from(s, start, i) == split_from(s, start, j),
    decreases j - i,
{
    if i < j {
        assert(!sep_at(s, i));
        lemma_split_skip(s, start, i + 1, j);
    }
}

proof fn lemma_split_shift(x: Seq<char>, y: Seq<char>, st: int, i: int)
    requires
        0 <= st <= i <= y.len(),
    ensures
        split_from(x + y, x.len() + st, x.len() + i) == split_from(y, st, i),
    decreases y.len() - i,
{
    let s = x + y;
    let n = x.len() as int;
    if i >= y.len() {
        assert(s.subrange(n + st, s.len() as int) =~= y.subrange(st, y.len() as int));
    } else {
        assert(sep_at(s, n + i) == sep_at(y, i));
        if sep_at(y, i) {
            assert(s.subrange(n + st, n + i) =~= y.subrange(st, i));
            lemma_split_shift(x, y, i + 2, i + 2);
        } else {
            lemma_split_shift(x, y, st, i + 1);
        }
    }
}

pub open spec fn no_char(s: Seq<char>, c: char) -> bool {
    forall|k: int| 0 <= k < s.len() ==> s[k] != c
}

proof fn lemma_split_none(a: Seq<char>)
    requires
        no_char(a, ','),
    ensures
        split_parts(a) == seq![a],
{
    lemma_split_skip(a, 0, 0, a.len() as int);
    assert(a.subrange(0, a.len() as int) =~= a);
}

proof fn lemma_split_first(a: Seq<char>, b: Seq<char>)
    requires
        no_char(a, ','),
    ensures
        split_parts(a + ", "@ + b) == seq![a] + split_parts(b),
{
    reveal_strlit(", ");
    let s = a + ", "@ + b;
    let n = a.len() as int;
    assert forall|k: int| 0 <= k < n implies s[k] != ',' by {
        assert(s[k] == a[k]);
    }
    lemma_split_skip(s, 0, 0, n);
    assert(sep_at(s, n));
    assert(s.subrange(0, n) =~= a);
    assert(s =~= (a + ", "@) + b);
    lemma_split_shift(a + ", "@, b, 0, 0);
}

proof fn lemma_filter_keeps(s: Seq<char>, c: char)
    requires
        no_char(s, c),
    ensures
        without_char(s, c) == s,
    decreases s.len(),
{
    reveal(Seq::filter);
    if s.len() > 0 {
        lemma_filter_keeps(s.drop_last(), c);
        assert(s.drop_last().push(s.last()) =~= s);
    }
}

proof fn lemma_drop_bracket(open: Seq<char>, a: Seq<char>, c: char, before: bool)
    requires
        open == seq![c],
        no_char(a, c),
    ensures
        without_char(if before { open + a } else { a + open }, c) == a,
{
    reveal(Seq::filter);
    broadcast use Seq::filter_distributes_over_add;
    lemma_filter_keeps(a, c);
    assert(open.drop_last() =~= Seq::<char>::empty());
    assert(open.drop_last().filter(other_than(c)) =~= Seq::<char>::empty());
    assert(open.filter(other_than(c)) =~= Seq::<char>::empty());
    assert(Seq::<char>::empty() + a =~= a);
    assert(a + Seq::<char>::empty() =~= a);
}

proof fn lemma_key_list_part(a: [String; 5], k: int)
    requires
        forall|j: int|
            0 <= j < 5 ==> no_char(#[trigger] a[j]@, ',') && no_char(a[j]@, '[') && no_char(a[j]@, ']'),
        0 <= k < 5,
    ensures
        split_parts(key_list_text(a)).len() == 5,
        ability_key_part(key_list_text(a), k) == a[k]@,
{
    reveal_strlit("[");
    reveal_strlit("]");
    assert("["@ =~= seq!['[']);
    assert("]"@ =~= seq![']']);
    let a0 = a[0]@;
    let a1 = a[1]@;
    let a2 = a[2]@;
    let a3 = a[3]@;
    let a4 = a[4]@;
    assert(no_char(a0, ',') && no_char(a1, ',') && no_char(a2, ',') && no_char(a3, ','));
    assert(no_char(a4, ',') && no_char(a0, '[') && no_char(a4, ']'));
    let first = "["@ + a0;
    let last = a4 + "]"@;
    assert(no_char(first, ',')) by {
        assert forall|j: int| 0 <= j < first.len() implies first[j] != ',' by {
            if j > 0 {
                assert(first[j] == a0[j - 1]);
            }
        }
    }
    assert(no_char(last, ',')) by {
        assert forall|j: int| 0 <= j < last.len() implies last[j] != ',' by {
            if j < a4.len() {
                assert(last[j] == a4[j]);
            }
        }
    }
    let t = key_list_text(a);
    let r4 = a3 + ", "@ + last;
    let r3 = a2 + ", "@ + r4;
    let r2 = a1 + ", "@ + r3;
    assert(t =~= first + ", "@ + r2);
    lemma_split_none(last);
    lemma_split_first(a3, last);
    lemma_split_first(a2, r4);
    lemma_split_first(a1, r3);
    lemma_split_first(first, r2);
    let parts = split_parts(t);
    assert(parts =~= seq![first, a1, a2, a3, last]);
    lemma_drop_bracket("["@, a0, '[', true);
    lemma_drop_bracket("]"@, a4, ']', false);
    assert(ability_key_part(t, k) == a[k]@);
}

/// Saving the key bindings and reading them back gives the same keys:
/// applying the list `keybinds_to_vec` makes for the settings `u`, from any
/// starting key, binds each action to the key it had in `u`.  The names
/// must be names of keys, and the ability keys' names must hold no comma
/// and no bracket, which no key's name does.
pub proof fn law_keybinds_round_trip(
    u: UserData,
    saved: Seq<[String; 2]>,
    known: Seq<Seq<char>>,
    current: Seq<char>,
    k: int,
)
    requires
        saved_bindings(saved, u),
        known.contains(u.left@) && known.contains(u.right@),
        known.contains(u.up@) && known.contains(u.down@),
        forall|j: int| 0 <= j < 5 ==> known.contains(#[trigger] u.ability_key[j]@),
        forall|j: int|
            0 <= j < 5 ==> no_char(#[trigger] u.ability_key[j]@, ',') && no_char(u.ability_key[j]@, '[')
                && no_char(u.ability_key[j]@, ']'),
        0 <= k < 5,
    ensures
        key_lists_complete(saved),
        bound_key(saved, "left"@, current, known) == u.left@,
        bound_key(saved, "right"@, current, known) == u.right@,
        bound_key(saved, "up"@, current, known) == u.up@,
        bound_key(saved, "down"@, current, known) == u.down@,
        bound_ability_key(saved, k, current, known) == u.ability_key[k]@,
{
    reveal_strlit("left");
    reveal_strlit("right");
    reveal_strlit("up");
    reveal_strlit("down");
    reveal_strlit("ability_key");
    reveal_strlit("[");
    reveal_strlit("]");
    assert("left"@.len() == 4 && "right"@.len() == 5 && "up"@.len() == 2);
    assert("down"@.len() == 4 && "left"@[0] == 'l' && "down"@[0] == 'd');
    assert("ability_key"@.len() == 11);
    lemma_key_list_part(u.ability_key, k);
    assert(key_lists_complete(saved)) by {
        assert forall|i: int| 0 <= i < saved.len() && (#[trigger] saved[i])[0]@ == "ability_key"@ implies split_parts(
            saved[i][1]@,
        ).len() >= 5 by {
            assert(i == 4);
        }
    }
    let s4 = saved.drop_last();
    let s3 = s4.drop_last();
    let s2 = s3.drop_last();
    let s1 = s2.drop_last();
    assert(s4.last() == saved[3] && s3.last() == saved[2] && s2.last() == saved[1] && s1.last() == saved[0]);
    assert(saved.last() == saved[4]);
    assert(bound_key(saved, "down"@, current, known) == bound_key(s4, "down"@, current, known));
    assert(bound_key(s4, "down"@, current, known) == key_for(u.down@, known));
    assert(bound_key(saved, "down"@, current, known) == u.down@);
    assert(bound_key(saved, "up"@, current, known) == bound_key(s4, "up"@, current, known));
    assert(bound_key(s4, "up"@, current, known) == bound_key(s3, "up"@, current, known));
    assert(bound_key(saved, "up"@, current, known) == u.up@);
    assert(bound_key(s3, "right"@, current, known) == bound_key(s2, "right"@, current, known));
    assert(bound_key(saved, "right"@, current, known) == bound_key(s4, "right"@, current, known));
    assert(bound_key(saved, "right"@, current, known) == u.right@);
    assert(bound_key(s2, "left"@, current, known) == bound_key(s1, "left"@, current, known));
    assert(bound_key(s3, "left"@, current, known) == bound_key(s2, "left"@, current, known));
    assert(bound_key(saved, "left"@, current, known) == bound_key(s4, "left"@, current, known));
    assert(bound_key(saved, "left"@, current, known) == u.left@);
}

/// An enemy enters the board on an edge square.
pub proof fn law_spawn_on_edge(r: SpawnRoll)
    requires
        roll_valid(r),
    ensures
        on_board(spawn_square(r)),
        spawn_square(r).x == 0 || spawn_square(r).x == 15 || spawn_square(r).y == 0 || spawn_square(r).y == 15,
{
}

/// After a round only effects with rounds left stay active.
pub proof fn law_round_keeps_active_effects(pre: GameData, move_rolls: Seq<i64>, spawn_rolls: Seq<SpawnRoll>)
    ensures
        forall|i: int|
            0 <= i < round_end(pre, move_rolls, spawn_rolls).3.len() ==> (#[trigger] round_end(
                pre,
                move_rolls,
                spawn_rolls,
            ).3[i]).1 > 0,
{
    let t = ticked(pre.effects@);
    let p = |e: (Abilities, i64)| e.1 > 0;
    assert forall|i: int| 0 <= i < t.filter(p).len() implies (#[trigger] t.filter(p)[i]).1 > 0 by {
        t.lemma_filter_pred(p, i);
    }
}

/// The effects never push the energy above thirty, or above what it was if
/// it was more: an investment paying out caps the total at thirty and the
/// debt only takes energy away.
pub proof fn law_effects_cap_energy(s: (int, bool, Seq<EnemyView>), effs: Seq<(Abilities, i64)>)
    ensures
        apply_effects(s, effs).0 <= (if s.0 > 30 {
            s.0
        } else {
            30
        }),
    decreases effs.len(),
{
    if effs.len() > 0 {
        law_effects_cap_energy(s, effs.drop_last());
    }
}

proof fn lemma_settle_is_prefix(m: Seq<Coord>, filled: Seq<Coord>)
    ensures
        settle(m, filled).len() <= m.len(),
        settle(m, filled) == m.take(settle(m, filled).len() as int),
    decreases filled.len(),
{
    if filled.len() > 0 {
        lemma_settle_is_prefix(m, filled.drop_last());
        let inner = settle(m, filled.drop_last());
        lemma_settle_one_is_prefix(inner, filled.last());
        let n = settle(m, filled).len() as int;
        assert(inner.take(n) =~= m.take(n));
    }
}

/// In the enemies' move an enemy either stays where it stood or goes to a
/// square of the move it had announced.
pub proof fn law_enemies_follow_announced_moves(
    es: Seq<EnemyView>,
    target: Coord,
    rolls: Seq<i64>,
    n: nat,
    i: int,
)
    requires
        n <= es.len(),
        0 <= i < n,
    ensures
        ({
            let e = march(es, target, rolls, n).0[i];
            (e.x == es[i].x && e.y == es[i].y) || es[i].moves.contains(Coord { x: e.x, y: e.y })
        }),
    decreases n,
{
    lemma_march_len(es, target, rolls, n);
    if i < n - 1 {
        law_enemies_follow_announced_moves(es, target, rolls, (n - 1) as nat, i);
        lemma_march_len(es, target, rolls, (n - 1) as nat);
        assert(march(es, target, rolls, n).0[i] == march(es, target, rolls, (n - 1) as nat).0[i]);
    } else {
        let prev = march(es, target, rolls, (n - 1) as nat);
        lemma_march_len(es, target, rolls, (n - 1) as nat);
        let e = es[i];
        assert(march(es, target, rolls, n).0[i] == march_step(e, prev.1, target, rolls[i] as int).0);
        if e.moves.len() > 1 {
            let m = settle(e.moves, prev.1);
            lemma_settle_is_prefix(e.moves, prev.1);
            if m.len() > 0 {
                assert(e.moves[m.len() - 1] == m.last());
                assert(e.moves.contains(m.last()));
            }
        }
    }
}

proof fn lemma_march_len(es: Seq<EnemyView>, target: Coord, rolls: Seq<i64>, n: nat)
    ensures
        march(es, target, rolls, n).0.len() == n,
    decreases n,
{
    if n > 0 {
        lemma_march_len(es, target, rolls, (n - 1) as nat);
    }
}

/// Activating an ability never leaves the player in debt: the energy after
/// paying is at least zero.
pub proof fn law_activation_never_overdraws(pre: GameData, post: GameData, a: Abilities)
    requires
        pre.player.energy >= ability_cost(a),
        activated(pre, post, a),
    ensures
        post.player.energy >= 0,
{
}

/// A blood bath doubles the multi-kill multiplier once, however many are
/// active: a second one changes nothing.
pub proof fn law_bloodbath_does_not_stack(killed: int, effects: Seq<(Abilities, i64)>, rounds: i64)
    requires
        bloodbath_active(effects),
    ensures
        multiplier_of(killed, effects.push((Abilities::BloodBath, rounds))) == multiplier_of(
            killed,
            effects,
        ),
{
    let e = (Abilities::BloodBath, rounds);
    let more = effects.push(e);
    let k = choose|i: int| 0 <= i < effects.len() && (#[trigger] effects[i]).0 is BloodBath;
    assert(more[k] == effects[k]);
    assert(bloodbath_active(more));
    effects.lemma_filter_push(e, |x: (Abilities, i64)| x.0 is Martyrdom);
    assert(martyrdoms(more) == martyrdoms(effects));
}

/// Once the player is dead, no effect brings it back.
proof fn lemma_effects_keep_death(s: (int, bool, Seq<EnemyView>), effs: Seq<(Abilities, i64)>)
    requires
        !s.1,
    ensures
        !apply_effects(s, effs).1,
    decreases effs.len(),
{
    if effs.len() > 0 {
        lemma_effects_keep_death(s, effs.drop_last());
    }
}

/// A due martyrdom among the effects kills the player, whatever the other
/// effects do.
proof fn lemma_due_martyrdom_kills(s: (int, bool, Seq<EnemyView>), effs: Seq<(Abilities, i64)>, i: int)
    requires
        0 <= i < effs.len(),
        effs[i].0 is Martyrdom,
        effs[i].1 <= 0,
    ensures
        !apply_effects(s, effs).1,
    decreases effs.len(),
{
    let inner = effs.drop_last();
    if i == effs.len() - 1 {
    } else {
        assert(inner[i] == effs[i]);
        lemma_due_martyrdom_kills(s, inner, i);
        let t = apply_effects(s, inner);
        lemma_effects_keep_death(t, seq![effs.last()]);
        assert(seq![effs.last()].drop_last() =~= Seq::<(Abilities, i64)>::empty());
    }
}

/// Martyrdom kills the player at the end of the next round: with one round
/// of it left, the player is dead once the round is over.
pub proof fn law_martyrdom_kills_next_round(
    pre: GameData,
    move_rolls: Seq<i64>,
    spawn_rolls: Seq<SpawnRoll>,
    i: int,
)
    requires
        0 <= i < pre.effects@.len(),
        pre.effects@[i] == (Abilities::Martyrdom, 1i64),
    ensures
        !round_end(pre, move_rolls, spawn_rolls).2,
{
    let t = ticked(pre.effects@);
    assert(t[i] == (Abilities::Martyrdom, 0i64));
    let m = march(enemy_views(pre.enemies@), pre.target(), move_rolls, pre.enemies@.len() as nat);
    let spawned = m.0 + spawn_rolls.map_values(
        |r: SpawnRoll| spawned_enemy(pre.round, r, spawn_rolls.len() as int),
    );
    lemma_due_martyrdom_kills((pre.player.energy as int, pre.alive && !m.2, spawned), t, i);
}

/// The effects only ever take enemies away.
proof fn lemma_effects_only_remove(s: (int, bool, Seq<EnemyView>), effs: Seq<(Abilities, i64)>, e: EnemyView)
    requires
        apply_effects(s, effs).2.contains(e),
    ensures
        s.2.contains(e),
    decreases effs.len(),
{
    if effs.len() > 0 {
        let inner = apply_effects(s, effs.drop_last());
        if let Abilities::Airstrike(b) = effs.last().0 {
            if effs.last().1 <= 0 {
                inner.2.lemma_filter_contains_rev(|x: EnemyView| clear_of_strikes(b, x, 5), e);
            }
        }
        lemma_effects_only_remove(s, effs.drop_last(), e);
    }
}

/// A due airstrike leaves no enemy within reach of its blasts, whatever
/// the other effects do.
proof fn lemma_due_strike_clears(
    s: (int, bool, Seq<EnemyView>),
    effs: Seq<(Abilities, i64)>,
    i: int,
    b: [Coord; 5],
    e: EnemyView,
)
    requires
        0 <= i < effs.len(),
        effs[i].0 == Abilities::Airstrike(b),
        effs[i].1 <= 0,
        apply_effects(s, effs).2.contains(e),
    ensures
        clear_of_strikes(b, e, 5),
    decreases effs.len(),
{
    let inner = effs.drop_last();
    let before = apply_effects(s, inner);
    if i == effs.len() - 1 {
        let p = |x: EnemyView| clear_of_strikes(b, x, 5);
        assert(apply_effects(s, effs).2 == before.2.filter(p));
        let k = choose|k: int| 0 <= k < before.2.filter(p).len() && before.2.filter(p)[k] == e;
        before.2.lemma_filter_pred(p, k);
    } else {
        assert(inner[i] == effs[i]);
        let one = seq![effs.last()];
        assert(one.drop_last() =~= Seq::<(Abilities, i64)>::empty());
        assert(apply_effects(before, one.drop_last()) == before);
        assert(one.last() == effs.last());
        assert(apply_effects(before, one) == apply_effects(s, effs));
        lemma_effects_only_remove(before, one, e);
        lemma_due_strike_clears(s, inner, i, b, e);
    }
}

/// An airstrike strikes with a delay of two rounds: placed with two rounds
/// to go, it is still waiting, with one round left, when the next round is
/// over.
pub proof fn law_airstrike_waits_a_round(
    pre: GameData,
    move_rolls: Seq<i64>,
    spawn_rolls: Seq<SpawnRoll>,
    i: int,
    b: [Coord; 5],
)
    requires
        0 <= i < pre.effects@.len(),
        pre.effects@[i] == (Abilities::Airstrike(b), 2i64),
    ensures
        round_end(pre, move_rolls, spawn_rolls).3.contains((Abilities::Airstrike(b), 1i64)),
{
    let t = ticked(pre.effects@);
    assert(t[i] == (Abilities::Airstrike(b), 1i64));
    t.lemma_filter_contains(|e: (Abilities, i64)| e.1 > 0, i);
}

/// When the airstrike's last round is over, no enemy is left within three
/// squares of any of its blasts, and the airstrike has ended.
pub proof fn law_airstrike_clears_its_blasts(
    pre: GameData,
    move_rolls: Seq<i64>,
    spawn_rolls: Seq<SpawnRoll>,
    i: int,
    b: [Coord; 5],
)
    requires
        0 <= i < pre.effects@.len(),
        pre.effects@[i] == (Abilities::Airstrike(b), 1i64),
    ensures
        forall|e: EnemyView|
            #[trigger] round_end(pre, move_rolls, spawn_rolls).0.contains(e) ==> clear_of_strikes(b, e, 5),
        !round_end(pre, move_rolls, spawn_rolls).3.contains((Abilities::Airstrike(b), 0i64)),
{
    let t = ticked(pre.effects@);
    assert(t[i] == (Abilities::Airstrike(b), 0i64));
    let m = march(enemy_views(pre.enemies@), pre.target(), move_rolls, pre.enemies@.len() as nat);
    let spawned = m.0 + spawn_rolls.map_values(
        |r: SpawnRoll| spawned_enemy(pre.round, r, spawn_rolls.len() as int),
    );
    let s = (pre.player.energy as int, pre.alive && !m.2, spawned);
    assert forall|e: EnemyView| #[trigger] round_end(pre, move_rolls, spawn_rolls).0.contains(e) implies clear_of_strikes(b, e, 5) by {
        lemma_due_strike_clears(s, t, i, b, e);
    }
    let p = |e: (Abilities, i64)| e.1 > 0;
    if still_active(t).contains((Abilities::Airstrike(b), 0i64)) {
        let k = choose|k: int| 0 <= k < t.filter(p).len() && t.filter(p)[k] == (Abilities::Airstrike(b), 0i64);
        t.lemma_filter_pred(p, k);
    }
}

/// A calming lull never brings more enemies: the count spawned with one
/// active is at most the count without it.
pub proof fn law_calming_lull_lowers_spawns(
    effects: Seq<(Abilities, i64)>,
    rounds: i64,
    difficulty_ceil: int,
)
    requires
        !has_peaceful(effects),
    ensures
        spawn_count_of(effects.push((Abilities::Peaceful, rounds)), false, difficulty_ceil)
            <= spawn_count_of(effects, false, difficulty_ceil),
        spawn_count_of(effects.push((Abilities::Peaceful, rounds)), false, difficulty_ceil) == (if difficulty_ceil - 5 < 0 {
            0
        } else {
            difficulty_ceil - 5
        }),
{
    let more = effects.push((Abilities::Peaceful, rounds));
    assert(more[effects.len() as int].0 is Peaceful);
    assert(has_peaceful(more));
}

/// Every run of characters without a space is shorter than fifty: each
/// fifty consecutive characters hold a space.
pub open spec fn short_words(s: Seq<char>) -> bool {
    forall|i: int| 0 <= i && i + 50 <= s.len() ==> #[trigger] space_within(s, i)
}

/// A space among the fifty characters from the `i`-th on.
pub open spec fn space_within(s: Seq<char>, i: int) -> bool {
    exists|j: int| i <= j < i + 50 && #[trigger] s[j] == ' '
}

proof fn lemma_space_cut_reaches(rem: Seq<char>, k: int, j: int)
    requires
        0 <= j < k <= rem.len(),
        rem[j] == ' ',
    ensures
        space_cut(rem, k) >= j + 1,
    decreases k,
{
    if rem[k - 1] != ' ' {
        lemma_space_cut_reaches(rem, k - 1, j);
    }
}

/// A help text with a space and no word of fifty characters or more can be
/// wrapped: each line it is cut into ends at a space.
pub proof fn law_help_text_with_short_words_wraps(rem: Seq<char>, i: int)
    requires
        short_words(rem),
        exists|j: int| 0 <= j < rem.len() && rem[j] == ' ',
    ensures
        help_wraps(rem, i),
    decreases 30 - i,
{
    if i < 30 {
        let m = if rem.len() < 50 { rem.len() as int } else { 50 };
        let j = if rem.len() >= 50 {
            choose|j: int| 0 <= j < 50 && #[trigger] rem[j] == ' '
        } else {
            choose|j: int| 0 <= j < rem.len() && rem[j] == ' '
        };
        if rem.len() >= 50 {
            assert(space_within(rem, 0));
        }
        lemma_space_cut_reaches(rem, m, j);
        let k = help_cut(rem);
        lemma_space_cut(rem, m);
        let rest = rem.skip(k);
        if rest.len() > 50 {
            assert forall|a: int| 0 <= a && a + 50 <= rest.len() implies #[trigger] space_within(rest, a) by {
                assert(space_within(rem, k + a));
                let b = choose|b: int| k + a <= b < k + a + 50 && #[trigger] rem[b] == ' ';
                assert(rest[b - k] == rem[b]);
            }
            assert(space_within(rest, 0));
            let b = choose|b: int| 0 <= b < 50 && #[trigger] rest[b] == ' ';
            assert(0 <= b < rest.len() && rest[b] == ' ');
            law_help_text_with_short_words_wraps(rest, i + 1);
        }
    }
}

/// Saving the key bindings and reading them back against the table of key
/// names gives the same keys: when every key of the settings `u` is a key
/// there is, applying the list `keybinds_to_vec` makes for `u`, from any
/// starting key, binds each action to the key it had in `u`.
pub proof fn law_keybinds_round_trip_for_keys(
    u: UserData,
    saved: Seq<[String; 2]>,
    current: Seq<char>,
    k: int,
)
    requires
        saved_bindings(saved, u),
        known_keys().contains(u.left@) && known_keys().contains(u.right@),
        known_keys().contains(u.up@) && known_keys().contains(u.down@),
        forall|j: int| 0 <= j < 5 ==> known_keys().contains(#[trigger] u.ability_key[j]@),
        0 <= k < 5,
    ensures
        key_lists_complete(saved),
        bound_key(saved, "left"@, current, known_keys()) == u.left@,
        bound_key(saved, "right"@, current, known_keys()) == u.right@,
        bound_key(saved, "up"@, current, known_keys()) == u.up@,
        bound_key(saved, "down"@, current, known_keys()) == u.down@,
        bound_ability_key(saved, k, current, known_keys()) == u.ability_key[k]@,
{
    lemma_known_keys_plain();
    assert forall|j: int| 0 <= j < 5 implies no_char(#[trigger] u.ability_key[j]@, ',') && no_char(
        u.ability_key[j]@,
        '[',
    ) && no_char(u.ability_key[j]@, ']') by {
        let name = u.ability_key[j]@;
        assert(known_keys().contains(name));
        let i = choose|i: int| 0 <= i < known_keys().len() && known_keys()[i] == name;
        assert(plain_name(known_keys()[i]));
        assert forall|m: int| 0 <= m < name.len() implies name[m] != ',' && name[m] != '[' && name[m] != ']' by {
            assert(crate::keys::plain_char(name[m]));
        }
    }
    law_keybinds_round_trip(u, saved, known_keys(), current, k);
}

/// Every ability has a name of its own: two abilities have the same name
/// exactly when they are the same kind of ability.
pub proof fn law_ability_names_differ(a: Abilities, b: Abilities)
    ensures
        ability_name(a) == ability_name(b) <==> kind_index(a) == kind_index(b),
{
    reveal_strlit("Airstrike");
    reveal_strlit("Crippling Debt");
    reveal_strlit("Redstone Powder");
    reveal_strlit("Cold Storage");
    reveal_strlit("Wall Of Fire");
    reveal_strlit("Calming Lull");
    reveal_strlit("Martyrdom");
    reveal_strlit("Blood Bath");
    reveal_strlit("Jump");
    reveal_strlit("Teleport");
    reveal_strlit("Investment Banking");
    reveal_strlit("blip");
    reveal_strlit("radial blast");
    reveal_strlit("death laser");
    reveal_strlit("Dope");
    reveal_strlit("no ability selected");
    if kind_index(a) != kind_index(b) {
        let (x, y) = (ability_name(a), ability_name(b));
        assert(x.len() != y.len() || x[0] != y[0] || x[1] != y[1] || x[2] != y[2] || x[5] != y[5]);
    }
}

/// The line a piece announces, before squares off the board are dropped,
/// written out square by square: with `sx`, `sy` one step towards the
/// target on each axis (forward when level with it) and the run along the
/// axis with the larger distance (the vertical one on a tie), a pawn or a
/// king takes its square and one step, a knight its square and two steps, a
/// rook runs up to the target's column or row, a bishop runs diagonally
/// `|ty - y| + roll` squares, and a queen runs like a bishop when the target
/// is on its diagonal and like a rook otherwise.
pub proof fn law_piece_lines(piece: Piece, x: int, y: int, tx: int, ty: int, roll: int)
    requires
        -1_000_000 <= x <= 1_000_000,
        -1_000_000 <= y <= 1_000_000,
        -1_000_000 <= tx <= 1_000_000,
        -1_000_000 <= ty <= 1_000_000,
        2 <= roll < 8,
    ensures
        ({
            let raw = raw_plan(piece, x, y, tx, ty, roll);
            let adx = if tx < x { x - tx } else { tx - x };
            let ady = if ty < y { y - ty } else { ty - y };
            let sx: int = if tx < x { -1 } else { 1 };
            let sy: int = if ty < y { -1 } else { 1 };
            let horiz = adx > ady;
            let straight_len = if horiz { adx + 1 } else { ady + 1 };
            let diagonal = piece is Bishop || (piece is Queen && adx == ady);
            &&& (piece is Pawn || piece is King) ==> raw.len() == 2
            &&& piece is Knight ==> raw.len() == 3
            &&& (piece is Rook || (piece is Queen && adx != ady)) ==> raw.len() == straight_len
            &&& diagonal ==> raw.len() == ady + roll
            &&& !diagonal ==> forall|k: int|
                0 <= k < raw.len() ==> (#[trigger] raw[k]).x == (if horiz { x + k * sx } else { x })
                    && raw[k].y == (if horiz { y } else { y + k * sy })
            &&& diagonal ==> forall|k: int|
                0 <= k < raw.len() ==> (#[trigger] raw[k]).x == x + k * sx && raw[k].y == y + k * sy
        }),
{
    let raw = raw_plan(piece, x, y, tx, ty, roll);
    let adx = if tx < x { x - tx } else { tx - x };
    let ady = if ty < y { y - ty } else { ty - y };
    let sx: int = if tx < x { -1 } else { 1 };
    let sy: int = if ty < y { -1 } else { 1 };
    assert(abs(tx - x) == adx && abs(ty - y) == ady);
}

/// A queen whose target is off its diagonals announces a rook's move.
pub proof fn law_queen_off_diagonal_moves_as_rook(x: int, y: int, tx: int, ty: int, roll: int)
    requires
        (if tx < x { x - tx } else { tx - x }) != (if ty < y { y - ty } else { ty - y }),
    ensures
        planned_moves(Piece::Queen, x, y, tx, ty, roll) == planned_moves(Piece::Rook, x, y, tx, ty, roll),
{
    assert(abs(tx - x) == (if tx < x { x - tx } else { tx - x }));
    assert(abs(ty - y) == (if ty < y { y - ty } else { ty - y }));
}

/// A Calming Lull anywhere among the effects takes five off the enemies a
/// round spawns (never below none); without one the count is the rounded
/// difficulty (never below none), and a single spawn brings one enemy.
pub proof fn law_spawn_count(effects: Seq<(Abilities, i64)>, d: int, i: int)
    ensures
        0 <= i < effects.len() && effects[i].0 is Peaceful ==> spawn_count_of(effects, false, d) == (if d
            - 5 < 0 {
            0
        } else {
            d - 5
        }),
        (forall|j: int| 0 <= j < effects.len() ==> !(#[trigger] effects[j].0 is Peaceful)) ==> spawn_count_of(
            effects,
            false,
            d,
        ) == (if d < 0 {
            0
        } else {
            d
        }),
        spawn_count_of(effects, true, d) == 1,
{
    if 0 <= i < effects.len() && effects[i].0 is Peaceful {
        assert(has_peaceful(effects));
    }
}

/// A due airstrike destroys exactly the enemies within three squares of
/// any of its five blasts (given in tenths of a square): an enemy stays
/// when it was there and is more than three squares from every blast; the
/// energy and the player's life are left alone.  An airstrike not yet due
/// changes nothing.
pub proof fn law_due_airstrike_destroys_near_pieces(s: (int, bool, Seq<EnemyView>), b: [Coord; 5], v: i64)
    ensures
        v <= 0 ==> forall|e: EnemyView|
            #[trigger] apply_effect(s, (Abilities::Airstrike(b), v)).2.contains(e) <==> (s.2.contains(e)
                && forall|k: int|
                0 <= k < 5 ==> (10 * e.x - b[k].x) * (10 * e.x - b[k].x) + (10 * e.y - b[k].y) * (10 * e.y
                    - b[k].y) > 900),
        apply_effect(s, (Abilities::Airstrike(b), v)).0 == s.0,
        apply_effect(s, (Abilities::Airstrike(b), v)).1 == s.1,
        v > 0 ==> apply_effect(s, (Abilities::Airstrike(b), v)) == s,
{
    if v <= 0 {
        let p = |e: EnemyView| clear_of_strikes(b, e, 5);
        assert forall|e: EnemyView|
            #[trigger] apply_effect(s, (Abilities::Airstrike(b), v)).2.contains(e) <==> (s.2.contains(e)
                && forall|k: int|
                0 <= k < 5 ==> (10 * e.x - b[k].x) * (10 * e.x - b[k].x) + (10 * e.y - b[k].y) * (10 * e.y
                    - b[k].y) > 900) by {
            if s.2.filter(p).contains(e) {
                s.2.lemma_filter_contains_rev(p, e);
                let i = choose|i: int| 0 <= i < s.2.filter(p).len() && s.2.filter(p)[i] == e;
                s.2.lemma_filter_pred(p, i);
            }
            if s.2.contains(e) && p(e) {
                let i = choose|i: int| 0 <= i < s.2.len() && s.2[i] == e;
                s.2.lemma_filter_contains(p, i);
            }
        }
    }
}

/// The squares a radial blast reaches around a king standing on `(tx, ty)`:
/// those up to two away on each axis, except its own and the four corners
/// of that five by five block.
pub open spec fn blast_reaches(tx: int, ty: int, x: int, y: int) -> bool {
    let i = x - tx;
    let j = y - ty;
    &&& -2 <= i <= 2
    &&& -2 <= j <= 2
    &&& !(i == 0 && j == 0)
    &&& !((i == 2 || i == -2) && (j == 2 || j == -2))
}

/// A radial blast set off by a king standing on its square destroys exactly
/// the enemies on the squares it reaches (see `blast_reaches`); set off while
/// the king is between two squares, it destroys none.
pub proof fn law_radial_blast(pre: GameData, post: GameData)
    requires
        activated(pre, post, Abilities::RBlast),
    ensures
        pre.player.half_x == 2 * pre.player.target_x && pre.player.half_y == 2 * pre.player.target_y
            ==> forall|e: EnemyView|
            #[trigger] enemy_views(post.enemies@).contains(e) <==> (enemy_views(pre.enemies@).contains(e)
                && !blast_reaches(pre.player.target_x as int, pre.player.target_y as int, e.x as int, e.y as int)),
        (pre.player.half_x % 2 != 0 || pre.player.half_y % 2 != 0) ==> enemy_views(post.enemies@)
            == enemy_views(pre.enemies@),
{
    let hx = pre.player.half_x as int;
    let hy = pre.player.half_y as int;
    let before = enemy_views(pre.enemies@);
    let p = |e: EnemyView| !crate::ability::in_blast(hx, hy, e.x as int, e.y as int);
    assert(enemy_views(post.enemies@) == before.filter(p));
    if hx == 2 * pre.player.target_x && hy == 2 * pre.player.target_y {
        let tx = pre.player.target_x as int;
        let ty = pre.player.target_y as int;
        assert forall|e: EnemyView|
            #[trigger] enemy_views(post.enemies@).contains(e) <==> (before.contains(e) && !blast_reaches(
                tx,
                ty,
                e.x as int,
                e.y as int,
            )) by {
            assert(p(e) == !blast_reaches(tx, ty, e.x as int, e.y as int));
            if before.filter(p).contains(e) {
                before.lemma_filter_contains_rev(p, e);
                let i = choose|i: int| 0 <= i < before.filter(p).len() && before.filter(p)[i] == e;
                before.lemma_filter_pred(p, i);
            }
            if before.contains(e) && p(e) {
                let i = choose|i: int| 0 <= i < before.len() && before[i] == e;
                before.lemma_filter_contains(p, i);
            }
        }
    }
    if hx % 2 != 0 || hy % 2 != 0 {
        assert forall|e: EnemyView| #[trigger] p(e) by {}
        lemma_filter_keeps_all(before, p);
    }
}

proof fn lemma_filter_keeps_all<A>(s: Seq<A>, p: spec_fn(A) -> bool)
    requires
        forall|a: A| #[trigger] p(a),
    ensures
        s.filter(p) == s,
    decreases s.len(),
{
    reveal(Seq::filter);
    if s.len() > 0 {
        lemma_filter_keeps_all(s.drop_last(), p);
        assert(s.drop_last().push(s.last()) =~= s);
    }
}

/// A jump the player has paid for moves the king to the picked square when
/// it is within three squares of where the king is drawn (given in half
/// squares), and costs nothing more; farther away, the king stays and the
/// five energy it cost come back.
pub proof fn law_jump(pre: GameData, post: GameData, point: Coord, out: TargetOutcome)
    requires
        pre.select_square.ability is Jump,
        targeted(pre, post, point, out),
    ensures
        ({
            let dx = pre.player.half_x - 2 * point.x;
            let dy = pre.player.half_y - 2 * point.y;
            if dx * dx + dy * dy <= 36 {
                &&& post.player.energy == pre.player.energy
                &&& post.player.target_x == point.x && post.player.target_y == point.y
                &&& out is Done
            } else {
                &&& post.player.energy == pre.player.energy + 5
                &&& post.player.target_x == pre.player.target_x && post.player.target_y
                    == pre.player.target_y
                &&& out is TooFarAway
            }
        }),
        post.enemies@ == pre.enemies@,
        post.player.half_x == pre.player.half_x && post.player.half_y == pre.player.half_y,
{
}

/// What one effect does when it takes its turn, written out: an
/// investment with no rounds left pays ten energy, up to thirty; the debt
/// takes two energy while there are two and otherwise kills the player; a
/// martyrdom with no rounds left kills the player; none of these touches the
/// enemies, and every other effect does nothing.
pub proof fn law_effect_turns(s: (int, bool, Seq<EnemyView>), a: Abilities, v: i64)
    ensures
        a is Bank ==> apply_effect(s, (a, v)) == (if v <= 0 {
            (if s.0 + 10 > 30 { 30 } else { s.0 + 10 }, s.1, s.2)
        } else {
            s
        }),
        a is ShortTermGains ==> apply_effect(s, (a, v)) == (if s.0 >= 2 {
            (s.0 - 2, s.1, s.2)
        } else {
            (s.0, false, s.2)
        }),
        a is Martyrdom ==> apply_effect(s, (a, v)) == (s.0, s.1 && v > 0, s.2),
        !(a is Bank || a is ShortTermGains || a is Martyrdom || a is Airstrike) ==> apply_effect(s, (a, v))
            == s,
{
}

/// A teleport moves the king, square and drawn position alike, to the
/// picked square and changes nothing else of the player or the enemies.
pub proof fn law_teleport(pre: GameData, post: GameData, point: Coord, out: TargetOutcome)
    requires
        pre.select_square.ability is Teleport,
        targeted(pre, post, point, out),
    ensures
        post.player.target_x == point.x && post.player.target_y == point.y,
        post.player.half_x == 2 * point.x && post.player.half_y == 2 * point.y,
        post.player.energy == pre.player.energy,
        post.player.sub_round == pre.player.sub_round,
        post.enemies@ == pre.enemies@,
        post.effects@ == pre.effects@,
        out is Done,
{
}

/// A knight that keeps any square of its run ends its move one square
/// across the run, towards the target: beside the last square of the run.
pub proof fn law_knight_sidestep(x: int, y: int, tx: int, ty: int, roll: int)
    requires
        -1_000_000 <= x <= 1_000_000,
        -1_000_000 <= y <= 1_000_000,
    ensures
        ({
            let kept = keep_on_board(raw_plan(Piece::Knight, x, y, tx, ty, roll));
            let m = planned_moves(Piece::Knight, x, y, tx, ty, roll);
            let adx = if tx < x { x - tx } else { tx - x };
            let ady = if ty < y { y - ty } else { ty - y };
            let sx: int = if tx < x { -1 } else { 1 };
            let sy: int = if ty < y { -1 } else { 1 };
            &&& kept.len() == 0 ==> m.len() == 0
            &&& kept.len() > 0 ==> {
                &&& m.len() == kept.len() + 1
                &&& m.take(kept.len() as int) == kept
                &&& adx > ady ==> m.last().x == kept.last().x && m.last().y == y + sy
                &&& adx <= ady ==> m.last().x == x + sx && m.last().y == kept.last().y
            }
        }),
{
    let kept = keep_on_board(raw_plan(Piece::Knight, x, y, tx, ty, roll));
    let m = planned_moves(Piece::Knight, x, y, tx, ty, roll);
    assert(abs(tx - x) == (if tx < x { x - tx } else { tx - x }));
    assert(abs(ty - y) == (if ty < y { y - ty } else { ty - y }));
    if kept.len() > 0 {
        assert(m.take(kept.len() as int) =~= kept);
    }
}

/// The piece a spawned enemy is, by round: only pawns up to round ten; a
/// rook or knight only after round ten, a bishop after 25, a queen after
/// 50 and a king after 75; a king splits half as often, rounded up, as
/// enemies were spawned together.
pub proof fn law_spawned_pieces_by_round(round: u64, r: SpawnRoll, count: int)
    requires
        0 <= count < i64::MAX,
    ensures
        round <= 10 ==> spawn_piece(round, r, count) == Piece::Pawn,
        spawn_piece(round, r, count) is Rook || spawn_piece(round, r, count) is Knight ==> round > 10,
        spawn_piece(round, r, count) is Bishop ==> round > 25,
        spawn_piece(round, r, count) is Queen ==> round > 50,
        spawn_piece(round, r, count) is King ==> round > 75 && spawn_piece(round, r, count)->0 * 2 >= count
            && spawn_piece(round, r, count)->0 * 2 <= count + 1,
        round > 75 && r.king ==> spawn_piece(round, r, count) is King,
{
}

/// In the enemies' move an enemy that had announced a move of more than
/// its own square either stays where it stood or lands on a square of the
/// board (`0..=15` on both axes) that its move passed over.
pub proof fn law_moving_enemies_land_on_board(
    es: Seq<EnemyView>,
    target: Coord,
    rolls: Seq<i64>,
    n: nat,
    i: int,
)
    requires
        n <= es.len(),
        0 <= i < n,
        es[i].moves.len() > 1,
    ensures
        ({
            let e = march(es, target, rolls, n).0[i];
            (e.x == es[i].x && e.y == es[i].y) || (0 <= e.x <= 15 && 0 <= e.y <= 15
                && es[i].moves.contains(Coord { x: e.x, y: e.y }))
        }),
    decreases n,
{
    lemma_march_len(es, target, rolls, n);
    lemma_march_len(es, target, rolls, (n - 1) as nat);
    if i < n - 1 {
        law_moving_enemies_land_on_board(es, target, rolls, (n - 1) as nat, i);
        assert(march(es, target, rolls, n).0[i] == march(es, target, rolls, (n - 1) as nat).0[i]);
    } else {
        let prev = march(es, target, rolls, (n - 1) as nat);
        lemma_march_filled(es, target, rolls, (n - 1) as nat);
        let e = es[i];
        assert(march(es, target, rolls, n).0[i] == march_step(e, prev.1, target, rolls[i] as int).0);
        let m = settle(e.moves, prev.1);
        lemma_settle_is_prefix(e.moves, prev.1);
        lemma_settle_on_board(e.moves, prev.1);
        if m.len() > 0 {
            assert(e.moves[m.len() - 1] == m.last());
            assert(e.moves.contains(m.last()));
        }
    }
}

/// The player dies in the enemies' move exactly when an enemy that had
/// announced a move of more than its own square had the king's square on
/// that move.
pub proof fn law_enemy_move_kills_on_the_path(es: Seq<EnemyView>, target: Coord, rolls: Seq<i64>, n: nat)
    requires
        n <= es.len(),
    ensures
        march(es, target, rolls, n).2 <==> exists|i: int|
            0 <= i < n && (#[trigger] es[i]).moves.len() > 1 && es[i].moves.contains(target),
    decreases n,
{
    if n > 0 {
        law_enemy_move_kills_on_the_path(es, target, rolls, (n - 1) as nat);
        let prev = march(es, target, rolls, (n - 1) as nat);
        let s = march_step(es[n - 1], prev.1, target, rolls[n - 1] as int);
        if exists|i: int| 0 <= i < n && (#[trigger] es[i]).moves.len() > 1 && es[i].moves.contains(target) {
            let i = choose|i: int| 0 <= i < n && (#[trigger] es[i]).moves.len() > 1 && es[i].moves.contains(target);
            if i < n - 1 {
                assert(prev.2);
            } else {
                assert(s.2);
            }
        }
    }
}

/// How far an enemy is from a laser point (in fiftieths of a square), as
/// the laser measures it: the differences of the coordinates' sizes on the
/// two axes, added.
pub open spec fn laser_gap(e: EnemyView, c: Coord) -> int {
    let ax = if e.x < 0 { -50 * e.x } else { 50 * e.x };
    let ay = if e.y < 0 { -50 * e.y } else { 50 * e.y };
    let bx = if c.x < 0 { -c.x } else { c.x as int };
    let by = if c.y < 0 { -c.y } else { c.y as int };
    (if ax < bx { bx - ax } else { ax - bx }) + (if ay < by { by - ay } else { ay - by })
}

proof fn lemma_laser_run(hx: int, hy: int, px: int, py: int, i: int)
    requires
        0 <= i <= 250,
    ensures
        i <= laser_run(hx, hy, px, py, i) <= 250,
        forall|k: int|
            i <= k < laser_run(hx, hy, px, py, i) ==> laser_inside(#[trigger] laser_point(hx, hy, px, py, k)),
        laser_run(hx, hy, px, py, i) < 250 ==> !laser_inside(
            laser_point(hx, hy, px, py, laser_run(hx, hy, px, py, i)),
        ),
    decreases 250 - i,
{
    if i < 250 && laser_inside(laser_point(hx, hy, px, py, i)) {
        lemma_laser_run(hx, hy, px, py, i + 1);
    }
}

/// A death laser fired from the king's drawn position `(hx, hy)` (in half
/// squares) through the picked square runs in steps of a twenty-fifth of
/// the offset between them, starting on the king, for as long as it stays
/// on the board (`0..=15` squares on both axes), at most 250 steps; it
/// destroys exactly the enemies whose distance to one of its points, added
/// over the axes from the coordinates' sizes, is at most 1.44 squares.  Its
/// points are returned in fiftieths of a square.
pub proof fn law_death_laser(pre: GameData, post: GameData, point: Coord, out: TargetOutcome)
    requires
        pre.select_square.ability is DeathLaser,
        pre.wf(),
        -50_000 <= point.x <= 50_000,
        -50_000 <= point.y <= 50_000,
        targeted(pre, post, point, out),
    ensures
        out matches TargetOutcome::LaserPath(path) && {
            let hx = pre.player.half_x as int;
            let hy = pre.player.half_y as int;
            let n = path@.len();
            &&& n <= 250
            &&& forall|k: int|
                0 <= k < n ==> (#[trigger] path@[k]).x == 25 * hx + (2 * point.x - hx) * k && path@[k].y == 25
                    * hy + (2 * point.y - hy) * k
            &&& forall|k: int| 0 <= k < n ==> 0 <= (#[trigger] path@[k]).x <= 750 && 0 <= path@[k].y <= 750
            &&& n < 250 ==> !(0 <= 25 * hx + (2 * point.x - hx) * n <= 750 && 0 <= 25 * hy + (2 * point.y
                - hy) * n <= 750)
            &&& forall|e: EnemyView|
                #[trigger] enemy_views(post.enemies@).contains(e) <==> (enemy_views(pre.enemies@).contains(e)
                    && forall|k: int|
                    0 <= k < n ==> laser_gap(e, #[trigger] path@[k]) > 72)
        },
        post.player == pre.player,
        post.effects@ == pre.effects@,
{
    let hx = pre.player.half_x as int;
    let hy = pre.player.half_y as int;
    let (px, py) = (point.x as int, point.y as int);
    lemma_laser_run(hx, hy, px, py, 0);
    let n = laser_run(hx, hy, px, py, 0);
    if let TargetOutcome::LaserPath(path) = out {
        assert(path@.len() == n);
        assert forall|k: int| 0 <= k < n implies (#[trigger] path@[k]).x == 25 * hx + (2 * px - hx) * k
            && path@[k].y == 25 * hy + (2 * py - hy) * k by {
            assert(path@[k] == laser_point(hx, hy, px, py, k));
            assert(-400_000_000 <= (2 * px - hx) * k <= 400_000_000) by (nonlinear_arith)
                requires -1_200_000 <= 2 * px - hx <= 1_200_000, 0 <= k < 250;
            assert(-400_000_000 <= (2 * py - hy) * k <= 400_000_000) by (nonlinear_arith)
                requires -1_200_000 <= 2 * py - hy <= 1_200_000, 0 <= k < 250;
        }
        assert forall|k: int| 0 <= k < n implies 0 <= (#[trigger] path@[k]).x <= 750 && 0 <= path@[k].y <= 750 by {
            assert(path@[k] == laser_point(hx, hy, px, py, k));
            assert(laser_inside(laser_point(hx, hy, px, py, k)));
        }
        if n < 250 {
            assert(!laser_inside(laser_point(hx, hy, px, py, n)));
        }
        let before = enemy_views(pre.enemies@);
        let p = |e: EnemyView| survives_laser(e, hx, hy, px, py, n);
        assert forall|e: EnemyView|
            #[trigger] enemy_views(post.enemies@).contains(e) <==> (before.contains(e) && forall|k: int|
                0 <= k < n ==> laser_gap(e, #[trigger] path@[k]) > 72) by {
            let explicit = forall|k: int|
                0 <= k < n ==> laser_gap(e, #[trigger] path@[k]) > 72;
            assert forall|k: int| 0 <= k < n implies crate::ability::clear_of_laser(
                e,
                #[trigger] laser_point(hx, hy, px, py, k),
            ) == (laser_gap(e, path@[k]) > 72) by {
                assert(path@[k] == laser_point(hx, hy, px, py, k));
            }
            assert(p(e) == explicit) by {
                if p(e) {
                    assert forall|k: int| 0 <= k < n implies laser_gap(e, #[trigger] path@[k]) > 72 by {
                        assert(crate::ability::clear_of_laser(e, laser_point(hx, hy, px, py, k)));
                    }
                }
                if explicit {
                    assert forall|k: int| 0 <= k < n implies crate::ability::clear_of_laser(
                        e,
                        #[trigger] laser_point(hx, hy, px, py, k),
                    ) by {
                        assert(laser_gap(e, path@[k]) > 72);
                    }
                }
            }
            if before.filter(p).contains(e) {
                before.lemma_filter_contains_rev(p, e);
                let i = choose|i: int| 0 <= i < before.filter(p).len() && before.filter(p)[i] == e;
                before.lemma_filter_pred(p, i);
            }
            if before.contains(e) && p(e) {
                let i = choose|i: int| 0 <= i < before.len() && before[i] == e;
                before.lemma_filter_contains(p, i);
            }
        }
    }
}

/// An airstrike aimed at a square is scheduled two rounds ahead with five
/// blasts (in tenths of a square), each from three squares before the
/// picked square to less than three squares after it on either axis, and
/// leaves the player and the enemies as they were.
pub proof fn law_airstrike_aimed(pre: GameData, post: GameData, point: Coord, out: TargetOutcome, b0: [Coord; 5])
    requires
        pre.select_square.ability == Abilities::Airstrike(b0),
        targeted(pre, post, point, out),
    ensures
        post.effects@.len() == pre.effects@.len() + 1,
        post.effects@.take(pre.effects@.len() as int) == pre.effects@,
        post.effects@.last().1 == 2,
        post.effects@.last().0 matches Abilities::Airstrike(b) && forall|k: int|
            0 <= k < 5 ==> 10 * point.x - 30 <= (#[trigger] b[k]).x < 10 * point.x + 30 && 10 * point.y - 30
                <= b[k].y < 10 * point.y + 30,
        post.player == pre.player,
        post.enemies@ == pre.enemies@,
        out is Done,
{
    let b = choose|b: [Coord; 5]|
        crate::ability::strike_points_near(b, point.x as int, point.y as int) && post.effects@ == pre.effects@.push(
            (Abilities::Airstrike(b), 2i64),
        );
    assert(post.effects@.take(pre.effects@.len() as int) =~= pre.effects@);
    assert(post.effects@.last() == (Abilities::Airstrike(b), 2i64));
}

} // verus!
