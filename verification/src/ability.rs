use vstd::prelude::*;
use crate::board::{
    abs, coord_in_limit, enemy_views, in_limit, lemma_filter_filter, remove_flagged, Coord, Enemy,
    EnemyView, COORD_LIMIT,
};
use crate::game_data::{
    draw_spawn_roll, enemies_in_limit, spawned_enemy, roll_valid, GameData,
    SelectSquare, SpawnRoll,
};
use crate::home::UserData;
use crate::random::random_range;

verus! {

/// The abilities a player can pick for the five ability slots.  An airstrike
/// carries the five points, in tenths of a square, where its blasts land; the
/// wall of fire carries five points that nothing reads yet.
#[derive(Clone, Copy, Debug)]
pub enum Abilities {
    Null,
    RBlast,
    Blip,
    Jump,
    DeathLaser,
    Bank,
    Teleport,
    BloodBath,
    Peaceful,
    Martyrdom,
    Airstrike([Coord; 5]),
    WallOfFire([Coord; 5]),
    Redstone,
    ColdStorage,
    ShortTermGains,
    Dope,
}

/// What the player is told about an ability: its name, what it does, the
/// energy it costs (a negative cost gives energy) and, for an ability that
/// stays active, for how many rounds.
#[derive(Clone, Debug)]
pub struct AbilityMetadata {
    pub name: String,
    pub description: String,
    pub cost: i32,
    pub duration: Option<u32>,
}

pub open spec fn ability_name(a: Abilities) -> Seq<char> {
    match a {
        Abilities::Airstrike(_) => "Airstrike"@,
        Abilities::ShortTermGains => "Crippling Debt"@,
        Abilities::Redstone => "Redstone Powder"@,
        Abilities::ColdStorage => "Cold Storage"@,
        Abilities::WallOfFire(_) => "Wall Of Fire"@,
        Abilities::Peaceful => "Calming Lull"@,
        Abilities::Martyrdom => "Martyrdom"@,
        Abilities::BloodBath => "Blood Bath"@,
        Abilities::Jump => "Jump"@,
        Abilities::Teleport => "Teleport"@,
        Abilities::Bank => "Investment Banking"@,
        Abilities::Blip => "blip"@,
        Abilities::RBlast => "radial blast"@,
        Abilities::DeathLaser => "death laser"@,
        Abilities::Dope => "Dope"@,
        Abilities::Null => "no ability selected"@,
    }
}

pub open spec fn ability_description(a: Abilities) -> Seq<char> {
    match a {
        Abilities::Airstrike(_) => "Destroys pieces in a large radius anywhere on the board with a 2 move delay"@,
        Abilities::ShortTermGains => "+ 30 energy, but you have to pay it back 2 energy at a time. If you cannot you die"@,
        Abilities::Redstone => "Increases the duration of all active effects by 2"@,
        Abilities::ColdStorage => "Activate ability to store 5 energy. Active a second time to get 10 energy back"@,
        Abilities::WallOfFire(_) => "Spawns a wall that pieces cannot move through (not added yet)"@,
        Abilities::Peaceful => "Decreases enemy spawn rate for 15 rounds"@,
        Abilities::Martyrdom => "Kills Everything. You die on the next turn. Adds 0.5x score multiplayer"@,
        Abilities::BloodBath => "Double the effect of the multi kill multiplier (cannot stack)"@,
        Abilities::Jump => "Allows the player to move to any space in a 3 square radius"@,
        Abilities::Teleport => "The ultimate open, move anywhere on the board"@,
        Abilities::Bank => "Returns 10 energy in 5 rounds"@,
        Abilities::Blip => "spawn 5 new pieces. counts as a move. has a negative effect on active effects."@,
        Abilities::RBlast => "kills everything in a circle around the player"@,
        Abilities::DeathLaser => "can be shot at any angle, kills everything in its path"@,
        Abilities::Dope => "Get +1 max energy for every passive effect active (will not stack)"@,
        Abilities::Null => "no ability has been selected"@,
    }
}

pub open spec fn ability_cost(a: Abilities) -> i32 {
    match a {
        Abilities::Airstrike(_) => 20,
        Abilities::ShortTermGains => -30i32,
        Abilities::Redstone => 5,
        Abilities::ColdStorage => 5,
        Abilities::WallOfFire(_) => 10,
        Abilities::Peaceful => 10,
        Abilities::Martyrdom => 0,
        Abilities::BloodBath => 5,
        Abilities::Jump => 5,
        Abilities::Teleport => 15,
        Abilities::Bank => 5,
        Abilities::Blip => -2i32,
        Abilities::RBlast => 10,
        Abilities::DeathLaser => 15,
        Abilities::Dope => 10,
        Abilities::Null => 99,
    }
}

pub open spec fn ability_duration(a: Abilities) -> Option<u32> {
    match a {
        Abilities::Airstrike(_) => Some(3),
        Abilities::ShortTermGains => Some(15),
        Abilities::ColdStorage => Some(9999),
        Abilities::WallOfFire(_) => Some(10),
        Abilities::Peaceful => Some(15),
        Abilities::Martyrdom => Some(1),
        Abilities::BloodBath => Some(3),
        Abilities::Bank => Some(5),
        Abilities::Dope => Some(9999),
        _ => None,
    }
}

fn entry(name: &str, description: &str, cost: i32, duration: Option<u32>) -> (m: AbilityMetadata)
    ensures
        m.name@ == name@,
        m.description@ == description@,
        m.cost == cost,
        m.duration == duration,
{
    AbilityMetadata {
        name: String::from_str(name),
        description: String::from_str(description),
        cost,
        duration,
    }
}

/// The name, description, cost and duration of each ability.
pub fn metadata(a: Abilities) -> (m: AbilityMetadata)
    ensures
        m.name@ == ability_name(a),
        m.description@ == ability_description(a),
        m.cost == ability_cost(a),
        m.duration == ability_duration(a),
{
    match a {
        Abilities::Airstrike(_) => entry(
            "Airstrike",
            "Destroys pieces in a large radius anywhere on the board with a 2 move delay",
            20,
            Some(3),
        ),
        Abilities::ShortTermGains => entry(
            "Crippling Debt",
            "+ 30 energy, but you have to pay it back 2 energy at a time. If you cannot you die",
            -30,
            Some(15),
        ),
        Abilities::Redstone => entry(
            "Redstone Powder",
            "Increases the duration of all active effects by 2",
            5,
            None,
        ),
        Abilities::ColdStorage => entry(
            "Cold Storage",
            "Activate ability to store 5 energy. Active a second time to get 10 energy back",
            5,
            Some(9999),
        ),
        Abilities::WallOfFire(_) => entry(
            "Wall Of Fire",
            "Spawns a wall that pieces cannot move through (not added yet)",
            10,
            Some(10),
        ),
        Abilities::Peaceful => entry(
            "Calming Lull",
            "Decreases enemy spawn rate for 15 rounds",
            10,
            Some(15),
        ),
        Abilities::Martyrdom => entry(
            "Martyrdom",
            "Kills Everything. You die on the next turn. Adds 0.5x score multiplayer",
            0,
            Some(1),
        ),
        Abilities::BloodBath => entry(
            "Blood Bath",
            "Double the effect of the multi kill multiplier (cannot stack)",
            5,
            Some(3),
        ),
        Abilities::Jump => entry(
            "Jump",
            "Allows the player to move to any space in a 3 square radius",
            5,
            None,
        ),
        Abilities::Teleport => entry(
            "Teleport",
            "The ultimate open, move anywhere on the board",
            15,
            None,
        ),
        Abilities::Bank => entry("Investment Banking", "Returns 10 energy in 5 rounds", 5, Some(5)),
        Abilities::Blip => entry(
            "blip",
            "spawn 5 new pieces. counts as a move. has a negative effect on active effects.",
            -2,
            None,
        ),
        Abilities::RBlast => entry(
            "radial blast",
            "kills everything in a circle around the player",
            10,
            None,
        ),
        Abilities::DeathLaser => entry(
            "death laser",
            "can be shot at any angle, kills everything in its path",
            15,
            None,
        ),
        Abilities::Dope => entry(
            "Dope",
            "Get +1 max energy for every passive effect active (will not stack)",
            10,
            Some(9999),
        ),
        Abilities::Null => entry("no ability selected", "no ability has been selected", 99, None),
    }
}


/// The square picker opened for a targeted ability.
pub open spec fn picker_for(a: Abilities) -> SelectSquare {
    SelectSquare { point: Coord { x: 0, y: 0 }, select_mode: true, read: false, ability: a }
}

/// Whether a radial blast centred on the drawn position `(hx, hy)`, in half
/// squares, reaches the square `(x, y)`: the squares up to two away on each
/// axis, less the four corners of that five by five block and the centre.
/// While the king is between two squares the blast reaches none.
pub open spec fn in_blast(hx: int, hy: int, x: int, y: int) -> bool {
    let dx = 2 * x - hx;
    let dy = 2 * y - hy;
    &&& (dx == -4 || dx == -2 || dx == 0 || dx == 2 || dx == 4)
    &&& (dy == -4 || dy == -2 || dy == 0 || dy == 2 || dy == 4)
    &&& !(abs(dx) == 4 && abs(dy) == 4)
    &&& !(dx == 0 && dy == 0)
}

pub open spec fn sound_is(cue: (String, u32), name: Seq<char>, volume: u32) -> bool {
    cue.0@ == name && cue.1 == volume
}

/// The rules shared by every activation: the round, the menus and the
/// pending target are left alone.
pub open spec fn activation_frame(pre: GameData, post: GameData) -> bool {
    &&& post.round == pre.round
    &&& post.pause == pre.pause
    &&& post.select_ability == pre.select_ability
    &&& post.select_texture_pack == pre.select_texture_pack
    &&& post.select_keybinds == pre.select_keybinds
    &&& post.keybind_focus == pre.keybind_focus
}

/// What activating ability `a`, once paid for, does to the game.
pub open spec fn activated(pre: GameData, post: GameData, a: Abilities) -> bool {
    let energy = pre.player.energy - ability_cost(a);
    let p = pre.player;
    &&& activation_frame(pre, post)
    &&& post.player.half_x == p.half_x
    &&& post.player.half_y == p.half_y
    &&& post.player.target_x == p.target_x
    &&& post.player.target_y == p.target_y
    &&& match a {
        Abilities::Jump | Abilities::Teleport | Abilities::DeathLaser | Abilities::Airstrike(_) => {
            &&& post.select_square == picker_for(a)
            &&& post.player.energy == energy
            &&& post.player.sub_round == p.sub_round
            &&& post.enemies@ == pre.enemies@
            &&& post.effects@ == pre.effects@
            &&& post.sounds@ == pre.sounds@
            &&& post.alive == pre.alive
        },
        Abilities::Redstone => {
            &&& post.select_square == pre.select_square
            &&& post.player.energy == energy
            &&& post.player.sub_round == p.sub_round
            &&& post.enemies@ == pre.enemies@
            &&& post.effects@ == pre.effects@.map_values(
                |e: (Abilities, i64)| (e.0, (e.1 + 2) as i64),
            )
            &&& post.sounds@ == pre.sounds@
            &&& post.alive == pre.alive
        },
        Abilities::Martyrdom => {
            &&& post.select_square == pre.select_square
            &&& post.player.energy == energy
            &&& post.player.sub_round == p.sub_round
            &&& post.enemies@.len() == 0
            &&& post.effects@ == pre.effects@.push((Abilities::Martyrdom, 1i64))
            &&& post.sounds@ == pre.sounds@
            &&& post.alive == pre.alive
        },
        Abilities::Blip => {
            &&& post.select_square == pre.select_square
            &&& post.player.energy == energy
            &&& post.player.sub_round == p.sub_round + 5
            &&& exists|rolls: Seq<SpawnRoll>|
                {
                    &&& rolls.len() == 5
                    &&& forall|i: int| 0 <= i < 5 ==> roll_valid(#[trigger] rolls[i])
                    &&& enemy_views(post.enemies@) == enemy_views(pre.enemies@) + rolls.map_values(
                        |r: SpawnRoll| spawned_enemy(pre.round, r, 1),
                    )
                }
            &&& post.effects@ == pre.effects@.map_values(
                |e: (Abilities, i64)|
                    (
                        e.0,
                        if e.1 - 2 < 0 {
                            0i64
                        } else {
                            (e.1 - 2) as i64
                        },
                    ),
            )
            &&& post.sounds@.len() == pre.sounds@.len() + 1
            &&& post.sounds@.take(pre.sounds@.len() as int) == pre.sounds@
            &&& sound_is(post.sounds@.last(), "abilities/warp.wav"@, 40)
            &&& post.alive == pre.alive
        },
        Abilities::ColdStorage => {
            let stored = cold_stored(pre.effects@);
            &&& post.select_square == pre.select_square
            &&& post.player.sub_round == p.sub_round
            &&& post.enemies@ == pre.enemies@
            &&& if stored > 0 {
                &&& post.player.energy == energy + 10 * stored
                &&& post.effects@ == pre.effects@.filter(not_cold())
            } else {
                &&& post.player.energy == energy
                &&& post.effects@ == pre.effects@.push((Abilities::ColdStorage, 9999i64))
            }
            &&& post.sounds@ == pre.sounds@
            &&& post.alive == pre.alive
        },
        Abilities::RBlast => {
            &&& post.select_square == pre.select_square
            &&& post.player.energy == energy
            &&& post.player.sub_round == p.sub_round
            &&& enemy_views(post.enemies@) == enemy_views(pre.enemies@).filter(
                |e: EnemyView| !in_blast(p.half_x as int, p.half_y as int, e.x as int, e.y as int),
            )
            &&& post.effects@ == pre.effects@
            &&& post.sounds@.len() == pre.sounds@.len() + 1
            &&& post.sounds@.take(pre.sounds@.len() as int) == pre.sounds@
            &&& sound_is(post.sounds@.last(), "abilities/fire.wav"@, 100)
            &&& post.alive == pre.alive
        },
        _ => {
            &&& post.select_square == pre.select_square
            &&& post.player.energy == energy
            &&& post.player.sub_round == p.sub_round
            &&& post.enemies@ == pre.enemies@
            &&& post.effects@ == match ability_duration(a) {
                Some(d) => pre.effects@.push((a, d as i64)),
                None => pre.effects@,
            }
            &&& post.sounds@ == pre.sounds@
            &&& post.alive == pre.alive
        },
    }
}

pub open spec fn not_cold() -> spec_fn((Abilities, i64)) -> bool {
    |e: (Abilities, i64)| e.0 !is ColdStorage
}

/// The number of cold storages holding energy among the effects.
pub open spec fn cold_stored(effects: Seq<(Abilities, i64)>) -> nat {
    effects.filter(|e: (Abilities, i64)| e.0 is ColdStorage).len()
}

/// The inputs on which activating `a`, when the player can pay for it,
/// would overflow a counter of the model.
pub open spec fn activation_defined(data: GameData, a: Abilities) -> bool {
    let n = data.effects@.len();
    data.player.energy >= ability_cost(a) ==> {
        &&& data.player.energy <= i64::MAX - 100
        &&& a is Redstone ==> forall|i: int| 0 <= i < n ==> (#[trigger] data.effects@[i]).1 <= i64::MAX - 2
        &&& a is Blip ==> forall|i: int| 0 <= i < n ==> (#[trigger] data.effects@[i]).1 >= i64::MIN + 2
        &&& a is Blip ==> data.player.sub_round <= 250
        &&& a is ColdStorage ==> data.player.energy + 10 * n <= i64::MAX
    }
}

/// The effects other than the cold storages, and how many cold storages
/// there were.
fn take_out_cold(effects: &Vec<(Abilities, i64)>) -> (r: (Vec<(Abilities, i64)>, usize))
    ensures
        r.0@ == effects@.filter(not_cold()),
        r.1 == cold_stored(effects@),
        r.1 <= effects@.len(),
{
    let ghost cold = |e: (Abilities, i64)| e.0 is ColdStorage;
    let ghost keep = not_cold();
    let mut kept: Vec<(Abilities, i64)> = Vec::new();
    let mut count: usize = 0;
    let mut i: usize = 0;
    assert(effects@.take(0) =~= Seq::<(Abilities, i64)>::empty());
    while i < effects.len()
        invariant
            i <= effects@.len(),
            cold == (|e: (Abilities, i64)| e.0 is ColdStorage),
            keep == not_cold(),
            kept@ == effects@.take(i as int).filter(keep),
            count == effects@.take(i as int).filter(cold).len(),
            count <= i,
        decreases effects@.len() - i,
    {
        let e = effects[i];
        proof {
            assert(effects@.take(i + 1) =~= effects@.take(i as int).push(e));
            effects@.take(i as int).lemma_filter_push(e, keep);
            effects@.take(i as int).lemma_filter_push(e, cold);
        }
        if let Abilities::ColdStorage = e.0 {
            count = count + 1;
        } else {
            kept.push(e);
        }
        i = i + 1;
    }
    assert(effects@.take(effects@.len() as int) =~= effects@);
    (kept, count)
}

fn sound(name: &str, volume: u32) -> (cue: (String, u32))
    ensures
        sound_is(cue, name@, volume),
{
    (String::from_str(name), volume)
}

fn lengthen_effects(effects: &mut Vec<(Abilities, i64)>)
    requires
        forall|k: int| 0 <= k < old(effects)@.len() ==> (#[trigger] old(effects)@[k]).1 <= i64::MAX - 2,
    ensures
        final(effects)@ == old(effects)@.map_values(|e: (Abilities, i64)| (e.0, (e.1 + 2) as i64)),
{
    let ghost pre = old(effects)@;
    let mut i: usize = 0;
    while i < effects.len()
        invariant
            i <= effects@.len(),
            effects@.len() == pre.len(),
            forall|k: int| 0 <= k < pre.len() ==> (#[trigger] pre[k]).1 <= i64::MAX - 2,
            forall|k: int| 0 <= k < i ==> #[trigger] effects@[k] == (pre[k].0, (pre[k].1 + 2) as i64),
            forall|k: int| i <= k < effects@.len() ==> #[trigger] effects@[k] == pre[k],
        decreases effects@.len() - i,
    {
        let e = effects[i];
        effects.set(i, (e.0, e.1 + 2));
        i = i + 1;
    }
    assert(effects@ =~= pre.map_values(|e: (Abilities, i64)| (e.0, (e.1 + 2) as i64)));
}

fn shorten_effects(effects: &mut Vec<(Abilities, i64)>)
    requires
        forall|k: int| 0 <= k < old(effects)@.len() ==> (#[trigger] old(effects)@[k]).1 >= i64::MIN + 2,
    ensures
        final(effects)@ == old(effects)@.map_values(
            |e: (Abilities, i64)|
                (
                    e.0,
                    if e.1 - 2 < 0 {
                        0i64
                    } else {
                        (e.1 - 2) as i64
                    },
                ),
        ),
{
    let ghost pre = old(effects)@;
    let mut i: usize = 0;
    while i < effects.len()
        invariant
            i <= effects@.len(),
            effects@.len() == pre.len(),
            forall|k: int| 0 <= k < pre.len() ==> (#[trigger] pre[k]).1 >= i64::MIN + 2,
            forall|k: int|
                0 <= k < i ==> #[trigger] effects@[k] == (
                    pre[k].0,
                    if pre[k].1 - 2 < 0 {
                        0i64
                    } else {
                        (pre[k].1 - 2) as i64
                    },
                ),
            forall|k: int| i <= k < effects@.len() ==> #[trigger] effects@[k] == pre[k],
        decreases effects@.len() - i,
    {
        let e = effects[i];
        let mut d = e.1 - 2;
        if d < 0 {
            d = 0;
        }
        effects.set(i, (e.0, d));
        i = i + 1;
    }
    assert(effects@ =~= pre.map_values(
        |e: (Abilities, i64)|
            (
                e.0,
                if e.1 - 2 < 0 {
                    0i64
                } else {
                    (e.1 - 2) as i64
                },
            ),
    ));
}

fn blast_step(d: i64) -> (r: bool)
    ensures
        r == (d == -4 || d == -2 || d == 0 || d == 2 || d == 4),
{
    d == -4 || d == -2 || d == 0 || d == 2 || d == 4
}

/// Activates ability `a` when the player has the energy it costs: pays the
/// cost and applies the ability (see `activated`); a targeted ability only
/// opens the square picker.  Returns whether it was activated; without the
/// energy nothing changes.
pub fn activate_ability(a: Abilities, data: &mut GameData, _user: &UserData) -> (done: bool)
    requires
        old(data).wf(),
        activation_defined(*old(data), a),
    ensures
        done == (old(data).player.energy >= ability_cost(a)),
        done ==> activated(*old(data), *final(data), a),
        !done ==> *final(data) == *old(data),
        final(data).wf(),
{
    let cost = metadata(a).cost as i64;
    if data.player.energy >= cost {
        data.player.energy = data.player.energy - cost;
    } else {
        return false;
    }
    let ghost pre = *old(data);
    match a {
        Abilities::Jump | Abilities::Teleport | Abilities::DeathLaser | Abilities::Airstrike(_) => {
            data.select_square = SelectSquare {
                point: Coord { x: 0, y: 0 },
                select_mode: true,
                read: false,
                ability: a,
            };
        },
        Abilities::Redstone => {
            lengthen_effects(&mut data.effects);
        },
        Abilities::Martyrdom => {
            data.effects.push((Abilities::Martyrdom, 1));
            data.enemies = Vec::new();
        },
        Abilities::Blip => {
            data.sounds.push(sound("abilities/warp.wav", 40));
            assert(data.sounds@.take(pre.sounds@.len() as int) =~= pre.sounds@);
            let ghost mut drawn: Seq<SpawnRoll> = Seq::empty();
            let mut n: usize = 0;
            while n < 5
                invariant
                    n <= 5,
                    drawn.len() == n,
                    forall|i: int| 0 <= i < n ==> roll_valid(#[trigger] drawn[i]),
                    enemy_views(data.enemies@) == enemy_views(pre.enemies@) + drawn.map_values(
                        |r: SpawnRoll| spawned_enemy(pre.round, r, 1),
                    ),
                    data.wf(),
                    data.effects@ == pre.effects@,
                    data.player == (crate::player::Player { energy: data.player.energy, ..pre.player }),
                    data.player.energy == pre.player.energy - ability_cost(a),
                    data.sounds@.len() == pre.sounds@.len() + 1,
                    data.sounds@.take(pre.sounds@.len() as int) == pre.sounds@,
                    sound_is(data.sounds@.last(), "abilities/warp.wav"@, 40),
                    data.alive == pre.alive,
                    data.select_square == pre.select_square,
                    activation_frame(pre, *data),
                decreases 5 - n,
            {
                let r = draw_spawn_roll(data.round);
                let mut one: Vec<SpawnRoll> = Vec::new();
                one.push(r);
                let ghost before = enemy_views(data.enemies@);
                data.spawn_from_rolls(&one);
                proof {
                    assert(one@.map_values(|q: SpawnRoll| spawned_enemy(pre.round, q, 1)) =~= seq![
                        spawned_enemy(pre.round, r, 1),
                    ]);
                    let next = drawn.push(r);
                    assert(next.map_values(|q: SpawnRoll| spawned_enemy(pre.round, q, 1))
                        =~= drawn.map_values(|q: SpawnRoll| spawned_enemy(pre.round, q, 1)).push(
                        spawned_enemy(pre.round, r, 1),
                    ));
                    drawn = next;
                }
                n = n + 1;
            }
            shorten_effects(&mut data.effects);
            data.player.sub_round = data.player.sub_round + 5;
        },
        Abilities::ColdStorage => {
            let (kept, count) = take_out_cold(&data.effects);
            if count > 0 {
                data.player.energy = data.player.energy + 10 * (count as i64);
                proof {
                    assert forall|i: int| 0 <= i < kept@.len() implies match (#[trigger] kept@[i]).0 {
                        Abilities::Airstrike(b) => forall|k: int| 0 <= k < 5 ==> coord_in_limit(#[trigger] b[k]),
                        _ => true,
                    } by {
                        let x = kept@[i];
                        pre.effects@.lemma_filter_contains_rev(not_cold(), x);
                        let j = choose|j: int| 0 <= j < pre.effects@.len() && pre.effects@[j] == x;
                        assert(pre.effects@[j] == x);
                    }
                }
                data.effects = kept;
            } else {
                data.effects.push((Abilities::ColdStorage, 9999));
            }
        },
        Abilities::RBlast => {
            data.sounds.push(sound("abilities/fire.wav", 100));
            assert(data.sounds@.take(pre.sounds@.len() as int) =~= pre.sounds@);
            let hx = data.player.half_x;
            let hy = data.player.half_y;
            let mut flags: Vec<bool> = Vec::new();
            let mut i: usize = 0;
            while i < data.enemies.len()
                invariant
                    i <= data.enemies@.len(),
                    flags@.len() == i,
                    enemies_in_limit(data.enemies@),
                    in_limit(hx as int),
                    in_limit(hy as int),
                    forall|k: int|
                        0 <= k < i ==> #[trigger] flags@[k] == in_blast(
                            hx as int,
                            hy as int,
                            data.enemies@[k].x as int,
                            data.enemies@[k].y as int,
                        ),
                decreases data.enemies@.len() - i,
            {
                let dx = 2 * data.enemies[i].x - hx;
                let dy = 2 * data.enemies[i].y - hy;
                let hit = blast_step(dx) && blast_step(dy) && !((dx == 4 || dx == -4) && (dy == 4
                    || dy == -4)) && !(dx == 0 && dy == 0);
                flags.push(hit);
                i = i + 1;
            }
            let ghost keep = |e: EnemyView| !in_blast(hx as int, hy as int, e.x as int, e.y as int);
            let ghost before = data.enemies@;
            remove_flagged(&mut data.enemies, &flags, Ghost(keep));
            proof {
                lemma_filter_keeps_limit(before, keep, data.enemies@);
            }
        },
        _ => {
            match metadata(a).duration {
                Some(d) => data.effects.push((a, d as i64)),
                None => {},
            }
        },
    }
    true
}

/// Filtering the enemies keeps every position within the model's limit.
pub proof fn lemma_filter_keeps_limit(
    before: Seq<Enemy>,
    keep: spec_fn(EnemyView) -> bool,
    after: Seq<Enemy>,
)
    requires
        enemies_in_limit(before),
        enemy_views(after) == enemy_views(before).filter(keep),
    ensures
        enemies_in_limit(after),
{
    assert forall|i: int| 0 <= i < after.len() implies in_limit(#[trigger] after[i].x as int)
        && in_limit(after[i].y as int) by {
        let v = enemy_views(after)[i];
        enemy_views(before).lemma_filter_contains_rev(keep, v);
        let j = choose|j: int| 0 <= j < before.len() && enemy_views(before)[j] == v;
        assert(in_limit(before[j].x as int));
    }
}


/// What the program shows after a square was picked: nothing more, the
/// "too far away" notice of a refused jump, or the path of a death laser as
/// points in fiftieths of a square.
#[derive(Debug)]
pub enum TargetOutcome {
    Done,
    TooFarAway,
    LaserPath(Vec<Coord>),
}

/// The `i`-th point of a death laser fired from the drawn position
/// `(hx, hy)`, in half squares, through the square `(px, py)`: the position
/// plus `i / 25` times the offset to the square, in fiftieths of a square.
pub open spec fn laser_point(hx: int, hy: int, px: int, py: int, i: int) -> Coord {
    Coord { x: (25 * hx + (2 * px - hx) * i) as i64, y: (25 * hy + (2 * py - hy) * i) as i64 }
}

/// A laser point within the board's span of `0..=15` on both axes.
pub open spec fn laser_inside(c: Coord) -> bool {
    0 <= c.x <= 750 && 0 <= c.y <= 750
}

/// The number of laser points, from the `i`-th on, before the first one
/// outside the board or the 250th.
pub open spec fn laser_run(hx: int, hy: int, px: int, py: int, i: int) -> int
    decreases 250 - i,
{
    if i >= 250 || !laser_inside(laser_point(hx, hy, px, py, i)) {
        i
    } else {
        laser_run(hx, hy, px, py, i + 1)
    }
}

/// Whether an enemy is clear of a laser point: the distances of the
/// absolute coordinates on the two axes, in squares, add up to more than
/// `1.2 * 1.2`.
pub open spec fn clear_of_laser(e: EnemyView, c: Coord) -> bool {
    abs(abs(50 * e.x) - abs(c.x as int)) + abs(abs(50 * e.y) - abs(c.y as int)) > 72
}

/// Whether an enemy is clear of the first `n` points of the laser.
pub open spec fn survives_laser(e: EnemyView, hx: int, hy: int, px: int, py: int, n: int) -> bool {
    forall|k: int| 0 <= k < n ==> clear_of_laser(e, #[trigger] laser_point(hx, hy, px, py, k))
}

/// Whether a jump from the drawn position `(hx, hy)`, in half squares,
/// reaches the square `(px, py)`: at most three squares away.
pub open spec fn in_jump_reach(hx: int, hy: int, px: int, py: int) -> bool {
    (hx - 2 * px) * (hx - 2 * px) + (hy - 2 * py) * (hy - 2 * py) <= 36
}

/// Five airstrike blasts around the square `(px, py)`, in tenths of a
/// square, each within three squares less a tenth on either axis.
pub open spec fn strike_points_near(b: [Coord; 5], px: int, py: int) -> bool {
    forall|k: int|
        0 <= k < 5 ==> 10 * px - 30 <= (#[trigger] b[k]).x < 10 * px + 30 && 10 * py - 30 <= b[k].y
            < 10 * py + 30
}

/// Only the enemies and, for a jump, the player may change when a square is
/// picked; this is what stays.
pub open spec fn target_frame(pre: GameData, post: GameData) -> bool {
    &&& activation_frame(pre, post)
    &&& post.round == pre.round
    &&& post.alive == pre.alive
    &&& post.select_square == pre.select_square
    &&& post.sounds@ == pre.sounds@
    &&& post.player.sub_round == pre.player.sub_round
}

/// What picking the square `point` does for the ability waiting in the
/// square picker.
pub open spec fn targeted(pre: GameData, post: GameData, point: Coord, out: TargetOutcome) -> bool {
    let p = pre.player;
    let hx = p.half_x as int;
    let hy = p.half_y as int;
    &&& target_frame(pre, post)
    &&& match pre.select_square.ability {
        Abilities::Teleport => {
            &&& post.player.target_x == point.x && post.player.target_y == point.y
            &&& post.player.half_x == 2 * point.x && post.player.half_y == 2 * point.y
            &&& post.player.energy == p.energy
            &&& post.enemies@ == pre.enemies@
            &&& post.effects@ == pre.effects@
            &&& out is Done
        },
        Abilities::Airstrike(_) => {
            &&& post.player == p
            &&& post.enemies@ == pre.enemies@
            &&& exists|b: [Coord; 5]|
                strike_points_near(b, point.x as int, point.y as int) && post.effects@
                    == pre.effects@.push((Abilities::Airstrike(b), 2i64))
            &&& out is Done
        },
        Abilities::Jump => {
            &&& post.player.half_x == p.half_x && post.player.half_y == p.half_y
            &&& post.enemies@ == pre.enemies@
            &&& post.effects@ == pre.effects@
            &&& if in_jump_reach(hx, hy, point.x as int, point.y as int) {
                &&& post.player.target_x == point.x && post.player.target_y == point.y
                &&& post.player.energy == p.energy
                &&& out is Done
            } else {
                &&& post.player.target_x == p.target_x && post.player.target_y == p.target_y
                &&& post.player.energy == p.energy + 5
                &&& out is TooFarAway
            }
        },
        Abilities::DeathLaser => {
            let n = laser_run(hx, hy, point.x as int, point.y as int, 0);
            &&& post.player == p
            &&& post.effects@ == pre.effects@
            &&& enemy_views(post.enemies@) == enemy_views(pre.enemies@).filter(
                |e: EnemyView| survives_laser(e, hx, hy, point.x as int, point.y as int, n),
            )
            &&& match out {
                TargetOutcome::LaserPath(path) => path@ == Seq::new(
                    n as nat,
                    |k: int| laser_point(hx, hy, point.x as int, point.y as int, k),
                ),
                _ => false,
            }
        },
        _ => {
            &&& post.player == p
            &&& post.enemies@ == pre.enemies@
            &&& post.effects@ == pre.effects@
            &&& out is Done
        },
    }
}

fn laser_at(hx: i64, hy: i64, px: i64, py: i64, i: i64) -> (c: Coord)
    requires
        in_limit(hx as int),
        in_limit(hy as int),
        in_limit(20 * px),
        in_limit(20 * py),
        0 <= i < 250,
    ensures
        c == laser_point(hx as int, hy as int, px as int, py as int, i as int),
{
    let ox = 2 * px - hx;
    let oy = 2 * py - hy;
    assert(ox * i <= 2 * COORD_LIMIT * 250) by (nonlinear_arith)
        requires
            -2 * COORD_LIMIT <= ox <= 2 * COORD_LIMIT,
            0 <= i < 250,
    ;
    assert(-2 * COORD_LIMIT * 250 <= ox * i) by (nonlinear_arith)
        requires
            -2 * COORD_LIMIT <= ox <= 2 * COORD_LIMIT,
            0 <= i < 250,
    ;
    assert(-2 * COORD_LIMIT * 250 <= oy * i <= 2 * COORD_LIMIT * 250) by (nonlinear_arith)
        requires
            -2 * COORD_LIMIT <= oy <= 2 * COORD_LIMIT,
            0 <= i < 250,
    ;
    Coord { x: 25 * hx + ox * i, y: 25 * hy + oy * i }
}

fn abs_i64(v: i64) -> (a: i64)
    requires
        v > i64::MIN,
    ensures
        a == abs(v as int),
{
    if v < 0 {
        -v
    } else {
        v
    }
}

/// Fires a death laser: removes the enemies close to each of its points in
/// turn and returns the points.
fn fire_laser(data: &mut GameData, point: Coord) -> (path: Vec<Coord>)
    requires
        old(data).wf(),
        in_limit(20 * point.x),
        in_limit(20 * point.y),
    ensures
        final(data).wf(),
        final(data).player == old(data).player,
        final(data).effects@ == old(data).effects@,
        final(data).round == old(data).round,
        final(data).alive == old(data).alive,
        final(data).select_square == old(data).select_square,
        final(data).sounds@ == old(data).sounds@,
        activation_frame(*old(data), *final(data)),
        enemy_views(final(data).enemies@) == enemy_views(old(data).enemies@).filter(
            |e: EnemyView|
                survives_laser(
                    e,
                    old(data).player.half_x as int,
                    old(data).player.half_y as int,
                    point.x as int,
                    point.y as int,
                    laser_run(
                        old(data).player.half_x as int,
                        old(data).player.half_y as int,
                        point.x as int,
                        point.y as int,
                        0,
                    ),
                ),
        ),
        path@ == Seq::new(
            laser_run(
                old(data).player.half_x as int,
                old(data).player.half_y as int,
                point.x as int,
                point.y as int,
                0,
            ) as nat,
            |k: int|
                laser_point(
                    old(data).player.half_x as int,
                    old(data).player.half_y as int,
                    point.x as int,
                    point.y as int,
                    k,
                ),
        ),
{
    let hx = data.player.half_x;
    let hy = data.player.half_y;
    let ghost (ihx, ihy, ipx, ipy) = (hx as int, hy as int, point.x as int, point.y as int);
    let ghost orig = enemy_views(data.enemies@);
    let mut path: Vec<Coord> = Vec::new();
    let mut i: i64 = 0;
    let mut stopped = false;
    assert(orig =~= orig.filter(|e: EnemyView| survives_laser(e, ihx, ihy, ipx, ipy, 0))) by {
        reveal(Seq::filter);
        lemma_filter_all(orig, |e: EnemyView| survives_laser(e, ihx, ihy, ipx, ipy, 0));
    }
    while i < 250 && !stopped
        invariant
            0 <= i <= 250,
            hx == old(data).player.half_x,
            hy == old(data).player.half_y,
            ihx == hx,
            ihy == hy,
            ipx == point.x,
            ipy == point.y,
            in_limit(20 * point.x),
            in_limit(20 * point.y),
            data.wf(),
            data.player == old(data).player,
            data.effects@ == old(data).effects@,
            data.round == old(data).round,
            data.alive == old(data).alive,
            data.select_square == old(data).select_square,
            data.sounds@ == old(data).sounds@,
            activation_frame(*old(data), *data),
            orig == enemy_views(old(data).enemies@),
            laser_run(ihx, ihy, ipx, ipy, 0) == (if stopped {
                i as int
            } else {
                laser_run(ihx, ihy, ipx, ipy, i as int)
            }),
            stopped ==> i < 250,
            path@ == Seq::new(i as nat, |k: int| laser_point(ihx, ihy, ipx, ipy, k)),
            enemy_views(data.enemies@) == orig.filter(
                |e: EnemyView| survives_laser(e, ihx, ihy, ipx, ipy, i as int),
            ),
        decreases 251 - i - (if stopped { 1int } else { 0int }),
    {
        let c = laser_at(hx, hy, point.x, point.y, i);
        if c.x < 0 || c.x > 750 || c.y < 0 || c.y > 750 {
            stopped = true;
        } else {
            let mut flags: Vec<bool> = Vec::new();
            let mut j: usize = 0;
            while j < data.enemies.len()
                invariant
                    j <= data.enemies@.len(),
                    flags@.len() == j,
                    enemies_in_limit(data.enemies@),
                    0 <= c.x <= 750,
                    0 <= c.y <= 750,
                    forall|k: int|
                        0 <= k < j ==> #[trigger] flags@[k] == !clear_of_laser(data.enemies@[k]@, c),
                decreases data.enemies@.len() - j,
            {
                let ex = abs_i64(50 * data.enemies[j].x);
                let ey = abs_i64(50 * data.enemies[j].y);
                let sx = abs_i64(ex - c.x);
                let sy = abs_i64(ey - c.y);
                flags.push(!(sx + sy > 72));
                j = j + 1;
            }
            let ghost before = data.enemies@;
            let ghost clear = |e: EnemyView| clear_of_laser(e, c);
            remove_flagged(&mut data.enemies, &flags, Ghost(clear));
            proof {
                lemma_filter_keeps_limit(before, clear, data.enemies@);
                let p_old = |e: EnemyView| survives_laser(e, ihx, ihy, ipx, ipy, i as int);
                let p_new = |e: EnemyView| survives_laser(e, ihx, ihy, ipx, ipy, i + 1);
                lemma_filter_filter(orig, p_old, clear);
                assert((|e: EnemyView| p_old(e) && clear(e)) =~= p_new) by {
                    assert forall|e: EnemyView| p_old(e) && clear(e) <==> #[trigger] p_new(e) by {
                        if p_new(e) {
                            assert(clear_of_laser(e, laser_point(ihx, ihy, ipx, ipy, i as int)));
                        }
                    }
                }
            }
            path.push(c);
            assert(path@ =~= Seq::new((i + 1) as nat, |k: int| laser_point(ihx, ihy, ipx, ipy, k)));
            i = i + 1;
        }
    }
    path
}

/// A filter that keeps everything keeps the sequence as it is.
proof fn lemma_filter_all<A>(s: Seq<A>, p: spec_fn(A) -> bool)
    requires
        forall|a: A| #[trigger] p(a),
    ensures
        s.filter(p) == s,
    decreases s.len(),
{
    reveal(Seq::filter);
    if s.len() > 0 {
        lemma_filter_all(s.drop_last(), p);
        assert(s.drop_last().push(s.last()) =~= s);
    }
}

/// Applies the ability waiting in the square picker at the square `point`
/// (see `targeted`): a teleport moves the king there, a jump moves it there
/// if it is within three squares and otherwise gives the five energy back,
/// an airstrike is scheduled around it two rounds ahead, and a death laser
/// is fired from the king through it.
pub fn targeted_ability(data: &mut GameData, point: Coord) -> (out: TargetOutcome)
    requires
        old(data).wf(),
        in_limit(20 * point.x),
        in_limit(20 * point.y),
        old(data).player.energy <= i64::MAX - 5,
    ensures
        final(data).wf(),
        targeted(*old(data), *final(data), point, out),
{
    let ghost pre = *old(data);
    match data.select_square.ability {
        Abilities::Teleport => {
            data.player.target_x = point.x;
            data.player.target_y = point.y;
            data.player.half_x = 2 * point.x;
            data.player.half_y = 2 * point.y;
            TargetOutcome::Done
        },
        Abilities::Airstrike(_) => {
            let mut b = [Coord { x: 0, y: 0 }; 5];
            let mut k: usize = 0;
            while k < 5
                invariant
                    k <= 5,
                    in_limit(20 * point.x),
                    in_limit(20 * point.y),
                    forall|m: int|
                        0 <= m < k ==> 10 * point.x - 30 <= (#[trigger] b[m]).x < 10 * point.x + 30
                            && 10 * point.y - 30 <= b[m].y < 10 * point.y + 30,
                decreases 5 - k,
            {
                let ox = random_range(-30, 30);
                let oy = random_range(-30, 30);
                b[k] = Coord { x: 10 * point.x + ox, y: 10 * point.y + oy };
                k = k + 1;
            }
            assert(strike_points_near(b, point.x as int, point.y as int));
            data.effects.push((Abilities::Airstrike(b), 2));
            TargetOutcome::Done
        },
        Abilities::Jump => {
            let dx = data.player.half_x - 2 * point.x;
            let dy = data.player.half_y - 2 * point.y;
            assert(dx * dx <= 9 * COORD_LIMIT * COORD_LIMIT && dy * dy <= 9 * COORD_LIMIT * COORD_LIMIT)
                by (nonlinear_arith)
                requires
                    -3 * COORD_LIMIT <= dx <= 3 * COORD_LIMIT,
                    -3 * COORD_LIMIT <= dy <= 3 * COORD_LIMIT,
            ;
            assert(0 <= dx * dx && 0 <= dy * dy) by (nonlinear_arith);
            if dx * dx + dy * dy <= 36 {
                data.player.target_x = point.x;
                data.player.target_y = point.y;
                TargetOutcome::Done
            } else {
                data.player.energy = data.player.energy + 5;
                TargetOutcome::TooFarAway
            }
        },
        Abilities::DeathLaser => {
            let path = fire_laser(data, point);
            TargetOutcome::LaserPath(path)
        },
        _ => TargetOutcome::Done,
    }
}


/// Whether an enemy is out of reach of the first `n` blasts of an airstrike:
/// more than three squares from each blast point (given in tenths).
pub open spec fn clear_of_strikes(b: [Coord; 5], e: EnemyView, n: int) -> bool {
    forall|k: int|
        0 <= k < n ==> (10 * e.x - (#[trigger] b[k]).x) * (10 * e.x - b[k].x) + (10 * e.y - b[k].y) * (
        10 * e.y - b[k].y) > 900
}

/// The energy, the player's life and the enemies after one active effect
/// takes its turn: a due investment pays ten energy (the total capped at
/// thirty), a due martyrdom kills the player, the debt takes two energy or
/// kills the player when there are not two, and a due airstrike destroys
/// the enemies within three squares of any of its blasts.  An effect is due
/// when it has no rounds left.
pub open spec fn apply_effect(s: (int, bool, Seq<EnemyView>), eff: (Abilities, i64)) -> (
    int,
    bool,
    Seq<EnemyView>,
) {
    match eff.0 {
        Abilities::Bank => if eff.1 <= 0 {
            (if s.0 + 10 > 30 {
                30
            } else {
                s.0 + 10
            }, s.1, s.2)
        } else {
            s
        },
        Abilities::Martyrdom => if eff.1 <= 0 {
            (s.0, false, s.2)
        } else {
            s
        },
        Abilities::ShortTermGains => if s.0 >= 2 {
            (s.0 - 2, s.1, s.2)
        } else {
            (s.0, false, s.2)
        },
        Abilities::Airstrike(b) => if eff.1 <= 0 {
            (s.0, s.1, s.2.filter(|e: EnemyView| clear_of_strikes(b, e, 5)))
        } else {
            s
        },
        _ => s,
    }
}

/// The effects taking their turns in order.
pub open spec fn apply_effects(s: (int, bool, Seq<EnemyView>), effs: Seq<(Abilities, i64)>) -> (
    int,
    bool,
    Seq<EnemyView>,
)
    decreases effs.len(),
{
    if effs.len() == 0 {
        s
    } else {
        apply_effect(apply_effects(s, effs.drop_last()), effs.last())
    }
}

/// Removes the enemies within reach of an airstrike's blasts.
fn strike(data: &mut GameData, b: [Coord; 5])
    requires
        old(data).wf(),
        forall|k: int| 0 <= k < 5 ==> coord_in_limit(#[trigger] b[k]),
    ensures
        final(data).wf(),
        enemy_views(final(data).enemies@) == enemy_views(old(data).enemies@).filter(
            |e: EnemyView| clear_of_strikes(b, e, 5),
        ),
        final(data).player == old(data).player,
        final(data).alive == old(data).alive,
        final(data).effects@ == old(data).effects@,
        final(data).round == old(data).round,
        final(data).select_square == old(data).select_square,
        final(data).sounds@ == old(data).sounds@,
        activation_frame(*old(data), *final(data)),
{
    let ghost orig = enemy_views(data.enemies@);
    assert(orig =~= orig.filter(|e: EnemyView| clear_of_strikes(b, e, 0))) by {
        lemma_filter_all(orig, |e: EnemyView| clear_of_strikes(b, e, 0));
    }
    let mut k: usize = 0;
    while k < 5
        invariant
            k <= 5,
            forall|m: int| 0 <= m < 5 ==> coord_in_limit(#[trigger] b[m]),
            data.wf(),
            orig == enemy_views(old(data).enemies@),
            enemy_views(data.enemies@) == orig.filter(|e: EnemyView| clear_of_strikes(b, e, k as int)),
            data.player == old(data).player,
            data.alive == old(data).alive,
            data.effects@ == old(data).effects@,
            data.round == old(data).round,
            data.select_square == old(data).select_square,
            data.sounds@ == old(data).sounds@,
            activation_frame(*old(data), *data),
        decreases 5 - k,
    {
        let c = b[k];
        let mut flags: Vec<bool> = Vec::new();
        let mut j: usize = 0;
        while j < data.enemies.len()
            invariant
                j <= data.enemies@.len(),
                flags@.len() == j,
                enemies_in_limit(data.enemies@),
                coord_in_limit(c),
                forall|m: int|
                    0 <= m < j ==> #[trigger] flags@[m] == !((10 * data.enemies@[m].x - c.x) * (10
                        * data.enemies@[m].x - c.x) + (10 * data.enemies@[m].y - c.y) * (10
                        * data.enemies@[m].y - c.y) > 900),
            decreases data.enemies@.len() - j,
        {
            let dx = 10 * data.enemies[j].x - c.x;
            let dy = 10 * data.enemies[j].y - c.y;
            assert(0 <= dx * dx <= 121 * COORD_LIMIT * COORD_LIMIT) by (nonlinear_arith)
                requires
                    -11 * COORD_LIMIT <= dx <= 11 * COORD_LIMIT,
            ;
            assert(0 <= dy * dy <= 121 * COORD_LIMIT * COORD_LIMIT) by (nonlinear_arith)
                requires
                    -11 * COORD_LIMIT <= dy <= 11 * COORD_LIMIT,
            ;
            flags.push(!(dx * dx + dy * dy > 900));
            j = j + 1;
        }
        let ghost before = data.enemies@;
        let ghost clear = |e: EnemyView|
            (10 * e.x - c.x) * (10 * e.x - c.x) + (10 * e.y - c.y) * (10 * e.y - c.y) > 900;
        remove_flagged(&mut data.enemies, &flags, Ghost(clear));
        proof {
            lemma_filter_keeps_limit(before, clear, data.enemies@);
            let p_old = |e: EnemyView| clear_of_strikes(b, e, k as int);
            let p_new = |e: EnemyView| clear_of_strikes(b, e, k + 1);
            lemma_filter_filter(orig, p_old, clear);
            assert((|e: EnemyView| p_old(e) && clear(e)) =~= p_new) by {
                assert forall|e: EnemyView| p_old(e) && clear(e) <==> #[trigger] p_new(e) by {
                    if p_new(e) {
                        assert(b[k as int] == c);
                    }
                }
            }
        }
        k = k + 1;
    }
}

/// Lets every active effect take its turn, in order (see `apply_effects`):
/// the energy, the player's life and the enemies become what the effects
/// make of them.
pub fn trigger_effects(data: &mut GameData)
    requires
        old(data).wf(),
        old(data).player.energy <= i64::MAX - 10,
    ensures
        final(data).wf(),
        (final(data).player.energy as int, final(data).alive, enemy_views(final(data).enemies@))
            == apply_effects(
            (old(data).player.energy as int, old(data).alive, enemy_views(old(data).enemies@)),
            old(data).effects@,
        ),
        final(data).player.half_x == old(data).player.half_x,
        final(data).player.half_y == old(data).player.half_y,
        final(data).player.target_x == old(data).player.target_x,
        final(data).player.target_y == old(data).player.target_y,
        final(data).player.sub_round == old(data).player.sub_round,
        final(data).effects@ == old(data).effects@,
        final(data).round == old(data).round,
        final(data).select_square == old(data).select_square,
        final(data).sounds@ == old(data).sounds@,
        activation_frame(*old(data), *final(data)),
{
    let ghost init = (
        old(data).player.energy as int,
        old(data).alive,
        enemy_views(old(data).enemies@),
    );
    let ghost e0 = old(data).player.energy;
    let ghost effs = old(data).effects@;
    let mut i: usize = 0;
    assert(effs.take(0) =~= Seq::<(Abilities, i64)>::empty());
    while i < data.effects.len()
        invariant
            i <= data.effects@.len(),
            data.effects@ == effs,
            effs == old(data).effects@,
            data.wf(),
            e0 <= i64::MAX - 10,
            data.player.energy <= (if e0 > 30 {
                e0
            } else {
                30
            }),
            (data.player.energy as int, data.alive, enemy_views(data.enemies@)) == apply_effects(
                init,
                effs.take(i as int),
            ),
            data.player.half_x == old(data).player.half_x,
            data.player.half_y == old(data).player.half_y,
            data.player.target_x == old(data).player.target_x,
            data.player.target_y == old(data).player.target_y,
            data.player.sub_round == old(data).player.sub_round,
            data.round == old(data).round,
            data.select_square == old(data).select_square,
            data.sounds@ == old(data).sounds@,
            activation_frame(*old(data), *data),
        decreases effs.len() - i,
    {
        let eff = data.effects[i];
        assert(effs.take(i + 1).drop_last() =~= effs.take(i as int));
        match eff.0 {
            Abilities::Bank => {
                if eff.1 <= 0 {
                    data.player.energy = data.player.energy + 10;
                    if data.player.energy > 30 {
                        data.player.energy = 30;
                    }
                }
            },
            Abilities::Martyrdom => {
                if eff.1 <= 0 {
                    data.alive = false;
                }
            },
            Abilities::ShortTermGains => {
                if data.player.energy >= 2 {
                    data.player.energy = data.player.energy - 2;
                } else {
                    data.alive = false;
                }
            },
            Abilities::Airstrike(b) => {
                if eff.1 <= 0 {
                    assert(effs[i as int] == eff);
                    strike(data, b);
                }
            },
            _ => {},
        }
        i = i + 1;
    }
    assert(effs.take(effs.len() as int) =~= effs);
}

} // verus!
