use vstd::prelude::*;
use crate::ability::Abilities;
use crate::board::Coord;
use crate::game_data::{GameData, SelectAbility};
use crate::text::{split_comma, split_parts, text_eq, remove_char, without_char};

verus! {

/// The player's settings: the keys bound to the four moves and the five
/// ability slots (each key by its name), the abilities in the slots, the
/// texture pack and the best round reached.
pub struct UserData {
    pub left: String,
    pub right: String,
    pub up: String,
    pub down: String,
    pub ability_key: [String; 5],
    pub abilities: [Abilities; 5],
    pub texture: String,
    pub high_round: u64,
}

pub open spec fn names(v: Seq<String>) -> Seq<Seq<char>> {
    v.map_values(|s: String| s@)
}

/// The key a saved name stands for: the name itself when it is one of the
/// known key names, else `"Unknown"`.
pub open spec fn key_for(name: Seq<char>, known: Seq<Seq<char>>) -> Seq<char> {
    if known.contains(name) {
        name
    } else {
        "Unknown"@
    }
}

/// Looks a saved key name up among the names of the keys there are.
pub fn string_to_key(key: &String, known: &Vec<String>) -> (k: String)
    ensures
        k@ == key_for(key@, names(known@)),
{
    let mut i: usize = 0;
    while i < known.len()
        invariant
            i <= known@.len(),
            forall|j: int| 0 <= j < i ==> known@[j]@ != key@,
        decreases known@.len() - i,
    {
        if text_eq(known[i].as_str(), key.as_str()) {
            assert(names(known@)[i as int] == key@);
            return known[i].clone();
        }
        i = i + 1;
    }
    assert(!names(known@).contains(key@)) by {
        assert forall|j: int| 0 <= j < names(known@).len() implies names(known@)[j] != key@ by {
            assert(known@[j]@ != key@);
        }
    }
    String::from_str("Unknown")
}

/// The text saved for the five ability keys: their names in brackets,
/// separated by `", "`.
pub open spec fn key_list_text(k: [String; 5]) -> Seq<char> {
    "["@ + k[0]@ + ", "@ + k[1]@ + ", "@ + k[2]@ + ", "@ + k[3]@ + ", "@ + k[4]@ + "]"@
}

/// The list of key bindings saved for the settings `u`: each of the four
/// moves with its key's name, then `"ability_key"` with the list of the five
/// ability keys' names (see `key_list_text`).
pub open spec fn saved_bindings(r: Seq<[String; 2]>, u: UserData) -> bool {
    &&& r.len() == 5
    &&& r[0][0]@ == "left"@ && r[0][1]@ == u.left@
    &&& r[1][0]@ == "right"@ && r[1][1]@ == u.right@
    &&& r[2][0]@ == "up"@ && r[2][1]@ == u.up@
    &&& r[3][0]@ == "down"@ && r[3][1]@ == u.down@
    &&& r[4][0]@ == "ability_key"@ && r[4][1]@ == key_list_text(u.ability_key)
}

/// The `k`-th saved ability key name in a key list text: the `k`-th piece
/// between separators, the opening bracket taken off the first and the
/// closing one off the last.
pub open spec fn ability_key_part(text: Seq<char>, k: int) -> Seq<char> {
    let p = split_parts(text)[k];
    if k == 0 {
        without_char(p, '[')
    } else if k == 4 {
        without_char(p, ']')
    } else {
        p
    }
}

/// The key a saved binding list gives the action `label`: the last entry
/// for it wins, and without one the key stays `current`.
pub open spec fn bound_key(
    entries: Seq<[String; 2]>,
    label: Seq<char>,
    current: Seq<char>,
    known: Seq<Seq<char>>,
) -> Seq<char>
    decreases entries.len(),
{
    if entries.len() == 0 {
        current
    } else if entries.last()[0]@ == label {
        key_for(entries.last()[1]@, known)
    } else {
        bound_key(entries.drop_last(), label, current, known)
    }
}

/// The key a saved binding list gives ability slot `k`, from the last
/// `"ability_key"` entry.
pub open spec fn bound_ability_key(
    entries: Seq<[String; 2]>,
    k: int,
    current: Seq<char>,
    known: Seq<Seq<char>>,
) -> Seq<char>
    decreases entries.len(),
{
    if entries.len() == 0 {
        current
    } else if entries.last()[0]@ == "ability_key"@ {
        key_for(ability_key_part(entries.last()[1]@, k), known)
    } else {
        bound_ability_key(entries.drop_last(), k, current, known)
    }
}

/// Every `"ability_key"` entry holds at least five pieces; reading one with
/// fewer indexes past the end of its pieces.
pub open spec fn key_lists_complete(entries: Seq<[String; 2]>) -> bool {
    forall|i: int|
        0 <= i < entries.len() && (#[trigger] entries[i])[0]@ == "ability_key"@ ==> split_parts(
            entries[i][1]@,
        ).len() >= 5
}

impl UserData {
    /// Applies a saved list of key bindings, each entry an action's label
    /// and a key name (see `bound_key`, `bound_ability_key`); labels it does
    /// not know are passed over.  `known` holds the names of all keys.
    pub fn keybinds_from_vec(&mut self, v: Vec<[String; 2]>, known: &Vec<String>)
        requires
            key_lists_complete(v@),
        ensures
            final(self).left@ == bound_key(v@, "left"@, old(self).left@, names(known@)),
            final(self).right@ == bound_key(v@, "right"@, old(self).right@, names(known@)),
            final(self).up@ == bound_key(v@, "up"@, old(self).up@, names(known@)),
            final(self).down@ == bound_key(v@, "down"@, old(self).down@, names(known@)),
            forall|k: int|
                0 <= k < 5 ==> (#[trigger] final(self).ability_key[k])@ == bound_ability_key(
                    v@,
                    k,
                    old(self).ability_key[k]@,
                    names(known@),
                ),
            final(self).abilities == old(self).abilities,
            final(self).texture == old(self).texture,
            final(self).high_round == old(self).high_round,
    {
        let ghost kn = names(known@);
        let mut i: usize = 0;
        while i < v.len()
            invariant
                i <= v@.len(),
                kn == names(known@),
                key_lists_complete(v@),
                self.left@ == bound_key(v@.take(i as int), "left"@, old(self).left@, kn),
                self.right@ == bound_key(v@.take(i as int), "right"@, old(self).right@, kn),
                self.up@ == bound_key(v@.take(i as int), "up"@, old(self).up@, kn),
                self.down@ == bound_key(v@.take(i as int), "down"@, old(self).down@, kn),
                forall|k: int|
                    0 <= k < 5 ==> (#[trigger] self.ability_key[k])@ == bound_ability_key(
                        v@.take(i as int),
                        k,
                        old(self).ability_key[k]@,
                        kn,
                    ),
                self.abilities == old(self).abilities,
                self.texture == old(self).texture,
                self.high_round == old(self).high_round,
            decreases v@.len() - i,
        {
            let label = v[i][0].as_str();
            let value = &v[i][1];
            proof {
                reveal_strlit("left");
                reveal_strlit("right");
                reveal_strlit("up");
                reveal_strlit("down");
                reveal_strlit("ability_key");
                assert("left"@.len() == 4 && "right"@.len() == 5 && "up"@.len() == 2);
                assert("down"@.len() == 4 && "left"@[0] == 'l' && "down"@[0] == 'd');
                assert("ability_key"@ != "left"@ && "ability_key"@ != "right"@);
                assert("ability_key"@ != "up"@ && "ability_key"@ != "down"@);
            }
            proof {
                assert(v@.take(i + 1).last() == v@[i as int]);
                assert(v@.take(i + 1).drop_last() =~= v@.take(i as int));
            }
            if text_eq(label, "left") {
                self.left = string_to_key(value, known);
            } else if text_eq(label, "right") {
                self.right = string_to_key(value, known);
            } else if text_eq(label, "up") {
                self.up = string_to_key(value, known);
            } else if text_eq(label, "down") {
                self.down = string_to_key(value, known);
            } else if text_eq(label, "ability_key") {
                let parts = split_comma(value.as_str());
                proof {
                    assert(parts@.map_values(|p: String| p@).len() == parts@.len());
                }
                let p0 = remove_char(parts[0].as_str(), '[');
                let p4 = remove_char(parts[4].as_str(), ']');
                proof {
                    assert(parts@.map_values(|p: String| p@)[0] == parts@[0]@);
                    assert(parts@.map_values(|p: String| p@)[1] == parts@[1]@);
                    assert(parts@.map_values(|p: String| p@)[2] == parts@[2]@);
                    assert(parts@.map_values(|p: String| p@)[3] == parts@[3]@);
                    assert(parts@.map_values(|p: String| p@)[4] == parts@[4]@);
                }
                let k0 = string_to_key(&p0, known);
                let k1 = string_to_key(&parts[1], known);
                let k2 = string_to_key(&parts[2], known);
                let k3 = string_to_key(&parts[3], known);
                let k4 = string_to_key(&p4, known);
                self.ability_key = [k0, k1, k2, k3, k4];
            }
            i = i + 1;
        }
        assert(v@.take(v@.len() as int) =~= v@);
    }

    /// The key bindings as a list to save: each of the four moves with its
    /// key's name, then `"ability_key"` with the five ability keys' names
    /// (see `key_list_text`).
    pub fn keybinds_to_vec(&self) -> (r: Vec<[String; 2]>)
        ensures
            saved_bindings(r@, *self),
    {
        let mut ab = String::from_str("[");
        ab.append(self.ability_key[0].as_str());
        ab.append(", ");
        ab.append(self.ability_key[1].as_str());
        ab.append(", ");
        ab.append(self.ability_key[2].as_str());
        ab.append(", ");
        ab.append(self.ability_key[3].as_str());
        ab.append(", ");
        ab.append(self.ability_key[4].as_str());
        ab.append("]");
        let mut r: Vec<[String; 2]> = Vec::new();
        r.push([String::from_str("left"), self.left.clone()]);
        r.push([String::from_str("right"), self.right.clone()]);
        r.push([String::from_str("up"), self.up.clone()]);
        r.push([String::from_str("down"), self.down.clone()]);
        r.push([String::from_str("ability_key"), ab]);
        r
    }
}

/// The settings of a new player: W, A, S, D to move, the number keys one
/// to five for the ability slots, no abilities picked, the "fonky-monky"
/// texture pack and no best round.
pub fn default_user_values() -> (u: UserData)
    ensures
        u.left@ == "A"@,
        u.right@ == "D"@,
        u.up@ == "W"@,
        u.down@ == "S"@,
        u.ability_key[0]@ == "Key1"@,
        u.ability_key[1]@ == "Key2"@,
        u.ability_key[2]@ == "Key3"@,
        u.ability_key[3]@ == "Key4"@,
        u.ability_key[4]@ == "Key5"@,
        forall|k: int| 0 <= k < 5 ==> (#[trigger] u.abilities[k]) is Null,
        u.texture@ == "fonky-monky"@,
        u.high_round == 0,
{
    UserData {
        left: String::from_str("A"),
        right: String::from_str("D"),
        up: String::from_str("W"),
        down: String::from_str("S"),
        abilities: [Abilities::Null, Abilities::Null, Abilities::Null, Abilities::Null, Abilities::Null],
        ability_key: [
            String::from_str("Key1"),
            String::from_str("Key2"),
            String::from_str("Key3"),
            String::from_str("Key4"),
            String::from_str("Key5"),
        ],
        texture: String::from_str("fonky-monky"),
        high_round: 0,
    }
}

pub open spec fn click_cue(cue: (String, u32)) -> bool {
    cue.0@ == "click"@ && cue.1 == 0
}

fn click() -> (cue: (String, u32))
    ensures
        click_cue(cue),
{
    (String::from_str("click"), 0)
}

/// Binds `key` (a key's name) to the action whose row has focus on the key
/// binding screen, rows zero to eight being up, down, left, right and the
/// five ability slots; with no row in focus nothing is rebound.  The click
/// sound is queued and the focus is taken away.
pub fn rebind_key(data: &mut GameData, user: &mut UserData, key: String)
    ensures
        final(data).keybind_focus == -3,
        final(data).sounds@.len() == old(data).sounds@.len() + 1,
        final(data).sounds@.take(old(data).sounds@.len() as int) == old(data).sounds@,
        click_cue(final(data).sounds@.last()),
        final(data).player == old(data).player,
        final(data).enemies@ == old(data).enemies@,
        final(data).effects@ == old(data).effects@,
        final(user).up@ == (if old(data).keybind_focus == 0 {
            key@
        } else {
            old(user).up@
        }),
        final(user).down@ == (if old(data).keybind_focus == 1 {
            key@
        } else {
            old(user).down@
        }),
        final(user).left@ == (if old(data).keybind_focus == 2 {
            key@
        } else {
            old(user).left@
        }),
        final(user).right@ == (if old(data).keybind_focus == 3 {
            key@
        } else {
            old(user).right@
        }),
        forall|k: int|
            0 <= k < 5 ==> (#[trigger] final(user).ability_key[k])@ == (if old(data).keybind_focus == 4 + k {
                key@
            } else {
                old(user).ability_key[k]@
            }),
        final(user).abilities == old(user).abilities,
        final(user).texture == old(user).texture,
        final(user).high_round == old(user).high_round,
{
    data.sounds.push(click());
    assert(data.sounds@.take(old(data).sounds@.len() as int) =~= old(data).sounds@);
    let slot: i64 = data.keybind_focus;
    if slot == 0 {
        user.up = key;
    } else if slot == 1 {
        user.down = key;
    } else if slot == 2 {
        user.left = key;
    } else if slot == 3 {
        user.right = key;
    } else if 4 <= slot && slot <= 8 {
        let k = (slot - 4) as usize;
        user.ability_key[k] = key;
    }
    data.keybind_focus = -3;
}

/// Gives focus to row `row` of the key binding screen, or takes the focus
/// away with `-3`, and queues the click sound.
pub fn focus_keybind(data: &mut GameData, row: i64)
    ensures
        final(data).keybind_focus == row,
        final(data).sounds@ == old(data).sounds@.push(final(data).sounds@.last()),
        click_cue(final(data).sounds@.last()),
        final(data).player == old(data).player,
        final(data).enemies@ == old(data).enemies@,
        final(data).effects@ == old(data).effects@,
{
    data.sounds.push(click());
    data.keybind_focus = row;
}

/// The position of each ability in the order the picker lists them.
pub open spec fn kind_index(a: Abilities) -> int {
    match a {
        Abilities::Null => 0,
        Abilities::RBlast => 1,
        Abilities::Blip => 2,
        Abilities::Jump => 3,
        Abilities::DeathLaser => 4,
        Abilities::Bank => 5,
        Abilities::Teleport => 6,
        Abilities::BloodBath => 7,
        Abilities::Peaceful => 8,
        Abilities::Martyrdom => 9,
        Abilities::Airstrike(_) => 10,
        Abilities::WallOfFire(_) => 11,
        Abilities::Redstone => 12,
        Abilities::ColdStorage => 13,
        Abilities::ShortTermGains => 14,
        Abilities::Dope => 15,
    }
}

/// An ability as the picker lists it: an airstrike or a wall of fire with
/// all of its points at the corner.
pub open spec fn unplaced(a: Abilities) -> bool {
    match a {
        Abilities::Airstrike(b) => forall|k: int| 0 <= k < 5 ==> #[trigger] b[k] == Coord { x: 0, y: 0 },
        Abilities::WallOfFire(b) => forall|k: int| 0 <= k < 5 ==> #[trigger] b[k] == Coord { x: 0, y: 0 },
        _ => true,
    }
}

/// Every ability, in the order they are declared.
pub fn all_abilities() -> (v: Vec<Abilities>)
    ensures
        v@.len() == 16,
        forall|i: int| 0 <= i < 16 ==> kind_index(#[trigger] v@[i]) == i && unplaced(v@[i]),
{
    let corner = [Coord { x: 0, y: 0 }; 5];
    let mut v: Vec<Abilities> = Vec::new();
    v.push(Abilities::Null);
    v.push(Abilities::RBlast);
    v.push(Abilities::Blip);
    v.push(Abilities::Jump);
    v.push(Abilities::DeathLaser);
    v.push(Abilities::Bank);
    v.push(Abilities::Teleport);
    v.push(Abilities::BloodBath);
    v.push(Abilities::Peaceful);
    v.push(Abilities::Martyrdom);
    v.push(Abilities::Airstrike(corner));
    v.push(Abilities::WallOfFire(corner));
    v.push(Abilities::Redstone);
    v.push(Abilities::ColdStorage);
    v.push(Abilities::ShortTermGains);
    v.push(Abilities::Dope);
    assert(forall|k: int| 0 <= k < 5 ==> #[trigger] corner[k] == Coord { x: 0, y: 0 });
    v
}

/// The page the ability picker shows: a page past the last one falls back
/// to the one after the last full page.
pub open spec fn shown_page(page: usize) -> int {
    if 5 * page > 15 {
        3
    } else {
        page as int
    }
}

/// The abilities on the picker's current page, five to a page, the empty
/// "no ability" left out; a page past the end is brought back first (see
/// `shown_page`).
pub fn ability_page(sel: &mut SelectAbility) -> (page: Vec<Abilities>)
    requires
        old(sel).page <= usize::MAX / 5,
    ensures
        final(sel).page == shown_page(old(sel).page),
        final(sel).slot == old(sel).slot,
        final(sel).open == old(sel).open,
        page@.len() == (if 5 * final(sel).page + 5 <= 15 {
            5
        } else {
            15 - 5 * final(sel).page
        }),
        forall|i: int|
            0 <= i < page@.len() ==> kind_index(#[trigger] page@[i]) == 1 + 5 * final(sel).page + i
                && unplaced(page@[i]),
{
    let all = all_abilities();
    if sel.page * 5 > 15 {
        sel.page = 3;
    }
    let first = 1 + sel.page * 5;
    let mut page: Vec<Abilities> = Vec::new();
    let mut i: usize = first;
    while i < 16 && i < first + 5
        invariant
            first <= i <= 16,
            i <= first + 5,
            first == 1 + 5 * sel.page,
            sel.page <= 3,
            page@.len() == i - first,
            all@.len() == 16,
            forall|k: int| 0 <= k < 16 ==> kind_index(#[trigger] all@[k]) == k && unplaced(all@[k]),
            forall|k: int|
                0 <= k < page@.len() ==> kind_index(#[trigger] page@[k]) == first + k && unplaced(page@[k]),
        decreases 16 - i,
    {
        page.push(all[i]);
        i = i + 1;
    }
    page
}

/// The ability picker's answer to the Escape key: when it was pressed the
/// picker closes, and otherwise it stays as it was; it never opens here.
pub fn picker_escape(sel: &mut SelectAbility, escape: bool)
    ensures
        final(sel).open == (old(sel).open && !escape),
        final(sel).slot == old(sel).slot,
        final(sel).page == old(sel).page,
{
    if escape {
        sel.open = false;
    }
}

/// What a click in the ability picker asks for.
pub enum PickerClick {
    /// The save button, which closes the picker.
    Close,
    /// One of the five slots, to be filled next.
    Slot(usize),
    PreviousPage,
    NextPage,
    /// An ability of the current page, for the selected slot.
    Choose(Abilities),
}

/// Handles a click in the ability picker: closing it, selecting a slot,
/// turning the page (never before the first), or putting an ability in the
/// selected slot, after which the settings are to be saved (the result).
/// Every click queues the click sound.
pub fn ability_picker_click(data: &mut GameData, user: &mut UserData, click_at: PickerClick) -> (save: bool)
    requires
        old(data).select_ability.slot < 5,
        click_at matches PickerClick::Slot(f) ==> f < 5,
        click_at is NextPage ==> old(data).select_ability.page < usize::MAX,
    ensures
        final(data).sounds@ == old(data).sounds@.push(final(data).sounds@.last()),
        click_cue(final(data).sounds@.last()),
        final(data).select_ability.slot < 5,
        final(data).select_ability.open ==> old(data).select_ability.open,
        save == click_at is Choose,
        match click_at {
            PickerClick::Close => !final(data).select_ability.open
                && final(data).select_ability.slot == old(data).select_ability.slot
                && final(data).select_ability.page == old(data).select_ability.page,
            PickerClick::Slot(f) => final(data).select_ability == (SelectAbility {
                slot: f,
                ..old(data).select_ability
            }),
            PickerClick::PreviousPage => final(data).select_ability == (SelectAbility {
                page: if old(data).select_ability.page > 0 {
                    (old(data).select_ability.page - 1) as usize
                } else {
                    0
                },
                ..old(data).select_ability
            }),
            PickerClick::NextPage => final(data).select_ability == (SelectAbility {
                page: (old(data).select_ability.page + 1) as usize,
                ..old(data).select_ability
            }),
            PickerClick::Choose(_) => final(data).select_ability == old(data).select_ability,
        },
        match click_at {
            PickerClick::Choose(a) => final(user).abilities@ == old(user).abilities@.update(
                old(data).select_ability.slot as int,
                a,
            ),
            _ => final(user).abilities == old(user).abilities,
        },
        final(user).left == old(user).left,
        final(user).right == old(user).right,
        final(user).up == old(user).up,
        final(user).down == old(user).down,
        final(user).ability_key == old(user).ability_key,
        final(user).texture == old(user).texture,
        final(user).high_round == old(user).high_round,
        final(data).player == old(data).player,
        final(data).enemies@ == old(data).enemies@,
        final(data).effects@ == old(data).effects@,
{
    data.sounds.push(click());
    match click_at {
        PickerClick::Close => {
            data.select_ability.open = false;
            false
        },
        PickerClick::Slot(f) => {
            data.select_ability.slot = f;
            false
        },
        PickerClick::PreviousPage => {
            if data.select_ability.page > 0 {
                data.select_ability.page = data.select_ability.page - 1;
            }
            false
        },
        PickerClick::NextPage => {
            data.select_ability.page = data.select_ability.page + 1;
            false
        },
        PickerClick::Choose(a) => {
            user.abilities[data.select_ability.slot] = a;
            true
        },
    }
}

/// What a click on the home screen asks for, other than quitting.
pub enum HomeClick {
    Textures,
    Keybinds,
    /// "Pick New" beside ability slot `i`.
    PickNew(usize),
}

/// Handles a click on the home screen: opening the texture pack list, the
/// key binding screen, or the ability picker for a slot.  Every click
/// queues the click sound.
pub fn home_click(data: &mut GameData, click_at: HomeClick)
    requires
        click_at matches HomeClick::PickNew(i) ==> i < 5,
    ensures
        final(data).sounds@ == old(data).sounds@.push(final(data).sounds@.last()),
        click_cue(final(data).sounds@.last()),
        match click_at {
            HomeClick::Textures => final(data).select_texture_pack && final(data).select_keybinds
                == old(data).select_keybinds && final(data).select_ability == old(data).select_ability,
            HomeClick::Keybinds => final(data).select_keybinds && final(data).select_texture_pack
                == old(data).select_texture_pack && final(data).select_ability == old(data).select_ability,
            HomeClick::PickNew(i) => final(data).select_ability == (SelectAbility {
                open: true,
                slot: i,
                ..old(data).select_ability
            }) && final(data).select_keybinds == old(data).select_keybinds
                && final(data).select_texture_pack == old(data).select_texture_pack,
        },
        final(data).player == old(data).player,
        final(data).enemies@ == old(data).enemies@,
        final(data).effects@ == old(data).effects@,
        final(data).alive == old(data).alive,
{
    match click_at {
        HomeClick::Textures => {
            data.select_texture_pack = true;
        },
        HomeClick::Keybinds => {
            data.select_keybinds = true;
        },
        HomeClick::PickNew(i) => {
            data.select_ability.open = true;
            data.select_ability.slot = i;
        },
    }
    data.sounds.push(click());
}

/// Whether a path starts with the texture pack directory `./res` and one
/// separator, `/` or `\`.
pub open spec fn in_res_dir(path: Seq<char>) -> bool {
    &&& path.len() >= 6
    &&& path[0] == '.' && path[1] == '/' && path[2] == 'r' && path[3] == 'e' && path[4] == 's'
    &&& (path[5] == '/' || path[5] == '\\')
}

/// The name of a texture pack folder given by its path: the path with the
/// leading `./res` directory and the separator after it taken off.
pub open spec fn pack_name_of(path: Seq<char>) -> Seq<char> {
    if in_res_dir(path) {
        path.skip(6)
    } else {
        path
    }
}

/// The name of the texture pack folder at `path` (see `pack_name_of`).
pub fn pack_name(path: &str) -> (name: String)
    ensures
        name@ == pack_name_of(path@),
{
    let n = path.unicode_len();
    if n >= 6 && path.get_char(0) == '.' && path.get_char(1) == '/' && path.get_char(2) == 'r'
        && path.get_char(3) == 'e' && path.get_char(4) == 's' && (path.get_char(5) == '/'
        || path.get_char(5) == '\\') {
        let r = String::from_str(path.substring_char(6, n));
        assert(r@ =~= path@.skip(6));
        r
    } else {
        String::from_str(path)
    }
}

/// Chooses a texture pack from the list of the folders under `./res`: the
/// pack's name is the folder's own name (see `pack_name_of`), the list
/// closes and the click sound is queued.  The settings are to be saved
/// afterwards.
pub fn choose_texture(data: &mut GameData, user: &mut UserData, path: &str)
    ensures
        final(user).texture@ == pack_name_of(path@),
        !final(data).select_texture_pack,
        final(data).sounds@ == old(data).sounds@.push(final(data).sounds@.last()),
        click_cue(final(data).sounds@.last()),
        final(user).left == old(user).left,
        final(user).right == old(user).right,
        final(user).up == old(user).up,
        final(user).down == old(user).down,
        final(user).ability_key == old(user).ability_key,
        final(user).abilities == old(user).abilities,
        final(user).high_round == old(user).high_round,
        final(data).select_keybinds == old(data).select_keybinds,
        final(data).select_ability == old(data).select_ability,
        final(data).player == old(data).player,
        final(data).enemies@ == old(data).enemies@,
        final(data).effects@ == old(data).effects@,
        final(data).alive == old(data).alive,
{
    data.sounds.push(click());
    user.texture = pack_name(path);
    data.select_texture_pack = false;
}

} // verus!
