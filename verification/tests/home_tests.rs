use bare_king::ability::Abilities;
use bare_king::game_data::default_game_state;
use bare_king::keys::key_names;
use bare_king::home::{
    ability_page, ability_picker_click, all_abilities, choose_texture, pack_name, picker_escape, default_user_values,
    focus_keybind, home_click, rebind_key, string_to_key, HomeClick, PickerClick,
};

fn known() -> Vec<String> {
    ["A", "D", "W", "S", "Key1", "Key2", "Key3", "Key4", "Key5", "Up", "Space", "Unknown"]
        .iter()
        .map(|s| s.to_string())
        .collect()
}

#[test]
fn default_settings() {
    let u = default_user_values();
    assert_eq!((u.left.as_str(), u.right.as_str(), u.up.as_str(), u.down.as_str()), ("A", "D", "W", "S"));
    assert_eq!(u.ability_key, ["Key1", "Key2", "Key3", "Key4", "Key5"].map(|s| s.to_string()));
    assert_eq!(u.texture, "fonky-monky");
    assert!(u.abilities.iter().all(|a| matches!(a, Abilities::Null)));
}

#[test]
fn unknown_key_names_become_unknown() {
    assert_eq!(string_to_key(&"Space".to_string(), &known()), "Space");
    assert_eq!(string_to_key(&"Spacebar".to_string(), &known()), "Unknown");
}

#[test]
fn keybinds_survive_saving() {
    let mut u = default_user_values();
    u.left = "Up".to_string();
    u.ability_key[2] = "Space".to_string();
    let saved = u.keybinds_to_vec();
    assert_eq!(saved[0], ["left".to_string(), "Up".to_string()]);
    assert_eq!(saved[4][1], "[Key1, Key2, Space, Key4, Key5]");
    let mut fresh = default_user_values();
    fresh.keybinds_from_vec(saved, &known());
    assert_eq!(fresh.left, "Up");
    assert_eq!(fresh.right, "D");
    assert_eq!(fresh.ability_key, u.ability_key);
}

#[test]
fn keybinds_later_entries_win_and_labels_are_checked() {
    let mut u = default_user_values();
    let list = vec![
        ["up".to_string(), "Space".to_string()],
        ["jump".to_string(), "A".to_string()],
        ["up".to_string(), "Nope".to_string()],
        ["down".to_string(), "W".to_string()],
    ];
    u.keybinds_from_vec(list, &known());
    assert_eq!(u.up, "Unknown");
    assert_eq!(u.down, "W");
    assert_eq!(u.left, "A");
}

#[test]
fn ability_keys_read_with_brackets_taken_off() {
    let mut u = default_user_values();
    let list = vec![["ability_key".to_string(), "[[Space], Up, Key3, W, A]]".to_string()]];
    u.keybinds_from_vec(list, &known());
    assert_eq!(u.ability_key, ["Unknown", "Up", "Key3", "W", "A"].map(|s| s.to_string()));
}

#[test]
fn rebinding_goes_to_the_focused_row() {
    let mut g = default_game_state();
    let mut u = default_user_values();
    g.keybind_focus = 5;
    rebind_key(&mut g, &mut u, "Space".to_string());
    assert_eq!(u.ability_key[1], "Space");
    assert_eq!(g.keybind_focus, -3);
    assert_eq!(g.sounds, vec![("click".to_string(), 0)]);
    // with no row in focus nothing is rebound
    rebind_key(&mut g, &mut u, "A".to_string());
    assert_eq!((u.up.as_str(), u.down.as_str(), u.left.as_str(), u.right.as_str()), ("W", "S", "A", "D"));
    assert_eq!(u.ability_key, ["Key1", "Space", "Key3", "Key4", "Key5"].map(|s| s.to_string()));
    assert_eq!(g.sounds.len(), 2);
    g.keybind_focus = 3;
    rebind_key(&mut g, &mut u, "W".to_string());
    assert_eq!(u.right, "W");
    g.keybind_focus = 9;
    rebind_key(&mut g, &mut u, "S".to_string());
    assert_eq!(u.down, "S");
    focus_keybind(&mut g, 2);
    assert_eq!(g.keybind_focus, 2);
}

#[test]
fn abilities_in_declared_order() {
    let all = all_abilities();
    assert_eq!(all.len(), 16);
    assert!(matches!(all[0], Abilities::Null));
    assert!(matches!(all[10], Abilities::Airstrike(_)));
    assert!(matches!(all[15], Abilities::Dope));
}

#[test]
fn picker_pages() {
    let mut g = default_game_state();
    let p = ability_page(&mut g.select_ability);
    assert_eq!(p.len(), 5);
    assert!(matches!(p[0], Abilities::RBlast));
    assert!(matches!(p[4], Abilities::Bank));
    g.select_ability.page = 2;
    let p = ability_page(&mut g.select_ability);
    assert!(matches!(p[0], Abilities::WallOfFire(_)));
    assert!(matches!(p[4], Abilities::Dope));
    g.select_ability.page = 3;
    assert!(ability_page(&mut g.select_ability).is_empty());
    assert_eq!(g.select_ability.page, 3);
    g.select_ability.page = 7;
    assert!(ability_page(&mut g.select_ability).is_empty());
    assert_eq!(g.select_ability.page, 3);
}

#[test]
fn picker_clicks() {
    let mut g = default_game_state();
    let mut u = default_user_values();
    g.select_ability.open = true;
    assert!(!ability_picker_click(&mut g, &mut u, PickerClick::Slot(3)));
    assert_eq!(g.select_ability.slot, 3);
    assert!(ability_picker_click(&mut g, &mut u, PickerClick::Choose(Abilities::Jump)));
    assert!(matches!(u.abilities[3], Abilities::Jump));
    ability_picker_click(&mut g, &mut u, PickerClick::PreviousPage);
    assert_eq!(g.select_ability.page, 0);
    ability_picker_click(&mut g, &mut u, PickerClick::NextPage);
    assert_eq!(g.select_ability.page, 1);
    ability_picker_click(&mut g, &mut u, PickerClick::Close);
    assert!(!g.select_ability.open);
    assert_eq!(g.sounds.len(), 5);
}

#[test]
fn home_clicks() {
    let mut g = default_game_state();
    home_click(&mut g, HomeClick::PickNew(4));
    assert!(g.select_ability.open);
    assert_eq!(g.select_ability.slot, 4);
    home_click(&mut g, HomeClick::Keybinds);
    assert!(g.select_keybinds);
    home_click(&mut g, HomeClick::Textures);
    assert!(g.select_texture_pack);
    assert_eq!(g.sounds.len(), 3);
}

#[test]
fn choosing_a_texture_pack() {
    let mut g = default_game_state();
    let mut u = default_user_values();
    g.select_texture_pack = true;
    choose_texture(&mut g, &mut u, "./res\\Programmer Art");
    assert_eq!(u.texture, "Programmer Art");
    choose_texture(&mut g, &mut u, "./res/Pack");
    assert_eq!(u.texture, "Pack");
    assert!(!g.select_texture_pack);
    assert_eq!(g.sounds, vec![("click".to_string(), 0), ("click".to_string(), 0)]);
}

#[test]
fn a_pack_is_named_by_its_folder() {
    assert_eq!(pack_name("./res\\fonky-monky"), "fonky-monky");
    assert_eq!(pack_name("./res/fonky-monky"), "fonky-monky");
    assert_eq!(pack_name("./res/a\\b"), "a\\b");
    assert_eq!(pack_name("./res/"), "");
    assert_eq!(pack_name("Pack"), "Pack");
    assert_eq!(pack_name("./resources/x"), "./resources/x");
}

#[test]
fn escape_closes_the_picker_and_nothing_opens_it() {
    let mut g = default_game_state();
    g.select_ability.open = true;
    picker_escape(&mut g.select_ability, false);
    assert!(g.select_ability.open);
    picker_escape(&mut g.select_ability, true);
    assert!(!g.select_ability.open);
    picker_escape(&mut g.select_ability, false);
    assert!(!g.select_ability.open);
    assert_eq!((g.select_ability.slot, g.select_ability.page), (1, 0));
}

#[test]
fn the_key_table_names_every_key_plainly() {
    let names = key_names();
    assert_eq!(names.len(), 121);
    assert_eq!(names[0], "Space");
    assert_eq!(names[120], "Unknown");
    assert!(names.iter().all(|n| n.chars().all(|c| c.is_ascii_alphanumeric())));
}

#[test]
fn every_ability_has_a_name_of_its_own() {
    let all = all_abilities();
    let names: Vec<String> = all.iter().map(|a| bare_king::ability::metadata(*a).name).collect();
    for i in 0..names.len() {
        for j in 0..names.len() {
            assert_eq!(names[i] == names[j], i == j);
        }
    }
}
