use bare_king::player::{player_movement, Player};
use bare_king::text::{
    help_text_wraps, remove_char, split_comma, split_description, wrap_help_text,
};

#[test]
fn splitting_at_comma_space() {
    assert_eq!(split_comma("a, b, c"), vec!["a", "b", "c"]);
    assert_eq!(split_comma("a, , b"), vec!["a", "", "b"]);
    assert_eq!(split_comma("a,b"), vec!["a,b"]);
    assert_eq!(split_comma(""), vec![""]);
    assert_eq!(split_comma("x, "), vec!["x", ""]);
    assert_eq!(remove_char("[[ab]", '['), "ab]");
}

#[test]
fn short_descriptions_stay_on_one_line() {
    let (one, two) = split_description("kills everything in a circle around the player");
    assert_eq!(one, "kills everything in a circle around the player");
    assert_eq!(two, "");
}

#[test]
fn long_descriptions_break_at_a_space() {
    let d = "+ 30 energy, but you have to pay it back 2 energy at a time. If you cannot you die";
    let (one, two) = split_description(d);
    assert_eq!(one, "+ 30 energy, but you have to pay it back 2 energy at a ");
    assert_eq!(two, "time. If you cannot you die");
    let d = "Destroys pieces in a large radius anywhere on the board with a 2 move delay";
    let (one, two) = split_description(d);
    assert_eq!(format!("{}{}", one, two), d);
    assert_eq!(one, "Destroys pieces in a large radius anywhere on the board ");
}

#[test]
fn no_space_near_the_end_keeps_fifty_three() {
    let d = "a".repeat(70);
    let (one, two) = split_description(&d);
    assert_eq!(one.len(), 52);
    assert_eq!(two.len(), 18);
}

#[test]
fn help_text_wraps_at_spaces() {
    let t = "Hover over a blue help icon if you are not sure what to do. To toggle help icons press this question mark ";
    assert!(help_text_wraps(t));
    let lines = wrap_help_text(t);
    assert_eq!(lines.concat(), t);
    assert_eq!(lines[0], "Hover over a blue help icon if you are not sure ");
    for l in &lines[..lines.len() - 1] {
        assert!(l.len() <= 50 && l.ends_with(' '));
    }
    assert_eq!(lines.last().unwrap(), "question mark ");
    assert_eq!(lines.len(), 3);
}

#[test]
fn help_text_without_trailing_space_keeps_its_tail() {
    let lines = wrap_help_text("short text");
    assert_eq!(lines, vec!["short ", "text"]);
}

#[test]
fn help_text_without_spaces_cannot_wrap() {
    assert!(!help_text_wraps(&"x".repeat(60)));
    assert!(!help_text_wraps(""));
    assert!(help_text_wraps("ok "));
}

#[test]
fn movement_keys_in_order() {
    let mut p = Player { half_x: 0, half_y: 0, target_x: 0, target_y: 15, sub_round: 0, energy: 0 };
    assert!(player_movement(&mut p, true, true, false, false));
    assert_eq!((p.target_x, p.target_y), (0, 15));
    assert!(player_movement(&mut p, false, true, true, false));
    assert_eq!((p.target_x, p.target_y), (1, 15));
    assert!(player_movement(&mut p, false, false, false, true));
    assert_eq!((p.target_x, p.target_y), (1, 15));
    assert!(player_movement(&mut p, false, false, true, true));
    assert_eq!((p.target_x, p.target_y), (1, 14));
    assert!(!player_movement(&mut p, false, false, false, false));
}

#[test]
fn the_drawn_king_slides_half_a_square_per_frame() {
    let mut p = Player { half_x: 16, half_y: 16, target_x: 10, target_y: 7, sub_round: 0, energy: 0 };
    p.update_pos();
    assert_eq!((p.half_x, p.half_y), (17, 15));
    for _ in 0..10 {
        p.update_pos();
    }
    assert_eq!((p.half_x, p.half_y), (20, 14));
}

#[test]
fn texts_with_short_words_wrap() {
    let t = "word ".repeat(40);
    assert!(help_text_wraps(&t));
    assert!(!help_text_wraps("no"));
    assert!(help_text_wraps("a b"));
    assert!(!help_text_wraps(&"x".repeat(60)));
}
