use vstd::prelude::*;
use crate::home::names;

verus! {

/// The names of the keys there are, as key bindings are saved: each key's
/// name in the key table of the windowing library, `"Unknown"` last.
pub open spec fn known_keys() -> Seq<Seq<char>> {
    key_group0() + key_group1() + key_group2() + key_group3() + key_group4() + key_group5() + key_group6()
}

pub open spec fn key_group0() -> Seq<Seq<char>> {
    seq![
        "Space"@,
        "Apostrophe"@,
        "Comma"@,
        "Minus"@,
        "Period"@,
        "Slash"@,
        "Key0"@,
        "Key1"@,
        "Key2"@,
        "Key3"@,
        "Key4"@,
        "Key5"@,
        "Key6"@,
        "Key7"@,
        "Key8"@,
        "Key9"@,
        "Semicolon"@,
        "Equal"@,
        "A"@,
        "B"@,
    ]
}

pub open spec fn key_group1() -> Seq<Seq<char>> {
    seq![
        "C"@,
        "D"@,
        "E"@,
        "F"@,
        "G"@,
        "H"@,
        "I"@,
        "J"@,
        "K"@,
        "L"@,
        "M"@,
        "N"@,
        "O"@,
        "P"@,
        "Q"@,
        "R"@,
        "S"@,
        "T"@,
        "U"@,
        "V"@,
    ]
}

pub open spec fn key_group2() -> Seq<Seq<char>> {
    seq![
        "W"@,
        "X"@,
        "Y"@,
        "Z"@,
        "LeftBracket"@,
        "Backslash"@,
        "RightBracket"@,
        "GraveAccent"@,
        "World1"@,
        "World2"@,
        "Escape"@,
        "Enter"@,
        "Tab"@,
        "Backspace"@,
        "Insert"@,
        "Delete"@,
        "Right"@,
        "Left"@,
        "Down"@,
        "Up"@,
    ]
}

pub open spec fn key_group3() -> Seq<Seq<char>> {
    seq![
        "PageUp"@,
        "PageDown"@,
        "Home"@,
        "End"@,
        "CapsLock"@,
        "ScrollLock"@,
        "NumLock"@,
        "PrintScreen"@,
        "Pause"@,
        "F1"@,
        "F2"@,
        "F3"@,
        "F4"@,
        "F5"@,
        "F6"@,
        "F7"@,
        "F8"@,
        "F9"@,
        "F10"@,
        "F11"@,
    ]
}

pub open spec fn key_group4() -> Seq<Seq<char>> {
    seq![
        "F12"@,
        "F13"@,
        "F14"@,
        "F15"@,
        "F16"@,
        "F17"@,
        "F18"@,
        "F19"@,
        "F20"@,
        "F21"@,
        "F22"@,
        "F23"@,
        "F24"@,
        "F25"@,
        "Kp0"@,
        "Kp1"@,
        "Kp2"@,
        "Kp3"@,
        "Kp4"@,
        "Kp5"@,
    ]
}

pub open spec fn key_group5() -> Seq<Seq<char>> {
    seq![
        "Kp6"@,
        "Kp7"@,
        "Kp8"@,
        "Kp9"@,
        "KpDecimal"@,
        "KpDivide"@,
        "KpMultiply"@,
        "KpSubtract"@,
        "KpAdd"@,
        "KpEnter"@,
        "KpEqual"@,
        "LeftShift"@,
        "LeftControl"@,
        "LeftAlt"@,
        "LeftSuper"@,
        "RightShift"@,
        "RightControl"@,
        "RightAlt"@,
        "RightSuper"@,
        "Menu"@,
    ]
}

pub open spec fn key_group6() -> Seq<Seq<char>> {
    seq![
        "Unknown"@,
    ]
}

fn push_group0(v: &mut Vec<String>)
    ensures
        names(final(v)@) == names(old(v)@) + key_group0(),
{
    let ghost start = names(v@);
    v.push(String::from_str("Space"));
    v.push(String::from_str("Apostrophe"));
    v.push(String::from_str("Comma"));
    v.push(String::from_str("Minus"));
    v.push(String::from_str("Period"));
    v.push(String::from_str("Slash"));
    v.push(String::from_str("Key0"));
    v.push(String::from_str("Key1"));
    v.push(String::from_str("Key2"));
    v.push(String::from_str("Key3"));
    v.push(String::from_str("Key4"));
    v.push(String::from_str("Key5"));
    v.push(String::from_str("Key6"));
    v.push(String::from_str("Key7"));
    v.push(String::from_str("Key8"));
    v.push(String::from_str("Key9"));
    v.push(String::from_str("Semicolon"));
    v.push(String::from_str("Equal"));
    v.push(String::from_str("A"));
    v.push(String::from_str("B"));
    assert(names(v@) =~= start + key_group0());
}

fn push_group1(v: &mut Vec<String>)
    ensures
        names(final(v)@) == names(old(v)@) + key_group1(),
{
    let ghost start = names(v@);
    v.push(String::from_str("C"));
    v.push(String::from_str("D"));
    v.push(String::from_str("E"));
    v.push(String::from_str("F"));
    v.push(String::from_str("G"));
    v.push(String::from_str("H"));
    v.push(String::from_str("I"));
    v.push(String::from_str("J"));
    v.push(String::from_str("K"));
    v.push(String::from_str("L"));
    v.push(String::from_str("M"));
    v.push(String::from_str("N"));
    v.push(String::from_str("O"));
    v.push(String::from_str("P"));
    v.push(String::from_str("Q"));
    v.push(String::from_str("R"));
    v.push(String::from_str("S"));
    v.push(String::from_str("T"));
    v.push(String::from_str("U"));
    v.push(String::from_str("V"));
    assert(names(v@) =~= start + key_group1());
}

fn push_group2(v: &mut Vec<String>)
    ensures
        names(final(v)@) == names(old(v)@) + key_group2(),
{
    let ghost start = names(v@);
    v.push(String::from_str("W"));
    v.push(String::from_str("X"));
    v.push(String::from_str("Y"));
    v.push(String::from_str("Z"));
    v.push(String::from_str("LeftBracket"));
    v.push(String::from_str("Backslash"));
    v.push(String::from_str("RightBracket"));
    v.push(String::from_str("GraveAccent"));
    v.push(String::from_str("World1"));
    v.push(String::from_str("World2"));
    v.push(String::from_str("Escape"));
    v.push(String::from_str("Enter"));
    v.push(String::from_str("Tab"));
    v.push(String::from_str("Backspace"));
    v.push(String::from_str("Insert"));
    v.push(String::from_str("Delete"));
    v.push(String::from_str("Right"));
    v.push(String::from_str("Left"));
    v.push(String::from_str("Down"));
    v.push(String::from_str("Up"));
    assert(names(v@) =~= start + key_group2());
}

fn push_group3(v: &mut Vec<String>)
    ensures
        names(final(v)@) == names(old(v)@) + key_group3(),
{
    let ghost start = names(v@);
    v.push(String::from_str("PageUp"));
    v.push(String::from_str("PageDown"));
    v.push(String::from_str("Home"));
    v.push(String::from_str("End"));
    v.push(String::from_str("CapsLock"));
    v.push(String::from_str("ScrollLock"));
    v.push(String::from_str("NumLock"));
    v.push(String::from_str("PrintScreen"));
    v.push(String::from_str("Pause"));
    v.push(String::from_str("F1"));
    v.push(String::from_str("F2"));
    v.push(String::from_str("F3"));
    v.push(String::from_str("F4"));
    v.push(String::from_str("F5"));
    v.push(String::from_str("F6"));
    v.push(String::from_str("F7"));
    v.push(String::from_str("F8"));
    v.push(String::from_str("F9"));
    v.push(String::from_str("F10"));
    v.push(String::from_str("F11"));
    assert(names(v@) =~= start + key_group3());
}

fn push_group4(v: &mut Vec<String>)
    ensures
        names(final(v)@) == names(old(v)@) + key_group4(),
{
    let ghost start = names(v@);
    v.push(String::from_str("F12"));
    v.push(String::from_str("F13"));
    v.push(String::from_str("F14"));
    v.push(String::from_str("F15"));
    v.push(String::from_str("F16"));
    v.push(String::from_str("F17"));
    v.push(String::from_str("F18"));
    v.push(String::from_str("F19"));
    v.push(String::from_str("F20"));
    v.push(String::from_str("F21"));
    v.push(String::from_str("F22"));
    v.push(String::from_str("F23"));
    v.push(String::from_str("F24"));
    v.push(String::from_str("F25"));
    v.push(String::from_str("Kp0"));
    v.push(String::from_str("Kp1"));
    v.push(String::from_str("Kp2"));
    v.push(String::from_str("Kp3"));
    v.push(String::from_str("Kp4"));
    v.push(String::from_str("Kp5"));
    assert(names(v@) =~= start + key_group4());
}

fn push_group5(v: &mut Vec<String>)
    ensures
        names(final(v)@) == names(old(v)@) + key_group5(),
{
    let ghost start = names(v@);
    v.push(String::from_str("Kp6"));
    v.push(String::from_str("Kp7"));
    v.push(String::from_str("Kp8"));
    v.push(String::from_str("Kp9"));
    v.push(String::from_str("KpDecimal"));
    v.push(String::from_str("KpDivide"));
    v.push(String::from_str("KpMultiply"));
    v.push(String::from_str("KpSubtract"));
    v.push(String::from_str("KpAdd"));
    v.push(String::from_str("KpEnter"));
    v.push(String::from_str("KpEqual"));
    v.push(String::from_str("LeftShift"));
    v.push(String::from_str("LeftControl"));
    v.push(String::from_str("LeftAlt"));
    v.push(String::from_str("LeftSuper"));
    v.push(String::from_str("RightShift"));
    v.push(String::from_str("RightControl"));
    v.push(String::from_str("RightAlt"));
    v.push(String::from_str("RightSuper"));
    v.push(String::from_str("Menu"));
    assert(names(v@) =~= start + key_group5());
}

fn push_group6(v: &mut Vec<String>)
    ensures
        names(final(v)@) == names(old(v)@) + key_group6(),
{
    let ghost start = names(v@);
    v.push(String::from_str("Unknown"));
    assert(names(v@) =~= start + key_group6());
}

/// A letter or a digit.
pub open spec fn plain_char(c: char) -> bool {
    ('a' <= c && c <= 'z') || ('A' <= c && c <= 'Z') || ('0' <= c && c <= '9')
}

/// A name made of letters and digits only.
pub open spec fn plain_name(s: Seq<char>) -> bool {
    forall|i: int| 0 <= i < s.len() ==> plain_char(#[trigger] s[i])
}

/// The names of the keys there are (see `known_keys`).
pub fn key_names() -> (v: Vec<String>)
    ensures
        names(v@) == known_keys(),
{
    let mut v: Vec<String> = Vec::new();
    assert(names(v@) =~= Seq::<Seq<char>>::empty());
    push_group0(&mut v);
    push_group1(&mut v);
    push_group2(&mut v);
    push_group3(&mut v);
    push_group4(&mut v);
    push_group5(&mut v);
    push_group6(&mut v);
    assert(names(v@) =~= known_keys());
    v
}

proof fn lemma_plain_group0()
    ensures
        forall|i: int| 0 <= i < key_group0().len() ==> plain_name(#[trigger] key_group0()[i]),
{
    reveal_strlit("Space");
    reveal_strlit("Apostrophe");
    reveal_strlit("Comma");
    reveal_strlit("Minus");
    reveal_strlit("Period");
    reveal_strlit("Slash");
    reveal_strlit("Key0");
    reveal_strlit("Key1");
    reveal_strlit("Key2");
    reveal_strlit("Key3");
    reveal_strlit("Key4");
    reveal_strlit("Key5");
    reveal_strlit("Key6");
    reveal_strlit("Key7");
    reveal_strlit("Key8");
    reveal_strlit("Key9");
    reveal_strlit("Semicolon");
    reveal_strlit("Equal");
    reveal_strlit("A");
    reveal_strlit("B");
    assert(plain_name("Space"@));
    assert(plain_name("Apostrophe"@));
    assert(plain_name("Comma"@));
    assert(plain_name("Minus"@));
    assert(plain_name("Period"@));
    assert(plain_name("Slash"@));
    assert(plain_name("Key0"@));
    assert(plain_name("Key1"@));
    assert(plain_name("Key2"@));
    assert(plain_name("Key3"@));
    assert(plain_name("Key4"@));
    assert(plain_name("Key5"@));
    assert(plain_name("Key6"@));
    assert(plain_name("Key7"@));
    assert(plain_name("Key8"@));
    assert(plain_name("Key9"@));
    assert(plain_name("Semicolon"@));
    assert(plain_name("Equal"@));
    assert(plain_name("A"@));
    assert(plain_name("B"@));
}

proof fn lemma_plain_group1()
    ensures
        forall|i: int| 0 <= i < key_group1().len() ==> plain_name(#[trigger] key_group1()[i]),
{
    reveal_strlit("C");
    reveal_strlit("D");
    reveal_strlit("E");
    reveal_strlit("F");
    reveal_strlit("G");
    reveal_strlit("H");
    reveal_strlit("I");
    reveal_strlit("J");
    reveal_strlit("K");
    reveal_strlit("L");
    reveal_strlit("M");
    reveal_strlit("N");
    reveal_strlit("O");
    reveal_strlit("P");
    reveal_strlit("Q");
    reveal_strlit("R");
    reveal_strlit("S");
    reveal_strlit("T");
    reveal_strlit("U");
    reveal_strlit("V");
    assert(plain_name("C"@));
    assert(plain_name("D"@));
    assert(plain_name("E"@));
    assert(plain_name("F"@));
    assert(plain_name("G"@));
    assert(plain_name("H"@));
    assert(plain_name("I"@));
    assert(plain_name("J"@));
    assert(plain_name("K"@));
    assert(plain_name("L"@));
    assert(plain_name("M"@));
    assert(plain_name("N"@));
    assert(plain_name("O"@));
    assert(plain_name("P"@));
    assert(plain_name("Q"@));
    assert(plain_name("R"@));
    assert(plain_name("S"@));
    assert(plain_name("T"@));
    assert(plain_name("U"@));
    assert(plain_name("V"@));
}

proof fn lemma_plain_group2()
    ensures
        forall|i: int| 0 <= i < key_group2().len() ==> plain_name(#[trigger] key_group2()[i]),
{
    reveal_strlit("W");
    reveal_strlit("X");
    reveal_strlit("Y");
    reveal_strlit("Z");
    reveal_strlit("LeftBracket");
    reveal_strlit("Backslash");
    reveal_strlit("RightBracket");
    reveal_strlit("GraveAccent");
    reveal_strlit("World1");
    reveal_strlit("World2");
    reveal_strlit("Escape");
    reveal_strlit("Enter");
    reveal_strlit("Tab");
    reveal_strlit("Backspace");
    reveal_strlit("Insert");
    reveal_strlit("Delete");
    reveal_strlit("Right");
    reveal_strlit("Left");
    reveal_strlit("Down");
    reveal_strlit("Up");
    assert(plain_name("W"@));
    assert(plain_name("X"@));
    assert(plain_name("Y"@));
    assert(plain_name("Z"@));
    assert(plain_name("LeftBracket"@));
    assert(plain_name("Backslash"@));
    assert(plain_name("RightBracket"@));
    assert(plain_name("GraveAccent"@));
    assert(plain_name("World1"@));
    assert(plain_name("World2"@));
    assert(plain_name("Escape"@));
    assert(plain_name("Enter"@));
    assert(plain_name("Tab"@));
    assert(plain_name("Backspace"@));
    assert(plain_name("Insert"@));
    assert(plain_name("Delete"@));
    assert(plain_name("Right"@));
    assert(plain_name("Left"@));
    assert(plain_name("Down"@));
    assert(plain_name("Up"@));
}

proof fn lemma_plain_group3()
    ensures
        forall|i: int| 0 <= i < key_group3().len() ==> plain_name(#[trigger] key_group3()[i]),
{
    reveal_strlit("PageUp");
    reveal_strlit("PageDown");
    reveal_strlit("Home");
    reveal_strlit("End");
    reveal_strlit("CapsLock");
    reveal_strlit("ScrollLock");
    reveal_strlit("NumLock");
    reveal_strlit("PrintScreen");
    reveal_strlit("Pause");
    reveal_strlit("F1");
    reveal_strlit("F2");
    reveal_strlit("F3");
    reveal_strlit("F4");
    reveal_strlit("F5");
    reveal_strlit("F6");
    reveal_strlit("F7");
    reveal_strlit("F8");
    reveal_strlit("F9");
    reveal_strlit("F10");
    reveal_strlit("F11");
    assert(plain_name("PageUp"@));
    assert(plain_name("PageDown"@));
    assert(plain_name("Home"@));
    assert(plain_name("End"@));
    assert(plain_name("CapsLock"@));
    assert(plain_name("ScrollLock"@));
    assert(plain_name("NumLock"@));
    assert(plain_name("PrintScreen"@));
    assert(plain_name("Pause"@));
    assert(plain_name("F1"@));
    assert(plain_name("F2"@));
    assert(plain_name("F3"@));
    assert(plain_name("F4"@));
    assert(plain_name("F5"@));
    assert(plain_name("F6"@));
    assert(plain_name("F7"@));
    assert(plain_name("F8"@));
    assert(plain_name("F9"@));
    assert(plain_name("F10"@));
    assert(plain_name("F11"@));
}

proof fn lemma_plain_group4()
    ensures
        forall|i: int| 0 <= i < key_group4().len() ==> plain_name(#[trigger] key_group4()[i]),
{
    reveal_strlit("F12");
    reveal_strlit("F13");
    reveal_strlit("F14");
    reveal_strlit("F15");
    reveal_strlit("F16");
    reveal_strlit("F17");
    reveal_strlit("F18");
    reveal_strlit("F19");
    reveal_strlit("F20");
    reveal_strlit("F21");
    reveal_strlit("F22");
    reveal_strlit("F23");
    reveal_strlit("F24");
    reveal_strlit("F25");
    reveal_strlit("Kp0");
    reveal_strlit("Kp1");
    reveal_strlit("Kp2");
    reveal_strlit("Kp3");
    reveal_strlit("Kp4");
    reveal_strlit("Kp5");
    assert(plain_name("F12"@));
    assert(plain_name("F13"@));
    assert(plain_name("F14"@));
    assert(plain_name("F15"@));
    assert(plain_name("F16"@));
    assert(plain_name("F17"@));
    assert(plain_name("F18"@));
    assert(plain_name("F19"@));
    assert(plain_name("F20"@));
    assert(plain_name("F21"@));
    assert(plain_name("F22"@));
    assert(plain_name("F23"@));
    assert(plain_name("F24"@));
    assert(plain_name("F25"@));
    assert(plain_name("Kp0"@));
    assert(plain_name("Kp1"@));
    assert(plain_name("Kp2"@));
    assert(plain_name("Kp3"@));
    assert(plain_name("Kp4"@));
    assert(plain_name("Kp5"@));
}

proof fn lemma_plain_group5()
    ensures
        forall|i: int| 0 <= i < key_group5().len() ==> plain_name(#[trigger] key_group5()[i]),
{
    reveal_strlit("Kp6");
    reveal_strlit("Kp7");
    reveal_strlit("Kp8");
    reveal_strlit("Kp9");
    reveal_strlit("KpDecimal");
    reveal_strlit("KpDivide");
    reveal_strlit("KpMultiply");
    reveal_strlit("KpSubtract");
    reveal_strlit("KpAdd");
    reveal_strlit("KpEnter");
    reveal_strlit("KpEqual");
    reveal_strlit("LeftShift");
    reveal_strlit("LeftControl");
    reveal_strlit("LeftAlt");
    reveal_strlit("LeftSuper");
    reveal_strlit("RightShift");
    reveal_strlit("RightControl");
    reveal_strlit("RightAlt");
    reveal_strlit("RightSuper");
    reveal_strlit("Menu");
    assert(plain_name("Kp6"@));
    assert(plain_name("Kp7"@));
    assert(plain_name("Kp8"@));
    assert(plain_name("Kp9"@));
    assert(plain_name("KpDecimal"@));
    assert(plain_name("KpDivide"@));
    assert(plain_name("KpMultiply"@));
    assert(plain_name("KpSubtract"@));
    assert(plain_name("KpAdd"@));
    assert(plain_name("KpEnter"@));
    assert(plain_name("KpEqual"@));
    assert(plain_name("LeftShift"@));
    assert(plain_name("LeftControl"@));
    assert(plain_name("LeftAlt"@));
    assert(plain_name("LeftSuper"@));
    assert(plain_name("RightShift"@));
    assert(plain_name("RightControl"@));
    assert(plain_name("RightAlt"@));
    assert(plain_name("RightSuper"@));
    assert(plain_name("Menu"@));
}

proof fn lemma_plain_group6()
    ensures
        forall|i: int| 0 <= i < key_group6().len() ==> plain_name(#[trigger] key_group6()[i]),
{
    reveal_strlit("Unknown");
    assert(plain_name("Unknown"@));
}

/// Every key's name is made of letters and digits only.
pub proof fn lemma_known_keys_plain()
    ensures
        forall|i: int| 0 <= i < known_keys().len() ==> plain_name(#[trigger] known_keys()[i]),
{
    lemma_plain_group0();
    lemma_plain_group1();
    lemma_plain_group2();
    lemma_plain_group3();
    lemma_plain_group4();
    lemma_plain_group5();
    lemma_plain_group6();
    assert forall|i: int| 0 <= i < known_keys().len() implies plain_name(#[trigger] known_keys()[i]) by {
        if i < 20 {
            assert(known_keys()[i] == key_group0()[i]);
        } else if i < 40 {
            assert(known_keys()[i] == key_group1()[i - 20]);
        } else if i < 60 {
            assert(known_keys()[i] == key_group2()[i - 40]);
        } else if i < 80 {
            assert(known_keys()[i] == key_group3()[i - 60]);
        } else if i < 100 {
            assert(known_keys()[i] == key_group4()[i - 80]);
        } else if i < 120 {
            assert(known_keys()[i] == key_group5()[i - 100]);
        } else {
            assert(known_keys()[i] == key_group6()[i - 120]);
        }
    }
}

} // verus!
