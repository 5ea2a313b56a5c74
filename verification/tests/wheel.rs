use patchbot::commands::wheel::{wheel, wheeladd, WheelAction};
use patchbot::text::split_lines;

fn reply(action: WheelAction) -> (bool, String) {
    match action {
        WheelAction::CreateFile { reply } => (true, reply),
        WheelAction::Reply { reply } => (false, reply),
    }
}

#[test]
fn missing_wheel_is_created() {
    let (create, text) = reply(wheel(None));
    assert!(create);
    assert_eq!(
        text,
        "wheel doesn't exist, so i made it! (๑・ω・๑) \nrun >wheeladd [input] to add a new entry!"
    );
}

#[test]
fn empty_wheel_says_so() {
    for contents in ["", "   \n\t\r\n  "] {
        let (create, text) = reply(wheel(Some(contents)));
        assert!(!create);
        assert_eq!(
            text,
            "wheel.txt exists, but it's empty... (߹𖥦߹) \nrun >wheeladd [input] to add a new entry!"
        );
    }
}

#[test]
fn spin_picks_a_line() {
    for _ in 0..50 {
        let (create, text) = reply(wheel(Some("pizza\nsushi\r\ntacos\n")));
        assert!(!create);
        assert!(["pizza", "sushi", "tacos"].contains(&text.as_str()), "{}", text);
    }
    let (_, only) = reply(wheel(Some("  lonely  ")));
    assert_eq!(only, "  lonely  ");
}

#[test]
fn wheeladd_trims_and_confirms() {
    let added = wheeladd("  pizza night \n");
    assert_eq!(added.entry, "pizza night");
    assert_eq!(added.appended, "pizza night\n");
    assert_eq!(added.reply, "✔ \"**pizza night**\" has been added to the wheel!");
}

#[test]
fn added_entry_becomes_last_line() {
    let mut file = String::new();
    for input in ["a", "  b ", "c c"] {
        let before = split_lines(&file);
        let added = wheeladd(input);
        file.push_str(&added.appended);
        let after = split_lines(&file);
        assert_eq!(after.len(), before.len() + 1);
        assert_eq!(after[..before.len()], before[..]);
        assert_eq!(after.last().unwrap(), &added.entry);
    }
    assert_eq!(split_lines(&file), vec!["a", "b", "c c"]);
}
