use patchbot::commands::utility::{define, define_url, help, shutdown, DictionaryEntry};

#[test]
fn shutdown_says_bye() {
    assert_eq!(shutdown(), "ok bye :(");
}

#[test]
fn help_passes_command_through() {
    let req = help("help", Some("osu".to_string()));
    assert_eq!(req.command.as_deref(), Some("osu"));
    assert_eq!(req.extra_text_at_bottom, "Run `>help command` for info on a specific command.");
    assert_eq!(help("help", None).command, None);
}

#[test]
fn help_under_another_name_prefixes_it() {
    assert_eq!(help("osu", Some("user".to_string())).command.as_deref(), Some("osu user"));
    assert_eq!(help("osu", None).command.as_deref(), Some("osu"));
}

#[test]
fn define_builds_message() {
    assert_eq!(define_url("cat"), "https://api.dictionaryapi.dev/api/v2/entries/en/cat");
    let entry = DictionaryEntry {
        phonetic: Some("/kæt/".to_string()),
        definition: Some("A small domesticated carnivore.".to_string()),
        part_of_speech: Some("noun".to_string()),
    };
    assert_eq!(define("cat", &entry), "# cat - /kæt/ (noun) \nA small domesticated carnivore.");
}

#[test]
fn define_with_missing_parts() {
    let entry = DictionaryEntry { phonetic: None, definition: None, part_of_speech: None };
    assert_eq!(
        define("zzz", &entry),
        "# zzz - no pronunciation found (no word type found) \nno definition found"
    );
}
