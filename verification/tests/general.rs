use patchbot::commands::general::{cat, consequence, ping, DiscordUser, CAT_API_URL};

#[test]
fn ping_replies_pawng() {
    assert_eq!(ping(), "pawng");
}

#[test]
fn cat_replies_with_url() {
    assert_eq!(cat(Some("https://cataas.com/cat/abc".to_string())), "https://cataas.com/cat/abc");
    assert_eq!(CAT_API_URL, "https://cataas.com/cat?json=1");
}

#[test]
fn cat_without_url() {
    assert_eq!(cat(None), "no cat found :(");
}

#[test]
fn consequence_uses_global_name() {
    let user = DiscordUser { name: "pat".to_string(), global_name: Some("Patty".to_string()) };
    let msgs = consequence(&user);
    assert_eq!(msgs.direct_message, "Your consequence has been delivered.");
    assert_eq!(msgs.reply, "Consequence initiated for Patty.");
}

#[test]
fn consequence_falls_back_to_user_name() {
    let user = DiscordUser { name: "pat".to_string(), global_name: None };
    assert_eq!(user.display_name(), "pat");
    assert_eq!(consequence(&user).reply, "Consequence initiated for pat.");
}
