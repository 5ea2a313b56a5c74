use patchbot::commands::osu::{
    beatmap_lookup_url, grade_2_emoji, hgraph, last_played, lb, mods_text, no_recent_scores,
    online_status, osu, osu_standard_user_url, osu_user_url, osur, profile_recent_url,
    profile_stats_url, profile_target, rank_history_chart_url, rank_history_data,
    recent_scores_url, recent_target, status_text, user_not_found, LeaderboardEntry,
    LeaderboardError, OsuScore, OsuStats, OsuUser, RecentPlay, LEADERBOARD_API_URL,
};
use patchbot::commands::osu::{flag_country, leaderboard_row, osur_reply, recent_score_beatmap, OsurReply};
use patchbot::commands::{EmbedCard, EMBED_COLOR};

fn fields(card: &EmbedCard) -> Vec<(String, String, bool)> {
    card.fields.iter().map(|f| (f.name.clone(), f.value.clone(), f.inline)).collect()
}

fn user(id: Option<u64>, name: Option<&str>, mode: Option<&str>) -> OsuUser {
    OsuUser {
        id,
        username: name.map(|s| s.to_string()),
        playmode: mode.map(|s| s.to_string()),
    }
}

#[test]
fn lookup_urls() {
    assert_eq!(osu_user_url("peppy"), "https://osu.ppy.sh/api/v2/users/peppy");
    assert_eq!(osu_standard_user_url("peppy"), "https://osu.ppy.sh/api/v2/users/peppy/osu");
    assert_eq!(profile_stats_url(2, "taiko"), "https://osu.ppy.sh/api/v2/users/2/taiko");
    assert_eq!(
        profile_recent_url(2, "mania"),
        "https://osu.ppy.sh/api/v2/users/2/scores/recent?limit=1&include_fails=1&mode=mania"
    );
    assert_eq!(
        recent_scores_url(124493),
        "https://osu.ppy.sh/api/v2/users/124493/scores/recent?limit=1&include_fails=1"
    );
    assert_eq!(LEADERBOARD_API_URL, "https://osu.ppy.sh/api/v2/rankings/osu/global?&filter=all");
}

#[test]
fn unknown_user_is_not_found() {
    assert!(profile_target(&user(None, Some("x"), None)).is_none());
    assert!(profile_target(&user(Some(0), Some("x"), None)).is_none());
    assert!(recent_target(&user(None, None, None)).is_none());
    assert_eq!(user_not_found(), "osu! user not found... :(");
    assert_eq!(no_recent_scores(), "no recent scores for this user... :(");
}

#[test]
fn profile_target_defaults() {
    let t = profile_target(&user(Some(2), None, None)).unwrap();
    assert_eq!((t.uid, t.username.as_str(), t.playmode.as_str()), (2, "no user found :(", "osu"));
    let t = profile_target(&user(Some(2), Some("peppy"), Some("fruits"))).unwrap();
    assert_eq!((t.username.as_str(), t.playmode.as_str()), ("peppy", "fruits"));
    let r = recent_target(&user(Some(7), None, None)).unwrap();
    assert_eq!((r.uid, r.username.as_str()), (7, ""));
}

#[test]
fn status_lines() {
    assert_eq!(status_text(true, Some(5)), "<a:online:1482134508743426209> Online");
    assert_eq!(status_text(false, None), "<a:offline:1482135749985046651> Offline");
    assert_eq!(
        status_text(false, Some(1704067200)),
        "<a:offline:1482135749985046651> Offline • last seen <t:1704067200:R>"
    );
    assert_eq!(
        online_status(false, &Some("2024-01-01T00:00:00Z".to_string())),
        "<a:offline:1482135749985046651> Offline • last seen <t:1704067200:R>"
    );
    assert_eq!(
        online_status(false, &Some("2024-01-01T02:00:00+02:00".to_string())),
        "<a:offline:1482135749985046651> Offline • last seen <t:1704067200:R>"
    );
    assert_eq!(
        online_status(false, &Some("yesterday".to_string())),
        "<a:offline:1482135749985046651> Offline"
    );
    assert_eq!(
        online_status(true, &Some("2024-01-01T00:00:00Z".to_string())),
        "<a:online:1482134508743426209> Online"
    );
}

#[test]
fn last_played_lines() {
    let play = RecentPlay { title: Some("Blue Zenith".to_string()), beatmap_url: Some("https://osu.ppy.sh/b/1".to_string()) };
    assert_eq!(last_played(&play), "[Blue Zenith](https://osu.ppy.sh/b/1)");
    let play = RecentPlay { title: Some("Blue Zenith".to_string()), beatmap_url: Some(String::new()) };
    assert_eq!(last_played(&play), "Blue Zenith");
    let play = RecentPlay { title: None, beatmap_url: None };
    assert_eq!(last_played(&play), "nothing recent :(");
}

#[test]
fn profile_card() {
    let t = profile_target(&user(Some(124493), Some("Cookiezi"), Some("osu"))).unwrap();
    let stats = OsuStats {
        global_rank: Some(1234567),
        pp: Some("10234.57".to_string()),
        is_online: Some(false),
        last_visit: Some("2024-01-01T00:00:00Z".to_string()),
    };
    let recent = RecentPlay { title: Some("FREEDOM DiVE".to_string()), beatmap_url: None };
    let card = osu(&t, &stats, &recent);
    assert_eq!(card.title, "<:osu:1482134509729349812> osu! user: Cookiezi");
    assert_eq!(card.url.as_deref(), Some("https://osu.ppy.sh/users/124493/osu"));
    assert_eq!(card.thumbnail.as_deref(), Some("https://a.ppy.sh/124493"));
    assert_eq!(card.color, EMBED_COLOR);
    assert_eq!(card.color, 0xFF66AA);
    assert!(card.description.is_none() && card.image.is_none());
    assert_eq!(
        fields(&card),
        vec![
            ("Rank".to_string(), "#1,234,567".to_string(), true),
            ("PP".to_string(), "10234.57".to_string(), true),
            ("Status".to_string(), "<a:offline:1482135749985046651> Offline • last seen <t:1704067200:R>".to_string(), false),
            ("Last played:".to_string(), "FREEDOM DiVE".to_string(), false),
        ]
    );
}

#[test]
fn unranked_profile_card() {
    let t = profile_target(&user(Some(3), Some("new"), None)).unwrap();
    let stats = OsuStats { global_rank: None, pp: None, is_online: Some(true), last_visit: None };
    let card = osu(&t, &stats, &RecentPlay { title: None, beatmap_url: None });
    let f = fields(&card);
    assert_eq!(f[0].1, "#unranked");
    assert_eq!(f[1].1, "unranked");
    assert_eq!(f[2].1, "<a:online:1482134508743426209> Online");
    assert_eq!(f[3].1, "nothing recent :(");
}

#[test]
fn grade_emojis() {
    assert_eq!(grade_2_emoji("A"), "<:rankingA:1483851816675315854>");
    assert_eq!(grade_2_emoji("F"), "<:rankingF:1483864786360991906>");
    assert_eq!(grade_2_emoji("SH"), "<:rankingSH:1483851824392966224>");
    assert_eq!(grade_2_emoji("SSH"), "<:rankingSSH:1483851826452234373>");
    assert_eq!(grade_2_emoji("X"), "X");
    assert_eq!(grade_2_emoji("?"), "?");
}

#[test]
fn mods_lines() {
    assert_eq!(mods_text(&vec![]), "None");
    assert_eq!(mods_text(&vec!["HD".to_string()]), "HD");
    assert_eq!(mods_text(&vec!["HD".to_string(), "DT".to_string(), "HR".to_string()]), "HD, DT, HR");
}

fn score() -> OsuScore {
    OsuScore {
        title: Some("Blue Zenith".to_string()),
        artist: Some("xi".to_string()),
        version: Some("FOUR DIMENSIONS".to_string()),
        beatmap_url: Some("https://osu.ppy.sh/beatmaps/658127".to_string()),
        cover_url: Some("https://assets.ppy.sh/cover.jpg".to_string()),
        rank: Some("S".to_string()),
        pp: Some("727.00".to_string()),
        accuracy: "98.76".to_string(),
        max_combo: Some(1500),
        mods: vec!["HD".to_string(), "HR".to_string()],
        count_300: Some(1200),
        count_100: Some(30),
        count_50: None,
        count_miss: Some(1),
        stars: "7.12".to_string(),
        beatmap_id: Some(658127),
    }
}

#[test]
fn recent_score_card() {
    let s = score();
    assert_eq!(beatmap_lookup_url(&s), "https://osu.ppy.sh/api/v2/beatmaps/658127");
    let t = recent_target(&user(Some(124493), Some("Cookiezi"), None)).unwrap();
    let card = osur(&t, &s, Some(2402));
    assert_eq!(card.title, "<:osu:1482134509729349812> Cookiezi's recent score");
    assert_eq!(card.url.as_deref(), Some("https://osu.ppy.sh/users/124493"));
    assert_eq!(
        card.description.as_deref(),
        Some("[xi - Blue Zenith [FOUR DIMENSIONS]](https://osu.ppy.sh/beatmaps/658127)")
    );
    assert_eq!(card.thumbnail.as_deref(), Some("https://a.ppy.sh/124493"));
    assert_eq!(card.image.as_deref(), Some("https://assets.ppy.sh/cover.jpg"));
    assert_eq!(
        fields(&card),
        vec![
            ("Grade".to_string(), "<:rankingS:1483851823570878567>".to_string(), true),
            ("PP".to_string(), "727.00pp".to_string(), true),
            ("Accuracy".to_string(), "98.76%".to_string(), true),
            ("Combo".to_string(), "1500x / 2402x".to_string(), true),
            ("Stars".to_string(), "7.12 <:star:1482800848617738311>".to_string(), true),
            ("Mods".to_string(), "HD, HR".to_string(), true),
            (
                "Hits".to_string(),
                "1200 <:hit300t:1482804510819877078> • 30 <:hit100t:1482804499759239169> • 0 <:hit50:1482799044379017216> • 1 <:hit0:1482799042982580315>".to_string(),
                true
            ),
        ]
    );
}

#[test]
fn failed_score_card_defaults() {
    let mut s = score();
    s.pp = None;
    s.rank = None;
    s.title = None;
    s.beatmap_url = None;
    s.cover_url = None;
    s.beatmap_id = None;
    s.mods = vec![];
    let t = recent_target(&user(Some(1), None, None)).unwrap();
    let card = osur(&t, &s, None);
    let f = fields(&card);
    assert_eq!(f[0].1, "?");
    assert_eq!(f[1].1, "N/A (failed or unranked)");
    assert_eq!(f[3].1, "1500x / 0x");
    assert_eq!(f[5].1, "None");
    assert_eq!(card.description.as_deref(), Some("[xi - Unknown [FOUR DIMENSIONS]]()"));
    assert_eq!(card.image.as_deref(), Some(""));
    assert_eq!(beatmap_lookup_url(&s), "https://osu.ppy.sh/api/v2/beatmaps/0");
}

fn entry(i: u64) -> LeaderboardEntry {
    LeaderboardEntry {
        global_rank: Some(i),
        pp: format!("{}", 20000 - i),
        accuracy: "99.10".to_string(),
        username: Some(format!("player{}", i)),
        country_code: Some("JP".to_string()),
        user_id: Some(1000 + i),
    }
}

#[test]
fn leaderboard_shows_ten() {
    let ranking: Vec<LeaderboardEntry> = (1..=50).map(entry).collect();
    let card = lb(&Some(ranking)).ok().unwrap();
    assert_eq!(card.title, "<:osu:1482134509729349812> osu! global leaderboard");
    assert_eq!(card.url.as_deref(), Some("https://osu.ppy.sh/rankings/osu/global"));
    let f = fields(&card);
    assert_eq!(f.len(), 10);
    assert_eq!(f[0].0, "#1: player1 :flag_jp:");
    assert_eq!(f[0].1, "[Profile](https://osu.ppy.sh/users/1001) • **19999pp** • 99.10% acc");
    assert!(!f[0].2);
    assert_eq!(f[9].0, "#10: player10 :flag_jp:");
}

#[test]
fn leaderboard_short_and_defaults() {
    let e = LeaderboardEntry {
        global_rank: None,
        pp: "0".to_string(),
        accuracy: "0.00".to_string(),
        username: None,
        country_code: None,
        user_id: None,
    };
    let card = lb(&Some(vec![e])).ok().unwrap();
    let f = fields(&card);
    assert_eq!(f.len(), 1);
    assert_eq!(f[0].0, "#0: Unknown :flag_??:");
    assert_eq!(f[0].1, "[Profile](https://osu.ppy.sh/users/0) • **0pp** • 0.00% acc");
    assert_eq!(fields(&lb(&Some(vec![])).ok().unwrap()).len(), 0);
}

#[test]
fn leaderboard_without_ranking() {
    let res = lb(&None);
    assert!(matches!(res, Err(LeaderboardError::MissingRanking)));
    assert_eq!(LeaderboardError::MissingRanking.message(), "Missing ranking array");
}

#[test]
fn rank_history_chart() {
    assert_eq!(rank_history_data(&vec![300, 200, 100]), "a:100,200,300");
    assert_eq!(rank_history_data(&vec![]), "a:");
    assert_eq!(rank_history_data(&vec![-5, 7]), "a:7,-5");
    assert_eq!(
        rank_history_chart_url(&vec![3, 2, 1]),
        "https://image-charts.com/chart?chd=a%3A1%2C2%2C3&chs=1200x700&cht=lc"
    );
}

#[test]
fn rank_history_card() {
    let card = hgraph("peppy", 2, "https://image-charts.com/chart?cht=lc".to_string());
    assert_eq!(card.title, "<:osu:1482134509729349812> rank history graph for peppy");
    assert_eq!(card.url.as_deref(), Some("https://osu.ppy.sh/users/2"));
    assert_eq!(card.image.as_deref(), Some("https://image-charts.com/chart?cht=lc"));
    assert!(card.fields.is_empty());
    assert!(card.thumbnail.is_none());
}

#[test]
fn leaderboard_row_uses_given_flag() {
    let e = entry(3);
    assert_eq!(flag_country(&e), "JP");
    let f = leaderboard_row(&e, "jp");
    assert_eq!(f.name, "#3: player3 :flag_jp:");
    assert_eq!(f.value, "[Profile](https://osu.ppy.sh/users/1003) • **19997pp** • 99.10% acc");
    assert!(!f.inline);
    let mut unknown = entry(4);
    unknown.country_code = None;
    assert_eq!(flag_country(&unknown), "??");
}

#[test]
fn osur_reply_without_score() {
    let t = recent_target(&user(Some(9), Some("x"), None)).unwrap();
    assert!(recent_score_beatmap(&None).is_none());
    match osur_reply(&t, &None, None) {
        OsurReply::Text(text) => assert_eq!(text, "no recent scores for this user... :("),
        OsurReply::Card(_) => panic!("no score means no card"),
    }
}

#[test]
fn osur_reply_with_score() {
    let t = recent_target(&user(Some(9), Some("x"), None)).unwrap();
    let s = Some(score());
    assert_eq!(recent_score_beatmap(&s).as_deref(), Some("https://osu.ppy.sh/api/v2/beatmaps/658127"));
    match osur_reply(&t, &s, Some(2402)) {
        OsurReply::Card(card) => {
            assert_eq!(card.title, "<:osu:1482134509729349812> x's recent score");
            assert_eq!(fields(&card)[3].1, "1500x / 2402x");
        }
        OsurReply::Text(_) => panic!("a score gives a card"),
    }
}
