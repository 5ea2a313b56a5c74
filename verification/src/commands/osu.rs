//! osu! commands: a player's profile, their most recent score, the global
//! leaderboard and a player's rank history graph.
use image_charts::ImageCharts;
use vstd::prelude::*;

use super::{embed_field, format_num, group_thousands, EmbedCard, EmbedView, EMBED_COLOR};
use crate::text::{
    count_of, decimal, lemma_count_of_absent, lemma_count_of_append, law_signed_decimal_reads_back,
    push_decimal, signed_decimal, signed_value, str_eq, unicode_lowercase,
};

verus! {

/// The decimal digits of an unsigned integer.
pub open spec fn dec(n: u64) -> Seq<char> {
    decimal(n as nat)
}

/// The osu! API lookup of a user by name or id.
pub fn osu_user_url(user: &str) -> (url: String)
    ensures
        url@ == "https://osu.ppy.sh/api/v2/users/"@ + user@,
{
    let mut url = String::from_str("https://osu.ppy.sh/api/v2/users/");
    url.append(user);
    url
}

/// The osu! API lookup of a user by name or id, in the standard game mode.
pub fn osu_standard_user_url(user: &str) -> (url: String)
    ensures
        url@ == "https://osu.ppy.sh/api/v2/users/"@ + user@ + "/osu"@,
{
    let mut url = osu_user_url(user);
    url.append("/osu");
    url
}

/// What the bot reads from an osu! API user.
pub struct OsuUser {
    pub id: Option<u64>,
    pub username: Option<String>,
    pub playmode: Option<String>,
}

/// The reply when the osu! API knows no such user.
pub fn user_not_found() -> (reply: String)
    ensures
        reply@ == "osu! user not found... :("@,
{
    String::from_str("osu! user not found... :(")
}

/// The player a profile is shown for.
pub struct ProfileTarget {
    pub uid: u64,
    pub username: String,
    pub playmode: String,
}

/// The player whose profile `>osu` shows: `None` when the user has no
/// (or a zero) id, that is, was not found.
pub fn profile_target(user: &OsuUser) -> (target: Option<ProfileTarget>)
    ensures
        target is None <==> (match user.id {
            Some(i) => i == 0,
            None => true,
        }),
        target matches Some(t) ==> {
            &&& user.id == Some(t.uid)
            &&& t.username@ == (match user.username {
                Some(u) => u@,
                None => "no user found :("@,
            })
            &&& t.playmode@ == (match user.playmode {
                Some(m) => m@,
                None => "osu"@,
            })
        },
{
    let uid = match user.id {
        Some(i) => i,
        None => 0,
    };
    if uid == 0 {
        return None;
    }
    let username = match &user.username {
        Some(u) => u.clone(),
        None => String::from_str("no user found :("),
    };
    let playmode = match &user.playmode {
        Some(m) => m.clone(),
        None => String::from_str("osu"),
    };
    Some(ProfileTarget { uid, username, playmode })
}

/// The osu! API lookup of a player's statistics in a game mode.
pub fn profile_stats_url(uid: u64, playmode: &str) -> (url: String)
    ensures
        url@ == "https://osu.ppy.sh/api/v2/users/"@ + dec(uid) + "/"@ + playmode@,
{
    let mut url = String::from_str("https://osu.ppy.sh/api/v2/users/");
    push_decimal(&mut url, uid);
    url.append("/");
    url.append(playmode);
    url
}

/// The osu! API lookup of a player's most recent score in a game mode,
/// failed plays included.
pub fn profile_recent_url(uid: u64, playmode: &str) -> (url: String)
    ensures
        url@ == "https://osu.ppy.sh/api/v2/users/"@ + dec(uid)
            + "/scores/recent?limit=1&include_fails=1&mode="@ + playmode@,
{
    let mut url = String::from_str("https://osu.ppy.sh/api/v2/users/");
    push_decimal(&mut url, uid);
    url.append("/scores/recent?limit=1&include_fails=1&mode=");
    url.append(playmode);
    url
}

/// The seconds since the Unix epoch of an RFC 3339 date and time, or
/// `None` when the text is not one (`chrono`'s RFC 3339 parser).
pub uninterp spec fn rfc3339_unix_seconds(text: Seq<char>) -> Option<i64>;

/// Parses an RFC 3339 date and time into seconds since the Unix epoch
/// (`chrono::DateTime::parse_from_rfc3339`, then `DateTime::timestamp`).
/// The result is only named: what chrono accepts is not restated here.
#[verifier::external_body]
fn parse_rfc3339_seconds(text: &str) -> (seconds: Option<i64>)
    ensures
        seconds == rfc3339_unix_seconds(text@),
{
    match chrono::DateTime::parse_from_rfc3339(text) {
        Ok(dt) => Some(dt.timestamp()),
        Err(_) => None,
    }
}

/// The status line of a profile, given whether the player is online and,
/// for an offline player, when they were last seen.
pub open spec fn status_line(is_online: bool, last_seen: Option<i64>) -> Seq<char> {
    if is_online {
        "<a:online:1482134508743426209> Online"@
    } else {
        match last_seen {
            Some(t) => "<a:offline:1482135749985046651> Offline • last seen <t:"@ + signed_decimal(
                t as int,
            ) + ":R>"@,
            None => "<a:offline:1482135749985046651> Offline"@,
        }
    }
}

/// An offline player's status line carries the last-seen time exactly as
/// parsed: the text between the fixed opening and the closing `:R>` reads
/// back as that time.
pub proof fn law_last_seen_written_exactly(t: i64)
    ensures
        ({
            let line = status_line(false, Some(t));
            let open = "<a:offline:1482135749985046651> Offline • last seen <t:"@;
            let close = ":R>"@;
            &&& open.is_prefix_of(line)
            &&& close.is_suffix_of(line)
            &&& line.len() > open.len() + close.len()
            &&& signed_value(line.subrange(open.len() as int, line.len() - close.len())) == t
        }),
{
    let open = "<a:offline:1482135749985046651> Offline • last seen <t:"@;
    let close = ":R>"@;
    let digits = signed_decimal(t as int);
    let line = status_line(false, Some(t));
    assert(line == open + digits + close);
    crate::text::law_signed_decimal_reads_back(t as int);
    if t < 0 {
        crate::text::law_decimal_reads_back((-t) as nat);
    } else {
        crate::text::law_decimal_reads_back(t as nat);
    }
    assert(line.subrange(0, open.len() as int) =~= open);
    assert(line.subrange(line.len() - close.len(), line.len() as int) =~= close);
    assert(line.subrange(open.len() as int, line.len() - close.len()) =~= digits);
}

/// Two different last-seen times give two different status lines.
pub proof fn law_last_seen_distinct(a: i64, b: i64)
    ensures
        a != b ==> status_line(false, Some(a)) != status_line(false, Some(b)),
{
    law_last_seen_written_exactly(a);
    law_last_seen_written_exactly(b);
}

/// The status line of a profile, from a last-seen time already parsed.
pub fn status_text(is_online: bool, last_seen: Option<i64>) -> (line: String)
    ensures
        line@ == status_line(is_online, last_seen),
{
    if is_online {
        String::from_str("<a:online:1482134508743426209> Online")
    } else {
        match last_seen {
            Some(t) => {
                let mut line = String::from_str(
                    "<a:offline:1482135749985046651> Offline • last seen <t:",
                );
                let digits = crate::text::i64_to_string(t);
                line.append(digits.as_str());
                line.append(":R>");
                line
            },
            None => String::from_str("<a:offline:1482135749985046651> Offline"),
        }
    }
}

/// When an offline player was last seen, from the API's `last_visit` text.
pub open spec fn last_seen_of(last_visit: Option<Seq<char>>) -> Option<i64> {
    match last_visit {
        Some(v) => rfc3339_unix_seconds(v),
        None => None,
    }
}

/// The status line of a profile, from the API's `is_online` and
/// `last_visit`; the last visit is parsed only for an offline player.
pub fn online_status(is_online: bool, last_visit: &Option<String>) -> (line: String)
    ensures
        line@ == status_line(is_online, last_seen_of(last_visit.deep_view())),
{
    if is_online {
        status_text(true, None)
    } else {
        let seen = match last_visit {
            Some(v) => parse_rfc3339_seconds(v.as_str()),
            None => None,
        };
        status_text(false, seen)
    }
}

/// What the bot reads from a player's statistics.
pub struct OsuStats {
    pub global_rank: Option<u64>,
    /// The performance points, already written with two decimals.
    pub pp: Option<String>,
    pub is_online: Option<bool>,
    pub last_visit: Option<String>,
}

/// What the bot reads from a player's most recent play.
pub struct RecentPlay {
    pub title: Option<String>,
    pub beatmap_url: Option<String>,
}

/// The "last played" line: the map title, linked to the beatmap when its
/// address is known and not empty.
pub open spec fn last_played_line(play: RecentPlay) -> Seq<char> {
    let title = match play.title {
        Some(t) => t@,
        None => "nothing recent :("@,
    };
    match play.beatmap_url {
        Some(u) => if u@.len() == 0 {
            title
        } else {
            "["@ + title + "]("@ + u@ + ")"@
        },
        None => title,
    }
}

/// The "last played" line of a profile.
pub fn last_played(play: &RecentPlay) -> (line: String)
    ensures
        line@ == last_played_line(*play),
{
    let title = match &play.title {
        Some(t) => t.clone(),
        None => String::from_str("nothing recent :("),
    };
    match &play.beatmap_url {
        Some(u) => {
            if u.as_str().unicode_len() == 0 {
                title
            } else {
                let mut line = String::from_str("[");
                line.append(title.as_str());
                line.append("](");
                line.append(u.as_str());
                line.append(")");
                line
            }
        },
        None => title,
    }
}

/// The rank shown on a profile: grouped digits, or "unranked".
pub open spec fn rank_text(global_rank: Option<u64>) -> Seq<char> {
    match global_rank {
        Some(r) => group_thousands(dec(r)),
        None => "unranked"@,
    }
}

/// The reply to `>osu`: the player's profile card.
pub fn osu(target: &ProfileTarget, stats: &OsuStats, recent: &RecentPlay) -> (card: EmbedCard)
    ensures
        card@ == (EmbedView {
            title: "<:osu:1482134509729349812> osu! user: "@ + target.username@,
            url: Some("https://osu.ppy.sh/users/"@ + dec(target.uid) + "/"@ + target.playmode@),
            description: None,
            fields: seq![
                ("Rank"@, "#"@ + rank_text(stats.global_rank), true),
                (
                    "PP"@,
                    match stats.pp {
                        Some(p) => p@,
                        None => "unranked"@,
                    },
                    true,
                ),
                (
                    "Status"@,
                    status_line(
                        stats.is_online == Some(true),
                        last_seen_of(stats.last_visit.deep_view()),
                    ),
                    false,
                ),
                ("Last played:"@, last_played_line(*recent), false),
            ],
            color: EMBED_COLOR,
            thumbnail: Some("https://a.ppy.sh/"@ + dec(target.uid)),
            image: None,
        }),
{
    let mut title = String::from_str("<:osu:1482134509729349812> osu! user: ");
    title.append(target.username.as_str());
    let mut url = String::from_str("https://osu.ppy.sh/users/");
    push_decimal(&mut url, target.uid);
    url.append("/");
    url.append(target.playmode.as_str());
    let mut rank = String::from_str("#");
    match stats.global_rank {
        Some(r) => {
            let grouped = format_num(r);
            rank.append(grouped.as_str());
        },
        None => rank.append("unranked"),
    }
    let pp = match &stats.pp {
        Some(p) => p.clone(),
        None => String::from_str("unranked"),
    };
    let is_online = match stats.is_online {
        Some(b) => b,
        None => false,
    };
    let status = online_status(is_online, &stats.last_visit);
    let played = last_played(recent);
    let mut thumbnail = String::from_str("https://a.ppy.sh/");
    push_decimal(&mut thumbnail, target.uid);
    let mut fields = Vec::new();
    fields.push(embed_field("Rank", rank, true));
    fields.push(embed_field("PP", pp, true));
    fields.push(embed_field("Status", status, false));
    fields.push(embed_field("Last played:", played, false));
    let card = EmbedCard {
        title,
        url: Some(url),
        description: None,
        fields,
        color: EMBED_COLOR,
        thumbnail: Some(thumbnail),
        image: None,
    };
    assert(card@.fields =~= seq![
        ("Rank"@, "#"@ + rank_text(stats.global_rank), true),
        (
            "PP"@,
            match stats.pp {
                Some(p) => p@,
                None => "unranked"@,
            },
            true,
        ),
        (
            "Status"@,
            status_line(
                stats.is_online == Some(true),
                last_seen_of(stats.last_visit.deep_view()),
            ),
            false,
        ),
        ("Last played:"@, last_played_line(*recent), false),
    ]);
    card
}


/// The player whose most recent score `>osur` shows.
pub struct RecentTarget {
    pub uid: u64,
    pub username: String,
}

/// The player whose recent score `>osur` shows: `None` when the user has
/// no (or a zero) id, that is, was not found.
pub fn recent_target(user: &OsuUser) -> (target: Option<RecentTarget>)
    ensures
        target is None <==> (match user.id {
            Some(i) => i == 0,
            None => true,
        }),
        target matches Some(t) ==> {
            &&& user.id == Some(t.uid)
            &&& t.username@ == (match user.username {
                Some(u) => u@,
                None => Seq::<char>::empty(),
            })
        },
{
    let uid = match user.id {
        Some(i) => i,
        None => 0,
    };
    if uid == 0 {
        return None;
    }
    let username = match &user.username {
        Some(u) => u.clone(),
        None => String::new(),
    };
    Some(RecentTarget { uid, username })
}

/// The osu! API lookup of a player's most recent score, failed plays
/// included.
pub fn recent_scores_url(uid: u64) -> (url: String)
    ensures
        url@ == "https://osu.ppy.sh/api/v2/users/"@ + dec(uid)
            + "/scores/recent?limit=1&include_fails=1"@,
{
    let mut url = String::from_str("https://osu.ppy.sh/api/v2/users/");
    push_decimal(&mut url, uid);
    url.append("/scores/recent?limit=1&include_fails=1");
    url
}

/// The reply when the player has no recent score.
pub fn no_recent_scores() -> (reply: String)
    ensures
        reply@ == "no recent scores for this user... :("@,
{
    String::from_str("no recent scores for this user... :(")
}

/// What the bot reads from a score.
pub struct OsuScore {
    pub title: Option<String>,
    pub artist: Option<String>,
    /// The difficulty name of the beatmap.
    pub version: Option<String>,
    pub beatmap_url: Option<String>,
    pub cover_url: Option<String>,
    /// The letter grade, such as `"S"` or `"A"`.
    pub rank: Option<String>,
    /// The performance points, already written with two decimals; `None`
    /// for a failed or unranked play.
    pub pp: Option<String>,
    /// The accuracy as a percentage, already written with two decimals.
    pub accuracy: String,
    pub max_combo: Option<u64>,
    /// The mods played with, by acronym.
    pub mods: Vec<String>,
    pub count_300: Option<u64>,
    pub count_100: Option<u64>,
    pub count_50: Option<u64>,
    pub count_miss: Option<u64>,
    /// The star rating, already written with two decimals.
    pub stars: String,
    pub beatmap_id: Option<u64>,
}

/// A count, or zero when it is missing.
pub open spec fn count_or_zero(n: Option<u64>) -> u64 {
    match n {
        Some(v) => v,
        None => 0,
    }
}

fn or_zero(n: Option<u64>) -> (v: u64)
    ensures
        v == count_or_zero(n),
{
    match n {
        Some(v) => v,
        None => 0,
    }
}

/// The osu! API lookup of the beatmap a score was set on.
pub fn beatmap_lookup_url(score: &OsuScore) -> (url: String)
    ensures
        url@ == "https://osu.ppy.sh/api/v2/beatmaps/"@ + dec(count_or_zero(score.beatmap_id)),
{
    let mut url = String::from_str("https://osu.ppy.sh/api/v2/beatmaps/");
    push_decimal(&mut url, or_zero(score.beatmap_id));
    url
}

/// The emoji id of each letter grade.
pub open spec fn grade_emoji_id(rank: Seq<char>) -> Option<Seq<char>> {
    if rank == "A"@ {
        Some("1483851816675315854"@)
    } else if rank == "B"@ {
        Some("1483851819867443240"@)
    } else if rank == "C"@ {
        Some("1483851821620531220"@)
    } else if rank == "D"@ {
        Some("1483851822744731798"@)
    } else if rank == "F"@ {
        Some("1483864786360991906"@)
    } else if rank == "S"@ {
        Some("1483851823570878567"@)
    } else if rank == "SH"@ {
        Some("1483851824392966224"@)
    } else if rank == "SS"@ {
        Some("1483851825349267477"@)
    } else if rank == "SSH"@ {
        Some("1483851826452234373"@)
    } else {
        None
    }
}

/// A letter grade as its emoji; a grade without one is shown as it is.
pub open spec fn grade_text(rank: Seq<char>) -> Seq<char> {
    match grade_emoji_id(rank) {
        Some(id) => "<:ranking"@ + rank + ":"@ + id + ">"@,
        None => rank,
    }
}

/// Each letter grade is shown with its own emoji: `<:ranking` followed by
/// the grade, `:`, that grade's emoji id and `>`, by this table:
/// A 1483851816675315854, B 1483851819867443240, C 1483851821620531220,
/// D 1483851822744731798, F 1483864786360991906, S 1483851823570878567,
/// SH 1483851824392966224, SS 1483851825349267477, SSH 1483851826452234373.
pub proof fn law_grade_emoji_table()
    ensures
        grade_text("A"@) == "<:ranking"@ + "A"@ + ":"@ + "1483851816675315854"@ + ">"@,
        grade_text("B"@) == "<:ranking"@ + "B"@ + ":"@ + "1483851819867443240"@ + ">"@,
        grade_text("C"@) == "<:ranking"@ + "C"@ + ":"@ + "1483851821620531220"@ + ">"@,
        grade_text("D"@) == "<:ranking"@ + "D"@ + ":"@ + "1483851822744731798"@ + ">"@,
        grade_text("F"@) == "<:ranking"@ + "F"@ + ":"@ + "1483864786360991906"@ + ">"@,
        grade_text("S"@) == "<:ranking"@ + "S"@ + ":"@ + "1483851823570878567"@ + ">"@,
        grade_text("SH"@) == "<:ranking"@ + "SH"@ + ":"@ + "1483851824392966224"@ + ">"@,
        grade_text("SS"@) == "<:ranking"@ + "SS"@ + ":"@ + "1483851825349267477"@ + ">"@,
        grade_text("SSH"@) == "<:ranking"@ + "SSH"@ + ":"@ + "1483851826452234373"@ + ">"@,
{
    reveal_strlit("A");
    reveal_strlit("B");
    reveal_strlit("C");
    reveal_strlit("D");
    reveal_strlit("F");
    reveal_strlit("S");
    reveal_strlit("SH");
    reveal_strlit("SS");
    reveal_strlit("SSH");
    assert("B"@[0] != "A"@[0]);
    assert("C"@[0] != "A"@[0] && "C"@[0] != "B"@[0]);
    assert("D"@[0] != "A"@[0] && "D"@[0] != "B"@[0] && "D"@[0] != "C"@[0]);
    assert("F"@[0] != "A"@[0] && "F"@[0] != "B"@[0] && "F"@[0] != "C"@[0] && "F"@[0] != "D"@[0]);
    assert("S"@[0] != "A"@[0] && "S"@[0] != "B"@[0] && "S"@[0] != "C"@[0] && "S"@[0] != "D"@[0]
        && "S"@[0] != "F"@[0]);
    assert("SH"@.len() != 1 && "SS"@.len() != 1 && "SSH"@.len() != 1);
    assert("SH"@ != "S"@ && "SS"@ != "S"@ && "SSH"@ != "S"@);
    assert("SS"@[1] != "SH"@[1]);
    assert("SSH"@.len() != "SH"@.len() && "SSH"@.len() != "SS"@.len());
}

/// A grade without an emoji (anything but the nine of the table) is shown
/// as it is.
pub proof fn law_unknown_grade_unchanged(rank: Seq<char>)
    requires
        rank != "A"@,
        rank != "B"@,
        rank != "C"@,
        rank != "D"@,
        rank != "F"@,
        rank != "S"@,
        rank != "SH"@,
        rank != "SS"@,
        rank != "SSH"@,
    ensures
        grade_text(rank) == rank,
{
}

fn grade_id(rank: &str) -> (id: Option<&'static str>)
    ensures
        id.deep_view() == grade_emoji_id(rank@),
{
    if str_eq(rank, "A") {
        Some("1483851816675315854")
    } else if str_eq(rank, "B") {
        Some("1483851819867443240")
    } else if str_eq(rank, "C") {
        Some("1483851821620531220")
    } else if str_eq(rank, "D") {
        Some("1483851822744731798")
    } else if str_eq(rank, "F") {
        Some("1483864786360991906")
    } else if str_eq(rank, "S") {
        Some("1483851823570878567")
    } else if str_eq(rank, "SH") {
        Some("1483851824392966224")
    } else if str_eq(rank, "SS") {
        Some("1483851825349267477")
    } else if str_eq(rank, "SSH") {
        Some("1483851826452234373")
    } else {
        None
    }
}

/// A letter grade as the emoji the bot shows for it.
pub fn grade_2_emoji(rank: &str) -> (shown: String)
    ensures
        shown@ == grade_text(rank@),
{
    match grade_id(rank) {
        Some(id) => {
            let mut shown = String::from_str("<:ranking");
            shown.append(rank);
            shown.append(":");
            shown.append(id);
            shown.append(">");
            shown
        },
        None => String::from_str(rank),
    }
}

/// Parts joined with `sep` between each two.
pub open spec fn join_with(parts: Seq<Seq<char>>, sep: Seq<char>) -> Seq<char>
    decreases parts.len(),
{
    if parts.len() == 0 {
        Seq::empty()
    } else if parts.len() == 1 {
        parts[0]
    } else {
        join_with(parts.drop_last(), sep) + sep + parts.last()
    }
}

/// Strings joined with `sep` between each two (`[String]::join`).
pub fn join_strings(parts: &Vec<String>, sep: &str) -> (joined: String)
    ensures
        joined@ == join_with(parts.deep_view(), sep@),
{
    let mut joined = String::new();
    let n = parts.len();
    let mut i: usize = 0;
    while i < n
        invariant
            n == parts@.len(),
            i <= n,
            joined@ == join_with(parts.deep_view().take(i as int), sep@),
        decreases n - i,
    {
        let ghost before = parts.deep_view().take(i as int);
        if i > 0 {
            joined.append(sep);
        }
        joined.append(parts[i].as_str());
        proof {
            let after = parts.deep_view().take(i + 1);
            assert(after.drop_last() =~= before);
            assert(after.last() == parts[i as int]@);
            if i == 0 {
                assert(before.len() == 0);
                assert(joined@ =~= after[0]);
            }
        }
        i = i + 1;
    }
    assert(parts.deep_view().take(n as int) =~= parts.deep_view());
    joined
}

/// The mods of a score: `"None"`, or their acronyms separated by `", "`.
pub open spec fn mods_line(mods: Seq<Seq<char>>) -> Seq<char> {
    if mods.len() == 0 {
        "None"@
    } else {
        join_with(mods, ", "@)
    }
}

/// The mods field of a recent score.
pub fn mods_text(mods: &Vec<String>) -> (line: String)
    ensures
        line@ == mods_line(mods.deep_view()),
{
    if mods.len() == 0 {
        String::from_str("None")
    } else {
        join_strings(mods, ", ")
    }
}

/// A text, or a fallback when it is missing.
pub open spec fn text_or_spec(text: Option<String>, fallback: Seq<char>) -> Seq<char> {
    match text {
        Some(t) => t@,
        None => fallback,
    }
}

fn text_or(text: &Option<String>, fallback: &str) -> (res: String)
    ensures
        res@ == text_or_spec(*text, fallback@),
{
    match text {
        Some(t) => t.clone(),
        None => String::from_str(fallback),
    }
}

/// A text the API gave is used whole, whatever its length; only a missing
/// text is replaced by the fallback.
pub proof fn law_present_text_kept_whole(text: String, fallback: Seq<char>)
    ensures
        text_or_spec(Some(text), fallback) == text@,
        text_or_spec(None, fallback) == fallback,
{
}

/// The mods line lists every mod in order: no mods read `"None"`, a single
/// mod is shown alone, and each further mod is appended after `", "`.
pub proof fn law_mods_line_lists_each(mods: Seq<Seq<char>>, m: Seq<char>)
    ensures
        mods_line(Seq::empty()) == "None"@,
        mods_line(seq![m]) == m,
        mods.len() >= 1 ==> mods_line(mods.push(m)) == mods_line(mods) + ", "@ + m,
{
    assert(seq![m].len() == 1);
    if mods.len() >= 1 {
        assert(mods.push(m).drop_last() =~= mods);
        assert(mods.push(m).last() == m);
    }
}

/// The hit counts of a score.
pub open spec fn hits_line(score: OsuScore) -> Seq<char> {
    dec(count_or_zero(score.count_300)) + " <:hit300t:1482804510819877078> • "@ + dec(
        count_or_zero(score.count_100),
    ) + " <:hit100t:1482804499759239169> • "@ + dec(count_or_zero(score.count_50))
        + " <:hit50:1482799044379017216> • "@ + dec(count_or_zero(score.count_miss))
        + " <:hit0:1482799042982580315>"@
}

fn hits_text(score: &OsuScore) -> (line: String)
    ensures
        line@ == hits_line(*score),
{
    let mut line = String::new();
    push_decimal(&mut line, or_zero(score.count_300));
    line.append(" <:hit300t:1482804510819877078> • ");
    push_decimal(&mut line, or_zero(score.count_100));
    line.append(" <:hit100t:1482804499759239169> • ");
    push_decimal(&mut line, or_zero(score.count_50));
    line.append(" <:hit50:1482799044379017216> • ");
    push_decimal(&mut line, or_zero(score.count_miss));
    line.append(" <:hit0:1482799042982580315>");
    line
}

/// The map line of a recent score: artist, title and difficulty, linked
/// to the beatmap.
pub open spec fn map_line(score: OsuScore) -> Seq<char> {
    "["@ + text_or_spec(score.artist, "Unknown"@) + " - "@ + text_or_spec(
        score.title,
        "Unknown"@,
    ) + " ["@ + text_or_spec(score.version, "Unknown"@) + "]]("@ + text_or_spec(
        score.beatmap_url,
        ""@,
    ) + ")"@
}

fn map_text(score: &OsuScore) -> (line: String)
    ensures
        line@ == map_line(*score),
{
    let mut line = String::from_str("[");
    line.append(text_or(&score.artist, "Unknown").as_str());
    line.append(" - ");
    line.append(text_or(&score.title, "Unknown").as_str());
    line.append(" [");
    line.append(text_or(&score.version, "Unknown").as_str());
    line.append("]](");
    line.append(text_or(&score.beatmap_url, "").as_str());
    line.append(")");
    line
}

/// The performance points of a recent score.
pub open spec fn score_pp_line(pp: Option<String>) -> Seq<char> {
    match pp {
        Some(p) => p@ + "pp"@,
        None => "N/A (failed or unranked)"@,
    }
}

/// The card of a recent score.
pub open spec fn osur_card(
    target: RecentTarget,
    score: OsuScore,
    beatmap_max_combo: Option<u64>,
) -> EmbedView {
    EmbedView {
        title: "<:osu:1482134509729349812> "@ + target.username@ + "'s recent score"@,
        url: Some("https://osu.ppy.sh/users/"@ + dec(target.uid)),
        description: Some(map_line(score)),
        fields: seq![
            ("Grade"@, grade_text(text_or_spec(score.rank, "?"@)), true),
            ("PP"@, score_pp_line(score.pp), true),
            ("Accuracy"@, score.accuracy@ + "%"@, true),
            (
                "Combo"@,
                dec(count_or_zero(score.max_combo)) + "x / "@ + dec(
                    count_or_zero(beatmap_max_combo),
                ) + "x"@,
                true,
            ),
            ("Stars"@, score.stars@ + " <:star:1482800848617738311>"@, true),
            ("Mods"@, mods_line(score.mods.deep_view()), true),
            ("Hits"@, hits_line(score), true),
        ],
        color: EMBED_COLOR,
        thumbnail: Some("https://a.ppy.sh/"@ + dec(target.uid)),
        image: Some(text_or_spec(score.cover_url, ""@)),
    }
}

/// The reply to `>osur`: the card of the player's most recent score, given
/// the maximum combo of its beatmap.
pub fn osur(target: &RecentTarget, score: &OsuScore, beatmap_max_combo: Option<u64>) -> (card:
    EmbedCard)
    ensures
        card@ == osur_card(*target, *score, beatmap_max_combo),
{
    let mut title = String::from_str("<:osu:1482134509729349812> ");
    title.append(target.username.as_str());
    title.append("'s recent score");
    let mut url = String::from_str("https://osu.ppy.sh/users/");
    push_decimal(&mut url, target.uid);
    let grade_letter = text_or(&score.rank, "?");
    let grade = grade_2_emoji(grade_letter.as_str());
    let pp = match &score.pp {
        Some(p) => {
            let mut t = p.clone();
            t.append("pp");
            t
        },
        None => String::from_str("N/A (failed or unranked)"),
    };
    let mut accuracy = score.accuracy.clone();
    accuracy.append("%");
    let mut combo = String::new();
    push_decimal(&mut combo, or_zero(score.max_combo));
    combo.append("x / ");
    push_decimal(&mut combo, or_zero(beatmap_max_combo));
    combo.append("x");
    let mut stars = score.stars.clone();
    stars.append(" <:star:1482800848617738311>");
    let mut fields = Vec::new();
    fields.push(embed_field("Grade", grade, true));
    fields.push(embed_field("PP", pp, true));
    fields.push(embed_field("Accuracy", accuracy, true));
    fields.push(embed_field("Combo", combo, true));
    fields.push(embed_field("Stars", stars, true));
    fields.push(embed_field("Mods", mods_text(&score.mods), true));
    fields.push(embed_field("Hits", hits_text(score), true));
    let mut thumbnail = String::from_str("https://a.ppy.sh/");
    push_decimal(&mut thumbnail, target.uid);
    let card = EmbedCard {
        title,
        url: Some(url),
        description: Some(map_text(score)),
        fields,
        color: EMBED_COLOR,
        thumbnail: Some(thumbnail),
        image: Some(text_or(&score.cover_url, "")),
    };
    assert(card@.fields =~= seq![
        ("Grade"@, grade_text(text_or_spec(score.rank, "?"@)), true),
        ("PP"@, score_pp_line(score.pp), true),
        ("Accuracy"@, score.accuracy@ + "%"@, true),
        (
            "Combo"@,
            dec(count_or_zero(score.max_combo)) + "x / "@ + dec(count_or_zero(beatmap_max_combo))
                + "x"@,
            true,
        ),
        ("Stars"@, score.stars@ + " <:star:1482800848617738311>"@, true),
        ("Mods"@, mods_line(score.mods.deep_view()), true),
        ("Hits"@, hits_line(*score), true),
    ]);
    card
}


/// What `>osur` replies with.
pub enum OsurReply {
    /// A plain text reply.
    Text(String),
    /// An embed.
    Card(EmbedCard),
}

/// The beatmap to look up for the player's most recent score: `None`
/// when there is no recent score, and then nothing is looked up.
pub fn recent_score_beatmap(score: &Option<OsuScore>) -> (url: Option<String>)
    ensures
        (match (score, url) {
            (Some(s), Some(u)) => u@ == "https://osu.ppy.sh/api/v2/beatmaps/"@ + dec(
                count_or_zero(s.beatmap_id),
            ),
            (None, None) => true,
            _ => false,
        }),
{
    match score {
        Some(s) => Some(beatmap_lookup_url(s)),
        None => None,
    }
}

/// The reply to `>osur`, given the player's most recent score (`None` when
/// there is none) and the maximum combo of its beatmap.
pub fn osur_reply(
    target: &RecentTarget,
    score: &Option<OsuScore>,
    beatmap_max_combo: Option<u64>,
) -> (reply: OsurReply)
    ensures
        (match (score, reply) {
            (None, OsurReply::Text(t)) => t@ == "no recent scores for this user... :("@,
            (Some(s), OsurReply::Card(c)) => c@ == osur_card(*target, *s, beatmap_max_combo),
            _ => false,
        }),
{
    match score {
        None => OsurReply::Text(no_recent_scores()),
        Some(s) => OsurReply::Card(osur(target, s, beatmap_max_combo)),
    }
}

/// The osu! API's global performance ranking.
pub const LEADERBOARD_API_URL: &'static str =
    "https://osu.ppy.sh/api/v2/rankings/osu/global?&filter=all";

/// What the bot reads from one entry of the global ranking.
pub struct LeaderboardEntry {
    pub global_rank: Option<u64>,
    /// The performance points, already written with no decimals.
    pub pp: String,
    /// The accuracy as a percentage, already written with two decimals.
    pub accuracy: String,
    pub username: Option<String>,
    pub country_code: Option<String>,
    pub user_id: Option<u64>,
}

/// Why the leaderboard could not be shown.
#[derive(PartialEq, Eq, Structural)]
pub enum LeaderboardError {
    /// The API's answer held no `ranking` array.
    MissingRanking,
}

impl LeaderboardError {
    /// The message the bot reports for this error.
    pub fn message(&self) -> (m: String)
        ensures
            m@ == "Missing ranking array"@,
    {
        String::from_str("Missing ranking array")
    }
}

/// The embed field of one leaderboard entry, given the country code
/// already in lowercase.
pub open spec fn leaderboard_row_view(e: LeaderboardEntry, flag: Seq<char>) -> (
    Seq<char>,
    Seq<char>,
    bool,
) {
    (
        "#"@ + dec(count_or_zero(e.global_rank)) + ": "@ + text_or_spec(e.username, "Unknown"@)
            + " :flag_"@ + flag + ":"@,
        "[Profile](https://osu.ppy.sh/users/"@ + dec(count_or_zero(e.user_id)) + ") • **"@
            + e.pp@ + "pp** • "@ + e.accuracy@ + "% acc"@,
        false,
    )
}

/// The embed field of one leaderboard entry.
pub open spec fn leaderboard_field(e: LeaderboardEntry) -> (Seq<char>, Seq<char>, bool) {
    leaderboard_row_view(e, unicode_lowercase(text_or_spec(e.country_code, "??"@)))
}

/// The country code of an entry whose flag is shown (`"??"` when unknown).
pub fn flag_country(e: &LeaderboardEntry) -> (code: String)
    ensures
        code@ == text_or_spec(e.country_code, "??"@),
{
    text_or(&e.country_code, "??")
}

/// The leaderboard field of an entry, given its country code in lowercase.
pub fn leaderboard_row(e: &LeaderboardEntry, flag: &str) -> (f: super::EmbedField)
    ensures
        f@ == leaderboard_row_view(*e, flag@),
{
    let mut name = String::from_str("#");
    push_decimal(&mut name, or_zero(e.global_rank));
    name.append(": ");
    name.append(text_or(&e.username, "Unknown").as_str());
    name.append(" :flag_");
    name.append(flag);
    name.append(":");
    let mut value = String::from_str("[Profile](https://osu.ppy.sh/users/");
    push_decimal(&mut value, or_zero(e.user_id));
    value.append(") • **");
    value.append(e.pp.as_str());
    value.append("pp** • ");
    value.append(e.accuracy.as_str());
    value.append("% acc");
    super::EmbedField { name, value, inline: false }
}

/// How many entries the leaderboard shows.
pub open spec fn shown_entries(n: nat) -> int {
    if n < 10 {
        n as int
    } else {
        10
    }
}

fn leaderboard_entry_field(e: &LeaderboardEntry) -> (f: super::EmbedField)
    ensures
        f@ == leaderboard_field(*e),
{
    let country = flag_country(e);
    let flag = crate::text::to_lowercase(country.as_str());
    leaderboard_row(e, flag.as_str())
}

/// The reply to `>lb`: the first ten entries of the global ranking, or an
/// error when the API's answer held no ranking.
pub fn lb(ranking: &Option<Vec<LeaderboardEntry>>) -> (res: Result<EmbedCard, LeaderboardError>)
    ensures
        (match (ranking, res) {
            (None, Err(e)) => e == LeaderboardError::MissingRanking,
            (Some(entries), Ok(card)) => card@ == (EmbedView {
                title: "<:osu:1482134509729349812> osu! global leaderboard"@,
                url: Some("https://osu.ppy.sh/rankings/osu/global"@),
                description: None,
                fields: entries@.take(shown_entries(entries@.len())).map_values(
                    |e: LeaderboardEntry| leaderboard_field(e),
                ),
                color: EMBED_COLOR,
                thumbnail: None,
                image: None,
            }),
            _ => false,
        }),
{
    match ranking {
        None => Err(LeaderboardError::MissingRanking),
        Some(entries) => {
            let n = if entries.len() < 10 {
                entries.len()
            } else {
                10
            };
            let mut fields: Vec<super::EmbedField> = Vec::new();
            let mut i: usize = 0;
            while i < n
                invariant
                    n == shown_entries(entries@.len()),
                    n <= entries@.len(),
                    i <= n,
                    fields@.map_values(|f: super::EmbedField| f@) =~= entries@.take(
                        i as int,
                    ).map_values(|e: LeaderboardEntry| leaderboard_field(e)),
                decreases n - i,
            {
                let f = leaderboard_entry_field(&entries[i]);
                let ghost before = fields@;
                fields.push(f);
                proof {
                    assert(fields@.map_values(|f: super::EmbedField| f@) =~= before.map_values(
                        |f: super::EmbedField| f@,
                    ).push(f@));
                    assert(entries@.take(i + 1) =~= entries@.take(i as int).push(entries@[i as int]));
                    assert(entries@.take(i + 1).map_values(|e: LeaderboardEntry| leaderboard_field(e))
                        =~= entries@.take(i as int).map_values(
                        |e: LeaderboardEntry| leaderboard_field(e),
                    ).push(leaderboard_field(entries@[i as int])));
                }
                i = i + 1;
            }
            Ok(
                EmbedCard {
                    title: String::from_str("<:osu:1482134509729349812> osu! global leaderboard"),
                    url: Some(String::from_str("https://osu.ppy.sh/rankings/osu/global")),
                    description: None,
                    fields,
                    color: EMBED_COLOR,
                    thumbnail: None,
                    image: None,
                },
            )
        },
    }
}

/// The leaderboard never shows more than ten entries, nor more entries
/// than the ranking holds.
pub proof fn law_leaderboard_shows_at_most_ten(available: nat)
    ensures
        0 <= shown_entries(available) <= 10,
        shown_entries(available) <= available,
        available >= 10 ==> shown_entries(available) == 10,
{
}

/// The chart data of a rank history: the ranks, newest first, written in
/// decimal and separated by commas.
pub open spec fn rank_series(history: Seq<i32>) -> Seq<char> {
    join_with(history.reverse().map_values(|r: i32| signed_decimal(r as int)), ","@)
}

proof fn lemma_join_front(x: Seq<char>, rest: Seq<Seq<char>>, sep: Seq<char>)
    requires
        rest.len() >= 1,
    ensures
        join_with(seq![x] + rest, sep) == x + sep + join_with(rest, sep),
    decreases rest.len(),
{
    let all = seq![x] + rest;
    assert(all.drop_last() =~= seq![x] + rest.drop_last());
    assert(all.last() == rest.last());
    if rest.len() == 1 {
        assert(seq![x] + rest.drop_last() =~= seq![x]);
        assert(join_with(seq![x], sep) == x);
        assert(join_with(rest, sep) == rest[0]);
        assert(join_with(all, sep) =~= x + sep + join_with(rest, sep));
    } else {
        lemma_join_front(x, rest.drop_last(), sep);
        assert(join_with(all, sep) =~= x + sep + join_with(rest, sep));
    }
}

/// A one-rank history is charted as the plain decimal text of that rank.
pub proof fn law_rank_series_single(r: i32)
    ensures
        rank_series(seq![r]) == signed_decimal(r as int),
{
    assert(seq![r].reverse().map_values(|v: i32| signed_decimal(v as int)) =~= seq![
        signed_decimal(r as int),
    ]);
}

/// Adding a newer rank to a history puts its plain decimal text in front
/// of the chart data, separated by one comma: the data lists the ranks
/// newest first.
pub proof fn law_rank_series_newest_first(history: Seq<i32>, r: i32)
    requires
        history.len() >= 1,
    ensures
        rank_series(history.push(r)) == signed_decimal(r as int) + ","@ + rank_series(history),
{
    let f = |v: i32| signed_decimal(v as int);
    assert(history.push(r).reverse() =~= seq![r] + history.reverse());
    assert(history.push(r).reverse().map_values(f) =~= seq![signed_decimal(r as int)]
        + history.reverse().map_values(f));
    lemma_join_front(signed_decimal(r as int), history.reverse().map_values(f), ","@);
}

/// The chart data of a non-empty history holds exactly one comma fewer
/// than ranks, so it splits into one data point per rank; no data point
/// holds a comma of its own, and each reads back as its rank.
pub proof fn law_rank_series_points(history: Seq<i32>)
    requires
        history.len() >= 1,
    ensures
        count_of(rank_series(history), ',') == history.len() - 1,
        forall|i: int|
            0 <= i < history.len() ==> signed_value(signed_decimal(history[i] as int))
                == history[i] && !(#[trigger] signed_decimal(history[i] as int)).contains(','),
    decreases history.len(),
{
    assert forall|i: int| 0 <= i < history.len() implies signed_value(
        signed_decimal(history[i] as int),
    ) == history[i] && !(#[trigger] signed_decimal(history[i] as int)).contains(',') by {
        law_signed_decimal_reads_back(history[i] as int);
    }
    let last = history.last();
    law_signed_decimal_reads_back(last as int);
    lemma_count_of_absent(signed_decimal(last as int), ',');
    if history.len() == 1 {
        assert(history =~= seq![last]);
        law_rank_series_single(last);
    } else {
        let older = history.drop_last();
        law_rank_series_points(older);
        assert(older.push(last) =~= history);
        law_rank_series_newest_first(older, last);
        reveal_strlit(",");
        assert(count_of(","@, ',') == 1) by {
            reveal_strlit(",");
            let one = ","@;
            assert(one.len() == 1 && one[0] == ',');
            assert(one.drop_last() =~= Seq::<char>::empty());
            assert(count_of(one.drop_last(), ',') == 0);
            assert(one.last() == ',');
        }
        lemma_count_of_append(signed_decimal(last as int), ","@, ',');
        lemma_count_of_append(signed_decimal(last as int) + ","@, rank_series(older), ',');
    }
}

/// The chart data parameter of `>hgraph` for a rank history listed oldest
/// first.
pub fn rank_history_data(history: &Vec<i32>) -> (data: String)
    ensures
        data@ == "a:"@ + rank_series(history@),
{
    let n = history.len();
    let mut parts: Vec<String> = Vec::new();
    let mut k: usize = 0;
    while k < n
        invariant
            n == history@.len(),
            k <= n,
            parts.deep_view() =~= history@.reverse().take(k as int).map_values(
                |r: i32| signed_decimal(r as int),
            ),
        decreases n - k,
    {
        let r = history[n - 1 - k];
        let text = crate::text::i64_to_string(r as i64);
        let ghost before = parts@;
        parts.push(text);
        proof {
            assert(history@.reverse()[k as int] == r);
            assert(history@.reverse().take(k + 1) =~= history@.reverse().take(k as int).push(r));
            assert(parts.deep_view() =~= before.map_values(|s: String| s.deep_view()).push(text@));
            assert(history@.reverse().take(k + 1).map_values(|r: i32| signed_decimal(r as int))
                =~= history@.reverse().take(k as int).map_values(
                |r: i32| signed_decimal(r as int),
            ).push(signed_decimal(r as int)));
        }
        k = k + 1;
    }
    assert(history@.reverse().take(n as int) =~= history@.reverse());
    let joined = join_strings(&parts, ",");
    let mut data = String::from_str("a:");
    data.append(joined.as_str());
    data
}


#[verifier::external_type_specification]
#[verifier::external_body]
pub struct ExImageCharts(ImageCharts);

/// The query parameters an `ImageCharts` builder holds.
pub uninterp spec fn chart_query(chart: ImageCharts) -> Map<Seq<char>, Seq<char>>;

/// Whether an `ImageCharts` builder has the configuration
/// `ImageCharts::new` gives it (the public image-charts.com endpoint, no
/// signing secret).
pub uninterp spec fn chart_has_default_config(chart: ImageCharts) -> bool;

/// The chart address `ImageCharts::to_url` gives for a builder with the
/// default configuration and the given query parameters.
pub uninterp spec fn default_chart_url(query: Map<Seq<char>, Seq<char>>) -> Seq<char>;

/// A chart query without parameters.
pub open spec fn no_chart_params() -> Map<Seq<char>, Seq<char>> {
    Map::empty()
}

/// A chart builder with the default configuration and no parameters
/// (`ImageCharts::new`).
#[verifier::external_body]
fn chart_new() -> (chart: ImageCharts)
    ensures
        chart_query(chart) == no_chart_params(),
        chart_has_default_config(chart),
{
    ImageCharts::new()
}

/// Sets the chart type parameter `cht` (`ImageCharts::cht`).
#[verifier::external_body]
fn chart_cht(chart: ImageCharts, value: &str) -> (next: ImageCharts)
    ensures
        chart_query(next) == chart_query(chart).insert("cht"@, value@),
        chart_has_default_config(next) == chart_has_default_config(chart),
{
    chart.cht(value)
}

/// Sets the chart data parameter `chd` (`ImageCharts::chd`).
#[verifier::external_body]
fn chart_chd(chart: ImageCharts, value: &str) -> (next: ImageCharts)
    ensures
        chart_query(next) == chart_query(chart).insert("chd"@, value@),
        chart_has_default_config(next) == chart_has_default_config(chart),
{
    chart.chd(value)
}

/// Sets the chart size parameter `chs` (`ImageCharts::chs`).
#[verifier::external_body]
fn chart_chs(chart: ImageCharts, value: &str) -> (next: ImageCharts)
    ensures
        chart_query(next) == chart_query(chart).insert("chs"@, value@),
        chart_has_default_config(next) == chart_has_default_config(chart),
{
    chart.chs(value)
}

/// The address of the chart (`ImageCharts::to_url`); for a default
/// configuration it depends on the query parameters alone and starts with
/// the public endpoint `https://image-charts.com/chart?`. How the sorted
/// parameters are percent-encoded after it is only named.
#[verifier::external_body]
fn chart_to_url(chart: &ImageCharts) -> (url: String)
    ensures
        chart_has_default_config(*chart) ==> url@ == default_chart_url(chart_query(*chart)),
        chart_has_default_config(*chart) ==> "https://image-charts.com/chart?"@.is_prefix_of(url@),
{
    chart.to_url()
}

/// The query parameters of a rank history chart: a line chart of the
/// given data, 1200 by 700 pixels.
pub open spec fn rank_chart_query(data: Seq<char>) -> Map<Seq<char>, Seq<char>> {
    no_chart_params().insert("cht"@, "lc"@).insert("chd"@, data).insert(
        "chs"@,
        "1200x700"@,
    )
}

/// The address of the rank history chart of `>hgraph`.
pub fn rank_history_chart_url(history: &Vec<i32>) -> (url: String)
    ensures
        url@ == default_chart_url(rank_chart_query("a:"@ + rank_series(history@))),
        "https://image-charts.com/chart?"@.is_prefix_of(url@),
{
    let data = rank_history_data(history);
    let chart = chart_new();
    let chart = chart_cht(chart, "lc");
    let chart = chart_chd(chart, data.as_str());
    let chart = chart_chs(chart, "1200x700");
    chart_to_url(&chart)
}

/// The reply to `>hgraph`: the rank history chart of a player.
pub fn hgraph(username: &str, uid: u64, chart_url: String) -> (card: EmbedCard)
    ensures
        card@ == (EmbedView {
            title: "<:osu:1482134509729349812> rank history graph for "@ + username@,
            url: Some("https://osu.ppy.sh/users/"@ + dec(uid)),
            description: None,
            fields: Seq::empty(),
            color: EMBED_COLOR,
            thumbnail: None,
            image: Some(chart_url@),
        }),
{
    let mut title = String::from_str("<:osu:1482134509729349812> rank history graph for ");
    title.append(username);
    let mut url = String::from_str("https://osu.ppy.sh/users/");
    push_decimal(&mut url, uid);
    let card = EmbedCard {
        title,
        url: Some(url),
        description: None,
        fields: Vec::new(),
        color: EMBED_COLOR,
        thumbnail: None,
        image: Some(chart_url),
    };
    assert(card@.fields =~= Seq::empty());
    card
}

} // verus!
