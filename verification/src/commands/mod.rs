//! Helpers shared by the bot's commands: thousands grouping of numbers,
//! the cached osu! API token, and the embeds the bot replies with.
pub mod general;
pub mod gifs;
pub mod osu;
pub mod utility;
pub mod wheel;

use vstd::prelude::*;

use crate::text::{
    decimal, digit_char, digits_value, is_digit, lemma_digit_char, push_char, push_decimal,
};

verus! {

/// Inserts a `,` before every third character counted from the end
/// (never at the very start): `"1234567"` becomes `"1,234,567"`.
pub open spec fn group_thousands(s: Seq<char>) -> Seq<char>
    decreases s.len(),
{
    if s.len() <= 3 {
        s
    } else {
        group_thousands(s.take(s.len() - 3)) + seq![','] + s.skip(s.len() - 3)
    }
}

proof fn lemma_decimal_nonempty(n: nat)
    ensures
        decimal(n).len() >= 1,
    decreases n,
{
    if n >= 10 {
        lemma_decimal_nonempty(n / 10);
    }
}

proof fn lemma_decimal_short(n: nat)
    requires
        n < 1000,
    ensures
        decimal(n).len() <= 3,
{
    let a = n / 10;
    let b = a / 10;
    if n >= 10 {
        assert(decimal(n) == decimal(a).push(digit_char((n % 10) as int)));
        if a >= 10 {
            assert(decimal(a) == decimal(b).push(digit_char((a % 10) as int)));
            assert(b < 10);
        }
    }
}

/// Peeling the last three digits off the decimal form of `n >= 1000`
/// leaves the decimal form of `n / 1000`.
proof fn lemma_decimal_split_thousand(n: nat)
    requires
        n >= 1000,
    ensures
        decimal(n).len() > 3,
        decimal(n).take(decimal(n).len() - 3) == decimal(n / 1000),
        decimal(n).skip(decimal(n).len() - 3) == seq![
            digit_char(((n / 100) % 10) as int),
            digit_char(((n / 10) % 10) as int),
            digit_char((n % 10) as int),
        ],
{
    let a = n / 10;
    let b = a / 10;
    let c = b / 10;
    assert(b == n / 100 && c == n / 1000) by (nonlinear_arith)
        requires
            a == n / 10,
            b == a / 10,
            c == b / 10,
    ;
    assert(a >= 10 && b >= 10);
    lemma_decimal_nonempty(c);
    let d = decimal(n);
    assert(d == decimal(a).push(digit_char((n % 10) as int)));
    assert(decimal(a) == decimal(b).push(digit_char((a % 10) as int)));
    assert(decimal(b) == decimal(c).push(digit_char((b % 10) as int)));
    assert(d.take(d.len() - 3) =~= decimal(c));
    assert(d.skip(d.len() - 3) =~= seq![
        digit_char(((n / 100) % 10) as int),
        digit_char(((n / 10) % 10) as int),
        digit_char((n % 10) as int),
    ]);
}

fn push_grouped(s: &mut String, n: u64)
    ensures
        final(s)@ == old(s)@ + group_thousands(decimal(n as nat)),
    decreases n,
{
    if n < 1000 {
        proof {
            lemma_decimal_short(n as nat);
        }
        push_decimal(s, n);
    } else {
        proof {
            lemma_decimal_split_thousand(n as nat);
        }
        push_grouped(s, n / 1000);
        push_char(s, ',');
        let low = n % 1000;
        push_decimal_digit(s, low / 100);
        push_decimal_digit(s, (low / 10) % 10);
        push_decimal_digit(s, low % 10);
        proof {
            assert((n % 1000) / 100 == (n / 100) % 10 && ((n % 1000) / 10) % 10 == (n / 10) % 10
                && (n % 1000) % 10 == n % 10) by (nonlinear_arith);
        }
    }
}

fn push_decimal_digit(s: &mut String, d: u64)
    requires
        d < 10,
    ensures
        final(s)@ == old(s)@.push(digit_char(d as int)),
{
    push_decimal(s, d);
}

/// Renders `n` in decimal with a `,` between each group of three digits,
/// counted from the right: `1234567` becomes `"1,234,567"`, `999` stays
/// `"999"`.
pub fn format_num(n: u64) -> (res: String)
    ensures
        res@ == group_thousands(decimal(n as nat)),
{
    let mut s = String::new();
    push_grouped(&mut s, n);
    s
}


/// `s` with every `,` removed.
pub open spec fn strip_commas(s: Seq<char>) -> Seq<char>
    decreases s.len(),
{
    if s.len() == 0 {
        s
    } else if s.last() == ',' {
        strip_commas(s.drop_last())
    } else {
        strip_commas(s.drop_last()).push(s.last())
    }
}

proof fn lemma_strip_commas_append(a: Seq<char>, b: Seq<char>)
    ensures
        strip_commas(a + b) == strip_commas(a) + strip_commas(b),
    decreases b.len(),
{
    if b.len() == 0 {
        assert(a + b =~= a);
        assert(strip_commas(a) + strip_commas(b) =~= strip_commas(a));
    } else {
        assert((a + b).drop_last() =~= a + b.drop_last());
        lemma_strip_commas_append(a, b.drop_last());
        if b.last() != ',' {
            assert(strip_commas(a + b) =~= strip_commas(a) + strip_commas(b));
        }
    }
}

proof fn lemma_no_commas(s: Seq<char>)
    requires
        !s.contains(','),
    ensures
        strip_commas(s) == s,
    decreases s.len(),
{
    if s.len() > 0 {
        assert(!s.drop_last().contains(',')) by {
            if s.drop_last().contains(',') {
                let i = choose|i: int| 0 <= i < s.drop_last().len() && s.drop_last()[i] == ',';
                assert(s[i] == ',');
            }
        }
        lemma_no_commas(s.drop_last());
        assert(s.last() != ',') by {
            assert(s[s.len() - 1] == s.last());
        }
        assert(s.drop_last().push(s.last()) =~= s);
    }
}

proof fn lemma_group_strips_back(s: Seq<char>)
    requires
        !s.contains(','),
    ensures
        strip_commas(group_thousands(s)) == s,
        s.len() > 0 ==> group_thousands(s).len() == s.len() + (s.len() - 1) / 3,
    decreases s.len(),
{
    if s.len() <= 3 {
        lemma_no_commas(s);
    } else {
        let head = s.take(s.len() - 3);
        let tail = s.skip(s.len() - 3);
        assert(!head.contains(',')) by {
            if head.contains(',') {
                let i = choose|i: int| 0 <= i < head.len() && head[i] == ',';
                assert(s[i] == ',');
            }
        }
        assert(!tail.contains(',')) by {
            if tail.contains(',') {
                let i = choose|i: int| 0 <= i < tail.len() && tail[i] == ',';
                assert(s[s.len() - 3 + i] == ',');
            }
        }
        lemma_group_strips_back(head);
        lemma_no_commas(tail);
        lemma_strip_commas_append(group_thousands(head) + seq![','], tail);
        lemma_strip_commas_append(group_thousands(head), seq![',']);
        assert(strip_commas(seq![',']) =~= Seq::<char>::empty()) by {
            let one = seq![','];
            assert(one.last() == ',');
            assert(one.drop_last() =~= Seq::<char>::empty());
            assert(strip_commas(one) == strip_commas(one.drop_last()));
        }
        assert(head + tail =~= s);
    }
}

proof fn lemma_decimal_digits(n: nat)
    ensures
        !decimal(n).contains(','),
    decreases n,
{
    if n >= 10 {
        lemma_decimal_digits(n / 10);
        let d = decimal(n);
        assert forall|i: int| 0 <= i < d.len() implies d[i] != ',' by {
            if i < d.len() - 1 {
                assert(d[i] == decimal(n / 10)[i]);
            }
        }
    }
}

/// Removing the commas from `format_num(n)` gives back the plain decimal
/// digits of `n`, and exactly one comma is added per full group of three
/// digits before the last group.
pub proof fn law_format_num_only_adds_separators(n: u64)
    ensures
        strip_commas(group_thousands(decimal(n as nat))) == decimal(n as nat),
        group_thousands(decimal(n as nat)).len() == decimal(n as nat).len() + (decimal(
            n as nat,
        ).len() - 1) / 3,
{
    lemma_decimal_digits(n as nat);
    lemma_decimal_nonempty(n as nat);
    lemma_group_strips_back(decimal(n as nat));
}

proof fn lemma_three_digits(n: nat)
    ensures
        ((n / 100) % 10) * 100 + ((n / 10) % 10) * 10 + n % 10 == n % 1000,
{
    let q = n / 1000;
    let r = n % 1000;
    assert(n == q * 1000 + r && 0 <= r < 1000);
    assert(n / 10 == q * 100 + r / 10) by (nonlinear_arith)
        requires
            n == q * 1000 + r,
            0 <= r < 1000,
            q >= 0,
    ;
    assert(n / 100 == q * 10 + r / 100) by (nonlinear_arith)
        requires
            n == q * 1000 + r,
            0 <= r < 1000,
            q >= 0,
    ;
    assert(n % 10 == r % 10) by (nonlinear_arith)
        requires
            n == q * 1000 + r,
            0 <= r < 1000,
            q >= 0,
    ;
    assert((q * 100 + r / 10) % 10 == (r / 10) % 10) by (nonlinear_arith)
        requires
            0 <= r < 1000,
            q >= 0,
    ;
    assert((q * 10 + r / 100) % 10 == r / 100) by (nonlinear_arith)
        requires
            0 <= r < 1000,
            q >= 0,
    ;
    assert((r / 100) * 100 + ((r / 10) % 10) * 10 + r % 10 == r) by (nonlinear_arith)
        requires
            0 <= r < 1000,
    ;
}

/// From one thousand on, `format_num(n)` is `format_num(n / 1000)`
/// followed by a comma and exactly three digits that read back as
/// `n % 1000`: separators sit between groups of three counted from the
/// right, and every group keeps its digits.
pub proof fn law_format_num_thousands(n: u64)
    requires
        n >= 1000,
    ensures
        ({
            let g = group_thousands(decimal(n as nat));
            &&& g.len() >= 4
            &&& g.take(g.len() - 4) == group_thousands(decimal((n / 1000) as nat))
            &&& g[g.len() - 4] == ','
            &&& forall|i: int| g.len() - 3 <= i < g.len() ==> is_digit(#[trigger] g[i])
            &&& digits_value(g.skip(g.len() - 3)) == n % 1000
        }),
{
    lemma_decimal_split_thousand(n as nat);
    let d = decimal(n as nat);
    let head = d.take(d.len() - 3);
    let tail = d.skip(d.len() - 3);
    let g = group_thousands(d);
    let gh = group_thousands(head);
    assert(g == gh + seq![','] + tail);
    let a = ((n / 100) % 10) as int;
    let b = ((n / 10) % 10) as int;
    let c = (n % 10) as int;
    lemma_digit_char(a);
    lemma_digit_char(b);
    lemma_digit_char(c);
    assert(g.take(g.len() - 4) =~= gh);
    assert(g.skip(g.len() - 3) =~= tail);
    let t = tail;
    let t1 = t.drop_last().drop_last();
    assert(t1.drop_last() =~= Seq::<char>::empty());
    assert(digits_value(t1.drop_last()) == 0);
    assert(t1.last() == digit_char(a));
    assert(digits_value(t1) == digits_value(t1.drop_last()) * 10 + crate::text::digit_value(
        t1.last(),
    ));
    assert(digits_value(t1) == a);
    assert(digits_value(t.drop_last()) == a * 10 + b);
    assert(digits_value(t) == (a * 10 + b) * 10 + c);
    lemma_three_digits(n as nat);
}

/// Numbers below one thousand are written without any separator.
pub proof fn law_format_num_small_unchanged(n: u64)
    requires
        n < 1000,
    ensures
        group_thousands(decimal(n as nat)) == decimal(n as nat),
{
    lemma_decimal_short(n as nat);
}

/// The user agent the bot sends with every HTTP request.
pub const USER_AGENT_NAME: &'static str = "patchbot_discord";

/// The colour of every embed the bot sends.
pub const EMBED_COLOR: u32 = 0xFF66AA;

/// One field of an embed.
pub struct EmbedField {
    pub name: String,
    pub value: String,
    pub inline: bool,
}

impl View for EmbedField {
    type V = (Seq<char>, Seq<char>, bool);

    open spec fn view(&self) -> (Seq<char>, Seq<char>, bool) {
        (self.name@, self.value@, self.inline)
    }
}

/// A rich message (a Discord embed), as plain values.
pub struct EmbedCard {
    pub title: String,
    pub url: Option<String>,
    pub description: Option<String>,
    pub fields: Vec<EmbedField>,
    pub color: u32,
    pub thumbnail: Option<String>,
    pub image: Option<String>,
}

/// The content of an [`EmbedCard`].
#[verifier::ext_equal]
pub struct EmbedView {
    pub title: Seq<char>,
    pub url: Option<Seq<char>>,
    pub description: Option<Seq<char>>,
    pub fields: Seq<(Seq<char>, Seq<char>, bool)>,
    pub color: u32,
    pub thumbnail: Option<Seq<char>>,
    pub image: Option<Seq<char>>,
}

impl View for EmbedCard {
    type V = EmbedView;

    open spec fn view(&self) -> EmbedView {
        EmbedView {
            title: self.title@,
            url: self.url.deep_view(),
            description: self.description.deep_view(),
            fields: self.fields@.map_values(|f: EmbedField| f@),
            color: self.color,
            thumbnail: self.thumbnail.deep_view(),
            image: self.image.deep_view(),
        }
    }
}

/// Builds an embed field.
pub fn embed_field(name: &str, value: String, inline: bool) -> (f: EmbedField)
    ensures
        f@ == (name@, value@, inline),
{
    EmbedField { name: String::from_str(name), value, inline }
}

/// The `Authorization` header value for an osu! API token.
pub fn bearer(token: &str) -> (header: String)
    ensures
        header@ == "Bearer "@ + token@,
{
    let mut h = String::from_str("Bearer ");
    h.append(token);
    h
}

/// The request for an osu! API client-credentials token.
pub struct OsuTokenRequest {
    pub url: String,
    pub client_id: String,
    pub client_secret: String,
    pub grant_type: String,
    pub scope: String,
}

/// The token request the bot sends with its osu! client credentials.
pub fn osu_token_request(client_id: &str, client_secret: &str) -> (req: OsuTokenRequest)
    ensures
        req.url@ == "https://osu.ppy.sh/oauth/token"@,
        req.client_id@ == client_id@,
        req.client_secret@ == client_secret@,
        req.grant_type@ == "client_credentials"@,
        req.scope@ == "public"@,
{
    OsuTokenRequest {
        url: String::from_str("https://osu.ppy.sh/oauth/token"),
        client_id: String::from_str(client_id),
        client_secret: String::from_str(client_secret),
        grant_type: String::from_str("client_credentials"),
        scope: String::from_str("public"),
    }
}

/// Why no osu! API token could be had.
#[derive(PartialEq, Eq, Structural)]
pub enum OsuTokenError {
    /// The token response held no `access_token` string.
    MissingAccessToken,
}

impl OsuTokenError {
    /// The message the bot reports for this error.
    pub fn message(&self) -> (m: String)
        ensures
            m@ == "failed to get osu token"@,
    {
        String::from_str("failed to get osu token")
    }
}

/// The osu! API token kept between commands; empty until the first
/// successful token request, and never changed after it.
pub struct OsuTokenCache {
    token: Option<String>,
}

/// The cached token after a token response: a token already cached is
/// kept; otherwise a received token is cached, and a response without one
/// leaves the cache empty.
pub open spec fn token_after_response(
    cached: Option<Seq<char>>,
    received: Option<Seq<char>>,
) -> Option<Seq<char>> {
    match cached {
        Some(c) => Some(c),
        None => received,
    }
}

/// What getting a token does next.
pub enum TokenStep {
    /// A token is cached: use it, and send no request.
    UseCached(String),
    /// No token is cached: request one, then hand the response to
    /// [`OsuTokenCache::store_response`].
    Request,
}

impl View for OsuTokenCache {
    type V = Option<Seq<char>>;

    closed spec fn view(&self) -> Option<Seq<char>> {
        self.token.deep_view()
    }
}

impl OsuTokenCache {
    /// An empty cache.
    pub fn new() -> (cache: Self)
        ensures
            cache@ is None,
    {
        OsuTokenCache { token: None }
    }

    /// The cached token, if any.
    pub fn cached(&self) -> (token: Option<String>)
        ensures
            token.deep_view() == self@,
    {
        match &self.token {
            Some(t) => Some(t.clone()),
            None => None,
        }
    }

    /// The first step of getting a token: reuse the cached one, or
    /// request a new one only when none is cached.
    pub fn next_step(&self) -> (step: TokenStep)
        ensures
            (match (self@, step) {
                (Some(t), TokenStep::UseCached(s)) => s@ == t,
                (None, TokenStep::Request) => true,
                _ => false,
            }),
    {
        match &self.token {
            Some(t) => TokenStep::UseCached(t.clone()),
            None => TokenStep::Request,
        }
    }

    /// Takes the `access_token` of a token response. A token already
    /// cached is kept and handed back; otherwise a received token is
    /// cached and handed back, and a response without one is an error
    /// that leaves the cache empty.
    pub fn store_response(&mut self, access_token: Option<String>) -> (res: Result<
        String,
        OsuTokenError,
    >)
        ensures
            final(self)@ == token_after_response(old(self)@, access_token.deep_view()),
            (match (token_after_response(old(self)@, access_token.deep_view()), res) {
                (Some(t), Ok(r)) => r@ == t,
                (None, Err(e)) => e == OsuTokenError::MissingAccessToken,
                _ => false,
            }),
    {
        match &self.token {
            Some(t) => Ok(t.clone()),
            None => match access_token {
                Some(t) => {
                    self.token = Some(t.clone());
                    Ok(t)
                },
                None => Err(OsuTokenError::MissingAccessToken),
            },
        }
    }
}

/// A token request that succeeds with `token` leaves that token cached;
/// from then on every later response, whatever it holds, keeps exactly
/// that token, so it is never replaced and never dropped.
pub proof fn law_received_token_is_kept(
    cached: Option<Seq<char>>,
    received: Option<Seq<char>>,
    token: Seq<char>,
    later: Seq<Option<Seq<char>>>,
)
    requires
        token_after_response(cached, received) == Some(token),
    ensures
        later.fold_left(
            token_after_response(cached, received),
            |c: Option<Seq<char>>, r: Option<Seq<char>>| token_after_response(c, r),
        ) == Some(token),
    decreases later.len(),
{
    if later.len() > 0 {
        law_received_token_is_kept(cached, received, token, later.drop_last());
    }
}

/// A token response without a token leaves the cache as it was.
pub proof fn law_failed_response_keeps_cache(cached: Option<Seq<char>>)
    ensures
        token_after_response(cached, None) == cached,
{
}

} // verus!
