//! Random gifs: a random word is looked up on the klipy gif search.
use vstd::prelude::*;

verus! {

/// The API the bot asks for a random word.
pub const RANDOM_WORD_URL: &'static str = "https://random-word-api.herokuapp.com/word";

/// The word to search for, given the random-word API's answer: its first
/// word, or `"word"` when the answer is empty.
pub fn random_word(words: Vec<String>) -> (word: String)
    ensures
        word@ == (if words@.len() > 0 {
            words@[0]@
        } else {
            "word"@
        }),
{
    if words.len() > 0 {
        words[0].clone()
    } else {
        String::from_str("word")
    }
}

/// The klipy search `>rgif` sends for `word`.
pub fn rgif_search_url(api_key: &str, word: &str) -> (url: String)
    ensures
        url@ == "https://api.klipy.com/api/v1/"@ + api_key@ + "/gifs/search?q="@ + word@
            + "&per_page=1&content_filter=off"@,
{
    let mut url = String::from_str("https://api.klipy.com/api/v1/");
    url.append(api_key);
    url.append("/gifs/search?q=");
    url.append(word);
    url.append("&per_page=1&content_filter=off");
    url
}

/// The klipy search `>rgifword` sends for `word`.
pub fn rgifword_search_url(api_key: &str, word: &str) -> (url: String)
    ensures
        url@ == "https://api.klipy.com/api/v1/"@ + api_key@ + "/gifs/search?q="@ + word@
            + "/&per_page=1"@,
{
    let mut url = String::from_str("https://api.klipy.com/api/v1/");
    url.append(api_key);
    url.append("/gifs/search?q=");
    url.append(word);
    url.append("/&per_page=1");
    url
}

/// The slug used when the search found no gif.
pub open spec fn missing_slug() -> Seq<char> {
    "no gif found :("@
}

/// The gif page for the slug of the first search result.
pub fn gif_url(slug: Option<String>) -> (url: String)
    ensures
        url@ == "https://klipy.com/gifs/"@ + (match slug {
            Some(s) => s@,
            None => missing_slug(),
        }),
{
    let mut url = String::from_str("https://klipy.com/gifs/");
    match slug {
        Some(s) => url.append(s.as_str()),
        None => url.append("no gif found :("),
    }
    url
}

/// The reply to `>rgif`: the gif page of the first search result.
pub fn rgif(slug: Option<String>) -> (reply: String)
    ensures
        reply@ == "https://klipy.com/gifs/"@ + (match slug {
            Some(s) => s@,
            None => missing_slug(),
        }),
{
    gif_url(slug)
}

/// The reply to `>rgifword`: a link to the gif page and the word searched.
pub fn rgifword(slug: Option<String>, word: &str) -> (reply: String)
    ensures
        reply@ == "[Source link](https://klipy.com/gifs/"@ + (match slug {
            Some(s) => s@,
            None => missing_slug(),
        }) + ") \nWord used in search: '"@ + word@ + "'"@,
{
    let page = gif_url(slug);
    let mut reply = String::from_str("[Source link](");
    reply.append(page.as_str());
    reply.append(") \nWord used in search: '");
    reply.append(word);
    reply.append("'");
    proof {
        reveal_strlit("[Source link](");
        reveal_strlit("https://klipy.com/gifs/");
        reveal_strlit("[Source link](https://klipy.com/gifs/");
        assert("[Source link]("@ + "https://klipy.com/gifs/"@
            =~= "[Source link](https://klipy.com/gifs/"@);
    }
    reply
}

} // verus!
