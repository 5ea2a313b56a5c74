use patchbot::commands::gifs::{
    gif_url, random_word, rgif, rgif_search_url, rgifword, rgifword_search_url, RANDOM_WORD_URL,
};

#[test]
fn random_word_takes_first() {
    assert_eq!(random_word(vec!["banana".to_string(), "apple".to_string()]), "banana");
    assert_eq!(RANDOM_WORD_URL, "https://random-word-api.herokuapp.com/word");
}

#[test]
fn random_word_defaults_to_word() {
    assert_eq!(random_word(vec![]), "word");
}

#[test]
fn klipy_search_urls() {
    assert_eq!(
        rgif_search_url("KEY", "cat"),
        "https://api.klipy.com/api/v1/KEY/gifs/search?q=cat&per_page=1&content_filter=off"
    );
    assert_eq!(
        rgifword_search_url("KEY", "cat"),
        "https://api.klipy.com/api/v1/KEY/gifs/search?q=cat/&per_page=1"
    );
}

#[test]
fn gif_replies() {
    assert_eq!(gif_url(Some("dancing-cat".to_string())), "https://klipy.com/gifs/dancing-cat");
    assert_eq!(rgif(Some("dancing-cat".to_string())), "https://klipy.com/gifs/dancing-cat");
    assert_eq!(rgif(None), "https://klipy.com/gifs/no gif found :(");
    assert_eq!(
        rgifword(Some("dancing-cat".to_string()), "cat"),
        "[Source link](https://klipy.com/gifs/dancing-cat) \nWord used in search: 'cat'"
    );
    assert_eq!(
        rgifword(None, "cat"),
        "[Source link](https://klipy.com/gifs/no gif found :() \nWord used in search: 'cat'"
    );
}
