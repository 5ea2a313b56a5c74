//! Utility commands: shutdown, help and dictionary definitions.
use vstd::prelude::*;

use crate::text::str_eq;

verus! {

/// The reply to `>shutdown`, sent before the bot exits.
pub fn shutdown() -> (reply: String)
    ensures
        reply@ == "ok bye :("@,
{
    String::from_str("ok bye :(")
}

/// What `>help` asks the help system for.
pub struct HelpRequest {
    /// The command to describe; `None` lists all commands.
    pub command: Option<String>,
    /// The text shown under the help.
    pub extra_text_at_bottom: String,
}

/// The help request for a help invocation. When help was invoked under
/// another name (as a subcommand), that name is put in front of the
/// requested command, or becomes the requested command.
pub fn help(invoked_name: &str, command: Option<String>) -> (req: HelpRequest)
    ensures
        req.command.deep_view() == (if invoked_name@ == "help"@ {
            command.deep_view()
        } else {
            Some(
                match command {
                    Some(c) => invoked_name@ + " "@ + c@,
                    None => invoked_name@,
                },
            )
        }),
        req.extra_text_at_bottom@ == "Run `>help command` for info on a specific command."@,
{
    let command = if str_eq(invoked_name, "help") {
        command
    } else {
        match command {
            Some(c) => {
                let mut q = String::from_str(invoked_name);
                q.append(" ");
                q.append(c.as_str());
                Some(q)
            },
            None => Some(String::from_str(invoked_name)),
        }
    };
    HelpRequest {
        command,
        extra_text_at_bottom: String::from_str(
            "Run `>help command` for info on a specific command.",
        ),
    }
}

/// The dictionary lookup for `word`.
pub fn define_url(word: &str) -> (url: String)
    ensures
        url@ == "https://api.dictionaryapi.dev/api/v2/entries/en/"@ + word@,
{
    let mut url = String::from_str("https://api.dictionaryapi.dev/api/v2/entries/en/");
    url.append(word);
    url
}

/// What the bot reads from the first dictionary entry.
pub struct DictionaryEntry {
    pub phonetic: Option<String>,
    /// The first definition of the first meaning.
    pub definition: Option<String>,
    /// The part of speech of the first meaning.
    pub part_of_speech: Option<String>,
}

/// A text, or a fallback when it is missing.
pub open spec fn or_else(text: Option<Seq<char>>, fallback: Seq<char>) -> Seq<char> {
    match text {
        Some(t) => t,
        None => fallback,
    }
}

fn text_or(text: &Option<String>, fallback: &str) -> (res: String)
    ensures
        res@ == or_else(text.deep_view(), fallback@),
{
    match text {
        Some(t) => t.clone(),
        None => String::from_str(fallback),
    }
}

/// The reply to `>define`, for the word and what the dictionary gave.
pub open spec fn define_reply(
    word: Seq<char>,
    phonetic: Option<Seq<char>>,
    part_of_speech: Option<Seq<char>>,
    definition: Option<Seq<char>>,
) -> Seq<char> {
    "# "@ + word + " - "@ + or_else(phonetic, "no pronunciation found"@) + " ("@ + or_else(
        part_of_speech,
        "no word type found"@,
    ) + ") \n"@ + or_else(definition, "no definition found"@)
}

/// A text that is present is used whole, whatever its length; only a
/// missing text is replaced by the fallback.
pub proof fn law_present_text_used_whole(text: Seq<char>, fallback: Seq<char>)
    ensures
        or_else(Some(text), fallback) == text,
        or_else(None, fallback) == fallback,
{
}

/// When the dictionary gives all three texts, the reply is the word's
/// heading followed by the phonetic, the part of speech and the whole
/// definition, unchanged: the definition ends the reply.
pub proof fn law_define_keeps_texts(
    word: Seq<char>,
    phonetic: Seq<char>,
    part_of_speech: Seq<char>,
    definition: Seq<char>,
)
    ensures
        define_reply(word, Some(phonetic), Some(part_of_speech), Some(definition)) == "# "@ + word
            + " - "@ + phonetic + " ("@ + part_of_speech + ") \n"@ + definition,
        definition.is_suffix_of(
            define_reply(word, Some(phonetic), Some(part_of_speech), Some(definition)),
        ),
{
    let r = define_reply(word, Some(phonetic), Some(part_of_speech), Some(definition));
    assert(r.subrange(r.len() - definition.len(), r.len() as int) =~= definition);
}

/// The reply to `>define word`.
pub fn define(word: &str, entry: &DictionaryEntry) -> (reply: String)
    ensures
        reply@ == define_reply(
            word@,
            entry.phonetic.deep_view(),
            entry.part_of_speech.deep_view(),
            entry.definition.deep_view(),
        ),
{
    let phonetic = text_or(&entry.phonetic, "no pronunciation found");
    let def = text_or(&entry.definition, "no definition found");
    let kind = text_or(&entry.part_of_speech, "no word type found");
    let mut reply = String::from_str("# ");
    reply.append(word);
    reply.append(" - ");
    reply.append(phonetic.as_str());
    reply.append(" (");
    reply.append(kind.as_str());
    reply.append(") \n");
    reply.append(def.as_str());
    reply
}

} // verus!
