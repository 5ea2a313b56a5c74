//! The wheel: a file of entries, one per line, from which a spin picks one
//! at random.
use rand::seq::IteratorRandom;
use vstd::prelude::*;

use crate::text::{
    first_newline, is_white_space, lemma_first_newline_bounds, lines, split_lines, strip_cr, trim,
    trim_end, trim_start, trim_str,
};

verus! {

/// Where the wheel's entries are kept, one per line.
pub const WHEEL_FILE: &'static str = "src/wheel.txt";

/// What a spin of the wheel does, given the wheel file.
pub enum WheelAction {
    /// The wheel file is missing: create it empty, then send `reply`.
    CreateFile { reply: String },
    /// Send `reply`.
    Reply { reply: String },
}

impl WheelAction {
    /// The reply this action sends.
    pub open spec fn reply_text(&self) -> Seq<char> {
        match self {
            WheelAction::CreateFile { reply } => reply@,
            WheelAction::Reply { reply } => reply@,
        }
    }
}

/// The reply when the wheel file had to be created.
pub open spec fn wheel_created_text() -> Seq<char> {
    "wheel doesn't exist, so i made it! (๑・ω・๑) \nrun >wheeladd [input] to add a new entry!"@
}

/// The reply when the wheel file holds nothing but whitespace.
pub open spec fn wheel_empty_text() -> Seq<char> {
    "wheel.txt exists, but it's empty... (߹𖥦߹) \nrun >wheeladd [input] to add a new entry!"@
}

/// Picks one of `lines` uniformly at random
/// (`rand::seq::IteratorRandom::choose` with `rand::rng()`).
#[verifier::external_body]
fn choose_line(lines: &Vec<String>) -> (pick: Option<String>)
    ensures
        pick is None <==> lines@.len() == 0,
        pick matches Some(l) ==> exists|i: int| 0 <= i < lines@.len() && lines@[i]@ == l@,
{
    lines.iter().choose(&mut rand::rng()).cloned()
}

proof fn lemma_trim_start_shorter(s: Seq<char>)
    ensures
        trim_start(s).len() <= s.len(),
    decreases s.len(),
{
    if s.len() > 0 && is_white_space(s[0]) {
        lemma_trim_start_shorter(s.drop_first());
    }
}

proof fn lemma_trim_end_shorter(s: Seq<char>)
    ensures
        trim_end(s).len() <= s.len(),
        trim_end(s).len() > 0 ==> !is_white_space(trim_end(s).last()),
    decreases s.len(),
{
    if s.len() > 0 && is_white_space(s.last()) {
        lemma_trim_end_shorter(s.drop_last());
    }
}

/// Spins the wheel: `None` stands for a missing wheel file, `Some` for its
/// contents. A missing file is to be created; a file holding only
/// whitespace gets the "empty" reply; otherwise the reply is one of the
/// file's lines, picked at random.
pub fn wheel(contents: Option<&str>) -> (action: WheelAction)
    ensures
        contents is None ==> action is CreateFile && action.reply_text() == wheel_created_text(),
        contents matches Some(c) ==> action is Reply,
        contents matches Some(c) ==> (trim(c@).len() == 0 ==> action.reply_text()
            == wheel_empty_text()),
        contents matches Some(c) ==> (trim(c@).len() > 0 ==> lines(c@).contains(
            action.reply_text(),
        )),
{
    match contents {
        None => WheelAction::CreateFile {
            reply: String::from_str(
                "wheel doesn't exist, so i made it! (๑・ω・๑) \nrun >wheeladd [input] to add a new entry!",
            ),
        },
        Some(c) => {
            let trimmed = trim_str(c);
            if trimmed.as_str().unicode_len() == 0 {
                WheelAction::Reply {
                    reply: String::from_str(
                        "wheel.txt exists, but it's empty... (߹𖥦߹) \nrun >wheeladd [input] to add a new entry!",
                    ),
                }
            } else {
                let all = split_lines(c);
                proof {
                    lemma_trim_start_shorter(c@);
                    lemma_trim_end_shorter(trim_start(c@));
                    assert(all@.len() == lines(c@).len());
                }
                let pick = choose_line(&all);
                let line = pick.unwrap();
                proof {
                    let i = choose|i: int| 0 <= i < all@.len() && all@[i]@ == line@;
                    assert(all.deep_view()[i] == all@[i]@);
                    assert(lines(c@)[i] == line@);
                }
                WheelAction::Reply { reply: line }
            }
        },
    }
}

/// What adding an entry to the wheel produces.
pub struct WheelEntry {
    /// The entry as stored: the input without surrounding whitespace.
    pub entry: String,
    /// The text to append to the wheel file.
    pub appended: String,
    /// The reply to send.
    pub reply: String,
}

/// Prepares an entry for the wheel: the input is trimmed, appended to the
/// file followed by a newline, and confirmed in the reply.
pub fn wheeladd(input: &str) -> (added: WheelEntry)
    ensures
        added.entry@ == trim(input@),
        added.appended@ == trim(input@).push('\n'),
        added.reply@ == "✔ \"**"@ + trim(input@) + "**\" has been added to the wheel!"@,
{
    let entry = trim_str(input);
    let mut appended = entry.clone();
    crate::text::push_char(&mut appended, '\n');
    let mut reply = String::from_str("✔ \"**");
    reply.append(entry.as_str());
    reply.append("**\" has been added to the wheel!");
    WheelEntry { entry, appended, reply }
}

/// A wheel file as the bot keeps it: empty, or ending in a newline.
pub open spec fn wheel_file_well_formed(contents: Seq<char>) -> bool {
    contents.len() == 0 || contents.last() == '\n'
}

proof fn lemma_append_line(contents: Seq<char>, entry: Seq<char>)
    requires
        wheel_file_well_formed(contents),
        !entry.contains('\n'),
        entry.len() == 0 || entry.last() != '\r',
    ensures
        lines(contents + entry.push('\n')) == lines(contents).push(entry),
    decreases contents.len(),
{
    let whole = contents + entry.push('\n');
    lemma_first_newline_bounds(whole);
    if contents.len() == 0 {
        assert(whole =~= entry.push('\n'));
        lemma_first_newline_at_end(entry);
        assert(whole.take(entry.len() as int) =~= entry);
        assert(whole.skip(entry.len() as int + 1).len() == 0);
        assert(lines(contents) =~= Seq::<Seq<char>>::empty());
        assert(strip_cr(entry) == entry);
        let tail = whole.skip(entry.len() as int + 1);
        assert(lines(tail) =~= Seq::<Seq<char>>::empty());
        assert(first_newline(whole) == entry.len());
        assert(lines(whole) == seq![strip_cr(whole.take(entry.len() as int))] + lines(tail));
        assert(lines(whole) =~= seq![entry]);
    } else {
        lemma_first_newline_bounds(contents);
        let k = first_newline(contents);
        assert(k < contents.len()) by {
            if k >= contents.len() {
                assert(contents[contents.len() - 1] == '\n');
            }
        }
        lemma_first_newline_prefix(contents, entry.push('\n'));
        let rest = contents.skip(k + 1);
        assert(whole.take(k) =~= contents.take(k));
        assert(whole.skip(k + 1) =~= rest + entry.push('\n'));
        assert(wheel_file_well_formed(rest)) by {
            if rest.len() > 0 {
                assert(rest.last() == contents.last());
            }
        }
        lemma_append_line(rest, entry);
        assert(lines(contents) == seq![strip_cr(contents.take(k))] + lines(rest));
        assert(lines(whole) == seq![strip_cr(contents.take(k))] + lines(rest + entry.push('\n')));
        assert(lines(whole) =~= (seq![strip_cr(contents.take(k))] + lines(rest)).push(entry));
    }
}

proof fn lemma_first_newline_at_end(entry: Seq<char>)
    requires
        !entry.contains('\n'),
    ensures
        first_newline(entry.push('\n')) == entry.len(),
    decreases entry.len(),
{
    if entry.len() > 0 {
        assert(entry.push('\n').drop_first() =~= entry.drop_first().push('\n'));
        assert(entry[0] != '\n');
        assert(!entry.drop_first().contains('\n')) by {
            if entry.drop_first().contains('\n') {
                let i = choose|i: int| 0 <= i < entry.drop_first().len() && entry.drop_first()[i]
                    == '\n';
                assert(entry[i + 1] == '\n');
            }
        }
        lemma_first_newline_at_end(entry.drop_first());
    }
}

proof fn lemma_first_newline_prefix(a: Seq<char>, b: Seq<char>)
    requires
        first_newline(a) < a.len(),
    ensures
        first_newline(a + b) == first_newline(a),
    decreases a.len(),
{
    if a[0] != '\n' {
        assert((a + b).drop_first() =~= a.drop_first() + b);
        lemma_first_newline_prefix(a.drop_first(), b);
    } else {
        assert((a + b)[0] == '\n');
    }
}

/// Adding an entry to a well-formed wheel file keeps it well formed and
/// makes the entry its new last line, leaving the earlier lines as they
/// were, provided the entry holds no line break of its own.
pub proof fn law_wheeladd_appends_one_line(contents: Seq<char>, input: Seq<char>)
    requires
        wheel_file_well_formed(contents),
        !trim(input).contains('\n'),
    ensures
        wheel_file_well_formed(contents + trim(input).push('\n')),
        lines(contents + trim(input).push('\n')) == lines(contents).push(trim(input)),
{
    lemma_trim_end_shorter(trim_start(input));
    lemma_append_line(contents, trim(input));
}

/// A freshly created wheel file is well formed and has no lines.
pub proof fn law_new_wheel_is_empty()
    ensures
        wheel_file_well_formed(Seq::<char>::empty()),
        lines(Seq::<char>::empty()).len() == 0,
{
}

} // verus!
