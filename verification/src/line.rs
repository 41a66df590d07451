//! How a line of dialogue is read: annotations, speaker, body, question.

use vstd::prelude::*;
use crate::command::is_word;
use crate::story::{StoryState, hash_obj, question_id};
use crate::text::{
    chars_of, contains_marker, find_char, first_index_of, first_index_of_bounds, has_marker,
    slice_chars, string_of, strip_annotation_chars, strip_annotations, trim, trim_chars,
};
use crate::yarn::YarnManager;

verus! {

/// What the reading of a line found about its speaker.
#[derive(Clone, Copy, Debug, PartialEq, Eq)]
pub enum LineNote {
    /// A known speaker says the line.
    Spoken,
    /// The line names no speaker.
    NoSpeaker,
    /// The line names a speaker that the game does not know; the name stays
    /// in the body.
    UnknownSpeaker,
}

/// A line as the dialogue box shows it.
pub struct LineShown {
    /// The speaker's name, or nothing.
    pub speaker: String,
    /// What is said.
    pub body: String,
    /// Whether the line asks the question that the next options answer.
    pub question: bool,
    pub note: LineNote,
}

/// A shown line as contracts see it.
pub struct LineView {
    pub speaker: Seq<char>,
    pub body: Seq<char>,
    pub question: bool,
    pub note: LineNote,
}

impl View for LineShown {
    type V = LineView;

    open spec fn view(&self) -> LineView {
        LineView {
            speaker: self.speaker@,
            body: self.body@,
            question: self.question,
            note: self.note,
        }
    }
}

/// The speakers that the game knows.
pub open spec fn is_speaker(tag: Seq<char>) -> bool {
    tag == "Remie"@ || tag == "Player"@ || tag == "Waiter"@
}

/// What precedes the first colon of a line without its annotations.
pub open spec fn speaker_tag(clean: Seq<char>) -> Seq<char> {
    clean.take(first_index_of(clean, ':'))
}

/// Whether a line without its annotations starts with a known speaker and a
/// colon.
pub open spec fn is_spoken(clean: Seq<char>) -> bool {
    first_index_of(clean, ':') < clean.len() && is_speaker(speaker_tag(clean))
}

/// The line with the text `text` as the dialogue box shows it. Annotations go
/// first. Where a known speaker and a colon start the rest, what follows the
/// colon is the body; otherwise the whole rest is. The body is trimmed, and
/// the line is a question where the body holds the question marker.
pub open spec fn shown_line(text: Seq<char>) -> LineView {
    let clean = strip_annotations(text);
    let colon = first_index_of(clean, ':');
    let body = if is_spoken(clean) {
        trim(clean.skip(colon + 1))
    } else {
        trim(clean)
    };
    LineView {
        speaker: if is_spoken(clean) {
            speaker_tag(clean)
        } else {
            Seq::<char>::empty()
        },
        body,
        question: has_marker(body),
        note: if is_spoken(clean) {
            LineNote::Spoken
        } else if colon < clean.len() {
            LineNote::UnknownSpeaker
        } else {
            LineNote::NoSpeaker
        },
    }
}

/// Whether `tag` names a speaker that the game knows.
pub fn is_speaker_tag(tag: &Vec<char>) -> (r: bool)
    ensures
        r == is_speaker(tag@),
{
    is_word(tag, "Remie") || is_word(tag, "Player") || is_word(tag, "Waiter")
}

/// Reads a line of dialogue without touching the session.
pub fn read_line(text: &str) -> (shown: LineShown)
    ensures
        shown@ == shown_line(text@),
{
    let clean = strip_annotation_chars(&chars_of(text));
    let colon = find_char(&clean, ':', 0);
    proof {
        assert(clean@.skip(0) =~= clean@);
        first_index_of_bounds(clean@, ':');
    }
    let tag = slice_chars(&clean, 0, colon);
    assert(tag@ =~= speaker_tag(clean@));
    let spoken = colon < clean.len() && is_speaker_tag(&tag);
    let body = if spoken {
        let rest = slice_chars(&clean, colon + 1, clean.len());
        assert(rest@ =~= clean@.skip(colon + 1));
        trim_chars(&rest)
    } else {
        trim_chars(&clean)
    };
    let question = contains_marker(&body);
    LineShown {
        speaker: if spoken {
            string_of(&tag)
        } else {
            String::new()
        },
        body: string_of(&body),
        question,
        note: if spoken {
            LineNote::Spoken
        } else if colon < clean.len() {
            LineNote::UnknownSpeaker
        } else {
            LineNote::NoSpeaker
        },
    }
}

/// Shows a line of dialogue: reads it, makes a question the current one, and
/// lets the session wait for the player to go on unless the line is a
/// question, which waits for its options instead.
pub fn show_line(story: &mut StoryState, yarn: &mut YarnManager, text: &str) -> (shown: LineShown)
    ensures
        shown@ == shown_line(text@),
        final(yarn).waiting_continue == !shown.question,
        final(yarn).waiting_response == old(yarn).waiting_response,
        final(yarn).important_decision == old(yarn).important_decision,
        final(yarn).finished == old(yarn).finished,
        final(yarn).wait_timer == old(yarn).wait_timer,
        final(yarn).other_option == old(yarn).other_option,
        final(story).current_question == if shown.question {
            question_id(shown.body@)
        } else {
            old(story).current_question
        },
        final(story).is_marco_here == old(story).is_marco_here,
        final(story).is_remie_here == old(story).is_remie_here,
        final(story).endings == old(story).endings,
        final(story).selected_options == old(story).selected_options,
        final(story).the_end == old(story).the_end,
{
    let shown = read_line(text);
    if shown.question {
        story.current_question = hash_obj(shown.body.as_str());
    }
    yarn.waiting_continue = !shown.question;
    shown
}

} // verus!
