//! What the screens say: the texts that the terminal front end draws for a
//! state of the application.
use vstd::prelude::*;
use crate::app::{
    feedback_view, label_title_text, singular_title_text, Feedback, FeedbackView, Question, SessionMode, TuiApp,
};
use crate::kana::{hiragana, hiragana_convertible, to_hiragana};
use crate::text::{decimal, join_texts, joined, push_char, push_text, texts, trim, trimmed, u64_to_string};

verus! {

/// The message of the status panel: the error if there is one, else the
/// status, else the screen's own hint.
pub open spec fn status_message(error: Option<Seq<char>>, status: Option<Seq<char>>, fallback: Seq<char>) -> Seq<char> {
    match error {
        Some(e) => e,
        None => match status {
            Some(s) => s,
            None => fallback,
        },
    }
}

/// The heading of the feedback on an answer.
pub open spec fn feedback_heading(correct: bool, typo_accepted: bool) -> Seq<char> {
    if correct {
        if typo_accepted {
            "Correct - typo accepted"@
        } else {
            "Correct"@
        }
    } else {
        "Incorrect"@
    }
}

/// The lines under the heading of the feedback: the answer given, every
/// accepted answer, how to accept a wrong meaning, and how to go on.
pub open spec fn feedback_body(f: FeedbackView) -> Seq<Seq<char>> {
    let hints: Seq<Seq<char>> = if !f.correct && f.question == Question::Meaning {
        seq!["a accepts your answer for this session."@, "s adds it as a synonym and accepts it."@]
    } else {
        Seq::empty()
    };
    seq![Seq::empty(), "You typed: "@ + f.typed, "Correct answer: "@ + joined(f.expected, ", "@), Seq::empty()]
        + hints + seq!["Press Enter to continue."@]
}

/// The title of the answer field for a question.
pub open spec fn question_label(question: Question) -> Seq<char> {
    match question {
        Question::Meaning => "Meaning"@,
        Question::Reading => "Reading"@,
    }
}

/// What a question asks the user to type.
pub open spec fn question_hint(question: Question) -> Seq<char> {
    match question {
        Question::Meaning => "Type the English meaning and press Enter."@,
        Question::Reading => "Type romaji; it appears as kana here. Press Enter to submit."@,
    }
}

/// The progress above a subject: the kind of session and the subject's
/// place, counted from one, in a batch of `total`.
pub open spec fn progress_text(mode: SessionMode, index: nat, total: nat) -> Seq<char> {
    singular_title_text(mode) + " "@ + decimal(index + 1) + "/"@ + decimal(total)
}

/// The lines under the heading of the screen that ends a session: the
/// score, the last status if there is one, and the keys.
pub open spec fn done_body(correct: nat, total: nat, status: Option<Seq<char>>) -> Seq<Seq<char>> {
    let report: Seq<Seq<char>> = match status {
        Some(s) => seq![Seq::empty(), s],
        None => Seq::empty(),
    };
    seq![Seq::empty(), "Answers: "@ + decimal(correct) + "/"@ + decimal(total) + " correct"@] + report
        + seq![Seq::empty(), "Enter returns to menu. q quits."@]
}

/// The length in bytes of the UTF-8 encoding of a text, as `str::len`
/// reports it.
pub open spec fn byte_length(s: Seq<char>) -> usize {
    vstd::utf8::encode_utf8(s).len() as usize
}

/// The token field as shown: one `*` for each byte of the token.
pub open spec fn masked_text(token: Seq<char>) -> Seq<char> {
    Seq::new(byte_length(token) as nat, |i: int| '*')
}

/// The answer field as shown: a reading appears as hiragana while it is
/// typed.
pub open spec fn answer_shown(question: Question, answer: Seq<char>) -> Seq<char> {
    match question {
        Question::Meaning => answer,
        Question::Reading => hiragana(answer),
    }
}

fn push_line(lines: &mut Vec<String>, line: String)
    ensures
        texts(final(lines)@) == texts(old(lines)@).push(line@),
{
    let ghost before = lines@;
    lines.push(line);
    assert(lines@.drop_last() == before);
}

/// A fixed prefix followed by a number in decimal.
fn numbered(prefix: &str, n: u64) -> (text: String)
    ensures
        text@ == prefix@ + decimal(n as nat),
{
    let mut text = String::from_str(prefix);
    push_text(&mut text, u64_to_string(n).as_str());
    text
}

impl Question {
    /// The title of the answer field.
    pub fn title(self) -> (title: &'static str)
        ensures
            title@ == question_label(self),
    {
        match self {
            Question::Meaning => "Meaning",
            Question::Reading => "Reading",
        }
    }

    /// What to type.
    pub fn prompt(self) -> (prompt: &'static str)
        ensures
            prompt@ == question_hint(self),
    {
        match self {
            Question::Meaning => "Type the English meaning and press Enter.",
            Question::Reading => "Type romaji; it appears as kana here. Press Enter to submit.",
        }
    }
}

impl Feedback {
    /// The heading of the feedback.
    pub fn heading(&self) -> (heading: &'static str)
        ensures
            heading@ == feedback_heading(self.correct, self.typo_accepted),
    {
        if self.correct {
            if self.typo_accepted {
                "Correct - typo accepted"
            } else {
                "Correct"
            }
        } else {
            "Incorrect"
        }
    }

    /// The lines under the heading.
    pub fn body(&self) -> (lines: Vec<String>)
        ensures
            texts(lines@) == feedback_body(feedback_view(*self)),
    {
        let mut lines: Vec<String> = Vec::new();
        push_line(&mut lines, String::new());
        let mut typed = String::from_str("You typed: ");
        push_text(&mut typed, self.typed.as_str());
        push_line(&mut lines, typed);
        let mut expected = String::from_str("Correct answer: ");
        push_text(&mut expected, join_texts(self.expected.as_slice(), ", ").as_str());
        push_line(&mut lines, expected);
        push_line(&mut lines, String::new());
        if !self.correct && self.question == Question::Meaning {
            push_line(&mut lines, String::from_str("a accepts your answer for this session."));
            push_line(&mut lines, String::from_str("s adds it as a synonym and accepts it."));
        }
        push_line(&mut lines, String::from_str("Press Enter to continue."));
        assert(texts(lines@) =~= feedback_body(feedback_view(*self)));
        lines
    }
}

/// The progress above a subject, such as "Lesson 3/10".
pub fn progress(mode: SessionMode, index: usize, total: usize) -> (text: String)
    requires
        index < usize::MAX,
    ensures
        text@ == progress_text(mode, index as nat, total as nat),
{
    let mut text = String::from_str(mode.singular_title());
    push_text(&mut text, " ");
    let place = index + 1;
    push_text(&mut text, u64_to_string(place as u64).as_str());
    push_text(&mut text, "/");
    push_text(&mut text, u64_to_string(total as u64).as_str());
    text
}

/// The heading of the size prompt, such as "Start Lessons".
pub fn limit_heading(mode: SessionMode) -> (text: String)
    ensures
        text@ == "Start "@ + label_title_text(mode),
{
    let mut text = String::from_str("Start ");
    push_text(&mut text, mode.label_title());
    text
}

/// The line that says how many subjects are available.
pub fn available_line(count: usize) -> (text: String)
    ensures
        text@ == "Available: "@ + decimal(count as nat),
{
    numbered("Available: ", count as u64)
}

/// The heading of the screen that ends a session, such as "Reviews
/// complete".
pub fn done_heading(mode: SessionMode) -> (text: String)
    ensures
        text@ == label_title_text(mode) + " complete"@,
{
    let mut text = String::from_str(mode.label_title());
    push_text(&mut text, " complete");
    text
}

impl TuiApp {
    /// The message of the status panel and whether it reports an error.
    pub fn status_line<'a>(&'a self, fallback: &'a str) -> (line: (&'a str, bool))
        ensures
            line.0@ == status_message(self@.error, self@.status, fallback@),
            line.1 == self@.error is Some,
    {
        match &self.error {
            Some(error) => (error.as_str(), true),
            None => match &self.status {
                Some(status) => (status.as_str(), false),
                None => (fallback, false),
            },
        }
    }

    /// The answer field as shown.
    pub fn answer_display(&self) -> (text: String)
        requires
            self@.question == Question::Reading ==> hiragana_convertible(self@.answer_input),
        ensures
            text@ == answer_shown(self@.question, self@.answer_input),
    {
        match self.question {
            Question::Meaning => self.answer_input.clone(),
            Question::Reading => to_hiragana(self.answer_input.as_str()),
        }
    }

    /// The token field as shown, masked.
    pub fn masked_token(&self) -> (mask: String)
        ensures
            mask@ == masked_text(self@.token_input),
    {
        let count = self.token_input.as_str().len();
        let mut mask = String::new();
        let mut i: usize = 0;
        while i < count
            invariant
                i <= count,
                count == byte_length(self@.token_input),
                mask@ == Seq::new(i as nat, |k: int| '*'),
            decreases count - i,
        {
            push_char(&mut mask, '*');
            i += 1;
            assert(mask@ =~= Seq::new(i as nat, |k: int| '*'));
        }
        mask
    }

    /// The line under the token field: its length in bytes, trimmed.
    pub fn token_length_line(&self) -> (text: String)
        ensures
            text@ == decimal(byte_length(trimmed(self@.token_input)) as nat) + " characters"@,
    {
        let mut text = u64_to_string(trim(self.token_input.as_str()).len() as u64);
        push_text(&mut text, " characters");
        text
    }

    /// The lines under the heading of the screen that ends a session.
    pub fn done_lines(&self) -> (lines: Vec<String>)
        ensures
            texts(lines@) == done_body(self@.correct_answers as nat, self@.total_answers as nat, self@.status),
    {
        let mut lines: Vec<String> = Vec::new();
        push_line(&mut lines, String::new());
        let mut score = numbered("Answers: ", self.correct_answers as u64);
        push_text(&mut score, "/");
        push_text(&mut score, u64_to_string(self.total_answers as u64).as_str());
        push_text(&mut score, " correct");
        push_line(&mut lines, score);
        match &self.status {
            Some(status) => {
                push_line(&mut lines, String::new());
                push_line(&mut lines, status.clone());
            },
            None => {},
        }
        push_line(&mut lines, String::new());
        push_line(&mut lines, String::from_str("Enter returns to menu. q quits."));
        assert(texts(lines@) =~= done_body(self@.correct_answers as nat, self@.total_answers as nat, self@.status));
        lines
    }
}

} // verus!
