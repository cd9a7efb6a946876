//! The study application as a state machine: every key press, paste and
//! answer from the outside world moves it to its next state and names the
//! one piece of outside work (a request, a file operation) it needs next.
use vstd::prelude::*;
use std::collections::HashMap;
use crate::client::{assignment_ids, assignment_map, AssignmentData, WaniKaniClient};
use crate::grading::{grade_meaning_answer, matches_answer, matches_some, meaning_grade, AnswerGrade};
use crate::kana::{hiragana, hiragana_convertible, reading_as_hiragana};
use crate::schedule::{
    available_count_at, available_ids, collect_available_subject_ids, lemma_session_ids_properties, session_ids,
    unique_available_subject_count, Moment, SummaryBucket,
};
use crate::subject::{accepted_meaning_texts, accepted_reading_texts, asks_reading, ApiResource, SubjectData};
use crate::text::{
    ascii_digits, decimal, normalized, parse_usize, parsed_usize, pop_char, push_ascii_digits, push_char, push_text,
    texts, trim, trimmed, u64_to_string,
};

verus! {

broadcast use vstd::std_specs::hash::group_hash_axioms;

/// The two kinds of study session.
#[derive(Debug, Clone, Copy, PartialEq, Eq, Structural)]
pub enum SessionMode {
    Lessons,
    Reviews,
}

/// The screen the application shows.
#[derive(Debug, Clone, Copy, PartialEq, Eq, Structural)]
pub enum Screen {
    Login,
    Menu,
    Limit(SessionMode),
    LessonStudy,
    LessonQuiz,
    ReviewQuiz,
    Done(SessionMode),
}

/// What a quiz asks about a subject.
#[derive(Debug, Clone, Copy, PartialEq, Eq, Structural)]
pub enum Question {
    Meaning,
    Reading,
}

/// What happens once the feedback on an answer is acknowledged.
#[derive(Debug, Clone, Copy, PartialEq, Eq, Structural)]
pub enum FeedbackAction {
    ContinueQuestion,
    NextLessonQuestion,
    NextLesson,
    NextReviewQuestion,
    SubmitReview,
}

/// The verdict shown after an answer.
pub struct Feedback {
    pub correct: bool,
    pub typo_accepted: bool,
    pub typed: String,
    pub expected: Vec<String>,
    pub action: FeedbackAction,
    pub question: Question,
}

/// The buckets of subjects available for lessons and for reviews.
pub struct SummaryData {
    pub lessons: Vec<SummaryBucket>,
    pub reviews: Vec<SummaryBucket>,
}

/// A key of the keyboard.
#[derive(Debug, Clone, Copy, PartialEq, Eq, Structural)]
pub enum Key {
    Char(char),
    Enter,
    Esc,
    Backspace,
    Delete,
    Left,
    Right,
    Other,
}

/// A key press with the modifiers that the application looks at.
#[derive(Debug, Clone, Copy, PartialEq, Eq, Structural)]
pub struct KeyInput {
    pub code: Key,
    pub control: bool,
    pub alt: bool,
}

/// The outside work the application asks for after a step.
pub enum Effect {
    Nothing,
    /// Fetch the user and the summary with this token, then report them to
    /// `sign_in_finished`.
    SignIn { token: String },
    /// Store the token on disk, then report to `token_saved`.
    SaveToken { token: String },
    /// Remove the stored token, then report to `token_deleted`.
    DeleteToken,
    /// Fetch these subjects and their assignments, then report them to
    /// `session_loaded`.
    LoadSession { mode: SessionMode, subject_ids: Vec<u64> },
    /// Start this assignment, then report to `assignment_started`.
    StartAssignment { assignment_id: u64 },
    /// Record a review of this assignment, then report to `review_created`.
    CreateReview { assignment_id: u64, incorrect_meaning_answers: u32, incorrect_reading_answers: u32 },
    /// Fetch the summary again, then report it to `summary_refreshed`.
    RefreshSummary,
    /// Add this meaning synonym to the subject, then report to
    /// `synonym_added`.
    AddSynonym { subject_id: u64, synonym: String },
}

/// The mathematical view of an effect.
pub enum EffectView {
    Nothing,
    SignIn { token: Seq<char> },
    SaveToken { token: Seq<char> },
    DeleteToken,
    LoadSession { mode: SessionMode, subject_ids: Seq<u64> },
    StartAssignment { assignment_id: u64 },
    CreateReview { assignment_id: u64, incorrect_meaning_answers: u32, incorrect_reading_answers: u32 },
    RefreshSummary,
    AddSynonym { subject_id: u64, synonym: Seq<char> },
}

impl View for Effect {
    type V = EffectView;

    open spec fn view(&self) -> EffectView {
        match *self {
            Effect::Nothing => EffectView::Nothing,
            Effect::SignIn { token } => EffectView::SignIn { token: token@ },
            Effect::SaveToken { token } => EffectView::SaveToken { token: token@ },
            Effect::DeleteToken => EffectView::DeleteToken,
            Effect::LoadSession { mode, subject_ids } => EffectView::LoadSession { mode, subject_ids: subject_ids@ },
            Effect::StartAssignment { assignment_id } => EffectView::StartAssignment { assignment_id },
            Effect::CreateReview { assignment_id, incorrect_meaning_answers, incorrect_reading_answers } =>
                EffectView::CreateReview { assignment_id, incorrect_meaning_answers, incorrect_reading_answers },
            Effect::RefreshSummary => EffectView::RefreshSummary,
            Effect::AddSynonym { subject_id, synonym } => EffectView::AddSynonym { subject_id, synonym: synonym@ },
        }
    }
}

/// The mathematical view of feedback.
pub struct FeedbackView {
    pub correct: bool,
    pub typo_accepted: bool,
    pub typed: Seq<char>,
    pub expected: Seq<Seq<char>>,
    pub action: FeedbackAction,
    pub question: Question,
}

pub open spec fn feedback_view(feedback: Feedback) -> FeedbackView {
    FeedbackView {
        correct: feedback.correct,
        typo_accepted: feedback.typo_accepted,
        typed: feedback.typed@,
        expected: texts(feedback.expected@),
        action: feedback.action,
        question: feedback.question,
    }
}

pub open spec fn text_of(s: Option<String>) -> Option<Seq<char>> {
    match s {
        Some(t) => Some(t@),
        None => None,
    }
}

/// The whole state of the application, with every text as its characters.
#[verifier::ext_equal]
pub struct AppView {
    pub client: Option<Seq<char>>,
    pub username: Seq<char>,
    pub summary: Option<SummaryData>,
    pub screen: Screen,
    pub token_input: Seq<char>,
    pub limit_input: Seq<char>,
    pub answer_input: Seq<char>,
    pub error: Option<Seq<char>>,
    pub status: Option<Seq<char>>,
    pub subjects: Seq<ApiResource<SubjectData>>,
    pub assignments: Map<u64, u64>,
    pub subject_index: usize,
    pub lesson_study_index: usize,
    pub question: Question,
    pub feedback: Option<FeedbackView>,
    pub incorrect_meaning_answers: u32,
    pub incorrect_reading_answers: u32,
    pub correct_answers: usize,
    pub total_answers: usize,
    pub should_quit: bool,
}

/// The terminal study application.
pub struct TuiApp {
    pub client: Option<WaniKaniClient>,
    pub username: String,
    pub summary: Option<SummaryData>,
    pub screen: Screen,
    pub token_input: String,
    pub limit_input: String,
    pub answer_input: String,
    pub error: Option<String>,
    pub status: Option<String>,
    pub subjects: Vec<ApiResource<SubjectData>>,
    pub assignments_by_subject: HashMap<u64, u64>,
    pub subject_index: usize,
    pub lesson_study_index: usize,
    pub question: Question,
    pub feedback: Option<Feedback>,
    pub incorrect_meaning_answers: u32,
    pub incorrect_reading_answers: u32,
    pub correct_answers: usize,
    pub total_answers: usize,
    pub should_quit: bool,
}

impl View for TuiApp {
    type V = AppView;

    open spec fn view(&self) -> AppView {
        AppView {
            client: match self.client {
                Some(c) => Some(c.token@),
                None => None,
            },
            username: self.username@,
            summary: self.summary,
            screen: self.screen,
            token_input: self.token_input@,
            limit_input: self.limit_input@,
            answer_input: self.answer_input@,
            error: text_of(self.error),
            status: text_of(self.status),
            subjects: self.subjects@,
            assignments: self.assignments_by_subject@,
            subject_index: self.subject_index,
            lesson_study_index: self.lesson_study_index,
            question: self.question,
            feedback: match self.feedback {
                Some(f) => Some(feedback_view(f)),
                None => None,
            },
            incorrect_meaning_answers: self.incorrect_meaning_answers,
            incorrect_reading_answers: self.incorrect_reading_answers,
            correct_answers: self.correct_answers,
            total_answers: self.total_answers,
            should_quit: self.should_quit,
        }
    }
}

// ---------------------------------------------------------------------------
// The invariant.

/// One answer still awaits credit: its feedback says it was wrong, and it can
/// still be accepted.
pub open spec fn pending_credit(v: AppView) -> nat {
    match v.feedback {
        Some(f) => if f.correct { 0 } else { 1 },
        None => 0,
    }
}

/// During a review, each subject reports at most one wrong meaning and one
/// wrong reading, and only feedback that leads on to the reading or to the
/// submission of the review is shown.
pub open spec fn review_counts_ok(v: AppView) -> bool {
    match v.feedback {
        None => {
            &&& v.question == Question::Meaning ==> v.incorrect_meaning_answers == 0 && v.incorrect_reading_answers == 0
            &&& v.question == Question::Reading ==> v.incorrect_meaning_answers <= 1 && v.incorrect_reading_answers == 0
        },
        Some(f) => {
            &&& f.action == FeedbackAction::NextReviewQuestion || f.action == FeedbackAction::SubmitReview
            &&& f.question == Question::Reading ==> f.action == FeedbackAction::SubmitReview
            &&& v.question == Question::Meaning ==> v.incorrect_meaning_answers <= 1 && v.incorrect_reading_answers == 0
            &&& v.question == Question::Reading ==> v.incorrect_meaning_answers <= 1 && v.incorrect_reading_answers <= 1
        },
    }
}

/// What every state of the application satisfies.
pub open spec fn app_invariant(v: AppView) -> bool {
    &&& v.feedback is Some ==> {
        &&& v.screen == Screen::LessonQuiz || v.screen == Screen::ReviewQuiz
        &&& v.subject_index < v.subjects.len()
        &&& v.feedback->0.question == v.question
    }
    &&& v.correct_answers + pending_credit(v) <= v.total_answers
    &&& if v.subjects.len() == 0 { v.lesson_study_index == 0 } else { v.lesson_study_index < v.subjects.len() }
    &&& v.screen == Screen::ReviewQuiz ==> review_counts_ok(v)
}

// ---------------------------------------------------------------------------
// Texts.

pub open spec fn label_lower_text(mode: SessionMode) -> Seq<char> {
    match mode {
        SessionMode::Lessons => "lessons"@,
        SessionMode::Reviews => "reviews"@,
    }
}

pub open spec fn label_title_text(mode: SessionMode) -> Seq<char> {
    match mode {
        SessionMode::Lessons => "Lessons"@,
        SessionMode::Reviews => "Reviews"@,
    }
}

pub open spec fn singular_title_text(mode: SessionMode) -> Seq<char> {
    match mode {
        SessionMode::Lessons => "Lesson"@,
        SessionMode::Reviews => "Review"@,
    }
}

impl SessionMode {
    /// The session kind in lower case, plural.
    pub fn label_lower(self) -> (label: &'static str)
        ensures
            label@ == label_lower_text(self),
    {
        match self {
            SessionMode::Lessons => "lessons",
            SessionMode::Reviews => "reviews",
        }
    }

    /// The session kind capitalised, plural.
    pub fn label_title(self) -> (label: &'static str)
        ensures
            label@ == label_title_text(self),
    {
        match self {
            SessionMode::Lessons => "Lessons",
            SessionMode::Reviews => "Reviews",
        }
    }

    /// The session kind capitalised, singular.
    pub fn singular_title(self) -> (label: &'static str)
        ensures
            label@ == singular_title_text(self),
    {
        match self {
            SessionMode::Lessons => "Lesson",
            SessionMode::Reviews => "Review",
        }
    }
}

/// A message made of a fixed prefix and a reason.
fn message(prefix: &str, reason: &str) -> (text: String)
    ensures
        text@ == prefix@ + reason@,
{
    let mut text = String::from_str(prefix);
    push_text(&mut text, reason);
    text
}

// ---------------------------------------------------------------------------
// The transitions.

pub open spec fn pop_text(s: Seq<char>) -> Seq<char> {
    if s.len() > 0 { s.drop_last() } else { s }
}

/// The buckets of a session kind.
pub open spec fn buckets_of(summary: SummaryData, mode: SessionMode) -> Seq<SummaryBucket> {
    match mode {
        SessionMode::Lessons => summary.lessons@,
        SessionMode::Reviews => summary.reviews@,
    }
}

/// How many subjects of a kind are available at `now`; none before the
/// summary is loaded.
pub open spec fn available(v: AppView, mode: SessionMode, now: Moment) -> nat {
    match v.summary {
        Some(summary) => available_count_at(buckets_of(summary, mode), now),
        None => 0,
    }
}

/// The subject the quiz is on, if any.
pub open spec fn current_of(v: AppView) -> Option<ApiResource<SubjectData>> {
    if v.subject_index < v.subjects.len() {
        Some(v.subjects[v.subject_index as int])
    } else {
        None
    }
}

pub open spec fn is_quit_key(key: KeyInput) -> bool {
    key.control && key.code == Key::Char('c')
}

pub open spec fn with_error(v: AppView, text: Seq<char>) -> AppView {
    AppView { error: Some(text), ..v }
}

pub open spec fn with_status(v: AppView, text: Seq<char>) -> AppView {
    AppView { status: Some(text), ..v }
}

pub open spec fn quitting(v: AppView) -> AppView {
    AppView { should_quit: true, ..v }
}

pub open spec fn at_menu(v: AppView) -> AppView {
    AppView { screen: Screen::Menu, ..v }
}

/// The state at start-up, with the stored token if there is one.
pub open spec fn initial(stored_token: Option<String>) -> AppView {
    AppView {
        client: None,
        username: Seq::empty(),
        summary: None,
        screen: Screen::Login,
        token_input: match stored_token {
            Some(t) => t@,
            None => Seq::empty(),
        },
        limit_input: Seq::empty(),
        answer_input: Seq::empty(),
        error: None,
        status: match stored_token {
            Some(_) => Some("Press Enter to sign in with the saved token."@),
            None => None,
        },
        subjects: Seq::empty(),
        assignments: Map::empty(),
        subject_index: 0,
        lesson_study_index: 0,
        question: Question::Meaning,
        feedback: None,
        incorrect_meaning_answers: 0,
        incorrect_reading_answers: 0,
        correct_answers: 0,
        total_answers: 0,
        should_quit: false,
    }
}

/// Enter on the login screen: sign in with the trimmed token, unless it is
/// empty.
pub open spec fn after_login(v: AppView) -> (AppView, EffectView) {
    let token = trimmed(v.token_input);
    if token.len() == 0 {
        (with_error(v, "Enter a WaniKani API v2 token."@), EffectView::Nothing)
    } else {
        (v, EffectView::SignIn { token })
    }
}

/// The answers to the sign-in requests: on success the menu opens and the
/// token is stored; otherwise the first failure is shown and the token field
/// cleared.
pub open spec fn after_sign_in(
    v: AppView,
    token: Seq<char>,
    user: Result<String, String>,
    summary: Result<SummaryData, String>,
) -> (AppView, EffectView) {
    match (user, summary) {
        (Ok(username), Ok(summary)) => (
            AppView {
                username: username@,
                summary: Some(summary),
                client: Some(token),
                error: None,
                status: None,
                screen: Screen::Menu,
                ..v
            },
            EffectView::SaveToken { token },
        ),
        (Err(e), _) => (AppView { token_input: Seq::empty(), ..with_error(v, "Login failed: "@ + e@) }, EffectView::Nothing),
        (_, Err(e)) => (AppView { token_input: Seq::empty(), ..with_error(v, "Login failed: "@ + e@) }, EffectView::Nothing),
    }
}

/// The outcome of storing the token.
pub open spec fn after_token_saved(v: AppView, result: Result<(), String>) -> AppView {
    match result {
        Ok(()) => v,
        Err(e) => with_status(v, "Signed in, but could not save token: "@ + e@),
    }
}

/// The outcome of removing the stored token: signed out, or the failure.
pub open spec fn after_token_deleted(v: AppView, result: Result<(), String>) -> AppView {
    match result {
        Ok(()) => AppView {
            client: None,
            summary: None,
            username: Seq::empty(),
            token_input: Seq::empty(),
            error: None,
            status: Some("Logged out. Saved token removed."@),
            screen: Screen::Login,
            ..v
        },
        Err(e) => with_error(v, "Could not delete saved token: "@ + e@),
    }
}

pub open spec fn login_key(v: AppView, key: KeyInput) -> (AppView, EffectView) {
    match key.code {
        Key::Esc => (quitting(v), EffectView::Nothing),
        Key::Enter => after_login(v),
        Key::Char(c) => {
            if key.control && c == 'u' {
                (AppView { token_input: Seq::empty(), error: None, ..v }, EffectView::Nothing)
            } else if !(key.control || key.alt) {
                (AppView { token_input: v.token_input.push(c), error: None, ..v }, EffectView::Nothing)
            } else {
                (v, EffectView::Nothing)
            }
        },
        Key::Delete => (AppView { token_input: Seq::empty(), error: None, ..v }, EffectView::Nothing),
        Key::Backspace => (AppView { token_input: pop_text(v.token_input), error: None, ..v }, EffectView::Nothing),
        _ => (v, EffectView::Nothing),
    }
}

/// Opening the prompt for a session size: refused when nothing is
/// available, otherwise proposing up to ten subjects.
pub open spec fn after_open_limit(v: AppView, mode: SessionMode, now: Moment) -> AppView {
    let count = available(v, mode, now);
    if count == 0 {
        with_error(v, "No "@ + label_lower_text(mode) + " are available right now."@)
    } else {
        AppView {
            error: None,
            status: None,
            limit_input: decimal(if count < 10 { count } else { 10 }),
            screen: Screen::Limit(mode),
            ..v
        }
    }
}

pub open spec fn menu_key(v: AppView, key: KeyInput, now: Moment) -> (AppView, EffectView) {
    match key.code {
        Key::Char(c) => {
            if c == 'q' {
                (quitting(v), EffectView::Nothing)
            } else if c == 't' {
                (v, EffectView::DeleteToken)
            } else if c == 'r' {
                (after_open_limit(v, SessionMode::Reviews, now), EffectView::Nothing)
            } else if c == 'l' {
                (after_open_limit(v, SessionMode::Lessons, now), EffectView::Nothing)
            } else {
                (v, EffectView::Nothing)
            }
        },
        _ => (v, EffectView::Nothing),
    }
}

/// The session size asked for: the typed number, or up to ten when it does
/// not parse, kept between one and the number available.
pub open spec fn session_limit(limit_input: Seq<char>, count: nat) -> nat {
    let wanted: nat = match parsed_usize(limit_input) {
        Some(n) => n as nat,
        None => if count < 10 { count } else { 10 },
    };
    if wanted < 1 { 1 } else if wanted > count { count } else { wanted }
}

/// Enter on the session size prompt: load the chosen subjects, or go back to
/// signing in when signed out.
pub open spec fn after_start_session(v: AppView, mode: SessionMode, now: Moment) -> (AppView, EffectView) {
    match v.client {
        None => (AppView { screen: Screen::Login, ..v }, EffectView::Nothing),
        Some(_) => match v.summary {
            None => (with_error(v, "Summary is not loaded."@), EffectView::Nothing),
            Some(summary) => (
                v,
                EffectView::LoadSession {
                    mode,
                    subject_ids: session_ids(
                        buckets_of(summary, mode),
                        session_limit(v.limit_input, available(v, mode, now)) as usize,
                        now,
                    ),
                },
            ),
        },
    }
}

/// The answers to the session requests: the session starts, or the first
/// failure is shown at the menu.
pub open spec fn after_session_loaded(
    v: AppView,
    mode: SessionMode,
    subjects: Result<Vec<ApiResource<SubjectData>>, String>,
    assignments: Result<Vec<ApiResource<AssignmentData>>, String>,
) -> AppView {
    match (subjects, assignments) {
        (Ok(subjects), Ok(assignments)) => AppView {
            subjects: subjects@,
            assignments: assignment_ids(assignments@),
            subject_index: 0,
            lesson_study_index: 0,
            question: Question::Meaning,
            answer_input: Seq::empty(),
            feedback: None,
            incorrect_meaning_answers: 0,
            incorrect_reading_answers: 0,
            correct_answers: 0,
            total_answers: 0,
            error: None,
            status: None,
            screen: match mode {
                SessionMode::Lessons => Screen::LessonStudy,
                SessionMode::Reviews => Screen::ReviewQuiz,
            },
            ..v
        },
        (Err(e), _) => at_menu(with_error(v, "Could not start "@ + label_lower_text(mode) + ": "@ + e@)),
        (_, Err(e)) => at_menu(with_error(v, "Could not start "@ + label_lower_text(mode) + ": "@ + e@)),
    }
}

pub open spec fn limit_key(v: AppView, mode: SessionMode, key: KeyInput, now: Moment) -> (AppView, EffectView) {
    match key.code {
        Key::Esc => (at_menu(AppView { error: None, ..v }), EffectView::Nothing),
        Key::Enter => after_start_session(v, mode, now),
        Key::Backspace => (AppView { limit_input: pop_text(v.limit_input), ..v }, EffectView::Nothing),
        Key::Char(c) => {
            if '0' <= c <= '9' {
                (AppView { limit_input: v.limit_input.push(c), error: None, ..v }, EffectView::Nothing)
            } else {
                (v, EffectView::Nothing)
            }
        },
        _ => (v, EffectView::Nothing),
    }
}

/// The index `delta` steps from `index`, kept within the `usize` range.
pub open spec fn shifted(index: usize, delta: isize) -> usize {
    let target = index + delta;
    if target < 0 { 0 } else if target > usize::MAX { usize::MAX } else { target as usize }
}

/// Moving through the lessons being studied, staying within the batch; a
/// move clears the question state and the messages.
pub open spec fn after_move_study(v: AppView, delta: isize) -> AppView {
    if v.subjects.len() == 0 {
        v
    } else {
        let last = (v.subjects.len() - 1) as usize;
        let target = shifted(v.lesson_study_index, delta);
        let next = if target <= last { target } else { last };
        if next != v.lesson_study_index {
            AppView {
                lesson_study_index: next,
                question: Question::Meaning,
                answer_input: Seq::empty(),
                feedback: None,
                error: None,
                status: None,
                ..v
            }
        } else {
            v
        }
    }
}

pub open spec fn study_key(v: AppView, key: KeyInput) -> AppView {
    match key.code {
        Key::Esc => at_menu(v),
        Key::Right => after_move_study(v, 1isize),
        Key::Left => after_move_study(v, -1isize),
        Key::Enter => AppView {
            subject_index: 0,
            question: Question::Meaning,
            answer_input: Seq::empty(),
            feedback: None,
            screen: Screen::LessonQuiz,
            ..v
        },
        Key::Char(c) => {
            if c == 'q' {
                at_menu(v)
            } else if c == 'n' {
                after_move_study(v, 1isize)
            } else if c == 'p' {
                after_move_study(v, -1isize)
            } else {
                v
            }
        },
        _ => v,
    }
}

/// The answer as it is graded: trimmed, and as hiragana for a reading.
pub open spec fn typed_answer(v: AppView) -> Seq<char> {
    match v.question {
        Question::Meaning => trimmed(v.answer_input),
        Question::Reading => hiragana(trimmed(v.answer_input)),
    }
}

/// The answers the current question accepts.
pub open spec fn expected_answers(subject: ApiResource<SubjectData>, question: Question) -> Seq<Seq<char>> {
    match question {
        Question::Meaning => accepted_meaning_texts(subject.data.meanings@),
        Question::Reading => accepted_reading_texts(subject.data.readings@),
    }
}

/// The grade of a typed answer to the current question: meanings tolerate
/// typos, readings must match.
pub open spec fn answer_grade(typed: Seq<char>, expected: Seq<Seq<char>>, question: Question) -> AnswerGrade {
    match question {
        Question::Meaning => meaning_grade(typed, expected),
        Question::Reading => if matches_some(typed, expected) { AnswerGrade::Correct } else { AnswerGrade::Incorrect },
    }
}

/// What follows an answer: in lessons a wrong answer is asked again and a
/// right one moves on; in reviews every answer moves on, and the review is
/// submitted after the last question of a subject.
pub open spec fn next_action(mode: SessionMode, question: Question, correct: bool, has_reading: bool) -> FeedbackAction {
    match mode {
        SessionMode::Lessons => {
            if !correct {
                FeedbackAction::ContinueQuestion
            } else if question == Question::Meaning && has_reading {
                FeedbackAction::NextLessonQuestion
            } else {
                FeedbackAction::NextLesson
            }
        },
        SessionMode::Reviews => {
            if question == Question::Meaning && has_reading {
                FeedbackAction::NextReviewQuestion
            } else {
                FeedbackAction::SubmitReview
            }
        },
    }
}

/// Grading `typed` against the current subject: the answer is counted, a
/// wrong review answer is tallied for its question, and feedback is shown.
pub open spec fn after_answer(v: AppView, mode: SessionMode, typed: Seq<char>) -> AppView {
    match current_of(v) {
        None => v,
        Some(subject) => {
            let expected = expected_answers(subject, v.question);
            let grade = answer_grade(typed, expected, v.question);
            let correct = grade != AnswerGrade::Incorrect;
            let wrong_review = mode == SessionMode::Reviews && !correct;
            AppView {
                total_answers: (v.total_answers + 1) as usize,
                correct_answers: if correct { (v.correct_answers + 1) as usize } else { v.correct_answers },
                incorrect_meaning_answers: if wrong_review && v.question == Question::Meaning {
                    (v.incorrect_meaning_answers + 1) as u32
                } else {
                    v.incorrect_meaning_answers
                },
                incorrect_reading_answers: if wrong_review && v.question == Question::Reading {
                    (v.incorrect_reading_answers + 1) as u32
                } else {
                    v.incorrect_reading_answers
                },
                feedback: Some(FeedbackView {
                    correct,
                    typo_accepted: grade == AnswerGrade::Typo,
                    typed,
                    expected,
                    action: next_action(mode, v.question, correct, asks_reading(subject.object@, subject.data)),
                    question: v.question,
                }),
                ..v
            }
        },
    }
}

/// Starting the current lesson's assignment once it is learned.
pub open spec fn after_start_assignment(v: AppView) -> (AppView, EffectView) {
    match (v.client, current_of(v)) {
        (Some(_), Some(subject)) => {
            if v.assignments.contains_key(subject.id) {
                (v, EffectView::StartAssignment { assignment_id: v.assignments[subject.id] })
            } else {
                (with_status(v, "No assignment found for this lesson."@), EffectView::Nothing)
            }
        },
        _ => (v, EffectView::Nothing),
    }
}

/// Submitting the review of the current subject with its tallies.
pub open spec fn after_submit_review(v: AppView) -> (AppView, EffectView) {
    match (v.client, current_of(v)) {
        (Some(_), Some(subject)) => {
            if v.assignments.contains_key(subject.id) {
                (
                    v,
                    EffectView::CreateReview {
                        assignment_id: v.assignments[subject.id],
                        incorrect_meaning_answers: v.incorrect_meaning_answers,
                        incorrect_reading_answers: v.incorrect_reading_answers,
                    },
                )
            } else {
                (with_status(v, "No assignment found for this review."@), EffectView::Nothing)
            }
        },
        _ => (v, EffectView::Nothing),
    }
}

/// Acknowledging feedback during lessons.
pub open spec fn after_lesson_feedback(v: AppView) -> (AppView, EffectView) {
    match v.feedback {
        None => (v, EffectView::Nothing),
        Some(f) => {
            let cleared = AppView { feedback: None, answer_input: Seq::empty(), ..v };
            match f.action {
                FeedbackAction::NextLessonQuestion => (AppView { question: Question::Reading, ..cleared }, EffectView::Nothing),
                FeedbackAction::NextLesson => {
                    let (started, effect) = after_start_assignment(cleared);
                    let next = (started.subject_index + 1) as usize;
                    (
                        AppView {
                            subject_index: next,
                            question: Question::Meaning,
                            screen: if next >= started.subjects.len() {
                                Screen::Done(SessionMode::Lessons)
                            } else {
                                Screen::LessonQuiz
                            },
                            ..started
                        },
                        effect,
                    )
                },
                _ => (cleared, EffectView::Nothing),
            }
        },
    }
}

/// Acknowledging feedback during reviews.
pub open spec fn after_review_feedback(v: AppView) -> (AppView, EffectView) {
    match v.feedback {
        None => (v, EffectView::Nothing),
        Some(f) => {
            let cleared = AppView { feedback: None, answer_input: Seq::empty(), ..v };
            match f.action {
                FeedbackAction::NextReviewQuestion => (AppView { question: Question::Reading, ..cleared }, EffectView::Nothing),
                FeedbackAction::SubmitReview => {
                    let (submitted, effect) = after_submit_review(cleared);
                    let next = (submitted.subject_index + 1) as usize;
                    (
                        AppView {
                            subject_index: next,
                            question: Question::Meaning,
                            incorrect_meaning_answers: 0,
                            incorrect_reading_answers: 0,
                            screen: if next >= submitted.subjects.len() {
                                Screen::Done(SessionMode::Reviews)
                            } else {
                                submitted.screen
                            },
                            ..submitted
                        },
                        effect,
                    )
                },
                _ => (cleared, EffectView::Nothing),
            }
        },
    }
}

/// What follows a meaning accepted by the user: the reading, or the next
/// subject.
pub open spec fn accepted_action(v: AppView) -> FeedbackAction {
    let has_reading = match current_of(v) {
        Some(subject) => asks_reading(subject.object@, subject.data),
        None => false,
    };
    match v.screen {
        Screen::LessonQuiz => if has_reading { FeedbackAction::NextLessonQuestion } else { FeedbackAction::NextLesson },
        Screen::ReviewQuiz => if has_reading { FeedbackAction::NextReviewQuestion } else { FeedbackAction::SubmitReview },
        _ => FeedbackAction::ContinueQuestion,
    }
}

/// Crediting a wrong meaning that the user accepts: it counts as correct, a
/// review no longer reports it as wrong, and the quiz moves on.
pub open spec fn after_credit(v: AppView) -> (AppView, EffectView) {
    let counted = AppView {
        correct_answers: (v.correct_answers + 1) as usize,
        incorrect_meaning_answers: if v.screen == Screen::ReviewQuiz && v.incorrect_meaning_answers > 0 {
            (v.incorrect_meaning_answers - 1) as u32
        } else {
            v.incorrect_meaning_answers
        },
        ..v
    };
    let action = accepted_action(counted);
    let marked = AppView {
        feedback: match counted.feedback {
            Some(f) => Some(FeedbackView { correct: true, typo_accepted: false, action, ..f }),
            None => None,
        },
        ..counted
    };
    match marked.screen {
        Screen::LessonQuiz => after_lesson_feedback(marked),
        Screen::ReviewQuiz => after_review_feedback(marked),
        _ => (marked, EffectView::Nothing),
    }
}

/// The feedback is on a wrong meaning that the user may still accept.
pub open spec fn can_accept(v: AppView) -> bool {
    match v.feedback {
        Some(f) => !f.correct && f.question == Question::Meaning && trimmed(f.typed).len() > 0,
        None => false,
    }
}

/// 'a' or 's' on wrong-meaning feedback: accept it for this session, or first
/// add it as a synonym.
pub open spec fn after_accept(v: AppView, add_synonym: bool) -> (AppView, EffectView) {
    if !can_accept(v) {
        (v, EffectView::Nothing)
    } else if add_synonym {
        match (v.client, current_of(v)) {
            (None, _) => (with_status(v, "Could not add synonym: "@ + "not signed in"@), EffectView::Nothing),
            (_, None) => (with_status(v, "Could not add synonym: "@ + "no current subject"@), EffectView::Nothing),
            (Some(_), Some(subject)) => (
                v,
                EffectView::AddSynonym { subject_id: subject.id, synonym: trimmed(v.feedback->0.typed) },
            ),
        }
    } else {
        after_credit(with_status(v, "Answer accepted for this session."@))
    }
}

/// The outcome of adding a synonym: the answer is credited, or the failure
/// is shown.
pub open spec fn after_synonym_added(v: AppView, result: Result<(), String>) -> (AppView, EffectView) {
    if !can_accept(v) {
        (v, EffectView::Nothing)
    } else {
        match result {
            Ok(()) => after_credit(with_status(v, "Synonym added and answer accepted."@)),
            Err(e) => (with_status(v, "Could not add synonym: "@ + e@), EffectView::Nothing),
        }
    }
}

/// Fetching the summary again, when signed in.
pub open spec fn refresh_effect(v: AppView) -> EffectView {
    match v.client {
        Some(_) => EffectView::RefreshSummary,
        None => EffectView::Nothing,
    }
}

pub open spec fn after_assignment_started(v: AppView, result: Result<(), String>) -> (AppView, EffectView) {
    let reported = match result {
        Ok(()) => with_status(v, "Lesson started in WaniKani."@),
        Err(e) => with_status(v, "Could not start lesson: "@ + e@),
    };
    (reported, refresh_effect(reported))
}

pub open spec fn after_review_created(v: AppView, result: Result<(), String>) -> (AppView, EffectView) {
    let reported = match result {
        Ok(()) => with_status(v, "Review submitted."@),
        Err(e) => with_status(v, "Could not submit review: "@ + e@),
    };
    (reported, refresh_effect(reported))
}

pub open spec fn after_summary_refreshed(v: AppView, result: Result<SummaryData, String>) -> AppView {
    match result {
        Ok(summary) => AppView { summary: Some(summary), ..v },
        Err(e) => with_status(v, "Could not refresh summary: "@ + e@),
    }
}

/// A key during a quiz: feedback is acknowledged or accepted, otherwise the
/// answer is edited, submitted or abandoned.
pub open spec fn quiz_key(v: AppView, mode: SessionMode, key: KeyInput) -> (AppView, EffectView) {
    if v.feedback is Some {
        match key.code {
            Key::Enter => match mode {
                SessionMode::Lessons => after_lesson_feedback(v),
                SessionMode::Reviews => after_review_feedback(v),
            },
            Key::Char(c) => {
                if c == 'a' {
                    after_accept(v, false)
                } else if c == 's' {
                    after_accept(v, true)
                } else {
                    (v, EffectView::Nothing)
                }
            },
            _ => (v, EffectView::Nothing),
        }
    } else {
        match key.code {
            Key::Esc => (at_menu(v), EffectView::Nothing),
            Key::Enter => (after_answer(v, mode, typed_answer(v)), EffectView::Nothing),
            Key::Backspace => (AppView { answer_input: pop_text(v.answer_input), ..v }, EffectView::Nothing),
            Key::Char(c) => (AppView { answer_input: v.answer_input.push(c), ..v }, EffectView::Nothing),
            _ => (v, EffectView::Nothing),
        }
    }
}

pub open spec fn done_key(v: AppView, key: KeyInput) -> AppView {
    match key.code {
        Key::Esc => at_menu(v),
        Key::Enter => at_menu(v),
        Key::Char(c) => if c == 'q' { quitting(v) } else { v },
        _ => v,
    }
}

/// The state and outside work after a key press.
pub open spec fn after_key(v: AppView, key: KeyInput, now: Moment) -> (AppView, EffectView) {
    if is_quit_key(key) {
        (quitting(v), EffectView::Nothing)
    } else {
        match v.screen {
            Screen::Login => login_key(v, key),
            Screen::Menu => menu_key(v, key, now),
            Screen::Limit(mode) => limit_key(v, mode, key, now),
            Screen::LessonStudy => (study_key(v, key), EffectView::Nothing),
            Screen::LessonQuiz => quiz_key(v, SessionMode::Lessons, key),
            Screen::ReviewQuiz => quiz_key(v, SessionMode::Reviews, key),
            Screen::Done(_) => (done_key(v, key), EffectView::Nothing),
        }
    }
}

/// A key that starts a session needs something to study.
pub open spec fn key_allowed(v: AppView, key: KeyInput, now: Moment) -> bool {
    (!is_quit_key(key) && key.code == Key::Enter) ==> {
        &&& v.screen matches Screen::Limit(mode) ==> available(v, mode, now) > 0
        &&& answer_awaited(v) ==> answer_gradable(v)
    }
}

/// A quiz awaits an answer to the question on its current subject.
pub open spec fn answer_awaited(v: AppView) -> bool {
    &&& v.screen == Screen::LessonQuiz || v.screen == Screen::ReviewQuiz
    &&& v.feedback is None
    &&& v.subject_index < v.subjects.len()
}

/// The typed answer can be graded: the answer count has room for it, and a
/// reading converts to hiragana.
pub open spec fn answer_gradable(v: AppView) -> bool {
    &&& v.total_answers < usize::MAX
    &&& v.question == Question::Reading ==> hiragana_convertible(trimmed(v.answer_input))
}

/// Pasted text: the token and answer fields take it trimmed, the session size
/// takes its digits.
pub open spec fn after_paste(v: AppView, text: Seq<char>) -> AppView {
    match v.screen {
        Screen::Login => AppView { token_input: v.token_input + trimmed(text), error: None, ..v },
        Screen::Limit(_) => AppView { limit_input: v.limit_input + ascii_digits(text), error: None, ..v },
        Screen::LessonQuiz | Screen::ReviewQuiz => {
            if v.feedback is None {
                AppView { answer_input: v.answer_input + trimmed(text), ..v }
            } else {
                v
            }
        },
        _ => v,
    }
}


// ---------------------------------------------------------------------------
// What every step keeps.

/// The state at start-up satisfies the invariant.
pub proof fn lemma_initial_invariant(stored_token: Option<String>)
    ensures
        app_invariant(initial(stored_token)),
{
}

/// Grading an answer in a quiz without pending feedback keeps the invariant.
pub proof fn lemma_answer_keeps_invariant(v: AppView, mode: SessionMode, typed: Seq<char>)
    requires
        app_invariant(v),
        v.feedback is None,
        v.subject_index < v.subjects.len() ==> v.total_answers < usize::MAX,
        mode == SessionMode::Lessons ==> v.screen == Screen::LessonQuiz,
        mode == SessionMode::Reviews ==> v.screen == Screen::ReviewQuiz,
    ensures
        app_invariant(after_answer(v, mode, typed)),
{
}

/// Acknowledging lesson feedback keeps the invariant.
pub proof fn lemma_lesson_feedback_keeps_invariant(v: AppView)
    requires
        app_invariant(v),
        v.screen == Screen::LessonQuiz,
    ensures
        app_invariant(after_lesson_feedback(v).0),
{
}

/// Acknowledging review feedback keeps the invariant.
pub proof fn lemma_review_feedback_keeps_invariant(v: AppView)
    requires
        app_invariant(v),
        v.screen == Screen::ReviewQuiz,
    ensures
        app_invariant(after_review_feedback(v).0),
{
}

/// Crediting an accepted meaning keeps the invariant.
pub proof fn lemma_credit_keeps_invariant(v: AppView)
    requires
        app_invariant(v),
        can_accept(v),
    ensures
        app_invariant(after_credit(v).0),
{
    let counted = AppView {
        correct_answers: (v.correct_answers + 1) as usize,
        incorrect_meaning_answers: if v.screen == Screen::ReviewQuiz && v.incorrect_meaning_answers > 0 {
            (v.incorrect_meaning_answers - 1) as u32
        } else {
            v.incorrect_meaning_answers
        },
        ..v
    };
    let action = accepted_action(counted);
    let marked = AppView {
        feedback: match counted.feedback {
            Some(f) => Some(FeedbackView { correct: true, typo_accepted: false, action, ..f }),
            None => None,
        },
        ..counted
    };
    assert(app_invariant(marked));
    if marked.screen == Screen::LessonQuiz {
        lemma_lesson_feedback_keeps_invariant(marked);
    } else {
        lemma_review_feedback_keeps_invariant(marked);
    }
}

/// Accepting a wrong meaning keeps the invariant.
pub proof fn lemma_accept_keeps_invariant(v: AppView, add_synonym: bool)
    requires
        app_invariant(v),
    ensures
        app_invariant(after_accept(v, add_synonym).0),
{
    if can_accept(v) && !add_synonym {
        lemma_credit_keeps_invariant(with_status(v, "Answer accepted for this session."@));
    }
}

/// The outcome of adding a synonym keeps the invariant.
pub proof fn lemma_synonym_added_keeps_invariant(v: AppView, result: Result<(), String>)
    requires
        app_invariant(v),
    ensures
        app_invariant(after_synonym_added(v, result).0),
{
    if can_accept(v) && result is Ok {
        lemma_credit_keeps_invariant(with_status(v, "Synonym added and answer accepted."@));
    }
}

/// Every key press allowed in a state keeps the invariant.
pub proof fn lemma_key_keeps_invariant(v: AppView, key: KeyInput, now: Moment)
    requires
        app_invariant(v),
        key_allowed(v, key, now),
    ensures
        app_invariant(after_key(v, key, now).0),
{
    if !is_quit_key(key) {
        match v.screen {
            Screen::LessonQuiz => {
                if v.feedback is Some {
                    lemma_lesson_feedback_keeps_invariant(v);
                    lemma_accept_keeps_invariant(v, false);
                    lemma_accept_keeps_invariant(v, true);
                } else if key.code == Key::Enter {
                    lemma_answer_keeps_invariant(v, SessionMode::Lessons, typed_answer(v));
                }
            },
            Screen::ReviewQuiz => {
                if v.feedback is Some {
                    lemma_review_feedback_keeps_invariant(v);
                    lemma_accept_keeps_invariant(v, false);
                    lemma_accept_keeps_invariant(v, true);
                } else if key.code == Key::Enter {
                    lemma_answer_keeps_invariant(v, SessionMode::Reviews, typed_answer(v));
                }
            },
            _ => {},
        }
    }
}

/// Pasting keeps the invariant.
pub proof fn lemma_paste_keeps_invariant(v: AppView, text: Seq<char>)
    requires
        app_invariant(v),
    ensures
        app_invariant(after_paste(v, text)),
{
}

/// Signing in from a state without feedback keeps the invariant.
pub proof fn lemma_sign_in_keeps_invariant(
    v: AppView,
    token: Seq<char>,
    user: Result<String, String>,
    summary: Result<SummaryData, String>,
)
    requires
        app_invariant(v),
        v.feedback is None,
    ensures
        app_invariant(after_sign_in(v, token, user, summary).0),
{
}

/// Signing out from a state without feedback keeps the invariant.
pub proof fn lemma_token_deleted_keeps_invariant(v: AppView, result: Result<(), String>)
    requires
        app_invariant(v),
        v.feedback is None,
    ensures
        app_invariant(after_token_deleted(v, result)),
{
}

/// Loading a session from a state without feedback keeps the invariant.
pub proof fn lemma_session_loaded_keeps_invariant(
    v: AppView,
    mode: SessionMode,
    subjects: Result<Vec<ApiResource<SubjectData>>, String>,
    assignments: Result<Vec<ApiResource<AssignmentData>>, String>,
)
    requires
        app_invariant(v),
        v.feedback is None,
    ensures
        app_invariant(after_session_loaded(v, mode, subjects, assignments)),
{
}

/// Reports on stored tokens, started assignments, created reviews and
/// refreshed summaries keep the invariant.
pub proof fn lemma_reports_keep_invariant(v: AppView, done: Result<(), String>, summary: Result<SummaryData, String>)
    requires
        app_invariant(v),
    ensures
        app_invariant(after_token_saved(v, done)),
        app_invariant(after_assignment_started(v, done).0),
        app_invariant(after_review_created(v, done).0),
        app_invariant(after_summary_refreshed(v, summary)),
{
}

// ---------------------------------------------------------------------------
// What the keys do.

/// Ctrl+C quits from every screen and changes nothing else.
pub proof fn lemma_ctrl_c_quits(v: AppView, alt: bool, now: Moment)
    ensures
        after_key(v, KeyInput { code: Key::Char('c'), control: true, alt }, now) == (quitting(v), EffectView::Nothing),
{
}

/// Esc quits from the login screen, leaves the menu as it is, returns to the
/// menu from the session size prompt, the lesson study screen, a quiz
/// awaiting an answer and the end of a session, and is ignored while
/// feedback is shown.
pub proof fn lemma_escape_leaves(v: AppView, control: bool, alt: bool, now: Moment)
    ensures
        ({
            let (next, effect) = after_key(v, KeyInput { code: Key::Esc, control, alt }, now);
            &&& effect == EffectView::Nothing
            &&& v.screen == Screen::Login ==> next == quitting(v)
            &&& v.screen == Screen::Menu ==> next == v
            &&& v.screen is Limit ==> next == at_menu(AppView { error: None, ..v })
            &&& v.screen == Screen::LessonStudy ==> next == at_menu(v)
            &&& v.screen is Done ==> next == at_menu(v)
            &&& (v.screen == Screen::LessonQuiz || v.screen == Screen::ReviewQuiz) ==> next == if v.feedback is None {
                at_menu(v)
            } else {
                v
            }
            &&& v.screen != Screen::Login ==> !next.should_quit || v.should_quit
        }),
{
}

/// On the menu, `r` and `l` open the size prompt for reviews and lessons,
/// and `t` asks for the stored token to be removed; removing it signs out.
pub proof fn lemma_menu_keys(v: AppView, control: bool, alt: bool, now: Moment, result: Result<(), String>)
    requires
        v.screen == Screen::Menu,
    ensures
        after_key(v, KeyInput { code: Key::Char('r'), control, alt }, now)
            == (after_open_limit(v, SessionMode::Reviews, now), EffectView::Nothing),
        after_key(v, KeyInput { code: Key::Char('l'), control, alt }, now)
            == (after_open_limit(v, SessionMode::Lessons, now), EffectView::Nothing),
        after_key(v, KeyInput { code: Key::Char('t'), control, alt }, now) == (v, EffectView::DeleteToken),
        result is Ok ==> {
            let out = after_token_deleted(v, result);
            &&& out.screen == Screen::Login
            &&& out.client is None
            &&& out.token_input.len() == 0
        },
{
}

/// On the lesson study screen, Right or `n` moves to the next lesson, Left
/// or `p` to the previous one, and Enter starts the quiz on the whole batch
/// from its first subject.
pub proof fn lemma_study_keys(v: AppView, control: bool, alt: bool, now: Moment)
    requires
        v.screen == Screen::LessonStudy,
    ensures
        after_key(v, KeyInput { code: Key::Right, control, alt }, now) == (after_move_study(v, 1isize), EffectView::Nothing),
        after_key(v, KeyInput { code: Key::Char('n'), control, alt }, now) == (after_move_study(v, 1isize), EffectView::Nothing),
        after_key(v, KeyInput { code: Key::Left, control, alt }, now) == (after_move_study(v, -1isize), EffectView::Nothing),
        after_key(v, KeyInput { code: Key::Char('p'), control, alt }, now) == (after_move_study(v, -1isize), EffectView::Nothing),
        ({
            let next = after_key(v, KeyInput { code: Key::Enter, control, alt }, now).0;
            &&& next.screen == Screen::LessonQuiz
            &&& next.subject_index == 0
            &&& next.question == Question::Meaning
            &&& next.feedback is None
        }),
{
}

/// With feedback shown in a quiz, `a` accepts the answer for the session and
/// `s` first asks for it to be added as a synonym.
pub proof fn lemma_feedback_keys(v: AppView, control: bool, alt: bool, now: Moment)
    requires
        v.screen == Screen::LessonQuiz || v.screen == Screen::ReviewQuiz,
        v.feedback is Some,
    ensures
        after_key(v, KeyInput { code: Key::Char('a'), control, alt }, now) == after_accept(v, false),
        after_key(v, KeyInput { code: Key::Char('s'), control, alt }, now) == after_accept(v, true),
{
}

/// On the login screen, Ctrl+U and Delete clear the token field.
pub proof fn lemma_token_field_clears(v: AppView, control: bool, alt: bool, now: Moment)
    requires
        v.screen == Screen::Login,
    ensures
        after_key(v, KeyInput { code: Key::Char('u'), control: true, alt }, now).0.token_input.len() == 0,
        after_key(v, KeyInput { code: Key::Delete, control, alt }, now).0.token_input.len() == 0,
{
}

/// A graded answer is shown at once with every answer the question accepts.
pub proof fn lemma_feedback_shows_expected(v: AppView, mode: SessionMode, typed: Seq<char>)
    requires
        v.subject_index < v.subjects.len(),
    ensures
        after_answer(v, mode, typed).feedback == Some(FeedbackView {
            typed,
            expected: expected_answers(v.subjects[v.subject_index as int], v.question),
            question: v.question,
            ..after_answer(v, mode, typed).feedback->0
        }),
{
}

/// A reading is correct exactly when it matches an accepted reading of the
/// subject once both are normalised; a reading is never taken as a typo, and
/// in a review a wrong reading is tallied as a wrong reading, not a wrong
/// meaning.
pub proof fn lemma_readings_must_match(v: AppView, mode: SessionMode, typed: Seq<char>)
    requires
        v.question == Question::Reading,
        v.subject_index < v.subjects.len(),
    ensures
        ({
            let subject = v.subjects[v.subject_index as int];
            let accepted = accepted_reading_texts(subject.data.readings@);
            let next = after_answer(v, mode, typed);
            let feedback = next.feedback->0;
            &&& next.feedback is Some
            &&& feedback.correct == exists|i: int| 0 <= i < accepted.len() && #[trigger] normalized(accepted[i]) == normalized(typed)
            &&& !feedback.typo_accepted
            &&& feedback.expected == accepted
            &&& next.incorrect_meaning_answers == v.incorrect_meaning_answers
            &&& next.incorrect_reading_answers == if mode == SessionMode::Reviews && !feedback.correct {
                (v.incorrect_reading_answers + 1) as u32
            } else {
                v.incorrect_reading_answers
            }
        }),
{
}

/// A review of a subject that asks for its reading: the meaning is answered,
/// the feedback acknowledged, the reading answered and its feedback
/// acknowledged. The review is created only then, for the subject's
/// assignment, with one wrong meaning answer if the meaning was wrong and
/// one wrong reading answer if the reading was.
pub proof fn lemma_review_reports_its_wrong_answers(v: AppView, meaning: Seq<char>, reading: Seq<char>)
    requires
        app_invariant(v),
        v.screen == Screen::ReviewQuiz,
        v.feedback is None,
        v.question == Question::Meaning,
        v.subject_index < v.subjects.len(),
        v.client is Some,
        v.assignments.contains_key(v.subjects[v.subject_index as int].id),
        asks_reading(v.subjects[v.subject_index as int].object@, v.subjects[v.subject_index as int].data),
        v.total_answers + 2 <= usize::MAX,
        v.subjects.len() <= usize::MAX,
    ensures
        ({
            let subject = v.subjects[v.subject_index as int];
            let first = after_answer(v, SessionMode::Reviews, meaning);
            let (asked, asked_effect) = after_review_feedback(first);
            let second = after_answer(asked, SessionMode::Reviews, reading);
            let (done, effect) = after_review_feedback(second);
            &&& asked_effect == EffectView::Nothing
            &&& asked.question == Question::Reading
            &&& asked.subject_index == v.subject_index
            &&& effect == (EffectView::CreateReview {
                assignment_id: v.assignments[subject.id],
                incorrect_meaning_answers: if first.feedback->0.correct { 0u32 } else { 1u32 },
                incorrect_reading_answers: if second.feedback->0.correct { 0u32 } else { 1u32 },
            })
            &&& done.subject_index == v.subject_index + 1
        }),
{
    let subject = v.subjects[v.subject_index as int];
    let first = after_answer(v, SessionMode::Reviews, meaning);
    assert(v.incorrect_meaning_answers == 0 && v.incorrect_reading_answers == 0);
    assert(first.feedback->0.action == FeedbackAction::NextReviewQuestion);
    let (asked, asked_effect) = after_review_feedback(first);
    assert(asked.question == Question::Reading && asked.feedback is None);
    assert(asked.incorrect_meaning_answers == if first.feedback->0.correct { 0u32 } else { 1u32 });
    assert(asked.incorrect_reading_answers == 0);
    let second = after_answer(asked, SessionMode::Reviews, reading);
    assert(second.feedback->0.action == FeedbackAction::SubmitReview);
    assert(second.incorrect_meaning_answers == asked.incorrect_meaning_answers);
    assert(second.incorrect_reading_answers == if second.feedback->0.correct { 0u32 } else { 1u32 });
    assert(second.client is Some && second.assignments == v.assignments && second.subjects == v.subjects);
}

/// Accepting a wrong meaning, for the session or as a new synonym, on a
/// subject that asks for its reading leads to that subject's reading
/// question, in lessons and in reviews; nothing is sent yet, so no review is
/// created before the reading is answered.
pub proof fn lemma_accepted_meaning_leads_to_reading(v: AppView, result: Result<(), String>)
    requires
        app_invariant(v),
        v.screen == Screen::LessonQuiz || v.screen == Screen::ReviewQuiz,
        v.feedback is Some,
        !v.feedback->0.correct,
        v.feedback->0.question == Question::Meaning,
        trimmed(v.feedback->0.typed).len() > 0,
        asks_reading(v.subjects[v.subject_index as int].object@, v.subjects[v.subject_index as int].data),
    ensures
        ({
            let (accepted, effect) = after_accept(v, false);
            &&& effect == EffectView::Nothing
            &&& accepted.question == Question::Reading
            &&& accepted.subject_index == v.subject_index
            &&& accepted.screen == v.screen
            &&& accepted.feedback is None
            &&& accepted.correct_answers == v.correct_answers + 1
        }),
        result is Ok ==> ({
            let (added, effect) = after_synonym_added(v, result);
            &&& effect == EffectView::Nothing
            &&& added.question == Question::Reading
            &&& added.subject_index == v.subject_index
            &&& added.screen == v.screen
            &&& added.feedback is None
        }),
{
}

/// Moving by `delta` through a batch of lessons studied at position `k`
/// shows lesson k + delta, kept between the first and the last lesson.
pub proof fn lemma_study_moves_by_delta(v: AppView, delta: isize)
    requires
        v.lesson_study_index < v.subjects.len() <= usize::MAX,
    ensures
        after_move_study(v, delta).lesson_study_index == ({
            let target = v.lesson_study_index + delta;
            let last = v.subjects.len() - 1;
            if target < 0 { 0 } else if target > last { last } else { target }
        }),
        after_move_study(v, delta).subjects == v.subjects,
{
}

/// A successful sign-in opens the menu and asks for the token to be stored.
pub proof fn lemma_sign_in_stores_token(v: AppView, token: Seq<char>, username: String, summary: SummaryData)
    ensures
        after_sign_in(v, token, Ok(username), Ok(summary)).1 == (EffectView::SaveToken { token }),
        after_sign_in(v, token, Ok(username), Ok(summary)).0.screen == Screen::Menu,
        after_sign_in(v, token, Ok(username), Ok(summary)).0.client == Some(token),
{
}

/// Enter at the size prompt asks for between one and all of the available
/// subjects: the typed size when it lies in that range, none of them twice
/// and each of them available.
pub proof fn lemma_session_request_is_clamped(v: AppView, mode: SessionMode, now: Moment)
    requires
        v.client is Some,
        v.summary is Some,
        0 < available(v, mode, now) <= usize::MAX,
    ensures
        after_start_session(v, mode, now).1 is LoadSession,
        after_start_session(v, mode, now).1->mode == mode,
        ({
            let ids = after_start_session(v, mode, now).1->subject_ids;
            &&& ids.len() == session_limit(v.limit_input, available(v, mode, now))
            &&& 1 <= ids.len() <= available(v, mode, now)
            &&& ids.no_duplicates()
            &&& forall|id: u64| #[trigger] ids.contains(id) ==> available_ids(buckets_of(v.summary->0, mode), now).contains(id)
        }),
{
    let count = available(v, mode, now);
    let limit = session_limit(v.limit_input, count);
    lemma_session_ids_properties(buckets_of(v.summary->0, mode), limit as usize, now);
}

// ---------------------------------------------------------------------------
// The application.

impl TuiApp {
    /// The application at start-up, offering the stored token if there is
    /// one.
    pub fn new(stored_token: Option<String>) -> (app: Self)
        ensures
            app@ == initial(stored_token),
            app_invariant(app@),
    {
        let status = match &stored_token {
            Some(_) => Some(String::from_str("Press Enter to sign in with the saved token.")),
            None => None,
        };
        let token_input = match stored_token {
            Some(token) => token,
            None => String::new(),
        };
        TuiApp {
            client: None,
            username: String::new(),
            summary: None,
            screen: Screen::Login,
            token_input,
            limit_input: String::new(),
            answer_input: String::new(),
            error: None,
            status,
            subjects: Vec::new(),
            assignments_by_subject: HashMap::new(),
            subject_index: 0,
            lesson_study_index: 0,
            question: Question::Meaning,
            feedback: None,
            incorrect_meaning_answers: 0,
            incorrect_reading_answers: 0,
            correct_answers: 0,
            total_answers: 0,
            should_quit: false,
        }
    }

    /// Handles a key press at time `now`.
    pub fn handle_key(&mut self, key: KeyInput, now: Moment) -> (effect: Effect)
        requires
            app_invariant(old(self)@),
            key_allowed(old(self)@, key, now),
        ensures
            (final(self)@, effect@) == after_key(old(self)@, key, now),
            app_invariant(final(self)@),
    {
        proof {
            lemma_key_keeps_invariant(self@, key, now);
        }
        if key.control && key.code == Key::Char('c') {
            self.should_quit = true;
            return Effect::Nothing;
        }
        match self.screen {
            Screen::Login => self.handle_login_key(key),
            Screen::Menu => self.handle_menu_key(key, now),
            Screen::Limit(mode) => self.handle_limit_key(key, mode, now),
            Screen::LessonStudy => {
                self.handle_lesson_study_key(key);
                Effect::Nothing
            },
            Screen::LessonQuiz => self.handle_quiz_key(key, SessionMode::Lessons),
            Screen::ReviewQuiz => self.handle_quiz_key(key, SessionMode::Reviews),
            Screen::Done(_) => {
                self.handle_done_key(key);
                Effect::Nothing
            },
        }
    }

    /// Handles pasted text.
    pub fn handle_paste(&mut self, text: String)
        requires
            app_invariant(old(self)@),
        ensures
            final(self)@ == after_paste(old(self)@, text@),
            app_invariant(final(self)@),
    {
        proof {
            lemma_paste_keeps_invariant(self@, text@);
        }
        match self.screen {
            Screen::Login => {
                push_text(&mut self.token_input, trim(text.as_str()));
                self.error = None;
            },
            Screen::Limit(_) => {
                push_ascii_digits(&mut self.limit_input, text.as_str());
                self.error = None;
            },
            Screen::LessonQuiz | Screen::ReviewQuiz => {
                if self.feedback.is_none() {
                    push_text(&mut self.answer_input, trim(text.as_str()));
                }
            },
            _ => {},
        }
    }

    fn handle_login_key(&mut self, key: KeyInput) -> (effect: Effect)
        ensures
            (final(self)@, effect@) == login_key(old(self)@, key),
    {
        match key.code {
            Key::Esc => {
                self.should_quit = true;
                Effect::Nothing
            },
            Key::Enter => self.login(),
            Key::Char(c) => {
                if key.control && c == 'u' {
                    self.token_input = String::new();
                    self.error = None;
                } else if !(key.control || key.alt) {
                    push_char(&mut self.token_input, c);
                    self.error = None;
                }
                Effect::Nothing
            },
            Key::Delete => {
                self.token_input = String::new();
                self.error = None;
                Effect::Nothing
            },
            Key::Backspace => {
                pop_char(&mut self.token_input);
                self.error = None;
                Effect::Nothing
            },
            _ => Effect::Nothing,
        }
    }

    fn handle_menu_key(&mut self, key: KeyInput, now: Moment) -> (effect: Effect)
        ensures
            (final(self)@, effect@) == menu_key(old(self)@, key, now),
    {
        match key.code {
            Key::Char(c) => {
                if c == 'q' {
                    self.should_quit = true;
                    Effect::Nothing
                } else if c == 't' {
                    Effect::DeleteToken
                } else if c == 'r' {
                    self.open_limit_prompt(SessionMode::Reviews, now);
                    Effect::Nothing
                } else if c == 'l' {
                    self.open_limit_prompt(SessionMode::Lessons, now);
                    Effect::Nothing
                } else {
                    Effect::Nothing
                }
            },
            _ => Effect::Nothing,
        }
    }

    fn handle_limit_key(&mut self, key: KeyInput, mode: SessionMode, now: Moment) -> (effect: Effect)
        requires
            key.code == Key::Enter ==> available(old(self)@, mode, now) > 0,
        ensures
            (final(self)@, effect@) == limit_key(old(self)@, mode, key, now),
    {
        match key.code {
            Key::Esc => {
                self.error = None;
                self.screen = Screen::Menu;
                Effect::Nothing
            },
            Key::Enter => self.start_session(mode, now),
            Key::Backspace => {
                pop_char(&mut self.limit_input);
                Effect::Nothing
            },
            Key::Char(c) => {
                if '0' <= c && c <= '9' {
                    push_char(&mut self.limit_input, c);
                    self.error = None;
                }
                Effect::Nothing
            },
            _ => Effect::Nothing,
        }
    }

    fn handle_lesson_study_key(&mut self, key: KeyInput)
        ensures
            final(self)@ == study_key(old(self)@, key),
    {
        match key.code {
            Key::Esc => self.screen = Screen::Menu,
            Key::Right => self.move_lesson_study(1),
            Key::Left => self.move_lesson_study(-1),
            Key::Enter => {
                self.subject_index = 0;
                self.question = Question::Meaning;
                self.answer_input = String::new();
                self.feedback = None;
                self.screen = Screen::LessonQuiz;
            },
            Key::Char(c) => {
                if c == 'q' {
                    self.screen = Screen::Menu;
                } else if c == 'n' {
                    self.move_lesson_study(1);
                } else if c == 'p' {
                    self.move_lesson_study(-1);
                }
            },
            _ => {},
        }
    }

    /// Moves through the lessons being studied by `delta`, staying within the
    /// batch.
    pub fn move_lesson_study(&mut self, delta: isize)
        ensures
            final(self)@ == after_move_study(old(self)@, delta),
    {
        if self.subjects.len() == 0 {
            return;
        }
        let last = self.subjects.len() - 1;
        let index = self.lesson_study_index;
        let target: usize = if delta >= 0 {
            let step = delta as usize;
            if index > usize::MAX - step {
                usize::MAX
            } else {
                index + step
            }
        } else {
            let step: usize = if delta == isize::MIN {
                (isize::MAX as usize) + 1
            } else {
                (-delta) as usize
            };
            if index < step {
                0
            } else {
                index - step
            }
        };
        let next = if target <= last { target } else { last };
        if next != index {
            self.lesson_study_index = next;
            self.question = Question::Meaning;
            self.answer_input = String::new();
            self.feedback = None;
            self.error = None;
            self.status = None;
        }
    }

    fn handle_quiz_key(&mut self, key: KeyInput, mode: SessionMode) -> (effect: Effect)
        requires
            app_invariant(old(self)@),
            key.code == Key::Enter && answer_awaited(old(self)@) ==> answer_gradable(old(self)@),
            mode == SessionMode::Lessons ==> old(self).screen == Screen::LessonQuiz,
            mode == SessionMode::Reviews ==> old(self).screen == Screen::ReviewQuiz,
        ensures
            (final(self)@, effect@) == quiz_key(old(self)@, mode, key),
    {
        if self.feedback.is_some() {
            match key.code {
                Key::Enter => match mode {
                    SessionMode::Lessons => self.resolve_lesson_feedback(),
                    SessionMode::Reviews => self.resolve_review_feedback(),
                },
                Key::Char(c) => {
                    if c == 'a' {
                        self.accept_feedback_answer(false)
                    } else if c == 's' {
                        self.accept_feedback_answer(true)
                    } else {
                        Effect::Nothing
                    }
                },
                _ => Effect::Nothing,
            }
        } else {
            match key.code {
                Key::Esc => {
                    self.screen = Screen::Menu;
                },
                Key::Enter => self.grade_answer(mode),
                Key::Backspace => {
                    pop_char(&mut self.answer_input);
                },
                Key::Char(c) => push_char(&mut self.answer_input, c),
                _ => {},
            }
            Effect::Nothing
        }
    }

    fn handle_done_key(&mut self, key: KeyInput)
        ensures
            final(self)@ == done_key(old(self)@, key),
    {
        match key.code {
            Key::Esc => self.screen = Screen::Menu,
            Key::Enter => self.screen = Screen::Menu,
            Key::Char(c) => {
                if c == 'q' {
                    self.should_quit = true;
                }
            },
            _ => {},
        }
    }

    /// Signs in with the typed token, unless it is empty.
    pub fn login(&mut self) -> (effect: Effect)
        ensures
            (final(self)@, effect@) == after_login(old(self)@),
    {
        let token = String::from_str(trim(self.token_input.as_str()));
        if token.as_str().is_empty() {
            self.error = Some(String::from_str("Enter a WaniKani API v2 token."));
            return Effect::Nothing;
        }
        Effect::SignIn { token }
    }

    /// Takes the answers to the sign-in requests for `token`: the user's name
    /// and the summary, or why each failed.
    pub fn sign_in_finished(
        &mut self,
        token: String,
        user: Result<String, String>,
        summary: Result<SummaryData, String>,
    ) -> (effect: Effect)
        requires
            app_invariant(old(self)@),
            old(self)@.feedback is None,
        ensures
            (final(self)@, effect@) == after_sign_in(old(self)@, token@, user, summary),
            app_invariant(final(self)@),
    {
        proof {
            lemma_sign_in_keeps_invariant(self@, token@, user, summary);
        }
        match (user, summary) {
            (Ok(username), Ok(summary)) => {
                self.username = username;
                self.summary = Some(summary);
                self.client = Some(WaniKaniClient::new(token.clone()));
                self.error = None;
                self.status = None;
                self.screen = Screen::Menu;
                Effect::SaveToken { token }
            },
            (Err(e), _) => {
                self.error = Some(message("Login failed: ", e.as_str()));
                self.token_input = String::new();
                Effect::Nothing
            },
            (_, Err(e)) => {
                self.error = Some(message("Login failed: ", e.as_str()));
                self.token_input = String::new();
                Effect::Nothing
            },
        }
    }

    /// Takes the outcome of storing the token.
    pub fn token_saved(&mut self, result: Result<(), String>)
        requires
            app_invariant(old(self)@),
        ensures
            final(self)@ == after_token_saved(old(self)@, result),
            app_invariant(final(self)@),
    {
        proof {
            lemma_reports_keep_invariant(self@, result, Err(arbitrary()));
        }
        if let Err(e) = result {
            self.status = Some(message("Signed in, but could not save token: ", e.as_str()));
        }
    }

    /// Takes the outcome of removing the stored token.
    pub fn token_deleted(&mut self, result: Result<(), String>)
        requires
            app_invariant(old(self)@),
            old(self)@.feedback is None,
        ensures
            final(self)@ == after_token_deleted(old(self)@, result),
            app_invariant(final(self)@),
    {
        proof {
            lemma_token_deleted_keeps_invariant(self@, result);
        }
        match result {
            Ok(()) => {
                self.client = None;
                self.summary = None;
                self.username = String::new();
                self.token_input = String::new();
                self.error = None;
                self.status = Some(String::from_str("Logged out. Saved token removed."));
                self.screen = Screen::Login;
            },
            Err(e) => {
                self.error = Some(message("Could not delete saved token: ", e.as_str()));
            },
        }
    }

    /// How many subjects of a kind are available at `now`.
    pub fn available_count(&self, mode: SessionMode, now: Moment) -> (count: usize)
        ensures
            count == available(self@, mode, now),
    {
        match &self.summary {
            None => 0,
            Some(summary) => match mode {
                SessionMode::Lessons => unique_available_subject_count(summary.lessons.as_slice(), now),
                SessionMode::Reviews => unique_available_subject_count(summary.reviews.as_slice(), now),
            },
        }
    }

    /// Opens the prompt for the size of a session, when anything is
    /// available.
    pub fn open_limit_prompt(&mut self, mode: SessionMode, now: Moment)
        ensures
            final(self)@ == after_open_limit(old(self)@, mode, now),
    {
        let available = self.available_count(mode, now);
        if available == 0 {
            let mut text = String::from_str("No ");
            push_text(&mut text, mode.label_lower());
            push_text(&mut text, " are available right now.");
            self.error = Some(text);
            return;
        }
        self.error = None;
        self.status = None;
        let shown: usize = if available < 10 { available } else { 10 };
        self.limit_input = u64_to_string(shown as u64);
        self.screen = Screen::Limit(mode);
    }

    /// Starts a session of the chosen size, asking for its subjects.
    pub fn start_session(&mut self, mode: SessionMode, now: Moment) -> (effect: Effect)
        requires
            available(old(self)@, mode, now) > 0,
        ensures
            (final(self)@, effect@) == after_start_session(old(self)@, mode, now),
    {
        let available = self.available_count(mode, now);
        let wanted = match parse_usize(self.limit_input.as_str()) {
            Some(n) => n,
            None => if available < 10 { available } else { 10 },
        };
        let limit = if wanted < 1 {
            1
        } else if wanted > available {
            available
        } else {
            wanted
        };
        if self.client.is_none() {
            self.screen = Screen::Login;
            return Effect::Nothing;
        }
        match &self.summary {
            None => {
                self.error = Some(String::from_str("Summary is not loaded."));
                Effect::Nothing
            },
            Some(summary) => {
                let buckets = match mode {
                    SessionMode::Lessons => summary.lessons.as_slice(),
                    SessionMode::Reviews => summary.reviews.as_slice(),
                };
                let subject_ids = collect_available_subject_ids(buckets, limit, now);
                Effect::LoadSession { mode, subject_ids }
            },
        }
    }

    /// Takes the answers to the session requests: the subjects, in the order
    /// asked for, and their assignments.
    pub fn session_loaded(
        &mut self,
        mode: SessionMode,
        subjects: Result<Vec<ApiResource<SubjectData>>, String>,
        assignments: Result<Vec<ApiResource<AssignmentData>>, String>,
    )
        requires
            app_invariant(old(self)@),
            old(self)@.feedback is None,
        ensures
            final(self)@ == after_session_loaded(old(self)@, mode, subjects, assignments),
            app_invariant(final(self)@),
    {
        proof {
            lemma_session_loaded_keeps_invariant(self@, mode, subjects, assignments);
        }
        match (subjects, assignments) {
            (Ok(subjects), Ok(assignments)) => {
                self.subjects = subjects;
                self.assignments_by_subject = assignment_map(assignments);
                self.subject_index = 0;
                self.lesson_study_index = 0;
                self.question = Question::Meaning;
                self.answer_input = String::new();
                self.feedback = None;
                self.incorrect_meaning_answers = 0;
                self.incorrect_reading_answers = 0;
                self.correct_answers = 0;
                self.total_answers = 0;
                self.error = None;
                self.status = None;
                self.screen = match mode {
                    SessionMode::Lessons => Screen::LessonStudy,
                    SessionMode::Reviews => Screen::ReviewQuiz,
                };
            },
            (Err(e), _) => {
                self.session_failed(mode, e);
            },
            (_, Err(e)) => {
                self.session_failed(mode, e);
            },
        }
    }

    fn session_failed(&mut self, mode: SessionMode, reason: String)
        ensures
            final(self)@ == at_menu(with_error(old(self)@, "Could not start "@ + label_lower_text(mode) + ": "@ + reason@)),
    {
        let mut text = String::from_str("Could not start ");
        push_text(&mut text, mode.label_lower());
        push_text(&mut text, ": ");
        push_text(&mut text, reason.as_str());
        self.error = Some(text);
        self.screen = Screen::Menu;
    }

    /// The subject the quiz is on.
    pub fn current_subject(&self) -> (subject: Option<&ApiResource<SubjectData>>)
        ensures
            match subject {
                Some(s) => current_of(self@) == Some(*s),
                None => current_of(self@) is None,
            },
    {
        if self.subject_index < self.subjects.len() {
            Some(&self.subjects[self.subject_index])
        } else {
            None
        }
    }

    /// Grades the typed answer to the current question.
    pub fn grade_answer(&mut self, mode: SessionMode)
        requires
            app_invariant(old(self)@),
            old(self)@.feedback is None,
            old(self)@.subject_index < old(self)@.subjects.len() ==> answer_gradable(old(self)@),
            mode == SessionMode::Lessons ==> old(self).screen == Screen::LessonQuiz,
            mode == SessionMode::Reviews ==> old(self).screen == Screen::ReviewQuiz,
        ensures
            final(self)@ == after_answer(old(self)@, mode, typed_answer(old(self)@)),
            app_invariant(final(self)@),
    {
        if self.subject_index >= self.subjects.len() {
            return;
        }
        let typed = match self.question {
            Question::Meaning => String::from_str(trim(self.answer_input.as_str())),
            Question::Reading => reading_as_hiragana(self.answer_input.as_str()),
        };
        self.record_answer(mode, typed);
    }

    /// Grades `typed`, the answer as graded, against the current subject.
    pub fn record_answer(&mut self, mode: SessionMode, typed: String)
        requires
            app_invariant(old(self)@),
            old(self)@.feedback is None,
            old(self)@.subject_index < old(self)@.subjects.len() ==> old(self)@.total_answers < usize::MAX,
            mode == SessionMode::Lessons ==> old(self).screen == Screen::LessonQuiz,
            mode == SessionMode::Reviews ==> old(self).screen == Screen::ReviewQuiz,
        ensures
            final(self)@ == after_answer(old(self)@, mode, typed@),
            app_invariant(final(self)@),
    {
        proof {
            lemma_answer_keeps_invariant(self@, mode, typed@);
        }
        if self.subject_index >= self.subjects.len() {
            return;
        }
        let subject = &self.subjects[self.subject_index];
        let has_reading = subject.has_reading_question();
        let expected = match self.question {
            Question::Meaning => subject.accepted_meanings(),
            Question::Reading => subject.accepted_readings(),
        };
        let grade = match self.question {
            Question::Meaning => grade_meaning_answer(typed.as_str(), expected.as_slice()),
            Question::Reading => {
                if matches_answer(typed.as_str(), expected.as_slice()) {
                    AnswerGrade::Correct
                } else {
                    AnswerGrade::Incorrect
                }
            },
        };
        let correct = grade.is_accepted();
        self.total_answers = self.total_answers + 1;
        if correct {
            self.correct_answers = self.correct_answers + 1;
        }
        let action = match mode {
            SessionMode::Lessons => {
                if !correct {
                    FeedbackAction::ContinueQuestion
                } else if self.question == Question::Meaning && has_reading {
                    FeedbackAction::NextLessonQuestion
                } else {
                    FeedbackAction::NextLesson
                }
            },
            SessionMode::Reviews => {
                if self.question == Question::Meaning {
                    if !correct {
                        self.incorrect_meaning_answers = self.incorrect_meaning_answers + 1;
                    }
                    if has_reading {
                        FeedbackAction::NextReviewQuestion
                    } else {
                        FeedbackAction::SubmitReview
                    }
                } else {
                    if !correct {
                        self.incorrect_reading_answers = self.incorrect_reading_answers + 1;
                    }
                    FeedbackAction::SubmitReview
                }
            },
        };
        let typo_accepted = grade == AnswerGrade::Typo;
        self.feedback = Some(Feedback { correct, typo_accepted, typed, expected, action, question: self.question });
    }

    /// Acknowledges feedback during lessons.
    pub fn resolve_lesson_feedback(&mut self) -> (effect: Effect)
        requires
            app_invariant(old(self)@),
            old(self).screen == Screen::LessonQuiz,
        ensures
            (final(self)@, effect@) == after_lesson_feedback(old(self)@),
            app_invariant(final(self)@),
    {
        proof {
            lemma_lesson_feedback_keeps_invariant(self@);
        }
        let feedback = match self.feedback.take() {
            None => return Effect::Nothing,
            Some(f) => f,
        };
        self.answer_input = String::new();
        match feedback.action {
            FeedbackAction::NextLessonQuestion => {
                self.question = Question::Reading;
                Effect::Nothing
            },
            FeedbackAction::NextLesson => {
                let ghost cleared = self@;
                assert(cleared.subject_index < cleared.subjects.len());
                let effect = self.start_current_assignment();
                assert(self@.subject_index == cleared.subject_index && self@.subjects == cleared.subjects);
                let count = self.subjects.len();
                assert(self.subject_index < count);
                self.subject_index = self.subject_index + 1;
                self.question = Question::Meaning;
                if self.subject_index >= self.subjects.len() {
                    self.screen = Screen::Done(SessionMode::Lessons);
                } else {
                    self.screen = Screen::LessonQuiz;
                }
                effect
            },
            _ => Effect::Nothing,
        }
    }

    /// Acknowledges feedback during reviews.
    pub fn resolve_review_feedback(&mut self) -> (effect: Effect)
        requires
            app_invariant(old(self)@),
            old(self).screen == Screen::ReviewQuiz,
        ensures
            (final(self)@, effect@) == after_review_feedback(old(self)@),
            app_invariant(final(self)@),
    {
        proof {
            lemma_review_feedback_keeps_invariant(self@);
        }
        let feedback = match self.feedback.take() {
            None => return Effect::Nothing,
            Some(f) => f,
        };
        self.answer_input = String::new();
        match feedback.action {
            FeedbackAction::NextReviewQuestion => {
                self.question = Question::Reading;
                Effect::Nothing
            },
            FeedbackAction::SubmitReview => {
                let ghost cleared = self@;
                assert(cleared.subject_index < cleared.subjects.len());
                let effect = self.submit_current_review();
                assert(self@.subject_index == cleared.subject_index && self@.subjects == cleared.subjects);
                let count = self.subjects.len();
                assert(self.subject_index < count);
                self.subject_index = self.subject_index + 1;
                self.question = Question::Meaning;
                self.incorrect_meaning_answers = 0;
                self.incorrect_reading_answers = 0;
                if self.subject_index >= self.subjects.len() {
                    self.screen = Screen::Done(SessionMode::Reviews);
                }
                effect
            },
            _ => Effect::Nothing,
        }
    }

    /// Accepts a wrong meaning for this session, or with `add_synonym` first
    /// adds it as a synonym of the subject.
    pub fn accept_feedback_answer(&mut self, add_synonym: bool) -> (effect: Effect)
        requires
            app_invariant(old(self)@),
        ensures
            (final(self)@, effect@) == after_accept(old(self)@, add_synonym),
            app_invariant(final(self)@),
    {
        proof {
            lemma_accept_keeps_invariant(self@, add_synonym);
        }
        let typed = match &self.feedback {
            None => return Effect::Nothing,
            Some(f) => {
                if f.correct || f.question != Question::Meaning {
                    return Effect::Nothing;
                }
                let text = trim(f.typed.as_str());
                if text.is_empty() {
                    return Effect::Nothing;
                }
                String::from_str(text)
            },
        };
        if add_synonym {
            match self.add_current_meaning_synonym(typed.as_str()) {
                Ok(effect) => effect,
                Err(e) => {
                    self.status = Some(message("Could not add synonym: ", e.as_str()));
                    Effect::Nothing
                },
            }
        } else {
            self.status = Some(String::from_str("Answer accepted for this session."));
            self.credit_accepted_answer()
        }
    }

    /// Takes the outcome of adding a synonym.
    pub fn synonym_added(&mut self, result: Result<(), String>) -> (effect: Effect)
        requires
            app_invariant(old(self)@),
        ensures
            (final(self)@, effect@) == after_synonym_added(old(self)@, result),
            app_invariant(final(self)@),
    {
        proof {
            lemma_synonym_added_keeps_invariant(self@, result);
        }
        let acceptable = match &self.feedback {
            Some(f) => !f.correct && f.question == Question::Meaning && !trim(f.typed.as_str()).is_empty(),
            None => false,
        };
        if !acceptable {
            return Effect::Nothing;
        }
        match result {
            Ok(()) => {
                self.status = Some(String::from_str("Synonym added and answer accepted."));
                self.credit_accepted_answer()
            },
            Err(e) => {
                self.status = Some(message("Could not add synonym: ", e.as_str()));
                Effect::Nothing
            },
        }
    }

    fn credit_accepted_answer(&mut self) -> (effect: Effect)
        requires
            app_invariant(old(self)@),
            can_accept(old(self)@),
        ensures
            (final(self)@, effect@) == after_credit(old(self)@),
    {
        self.correct_answers = self.correct_answers + 1;
        if self.screen == Screen::ReviewQuiz && self.incorrect_meaning_answers > 0 {
            self.incorrect_meaning_answers = self.incorrect_meaning_answers - 1;
        }
        let action = self.accepted_meaning_action();
        match self.feedback.take() {
            Some(mut f) => {
                f.correct = true;
                f.typo_accepted = false;
                f.action = action;
                self.feedback = Some(f);
            },
            None => {},
        }
        match self.screen {
            Screen::LessonQuiz => self.resolve_lesson_feedback(),
            Screen::ReviewQuiz => self.resolve_review_feedback(),
            _ => Effect::Nothing,
        }
    }

    /// What follows a meaning that the user accepts.
    pub fn accepted_meaning_action(&self) -> (action: FeedbackAction)
        ensures
            action == accepted_action(self@),
    {
        let has_reading = match self.current_subject() {
            Some(subject) => subject.has_reading_question(),
            None => false,
        };
        match self.screen {
            Screen::LessonQuiz => {
                if has_reading {
                    FeedbackAction::NextLessonQuestion
                } else {
                    FeedbackAction::NextLesson
                }
            },
            Screen::ReviewQuiz => {
                if has_reading {
                    FeedbackAction::NextReviewQuestion
                } else {
                    FeedbackAction::SubmitReview
                }
            },
            _ => FeedbackAction::ContinueQuestion,
        }
    }

    /// The request to add `synonym` to the current subject, or why it cannot
    /// be made.
    pub fn add_current_meaning_synonym(&self, synonym: &str) -> (request: Result<Effect, String>)
        ensures
            match (self@.client, current_of(self@)) {
                (None, _) => request matches Err(e) && e@ == "not signed in"@,
                (_, None) => request matches Err(e) && e@ == "no current subject"@,
                (Some(_), Some(subject)) => request matches Ok(effect)
                    && effect@ == (EffectView::AddSynonym { subject_id: subject.id, synonym: synonym@ }),
            },
    {
        if self.client.is_none() {
            return Err(String::from_str("not signed in"));
        }
        match self.current_subject() {
            None => Err(String::from_str("no current subject")),
            Some(subject) => Ok(Effect::AddSynonym { subject_id: subject.id, synonym: String::from_str(synonym) }),
        }
    }

    /// Starts the assignment of the lesson just learned.
    pub fn start_current_assignment(&mut self) -> (effect: Effect)
        ensures
            (final(self)@, effect@) == after_start_assignment(old(self)@),
    {
        if self.client.is_none() || self.subject_index >= self.subjects.len() {
            return Effect::Nothing;
        }
        let subject_id = self.subjects[self.subject_index].id;
        match self.assignments_by_subject.get(&subject_id) {
            Some(assignment_id) => Effect::StartAssignment { assignment_id: *assignment_id },
            None => {
                self.status = Some(String::from_str("No assignment found for this lesson."));
                Effect::Nothing
            },
        }
    }

    /// Takes the outcome of starting an assignment, then refreshes the
    /// summary.
    pub fn assignment_started(&mut self, result: Result<(), String>) -> (effect: Effect)
        requires
            app_invariant(old(self)@),
        ensures
            (final(self)@, effect@) == after_assignment_started(old(self)@, result),
            app_invariant(final(self)@),
    {
        proof {
            lemma_reports_keep_invariant(self@, result, Err(arbitrary()));
        }
        self.status = match result {
            Ok(()) => Some(String::from_str("Lesson started in WaniKani.")),
            Err(e) => Some(message("Could not start lesson: ", e.as_str())),
        };
        self.refresh_summary()
    }

    /// Submits the review of the current subject.
    pub fn submit_current_review(&mut self) -> (effect: Effect)
        ensures
            (final(self)@, effect@) == after_submit_review(old(self)@),
    {
        if self.client.is_none() || self.subject_index >= self.subjects.len() {
            return Effect::Nothing;
        }
        let subject_id = self.subjects[self.subject_index].id;
        match self.assignments_by_subject.get(&subject_id) {
            Some(assignment_id) => Effect::CreateReview {
                assignment_id: *assignment_id,
                incorrect_meaning_answers: self.incorrect_meaning_answers,
                incorrect_reading_answers: self.incorrect_reading_answers,
            },
            None => {
                self.status = Some(String::from_str("No assignment found for this review."));
                Effect::Nothing
            },
        }
    }

    /// Takes the outcome of recording a review, then refreshes the summary.
    pub fn review_created(&mut self, result: Result<(), String>) -> (effect: Effect)
        requires
            app_invariant(old(self)@),
        ensures
            (final(self)@, effect@) == after_review_created(old(self)@, result),
            app_invariant(final(self)@),
    {
        proof {
            lemma_reports_keep_invariant(self@, result, Err(arbitrary()));
        }
        self.status = match result {
            Ok(()) => Some(String::from_str("Review submitted.")),
            Err(e) => Some(message("Could not submit review: ", e.as_str())),
        };
        self.refresh_summary()
    }

    /// Asks for the summary again, when signed in.
    pub fn refresh_summary(&self) -> (effect: Effect)
        ensures
            effect@ == refresh_effect(self@),
    {
        if self.client.is_none() {
            Effect::Nothing
        } else {
            Effect::RefreshSummary
        }
    }

    /// Takes the refreshed summary, or why it could not be fetched.
    pub fn summary_refreshed(&mut self, result: Result<SummaryData, String>)
        requires
            app_invariant(old(self)@),
        ensures
            final(self)@ == after_summary_refreshed(old(self)@, result),
            app_invariant(final(self)@),
    {
        proof {
            lemma_reports_keep_invariant(self@, Ok(()), result);
        }
        match result {
            Ok(summary) => self.summary = Some(summary),
            Err(e) => self.status = Some(message("Could not refresh summary: ", e.as_str())),
        }
    }
}

} // verus!
