use wanikani_tui::app::{Effect, FeedbackAction, Key, KeyInput, Question, Screen, SessionMode, SummaryData, TuiApp};
use wanikani_tui::client::AssignmentData;
use wanikani_tui::schedule::{Moment, SummaryBucket};
use wanikani_tui::subject::{ApiResource, Meaning, Reading, SubjectData};

const NOW: Moment = Moment { seconds: 1_800_000_000, nanos: 0 };

fn key(code: Key) -> KeyInput {
    KeyInput { code, control: false, alt: false }
}

fn ch(c: char) -> KeyInput {
    key(Key::Char(c))
}

fn typed(app: &mut TuiApp, text: &str) {
    for c in text.chars() {
        assert!(matches!(app.handle_key(ch(c), NOW), Effect::Nothing));
    }
}

fn kanji(id: u64, meaning: &str, reading: &str) -> ApiResource<SubjectData> {
    ApiResource {
        id,
        object: "kanji".to_string(),
        data: SubjectData {
            characters: Some("水".to_string()),
            slug: "water".to_string(),
            meanings: vec![Meaning { meaning: meaning.to_string(), accepted_answer: true }],
            readings: vec![Reading { reading: reading.to_string(), accepted_answer: true }],
            meaning_mnemonic: None,
            reading_mnemonic: None,
        },
    }
}

fn radical(id: u64, meaning: &str) -> ApiResource<SubjectData> {
    ApiResource {
        id,
        object: "radical".to_string(),
        data: SubjectData {
            characters: None,
            slug: meaning.to_string(),
            meanings: vec![Meaning { meaning: meaning.to_string(), accepted_answer: true }],
            readings: Vec::new(),
            meaning_mnemonic: None,
            reading_mnemonic: None,
        },
    }
}

fn assignment(id: u64, subject_id: u64) -> ApiResource<AssignmentData> {
    ApiResource { id, object: "assignment".to_string(), data: AssignmentData { subject_id } }
}

fn summary(lessons: Vec<u64>, reviews: Vec<u64>) -> SummaryData {
    SummaryData {
        lessons: vec![SummaryBucket { available_at: None, subject_ids: lessons }],
        reviews: vec![SummaryBucket { available_at: None, subject_ids: reviews }],
    }
}

fn signed_in(lessons: Vec<u64>, reviews: Vec<u64>) -> TuiApp {
    let mut app = TuiApp::new(Some("token".to_string()));
    assert!(matches!(app.handle_key(key(Key::Enter), NOW), Effect::SignIn { .. }));
    let effect = app.sign_in_finished("token".to_string(), Ok("koichi".to_string()), Ok(summary(lessons, reviews)));
    assert!(matches!(effect, Effect::SaveToken { ref token } if token == "token"));
    app.token_saved(Ok(()));
    app
}

#[test]
fn startup_offers_the_stored_token() {
    let fresh = TuiApp::new(None);
    assert_eq!(fresh.screen, Screen::Login);
    assert_eq!(fresh.token_input, "");
    assert_eq!(fresh.status, None);
    let stored = TuiApp::new(Some("abc".to_string()));
    assert_eq!(stored.token_input, "abc");
    assert_eq!(stored.status.as_deref(), Some("Press Enter to sign in with the saved token."));
}

#[test]
fn login_edits_the_token_and_refuses_an_empty_one() {
    let mut app = TuiApp::new(None);
    assert!(matches!(app.handle_key(key(Key::Enter), NOW), Effect::Nothing));
    assert_eq!(app.error.as_deref(), Some("Enter a WaniKani API v2 token."));
    typed(&mut app, "ab");
    assert_eq!(app.error, None);
    assert!(matches!(app.handle_key(key(Key::Backspace), NOW), Effect::Nothing));
    assert_eq!(app.token_input, "a");
    app.handle_key(KeyInput { code: Key::Char('x'), control: false, alt: true }, NOW);
    assert_eq!(app.token_input, "a");
    app.handle_key(KeyInput { code: Key::Char('u'), control: true, alt: false }, NOW);
    assert_eq!(app.token_input, "");
    app.handle_paste("  pasted-token \n".to_string());
    assert_eq!(app.token_input, "pasted-token");
    match app.handle_key(key(Key::Enter), NOW) {
        Effect::SignIn { token } => assert_eq!(token, "pasted-token"),
        _ => panic!("expected a sign-in"),
    }
}

#[test]
fn failed_sign_in_reports_the_first_failure() {
    let mut app = TuiApp::new(Some("t".to_string()));
    let effect = app.sign_in_finished("t".to_string(), Err("bad token".to_string()), Err("later".to_string()));
    assert!(matches!(effect, Effect::Nothing));
    assert_eq!(app.error.as_deref(), Some("Login failed: bad token"));
    assert_eq!(app.token_input, "");
    assert_eq!(app.screen, Screen::Login);
    app.sign_in_finished("t".to_string(), Ok("me".to_string()), Err("no summary".to_string()));
    assert_eq!(app.error.as_deref(), Some("Login failed: no summary"));
}

#[test]
fn sign_in_opens_the_menu_and_save_failures_are_reported() {
    let mut app = TuiApp::new(Some("t".to_string()));
    app.sign_in_finished("t".to_string(), Ok("me".to_string()), Ok(summary(vec![], vec![])));
    assert_eq!(app.screen, Screen::Menu);
    assert_eq!(app.username, "me");
    assert_eq!(app.client.as_ref().map(|c| c.token.as_str()), Some("t"));
    app.token_saved(Err("disk full".to_string()));
    assert_eq!(app.status.as_deref(), Some("Signed in, but could not save token: disk full"));
}

#[test]
fn ctrl_c_quits_from_any_screen() {
    let mut app = signed_in(vec![1], vec![]);
    app.handle_key(KeyInput { code: Key::Char('c'), control: true, alt: false }, NOW);
    assert!(app.should_quit);
    assert_eq!(app.screen, Screen::Menu);
}

#[test]
fn nothing_available_is_reported_at_the_menu() {
    let mut app = signed_in(vec![], vec![]);
    app.handle_key(ch('r'), NOW);
    assert_eq!(app.error.as_deref(), Some("No reviews are available right now."));
    assert_eq!(app.screen, Screen::Menu);
    app.handle_key(ch('l'), NOW);
    assert_eq!(app.error.as_deref(), Some("No lessons are available right now."));
}

#[test]
fn session_size_defaults_to_at_most_ten_and_is_clamped() {
    let mut app = signed_in((1..=12).collect(), vec![4, 5, 6]);
    app.handle_key(ch('l'), NOW);
    assert_eq!(app.screen, Screen::Limit(SessionMode::Lessons));
    assert_eq!(app.limit_input, "10");
    app.handle_key(key(Key::Backspace), NOW);
    app.handle_key(key(Key::Backspace), NOW);
    typed(&mut app, "x2");
    assert_eq!(app.limit_input, "2");
    match app.handle_key(key(Key::Enter), NOW) {
        Effect::LoadSession { mode, subject_ids } => {
            assert_eq!(mode, SessionMode::Lessons);
            assert_eq!(subject_ids, vec![1, 2]);
        }
        _ => panic!("expected a session"),
    }
    app.handle_key(key(Key::Esc), NOW);
    app.handle_key(ch('r'), NOW);
    assert_eq!(app.limit_input, "3");
    app.handle_paste("9 9".to_string());
    assert_eq!(app.limit_input, "399");
    match app.handle_key(key(Key::Enter), NOW) {
        Effect::LoadSession { subject_ids, .. } => assert_eq!(subject_ids, vec![4, 5, 6]),
        _ => panic!("expected a session"),
    }
    app.limit_input = "0".to_string();
    match app.handle_key(key(Key::Enter), NOW) {
        Effect::LoadSession { subject_ids, .. } => assert_eq!(subject_ids, vec![4]),
        _ => panic!("expected a session"),
    }
}

#[test]
fn failed_session_load_returns_to_the_menu() {
    let mut app = signed_in(vec![1], vec![]);
    app.handle_key(ch('l'), NOW);
    app.session_loaded(SessionMode::Lessons, Err("offline".to_string()), Ok(Vec::new()));
    assert_eq!(app.screen, Screen::Menu);
    assert_eq!(app.error.as_deref(), Some("Could not start lessons: offline"));
}

#[test]
fn lessons_are_studied_then_quizzed_then_started() {
    let mut app = signed_in(vec![1, 2], vec![]);
    app.handle_key(ch('l'), NOW);
    app.handle_key(key(Key::Enter), NOW);
    app.session_loaded(
        SessionMode::Lessons,
        Ok(vec![kanji(1, "water", "みず"), radical(2, "ground")]),
        Ok(vec![assignment(11, 1), assignment(12, 2)]),
    );
    assert_eq!(app.screen, Screen::LessonStudy);
    app.handle_key(key(Key::Left), NOW);
    assert_eq!(app.lesson_study_index, 0);
    app.handle_key(ch('n'), NOW);
    app.handle_key(key(Key::Right), NOW);
    assert_eq!(app.lesson_study_index, 1);
    app.handle_key(key(Key::Enter), NOW);
    assert_eq!(app.screen, Screen::LessonQuiz);

    typed(&mut app, "fire");
    app.handle_key(key(Key::Enter), NOW);
    let feedback = app.feedback.as_ref().unwrap();
    assert!(!feedback.correct);
    assert_eq!(feedback.action, FeedbackAction::ContinueQuestion);
    assert_eq!(feedback.expected, vec!["water".to_string()]);
    app.handle_key(key(Key::Enter), NOW);
    assert_eq!(app.question, Question::Meaning);
    assert_eq!(app.answer_input, "");

    typed(&mut app, "Water ");
    app.handle_key(key(Key::Enter), NOW);
    assert_eq!(app.feedback.as_ref().unwrap().action, FeedbackAction::NextLessonQuestion);
    app.handle_key(key(Key::Enter), NOW);
    assert_eq!(app.question, Question::Reading);

    typed(&mut app, "mizu");
    app.handle_key(key(Key::Enter), NOW);
    assert_eq!(app.feedback.as_ref().unwrap().typed, "みず");
    assert!(app.feedback.as_ref().unwrap().correct);
    match app.handle_key(key(Key::Enter), NOW) {
        Effect::StartAssignment { assignment_id } => assert_eq!(assignment_id, 11),
        _ => panic!("expected the assignment to start"),
    }
    assert!(matches!(app.assignment_started(Ok(())), Effect::RefreshSummary));
    assert_eq!(app.status.as_deref(), Some("Lesson started in WaniKani."));
    app.summary_refreshed(Err("timeout".to_string()));
    assert_eq!(app.status.as_deref(), Some("Could not refresh summary: timeout"));
    assert_eq!(app.subject_index, 1);

    typed(&mut app, "grund");
    app.handle_key(key(Key::Enter), NOW);
    let feedback = app.feedback.as_ref().unwrap();
    assert!(feedback.correct && feedback.typo_accepted);
    assert_eq!(feedback.action, FeedbackAction::NextLesson);
    assert!(matches!(app.handle_key(key(Key::Enter), NOW), Effect::StartAssignment { assignment_id: 12 }));
    assert_eq!(app.screen, Screen::Done(SessionMode::Lessons));
    assert_eq!((app.correct_answers, app.total_answers), (3, 4));
}

#[test]
fn reviews_tally_wrong_answers_and_submit() {
    let mut app = signed_in(vec![], vec![1]);
    app.handle_key(ch('r'), NOW);
    app.handle_key(key(Key::Enter), NOW);
    app.session_loaded(SessionMode::Reviews, Ok(vec![kanji(1, "water", "みず")]), Ok(vec![assignment(31, 1)]));
    assert_eq!(app.screen, Screen::ReviewQuiz);

    typed(&mut app, "fire");
    app.handle_key(key(Key::Enter), NOW);
    assert_eq!(app.incorrect_meaning_answers, 1);
    assert_eq!(app.feedback.as_ref().unwrap().action, FeedbackAction::NextReviewQuestion);
    app.handle_key(key(Key::Enter), NOW);
    assert_eq!(app.question, Question::Reading);

    typed(&mut app, "kawa");
    app.handle_key(key(Key::Enter), NOW);
    assert_eq!(app.incorrect_reading_answers, 1);
    match app.handle_key(key(Key::Enter), NOW) {
        Effect::CreateReview { assignment_id, incorrect_meaning_answers, incorrect_reading_answers } => {
            assert_eq!((assignment_id, incorrect_meaning_answers, incorrect_reading_answers), (31, 1, 1));
        }
        _ => panic!("expected a review"),
    }
    assert_eq!(app.screen, Screen::Done(SessionMode::Reviews));
    assert_eq!((app.incorrect_meaning_answers, app.incorrect_reading_answers), (0, 0));
    assert!(matches!(app.review_created(Err("503".to_string())), Effect::RefreshSummary));
    assert_eq!(app.status.as_deref(), Some("Could not submit review: 503"));
    app.handle_key(key(Key::Enter), NOW);
    assert_eq!(app.screen, Screen::Menu);
}

#[test]
fn a_wrong_meaning_can_be_accepted_or_added_as_synonym() {
    let mut app = signed_in(vec![], vec![1, 2]);
    app.handle_key(ch('r'), NOW);
    app.handle_key(key(Key::Enter), NOW);
    app.session_loaded(
        SessionMode::Reviews,
        Ok(vec![radical(1, "ground"), radical(2, "stick")]),
        Ok(vec![assignment(41, 1)]),
    );
    typed(&mut app, "earth");
    app.handle_key(key(Key::Enter), NOW);
    assert_eq!(app.incorrect_meaning_answers, 1);
    match app.handle_key(ch('a'), NOW) {
        Effect::CreateReview { assignment_id, incorrect_meaning_answers, .. } => {
            assert_eq!((assignment_id, incorrect_meaning_answers), (41, 0));
        }
        _ => panic!("expected a review"),
    }
    assert_eq!(app.status.as_deref(), Some("Answer accepted for this session."));
    assert_eq!((app.correct_answers, app.total_answers), (1, 1));
    assert_eq!(app.subject_index, 1);

    typed(&mut app, " branch ");
    app.handle_key(key(Key::Enter), NOW);
    match app.handle_key(ch('s'), NOW) {
        Effect::AddSynonym { subject_id, synonym } => {
            assert_eq!(subject_id, 2);
            assert_eq!(synonym, "branch");
        }
        _ => panic!("expected a synonym"),
    }
    assert!(matches!(app.synonym_added(Err("403".to_string())), Effect::Nothing));
    assert_eq!(app.status.as_deref(), Some("Could not add synonym: 403"));
    assert!(app.feedback.is_some());
    let effect = app.synonym_added(Ok(()));
    assert!(matches!(effect, Effect::Nothing));
    assert_eq!(app.status.as_deref(), Some("No assignment found for this review."));
    assert_eq!(app.screen, Screen::Done(SessionMode::Reviews));
    assert_eq!((app.correct_answers, app.total_answers), (2, 2));
}

#[test]
fn correct_feedback_cannot_be_accepted_again() {
    let mut app = signed_in(vec![1], vec![]);
    app.handle_key(ch('l'), NOW);
    app.handle_key(key(Key::Enter), NOW);
    app.session_loaded(SessionMode::Lessons, Ok(vec![radical(1, "ground")]), Ok(Vec::new()));
    app.handle_key(key(Key::Enter), NOW);
    typed(&mut app, "ground");
    app.handle_key(key(Key::Enter), NOW);
    assert!(matches!(app.handle_key(ch('a'), NOW), Effect::Nothing));
    assert_eq!((app.correct_answers, app.total_answers), (1, 1));
    app.handle_paste("ignored".to_string());
    assert_eq!(app.answer_input, "ground");
}

#[test]
fn logging_out_clears_the_session_owner() {
    let mut app = signed_in(vec![1], vec![]);
    assert!(matches!(app.handle_key(ch('t'), NOW), Effect::DeleteToken));
    app.token_deleted(Err("locked".to_string()));
    assert_eq!(app.error.as_deref(), Some("Could not delete saved token: locked"));
    app.token_deleted(Ok(()));
    assert_eq!(app.screen, Screen::Login);
    assert!(app.client.is_none() && app.summary.is_none());
    assert_eq!(app.status.as_deref(), Some("Logged out. Saved token removed."));
}

#[test]
fn labels_of_session_kinds() {
    assert_eq!(SessionMode::Lessons.label_lower(), "lessons");
    assert_eq!(SessionMode::Reviews.label_title(), "Reviews");
    assert_eq!(SessionMode::Lessons.singular_title(), "Lesson");
}

#[test]
fn escape_leaves_and_delete_clears_the_token() {
    let mut login = TuiApp::new(Some("abc".to_string()));
    login.handle_key(key(Key::Delete), NOW);
    assert_eq!(login.token_input, "");
    login.handle_key(key(Key::Esc), NOW);
    assert!(login.should_quit);

    let mut app = signed_in(vec![1], vec![]);
    app.handle_key(ch('l'), NOW);
    assert_eq!(app.screen, Screen::Limit(SessionMode::Lessons));
    app.handle_key(key(Key::Esc), NOW);
    assert_eq!(app.screen, Screen::Menu);
    assert!(!app.should_quit);
    app.handle_key(key(Key::Esc), NOW);
    assert_eq!(app.screen, Screen::Menu);
    assert!(!app.should_quit);

    app.screen = Screen::Done(SessionMode::Reviews);
    app.handle_key(key(Key::Esc), NOW);
    assert_eq!(app.screen, Screen::Menu);
    assert!(!app.should_quit);
    app.screen = Screen::Done(SessionMode::Lessons);
    app.handle_key(ch('q'), NOW);
    assert!(app.should_quit);
}
