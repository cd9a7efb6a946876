use wanikani_tui::app::{Feedback, FeedbackAction, Question, SessionMode, TuiApp};
use wanikani_tui::screen::{available_line, done_heading, limit_heading, progress};

fn feedback(correct: bool, typo_accepted: bool, question: Question) -> Feedback {
    Feedback {
        correct,
        typo_accepted,
        typed: "angel".to_string(),
        expected: vec!["angle".to_string(), "corner".to_string()],
        action: FeedbackAction::ContinueQuestion,
        question,
    }
}

#[test]
fn feedback_shows_the_answer_and_every_accepted_one() {
    let wrong = feedback(false, false, Question::Meaning);
    assert_eq!(wrong.heading(), "Incorrect");
    assert_eq!(
        wrong.body(),
        vec![
            "",
            "You typed: angel",
            "Correct answer: angle, corner",
            "",
            "a accepts your answer for this session.",
            "s adds it as a synonym and accepts it.",
            "Press Enter to continue.",
        ]
    );
    let wrong_reading = feedback(false, false, Question::Reading);
    assert_eq!(wrong_reading.body().len(), 5);
    assert_eq!(feedback(true, true, Question::Meaning).heading(), "Correct - typo accepted");
    let right = feedback(true, false, Question::Meaning);
    assert_eq!(right.heading(), "Correct");
    assert_eq!(right.body().last().map(String::as_str), Some("Press Enter to continue."));
}

#[test]
fn headings_and_counters() {
    assert_eq!(progress(SessionMode::Lessons, 2, 10), "Lesson 3/10");
    assert_eq!(progress(SessionMode::Reviews, 0, 1), "Review 1/1");
    assert_eq!(limit_heading(SessionMode::Lessons), "Start Lessons");
    assert_eq!(available_line(42), "Available: 42");
    assert_eq!(done_heading(SessionMode::Reviews), "Reviews complete");
    assert_eq!(Question::Meaning.title(), "Meaning");
    assert_eq!(Question::Reading.prompt(), "Type romaji; it appears as kana here. Press Enter to submit.");
}

#[test]
fn status_panel_prefers_errors_then_status() {
    let mut app = TuiApp::new(None);
    assert_eq!(app.status_line("hint"), ("hint", false));
    app.status = Some("saved".to_string());
    assert_eq!(app.status_line("hint"), ("saved", false));
    app.error = Some("broken".to_string());
    assert_eq!(app.status_line("hint"), ("broken", true));
}

#[test]
fn done_screen_reports_the_score() {
    let mut app = TuiApp::new(None);
    app.correct_answers = 3;
    app.total_answers = 4;
    assert_eq!(app.done_lines(), vec!["", "Answers: 3/4 correct", "", "Enter returns to menu. q quits."]);
    app.status = Some("Review submitted.".to_string());
    assert_eq!(
        app.done_lines(),
        vec!["", "Answers: 3/4 correct", "", "Review submitted.", "", "Enter returns to menu. q quits."]
    );
}

#[test]
fn readings_are_shown_as_kana_while_typed() {
    let mut app = TuiApp::new(None);
    app.answer_input = "gakkou".to_string();
    assert_eq!(app.answer_display(), "gakkou");
    app.question = Question::Reading;
    assert_eq!(app.answer_display(), "\u{304c}\u{3063}\u{3053}\u{3046}");
}

#[test]
fn the_token_is_masked_byte_by_byte() {
    let mut app = TuiApp::new(Some(" ab ".to_string()));
    assert_eq!(app.masked_token(), "****");
    assert_eq!(app.token_length_line(), "2 characters");
    app.token_input = "\u{e9}".to_string();
    assert_eq!(app.masked_token(), "**");
    assert_eq!(app.token_length_line(), "2 characters");
}
