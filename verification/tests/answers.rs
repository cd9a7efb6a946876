use wana_kana::ConvertJapanese;
use wanikani_tui::grading::{
    damerau_levenshtein, grade_meaning_answer, is_meaning_typo, matches_answer, AnswerGrade,
};
use wanikani_tui::kana::{is_hiragana_convertible, reading_as_hiragana};
use wanikani_tui::text::normalize_answer;

#[test]
fn meaning_matching_ignores_case_spaces_and_hyphens() {
    let accepted = vec!["All Things".to_string()];
    assert!(matches_answer("all-things", &accepted));
    assert!(matches_answer(" ALL THINGS ", &accepted));
}

#[test]
fn reading_matching_accepts_romaji_after_hiragana_conversion() {
    let accepted = vec!["\u{304c}\u{3063}\u{3053}\u{3046}".to_string()];
    let typed = "gakkou".to_hiragana();
    assert!(matches_answer(&typed, &accepted));
}

#[test]
fn meaning_grading_accepts_small_typos() {
    let accepted = vec!["angle".to_string(), "corner".to_string()];
    assert_eq!(grade_meaning_answer("angel", &accepted), AnswerGrade::Typo);
    assert_eq!(grade_meaning_answer("anglx", &accepted), AnswerGrade::Typo);
    assert_eq!(
        grade_meaning_answer("completely wrong", &accepted),
        AnswerGrade::Incorrect
    );
}

#[test]
fn normalization_trims_lowercases_and_drops_separators() {
    assert_eq!(normalize_answer("  Big_Red-Dog \t"), "bigreddog");
    assert_eq!(normalize_answer("ÄRGER"), "ärger");
    assert_eq!(normalize_answer("a\u{00a0}b\u{3000}c"), "abc");
    assert_eq!(normalize_answer(" - _ "), "");
}

#[test]
fn normalized_alike_answers_are_graded_alike() {
    let accepted = vec!["Ground Floor".to_string()];
    assert_eq!(grade_meaning_answer("ground-floor", &accepted), AnswerGrade::Correct);
    assert_eq!(grade_meaning_answer("GROUND_FLOOR", &accepted), AnswerGrade::Correct);
    assert_eq!(grade_meaning_answer("groundflor", &accepted), AnswerGrade::Typo);
    assert_eq!(grade_meaning_answer("ground flor", &accepted), AnswerGrade::Typo);
}

#[test]
fn empty_and_missing_answers_are_incorrect() {
    let accepted = vec!["one".to_string()];
    assert_eq!(grade_meaning_answer("   ", &accepted), AnswerGrade::Incorrect);
    assert_eq!(grade_meaning_answer("-", &accepted), AnswerGrade::Incorrect);
    assert_eq!(grade_meaning_answer("one", &[]), AnswerGrade::Incorrect);
    assert!(!matches_answer("one", &[]));
}

#[test]
fn exact_match_wins_over_typo_of_earlier_candidate() {
    let accepted = vec!["angel".to_string(), "angle".to_string()];
    assert_eq!(grade_meaning_answer("Angle", &accepted), AnswerGrade::Correct);
}

#[test]
fn acceptance_of_grades() {
    assert!(AnswerGrade::Correct.is_accepted());
    assert!(AnswerGrade::Typo.is_accepted());
    assert!(!AnswerGrade::Incorrect.is_accepted());
}

#[test]
fn optimal_string_alignment_distances() {
    assert_eq!(damerau_levenshtein("", ""), 0);
    assert_eq!(damerau_levenshtein("", "abc"), 3);
    assert_eq!(damerau_levenshtein("kitten", "sitting"), 3);
    assert_eq!(damerau_levenshtein("angle", "angel"), 1);
    assert_eq!(damerau_levenshtein("ca", "abc"), 3);
    assert_eq!(damerau_levenshtein("abc", "ca"), 3);
    assert_eq!(damerau_levenshtein("日本語", "日本"), 1);
    assert_eq!(damerau_levenshtein("same", "same"), 0);
}

#[test]
fn typo_tolerance_grows_with_length() {
    assert!(!is_meaning_typo("cat", "cot"));
    assert!(is_meaning_typo("word", "ward"));
    assert!(!is_meaning_typo("word", "wxyd"));
    assert!(is_meaning_typo("mountain", "muontian"));
    assert!(is_meaning_typo("mountains", "mountxins"));
    assert!(!is_meaning_typo("mountains", "mxuntxinx"));
    assert!(!is_meaning_typo("seven", "sevenxxx"));
}

#[test]
fn readings_are_converted_to_hiragana_after_trimming() {
    assert_eq!(reading_as_hiragana(" gakkou "), "\u{304c}\u{3063}\u{3053}\u{3046}");
    assert_eq!(reading_as_hiragana("\u{30ab}\u{30bf}"), "\u{304b}\u{305f}");
}

#[test]
fn stray_halfwidth_marks_are_refused_for_conversion() {
    assert!(is_hiragana_convertible("gakkou"));
    assert!(is_hiragana_convertible(""));
    assert!(is_hiragana_convertible("ｶﾞｯｺｳ"));
    assert!(is_hiragana_convertible("ﾊﾟﾝ"));
    assert!(!is_hiragana_convertible("\u{FF9E}"));
    assert!(!is_hiragana_convertible("ｶﾟ"));
    assert!(!is_hiragana_convertible("ｶﾞﾞ"));
    assert!(!is_hiragana_convertible("aﾞ"));
    assert!(is_hiragana_convertible("!ﾞ"));
    assert!(!is_hiragana_convertible("!aアﾞ"));
}

#[test]
fn ascii_case_is_ignored_in_normalization() {
    assert_eq!(normalize_answer("ALL Things"), normalize_answer("all things"));
    assert_eq!(normalize_answer("Mixed_CASE-Word"), "mixedcaseword");
}

#[test]
fn halfwidth_kana_take_their_marks() {
    assert_eq!(reading_as_hiragana("ｶﾞｯｺｳ"), "\u{304c}\u{3063}\u{3053}\u{3046}");
    assert_eq!(reading_as_hiragana("ﾊﾟﾝ"), "\u{3071}\u{3093}");
    assert!(!reading_as_hiragana("!\u{FF9E}").is_empty());
}
