use wanikani_tui::subject::{ApiResource, Meaning, Reading, SubjectData};

fn resource(object: &str, characters: Option<&str>, meanings: &[(&str, bool)], readings: &[(&str, bool)]) -> ApiResource<SubjectData> {
    ApiResource {
        id: 1,
        object: object.to_string(),
        data: SubjectData {
            characters: characters.map(|c| c.to_string()),
            slug: "slug".to_string(),
            meanings: meanings
                .iter()
                .map(|(m, a)| Meaning { meaning: m.to_string(), accepted_answer: *a })
                .collect(),
            readings: readings
                .iter()
                .map(|(r, a)| Reading { reading: r.to_string(), accepted_answer: *a })
                .collect(),
            meaning_mnemonic: None,
            reading_mnemonic: None,
        },
    }
}

#[test]
fn display_name_falls_back_to_slug() {
    assert_eq!(resource("kanji", Some("水"), &[], &[]).display_name(), "水");
    assert_eq!(resource("radical", Some(""), &[], &[]).display_name(), "slug");
    assert_eq!(resource("radical", None, &[], &[]).display_name(), "slug");
}

#[test]
fn kinds_have_labels() {
    assert_eq!(resource("radical", None, &[], &[]).kind_label(), "Radical");
    assert_eq!(resource("kanji", None, &[], &[]).kind_label(), "Kanji");
    assert_eq!(resource("vocabulary", None, &[], &[]).kind_label(), "Vocabulary");
    assert_eq!(resource("kana_vocabulary", None, &[], &[]).kind_label(), "Kana vocabulary");
    assert_eq!(resource("other", None, &[], &[]).kind_label(), "Subject");
}

#[test]
fn flagged_answers_are_preferred() {
    let subject = resource("kanji", None, &[("water", true), ("aqua", false), ("liquid", true)], &[("すい", false), ("みず", true)]);
    assert_eq!(subject.accepted_meanings(), vec!["water".to_string(), "liquid".to_string()]);
    assert_eq!(subject.accepted_readings(), vec!["みず".to_string()]);
    let unflagged = resource("kanji", None, &[("water", false), ("aqua", false)], &[("すい", false)]);
    assert_eq!(unflagged.accepted_meanings(), vec!["water".to_string(), "aqua".to_string()]);
    assert_eq!(unflagged.accepted_readings(), vec!["すい".to_string()]);
}

#[test]
fn only_kanji_and_vocabulary_with_readings_ask_for_them() {
    assert!(resource("kanji", None, &[], &[("みず", true)]).has_reading_question());
    assert!(resource("vocabulary", None, &[], &[("みず", false)]).has_reading_question());
    assert!(!resource("kanji", None, &[], &[]).has_reading_question());
    assert!(!resource("radical", None, &[], &[("x", true)]).has_reading_question());
    assert!(!resource("kana_vocabulary", None, &[], &[("x", true)]).has_reading_question());
}
