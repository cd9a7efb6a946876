use wanikani_tui::client::{
    assignment_map, order_subjects, plan_synonym_write, prepare_synonym, AssignmentData, HttpMethod,
    StudyMaterialData, SynonymWrite, WaniKaniClient,
};
use wanikani_tui::subject::{ApiResource, SubjectData};

fn subject(id: u64) -> ApiResource<SubjectData> {
    ApiResource {
        id,
        object: "kanji".to_string(),
        data: SubjectData {
            characters: None,
            slug: format!("s{id}"),
            meanings: Vec::new(),
            readings: Vec::new(),
            meaning_mnemonic: None,
            reading_mnemonic: None,
        },
    }
}

#[test]
fn requests_are_signed_and_addressed() {
    let client = WaniKaniClient::new("abc".to_string());
    let user = client.user();
    assert_eq!(user.method, HttpMethod::Get);
    assert_eq!(user.url, "https://api.wanikani.com/v2/user");
    assert_eq!(user.authorization, "Bearer abc");
    assert_eq!(client.summary().url, "https://api.wanikani.com/v2/summary");
    let material = client.study_material_for_subject(42);
    assert_eq!(material.url, "https://api.wanikani.com/v2/study_materials?subject_ids=42");
    let start = client.start_assignment(7);
    assert_eq!(start.method, HttpMethod::Put);
    assert_eq!(start.url, "https://api.wanikani.com/v2/assignments/7/start");
    let review = client.create_review();
    assert_eq!(review.method, HttpMethod::Post);
    assert_eq!(review.url, "https://api.wanikani.com/v2/reviews");
    assert_eq!(client.update_study_material(9).url, "https://api.wanikani.com/v2/study_materials/9");
    assert_eq!(client.create_study_material().url, "https://api.wanikani.com/v2/study_materials");
}

#[test]
fn subject_requests_are_paged_by_a_hundred() {
    let client = WaniKaniClient::new("t".to_string());
    assert!(client.subjects(&[]).is_empty());
    let ids: Vec<u64> = (1..=150).collect();
    let pages = client.subjects(&ids);
    assert_eq!(pages.len(), 2);
    let first: Vec<String> = (1..=100).map(|id| id.to_string()).collect();
    assert_eq!(pages[0].url, format!("https://api.wanikani.com/v2/subjects?ids={}", first.join(",")));
    let second: Vec<String> = (101..=150).map(|id| id.to_string()).collect();
    assert_eq!(pages[1].url, format!("https://api.wanikani.com/v2/subjects?ids={}", second.join(",")));
    let assignments = client.assignments_for_subjects(&[3, 4]);
    assert_eq!(assignments.len(), 1);
    assert_eq!(assignments[0].url, "https://api.wanikani.com/v2/assignments?subject_ids=3,4");
    assert_eq!(client.subjects(&ids[..100]).len(), 1);
}

#[test]
fn subjects_are_put_in_requested_order() {
    let fetched = vec![subject(3), subject(9), subject(1), subject(2), subject(1)];
    let ordered = order_subjects(fetched, &[1, 2, 3]);
    let ids: Vec<u64> = ordered.iter().map(|s| s.id).collect();
    assert_eq!(ids, vec![1, 1, 2, 3, 9]);

    let repeated = order_subjects(vec![subject(5), subject(6)], &[6, 5, 6]);
    let ids: Vec<u64> = repeated.iter().map(|s| s.id).collect();
    assert_eq!(ids, vec![5, 6]);

    let unrequested = order_subjects(vec![subject(8), subject(7)], &[]);
    let ids: Vec<u64> = unrequested.iter().map(|s| s.id).collect();
    assert_eq!(ids, vec![8, 7]);
}

#[test]
fn later_assignments_of_a_subject_win() {
    let assignments = vec![
        ApiResource { id: 10, object: "assignment".to_string(), data: AssignmentData { subject_id: 1 } },
        ApiResource { id: 20, object: "assignment".to_string(), data: AssignmentData { subject_id: 2 } },
        ApiResource { id: 30, object: "assignment".to_string(), data: AssignmentData { subject_id: 1 } },
    ];
    let map = assignment_map(assignments);
    assert_eq!(map.len(), 2);
    assert_eq!(map.get(&1), Some(&30));
    assert_eq!(map.get(&2), Some(&20));
}

#[test]
fn synonyms_are_trimmed_and_not_empty() {
    assert_eq!(prepare_synonym("  big dog "), Ok("big dog".to_string()));
    assert_eq!(prepare_synonym(" \t "), Err("synonym cannot be empty".to_string()));
}

#[test]
fn synonym_writes_merge_without_duplicates() {
    let material = ApiResource {
        id: 77,
        object: "study_material".to_string(),
        data: StudyMaterialData { meaning_synonyms: vec!["Big Dog".to_string()] },
    };
    match plan_synonym_write(5, "big-dog".to_string(), Some(material)) {
        SynonymWrite::Update { material_id, synonyms } => {
            assert_eq!(material_id, 77);
            assert_eq!(synonyms, vec!["Big Dog".to_string()]);
        }
        SynonymWrite::Create { .. } => panic!("expected an update"),
    }
    let material = ApiResource {
        id: 78,
        object: "study_material".to_string(),
        data: StudyMaterialData { meaning_synonyms: vec!["hound".to_string()] },
    };
    match plan_synonym_write(5, "big dog".to_string(), Some(material)) {
        SynonymWrite::Update { material_id, synonyms } => {
            assert_eq!(material_id, 78);
            assert_eq!(synonyms, vec!["hound".to_string(), "big dog".to_string()]);
        }
        SynonymWrite::Create { .. } => panic!("expected an update"),
    }
    match plan_synonym_write(5, "pup".to_string(), None) {
        SynonymWrite::Create { subject_id, synonyms } => {
            assert_eq!(subject_id, 5);
            assert_eq!(synonyms, vec!["pup".to_string()]);
        }
        SynonymWrite::Update { .. } => panic!("expected a creation"),
    }
}
