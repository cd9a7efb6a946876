//! Subjects (radicals, kanji and vocabulary) as the study sessions read them.
use vstd::prelude::*;
use crate::text::texts;

verus! {

/// A resource as the WaniKani API wraps it: its id, its object kind and its
/// data.
pub struct ApiResource<T> {
    pub id: u64,
    pub object: String,
    pub data: T,
}

/// One meaning of a subject.
pub struct Meaning {
    pub meaning: String,
    pub accepted_answer: bool,
}

/// One reading of a subject.
pub struct Reading {
    pub reading: String,
    pub accepted_answer: bool,
}

/// The data of a subject that the sessions show and grade against.
pub struct SubjectData {
    pub characters: Option<String>,
    pub slug: String,
    pub meanings: Vec<Meaning>,
    pub readings: Vec<Reading>,
    pub meaning_mnemonic: Option<String>,
    pub reading_mnemonic: Option<String>,
}

/// The texts of all meanings, in order.
pub open spec fn meaning_texts(meanings: Seq<Meaning>) -> Seq<Seq<char>>
    decreases meanings.len(),
{
    if meanings.len() == 0 {
        Seq::empty()
    } else {
        meaning_texts(meanings.drop_last()).push(meanings.last().meaning@)
    }
}

/// The texts of all readings, in order.
pub open spec fn reading_texts(readings: Seq<Reading>) -> Seq<Seq<char>>
    decreases readings.len(),
{
    if readings.len() == 0 {
        Seq::empty()
    } else {
        reading_texts(readings.drop_last()).push(readings.last().reading@)
    }
}

/// The texts of the meanings flagged as accepted answers, in order.
pub open spec fn flagged_meanings(meanings: Seq<Meaning>) -> Seq<Seq<char>>
    decreases meanings.len(),
{
    if meanings.len() == 0 {
        Seq::empty()
    } else if meanings.last().accepted_answer {
        flagged_meanings(meanings.drop_last()).push(meanings.last().meaning@)
    } else {
        flagged_meanings(meanings.drop_last())
    }
}

/// The texts of the readings flagged as accepted answers, in order.
pub open spec fn flagged_readings(readings: Seq<Reading>) -> Seq<Seq<char>>
    decreases readings.len(),
{
    if readings.len() == 0 {
        Seq::empty()
    } else if readings.last().accepted_answer {
        flagged_readings(readings.drop_last()).push(readings.last().reading@)
    } else {
        flagged_readings(readings.drop_last())
    }
}

/// The meanings a subject accepts: those flagged as accepted answers, or all
/// of them when none is flagged.
pub open spec fn accepted_meaning_texts(meanings: Seq<Meaning>) -> Seq<Seq<char>> {
    if flagged_meanings(meanings).len() == 0 {
        meaning_texts(meanings)
    } else {
        flagged_meanings(meanings)
    }
}

/// The readings a subject accepts: those flagged as accepted answers, or all
/// of them when none is flagged.
pub open spec fn accepted_reading_texts(readings: Seq<Reading>) -> Seq<Seq<char>> {
    if flagged_readings(readings).len() == 0 {
        reading_texts(readings)
    } else {
        flagged_readings(readings)
    }
}

/// Whether `s` spells `word`.
pub fn text_is(s: &str, word: &str) -> (same: bool)
    ensures
        same == (s@ == word@),
{
    String::from_str(s) == String::from_str(word)
}

/// The name under which a subject is shown: its characters, or its slug when
/// it has none.
pub open spec fn display_text(data: SubjectData) -> Seq<char> {
    match data.characters {
        Some(c) => if c@.len() > 0 { c@ } else { data.slug@ },
        None => data.slug@,
    }
}

/// The label shown for each object kind.
pub open spec fn kind_text(object: Seq<char>) -> Seq<char> {
    if object == "radical"@ {
        "Radical"@
    } else if object == "kanji"@ {
        "Kanji"@
    } else if object == "vocabulary"@ {
        "Vocabulary"@
    } else if object == "kana_vocabulary"@ {
        "Kana vocabulary"@
    } else {
        "Subject"@
    }
}

/// Kanji and vocabulary with an accepted reading are quizzed on that reading.
pub open spec fn asks_reading(object: Seq<char>, data: SubjectData) -> bool {
    (object == "kanji"@ || object == "vocabulary"@) && accepted_reading_texts(data.readings@).len() > 0
}

impl ApiResource<SubjectData> {
    /// The subject's characters, or its slug when it has none.
    pub fn display_name(&self) -> (name: String)
        ensures
            name@ == display_text(self.data),
    {
        match &self.data.characters {
            Some(characters) => {
                if characters.as_str().is_empty() {
                    self.data.slug.clone()
                } else {
                    characters.clone()
                }
            },
            None => self.data.slug.clone(),
        }
    }

    /// A readable label for the subject's kind.
    pub fn kind_label(&self) -> (label: &str)
        ensures
            label@ == kind_text(self.object@),
    {
        let object = self.object.as_str();
        if text_is(object, "radical") {
            "Radical"
        } else if text_is(object, "kanji") {
            "Kanji"
        } else if text_is(object, "vocabulary") {
            "Vocabulary"
        } else if text_is(object, "kana_vocabulary") {
            "Kana vocabulary"
        } else {
            "Subject"
        }
    }

    /// The meanings accepted as answers (see `accepted_meaning_texts`).
    pub fn accepted_meanings(&self) -> (accepted: Vec<String>)
        ensures
            texts(accepted@) == accepted_meaning_texts(self.data.meanings@),
    {
        let meanings = &self.data.meanings;
        let mut flagged: Vec<String> = Vec::new();
        let mut all: Vec<String> = Vec::new();
        let mut i: usize = 0;
        while i < meanings.len()
            invariant
                i <= meanings@.len(),
                texts(flagged@) == flagged_meanings(meanings@.take(i as int)),
                texts(all@) == meaning_texts(meanings@.take(i as int)),
            decreases meanings@.len() - i,
        {
            let ghost before = meanings@.take(i as int);
            assert(meanings@.take(i + 1).drop_last() == before);
            let ghost flagged_before = flagged@;
            if meanings[i].accepted_answer {
                flagged.push(meanings[i].meaning.clone());
                assert(flagged@.drop_last() == flagged_before);
            }
            let ghost all_before = all@;
            let text = meanings[i].meaning.clone();
            all.push(text);
            i += 1;
            assert(all@.drop_last() == all_before);
        }
        assert(meanings@.take(meanings@.len() as int) == meanings@);
        if flagged.len() == 0 {
            all
        } else {
            flagged
        }
    }

    /// The readings accepted as answers (see `accepted_reading_texts`).
    pub fn accepted_readings(&self) -> (accepted: Vec<String>)
        ensures
            texts(accepted@) == accepted_reading_texts(self.data.readings@),
    {
        let readings = &self.data.readings;
        let mut flagged: Vec<String> = Vec::new();
        let mut all: Vec<String> = Vec::new();
        let mut i: usize = 0;
        while i < readings.len()
            invariant
                i <= readings@.len(),
                texts(flagged@) == flagged_readings(readings@.take(i as int)),
                texts(all@) == reading_texts(readings@.take(i as int)),
            decreases readings@.len() - i,
        {
            let ghost before = readings@.take(i as int);
            assert(readings@.take(i + 1).drop_last() == before);
            let ghost flagged_before = flagged@;
            if readings[i].accepted_answer {
                flagged.push(readings[i].reading.clone());
                assert(flagged@.drop_last() == flagged_before);
            }
            let ghost all_before = all@;
            let text = readings[i].reading.clone();
            all.push(text);
            i += 1;
            assert(all@.drop_last() == all_before);
        }
        assert(readings@.take(readings@.len() as int) == readings@);
        if flagged.len() == 0 {
            all
        } else {
            flagged
        }
    }

    /// Whether the subject is also quizzed on its reading.
    pub fn has_reading_question(&self) -> (asks: bool)
        ensures
            asks == asks_reading(self.object@, self.data),
    {
        let object = self.object.as_str();
        (text_is(object, "kanji") || text_is(object, "vocabulary")) && self.accepted_readings().len() > 0
    }
}

} // verus!
