//! Grading of typed answers: normalised matching, the optimal string
//! alignment (restricted Damerau-Levenshtein) distance, and typo tolerance.
use vstd::prelude::*;
use crate::text::{
    ascii_lowered, char_count, chars_of, is_ascii_text, lemma_ascii_case_normalizes_alike, lemma_texts_index,
    normalize_answer, normalized, texts,
};

verus! {

/// The cost of aligning `x` with `y`: nothing when they are equal.
pub open spec fn substitution_cost(x: char, y: char) -> nat {
    if x == y { 0 } else { 1 }
}

pub open spec fn min_nat(x: nat, y: nat) -> nat {
    if x <= y { x } else { y }
}

pub open spec fn max_nat(x: nat, y: nat) -> nat {
    if x >= y { x } else { y }
}

/// The optimal string alignment distance between the first `i` characters of
/// `a` and the first `j` characters of `b`: the fewest insertions, deletions,
/// substitutions and transpositions of adjacent characters, no substring
/// being edited twice.
pub open spec fn osa(a: Seq<char>, b: Seq<char>, i: nat, j: nat) -> nat
    decreases i + j,
{
    if i == 0 {
        j
    } else if j == 0 {
        i
    } else {
        let edit = min_nat(
            min_nat(osa(a, b, (i - 1) as nat, j) + 1, osa(a, b, i, (j - 1) as nat) + 1),
            osa(a, b, (i - 1) as nat, (j - 1) as nat) + substitution_cost(a[i - 1], b[j - 1]),
        );
        if i > 1 && j > 1 && a[i - 1] == b[j - 2] && a[i - 2] == b[j - 1] {
            min_nat(edit, osa(a, b, (i - 2) as nat, (j - 2) as nat) + 1)
        } else {
            edit
        }
    }
}

/// The optimal string alignment distance between `a` and `b`.
pub open spec fn edit_distance(a: Seq<char>, b: Seq<char>) -> nat {
    osa(a, b, a.len(), b.len())
}

/// The distance of prefixes never exceeds the longer prefix.
pub proof fn lemma_osa_at_most_longer(a: Seq<char>, b: Seq<char>, i: nat, j: nat)
    ensures
        osa(a, b, i, j) <= max_nat(i, j),
    decreases i + j,
{
    if i > 0 && j > 0 {
        lemma_osa_at_most_longer(a, b, (i - 1) as nat, (j - 1) as nat);
    }
}


/// Every string is at distance zero from itself.
pub proof fn lemma_edit_distance_to_itself(a: Seq<char>)
    ensures
        edit_distance(a, a) == 0,
{
    lemma_osa_diagonal_zero(a, a.len());
}

proof fn lemma_osa_diagonal_zero(a: Seq<char>, i: nat)
    ensures
        osa(a, a, i, i) == 0,
    decreases i,
{
    if i > 0 {
        lemma_osa_diagonal_zero(a, (i - 1) as nat);
    }
}

/// The distance is symmetric: aligning `a` with `b` costs what aligning `b`
/// with `a` costs.
pub proof fn lemma_edit_distance_symmetric(a: Seq<char>, b: Seq<char>)
    ensures
        edit_distance(a, b) == edit_distance(b, a),
{
    lemma_osa_symmetric(a, b, a.len(), b.len());
}

proof fn lemma_osa_symmetric(a: Seq<char>, b: Seq<char>, i: nat, j: nat)
    ensures
        osa(a, b, i, j) == osa(b, a, j, i),
    decreases i + j,
{
    if i > 0 && j > 0 {
        lemma_osa_symmetric(a, b, (i - 1) as nat, j);
        lemma_osa_symmetric(a, b, i, (j - 1) as nat);
        lemma_osa_symmetric(a, b, (i - 1) as nat, (j - 1) as nat);
        if i > 1 && j > 1 {
            lemma_osa_symmetric(a, b, (i - 2) as nat, (j - 2) as nat);
        }
    }
}

/// Only equal strings are at distance zero.
pub proof fn lemma_edit_distance_zero_iff_equal(a: Seq<char>, b: Seq<char>)
    ensures
        edit_distance(a, b) == 0 <==> a == b,
{
    lemma_edit_distance_to_itself(a);
    if edit_distance(a, b) == 0 {
        lemma_osa_zero_prefixes_equal(a, b, a.len(), b.len());
        assert(a.take(a.len() as int) == a);
        assert(b.take(b.len() as int) == b);
    }
}

proof fn lemma_osa_zero_prefixes_equal(a: Seq<char>, b: Seq<char>, i: nat, j: nat)
    requires
        i <= a.len(),
        j <= b.len(),
        osa(a, b, i, j) == 0,
    ensures
        i == j,
        a.take(i as int) == b.take(j as int),
    decreases i + j,
{
    if i > 0 && j > 0 {
        lemma_osa_zero_prefixes_equal(a, b, (i - 1) as nat, (j - 1) as nat);
        assert(a.take(i as int) == a.take(i - 1).push(a[i - 1]));
        assert(b.take(j as int) == b.take(j - 1).push(b[j - 1]));
    }
}

/// The distance is at least the difference of the lengths and at most the
/// longer length.
pub proof fn lemma_edit_distance_bounds(a: Seq<char>, b: Seq<char>)
    ensures
        a.len() <= b.len() ==> b.len() - a.len() <= edit_distance(a, b),
        b.len() <= a.len() ==> a.len() - b.len() <= edit_distance(a, b),
        edit_distance(a, b) <= max_nat(a.len(), b.len()),
{
    lemma_osa_at_least_length_gap(a, b, a.len(), b.len());
    lemma_osa_at_most_longer(a, b, a.len(), b.len());
}

proof fn lemma_osa_at_least_length_gap(a: Seq<char>, b: Seq<char>, i: nat, j: nat)
    ensures
        i <= j ==> j - i <= osa(a, b, i, j),
        j <= i ==> i - j <= osa(a, b, i, j),
    decreases i + j,
{
    if i > 0 && j > 0 {
        lemma_osa_at_least_length_gap(a, b, (i - 1) as nat, j);
        lemma_osa_at_least_length_gap(a, b, i, (j - 1) as nat);
        lemma_osa_at_least_length_gap(a, b, (i - 1) as nat, (j - 1) as nat);
        if i > 1 && j > 1 {
            lemma_osa_at_least_length_gap(a, b, (i - 2) as nat, (j - 2) as nat);
        }
    }
}

/// One row of the distance table: entry `c` is the distance between the
/// first `r` characters of `a` and the first `c` characters of `b`.
pub open spec fn is_distance_row(row: Seq<usize>, a: Seq<char>, b: Seq<char>, r: nat, width: nat) -> bool {
    &&& row.len() == width
    &&& forall|c: int| 0 <= c < width ==> #[trigger] row[c] == osa(a, b, r, c as nat)
}

/// The optimal string alignment distance between `left` and `right`,
/// counted in characters.
pub fn damerau_levenshtein(left: &str, right: &str) -> (distance: usize)
    ensures
        distance == edit_distance(left@, right@),
{
    let n = char_count(left);
    let m = char_count(right);
    let a = chars_of(left);
    let b = chars_of(right);
    let ghost sa = a@;
    let ghost sb = b@;

    let mut first: Vec<usize> = Vec::new();
    let mut j: usize = 0;
    while j <= m
        invariant
            j <= m + 1,
            m <= isize::MAX,
            first@.len() == j,
            forall|c: int| 0 <= c < j ==> #[trigger] first@[c] == osa(sa, sb, 0, c as nat),
        decreases m + 1 - j,
    {
        first.push(j);
        j += 1;
    }

    let mut table: Vec<Vec<usize>> = Vec::new();
    table.push(first);
    let mut i: usize = 1;
    while i <= n
        invariant
            1 <= i <= n + 1,
            n <= isize::MAX,
            m <= isize::MAX,
            a@ == sa,
            b@ == sb,
            sa.len() == n,
            sb.len() == m,
            table@.len() == i,
            forall|r: int| 0 <= r < i ==> is_distance_row(#[trigger] table@[r]@, sa, sb, r as nat, (m + 1) as nat),
        decreases n + 1 - i,
    {
        let mut row: Vec<usize> = Vec::new();
        row.push(i);
        let mut j: usize = 1;
        while j <= m
            invariant
                1 <= i <= n,
                1 <= j <= m + 1,
                n <= isize::MAX,
                m <= isize::MAX,
                a@ == sa,
                b@ == sb,
                sa.len() == n,
                sb.len() == m,
                table@.len() == i,
                forall|r: int| 0 <= r < i ==> is_distance_row(#[trigger] table@[r]@, sa, sb, r as nat, (m + 1) as nat),
                row@.len() == j,
                forall|c: int| 0 <= c < j ==> #[trigger] row@[c] == osa(sa, sb, i as nat, c as nat),
            decreases m + 1 - j,
        {
            assert(is_distance_row(table@[i - 1]@, sa, sb, (i - 1) as nat, (m + 1) as nat));
            proof {
                lemma_osa_at_most_longer(sa, sb, (i - 1) as nat, j as nat);
                lemma_osa_at_most_longer(sa, sb, i as nat, (j - 1) as nat);
                lemma_osa_at_most_longer(sa, sb, (i - 1) as nat, (j - 1) as nat);
            }
            let cost: usize = if a[i - 1] != b[j - 1] { 1 } else { 0 };
            let deletion = table[i - 1][j] + 1;
            let insertion = row[j - 1] + 1;
            let substitution = table[i - 1][j - 1] + cost;
            let mut distance = if deletion <= insertion { deletion } else { insertion };
            if substitution < distance {
                distance = substitution;
            }
            if i > 1 && j > 1 && a[i - 1] == b[j - 2] && a[i - 2] == b[j - 1] {
                assert(is_distance_row(table@[i - 2]@, sa, sb, (i - 2) as nat, (m + 1) as nat));
                proof {
                    lemma_osa_at_most_longer(sa, sb, (i - 2) as nat, (j - 2) as nat);
                }
                let transposition = table[i - 2][j - 2] + 1;
                if transposition < distance {
                    distance = transposition;
                }
            }
            row.push(distance);
            j += 1;
        }
        table.push(row);
        i += 1;
    }
    assert(is_distance_row(table@[n as int]@, sa, sb, n as nat, (m + 1) as nat));
    table[n][m]
}


/// How many edits a typo may make: one, or two once both answers have at
/// least eight characters.
pub open spec fn typo_allowance(shorter: nat) -> nat {
    if shorter >= 8 { 2 } else { 1 }
}

/// `answer` is a typo of `candidate`: both have at least four characters and
/// they are within the typo allowance of each other.
pub open spec fn is_typo_of(answer: Seq<char>, candidate: Seq<char>) -> bool {
    let shorter = min_nat(answer.len(), candidate.len());
    shorter >= 4 && edit_distance(answer, candidate) <= typo_allowance(shorter)
}

/// Whether `answer` is close enough to `candidate` to count as a typo.
pub fn is_meaning_typo(answer: &str, candidate: &str) -> (typo: bool)
    ensures
        typo == is_typo_of(answer@, candidate@),
{
    let answer_len = char_count(answer);
    let candidate_len = char_count(candidate);
    let min_len = if answer_len <= candidate_len { answer_len } else { candidate_len };
    if min_len < 4 {
        return false;
    }
    let distance = damerau_levenshtein(answer, candidate);
    let threshold: usize = if min_len >= 8 { 2 } else { 1 };
    distance <= threshold
}

/// Some accepted answer normalises to the same text as `answer`.
pub open spec fn matches_some(answer: Seq<char>, accepted: Seq<Seq<char>>) -> bool {
    exists|i: int| 0 <= i < accepted.len() && #[trigger] normalized(accepted[i]) == normalized(answer)
}

/// Some accepted answer, normalised, is a typo away from `normalized_answer`.
pub open spec fn typo_of_some(normalized_answer: Seq<char>, accepted: Seq<Seq<char>>) -> bool {
    exists|i: int| 0 <= i < accepted.len() && is_typo_of(normalized_answer, #[trigger] normalized(accepted[i]))
}

/// Whether the answer equals one of the accepted answers once both are
/// normalised.
pub fn matches_answer(answer: &str, accepted_answers: &[String]) -> (matched: bool)
    ensures
        matched == matches_some(answer@, texts(accepted_answers@)),
{
    proof {
        lemma_texts_index(accepted_answers@);
    }
    let normalized_answer = normalize_answer(answer);
    let mut i: usize = 0;
    while i < accepted_answers.len()
        invariant
            i <= accepted_answers@.len(),
            texts(accepted_answers@).len() == accepted_answers@.len(),
            forall|k: int| 0 <= k < accepted_answers@.len() ==> #[trigger] texts(accepted_answers@)[k] == accepted_answers@[k]@,
            normalized_answer@ == normalized(answer@),
            forall|k: int| 0 <= k < i ==> normalized(#[trigger] texts(accepted_answers@)[k]) != normalized(answer@),
        decreases accepted_answers@.len() - i,
    {
        let candidate = normalize_answer(accepted_answers[i].as_str());
        if candidate == normalized_answer {
            assert(normalized(texts(accepted_answers@)[i as int]) == normalized(answer@));
            return true;
        }
        i += 1;
    }
    false
}

/// The verdict on a typed meaning.
#[derive(Debug, Clone, Copy, PartialEq, Eq, Structural)]
pub enum AnswerGrade {
    Correct,
    Typo,
    Incorrect,
}

impl AnswerGrade {
    /// Correct answers and typos are both accepted.
    pub fn is_accepted(self) -> (accepted: bool)
        ensures
            accepted == (self != AnswerGrade::Incorrect),
    {
        match self {
            AnswerGrade::Correct | AnswerGrade::Typo => true,
            AnswerGrade::Incorrect => false,
        }
    }
}

/// The grade of a meaning answer against the accepted meanings: incorrect when
/// it normalises to nothing, correct when it matches an accepted meaning, a
/// typo when it is within the typo allowance of one, otherwise incorrect.
pub open spec fn meaning_grade(answer: Seq<char>, accepted: Seq<Seq<char>>) -> AnswerGrade {
    if normalized(answer).len() == 0 {
        AnswerGrade::Incorrect
    } else if matches_some(answer, accepted) {
        AnswerGrade::Correct
    } else if typo_of_some(normalized(answer), accepted) {
        AnswerGrade::Typo
    } else {
        AnswerGrade::Incorrect
    }
}

/// Grades a typed meaning (see `meaning_grade`).
pub fn grade_meaning_answer(answer: &str, accepted_answers: &[String]) -> (grade: AnswerGrade)
    ensures
        grade == meaning_grade(answer@, texts(accepted_answers@)),
{
    proof {
        lemma_texts_index(accepted_answers@);
    }
    let normalized_answer = normalize_answer(answer);
    if normalized_answer.as_str().is_empty() {
        return AnswerGrade::Incorrect;
    }
    let mut typo_match = false;
    let mut i: usize = 0;
    while i < accepted_answers.len()
        invariant
            i <= accepted_answers@.len(),
            texts(accepted_answers@).len() == accepted_answers@.len(),
            forall|k: int| 0 <= k < accepted_answers@.len() ==> #[trigger] texts(accepted_answers@)[k] == accepted_answers@[k]@,
            normalized_answer@ == normalized(answer@),
            normalized(answer@).len() > 0,
            forall|k: int| 0 <= k < i ==> normalized(#[trigger] texts(accepted_answers@)[k]) != normalized(answer@),
            typo_match == exists|k: int| 0 <= k < i && is_typo_of(normalized(answer@), #[trigger] normalized(texts(accepted_answers@)[k])),
        decreases accepted_answers@.len() - i,
    {
        let candidate = normalize_answer(accepted_answers[i].as_str());
        if candidate == normalized_answer {
            assert(normalized(texts(accepted_answers@)[i as int]) == normalized(answer@));
            return AnswerGrade::Correct;
        }
        let ghost previous = typo_match;
        let typo_here = is_meaning_typo(normalized_answer.as_str(), candidate.as_str());
        if typo_here {
            typo_match = true;
        }
        proof {
            let here = texts(accepted_answers@)[i as int];
            assert(typo_here == is_typo_of(normalized(answer@), normalized(here)));
            if typo_match && !previous {
                assert(is_typo_of(normalized(answer@), normalized(texts(accepted_answers@)[i as int])));
            }
            if !typo_match {
                assert forall|k: int| 0 <= k < i + 1 implies !is_typo_of(normalized(answer@), #[trigger] normalized(texts(accepted_answers@)[k])) by {
                    if k == i {
                    } else {
                        assert(!(0 <= k < i && is_typo_of(normalized(answer@), normalized(texts(accepted_answers@)[k]))));
                    }
                }
            }
        }
        i += 1;
    }
    if typo_match {
        AnswerGrade::Typo
    } else {
        AnswerGrade::Incorrect
    }
}


/// Answers that normalise alike (differing only in case, surrounding or
/// inner whitespace, hyphens and underscores) are matched and graded alike.
pub proof fn lemma_grading_sees_only_normalized_answer(a: Seq<char>, b: Seq<char>, accepted: Seq<Seq<char>>)
    requires
        normalized(a) == normalized(b),
    ensures
        matches_some(a, accepted) == matches_some(b, accepted),
        meaning_grade(a, accepted) == meaning_grade(b, accepted),
{
}

/// ASCII answers that differ only in the case of their letters are matched
/// and graded alike.
pub proof fn lemma_ascii_case_is_ignored(a: Seq<char>, b: Seq<char>, accepted: Seq<Seq<char>>)
    requires
        is_ascii_text(a),
        is_ascii_text(b),
        ascii_lowered(a) == ascii_lowered(b),
    ensures
        matches_some(a, accepted) == matches_some(b, accepted),
        meaning_grade(a, accepted) == meaning_grade(b, accepted),
{
    lemma_ascii_case_normalizes_alike(a, b);
}

/// A meaning that matches no accepted meaning exactly is a typo when it is
/// close to any one of them, wherever that one stands in the list: both
/// normalised forms have at least four characters and lie within one edit of
/// each other, or two once both have at least eight.
pub proof fn lemma_close_to_any_accepted_is_typo(answer: Seq<char>, accepted: Seq<Seq<char>>, i: int)
    requires
        0 <= i < accepted.len(),
        forall|k: int| 0 <= k < accepted.len() ==> normalized(#[trigger] accepted[k]) != normalized(answer),
        normalized(answer).len() >= 4,
        normalized(accepted[i]).len() >= 4,
        edit_distance(normalized(answer), normalized(accepted[i])) <= 1
            || (normalized(answer).len() >= 8 && normalized(accepted[i]).len() >= 8
                && edit_distance(normalized(answer), normalized(accepted[i])) <= 2),
    ensures
        meaning_grade(answer, accepted) == AnswerGrade::Typo,
{
    assert(is_typo_of(normalized(answer), normalized(accepted[i])));
    assert(!matches_some(answer, accepted));
}

/// An answer that normalises to an accepted meaning, and to something, is
/// correct; never a typo or wrong.
pub proof fn lemma_accepted_meaning_is_correct(answer: Seq<char>, accepted: Seq<Seq<char>>, i: int)
    requires
        0 <= i < accepted.len(),
        normalized(accepted[i]) == normalized(answer),
        normalized(answer).len() > 0,
    ensures
        meaning_grade(answer, accepted) == AnswerGrade::Correct,
{
}

/// A typo matches no accepted meaning exactly, and lies within two edits of
/// one of at least four characters.
pub proof fn lemma_typo_is_close_to_accepted(answer: Seq<char>, accepted: Seq<Seq<char>>)
    requires
        meaning_grade(answer, accepted) == AnswerGrade::Typo,
    ensures
        !matches_some(answer, accepted),
        exists|i: int| #![trigger accepted[i]]
            0 <= i < accepted.len()
            && normalized(accepted[i]).len() >= 4
            && normalized(answer).len() >= 4
            && edit_distance(normalized(answer), normalized(accepted[i])) <= 2,
{
    let i = choose|i: int| 0 <= i < accepted.len() && is_typo_of(normalized(answer), #[trigger] normalized(accepted[i]));
    assert(0 <= i < accepted.len() && normalized(accepted[i]).len() >= 4);
}

/// Answers shorter than four characters are never typos.
pub proof fn lemma_short_answers_are_not_typos(answer: Seq<char>, candidate: Seq<char>)
    requires
        answer.len() < 4 || candidate.len() < 4,
    ensures
        !is_typo_of(answer, candidate),
{
}

} // verus!
