//! The requests the client sends to the WaniKani API, and the decisions taken
//! on what it answers.
use vstd::prelude::*;
use std::collections::HashMap;
use crate::grading::{matches_answer, matches_some};
use crate::text::normalized;
use crate::subject::{ApiResource, SubjectData};
use crate::text::{decimal, decimals, join_ids, joined, push_text, texts, trim, trimmed, u64_to_string};

verus! {

broadcast use vstd::std_specs::hash::group_hash_axioms;

/// The root of the WaniKani API, version 2.
pub const API_BASE: &'static str = "https://api.wanikani.com/v2";

/// The API revision every request asks for.
pub const API_REVISION: &'static str = "20170710";

/// How many ids one paged request names at most.
pub const PAGE_SIZE: usize = 100;

#[derive(Debug, Clone, Copy, PartialEq, Eq, Structural)]
pub enum HttpMethod {
    Get,
    Put,
    Post,
}

/// A request to the API: its method, its URL and the value of its
/// `Authorization` header.
pub struct ApiRequest {
    pub method: HttpMethod,
    pub url: String,
    pub authorization: String,
}

/// A client that signs its requests with an API token.
pub struct WaniKaniClient {
    pub token: String,
}

/// The full URL of an API path.
pub open spec fn endpoint(path: Seq<char>) -> Seq<char> {
    API_BASE@ + path
}

/// The `Authorization` header value for a token.
pub open spec fn bearer(token: Seq<char>) -> Seq<char> {
    "Bearer "@ + token
}

/// `request` is a request with `method` for `url`, signed with `token`.
pub open spec fn is_request(request: ApiRequest, method: HttpMethod, url: Seq<char>, token: Seq<char>) -> bool {
    &&& request.method == method
    &&& request.url@ == url
    &&& request.authorization@ == bearer(token)
}

/// The ids split into pages of at most a hundred, in order.
pub open spec fn id_pages(ids: Seq<u64>) -> Seq<Seq<u64>>
    decreases ids.len(),
{
    if ids.len() == 0 {
        Seq::empty()
    } else {
        let size: int = if ids.len() < 100 { ids.len() as int } else { 100 };
        seq![ids.take(size)] + id_pages(ids.skip(size))
    }
}

/// The URL that asks `path` for one page of ids.
pub open spec fn page_url(path: Seq<char>, page: Seq<u64>) -> Seq<char> {
    endpoint(path) + joined(decimals(page), ","@)
}

/// `requests` are GET requests, signed with `token`, one per page of `ids`.
pub open spec fn are_page_requests(requests: Seq<ApiRequest>, path: Seq<char>, ids: Seq<u64>, token: Seq<char>) -> bool {
    &&& requests.len() == id_pages(ids).len()
    &&& forall|k: int| 0 <= k < requests.len() ==>
        is_request(#[trigger] requests[k], HttpMethod::Get, page_url(path, id_pages(ids)[k]), token)
}

impl WaniKaniClient {
    /// A client for the given token.
    pub fn new(token: String) -> (client: Self)
        ensures
            client.token == token,
    {
        WaniKaniClient { token }
    }

    /// A request with `method` for the API path `path`.
    fn request(&self, method: HttpMethod, path: &str) -> (request: ApiRequest)
        ensures
            is_request(request, method, endpoint(path@), self.token@),
    {
        let mut url = String::from_str(API_BASE);
        push_text(&mut url, path);
        let mut authorization = String::from_str("Bearer ");
        push_text(&mut authorization, self.token.as_str());
        ApiRequest { method, url, authorization }
    }

    /// The request for the signed-in user.
    pub fn user(&self) -> (request: ApiRequest)
        ensures
            is_request(request, HttpMethod::Get, endpoint("/user"@), self.token@),
    {
        self.request(HttpMethod::Get, "/user")
    }

    /// The request for the study summary.
    pub fn summary(&self) -> (request: ApiRequest)
        ensures
            is_request(request, HttpMethod::Get, endpoint("/summary"@), self.token@),
    {
        self.request(HttpMethod::Get, "/summary")
    }

    /// One GET request per page of ids, each naming its page after `path`.
    fn paged(&self, path: &str, ids: &[u64]) -> (requests: Vec<ApiRequest>)
        ensures
            are_page_requests(requests@, path@, ids@, self.token@),
    {
        let mut requests: Vec<ApiRequest> = Vec::new();
        let ghost mut done: Seq<Seq<u64>> = Seq::empty();
        let mut start: usize = 0;
        assert(ids@.skip(0) == ids@);
        while start < ids.len()
            invariant
                start <= ids@.len(),
                id_pages(ids@) == done + id_pages(ids@.skip(start as int)),
                requests@.len() == done.len(),
                forall|k: int| 0 <= k < requests@.len() ==>
                    is_request(#[trigger] requests@[k], HttpMethod::Get, page_url(path@, done[k]), self.token@),
            decreases ids@.len() - start,
        {
            let end: usize = if ids.len() - start < PAGE_SIZE { ids.len() } else { start + PAGE_SIZE };
            let mut page: Vec<u64> = Vec::new();
            let mut i: usize = start;
            while i < end
                invariant
                    start <= i <= end,
                    end <= ids@.len(),
                    page@ == ids@.subrange(start as int, i as int),
                decreases end - i,
            {
                page.push(ids[i]);
                i += 1;
            }
            let mut url = String::from_str(API_BASE);
            push_text(&mut url, path);
            let numerals = join_ids(page.as_slice());
            push_text(&mut url, numerals.as_str());
            let mut authorization = String::from_str("Bearer ");
            push_text(&mut authorization, self.token.as_str());
            proof {
                let rest = ids@.skip(start as int);
                let size: int = end - start;
                assert(rest.take(size) == page@);
                assert(rest.skip(size) == ids@.skip(end as int));
                assert(id_pages(rest) == seq![page@] + id_pages(ids@.skip(end as int)));
                assert(done + id_pages(rest) == done.push(page@) + id_pages(ids@.skip(end as int)));
                done = done.push(page@);
            }
            requests.push(ApiRequest { method: HttpMethod::Get, url, authorization });
            start = end;
        }
        assert(ids@.skip(ids@.len() as int) == Seq::<u64>::empty());
        assert(done + Seq::<Seq<u64>>::empty() == done);
        requests
    }

    /// The requests for the subjects with the given ids, a page at a time.
    pub fn subjects(&self, subject_ids: &[u64]) -> (requests: Vec<ApiRequest>)
        ensures
            are_page_requests(requests@, "/subjects?ids="@, subject_ids@, self.token@),
    {
        self.paged("/subjects?ids=", subject_ids)
    }

    /// The requests for the assignments of the given subjects, a page at a
    /// time.
    pub fn assignments_for_subjects(&self, subject_ids: &[u64]) -> (requests: Vec<ApiRequest>)
        ensures
            are_page_requests(requests@, "/assignments?subject_ids="@, subject_ids@, self.token@),
    {
        self.paged("/assignments?subject_ids=", subject_ids)
    }

    /// The request for the study material of a subject.
    pub fn study_material_for_subject(&self, subject_id: u64) -> (request: ApiRequest)
        ensures
            is_request(request, HttpMethod::Get, endpoint("/study_materials?subject_ids="@ + decimal(subject_id as nat)), self.token@),
    {
        let mut path = String::from_str("/study_materials?subject_ids=");
        push_text(&mut path, u64_to_string(subject_id).as_str());
        self.request(HttpMethod::Get, path.as_str())
    }

    /// The request that starts an assignment.
    pub fn start_assignment(&self, assignment_id: u64) -> (request: ApiRequest)
        ensures
            is_request(request, HttpMethod::Put, endpoint("/assignments/"@ + decimal(assignment_id as nat) + "/start"@), self.token@),
    {
        let mut path = String::from_str("/assignments/");
        push_text(&mut path, u64_to_string(assignment_id).as_str());
        push_text(&mut path, "/start");
        self.request(HttpMethod::Put, path.as_str())
    }

    /// The request that records a review.
    pub fn create_review(&self) -> (request: ApiRequest)
        ensures
            is_request(request, HttpMethod::Post, endpoint("/reviews"@), self.token@),
    {
        self.request(HttpMethod::Post, "/reviews")
    }

    /// The request that replaces the synonyms of a study material.
    pub fn update_study_material(&self, material_id: u64) -> (request: ApiRequest)
        ensures
            is_request(request, HttpMethod::Put, endpoint("/study_materials/"@ + decimal(material_id as nat)), self.token@),
    {
        let mut path = String::from_str("/study_materials/");
        push_text(&mut path, u64_to_string(material_id).as_str());
        self.request(HttpMethod::Put, path.as_str())
    }

    /// The request that creates a study material.
    pub fn create_study_material(&self) -> (request: ApiRequest)
        ensures
            is_request(request, HttpMethod::Post, endpoint("/study_materials"@), self.token@),
    {
        self.request(HttpMethod::Post, "/study_materials")
    }
}

/// The data of an assignment that the sessions use.
pub struct AssignmentData {
    pub subject_id: u64,
}

/// The data of a study material that the sessions use.
pub struct StudyMaterialData {
    pub meaning_synonyms: Vec<String>,
}

/// The assignment id of each subject, a later assignment of a subject
/// replacing an earlier one.
pub open spec fn assignment_ids(assignments: Seq<ApiResource<AssignmentData>>) -> Map<u64, u64>
    decreases assignments.len(),
{
    if assignments.len() == 0 {
        Map::empty()
    } else {
        assignment_ids(assignments.drop_last()).insert(assignments.last().data.subject_id, assignments.last().id)
    }
}

/// Maps each subject to the id of its assignment.
pub fn assignment_map(assignments: Vec<ApiResource<AssignmentData>>) -> (map: HashMap<u64, u64>)
    ensures
        map@ == assignment_ids(assignments@),
{
    let mut map: HashMap<u64, u64> = HashMap::new();
    let mut i: usize = 0;
    while i < assignments.len()
        invariant
            i <= assignments@.len(),
            map@ == assignment_ids(assignments@.take(i as int)),
        decreases assignments@.len() - i,
    {
        assert(assignments@.take(i + 1).drop_last() == assignments@.take(i as int));
        map.insert(assignments[i].data.subject_id, assignments[i].id);
        i += 1;
    }
    assert(assignments@.take(assignments@.len() as int) == assignments@);
    map
}

/// A synonym ready to be added: the text trimmed, or the reason it cannot be.
pub open spec fn synonym_text(synonym: Seq<char>) -> Result<Seq<char>, Seq<char>> {
    if trimmed(synonym).len() == 0 {
        Err("synonym cannot be empty"@)
    } else {
        Ok(trimmed(synonym))
    }
}

/// Trims a synonym, refusing one that is empty.
pub fn prepare_synonym(synonym: &str) -> (prepared: Result<String, String>)
    ensures
        match (prepared, synonym_text(synonym@)) {
            (Ok(text), Ok(expected)) => text@ == expected,
            (Err(message), Err(expected)) => message@ == expected,
            _ => false,
        },
{
    let text = trim(synonym);
    if text.is_empty() {
        Err(String::from_str("synonym cannot be empty"))
    } else {
        Ok(String::from_str(text))
    }
}

/// How a synonym is stored: by replacing the synonyms of an existing study
/// material, or by creating one for the subject.
pub enum SynonymWrite {
    Update { material_id: u64, synonyms: Vec<String> },
    Create { subject_id: u64, synonyms: Vec<String> },
}

/// The synonyms after adding `synonym`: unchanged when one of them already
/// matches it once normalised, otherwise with it appended.
pub open spec fn merged_synonyms(existing: Seq<Seq<char>>, synonym: Seq<char>) -> Seq<Seq<char>> {
    if matches_some(synonym, existing) {
        existing
    } else {
        existing.push(synonym)
    }
}

/// Decides how to store `synonym` for a subject, given the subject's study
/// material if it has one.
pub fn plan_synonym_write(
    subject_id: u64,
    synonym: String,
    existing: Option<ApiResource<StudyMaterialData>>,
) -> (write: SynonymWrite)
    ensures
        existing is Some ==> {
            &&& write is Update
            &&& write->material_id == existing->0.id
            &&& texts(write->Update_synonyms@) == merged_synonyms(texts(existing->0.data.meaning_synonyms@), synonym@)
        },
        existing is None ==> {
            &&& write is Create
            &&& write->subject_id == subject_id
            &&& texts(write->Create_synonyms@) == seq![synonym@]
        },
{
    match existing {
        Some(ApiResource { id: material_id, data: StudyMaterialData { meaning_synonyms }, .. }) => {
            let ghost stored = meaning_synonyms@;
            let mut synonyms = meaning_synonyms;
            let ghost text = synonym@;
            let already = matches_answer(synonym.as_str(), synonyms.as_slice());
            assert(already == matches_some(text, texts(stored)));
            if !already {
                synonyms.push(synonym);
                assert(synonyms@.drop_last() == stored);
                assert(texts(synonyms@) == texts(stored).push(text));
            }
            assert(texts(synonyms@) == merged_synonyms(texts(stored), text));
            SynonymWrite::Update { material_id, synonyms }
        },
        None => {
            let mut synonyms: Vec<String> = Vec::new();
            synonyms.push(synonym);
            assert(synonyms@.drop_last() == Seq::<String>::empty());
            assert(texts(Seq::<String>::empty()) == Seq::<Seq<char>>::empty());
            assert(texts(synonyms@) == seq![synonym@]);
            SynonymWrite::Create { subject_id, synonyms }
        },
    }
}


/// Once added, a synonym is among the synonyms, as far as answer matching
/// can tell.
pub proof fn lemma_added_synonym_matches(existing: Seq<Seq<char>>, synonym: Seq<char>)
    ensures
        matches_some(synonym, merged_synonyms(existing, synonym)),
        existing.len() <= merged_synonyms(existing, synonym).len() <= existing.len() + 1,
{
    if !matches_some(synonym, existing) {
        let merged = existing.push(synonym);
        assert(normalized(merged[existing.len() as int]) == normalized(synonym));
    }
}

/// Where an id was asked for: its last position in `requested`, or
/// `usize::MAX` when it was not asked for.
pub open spec fn request_position(requested: Seq<u64>, id: u64) -> int
    decreases requested.len(),
{
    if requested.len() == 0 {
        usize::MAX as int
    } else if requested.last() == id {
        requested.len() - 1
    } else {
        request_position(requested.drop_last(), id)
    }
}

/// The subjects asked for at position `k`, in their order.
pub open spec fn at_position(subjects: Seq<ApiResource<SubjectData>>, requested: Seq<u64>, k: int) -> Seq<ApiResource<SubjectData>>
    decreases subjects.len(),
{
    if subjects.len() == 0 {
        subjects
    } else if request_position(requested, subjects.last().id) == k {
        at_position(subjects.drop_last(), requested, k).push(subjects.last())
    } else {
        at_position(subjects.drop_last(), requested, k)
    }
}

/// The subjects asked for at a position other than `k`, in their order.
pub open spec fn not_at_position(subjects: Seq<ApiResource<SubjectData>>, requested: Seq<u64>, k: int) -> Seq<ApiResource<SubjectData>>
    decreases subjects.len(),
{
    if subjects.len() == 0 {
        subjects
    } else if request_position(requested, subjects.last().id) != k {
        not_at_position(subjects.drop_last(), requested, k).push(subjects.last())
    } else {
        not_at_position(subjects.drop_last(), requested, k)
    }
}

/// The subjects asked for at position `k` or later (or not asked for), in
/// their order.
pub open spec fn from_position(subjects: Seq<ApiResource<SubjectData>>, requested: Seq<u64>, k: int) -> Seq<ApiResource<SubjectData>>
    decreases subjects.len(),
{
    if subjects.len() == 0 {
        subjects
    } else if request_position(requested, subjects.last().id) >= k {
        from_position(subjects.drop_last(), requested, k).push(subjects.last())
    } else {
        from_position(subjects.drop_last(), requested, k)
    }
}

/// The subjects asked for at positions before `k`, grouped by position in
/// ascending order, each group in the order in which its subjects came.
pub open spec fn grouped_before(subjects: Seq<ApiResource<SubjectData>>, requested: Seq<u64>, k: int) -> Seq<ApiResource<SubjectData>>
    decreases k,
{
    if k <= 0 {
        Seq::empty()
    } else {
        grouped_before(subjects, requested, k - 1) + at_position(subjects, requested, k - 1)
    }
}

/// The subjects in the order they were asked for: grouped by their position
/// in the request, ascending, each group keeping the order in which the
/// subjects came; subjects not asked for come last, in their order. This is
/// what a stable sort by request position yields.
pub open spec fn in_requested_order(subjects: Seq<ApiResource<SubjectData>>, requested: Seq<u64>) -> Seq<ApiResource<SubjectData>> {
    grouped_before(subjects, requested, requested.len() as int) + at_position(subjects, requested, usize::MAX as int)
}

proof fn lemma_request_position_range(requested: Seq<u64>, id: u64)
    ensures
        0 <= request_position(requested, id) < requested.len() || request_position(requested, id) == usize::MAX,
    decreases requested.len(),
{
    if requested.len() > 0 {
        lemma_request_position_range(requested.drop_last(), id);
    }
}

proof fn lemma_from_position_splits(subjects: Seq<ApiResource<SubjectData>>, requested: Seq<u64>, k: int)
    ensures
        at_position(from_position(subjects, requested, k), requested, k) == at_position(subjects, requested, k),
        not_at_position(from_position(subjects, requested, k), requested, k) == from_position(subjects, requested, k + 1),
    decreases subjects.len(),
{
    if subjects.len() > 0 {
        lemma_from_position_splits(subjects.drop_last(), requested, k);
        let f = from_position(subjects, requested, k);
        if request_position(requested, subjects.last().id) >= k {
            assert(f.drop_last() == from_position(subjects.drop_last(), requested, k));
            assert(f.last() == subjects.last());
        }
    }
}

proof fn lemma_from_end_is_unrequested(subjects: Seq<ApiResource<SubjectData>>, requested: Seq<u64>)
    requires
        requested.len() <= usize::MAX,
    ensures
        from_position(subjects, requested, requested.len() as int) == at_position(subjects, requested, usize::MAX as int),
    decreases subjects.len(),
{
    if subjects.len() > 0 {
        lemma_from_end_is_unrequested(subjects.drop_last(), requested);
        lemma_request_position_range(requested, subjects.last().id);
    }
}

proof fn lemma_from_start_is_all(subjects: Seq<ApiResource<SubjectData>>, requested: Seq<u64>)
    ensures
        from_position(subjects, requested, 0) == subjects,
    decreases subjects.len(),
{
    if subjects.len() > 0 {
        lemma_from_start_is_all(subjects.drop_last(), requested);
        lemma_request_position_range(requested, subjects.last().id);
        assert(subjects.drop_last().push(subjects.last()) == subjects);
    }
}

/// The last position of `id` in `requested`, or `usize::MAX`.
fn position_in(requested: &[u64], id: u64) -> (position: usize)
    ensures
        position as int == request_position(requested@, id),
{
    let mut position = usize::MAX;
    let mut i: usize = 0;
    while i < requested.len()
        invariant
            i <= requested@.len(),
            position as int == request_position(requested@.take(i as int), id),
        decreases requested@.len() - i,
    {
        assert(requested@.take(i + 1).drop_last() == requested@.take(i as int));
        if requested[i] == id {
            position = i;
        }
        i += 1;
    }
    assert(requested@.take(requested@.len() as int) == requested@);
    position
}

/// Puts fetched subjects into the order in which their ids were asked for
/// (see `in_requested_order`).
pub fn order_subjects(subjects: Vec<ApiResource<SubjectData>>, requested: &[u64]) -> (ordered: Vec<ApiResource<SubjectData>>)
    ensures
        ordered@ == in_requested_order(subjects@, requested@),
{
    let ghost all = subjects@;
    let mut rest = subjects;
    let mut ordered: Vec<ApiResource<SubjectData>> = Vec::new();
    proof {
        lemma_from_start_is_all(all, requested@);
    }
    let mut k: usize = 0;
    while k < requested.len()
        invariant
            k <= requested@.len(),
            rest@ == from_position(all, requested@, k as int),
            ordered@ == grouped_before(all, requested@, k as int),
        decreases requested@.len() - k,
    {
        let ghost start = rest@;
        let ghost before = ordered@;
        let ghost mut seen: int = 0;
        let mut i: usize = 0;
        assert(start.take(0) == Seq::<ApiResource<SubjectData>>::empty());
        assert(start.skip(0) == start);
        while i < rest.len()
            invariant
                0 <= seen <= start.len(),
                rest@ == not_at_position(start.take(seen), requested@, k as int) + start.skip(seen),
                i == not_at_position(start.take(seen), requested@, k as int).len(),
                ordered@ == before + at_position(start.take(seen), requested@, k as int),
            decreases start.len() - seen,
        {
            let ghost kept = not_at_position(start.take(seen), requested@, k as int);
            assert(rest@[i as int] == start[seen]);
            assert(start.take(seen + 1).drop_last() == start.take(seen));
            assert(start.skip(seen) == seq![start[seen]] + start.skip(seen + 1));
            if position_in(requested, rest[i].id) == k {
                let subject = rest.remove(i);
                ordered.push(subject);
                assert(rest@ == kept + start.skip(seen + 1));
            } else {
                i += 1;
                assert(rest@ == kept.push(start[seen]) + start.skip(seen + 1));
            }
            proof {
                seen = seen + 1;
            }
        }
        proof {
            assert(start.skip(seen).len() == 0);
            assert(seen == start.len());
            assert(start.take(seen) == start);
            assert(rest@ == not_at_position(start, requested@, k as int));
            lemma_from_position_splits(all, requested@, k as int);
        }
        k += 1;
    }
    let count = requested.len();
    proof {
        assert(requested@.len() == count);
        lemma_from_end_is_unrequested(all, requested@);
    }
    ordered.append(&mut rest);
    ordered
}

proof fn lemma_from_position_multiset(subjects: Seq<ApiResource<SubjectData>>, requested: Seq<u64>, k: int)
    ensures
        from_position(subjects, requested, k).to_multiset() =~= at_position(subjects, requested, k).to_multiset().add(
            from_position(subjects, requested, k + 1).to_multiset(),
        ),
    decreases subjects.len(),
{
    broadcast use vstd::seq_lib::group_to_multiset_ensures, vstd::multiset::group_multiset_axioms;

    if subjects.len() > 0 {
        lemma_from_position_multiset(subjects.drop_last(), requested, k);
    } else {
        assert(from_position(subjects, requested, k).to_multiset() =~= vstd::multiset::Multiset::empty());
    }
}

proof fn lemma_grouped_multiset(subjects: Seq<ApiResource<SubjectData>>, requested: Seq<u64>, k: int)
    requires
        0 <= k,
    ensures
        grouped_before(subjects, requested, k).to_multiset().add(from_position(subjects, requested, k).to_multiset())
            =~= subjects.to_multiset(),
    decreases k,
{
    broadcast use vstd::seq_lib::group_to_multiset_ensures, vstd::multiset::group_multiset_axioms;

    if k == 0 {
        lemma_from_start_is_all(subjects, requested);
        assert(grouped_before(subjects, requested, 0).to_multiset() =~= vstd::multiset::Multiset::empty());
    } else {
        lemma_grouped_multiset(subjects, requested, k - 1);
        lemma_from_position_multiset(subjects, requested, k - 1);
        vstd::seq_lib::lemma_multiset_commutative(
            grouped_before(subjects, requested, k - 1),
            at_position(subjects, requested, k - 1),
        );
    }
}

/// Ordering the fetched subjects keeps each of them exactly as often as it
/// came: the result is a permutation of the subjects.
pub proof fn lemma_requested_order_keeps_subjects(subjects: Seq<ApiResource<SubjectData>>, requested: Seq<u64>)
    requires
        requested.len() <= usize::MAX,
    ensures
        in_requested_order(subjects, requested).to_multiset() =~= subjects.to_multiset(),
{
    lemma_grouped_multiset(subjects, requested, requested.len() as int);
    lemma_from_end_is_unrequested(subjects, requested);
    vstd::seq_lib::lemma_multiset_commutative(
        grouped_before(subjects, requested, requested.len() as int),
        at_position(subjects, requested, usize::MAX as int),
    );
}

proof fn lemma_at_position_members(subjects: Seq<ApiResource<SubjectData>>, requested: Seq<u64>, k: int)
    ensures
        forall|i: int| 0 <= i < at_position(subjects, requested, k).len()
            ==> request_position(requested, #[trigger] at_position(subjects, requested, k)[i].id) == k,
    decreases subjects.len(),
{
    if subjects.len() > 0 {
        lemma_at_position_members(subjects.drop_last(), requested, k);
        let before = at_position(subjects.drop_last(), requested, k);
        if request_position(requested, subjects.last().id) == k {
            assert forall|i: int| 0 <= i < before.push(subjects.last()).len()
                implies request_position(requested, #[trigger] before.push(subjects.last())[i].id) == k by {
                if i < before.len() {
                    assert(before.push(subjects.last())[i] == before[i]);
                }
            }
        }
    }
}

proof fn lemma_grouped_sorted(subjects: Seq<ApiResource<SubjectData>>, requested: Seq<u64>, k: int)
    requires
        0 <= k,
    ensures
        forall|i: int| 0 <= i < grouped_before(subjects, requested, k).len()
            ==> request_position(requested, #[trigger] grouped_before(subjects, requested, k)[i].id) < k,
        forall|i: int, j: int| 0 <= i < j < grouped_before(subjects, requested, k).len()
            ==> request_position(requested, #[trigger] grouped_before(subjects, requested, k)[i].id)
                <= request_position(requested, #[trigger] grouped_before(subjects, requested, k)[j].id),
    decreases k,
{
    if k > 0 {
        lemma_grouped_sorted(subjects, requested, k - 1);
        lemma_at_position_members(subjects, requested, k - 1);
        let g = grouped_before(subjects, requested, k - 1);
        let a = at_position(subjects, requested, k - 1);
        assert(grouped_before(subjects, requested, k) == g + a);
        assert forall|i: int| 0 <= i < (g + a).len() implies request_position(requested, #[trigger] (g + a)[i].id) < k by {
            if i >= g.len() {
                assert((g + a)[i] == a[i - g.len()]);
            } else {
                assert((g + a)[i] == g[i]);
            }
        }
        assert forall|i: int, j: int| 0 <= i < j < (g + a).len() implies request_position(requested, #[trigger] (g + a)[i].id)
            <= request_position(requested, #[trigger] (g + a)[j].id) by {
            if j < g.len() {
                assert((g + a)[i] == g[i] && (g + a)[j] == g[j]);
            } else if i < g.len() {
                assert((g + a)[i] == g[i] && (g + a)[j] == a[j - g.len()]);
            } else {
                assert((g + a)[i] == a[i - g.len()] && (g + a)[j] == a[j - g.len()]);
            }
        }
    }
}

/// The ordered subjects come by ascending position in the request, the
/// subjects that were not asked for last.
pub proof fn lemma_requested_order_is_sorted(subjects: Seq<ApiResource<SubjectData>>, requested: Seq<u64>)
    requires
        requested.len() <= usize::MAX,
    ensures
        forall|i: int, j: int| 0 <= i < j < in_requested_order(subjects, requested).len()
            ==> request_position(requested, #[trigger] in_requested_order(subjects, requested)[i].id)
                <= request_position(requested, #[trigger] in_requested_order(subjects, requested)[j].id),
{
    let n = requested.len() as int;
    lemma_grouped_sorted(subjects, requested, n);
    lemma_at_position_members(subjects, requested, usize::MAX as int);
    let g = grouped_before(subjects, requested, n);
    let a = at_position(subjects, requested, usize::MAX as int);
    assert forall|i: int, j: int| 0 <= i < j < (g + a).len() implies request_position(requested, #[trigger] (g + a)[i].id)
        <= request_position(requested, #[trigger] (g + a)[j].id) by {
        if j < g.len() {
            assert((g + a)[i] == g[i] && (g + a)[j] == g[j]);
        } else if i < g.len() {
            assert((g + a)[i] == g[i] && (g + a)[j] == a[j - g.len()]);
        } else {
            assert((g + a)[i] == a[i - g.len()] && (g + a)[j] == a[j - g.len()]);
        }
    }
}

} // verus!
