//! Which subjects are available for a session: summary buckets, their
//! availability times, and the distinct subject ids they make available.
use vstd::prelude::*;
use std::collections::HashSet;

verus! {

broadcast use vstd::std_specs::hash::group_hash_axioms;

/// An instant in time: seconds since the Unix epoch and the nanoseconds past
/// that second.
#[derive(Debug, Clone, Copy, PartialEq, Eq, Structural)]
pub struct Moment {
    pub seconds: i64,
    pub nanos: u32,
}

/// `earlier` is not after `later`.
pub open spec fn at_or_before(earlier: Moment, later: Moment) -> bool {
    earlier.seconds < later.seconds || (earlier.seconds == later.seconds && earlier.nanos <= later.nanos)
}

/// The instant that `chrono` parses from an RFC 3339 timestamp, if it parses.
pub uninterp spec fn rfc3339_moment(text: Seq<char>) -> Option<Moment>;

/// Calls `chrono::DateTime::parse_from_rfc3339` and converts the instant it
/// yields into seconds and nanoseconds since the Unix epoch; the contract
/// names the result and claims only that it depends on the text alone.
#[verifier::external_body]
fn parse_rfc3339(text: &str) -> (parsed: Option<Moment>)
    ensures
        parsed == rfc3339_moment(text@),
{
    match chrono::DateTime::parse_from_rfc3339(text) {
        Ok(instant) => Some(Moment { seconds: instant.timestamp(), nanos: instant.timestamp_subsec_nanos() }),
        Err(_) => None,
    }
}

/// A parsed availability time has come when it is not after `now`; a time
/// that did not parse never comes.
pub open spec fn is_due_at(parsed: Option<Moment>, now: Moment) -> bool {
    match parsed {
        Some(at) => at_or_before(at, now),
        None => false,
    }
}

/// Whether a parsed availability time has come (see `is_due_at`).
pub fn is_due(parsed: Option<Moment>, now: Moment) -> (due: bool)
    ensures
        due == is_due_at(parsed, now),
{
    match parsed {
        Some(at) => at.seconds < now.seconds || (at.seconds == now.seconds && at.nanos <= now.nanos),
        None => false,
    }
}

/// A group of subjects of the study summary that share an availability time.
pub struct SummaryBucket {
    pub available_at: Option<String>,
    pub subject_ids: Vec<u64>,
}

/// A bucket without a time is available; one with a time is available once
/// that time has come.
pub open spec fn bucket_available(bucket: SummaryBucket, now: Moment) -> bool {
    match bucket.available_at {
        Some(text) => is_due_at(rfc3339_moment(text@), now),
        None => true,
    }
}

impl SummaryBucket {
    /// Whether the bucket's subjects are available at `now`.
    pub fn is_available_at(&self, now: Moment) -> (available: bool)
        ensures
            available == bucket_available(*self, now),
    {
        match &self.available_at {
            Some(text) => is_due(parse_rfc3339(text.as_str()), now),
            None => true,
        }
    }
}

/// The subject ids of the available buckets, in bucket order.
pub open spec fn available_ids(buckets: Seq<SummaryBucket>, now: Moment) -> Seq<u64>
    decreases buckets.len(),
{
    if buckets.len() == 0 {
        Seq::empty()
    } else if bucket_available(buckets.last(), now) {
        available_ids(buckets.drop_last(), now) + buckets.last().subject_ids@
    } else {
        available_ids(buckets.drop_last(), now)
    }
}

/// The distinct elements of `s`, each at its first occurrence.
pub open spec fn first_occurrences(s: Seq<u64>) -> Seq<u64>
    decreases s.len(),
{
    if s.len() == 0 {
        s
    } else if first_occurrences(s.drop_last()).contains(s.last()) {
        first_occurrences(s.drop_last())
    } else {
        first_occurrences(s.drop_last()).push(s.last())
    }
}

/// The ids a session of at most `limit` subjects studies: the distinct
/// available ids in order, cut to `limit` when it is positive.
pub open spec fn session_ids(buckets: Seq<SummaryBucket>, limit: usize, now: Moment) -> Seq<u64> {
    let distinct = first_occurrences(available_ids(buckets, now));
    if 0 < limit < distinct.len() {
        distinct.take(limit as int)
    } else {
        distinct
    }
}

/// The number of distinct subject ids that are available.
pub open spec fn available_count_at(buckets: Seq<SummaryBucket>, now: Moment) -> nat {
    first_occurrences(available_ids(buckets, now)).len()
}

pub open spec fn is_prefix_of(prefix: Seq<u64>, s: Seq<u64>) -> bool {
    prefix.len() <= s.len() && s.take(prefix.len() as int) == prefix
}

/// The distinct elements of a sequence keep their order when it grows.
pub proof fn lemma_first_occurrences_prefix(s: Seq<u64>, t: Seq<u64>)
    ensures
        is_prefix_of(first_occurrences(s), first_occurrences(s + t)),
    decreases t.len(),
{
    let p = first_occurrences(s);
    if t.len() == 0 {
        assert(s + t == s);
        assert(p.take(p.len() as int) == p);
    } else {
        lemma_first_occurrences_prefix(s, t.drop_last());
        let whole = s + t;
        assert(whole.drop_last() == s + t.drop_last());
        let q = first_occurrences(s + t.drop_last());
        assert(q.take(p.len() as int) == p);
        if q.contains(whole.last()) {
            assert(first_occurrences(whole) == q);
        } else {
            assert(first_occurrences(whole) == q.push(whole.last()));
            assert(q.push(whole.last()).take(p.len() as int) == q.take(p.len() as int));
        }
    }
}

/// The distinct elements of `s` hold no duplicates and are exactly the
/// elements of `s`.
pub proof fn lemma_first_occurrences_distinct(s: Seq<u64>)
    ensures
        first_occurrences(s).no_duplicates(),
        forall|x: u64| first_occurrences(s).contains(x) <==> s.contains(x),
    decreases s.len(),
{
    if s.len() > 0 {
        let init = s.drop_last();
        lemma_first_occurrences_distinct(init);
        let p = first_occurrences(init);
        let f = first_occurrences(s);
        assert forall|x: u64| #[trigger] s.contains(x) <==> (init.contains(x) || x == s.last()) by {
            if s.contains(x) && x != s.last() {
                let k = choose|k: int| 0 <= k < s.len() && s[k] == x;
                assert(init[k] == x);
            }
            if init.contains(x) {
                let k = choose|k: int| 0 <= k < init.len() && init[k] == x;
                assert(s[k] == x);
            }
            if x == s.last() {
                assert(s[s.len() - 1] == x);
            }
        }
        if p.contains(s.last()) {
            assert(f == p);
        } else {
            assert(f == p.push(s.last()));
            assert forall|x: u64| #[trigger] f.contains(x) <==> (p.contains(x) || x == s.last()) by {
                if p.contains(x) {
                    let k = choose|k: int| 0 <= k < p.len() && p[k] == x;
                    assert(f[k] == x);
                }
                if f.contains(x) && x != s.last() {
                    let k = choose|k: int| 0 <= k < f.len() && f[k] == x;
                    assert(p[k] == x);
                }
                if x == s.last() {
                    assert(f[f.len() - 1] == x);
                }
            }
        }
    }
}

/// Availability concatenates over bucket sequences.
pub proof fn lemma_available_ids_concat(x: Seq<SummaryBucket>, y: Seq<SummaryBucket>, now: Moment)
    ensures
        available_ids(x + y, now) == available_ids(x, now) + available_ids(y, now),
    decreases y.len(),
{
    if y.len() == 0 {
        assert(x + y == x);
    } else {
        lemma_available_ids_concat(x, y.drop_last(), now);
        assert((x + y).drop_last() == x + y.drop_last());
    }
}

/// The first `limit` distinct subject ids of the available buckets, in
/// order; all of them when `limit` is zero.
pub fn collect_available_subject_ids(buckets: &[SummaryBucket], limit: usize, now: Moment) -> (ids: Vec<u64>)
    ensures
        ids@ == session_ids(buckets@, limit, now),
{
    let ghost all = available_ids(buckets@, now);
    let mut seen: HashSet<u64> = HashSet::new();
    let mut ids: Vec<u64> = Vec::new();
    let mut i: usize = 0;
    while i < buckets.len()
        invariant
            i <= buckets@.len(),
            all == available_ids(buckets@, now),
            ids@ == first_occurrences(available_ids(buckets@.take(i as int), now)),
            forall|x: u64| seen@.contains(x) <==> ids@.contains(x),
            limit == 0 || ids@.len() < limit,
        decreases buckets@.len() - i,
    {
        let ghost before = available_ids(buckets@.take(i as int), now);
        assert(buckets@.take(i + 1).drop_last() == buckets@.take(i as int));
        if buckets[i].is_available_at(now) {
            let bucket_ids = &buckets[i].subject_ids;
            proof {
                lemma_available_ids_concat(buckets@.take(i as int), buckets@.skip(i as int), now);
                assert(buckets@ == buckets@.take(i as int) + buckets@.skip(i as int));
                let rest = buckets@.skip(i as int);
                lemma_available_ids_concat(seq![rest[0]], rest.drop_first(), now);
                assert(rest == seq![rest[0]] + rest.drop_first());
                assert(seq![rest[0]].drop_last() == Seq::<SummaryBucket>::empty());
                assert(rest[0] == buckets@[i as int]);
                assert(available_ids(Seq::<SummaryBucket>::empty(), now) == Seq::<u64>::empty());
                assert(seq![rest[0]].last() == rest[0]);
                assert(available_ids(seq![rest[0]], now) == Seq::<u64>::empty() + rest[0].subject_ids@);
                assert(Seq::<u64>::empty() + rest[0].subject_ids@ == rest[0].subject_ids@);
                assert(rest.drop_first() == buckets@.skip(i as int).drop_first());
            }
            let ghost later = available_ids(buckets@.skip(i + 1), now);
            let mut j: usize = 0;
            while j < bucket_ids.len()
                invariant
                    j <= bucket_ids@.len(),
                    i < buckets@.len(),
                    bucket_ids@ == buckets@[i as int].subject_ids@,
                    all == available_ids(buckets@, now),
                    all == before + bucket_ids@ + available_ids(buckets@.skip(i as int).drop_first(), now),
                    ids@ == first_occurrences(before + bucket_ids@.take(j as int)),
                    forall|x: u64| seen@.contains(x) <==> ids@.contains(x),
                    limit == 0 || ids@.len() < limit,
                decreases bucket_ids@.len() - j,
            {
                let id = bucket_ids[j];
                let ghost prefix = before + bucket_ids@.take(j as int);
                assert((before + bucket_ids@.take(j + 1)).drop_last() == prefix);
                let ghost ids_before = ids@;
                if seen.insert(id) {
                    ids.push(id);
                    assert forall|x: u64| seen@.contains(x) <==> ids@.contains(x) by {
                        if ids_before.contains(x) {
                            let k = choose|k: int| 0 <= k < ids_before.len() && ids_before[k] == x;
                            assert(ids@[k] == x);
                        }
                        if x == id {
                            assert(ids@[ids@.len() - 1] == x);
                        }
                        if ids@.contains(x) && x != id {
                            let k = choose|k: int| 0 <= k < ids@.len() && ids@[k] == x;
                            assert(ids_before[k] == x);
                        }
                    }
                    if ids.len() == limit {
                        proof {
                            let grown = before + bucket_ids@.take(j + 1);
                            assert(grown.drop_last() == prefix);
                            assert(grown.last() == id);
                            assert(!first_occurrences(prefix).contains(id));
                            assert(first_occurrences(grown) == first_occurrences(prefix).push(id));
                            let tail = bucket_ids@.skip(j + 1) + available_ids(buckets@.skip(i as int).drop_first(), now);
                            assert(all == grown + tail);
                            lemma_first_occurrences_prefix(grown, tail);
                            let distinct = first_occurrences(all);
                            assert(ids@ == first_occurrences(grown));
                            assert(distinct.take(limit as int) == ids@);
                            if limit == distinct.len() {
                                assert(distinct.take(limit as int) == distinct);
                            }
                        }
                        return ids;
                    }
                }
                j += 1;
            }
            assert(bucket_ids@.take(bucket_ids@.len() as int) == bucket_ids@);
        }
        i += 1;
    }
    assert(buckets@.take(buckets@.len() as int) == buckets@);
    ids
}

/// The number of distinct subject ids of the available buckets.
pub fn unique_available_subject_count(buckets: &[SummaryBucket], now: Moment) -> (count: usize)
    ensures
        count == available_count_at(buckets@, now),
        count == available_ids(buckets@, now).to_set().len(),
{
    let ids = collect_available_subject_ids(buckets, 0, now);
    proof {
        let all = available_ids(buckets@, now);
        lemma_first_occurrences_distinct(all);
        first_occurrences(all).unique_seq_to_set();
        assert(first_occurrences(all).to_set() == all.to_set());
    }
    ids.len()
}


/// A bucket whose time has not come adds no subjects.
pub proof fn lemma_unavailable_bucket_adds_nothing(buckets: Seq<SummaryBucket>, bucket: SummaryBucket, now: Moment)
    requires
        !bucket_available(bucket, now),
    ensures
        available_ids(buckets.push(bucket), now) == available_ids(buckets, now),
        available_count_at(buckets.push(bucket), now) == available_count_at(buckets, now),
{
    assert(buckets.push(bucket).drop_last() == buckets);
}

/// The ids of a session are distinct and available, are the first of the
/// available ids, and number the limit, or all available ids when the limit
/// is zero or larger.
pub proof fn lemma_session_ids_properties(buckets: Seq<SummaryBucket>, limit: usize, now: Moment)
    ensures
        session_ids(buckets, limit, now).no_duplicates(),
        forall|id: u64| #[trigger] session_ids(buckets, limit, now).contains(id) ==> available_ids(buckets, now).contains(id),
        is_prefix_of(session_ids(buckets, limit, now), first_occurrences(available_ids(buckets, now))),
        session_ids(buckets, limit, now).len() == if 0 < limit < available_count_at(buckets, now) {
            limit as nat
        } else {
            available_count_at(buckets, now)
        },
{
    let all = available_ids(buckets, now);
    let distinct = first_occurrences(all);
    lemma_first_occurrences_distinct(all);
    let ids = session_ids(buckets, limit, now);
    assert(distinct.take(distinct.len() as int) == distinct);
    if 0 < limit < distinct.len() {
        assert(ids.take(ids.len() as int) == ids);
        assert forall|id: u64| #[trigger] ids.contains(id) implies all.contains(id) by {
            let k = choose|k: int| 0 <= k < ids.len() && ids[k] == id;
            assert(distinct[k] == id);
        }
    }
}

} // verus!
