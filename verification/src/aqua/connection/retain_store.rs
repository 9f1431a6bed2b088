//! Retained messages: the last PUBLISH kept per topic, and the matching of
//! topics against subscription filters.
use vstd::prelude::*;
use dashmap::DashMap;
use crate::mqtt_coder::mqtt::{Publish, PublishModel};

verus! {

/// The segments of a topic or filter: the parts between the `/`
/// separators, in order (a string without `/` is one segment; `/` at either
/// end gives an empty segment there).
pub open spec fn spec_split(s: Seq<char>) -> Seq<Seq<char>>
    decreases s.len(),
{
    if s.len() == 0 {
        seq![Seq::empty()]
    } else {
        let prev = spec_split(s.drop_last());
        if s.last() == '/' {
            prev.push(Seq::empty())
        } else {
            prev.update(prev.len() - 1, prev.last().push(s.last()))
        }
    }
}

proof fn lemma_split_nonempty(s: Seq<char>)
    ensures
        spec_split(s).len() >= 1,
    decreases s.len(),
{
    if s.len() > 0 {
        lemma_split_nonempty(s.drop_last());
    }
}

/// Splits a topic or filter at its `/` separators.
fn split_segments(s: &String) -> (r: Vec<Vec<char>>)
    ensures
        r@.map_values(|x: Vec<char>| x@) == spec_split(s@),
{
    let mut segs: Vec<Vec<char>> = Vec::new();
    let mut cur: Vec<char> = Vec::new();
    let ghost chars = s@;
    for c in it: s.as_str().chars()
        invariant
            it.seq() == chars,
            chars == s@,
            segs@.map_values(|x: Vec<char>| x@).push(cur@) == spec_split(chars.take(it.index())),
    {
        proof {
            lemma_split_nonempty(chars.take(it.index()));
            assert(chars.take(it.index() + 1).drop_last() == chars.take(it.index()));
        }
        let ghost before = segs@.map_values(|x: Vec<char>| x@).push(cur@);
        if c == '/' {
            let done = cur;
            cur = Vec::new();
            segs.push(done);
            assert(segs@.map_values(|x: Vec<char>| x@).push(cur@) =~= before.push(Seq::empty()));
        } else {
            cur.push(c);
            assert(segs@.map_values(|x: Vec<char>| x@).push(cur@) =~= before.update(before.len() - 1, before.last().push(c)));
        }
    }
    proof {
        assert(chars.take(chars.len() as int) == chars);
    }
    let ghost before = segs@.map_values(|x: Vec<char>| x@).push(cur@);
    segs.push(cur);
    assert(segs@.map_values(|x: Vec<char>| x@) =~= before);
    segs
}


/// The filter segment that matches any number of levels (it must be last).
pub open spec fn hash_segment() -> Seq<char> {
    seq!['#']
}

/// The filter segment that matches exactly one level.
pub open spec fn plus_segment() -> Seq<char> {
    seq!['+']
}

/// Whether one filter segment matches one topic segment.
pub open spec fn segment_matches(f: Seq<char>, t: Seq<char>) -> bool {
    f == plus_segment() || f == t
}

/// Whether filter segments `f` match topic segments `t`: when the only `#`
/// of the filter is its last segment, the segments before it match the
/// first topic segments (the topic may have any number of segments more, or
/// end right before the `#`); when the filter has no `#`, filter and topic
/// have as many segments and they match one for one (a `+` matches any one
/// segment). A filter with a `#` before its last segment matches nothing.
pub open spec fn spec_segments_match(f: Seq<Seq<char>>, t: Seq<Seq<char>>) -> bool {
    let n = f.len();
    if n > 0 && f[n - 1] == hash_segment() && (forall|i: int| 0 <= i < n - 1 ==> f[i] != hash_segment()) {
        n - 1 <= t.len() && forall|i: int| 0 <= i < n - 1 ==> segment_matches(#[trigger] f[i], t[i])
    } else {
        &&& forall|i: int| 0 <= i < n ==> f[i] != hash_segment()
        &&& n == t.len()
        &&& forall|i: int| 0 <= i < n ==> segment_matches(#[trigger] f[i], t[i])
    }
}

/// Whether a topic matches a subscription filter.
pub open spec fn spec_is_match(topic_filter: Seq<char>, topic: Seq<char>) -> bool {
    spec_segments_match(spec_split(topic_filter), spec_split(topic))
}

/// Whether two segments are equal.
fn segment_eq(a: &Vec<char>, b: &Vec<char>) -> (r: bool)
    ensures
        r == (a@ == b@),
{
    if a.len() != b.len() {
        return false;
    }
    let mut i: usize = 0;
    while i < a.len()
        invariant
            i <= a.len(),
            a.len() == b.len(),
            forall|j: int| 0 <= j < i ==> a@[j] == b@[j],
        decreases a.len() - i,
    {
        if a[i] != b[i] {
            return false;
        }
        i += 1;
    }
    assert(a@ =~= b@);
    true
}

/// Whether a segment is the one-character segment `c`.
fn segment_is(a: &Vec<char>, c: char) -> (r: bool)
    ensures
        r == (a@ == seq![c]),
{
    if a.len() == 1 && a[0] == c {
        assert(a@ =~= seq![c]);
        true
    } else {
        false
    }
}

/// Whether the topic matches the subscription filter, level by level.
fn match_levels(topic_filter: &String, topic: &String) -> (r: bool)
    ensures
        r == spec_is_match(topic_filter@, topic@),
{
    let filter_segment = split_segments(topic_filter);
    let topic_segment = split_segments(topic);
    let ghost f = filter_segment@.map_values(|x: Vec<char>| x@);
    let ghost t = topic_segment@.map_values(|x: Vec<char>| x@);
    let mut filter_index: usize = 0;
    let mut topic_index: usize = 0;
    while filter_index < filter_segment.len()
        invariant
            f == filter_segment@.map_values(|x: Vec<char>| x@),
            t == topic_segment@.map_values(|x: Vec<char>| x@),
            f == spec_split(topic_filter@),
            t == spec_split(topic@),
            filter_index == topic_index,
            filter_index <= f.len(),
            filter_index <= t.len(),
            forall|i: int| 0 <= i < filter_index ==> f[i] != hash_segment(),
            forall|i: int| 0 <= i < filter_index ==> segment_matches(#[trigger] f[i], t[i]),
        decreases filter_segment.len() - filter_index,
    {
        let fs = &filter_segment[filter_index];
        assert(fs@ == f[filter_index as int]);
        if segment_is(fs, '#') {
            // should be last
            return filter_index == filter_segment.len() - 1;
        } else if segment_is(fs, '+') {
            if topic_index >= topic_segment.len() {
                return false;
            }
            filter_index += 1;
            topic_index += 1;
        } else if topic_index < topic_segment.len() && segment_eq(fs, &topic_segment[topic_index]) {
            filter_index += 1;
            topic_index += 1;
        } else {
            return false;
        }
    }
    // all segments have been consumed
    topic_index == topic_segment.len()
}


/// The retained PUBLISH of each topic that a map of retained messages holds.
pub uninterp spec fn retained_entries(m: DashMap<String, Publish>) -> Map<Seq<char>, PublishModel>;

/// `DashMap::new`: an empty map.
#[verifier::external_body]
fn retained_map_new() -> (r: DashMap<String, Publish>)
    ensures
        retained_entries(r).dom().is_empty(),
{
    DashMap::new()
}

/// `DashMap::insert`: the key now maps to the value (the value it replaces
/// is dropped).
#[verifier::external_body]
fn retained_map_insert(m: &mut DashMap<String, Publish>, key: String, value: Publish)
    ensures
        retained_entries(*final(m)) == retained_entries(*old(m)).insert(key@, value@),
{
    m.insert(key, value);
}

/// `DashMap::remove`: the key maps to nothing any more.
#[verifier::external_body]
fn retained_map_remove(m: &mut DashMap<String, Publish>, key: &str)
    ensures
        retained_entries(*final(m)) == retained_entries(*old(m)).remove(key@),
{
    m.remove(key);
}

/// `DashMap::iter`, each entry mapped to a copy of its key: every key once,
/// in an order that the contract leaves open.
#[verifier::external_body]
fn retained_map_keys(m: &DashMap<String, Publish>) -> (r: Vec<String>)
    ensures
        r@.map_values(|k: String| k@).no_duplicates(),
        r@.map_values(|k: String| k@).to_set() == retained_entries(*m).dom(),
{
    m.iter().map(|entry| entry.key().clone()).collect()
}

/// `DashMap::get`, the entry mapped to a copy of its value: the PUBLISH that
/// the key maps to, if any.
#[verifier::external_body]
fn retained_map_get(m: &DashMap<String, Publish>, key: &String) -> (r: Option<Publish>)
    ensures
        match r {
            Some(p) => retained_entries(*m).dom().contains(key@) && p@ == retained_entries(*m)[key@],
            None => !retained_entries(*m).dom().contains(key@),
        },
{
    m.get(key).map(|entry| entry.value().clone())
}

/// The last PUBLISH with the RETAIN flag of each topic.
pub struct RetainStore {
    kvs: DashMap<String, Publish>,
}

impl View for RetainStore {
    type V = Map<Seq<char>, PublishModel>;

    closed spec fn view(&self) -> Map<Seq<char>, PublishModel> {
        retained_entries(self.kvs)
    }
}

/// Whether `r` holds the views of the retained messages whose topic matches
/// the filter, each once, in some order.
pub open spec fn is_retained_for(r: Seq<PublishModel>, store: Map<Seq<char>, PublishModel>, topic_filter: Seq<char>) -> bool {
    exists|topics: Seq<Seq<char>>|
        {
            &&& topics.no_duplicates()
            &&& forall|t: Seq<char>| #[trigger] topics.contains(t) <==> store.dom().contains(t) && spec_is_match(topic_filter, t)
            &&& topics.len() == r.len()
            &&& forall|i: int| 0 <= i < r.len() ==> r[i] == store[#[trigger] topics[i]]
        }
}

impl RetainStore {
    pub fn new() -> (r: Self)
        ensures
            r@ == Map::<Seq<char>, PublishModel>::empty(),
    {
        let r = RetainStore { kvs: retained_map_new() };
        assert(r@ =~= Map::<Seq<char>, PublishModel>::empty());
        r
    }

    /// Keeps `pkt` as the retained message of `topic`, in place of the one
    /// before.
    pub fn update_retain(&mut self, topic: String, pkt: Publish)
        ensures
            final(self)@ == old(self)@.insert(topic@, pkt@),
    {
        retained_map_insert(&mut self.kvs, topic, pkt);
    }

    /// Drops the retained message of `topic`.
    pub fn remove_retain(&mut self, topic: &str)
        ensures
            final(self)@ == old(self)@.remove(topic@),
    {
        retained_map_remove(&mut self.kvs, topic);
    }

    /// Copies of the retained messages whose topic matches the filter.
    pub fn check_retain(&self, topic_filter: String) -> (r: Vec<Publish>)
        ensures
            is_retained_for(r@.map_values(|p: Publish| p@), self@, topic_filter@),
    {
        let mut ret: Vec<Publish> = Vec::new();
        let keys = retained_map_keys(&self.kvs);
        let ghost kv = keys@.map_values(|k: String| k@);
        let ghost mut topics: Seq<Seq<char>> = Seq::empty();
        let mut i: usize = 0;
        while i < keys.len()
            invariant
                i <= keys.len(),
                kv == keys@.map_values(|k: String| k@),
                kv.no_duplicates(),
                kv.to_set() == self@.dom(),
                topics.no_duplicates(),
                forall|t: Seq<char>| #[trigger] topics.contains(t) <==> kv.subrange(0, i as int).contains(t) && spec_is_match(topic_filter@, t),
                topics.len() == ret@.len(),
                forall|j: int| 0 <= j < ret@.len() ==> ret@[j]@ == self@[#[trigger] topics[j]],
            decreases keys.len() - i,
        {
            let topic = &keys[i];
            assert(kv[i as int] == topic@);
            proof {
                assert(kv.subrange(0, i + 1) =~= kv.subrange(0, i as int).push(topic@));
                assert(self@.dom().contains(topic@)) by {
                    assert(kv.contains(topic@));
                }
                assert(!kv.subrange(0, i as int).contains(topic@)) by {
                    if kv.subrange(0, i as int).contains(topic@) {
                        let j = choose|j: int| 0 <= j < i && #[trigger] kv.subrange(0, i as int)[j] == topic@;
                        assert(kv[j] == kv[i as int]);
                    }
                }
            }
            let ghost old_topics = topics;
            let matched = self.is_match(&topic_filter, topic);
            if matched {
                if let Some(pkt) = retained_map_get(&self.kvs, topic) {
                    let ghost before = ret@;
                    ret.push(pkt);
                    proof {
                        assert(!old_topics.contains(topic@));
                        topics = topics.push(topic@);
                        assert forall|a: int, b: int| 0 <= a < b < topics.len() implies topics[a] != topics[b] by {
                            if b == topics.len() - 1 {
                                assert(old_topics.contains(old_topics[a]));
                            }
                        }
                        assert forall|j: int| 0 <= j < ret@.len() implies ret@[j]@ == self@[#[trigger] topics[j]] by {
                            if j < before.len() {
                                assert(ret@[j] == before[j]);
                            }
                        }
                    }
                }
            }
            proof {
                assert(topics == if matched { old_topics.push(topic@) } else { old_topics });
                assert forall|t: Seq<char>| #[trigger] topics.contains(t) <==> kv.subrange(0, i + 1).contains(t)
                    && spec_is_match(topic_filter@, t) by {
                    if t == topic@ {
                        assert(kv.subrange(0, i + 1)[i as int] == t);
                        if matched {
                            assert(topics[topics.len() - 1] == t);
                        } else {
                            assert(!old_topics.contains(t));
                        }
                    } else {
                        if topics.contains(t) {
                            let j = choose|j: int| 0 <= j < topics.len() && #[trigger] topics[j] == t;
                            assert(j < old_topics.len());
                            assert(old_topics[j] == t);
                            assert(old_topics.contains(t));
                            let k = choose|k: int| 0 <= k < i && #[trigger] kv.subrange(0, i as int)[k] == t;
                            assert(kv.subrange(0, i + 1)[k] == t);
                        }
                        if kv.subrange(0, i + 1).contains(t) && spec_is_match(topic_filter@, t) {
                            let j = choose|j: int| 0 <= j < i + 1 && #[trigger] kv.subrange(0, i + 1)[j] == t;
                            assert(j < i);
                            assert(kv.subrange(0, i as int)[j] == t);
                            assert(kv.subrange(0, i as int).contains(t));
                            assert(old_topics.contains(t));
                            let k = choose|k: int| 0 <= k < old_topics.len() && #[trigger] old_topics[k] == t;
                            assert(topics[k] == t);
                        }
                    }
                }
            }
            i += 1;
        }
        proof {
            assert(kv.subrange(0, kv.len() as int) =~= kv);
            assert forall|t: Seq<char>| #[trigger] topics.contains(t) <==> self@.dom().contains(t) && spec_is_match(topic_filter@, t) by {
                if self@.dom().contains(t) {
                    assert(kv.to_set().contains(t));
                }
                if topics.contains(t) {
                    assert(kv.contains(t));
                }
            }
            assert(ret@.map_values(|p: Publish| p@).len() == topics.len());
            assert forall|j: int| 0 <= j < ret@.len() implies ret@.map_values(|p: Publish| p@)[j] == self@[#[trigger] topics[j]] by {}
        }
        ret
    }

    /// Whether the topic matches the subscription filter.
    fn is_match(&self, topic_filter: &String, topic: &String) -> (r: bool)
        ensures
            r == spec_is_match(topic_filter@, topic@),
    {
        match_levels(topic_filter, topic)
    }
}


/// The segments joined back with `/` between them.
pub open spec fn spec_join(segs: Seq<Seq<char>>) -> Seq<char>
    decreases segs.len(),
{
    if segs.len() <= 1 {
        if segs.len() == 1 { segs[0] } else { Seq::empty() }
    } else {
        spec_join(segs.drop_last()) + seq!['/'] + segs.last()
    }
}

proof fn lemma_join_extend_last(segs: Seq<Seq<char>>, c: char)
    requires
        segs.len() >= 1,
    ensures
        spec_join(segs.update(segs.len() - 1, segs.last().push(c))) == spec_join(segs).push(c),
{
    let u = segs.update(segs.len() - 1, segs.last().push(c));
    if segs.len() > 1 {
        assert(u.drop_last() =~= segs.drop_last());
        assert(spec_join(u) == spec_join(segs.drop_last()) + seq!['/'] + segs.last().push(c));
        assert(spec_join(segs.drop_last()) + seq!['/'] + segs.last().push(c) =~= (spec_join(segs.drop_last()) + seq![
            '/',
        ] + segs.last()).push(c));
    }
}

/// Joining the segments of a string gives the string back.
proof fn lemma_split_join(s: Seq<char>)
    ensures
        spec_join(spec_split(s)) == s,
    decreases s.len(),
{
    if s.len() == 0 {
        assert(spec_join(seq![Seq::<char>::empty()]) == Seq::<char>::empty());
    } else {
        let prev = spec_split(s.drop_last());
        lemma_split_join(s.drop_last());
        lemma_split_nonempty(s.drop_last());
        if s.last() == '/' {
            let next = prev.push(Seq::<char>::empty());
            assert(next.drop_last() =~= prev);
            assert(spec_join(next) =~= s.drop_last() + seq!['/'] + Seq::<char>::empty());
            assert(s =~= s.drop_last() + seq!['/'] + Seq::<char>::empty());
        } else {
            lemma_join_extend_last(prev, s.last());
            assert(s =~= s.drop_last().push(s.last()));
        }
    }
}

/// A string splits into one segment exactly when it has no `/`.
proof fn lemma_split_single(s: Seq<char>)
    ensures
        spec_split(s).len() == 1 <==> !s.contains('/'),
        spec_split(s).len() == 1 ==> spec_split(s)[0] == s,
    decreases s.len(),
{
    lemma_split_nonempty(s);
    if s.len() > 0 {
        lemma_split_single(s.drop_last());
        lemma_split_nonempty(s.drop_last());
        let prev = spec_split(s.drop_last());
        if s.last() == '/' {
            assert(s[s.len() - 1] == '/');
        } else {
            if s.contains('/') {
                let j = choose|j: int| 0 <= j < s.len() && s[j] == '/';
                assert(s.drop_last()[j] == '/');
            }
            if s.drop_last().contains('/') {
                let j = choose|j: int| 0 <= j < s.len() - 1 && s.drop_last()[j] == '/';
                assert(s[j] == '/');
            }
            if prev.len() == 1 {
                assert(s =~= s.drop_last().push(s.last()));
            }
        }
    }
}

/// Law: the filter `#` matches every topic.
pub proof fn law_hash_matches_every_topic(topic: Seq<char>)
    ensures
        spec_is_match(seq!['#'], topic),
{
    lemma_split_single(seq!['#']);
    assert(!seq!['#'].contains('/')) by {
        if seq!['#'].contains('/') {
            let j = choose|j: int| 0 <= j < 1 && seq!['#'][j] == '/';
        }
    }
    assert(spec_split(seq!['#'])[0] == hash_segment());
}

/// Law: the filter `+` matches exactly the topics of one level (those
/// without `/`).
pub proof fn law_plus_matches_one_level(topic: Seq<char>)
    ensures
        spec_is_match(seq!['+'], topic) <==> !topic.contains('/'),
{
    lemma_split_single(seq!['+']);
    assert(!seq!['+'].contains('/')) by {
        if seq!['+'].contains('/') {
            let j = choose|j: int| 0 <= j < 1 && seq!['+'][j] == '/';
        }
    }
    assert(spec_split(seq!['+'])[0] == plus_segment());
    assert(plus_segment() != hash_segment()) by {
        assert(plus_segment()[0] != hash_segment()[0]);
    }
    lemma_split_single(topic);
}

/// Law: a filter none of whose levels is a wildcard (`+` or `#`) matches
/// exactly the topic that it spells.
pub proof fn law_exact_filter_matches_itself_only(topic_filter: Seq<char>, topic: Seq<char>)
    requires
        forall|i: int| 0 <= i < spec_split(topic_filter).len() ==> #[trigger] spec_split(topic_filter)[i] != hash_segment()
            && spec_split(topic_filter)[i] != plus_segment(),
    ensures
        spec_is_match(topic_filter, topic) <==> topic_filter == topic,
{
    let f = spec_split(topic_filter);
    let t = spec_split(topic);
    lemma_split_nonempty(topic_filter);
    assert(f[f.len() - 1] != hash_segment());
    if spec_is_match(topic_filter, topic) {
        assert(f.len() == t.len());
        assert forall|i: int| 0 <= i < f.len() implies f[i] == t[i] by {
            assert(segment_matches(f[i], t[i]));
        }
        assert(f =~= t);
        lemma_split_join(topic_filter);
        lemma_split_join(topic);
    }
}

/// Law: after a message is retained for a topic, a check with any filter
/// that the topic matches hands out that message.
pub proof fn law_retained_message_is_found(
    store: Map<Seq<char>, PublishModel>,
    topic: Seq<char>,
    pkt: PublishModel,
    topic_filter: Seq<char>,
    found: Seq<PublishModel>,
)
    requires
        spec_is_match(topic_filter, topic),
        is_retained_for(found, store.insert(topic, pkt), topic_filter),
    ensures
        found.contains(pkt),
{
    let m = store.insert(topic, pkt);
    let topics = choose|topics: Seq<Seq<char>>|
        {
            &&& topics.no_duplicates()
            &&& forall|t: Seq<char>| #[trigger] topics.contains(t) <==> m.dom().contains(t) && spec_is_match(topic_filter, t)
            &&& topics.len() == found.len()
            &&& forall|i: int| 0 <= i < found.len() ==> found[i] == m[#[trigger] topics[i]]
        };
    assert(topics.contains(topic));
    let i = choose|i: int| 0 <= i < topics.len() && topics[i] == topic;
    assert(found[i] == m[topics[i]]);
}

} // verus!
