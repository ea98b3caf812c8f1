//! Topic names and topic filters: levels, validation and matching.

use vstd::prelude::*;
use vstd::utf8::*;

use crate::error::{MqttError, Violation};

verus! {

// ----------------------------------------------------------------------------
// Model
// ----------------------------------------------------------------------------

/// The levels of a topic: the stretches between its `/` separators. Every
/// topic has at least one level, which may be empty.
pub open spec fn levels(s: Seq<char>) -> Seq<Seq<char>>
    decreases s.len(),
{
    if s.len() == 0 {
        seq![Seq::empty()]
    } else {
        let before = levels(s.drop_last());
        if s.last() == '/' {
            before.push(Seq::empty())
        } else {
            before.drop_last().push(before.last().push(s.last()))
        }
    }
}

/// The single-level wildcard.
pub open spec fn plus() -> Seq<char> {
    seq!['+']
}

/// The multi-level wildcard.
pub open spec fn hash() -> Seq<char> {
    seq!['#']
}

pub open spec fn has_wildcard(s: Seq<char>) -> bool {
    s.contains('+') || s.contains('#')
}

/// Position of the first `#` level, or the number of levels when there is none.
pub open spec fn first_hash(filter: Seq<Seq<char>>) -> nat
    decreases filter.len(),
{
    if filter.len() == 0 || filter[0] == hash() {
        0
    } else {
        1 + first_hash(filter.skip(1))
    }
}

/// A topic of the server's own: its first level begins with `$`.
pub open spec fn is_reserved(topic: Seq<Seq<char>>) -> bool {
    topic.len() > 0 && topic[0].len() > 0 && topic[0][0] == '$'
}

/// A filter whose first level is a wildcard.
pub open spec fn begins_with_wildcard(filter: Seq<Seq<char>>) -> bool {
    filter.len() > 0 && (filter[0] == plus() || filter[0] == hash())
}

/// Topic filter matching: up to the first `#` each filter level is `+` or the
/// topic's own level, and what `#` stands for is any number of levels. Without
/// a `#` both have the same number of levels. A wildcard at the beginning does
/// not stand for a level that begins with `$`.
pub open spec fn levels_match(filter: Seq<Seq<char>>, topic: Seq<Seq<char>>) -> bool {
    let n = first_hash(filter);
    &&& n <= topic.len()
    &&& n == filter.len() ==> topic.len() == n
    &&& forall|i: int| 0 <= i < n ==> #[trigger] filter[i] == plus() || filter[i] == topic[i]
    &&& is_reserved(topic) ==> !begins_with_wildcard(filter)
}

/// Whether the filter `filter` covers the topic name `topic`.
pub open spec fn topic_matches(filter: Seq<char>, topic: Seq<char>) -> bool {
    levels_match(levels(filter), levels(topic))
}

/// Why a string is no topic name, if it is none.
pub open spec fn publish_topic_violation(topic: Seq<char>) -> Option<Violation> {
    if topic.len() == 0 {
        Some(Violation::EmptyTopic)
    } else if encode_utf8(topic).len() > 0xffff {
        Some(Violation::TopicTooLong)
    } else if has_wildcard(topic) {
        Some(Violation::WildcardInPublishTopic)
    } else {
        None
    }
}

/// What is wrong with level `i` of a filter, if anything: a wildcard shares the
/// level with other characters, or `#` is not the last level.
pub open spec fn level_violation(filter: Seq<Seq<char>>, i: int) -> Option<Violation> {
    if has_wildcard(filter[i]) && filter[i].len() != 1 {
        Some(Violation::WildcardMixedWithLiteral)
    } else if filter[i] == hash() && i + 1 < filter.len() {
        Some(Violation::HashWildcardNotTerminal)
    } else {
        None
    }
}

/// The violation of the leftmost offending level from level `i` on.
pub open spec fn levels_violation(filter: Seq<Seq<char>>, i: nat) -> Option<Violation>
    decreases filter.len() - i,
{
    if i >= filter.len() {
        None
    } else {
        match level_violation(filter, i as int) {
            Some(v) => Some(v),
            None => levels_violation(filter, i + 1),
        }
    }
}

/// Why a string is no topic filter, if it is none.
pub open spec fn filter_violation(filter: Seq<char>) -> Option<Violation> {
    if filter.len() == 0 {
        Some(Violation::EmptyTopic)
    } else if encode_utf8(filter).len() > 0xffff {
        Some(Violation::TopicTooLong)
    } else {
        levels_violation(levels(filter), 0)
    }
}

/// The outcome of a validation that finds `v`.
pub open spec fn refusal(v: Option<Violation>) -> Result<(), MqttError> {
    match v {
        Some(v) => Err(MqttError::Protocol(v)),
        None => Ok(()),
    }
}

/// The characters of each level.
pub open spec fn char_levels(v: Seq<Vec<char>>) -> Seq<Seq<char>> {
    v.map_values(|l: Vec<char>| l@)
}

/// The characters of each string.
pub open spec fn str_levels(v: Seq<&str>) -> Seq<Seq<char>> {
    v.map_values(|l: &str| l@)
}

// ----------------------------------------------------------------------------
// Executable functions
// ----------------------------------------------------------------------------

fn chars_of(s: &str) -> (r: Vec<char>)
    ensures
        r@ == s@,
{
    let mut out: Vec<char> = Vec::new();
    for c in it: s.chars()
        invariant
            out@ == it.seq().take(it.index() as int),
            it.seq() == s@,
    {
        out.push(c);
    }
    assert(out@ =~= s@);
    out
}

/// Splits a topic into its levels.
pub fn split_levels(s: &str) -> (r: Vec<Vec<char>>)
    ensures
        char_levels(r@) == levels(s@),
{
    let chars = chars_of(s);
    let mut done: Vec<Vec<char>> = Vec::new();
    let mut current: Vec<char> = Vec::new();
    let mut i: usize = 0;
    assert(chars@.take(0) =~= Seq::<char>::empty());
    assert(char_levels(done@).push(current@) =~= levels(chars@.take(0)));
    while i < chars.len()
        invariant
            i <= chars@.len(),
            char_levels(done@).push(current@) == levels(chars@.take(i as int)),
        decreases chars@.len() - i,
    {
        let c = chars[i];
        let ghost sofar = chars@.take(i as int);
        let ghost next = chars@.take(i + 1);
        assert(next.drop_last() =~= sofar);
        let ghost before = char_levels(done@).push(current@);
        assert(before.drop_last() =~= char_levels(done@));
        if c == '/' {
            let ghost cur = current@;
            let ghost old_done = done@;
            done.push(current);
            current = Vec::new();
            assert(char_levels(done@) =~= char_levels(old_done).push(cur));
        } else {
            current.push(c);
        }
        assert(char_levels(done@).push(current@) =~= levels(next));
        i += 1;
    }
    assert(chars@.take(i as int) =~= s@);
    let ghost cur = current@;
    let ghost old_done = done@;
    done.push(current);
    assert(char_levels(done@) =~= char_levels(old_done).push(cur));
    done
}

fn same_level(a: &Vec<char>, b: &Vec<char>) -> (r: bool)
    ensures
        r == (a@ == b@),
{
    if a.len() != b.len() {
        return false;
    }
    let mut i: usize = 0;
    while i < a.len()
        invariant
            i <= a@.len(),
            a@.len() == b@.len(),
            forall|j: int| 0 <= j < i ==> a@[j] == b@[j],
        decreases a@.len() - i,
    {
        if a[i] != b[i] {
            return false;
        }
        i += 1;
    }
    assert(a@ =~= b@);
    true
}

fn is_single(a: &Vec<char>, c: char) -> (r: bool)
    ensures
        r == (a@ == seq![c]),
{
    if a.len() == 1 && a[0] == c {
        assert(a@ =~= seq![c]);
        true
    } else {
        proof {
            if a@ == seq![c] {
                assert(a@[0] == c);
            }
        }
        false
    }
}

proof fn lemma_first_hash(filter: Seq<Seq<char>>, n: nat)
    requires
        n <= filter.len(),
        forall|i: int| 0 <= i < n ==> filter[i] != hash(),
        n < filter.len() ==> filter[n as int] == hash(),
    ensures
        first_hash(filter) == n,
    decreases n,
{
    if n > 0 {
        let tail = filter.skip(1);
        assert forall|i: int| 0 <= i < n - 1 implies tail[i] != hash() by {
            assert(tail[i] == filter[i + 1]);
        }
        lemma_first_hash(tail, (n - 1) as nat);
    }
}

proof fn lemma_first_hash_found(filter: Seq<Seq<char>>)
    ensures
        first_hash(filter) <= filter.len(),
        forall|i: int| 0 <= i < first_hash(filter) ==> filter[i] != hash(),
        first_hash(filter) < filter.len() ==> filter[first_hash(filter) as int] == hash(),
    decreases filter.len(),
{
    if filter.len() > 0 && filter[0] != hash() {
        let tail = filter.skip(1);
        lemma_first_hash_found(tail);
        assert forall|i: int| 0 <= i < first_hash(filter) implies filter[i] != hash() by {
            if i > 0 {
                assert(filter[i] == tail[i - 1]);
            }
        }
    }
}

/// Whether the first level begins with `$`.
fn reserved(topic: &Vec<Vec<char>>) -> (r: bool)
    ensures
        r == is_reserved(char_levels(topic@)),
{
    assert(topic@.len() > 0 ==> char_levels(topic@)[0] == topic@[0]@);
    topic.len() > 0 && topic[0].len() > 0 && topic[0][0] == '$'
}

/// Whether the first level is a wildcard.
fn starts_wild(filter: &Vec<Vec<char>>) -> (r: bool)
    ensures
        r == begins_with_wildcard(char_levels(filter@)),
{
    assert(filter@.len() > 0 ==> char_levels(filter@)[0] == filter@[0]@);
    filter.len() > 0 && (is_single(&filter[0], '+') || is_single(&filter[0], '#'))
}

/// Matches the levels of a filter against the levels of a topic name.
pub(crate) fn match_levels(filter: &Vec<Vec<char>>, topic: &Vec<Vec<char>>) -> (r: bool)
    ensures
        r == levels_match(char_levels(filter@), char_levels(topic@)),
{
    let ghost fs = char_levels(filter@);
    let ghost ts = char_levels(topic@);
    if reserved(topic) && starts_wild(filter) {
        return false;
    }
    let mut i: usize = 0;
    while i < filter.len()
        invariant
            i <= filter@.len(),
            i <= topic@.len(),
            is_reserved(ts) ==> !begins_with_wildcard(fs),
            fs == char_levels(filter@),
            ts == char_levels(topic@),
            forall|j: int| 0 <= j < i ==> fs[j] != hash(),
            forall|j: int| 0 <= j < i ==> #[trigger] fs[j] == plus() || fs[j] == ts[j],
        decreases filter@.len() - i,
    {
        assert(fs[i as int] == filter@[i as int]@);
        if is_single(&filter[i], '#') {
            proof {
                lemma_first_hash(fs, i as nat);
            }
            return true;
        }
        proof {
            lemma_first_hash_found(fs);
            let n = first_hash(fs);
            if n <= i {
                assert(fs[n as int] == hash());
                assert(false);
            }
        }
        if i >= topic.len() {
            return false;
        }
        assert(ts[i as int] == topic@[i as int]@);
        if !is_single(&filter[i], '+') && !same_level(&filter[i], &topic[i]) {
            return false;
        }
        i += 1;
    }
    proof {
        lemma_first_hash(fs, i as nat);
    }
    i == topic.len()
}

/// Whether the topic filter `filter` covers the topic whose levels are
/// `topic_segs`.
pub fn filter_matches(filter: &str, topic_segs: &[&str]) -> (r: bool)
    ensures
        r == levels_match(levels(filter@), str_levels(topic_segs@)),
{
    let filter_levels = split_levels(filter);
    let mut topic: Vec<Vec<char>> = Vec::new();
    let mut i: usize = 0;
    while i < topic_segs.len()
        invariant
            i <= topic_segs@.len(),
            topic@.len() == i,
            forall|j: int| 0 <= j < i ==> (#[trigger] topic@[j])@ == topic_segs@[j]@,
        decreases topic_segs@.len() - i,
    {
        topic.push(chars_of(topic_segs[i]));
        i += 1;
    }
    assert(char_levels(topic@) =~= str_levels(topic_segs@));
    match_levels(&filter_levels, &topic)
}

fn contains_wildcard(s: &Vec<char>) -> (r: bool)
    ensures
        r == has_wildcard(s@),
{
    let mut i: usize = 0;
    while i < s.len()
        invariant
            i <= s@.len(),
            forall|j: int| 0 <= j < i ==> s@[j] != '+' && s@[j] != '#',
        decreases s@.len() - i,
    {
        if s[i] == '+' || s[i] == '#' {
            return true;
        }
        i += 1;
    }
    false
}

/// Checks that `topic` can be published to.
pub fn validate_publish_topic(topic: &str) -> (r: Result<(), MqttError>)
    ensures
        r == refusal(publish_topic_violation(topic@)),
{
    let chars = chars_of(topic);
    if chars.len() == 0 {
        return Err(MqttError::Protocol(Violation::EmptyTopic));
    }
    if topic.as_bytes().len() > 0xffff {
        return Err(MqttError::Protocol(Violation::TopicTooLong));
    }
    if contains_wildcard(&chars) {
        return Err(MqttError::Protocol(Violation::WildcardInPublishTopic));
    }
    Ok(())
}

/// Checks that `filter` can be subscribed to.
pub fn validate_subscribe_filter(filter: &str) -> (r: Result<(), MqttError>)
    ensures
        r == refusal(filter_violation(filter@)),
{
    let bytes = filter.as_bytes();
    if filter.is_empty() {
        return Err(MqttError::Protocol(Violation::EmptyTopic));
    }
    if bytes.len() > 0xffff {
        return Err(MqttError::Protocol(Violation::TopicTooLong));
    }
    let parts = split_levels(filter);
    let ghost ls = levels(filter@);
    let mut i: usize = 0;
    while i < parts.len()
        invariant
            i <= parts@.len(),
            filter@.len() > 0,
            encode_utf8(filter@).len() <= 0xffff,
            ls == levels(filter@),
            ls == char_levels(parts@),
            levels_violation(ls, i as nat) == levels_violation(ls, 0),
        decreases parts@.len() - i,
    {
        assert(ls[i as int] == parts@[i as int]@);
        if contains_wildcard(&parts[i]) && parts[i].len() != 1 {
            return Err(MqttError::Protocol(Violation::WildcardMixedWithLiteral));
        }
        if is_single(&parts[i], '#') && i + 1 < parts.len() {
            return Err(MqttError::Protocol(Violation::HashWildcardNotTerminal));
        }
        i += 1;
    }
    Ok(())
}

// ----------------------------------------------------------------------------
// Laws
// ----------------------------------------------------------------------------

/// The levels written one after the other with `/` between them.
pub open spec fn join(ls: Seq<Seq<char>>) -> Seq<char>
    decreases ls.len(),
{
    if ls.len() == 0 {
        Seq::empty()
    } else if ls.len() == 1 {
        ls[0]
    } else {
        join(ls.drop_last()) + seq!['/'] + ls.last()
    }
}

/// Splitting loses nothing: there is at least one level, no level holds a
/// separator, and joining the levels gives the topic back.
pub proof fn levels_partition_the_topic(s: Seq<char>)
    ensures
        levels(s).len() >= 1,
        forall|i: int| 0 <= i < levels(s).len() ==> !(#[trigger] levels(s)[i]).contains('/'),
        join(levels(s)) == s,
    decreases s.len(),
{
    let ls = levels(s);
    if s.len() == 0 {
        assert(join(ls) =~= s);
    } else {
        let before = levels(s.drop_last());
        levels_partition_the_topic(s.drop_last());
        if s.last() == '/' {
            assert(ls.drop_last() =~= before);
            assert(join(ls) =~= s);
        } else {
            assert forall|i: int| 0 <= i < ls.len() implies !(#[trigger] ls[i]).contains('/') by {
                if i == ls.len() - 1 {
                    let l = before.last();
                    assert(!l.contains('/'));
                    if ls[i].contains('/') {
                        let k = choose|k: int| 0 <= k < ls[i].len() && ls[i][k] == '/';
                        assert(l[k] == '/');
                    }
                } else {
                    assert(ls[i] == before[i]);
                }
            }
            assert(ls.drop_last() =~= before.drop_last());
            assert(s.drop_last().push(s.last()) =~= s);
            if before.len() > 1 {
                assert(join(before) == join(before.drop_last()) + seq!['/'] + before.last());
                assert(join(ls) == join(ls.drop_last()) + seq!['/'] + ls.last());
                assert(join(ls) =~= join(before).push(s.last()));
            }
        }
    }
}

/// A topic that names its levels literally is matched by itself and by no
/// other literal filter.
pub proof fn literal_filter_matches_only_itself(filter: Seq<char>, topic: Seq<char>)
    requires
        !has_wildcard(filter),
    ensures
        topic_matches(filter, topic) <==> filter == topic,
{
    let fs = levels(filter);
    let ts = levels(topic);
    levels_partition_the_topic(filter);
    levels_partition_the_topic(topic);
    lemma_levels_keep_characters(filter);
    assert forall|i: int| 0 <= i < fs.len() implies fs[i] != hash() && fs[i] != plus() by {
        if fs[i] == hash() {
            assert(fs[i][0] == '#');
            assert(fs[i].contains('#'));
        }
        if fs[i] == plus() {
            assert(fs[i][0] == '+');
            assert(fs[i].contains('+'));
        }
    }
    lemma_first_hash(fs, fs.len());
    if topic_matches(filter, topic) {
        assert(fs =~= ts);
    }
}

proof fn lemma_levels_keep_characters(s: Seq<char>)
    ensures
        forall|i: int, c: char|
            0 <= i < levels(s).len() && #[trigger] levels(s)[i].contains(c) ==> s.contains(c),
    decreases s.len(),
{
    let ls = levels(s);
    if s.len() > 0 {
        let init = s.drop_last();
        let before = levels(init);
        lemma_levels_keep_characters(init);
        levels_partition_the_topic(init);
        assert forall|i: int, c: char|
            0 <= i < ls.len() && #[trigger] ls[i].contains(c) implies s.contains(c) by {
            let k = choose|k: int| 0 <= k < ls[i].len() && ls[i][k] == c;
            if i < before.len() && (s.last() == '/' || i < before.len() - 1) {
                assert(before[i] == ls[i]);
                assert(before[i].contains(c));
                let j = choose|j: int| 0 <= j < init.len() && init[j] == c;
                assert(s[j] == c);
            } else if s.last() != '/' {
                if k == ls[i].len() - 1 {
                    assert(s[s.len() - 1] == c);
                } else {
                    assert(before.last()[k] == c);
                    assert(before[i].contains(c));
                    let j = choose|j: int| 0 <= j < init.len() && init[j] == c;
                    assert(s[j] == c);
                }
            }
        }
    }
}

/// The filter `#` covers every topic but those that begin with `$`.
pub proof fn hash_matches_everything(topic: Seq<char>)
    requires
        topic.len() > 0 ==> topic[0] != '$',
    ensures
        topic_matches(hash(), topic),
{
    let h = hash();
    assert(h.drop_last() =~= Seq::<char>::empty());
    assert(levels(h.drop_last()) =~= seq![Seq::<char>::empty()]);
    assert(levels(h)[0] =~= hash());
    first_level_begins_the_topic(topic);
}

proof fn first_level_begins_the_topic(s: Seq<char>)
    ensures
        levels(s).len() >= 1,
        levels(s)[0].len() > 0 ==> s.len() > 0 && levels(s)[0][0] == s[0],
        s.len() > 0 && s[0] != '/' ==> levels(s)[0].len() > 0,
        levels(s).len() == 1 ==> levels(s)[0].len() == s.len(),
    decreases s.len(),
{
    if s.len() > 0 {
        let init = s.drop_last();
        first_level_begins_the_topic(init);
        if init.len() > 0 {
            assert(init[0] == s[0]);
        }
    }
}

/// A filter that begins with a wildcard covers no topic that begins with `$`.
pub proof fn wildcards_leave_reserved_topics_alone(filter: Seq<char>, topic: Seq<char>)
    requires
        begins_with_wildcard(levels(filter)),
        topic.len() > 0,
        topic[0] == '$',
    ensures
        !topic_matches(filter, topic),
{
    first_level_begins_the_topic(topic);
}

// ----------------------------------------------------------------------------
// Levels and separators
// ----------------------------------------------------------------------------

/// Text without a separator is one level, and a separator parts the levels
/// before it from the levels behind it.
pub proof fn separators_part_the_levels(a: Seq<char>, b: Seq<char>)
    ensures
        !a.contains('/') ==> levels(a) == seq![a],
        levels(a + seq!['/'] + b) == levels(a) + levels(b),
    decreases a.len() + b.len(),
{
    levels_partition_the_topic(a);
    levels_partition_the_topic(b);
    if !a.contains('/') {
        one_level_without_separators(a);
    }
    let s = a + seq!['/'] + b;
    if b.len() == 0 {
        assert(s.drop_last() =~= a);
        assert(s.last() == '/');
        assert(levels(s) =~= levels(a) + levels(b));
    } else {
        let init = b.drop_last();
        separators_part_the_levels(a, init);
        levels_partition_the_topic(init);
        assert(s.drop_last() =~= a + seq!['/'] + init);
        assert(s.last() == b.last());
        assert(levels(s) =~= levels(a) + levels(b));
    }
}

proof fn one_level_without_separators(s: Seq<char>)
    requires
        !s.contains('/'),
    ensures
        levels(s) == seq![s],
    decreases s.len(),
{
    if s.len() == 0 {
        assert(s =~= Seq::empty());
    } else {
        let init = s.drop_last();
        assert forall|i: int| 0 <= i < init.len() implies init[i] != '/' by {
            assert(s[i] == init[i]);
            assert(s.contains(s[i]));
        }
        one_level_without_separators(init);
        assert(s.contains(s[s.len() - 1]));
        assert(init.push(s.last()) =~= s);
        assert(levels(s) =~= seq![s]);
    }
}

// ----------------------------------------------------------------------------
// Wildcards
// ----------------------------------------------------------------------------

/// Replacing a level of a filter by `+` keeps every match, but for the first
/// level of a topic that begins with `$`.
pub proof fn plus_stands_for_any_level(
    filter: Seq<Seq<char>>,
    topic: Seq<Seq<char>>,
    i: int,
)
    requires
        levels_match(filter, topic),
        0 <= i < filter.len(),
        filter[i] != seq!['#'],
        i == 0 ==> !(topic.len() > 0 && topic[0].len() > 0 && topic[0][0] == '$'),
    ensures
        levels_match(filter.update(i, seq!['+']), topic),
{
    let wider = filter.update(i, seq!['+']);
    let n = first_hash(filter);
    lemma_first_hash_found(filter);
    assert(seq!['+'][0] != seq!['#'][0]);
    assert forall|j: int| 0 <= j < n implies wider[j] != hash() by {
        assert(filter[j] != hash());
    }
    lemma_first_hash(wider, n);
    assert forall|j: int| 0 <= j < n implies #[trigger] wider[j] == plus() || wider[j]
        == topic[j] by {
        assert(filter[j] == plus() || filter[j] == topic[j]);
    }
}

/// Cutting a filter at any level and ending it in `#` keeps every match, but for
/// `#` alone and a topic that begins with `$`.
pub proof fn hash_stands_for_the_rest(
    filter: Seq<Seq<char>>,
    topic: Seq<Seq<char>>,
    k: int,
)
    requires
        levels_match(filter, topic),
        0 <= k <= filter.len(),
        k == 0 ==> !(topic.len() > 0 && topic[0].len() > 0 && topic[0][0] == '$'),
    ensures
        levels_match(filter.take(k).push(seq!['#']), topic),
{
    let wider = filter.take(k).push(seq!['#']);
    let n = first_hash(filter);
    let m: nat = if n < k {
        n
    } else {
        k as nat
    };
    lemma_first_hash_found(filter);
    assert forall|j: int| 0 <= j < m implies wider[j] != hash() by {
        assert(filter[j] != hash());
    }
    lemma_first_hash(wider, m);
    assert forall|j: int| 0 <= j < m implies #[trigger] wider[j] == plus() || wider[j]
        == topic[j] by {
        assert(filter[j] == plus() || filter[j] == topic[j]);
    }
}

/// `+` and `#` work together: behind any levels, `+/#` covers any further level
/// and whatever follows it.
pub proof fn plus_and_hash_combine(
    p: Seq<Seq<char>>,
    x: Seq<char>,
    rest: Seq<Seq<char>>,
)
    requires
        forall|i: int| 0 <= i < p.len() ==> #[trigger] p[i] != seq!['#'],
        p.len() == 0 ==> !(x.len() > 0 && x[0] == '$'),
    ensures
        levels_match(p + seq![seq!['+'], seq!['#']], p + seq![x] + rest),
        levels_match(p + seq![seq!['+']], p + seq![x]),
        levels_match(p + seq![seq!['#']], p + seq![x] + rest),
{
    let n = p.len();
    let both = p + seq![seq!['+'], seq!['#']];
    let one = p + seq![seq!['+']];
    let all = p + seq![seq!['#']];
    assert(seq!['+'][0] != seq!['#'][0]);
    assert(n > 0 ==> begins_with_wildcard(both) ==> p[0] == plus());
    assert(plus()[0] == '+');
    assert forall|i: int| 0 <= i < n implies both[i] != hash() && one[i] != hash() && all[i]
        != hash() by {
        assert(p[i] != hash());
    }
    lemma_first_hash(both, n + 1);
    lemma_first_hash(one, n + 1);
    lemma_first_hash(all, n);
    if n > 0 {
        assert(p[0] != hash());
    }
}

/// The same of whole topics: a literal prefix and `/+/#` cover the prefix, any
/// level and whatever follows, and the prefix with that level alone.
pub proof fn prefixes_with_wildcards_match(p: Seq<char>, x: Seq<char>, rest: Seq<char>)
    requires
        !p.contains('+') && !p.contains('#'),
        !x.contains('/'),
    ensures
        topic_matches(p + seq!['/', '+', '/', '#'], p + seq!['/'] + x + seq!['/'] + rest),
        topic_matches(p + seq!['/', '+', '/', '#'], p + seq!['/'] + x),
        topic_matches(p + seq!['/', '+'], p + seq!['/'] + x),
        topic_matches(p + seq!['/', '#'], p + seq!['/'] + x + seq!['/'] + rest),
        topic_matches(p + seq!['/', '#'], p),
{
    let ps = levels(p);
    let plus = seq!['+'];
    let hash = seq!['#'];
    levels_partition_the_topic(p);
    lemma_levels_keep_characters(p);
    assert forall|i: int| 0 <= i < ps.len() implies #[trigger] ps[i] != seq!['#'] && ps[i]
        != seq!['+'] by {
        if ps[i] == seq!['#'] {
            assert(ps[i][0] == '#');
            assert(ps[i].contains('#'));
        }
        if ps[i] == seq!['+'] {
            assert(ps[i][0] == '+');
            assert(ps[i].contains('+'));
        }
    }
    separators_part_the_levels(plus, hash);
    separators_part_the_levels(hash, hash);
    separators_part_the_levels(p, plus);
    separators_part_the_levels(p, hash);
    separators_part_the_levels(p, x);
    separators_part_the_levels(x, x);
    separators_part_the_levels(p + seq!['/'] + plus, hash);
    separators_part_the_levels(p + seq!['/'] + x, rest);
    assert(p + seq!['/', '+', '/', '#'] =~= p + seq!['/'] + plus + seq!['/'] + hash);
    assert(p + seq!['/', '+'] =~= p + seq!['/'] + plus);
    assert(p + seq!['/', '#'] =~= p + seq!['/'] + hash);
    let none = Seq::<Seq<char>>::empty();
    plus_and_hash_combine(ps, x, levels(rest));
    plus_and_hash_combine(ps, x, none);
    assert(ps + seq![plus] + seq![hash] =~= ps + seq![plus, hash]);
    assert(ps + seq![x] + none =~= ps + seq![x]);
    lemma_first_hash(ps + seq![hash], ps.len());
    assert((ps + seq![hash])[0] == ps[0]);
}

/// Matching goes level by level. A filter without `#` has as many levels as the
/// topics that it covers, and one more level on both sides has to be `+` or the
/// same; `#` covers what the levels before it cover, with anything behind that;
/// what follows a `#` does not matter.
pub proof fn matching_goes_level_by_level(
    filter: Seq<Seq<char>>,
    topic: Seq<Seq<char>>,
    x: Seq<char>,
    y: Seq<char>,
    more: Seq<Seq<char>>,
)
    requires
        filter.len() > 0,
        forall|i: int| 0 <= i < filter.len() ==> #[trigger] filter[i] != seq!['#'],
    ensures
        levels_match(filter, topic) ==> filter.len() == topic.len(),
        x != seq!['#'] ==> (levels_match(filter.push(x), topic.push(y)) <==> levels_match(
            filter,
            topic,
        ) && (x == seq!['+'] || x == y)),
        levels_match(filter.push(seq!['#']), topic) <==> filter.len() <= topic.len()
            && levels_match(filter, topic.take(filter.len() as int)),
        levels_match(filter.push(seq!['#']) + more, topic) <==> levels_match(
            filter.push(seq!['#']),
            topic,
        ),
{
    let n = filter.len();
    assert(filter[0] != hash());
    lemma_first_hash(filter, n);
    let hashed = filter.push(seq!['#']);
    let longer = hashed + more;
    assert forall|i: int| 0 <= i < n implies hashed[i] != hash() && longer[i] != hash() by {
        assert(filter[i] != hash());
    }
    lemma_first_hash(hashed, n);
    lemma_first_hash(longer, n);
    let first = topic.take(n as int);
    if levels_match(hashed, topic) {
        assert forall|i: int| 0 <= i < n implies #[trigger] filter[i] == plus() || filter[i]
            == first[i] by {
            assert(hashed[i] == plus() || hashed[i] == topic[i]);
        }
        assert forall|i: int| 0 <= i < n implies #[trigger] longer[i] == plus() || longer[i]
            == topic[i] by {
            assert(hashed[i] == plus() || hashed[i] == topic[i]);
        }
    }
    if n <= topic.len() && levels_match(filter, first) {
        assert forall|i: int| 0 <= i < n implies #[trigger] hashed[i] == plus() || hashed[i]
            == topic[i] by {
            assert(filter[i] == plus() || filter[i] == first[i]);
        }
    }
    if levels_match(longer, topic) {
        assert forall|i: int| 0 <= i < n implies #[trigger] hashed[i] == plus() || hashed[i]
            == topic[i] by {
            assert(longer[i] == plus() || longer[i] == topic[i]);
        }
    }
    if x != seq!['#'] {
        one_more_level(filter, topic, x, y);
    }
}

proof fn one_more_level(
    filter: Seq<Seq<char>>,
    topic: Seq<Seq<char>>,
    x: Seq<char>,
    y: Seq<char>,
)
    requires
        filter.len() > 0,
        forall|i: int| 0 <= i < filter.len() ==> #[trigger] filter[i] != hash(),
        x != hash(),
    ensures
        levels_match(filter.push(x), topic.push(y)) <==> levels_match(filter, topic) && (x
            == plus() || x == y),
{
    let n = filter.len();
    let f = filter.push(x);
    let t = topic.push(y);
    lemma_first_hash(filter, n);
    assert forall|i: int| 0 <= i < n + 1 implies f[i] != hash() by {
        if i < n {
            assert(filter[i] != hash());
        }
    }
    lemma_first_hash(f, n + 1);
    assert(f[0] == filter[0]);
    if levels_match(f, t) {
        assert(f[n as int] == plus() || f[n as int] == t[n as int]);
        assert forall|i: int| 0 <= i < n implies #[trigger] filter[i] == plus() || filter[i]
            == topic[i] by {
            assert(f[i] == plus() || f[i] == t[i]);
        }
    }
    if levels_match(filter, topic) && (x == plus() || x == y) {
        assert(t[0] == topic[0]);
        assert forall|i: int| 0 <= i < n + 1 implies #[trigger] f[i] == plus() || f[i] == t[i] by {
            if i < n {
                assert(filter[i] == plus() || filter[i] == topic[i]);
            }
        }
    }
}

/// Filters of one level: a literal covers itself, `+` every single level, `#`
/// any number of levels; the wildcards leave out what begins with `$`.
pub proof fn matching_a_single_level(x: Seq<char>, topic: Seq<Seq<char>>)
    requires
        topic.len() > 0,
    ensures
        ({
            let reserved = topic[0].len() > 0 && topic[0][0] == '$';
            &&& levels_match(seq![seq!['#']], topic) <==> !reserved
            &&& levels_match(seq![seq!['+']], topic) <==> !reserved && topic.len() == 1
            &&& x != seq!['#'] && x != seq!['+'] ==> (levels_match(seq![x], topic) <==> topic
                == seq![x])
        }),
{
    assert(seq!['+'][0] != seq!['#'][0]);
    lemma_first_hash(seq![seq!['#']], 0);
    lemma_first_hash(seq![seq!['+']], 1);
    assert(seq![x][0] == x);
    if x != seq!['#'] && x != seq!['+'] {
        lemma_first_hash(seq![x], 1);
        if levels_match(seq![x], topic) {
            assert(topic =~= seq![x]);
        }
    }
}

// ----------------------------------------------------------------------------
// Names and filters
// ----------------------------------------------------------------------------

/// A topic name is neither empty nor longer than 65535 bytes and holds no
/// wildcard; each fault has its error, in that order.
pub proof fn names_hold_no_wildcard(t: Seq<char>)
    ensures
        refusal(publish_topic_violation(t)) is Ok <==> t.len() > 0 && encode_utf8(t).len() <= 65535
            && !t.contains('+') && !t.contains('#'),
        t.len() == 0 <==> refusal(publish_topic_violation(t)) == Err::<(), MqttError>(
            MqttError::Protocol(Violation::EmptyTopic),
        ),
        t.len() > 0 && encode_utf8(t).len() > 65535 <==> refusal(publish_topic_violation(t))
            == Err::<(), MqttError>(MqttError::Protocol(Violation::TopicTooLong)),
        t.len() > 0 && encode_utf8(t).len() <= 65535 && (t.contains('+') || t.contains('#'))
            ==> refusal(publish_topic_violation(t)) == Err::<(), MqttError>(
            MqttError::Protocol(Violation::WildcardInPublishTopic),
        ),
{
}

/// The wildcards of a filter stand alone between separators.
spec fn wildcards_stand_alone(s: Seq<char>) -> bool {
    forall|i: int|
        0 <= i < s.len() && (#[trigger] s[i] == '+' || s[i] == '#') ==> (i == 0 || s[i - 1] == '/')
            && (i + 1 == s.len() || s[i + 1] == '/')
}

/// Levels that hold a wildcard hold nothing else.
spec fn pure_levels(ls: Seq<Seq<char>>) -> bool {
    forall|i: int| 0 <= i < ls.len() && has_wildcard(#[trigger] ls[i]) ==> ls[i].len() == 1
}

proof fn last_level(s: Seq<char>)
    ensures
        levels(s).len() >= 1,
        levels(s).last().len() == 0 <==> s.len() == 0 || s.last() == '/',
        levels(s).last().len() > 0 ==> levels(s).last().last() == s.last(),
{
    levels_partition_the_topic(s);
    if s.len() > 0 {
        levels_partition_the_topic(s.drop_last());
    }
}

proof fn appended_level(l: Seq<char>, c: char)
    ensures
        has_wildcard(l.push(c)) <==> has_wildcard(l) || c == '+' || c == '#',
{
    let m = l.push(c);
    assert(m[l.len() as int] == c);
    if has_wildcard(l) {
        let k = choose|k: int| 0 <= k < l.len() && (l[k] == '+' || l[k] == '#');
        assert(m[k] == l[k]);
    }
    if has_wildcard(m) {
        let k = choose|k: int| 0 <= k < m.len() && (m[k] == '+' || m[k] == '#');
        if k < l.len() {
            assert(l[k] == m[k]);
        }
    }
}

proof fn pure_levels_stand_alone(s: Seq<char>)
    ensures
        pure_levels(levels(s)) <==> wildcards_stand_alone(s),
    decreases s.len(),
{
    let ls = levels(s);
    if s.len() == 0 {
        assert(!has_wildcard(ls[0]));
    } else {
        let init = s.drop_last();
        let before = levels(init);
        let c = s.last();
        let n = before.len() - 1;
        pure_levels_stand_alone(init);
        last_level(init);
        assert(forall|i: int| 0 <= i < init.len() ==> #[trigger] init[i] == s[i]);
        if c == '/' {
            assert(!has_wildcard(ls[n + 1]));
            assert(forall|i: int| 0 <= i <= n ==> #[trigger] ls[i] == before[i]);
            if pure_levels(ls) {
                assert forall|i: int| 0 <= i < before.len() && has_wildcard(
                    #[trigger] before[i],
                ) implies before[i].len() == 1 by {
                    assert(ls[i] == before[i]);
                }
            }
            if pure_levels(before) {
                assert forall|i: int| 0 <= i < ls.len() && has_wildcard(
                    #[trigger] ls[i],
                ) implies ls[i].len() == 1 by {
                    if i < before.len() {
                        assert(has_wildcard(before[i]) ==> before[i].len() == 1);
                    }
                }
            }
            if wildcards_stand_alone(init) {
                assert forall|i: int| 0 <= i < s.len() && (#[trigger] s[i] == '+' || s[i]
                    == '#') implies (i == 0 || s[i - 1] == '/') && (i + 1 == s.len() || s[i + 1]
                    == '/') by {
                    if i < init.len() {
                        assert(init[i] == s[i]);
                    }
                }
            }
            if wildcards_stand_alone(s) {
                assert forall|i: int| 0 <= i < init.len() && (#[trigger] init[i] == '+' || init[i]
                    == '#') implies (i == 0 || init[i - 1] == '/') && (i + 1 == init.len()
                    || init[i + 1] == '/') by {
                    assert(s[i] == init[i]);
                }
            }
        } else {
            let l = before[n];
            appended_level(l, c);
            assert(ls[n] == l.push(c));
            assert(forall|i: int| 0 <= i < n ==> #[trigger] ls[i] == before[i]);
            if l.len() == 0 {
                assert(!has_wildcard(l));
                if pure_levels(before) {
                    assert forall|i: int| 0 <= i < ls.len() && has_wildcard(
                        #[trigger] ls[i],
                    ) implies ls[i].len() == 1 by {
                        if i < before.len() {
                            assert(has_wildcard(before[i]) ==> before[i].len() == 1);
                        }
                    }
                }
                if pure_levels(ls) {
                    assert forall|i: int| 0 <= i < before.len() && has_wildcard(
                        #[trigger] before[i],
                    ) implies before[i].len() == 1 by {
                        assert(ls[i] == before[i]);
                    }
                }
                if wildcards_stand_alone(s) {
                    assert forall|i: int| 0 <= i < init.len() && (#[trigger] init[i] == '+'
                        || init[i] == '#') implies (i == 0 || init[i - 1] == '/') && (i + 1
                        == init.len() || init[i + 1] == '/') by {
                        assert(s[i] == init[i]);
                    }
                }
                if wildcards_stand_alone(init) {
                    assert forall|i: int| 0 <= i < s.len() && (#[trigger] s[i] == '+' || s[i]
                        == '#') implies (i == 0 || s[i - 1] == '/') && (i + 1 == s.len() || s[i + 1]
                        == '/') by {
                        if i < init.len() {
                            assert(init[i] == s[i]);
                        }
                    }
                }
            } else {
                let last = init.len() - 1;
                assert(l[l.len() - 1] == init[last]);
                assert(init[last] != '/');
                if pure_levels(ls) {
                    assert(!has_wildcard(ls[n]));
                    assert(!l.contains(init[last]) || !(init[last] == '+' || init[last] == '#'));
                    assert forall|i: int| 0 <= i < before.len() && has_wildcard(
                        #[trigger] before[i],
                    ) implies before[i].len() == 1 by {
                        assert(ls[i] == before[i] || i == n);
                    }
                    assert forall|i: int| 0 <= i < s.len() && (#[trigger] s[i] == '+' || s[i]
                        == '#') implies (i == 0 || s[i - 1] == '/') && (i + 1 == s.len() || s[i + 1]
                        == '/') by {
                        assert(init[i] == s[i]);
                        assert(i != last);
                    }
                }
                if wildcards_stand_alone(s) {
                    assert(s[last] == init[last]);
                    assert(s[last + 1] == c);
                    assert forall|i: int| 0 <= i < init.len() && (#[trigger] init[i] == '+'
                        || init[i] == '#') implies (i == 0 || init[i - 1] == '/') && (i + 1
                        == init.len() || init[i + 1] == '/') by {
                        assert(s[i] == init[i]);
                    }
                    assert(pure_levels(before));
                    if has_wildcard(l) {
                        assert(has_wildcard(before[n]));
                        assert(l.len() == 1);
                        let k = choose|k: int| 0 <= k < l.len() && (l[k] == '+' || l[k] == '#');
                        assert(k == 0);
                    }
                    assert forall|i: int| 0 <= i < ls.len() && has_wildcard(
                        #[trigger] ls[i],
                    ) implies ls[i].len() == 1 by {
                        assert(ls[i] == before[i] || i == n);
                    }
                }
            }
        }
    }
}

proof fn characters_stand_in_levels(s: Seq<char>, c: char)
    requires
        s.contains(c),
        c != '/',
    ensures
        exists|i: int| 0 <= i < levels(s).len() && (#[trigger] levels(s)[i]).contains(c),
    decreases s.len(),
{
    let ls = levels(s);
    let init = s.drop_last();
    let before = levels(init);
    last_level(s);
    last_level(init);
    if s.last() == c {
        let l = ls[ls.len() - 1];
        assert(l[l.len() - 1] == c);
        assert(ls[ls.len() - 1].contains(c));
    } else {
        let k = choose|k: int| 0 <= k < s.len() && s[k] == c;
        assert(init[k] == c);
        characters_stand_in_levels(init, c);
        let i = choose|i: int| 0 <= i < before.len() && (#[trigger] before[i]).contains(c);
        if i < before.len() - 1 || s.last() == '/' {
            assert(ls[i] == before[i]);
        } else {
            let j = choose|j: int| 0 <= j < before[i].len() && before[i][j] == c;
            assert(ls[i][j] == c);
            assert(ls[i].contains(c));
        }
    }
}

proof fn no_violation_means_none(ls: Seq<Seq<char>>, i: nat)
    ensures
        levels_violation(ls, i) is None <==> forall|j: int|
            i <= j < ls.len() ==> level_violation(ls, j) is None,
    decreases ls.len() - i,
{
    if i < ls.len() {
        no_violation_means_none(ls, i + 1);
        if levels_violation(ls, i) is Some && level_violation(ls, i as int) is None {
            let j = choose|j: int| i + 1 <= j < ls.len() && level_violation(ls, j) is Some;
            assert(i <= j < ls.len());
        }
    }
}

/// A topic filter is neither empty nor longer than 65535 bytes, each wildcard in
/// it stands alone between separators, and `#` stands at its end.
pub proof fn filters_hold_wildcards_in_place(f: Seq<char>)
    ensures
        refusal(filter_violation(f)) is Ok <==> f.len() > 0 && encode_utf8(f).len() <= 65535 && (
        forall|i: int|
            0 <= i < f.len() && (#[trigger] f[i] == '+' || f[i] == '#') ==> (i == 0 || f[i - 1]
                == '/') && (i + 1 == f.len() || f[i + 1] == '/')) && (forall|i: int|
            0 <= i < f.len() && #[trigger] f[i] == '#' ==> i + 1 == f.len()),
        f.len() == 0 <==> refusal(filter_violation(f)) == Err::<(), MqttError>(
            MqttError::Protocol(Violation::EmptyTopic),
        ),
        f.len() > 0 && encode_utf8(f).len() > 65535 <==> refusal(filter_violation(f)) == Err::<
            (),
            MqttError,
        >(MqttError::Protocol(Violation::TopicTooLong)),
{
    let ls = levels(f);
    no_violation_means_none(ls, 0);
    no_long_violation(ls, 0);
    pure_levels_stand_alone(f);
    if f.len() > 0 {
        let init = f.drop_last();
        let before = levels(init);
        let none_violates = forall|j: int| 0 <= j < ls.len() ==> level_violation(ls, j) is None;
        let hash_at_end = forall|i: int|
            0 <= i < f.len() && #[trigger] f[i] == '#' ==> i + 1 == f.len();
        last_level(f);
        last_level(init);
        if none_violates {
            assert(pure_levels(ls)) by {
                assert forall|j: int| 0 <= j < ls.len() && has_wildcard(
                    #[trigger] ls[j],
                ) implies ls[j].len() == 1 by {
                    assert(level_violation(ls, j) is None);
                }
            }
            assert forall|i: int| 0 <= i < f.len() && #[trigger] f[i] == '#' implies i + 1
                == f.len() by {
                if i + 1 < f.len() {
                    assert(init[i] == '#');
                    assert(init.contains('#'));
                    characters_stand_in_levels(init, '#');
                    let j = choose|j: int|
                        0 <= j < before.len() && (#[trigger] before[j]).contains('#');
                    if f.last() == '/' || j < before.len() - 1 {
                        assert(ls[j] == before[j]);
                        assert(has_wildcard(ls[j]));
                        assert(ls[j] =~= hash());
                        assert(level_violation(ls, j) is None);
                    } else {
                        appended_level(before[j], f.last());
                        assert(ls[j] == before[j].push(f.last()));
                        assert(has_wildcard(ls[j]));
                        assert(ls[j].len() == 1);
                    }
                }
            }
        }
        if pure_levels(ls) && hash_at_end {
            assert forall|j: int| 0 <= j < ls.len() implies level_violation(ls, j) is None by {
                assert(has_wildcard(ls[j]) ==> ls[j].len() == 1);
                if ls[j] == hash() && j + 1 < ls.len() {
                    assert(ls[j][0] == '#');
                    assert(ls[j].contains('#'));
                    if f.last() == '/' || j < before.len() - 1 {
                        assert(before[j] == ls[j]);
                    }
                    lemma_levels_keep_characters(init);
                    assert(before[j].contains('#'));
                    assert(init.contains('#'));
                    let k = choose|k: int| 0 <= k < init.len() && init[k] == '#';
                    assert(f[k] == '#');
                }
            }
        }
    }
}

proof fn no_long_violation(ls: Seq<Seq<char>>, i: nat)
    ensures
        levels_violation(ls, i) != Some(Violation::EmptyTopic),
        levels_violation(ls, i) != Some(Violation::TopicTooLong),
    decreases ls.len() - i,
{
    if i < ls.len() {
        no_long_violation(ls, i + 1);
    }
}

proof fn violations_have_a_level(ls: Seq<Seq<char>>, i: nat)
    requires
        levels_violation(ls, i) is Some,
    ensures
        exists|j: int|
            i <= j < ls.len() && #[trigger] level_violation(ls, j) == levels_violation(ls, i),
    decreases ls.len() - i,
{
    if level_violation(ls, i as int) is None {
        violations_have_a_level(ls, i + 1);
        let j = choose|j: int|
            i + 1 <= j < ls.len() && #[trigger] level_violation(ls, j) == levels_violation(
                ls,
                i + 1,
            );
        assert(level_violation(ls, j) == levels_violation(ls, i));
    }
}

/// The two faults of wildcards are told apart: one that does not stand alone,
/// and a `#` that stands alone but not at the end.
pub proof fn misplaced_wildcards_are_told_apart(f: Seq<char>)
    requires
        f.len() > 0,
        encode_utf8(f).len() <= 65535,
    ensures
        ({
            let alone = forall|i: int|
                0 <= i < f.len() && (#[trigger] f[i] == '+' || f[i] == '#') ==> (i == 0 || f[i - 1]
                    == '/') && (i + 1 == f.len() || f[i + 1] == '/');
            let at_end = forall|i: int|
                0 <= i < f.len() && #[trigger] f[i] == '#' ==> i + 1 == f.len();
            &&& alone && !at_end ==> refusal(filter_violation(f)) == Err::<(), MqttError>(
                MqttError::Protocol(Violation::HashWildcardNotTerminal),
            )
            &&& !alone && at_end ==> refusal(filter_violation(f)) == Err::<(), MqttError>(
                MqttError::Protocol(Violation::WildcardMixedWithLiteral),
            )
        }),
{
    let ls = levels(f);
    filters_hold_wildcards_in_place(f);
    pure_levels_stand_alone(f);
    if levels_violation(ls, 0) is Some {
        violations_have_a_level(ls, 0);
        let j = choose|j: int|
            0 <= j < ls.len() && #[trigger] level_violation(ls, j) == levels_violation(ls, 0);
        assert(wildcards_stand_alone(f) ==> (has_wildcard(ls[j]) ==> ls[j].len() == 1));
        if ls[j] == hash() && j + 1 < ls.len() {
            let init = f.drop_last();
            let before = levels(init);
            last_level(f);
            last_level(init);
            assert(ls[j][0] == '#');
            if f.last() == '/' || j < before.len() - 1 {
                assert(before[j] == ls[j]);
            }
            lemma_levels_keep_characters(init);
            assert(before[j].contains('#'));
            let k = choose|k: int| 0 <= k < init.len() && init[k] == '#';
            assert(f[k] == '#');
        }
    }
}

/// The lists of levels hold the characters of each level, in order.
pub proof fn lists_hold_the_levels(a: Seq<Vec<char>>, b: Seq<&str>)
    ensures
        char_levels(a).len() == a.len(),
        forall|i: int| 0 <= i < a.len() ==> #[trigger] char_levels(a)[i] == a[i]@,
        str_levels(b).len() == b.len(),
        forall|i: int| 0 <= i < b.len() ==> #[trigger] str_levels(b)[i] == b[i]@,
{
}

} // verus!
