//! Pure topic / subscription / event / dashboard mapping helpers.

use vstd::prelude::*;

use crate::time::Timestamp;
use crate::types::{DashboardStats, EventDetail, EventSummary, SubscriptionSummary, TopicSummary};

verus! {

/// The view of an optional string.
pub open spec fn opt_text(o: Option<String>) -> Option<Seq<char>> {
    match o {
        Some(s) => Some(s@),
        None => None,
    }
}

/// The payload-preview chip for a delivery status: `[status]`.
pub open spec fn delivery_preview(delivery_status: Seq<char>) -> Seq<char> {
    seq!['['] + delivery_status + seq![']']
}

/// Formats the short payload-preview chip shown in event list rows.
pub fn format_delivery_preview(delivery_status: &str) -> (r: String)
    ensures
        r@ == delivery_preview(delivery_status@),
{
    let mut r = String::from_str("[");
    r.append(delivery_status);
    r.append("]");
    proof {
        reveal_strlit("[");
        reveal_strlit("]");
    }
    assert(r@ =~= delivery_preview(delivery_status@));
    r
}

/// Locates a topic summary by exact name (used by `get_topic` detail lookups):
/// the first topic so named, or `None` when no topic has that name.
pub fn find_topic_by_name<'a>(topics: &'a [TopicSummary], topic_name: &str) -> (r: Option<
    &'a TopicSummary,
>)
    ensures
        match r {
            Some(t) => exists|i: int|
                0 <= i < topics@.len() && *t == topics@[i] && topics@[i].topic_name@
                    == topic_name@ && forall|j: int|
                    0 <= j < i ==> (#[trigger] topics@[j]).topic_name@ != topic_name@,
            None => forall|i: int|
                0 <= i < topics@.len() ==> (#[trigger] topics@[i]).topic_name@ != topic_name@,
        },
{
    let target = String::from_str(topic_name);
    let mut i: usize = 0;
    while i < topics.len()
        invariant
            i <= topics@.len(),
            target@ == topic_name@,
            forall|j: int| 0 <= j < i ==> (#[trigger] topics@[j]).topic_name@ != topic_name@,
        decreases topics@.len() - i,
    {
        if topics[i].topic_name == target {
            return Some(&topics[i]);
        }
        i = i + 1;
    }
    None
}

/// Locates a subscription summary by exact id (used by `get_subscription`):
/// the first subscription with that id, or `None` when there is none.
pub fn find_subscription_by_id<'a>(subs: &'a [SubscriptionSummary], id: &str) -> (r: Option<
    &'a SubscriptionSummary,
>)
    ensures
        match r {
            Some(s) => exists|i: int|
                0 <= i < subs@.len() && *s == subs@[i] && subs@[i].subscription_id@ == id@
                    && forall|j: int|
                    0 <= j < i ==> (#[trigger] subs@[j]).subscription_id@ != id@,
            None => forall|i: int|
                0 <= i < subs@.len() ==> (#[trigger] subs@[i]).subscription_id@ != id@,
        },
{
    let target = String::from_str(id);
    let mut i: usize = 0;
    while i < subs.len()
        invariant
            i <= subs@.len(),
            target@ == id@,
            forall|j: int| 0 <= j < i ==> (#[trigger] subs@[j]).subscription_id@ != id@,
        decreases subs@.len() - i,
    {
        if subs[i].subscription_id == target {
            return Some(&subs[i]);
        }
        i = i + 1;
    }
    None
}

/// The test of a subscription for attachment to `topic_name`.
pub open spec fn on_topic(topic_name: Seq<char>) -> spec_fn(SubscriptionSummary) -> bool {
    |s: SubscriptionSummary| s.topic_name@ == topic_name
}

/// The subscriptions attached to `topic_name`, in their original order.
pub open spec fn subscriptions_of_topic(subs: Seq<SubscriptionSummary>, topic_name: Seq<char>) -> Seq<
    SubscriptionSummary,
> {
    subs.filter(on_topic(topic_name))
}

/// Filters subscriptions attached to a topic (topic-detail page contract).
pub fn filter_subscriptions_by_topic<'a>(
    subs: &'a [SubscriptionSummary],
    topic_name: &str,
) -> (r: Vec<&'a SubscriptionSummary>)
    ensures
        r@.len() == subscriptions_of_topic(subs@, topic_name@).len(),
        forall|i: int|
            0 <= i < r@.len() ==> *(#[trigger] r@[i]) == subscriptions_of_topic(subs@, topic_name@)[i],
{
    let target = String::from_str(topic_name);
    let ghost pred = on_topic(topic_name@);
    let mut r: Vec<&'a SubscriptionSummary> = Vec::new();
    let mut i: usize = 0;
    assert(subs@.take(0) =~= Seq::<SubscriptionSummary>::empty());
    while i < subs.len()
        invariant
            i <= subs@.len(),
            target@ == topic_name@,
            pred == on_topic(topic_name@),
            r@.len() == subs@.take(i as int).filter(pred).len(),
            forall|k: int| 0 <= k < r@.len() ==> *(#[trigger] r@[k]) == subs@.take(i as int).filter(pred)[k],
        decreases subs@.len() - i,
    {
        let ghost before = subs@.take(i as int).filter(pred);
        proof {
            assert(subs@.take(i + 1) =~= subs@.take(i as int).push(subs@[i as int]));
            subs@.take(i as int).lemma_filter_push(subs@[i as int], pred);
        }
        if subs[i].topic_name == target {
            r.push(&subs[i]);
        }
        i = i + 1;
    }
    assert(subs@.take(subs@.len() as int) =~= subs@);
    r
}

/// The test of a timestamp against a cut-off: at or after it.
pub open spec fn at_or_after(since: Timestamp) -> spec_fn(Timestamp) -> bool {
    |t: Timestamp| t.spec_at_or_after(since)
}

/// The timestamps of `timestamps` that fall at or after `since`.
pub open spec fn stamps_since(timestamps: Seq<Timestamp>, since: Timestamp) -> Seq<Timestamp> {
    timestamps.filter(at_or_after(since))
}

/// Counts timestamps at or after `since` (dashboard / topic 24h windows).
pub fn count_since(timestamps: &[Timestamp], since: Timestamp) -> (r: u64)
    ensures
        r == stamps_since(timestamps@, since).len(),
{
    let ghost pred = at_or_after(since);
    let mut count: usize = 0;
    let mut i: usize = 0;
    assert(timestamps@.take(0) =~= Seq::<Timestamp>::empty());
    while i < timestamps.len()
        invariant
            i <= timestamps@.len(),
            pred == at_or_after(since),
            count == timestamps@.take(i as int).filter(pred).len(),
            count <= i,
        decreases timestamps@.len() - i,
    {
        proof {
            assert(timestamps@.take(i + 1) =~= timestamps@.take(i as int).push(timestamps@[i as int]));
            timestamps@.take(i as int).lemma_filter_push(timestamps@[i as int], pred);
        }
        if timestamps[i].is_at_or_after(&since) {
            count = count + 1;
        }
        i = i + 1;
    }
    assert(timestamps@.take(timestamps@.len() as int) =~= timestamps@);
    count as u64
}

/// Builds dashboard KPI counters after registry and store queries resolve.
pub fn dashboard_stats(topic_count: u32, subscription_count: u32, event_count_24h: u64) -> (r:
    DashboardStats)
    ensures
        r.topic_count == topic_count,
        r.subscription_count == subscription_count,
        r.event_count_24h == event_count_24h,
{
    DashboardStats { topic_count, subscription_count, event_count_24h }
}

/// Builds an [`EventSummary`] list-row preview from projected metadata fields.
pub fn event_summary_from_meta(
    event_id: &str,
    topic_name: &str,
    topic_key: Option<String>,
    seq: i64,
    created_at: &str,
    delivery_status: &str,
) -> (r: EventSummary)
    ensures
        r.event_id@ == event_id@,
        r.topic_name@ == topic_name@,
        r.topic_key == topic_key,
        r.seq == seq,
        r.created_at@ == created_at@,
        r.payload_preview@ == delivery_preview(delivery_status@),
{
    EventSummary {
        event_id: String::from_str(event_id),
        topic_name: String::from_str(topic_name),
        topic_key,
        seq,
        created_at: String::from_str(created_at),
        payload_preview: format_delivery_preview(delivery_status),
    }
}

/// The delivery status of an event read from the transport log.
pub open spec fn stored_status() -> Seq<char> {
    seq!['s', 't', 'o', 'r', 'e', 'd']
}

/// Builds an [`EventSummary`] from a transport-log event (ops browse via Photon
/// list APIs): its preview chip is `[stored]`.
pub fn event_summary_from_transport(
    event_id: &str,
    topic_name: &str,
    topic_key: Option<String>,
    seq: i64,
    created_at: &str,
) -> (r: EventSummary)
    ensures
        r.event_id@ == event_id@,
        r.topic_name@ == topic_name@,
        r.topic_key == topic_key,
        r.seq == seq,
        r.created_at@ == created_at@,
        r.payload_preview@ == delivery_preview(stored_status()),
{
    proof {
        reveal_strlit("stored");
    }
    event_summary_from_meta(event_id, topic_name, topic_key, seq, created_at, "stored")
}

/// `serde_json::Value::Null`. Nothing is claimed of the value it returns.
#[verifier::external_body]
fn json_null() -> serde_json::Value {
    serde_json::Value::Null
}

/// Builds [`EventDetail`] when Valence metadata exists but transport payload is
/// gone: payload and actor are JSON `null` and the record is marked expired.
pub fn event_detail_transport_expired(
    event_id: &str,
    topic_name: &str,
    topic_key: Option<String>,
    seq: i64,
    created_at: &str,
    delivery_status: &str,
) -> (r: EventDetail)
    ensures
        r.event_id@ == event_id@,
        r.topic_name@ == topic_name@,
        r.topic_key == topic_key,
        r.seq == seq,
        r.created_at@ == created_at@,
        r.delivery_status@ == delivery_status@,
        r.transport_expired,
{
    EventDetail {
        event_id: String::from_str(event_id),
        topic_name: String::from_str(topic_name),
        topic_key,
        seq,
        created_at: String::from_str(created_at),
        delivery_status: String::from_str(delivery_status),
        payload_json: json_null(),
        actor_json: json_null(),
        transport_expired: true,
    }
}

/// Builds [`EventDetail`] from a live transport event: status `stored`, the
/// payload and actor as given, not expired.
pub fn event_detail_from_transport(
    event_id: &str,
    topic_name: &str,
    topic_key: Option<String>,
    seq: i64,
    created_at: &str,
    payload_json: serde_json::Value,
    actor_json: serde_json::Value,
) -> (r: EventDetail)
    ensures
        r.event_id@ == event_id@,
        r.topic_name@ == topic_name@,
        r.topic_key == topic_key,
        r.seq == seq,
        r.created_at@ == created_at@,
        r.delivery_status@ == stored_status(),
        r.payload_json == payload_json,
        r.actor_json == actor_json,
        !r.transport_expired,
{
    proof {
        reveal_strlit("stored");
    }
    EventDetail {
        event_id: String::from_str(event_id),
        topic_name: String::from_str(topic_name),
        topic_key,
        seq,
        created_at: String::from_str(created_at),
        delivery_status: String::from_str("stored"),
        payload_json,
        actor_json,
        transport_expired: false,
    }
}

/// Checkpoint lag placeholder until live lag is wired from Photon checkpoints vs head.
pub fn stub_checkpoint_lag() -> (r: i64)
    ensures
        r == 0,
{
    0
}

/// Builds a [`SubscriptionSummary`] from Photon `admin_snapshot` handler +
/// checkpoint fields. The registry key is the id, and also the display name
/// when the handler has no subscription name.
pub fn subscription_summary_from_handler(
    registry_key: &str,
    subscription_name: Option<String>,
    topic_name: &str,
    mode: &str,
    last_seq: Option<i64>,
) -> (r: SubscriptionSummary)
    ensures
        r.subscription_id@ == registry_key@,
        r.subscription_name@ == match subscription_name {
            Some(n) => n@,
            None => registry_key@,
        },
        r.topic_name@ == topic_name@,
        r.enabled,
        r.mode@ == mode@,
        r.topic_key_filter is None,
        r.checkpoint_lag == 0,
        r.last_seq == last_seq,
        r.last_processed_at is None,
{
    let display_name = match subscription_name {
        Some(n) => n,
        None => String::from_str(registry_key),
    };
    SubscriptionSummary {
        subscription_id: String::from_str(registry_key),
        subscription_name: display_name,
        topic_name: String::from_str(topic_name),
        enabled: true,
        mode: String::from_str(mode),
        topic_key_filter: None,
        checkpoint_lag: stub_checkpoint_lag(),
        last_seq,
        last_processed_at: None,
    }
}

/// A checkpoint row: subscription name, topic name, topic key, last sequence.
pub type CheckpointRow = (String, String, Option<String>, Option<i64>);

/// Checkpoint row `c` belongs to subscription `sub` on topic `topic`.
pub open spec fn checkpoint_matches(c: CheckpointRow, sub: Seq<char>, topic: Seq<char>) -> bool {
    c.0@ == sub && c.1@ == topic
}

/// The sequence recorded by the first checkpoint row for subscription `sub`
/// on topic `topic`; `None` when no row matches.
pub open spec fn first_checkpoint_seq(cps: Seq<CheckpointRow>, sub: Seq<char>, topic: Seq<char>) -> Option<i64>
    decreases cps.len(),
{
    if cps.len() == 0 {
        None
    } else if checkpoint_matches(cps[0], sub, topic) {
        cps[0].3
    } else {
        first_checkpoint_seq(cps.drop_first(), sub, topic)
    }
}

/// The checkpoint sequence of a handler: none without a subscription name,
/// else that of the first matching row.
pub open spec fn checkpoint_seq(cps: Seq<CheckpointRow>, sub: Option<Seq<char>>, topic: Seq<char>) -> Option<i64> {
    match sub {
        None => None,
        Some(s) => first_checkpoint_seq(cps, s, topic),
    }
}

/// Matches a checkpoint `last_seq` for a handler subscription/topic pair: the
/// sequence of the first checkpoint row for that pair; `None` when the handler
/// has no subscription name or no row matches.
pub fn find_checkpoint_seq(
    checkpoints: &[CheckpointRow],
    subscription_name: Option<&str>,
    topic_name: &str,
) -> (r: Option<i64>)
    ensures
        r == checkpoint_seq(
            checkpoints@,
            match subscription_name {
                Some(s) => Some(s@),
                None => None,
            },
            topic_name@,
        ),
{
    let sub = match subscription_name {
        Some(s) => s,
        None => {
            return None;
        },
    };
    let sub_s = String::from_str(sub);
    let topic_s = String::from_str(topic_name);
    let mut i: usize = 0;
    assert(checkpoints@.skip(0) =~= checkpoints@);
    while i < checkpoints.len()
        invariant
            i <= checkpoints@.len(),
            subscription_name == Some(sub),
            sub_s@ == sub@,
            topic_s@ == topic_name@,
            first_checkpoint_seq(checkpoints@, sub@, topic_name@) == first_checkpoint_seq(
                checkpoints@.skip(i as int),
                sub@,
                topic_name@,
            ),
        decreases checkpoints@.len() - i,
    {
        let c = &checkpoints[i];
        assert(checkpoints@.skip(i as int)[0] == checkpoints@[i as int]);
        if c.0 == sub_s && c.1 == topic_s {
            return c.3;
        }
        assert(checkpoints@.skip(i as int).drop_first() =~= checkpoints@.skip(i + 1));
        i = i + 1;
    }
    None
}

/// Builds a [`TopicSummary`] from registry metadata plus traffic counts.
pub fn topic_summary(
    topic_name: &str,
    keyed_by: Option<String>,
    schema_json: &str,
    event_count_24h: u64,
    subscription_count: u32,
) -> (r: TopicSummary)
    ensures
        r.topic_name@ == topic_name@,
        r.keyed_by == keyed_by,
        r.schema_json@ == schema_json@,
        r.event_count_24h == event_count_24h,
        r.subscription_count == subscription_count,
{
    TopicSummary {
        topic_name: String::from_str(topic_name),
        keyed_by,
        schema_json: String::from_str(schema_json),
        event_count_24h,
        subscription_count,
    }
}

/// Byte-wise lexicographic order: the order in which `String`s compare.
pub open spec fn bytes_lt(a: Seq<u8>, b: Seq<u8>) -> bool
    decreases a.len(),
{
    if b.len() == 0 {
        false
    } else if a.len() == 0 {
        true
    } else if a[0] != b[0] {
        a[0] < b[0]
    } else {
        bytes_lt(a.drop_first(), b.drop_first())
    }
}

/// The sort key of a topic: the UTF-8 bytes of its name.
pub open spec fn name_key(t: TopicSummary) -> Seq<u8> {
    vstd::utf8::encode_utf8(t.topic_name@)
}

/// No topic's name sorts before the name of a topic ahead of it.
pub open spec fn sorted_by_name(s: Seq<TopicSummary>) -> bool {
    forall|i: int, j: int| 0 <= i < j < s.len() ==> !bytes_lt(name_key(s[j]), name_key(s[i]))
}

proof fn lemma_bytes_lt_asym(a: Seq<u8>, b: Seq<u8>)
    requires
        bytes_lt(a, b),
    ensures
        !bytes_lt(b, a),
    decreases a.len(),
{
    if a.len() > 0 && b.len() > 0 && a[0] == b[0] {
        lemma_bytes_lt_asym(a.drop_first(), b.drop_first());
    }
}

/// `a <= b <= c` in byte order gives `a <= c`.
proof fn lemma_bytes_le_trans(a: Seq<u8>, b: Seq<u8>, c: Seq<u8>)
    requires
        !bytes_lt(b, a),
        !bytes_lt(c, b),
    ensures
        !bytes_lt(c, a),
    decreases a.len(),
{
    if a.len() > 0 && b.len() > 0 && c.len() > 0 {
        if a[0] == b[0] && b[0] == c[0] {
            lemma_bytes_le_trans(a.drop_first(), b.drop_first(), c.drop_first());
        }
    }
}

proof fn lemma_bytes_lt_skip(a: Seq<u8>, b: Seq<u8>, k: int)
    requires
        0 <= k < a.len(),
        k < b.len(),
        a[k] == b[k],
    ensures
        bytes_lt(a.skip(k), b.skip(k)) == bytes_lt(a.skip(k + 1), b.skip(k + 1)),
{
    assert(a.skip(k).drop_first() =~= a.skip(k + 1));
    assert(b.skip(k).drop_first() =~= b.skip(k + 1));
}

/// Byte-wise comparison of two byte strings.
fn bytes_less(x: &[u8], y: &[u8]) -> (r: bool)
    ensures
        r == bytes_lt(x@, y@),
{
    let mut k: usize = 0;
    assert(x@.skip(0) =~= x@);
    assert(y@.skip(0) =~= y@);
    while k < x.len() && k < y.len() && x[k] == y[k]
        invariant
            k <= x@.len(),
            k <= y@.len(),
            bytes_lt(x@, y@) == bytes_lt(x@.skip(k as int), y@.skip(k as int)),
        decreases x@.len() - k,
    {
        proof {
            lemma_bytes_lt_skip(x@, y@, k as int);
        }
        k = k + 1;
    }
    if k == y.len() {
        assert(y@.skip(k as int).len() == 0);
        false
    } else if k == x.len() {
        assert(x@.skip(k as int).len() == 0);
        true
    } else {
        assert(x@.skip(k as int)[0] == x@[k as int]);
        assert(y@.skip(k as int)[0] == y@[k as int]);
        x[k] < y[k]
    }
}

/// Whether `a`'s name sorts strictly before `b`'s.
fn name_precedes(a: &TopicSummary, b: &TopicSummary) -> (r: bool)
    ensures
        r == bytes_lt(name_key(*a), name_key(*b)),
{
    bytes_less(a.topic_name.as_str().as_bytes(), b.topic_name.as_str().as_bytes())
}

/// Exchanges two elements of a slice (`<[T]>::swap`).
#[verifier::external_body]
fn swap_in_slice<T>(s: &mut [T], i: usize, j: usize)
    requires
        i < old(s)@.len(),
        j < old(s)@.len(),
    ensures
        final(s)@ == old(s)@.update(i as int, old(s)@[j as int]).update(j as int, old(s)@[i as int]),
{
    s.swap(i, j);
}

proof fn lemma_swap_keeps_multiset<A>(s: Seq<A>, i: int, j: int)
    requires
        0 <= i < s.len(),
        0 <= j < s.len(),
        i != j,
    ensures
        s.update(i, s[j]).update(j, s[i]).to_multiset() == s.to_multiset(),
{
    broadcast use vstd::seq_lib::to_multiset_update;
    broadcast use vstd::multiset::group_multiset_properties;
    broadcast use vstd::multiset::group_multiset_axioms;
    broadcast use vstd::seq_lib::to_multiset_contains;

    assert(s.contains(s[i]));
    assert(s.contains(s[j]));
    let m = s.to_multiset();
    assert(m.count(s[i]) > 0);
    assert(m.count(s[j]) > 0);
    let s1 = s.update(i, s[j]);
    assert(s1[j] == s[j]);
    assert(s1.to_multiset() == s.to_multiset().insert(s[j]).remove(s[i]));
    assert(s1.update(j, s[i]).to_multiset() == s1.to_multiset().insert(s[i]).remove(s[j]));
    assert(s.to_multiset().insert(s[j]).remove(s[i]).insert(s[i]).remove(s[j]) =~= s.to_multiset());
}

/// `perm` maps the positions `0..n` one-to-one onto `0..n`.
pub open spec fn is_index_permutation(perm: Seq<int>, n: int) -> bool {
    &&& perm.len() == n
    &&& forall|k: int| 0 <= k < n ==> 0 <= #[trigger] perm[k] < n
    &&& forall|a: int, b: int|
        0 <= a < n && 0 <= b < n && a != b ==> #[trigger] perm[a] != #[trigger] perm[b]
}

/// `after` holds the topics of `before`, rearranged so that topics with equal
/// names keep their relative order: `after[k]` is `before[perm[k]]`.
pub open spec fn stable_rearrangement(
    after: Seq<TopicSummary>,
    before: Seq<TopicSummary>,
    perm: Seq<int>,
) -> bool {
    &&& after.len() == before.len()
    &&& is_index_permutation(perm, before.len() as int)
    &&& forall|k: int| 0 <= k < after.len() ==> #[trigger] after[k] == before[perm[k]]
    &&& forall|a: int, b: int|
        0 <= a < b < after.len() && name_key(after[a]) == name_key(after[b]) ==> #[trigger] perm[a]
            < #[trigger] perm[b]
}

proof fn lemma_bytes_lt_irreflexive(a: Seq<u8>)
    ensures
        !bytes_lt(a, a),
    decreases a.len(),
{
    if a.len() > 0 {
        lemma_bytes_lt_irreflexive(a.drop_first());
    }
}

/// Sorts topic summaries by name, in the byte order `String` compares in
/// (stable list contract for `get_topics`): the same topics, none ahead of a
/// topic whose name sorts before its own, and topics with equal names in their
/// original relative order.
pub fn sort_topics_by_name(topics: &mut [TopicSummary])
    ensures
        final(topics)@.len() == old(topics)@.len(),
        final(topics)@.to_multiset() == old(topics)@.to_multiset(),
        sorted_by_name(final(topics)@),
        exists|perm: Seq<int>| stable_rearrangement(final(topics)@, old(topics)@, perm),
{
    let n = topics.len();
    let ghost orig = topics@;
    let ghost mut perm: Seq<int> = Seq::new(n as nat, |k: int| k);
    let mut i: usize = 1;
    while i < n
        invariant
            1 <= i || n == 0,
            i <= n || n == 0,
            topics@.len() == n,
            orig == old(topics)@,
            topics@.to_multiset() == orig.to_multiset(),
            forall|a: int, b: int| 0 <= a < b < i ==> !bytes_lt(name_key(topics@[b]), name_key(topics@[a])),
            is_index_permutation(perm, n as int),
            forall|k: int| 0 <= k < n ==> #[trigger] topics@[k] == orig[perm[k]],
            forall|k: int| i <= k < n ==> #[trigger] perm[k] == k,
            forall|a: int, b: int|
                0 <= a < b < i && name_key(topics@[a]) == name_key(topics@[b]) ==> #[trigger] perm[a]
                    < #[trigger] perm[b],
        decreases n - i,
    {
        let mut j: usize = i;
        let ghost x = topics@[i as int];
        assert(perm[i as int] == i);
        assert forall|k: int| 0 <= k < i implies #[trigger] perm[k] < i by {
            assert(perm[k] != perm[i as int]);
            if perm[k] > i {
                assert(perm[perm[k]] == perm[k]);
                assert(perm[perm[k]] != perm[k]);
            }
        }
        while j > 0 && name_precedes(&topics[j], &topics[j - 1])
            invariant
                0 <= j <= i < n,
                topics@.len() == n,
                orig == old(topics)@,
                topics@.to_multiset() == orig.to_multiset(),
                topics@[j as int] == x,
                forall|a: int, b: int|
                    0 <= a < b <= i && a != j && b != j ==> !bytes_lt(name_key(topics@[b]), name_key(topics@[a])),
                forall|k: int| j < k <= i ==> bytes_lt(name_key(x), name_key(#[trigger] topics@[k])),
                is_index_permutation(perm, n as int),
                forall|k: int| 0 <= k < n ==> #[trigger] topics@[k] == orig[perm[k]],
                forall|k: int| i < k < n ==> #[trigger] perm[k] == k,
                perm[j as int] == i,
                forall|k: int| 0 <= k <= i && k != j ==> #[trigger] perm[k] < i,
                forall|a: int, b: int|
                    0 <= a < b <= i && a != j && b != j && name_key(topics@[a]) == name_key(topics@[b])
                        ==> #[trigger] perm[a] < #[trigger] perm[b],
            decreases j,
        {
            proof {
                lemma_swap_keeps_multiset(topics@, (j - 1) as int, j as int);
                let p0 = perm;
                perm = p0.update(j - 1, p0[j as int]).update(j as int, p0[j - 1]);
                assert forall|a: int, b: int|
                    0 <= a < n && 0 <= b < n && a != b implies #[trigger] perm[a] != #[trigger] perm[b] by {
                    let pa = if a == j - 1 { j as int } else if a == j { j - 1 } else { a };
                    let pb = if b == j - 1 { j as int } else if b == j { j - 1 } else { b };
                    assert(perm[a] == p0[pa]);
                    assert(perm[b] == p0[pb]);
                }
            }
            swap_in_slice(topics, j - 1, j);
            j = j - 1;
        }
        proof {
            assert forall|a: int, b: int| 0 <= a < b <= i implies !bytes_lt(
                name_key(topics@[b]),
                name_key(topics@[a]),
            ) by {
                if b == j {
                    if a < j - 1 {
                        lemma_bytes_le_trans(name_key(topics@[a]), name_key(topics@[j - 1]), name_key(x));
                    }
                } else if a == j {
                    lemma_bytes_lt_asym(name_key(x), name_key(topics@[b]));
                }
            }
            assert forall|a: int, b: int|
                0 <= a < b <= i && name_key(topics@[a]) == name_key(topics@[b]) implies #[trigger] perm[a]
                    < #[trigger] perm[b] by {
                if a == j {
                    lemma_bytes_lt_irreflexive(name_key(x));
                    assert(bytes_lt(name_key(x), name_key(topics@[b])));
                }
            }
        }
        i = i + 1;
    }
    proof {
        if n == 0 {
            assert(topics@.len() == 0);
        }
        assert(stable_rearrangement(topics@, orig, perm));
    }
}

/// Law: no more events are counted than there are timestamps, and a later
/// cut-off never counts more events than an earlier one.
pub proof fn law_later_cutoff_counts_no_more(ts: Seq<Timestamp>, early: Timestamp, late: Timestamp)
    requires
        late.spec_at_or_after(early),
    ensures
        stamps_since(ts, late).len() <= stamps_since(ts, early).len(),
        stamps_since(ts, early).len() <= ts.len(),
    decreases ts.len(),
{
    broadcast use vstd::seq_lib::group_filter_ensures;

    if ts.len() > 0 {
        let init = ts.drop_last();
        law_later_cutoff_counts_no_more(init, early, late);
        assert(init.push(ts.last()) =~= ts);
        init.lemma_filter_push(ts.last(), at_or_after(late));
        init.lemma_filter_push(ts.last(), at_or_after(early));
    }
}

/// Law: the subscriptions filtered for a topic are exactly those of the list
/// attached to it: each belongs to the topic and to the list, and every
/// subscription of the list attached to the topic is among them.
pub proof fn law_topic_filter_keeps_exactly_its_subscriptions(
    subs: Seq<SubscriptionSummary>,
    topic_name: Seq<char>,
)
    ensures
        forall|i: int|
            0 <= i < subscriptions_of_topic(subs, topic_name).len() ==> {
                &&& (#[trigger] subscriptions_of_topic(subs, topic_name)[i]).topic_name@ == topic_name
                &&& subs.contains(subscriptions_of_topic(subs, topic_name)[i])
            },
        forall|i: int|
            0 <= i < subs.len() && (#[trigger] subs[i]).topic_name@ == topic_name
                ==> subscriptions_of_topic(subs, topic_name).contains(subs[i]),
{
    broadcast use vstd::seq_lib::group_filter_ensures;

    let pred = on_topic(topic_name);
    let f = subs.filter(pred);
    assert forall|i: int| 0 <= i < f.len() implies (#[trigger] f[i]).topic_name@ == topic_name
        && subs.contains(f[i]) by {
        assert(pred(f[i]));
        assert(f.contains(f[i]));
        subs.lemma_filter_contains_rev(pred, f[i]);
    }
    assert forall|i: int| 0 <= i < subs.len() && (#[trigger] subs[i]).topic_name@ == topic_name
        implies f.contains(subs[i]) by {
        assert(pred(subs[i]));
    }
}

/// Law: sorting keeps every topic, so a topic of the list is found by name
/// before sorting exactly when it is found after.
pub proof fn law_sorting_keeps_every_topic(before: Seq<TopicSummary>, after: Seq<TopicSummary>)
    requires
        after.to_multiset() == before.to_multiset(),
    ensures
        forall|t: TopicSummary| #[trigger] before.contains(t) <==> after.contains(t),
{
    broadcast use vstd::seq_lib::to_multiset_contains;

    assert forall|t: TopicSummary| #[trigger] before.contains(t) <==> after.contains(t) by {
        assert(before.contains(t) <==> before.to_multiset().contains(t));
        assert(after.contains(t) <==> after.to_multiset().contains(t));
    }
}

proof fn lemma_bytes_order_total(a: Seq<u8>, b: Seq<u8>)
    requires
        !bytes_lt(a, b),
        !bytes_lt(b, a),
    ensures
        a == b,
    decreases a.len(),
{
    if a.len() > 0 && b.len() > 0 {
        lemma_bytes_order_total(a.drop_first(), b.drop_first());
        assert(a =~= seq![a[0]] + a.drop_first());
        assert(b =~= seq![b[0]] + b.drop_first());
    } else {
        assert(a.len() == 0 && b.len() == 0);
        assert(a =~= b);
    }
}

proof fn lemma_permutation_is_onto(perm: Seq<int>, n: int, k: int)
    requires
        is_index_permutation(perm, n),
        0 <= k < n,
    ensures
        exists|m: int| 0 <= m < n && perm[m] == k,
{
    let range = vstd::set_lib::set_int_range(0, n);
    let f = |i: int| perm[i];
    vstd::set_lib::lemma_int_range(0, n);
    let image = range.map(f);
    assert(vstd::relations::injective_on(f, range)) by {
        assert forall|x1: int, x2: int|
            range.contains(x1) && range.contains(x2) && #[trigger] f(x1) == #[trigger] f(x2) implies x1
            == x2 by {
            if x1 != x2 {
                assert(perm[x1] != perm[x2]);
            }
        }
    }
    vstd::set_lib::lemma_map_size(range, image, f);
    assert(image.subset_of(range)) by {
        assert forall|y: int| image.contains(y) implies range.contains(y) by {
            let x = choose|x: int| range.contains(x) && f(x) == y;
            assert(0 <= perm[x] < n);
        }
    }
    vstd::set_lib::lemma_subset_equality(image, range);
    assert(range.contains(k));
    assert(image.contains(k));
    let m = choose|m: int| range.contains(m) && f(m) == k;
    assert(0 <= m < n && perm[m] == k);
}

/// Law: sorting a list that is already sorted by name changes nothing; with
/// equal names kept in order, the sorted order of a list is unique.
pub proof fn law_sorting_a_sorted_list_changes_nothing(
    before: Seq<TopicSummary>,
    after: Seq<TopicSummary>,
    perm: Seq<int>,
)
    requires
        sorted_by_name(before),
        sorted_by_name(after),
        stable_rearrangement(after, before, perm),
    ensures
        after == before,
{
    let n = before.len() as int;
    assert forall|k: int| 0 <= k < n implies #[trigger] perm[k] == k by {
        lemma_prefix_fixed(before, after, perm, k);
    }
    assert forall|k: int| 0 <= k < n implies after[k] == before[k] by {
        assert(after[k] == before[perm[k]]);
        assert(perm[k] == k);
    }
    assert(after =~= before);
}

proof fn lemma_prefix_fixed(before: Seq<TopicSummary>, after: Seq<TopicSummary>, perm: Seq<int>, k: int)
    requires
        sorted_by_name(before),
        sorted_by_name(after),
        stable_rearrangement(after, before, perm),
        0 <= k < before.len(),
    ensures
        perm[k] == k,
    decreases k,
{
    let n = before.len() as int;
    assert forall|j: int| 0 <= j < k implies #[trigger] perm[j] == j by {
        lemma_prefix_fixed(before, after, perm, j);
    }
    if perm[k] != k {
        if perm[k] < k {
            let j = perm[k];
            assert(perm[j] == j);
            assert(perm[j] != perm[k]);
        } else {
            lemma_permutation_is_onto(perm, n, k);
            let m = choose|m: int| 0 <= m < n && perm[m] == k;
            if m < k {
                assert(perm[m] == m);
            } else {
                assert(m != k);
                assert(after[k] == before[perm[k]]);
                assert(after[m] == before[perm[m]]);
                assert(!bytes_lt(name_key(after[m]), name_key(after[k])));
                assert(!bytes_lt(name_key(before[perm[k]]), name_key(before[k])));
                lemma_bytes_order_total(name_key(after[k]), name_key(after[m]));
                assert(perm[k] < perm[m]);
            }
        }
    }
}

/// `k` is where `a` and `b` first differ, with `a` the smaller there: they
/// agree on their first `k` bytes, and `a` ends at `k` while `b` goes on, or
/// `a`'s byte at `k` is below `b`'s.
pub open spec fn first_difference_favours(a: Seq<u8>, b: Seq<u8>, k: int) -> bool {
    &&& 0 <= k <= a.len()
    &&& k < b.len()
    &&& a.take(k) == b.take(k)
    &&& (k == a.len() || a[k] < b[k])
}

proof fn lemma_first_difference_gives_lt(a: Seq<u8>, b: Seq<u8>, k: int)
    requires
        first_difference_favours(a, b, k),
    ensures
        bytes_lt(a, b),
    decreases k,
{
    if k > 0 {
        assert(a.take(k)[0] == a[0]);
        assert(b.take(k)[0] == b[0]);
        assert(a.drop_first().take(k - 1) =~= a.take(k).drop_first());
        assert(b.drop_first().take(k - 1) =~= b.take(k).drop_first());
        if k < a.len() {
            assert(a.drop_first()[k - 1] == a[k]);
            assert(b.drop_first()[k - 1] == b[k]);
        }
        lemma_first_difference_gives_lt(a.drop_first(), b.drop_first(), k - 1);
    }
}

proof fn lemma_lt_has_first_difference(a: Seq<u8>, b: Seq<u8>)
    requires
        bytes_lt(a, b),
    ensures
        exists|k: int| first_difference_favours(a, b, k),
    decreases a.len(),
{
    if a.len() == 0 || a[0] != b[0] {
        assert(a.take(0) =~= b.take(0));
        assert(first_difference_favours(a, b, 0));
    } else {
        lemma_lt_has_first_difference(a.drop_first(), b.drop_first());
        let k = choose|k: int| first_difference_favours(a.drop_first(), b.drop_first(), k);
        assert(a.take(k + 1) =~= seq![a[0]] + a.drop_first().take(k));
        assert(b.take(k + 1) =~= seq![b[0]] + b.drop_first().take(k));
        if k < a.drop_first().len() {
            assert(a.drop_first()[k] == a[k + 1]);
            assert(b.drop_first()[k] == b[k + 1]);
        }
        assert(first_difference_favours(a, b, k + 1));
    }
}

/// Law: names sort in the lexicographic order of their bytes, as `String`s
/// compare: `a` sorts before `b` exactly when, at the first position where they
/// differ, `a` has ended while `b` goes on, or `a` has the smaller byte.
pub proof fn law_byte_order_is_lexicographic(a: Seq<u8>, b: Seq<u8>)
    ensures
        bytes_lt(a, b) <==> exists|k: int| #[trigger] first_difference_favours(a, b, k),
{
    if bytes_lt(a, b) {
        lemma_lt_has_first_difference(a, b);
    }
    if exists|k: int| #[trigger] first_difference_favours(a, b, k) {
        let k = choose|k: int| #[trigger] first_difference_favours(a, b, k);
        lemma_first_difference_gives_lt(a, b, k);
    }
}

/// Law: a name sorts before every longer name it is a prefix of, and never
/// after it.
pub proof fn law_prefix_sorts_first(a: Seq<u8>, rest: Seq<u8>)
    requires
        rest.len() > 0,
    ensures
        bytes_lt(a, a + rest),
        !bytes_lt(a + rest, a),
{
    assert((a + rest).take(a.len() as int) =~= a.take(a.len() as int));
    assert(first_difference_favours(a, a + rest, a.len() as int));
    lemma_first_difference_gives_lt(a, a + rest, a.len() as int);
    lemma_bytes_lt_asym(a, a + rest);
}

/// Law: in a list sorted by name no topic stands ahead of a topic whose name
/// is a proper prefix of its own (`"orders"` comes before `"orders.v2"`).
pub proof fn law_sorted_list_puts_prefixes_first(s: Seq<TopicSummary>, i: int, j: int)
    requires
        sorted_by_name(s),
        0 <= i < j < s.len(),
    ensures
        !(name_key(s[j]).len() < name_key(s[i]).len() && name_key(s[i]).take(
            name_key(s[j]).len() as int,
        ) == name_key(s[j])),
{
    let p = name_key(s[j]);
    let x = name_key(s[i]);
    if p.len() < x.len() && x.take(p.len() as int) == p {
        let rest = x.skip(p.len() as int);
        assert(p + rest =~= x);
        law_prefix_sorts_first(p, rest);
        assert(!bytes_lt(name_key(s[j]), name_key(s[i])));
    }
}

proof fn lemma_first_checkpoint_at(cps: Seq<CheckpointRow>, sub: Seq<char>, topic: Seq<char>, i: int)
    requires
        0 <= i < cps.len(),
        cps[i].0@ == sub && cps[i].1@ == topic,
        forall|j: int| 0 <= j < i ==> !((#[trigger] cps[j]).0@ == sub && cps[j].1@ == topic),
    ensures
        first_checkpoint_seq(cps, sub, topic) == cps[i].3,
    decreases i,
{
    if i > 0 {
        assert(!(cps[0].0@ == sub && cps[0].1@ == topic));
        assert forall|j: int| 0 <= j < i - 1 implies !((#[trigger] cps.drop_first()[j]).0@ == sub
            && cps.drop_first()[j].1@ == topic) by {
            assert(cps.drop_first()[j] == cps[j + 1]);
        }
        lemma_first_checkpoint_at(cps.drop_first(), sub, topic, i - 1);
    }
}

proof fn lemma_no_checkpoint(cps: Seq<CheckpointRow>, sub: Seq<char>, topic: Seq<char>)
    requires
        forall|j: int| 0 <= j < cps.len() ==> !((#[trigger] cps[j]).0@ == sub && cps[j].1@ == topic),
    ensures
        first_checkpoint_seq(cps, sub, topic) is None,
    decreases cps.len(),
{
    if cps.len() > 0 {
        assert(!(cps[0].0@ == sub && cps[0].1@ == topic));
        assert forall|j: int| 0 <= j < cps.len() - 1 implies !((#[trigger] cps.drop_first()[j]).0@
            == sub && cps.drop_first()[j].1@ == topic) by {
            assert(cps.drop_first()[j] == cps[j + 1]);
        }
        lemma_no_checkpoint(cps.drop_first(), sub, topic);
    }
}

/// Law: a handler's sequence comes from the first checkpoint row with both its
/// subscription name and its topic; a row of another topic (or of another
/// subscription) never supplies it, no row gives `None`, and neither does a
/// handler without a subscription name.
pub proof fn law_checkpoint_seq_is_that_of_first_row_for_the_pair(
    cps: Seq<CheckpointRow>,
    sub: Seq<char>,
    topic: Seq<char>,
)
    ensures
        forall|i: int|
            0 <= i < cps.len() && (#[trigger] cps[i]).0@ == sub && cps[i].1@ == topic && (forall|j: int|
                0 <= j < i ==> !((#[trigger] cps[j]).0@ == sub && cps[j].1@ == topic))
                ==> checkpoint_seq(cps, Some(sub), topic) == cps[i].3,
        (forall|j: int| 0 <= j < cps.len() ==> !((#[trigger] cps[j]).0@ == sub && cps[j].1@ == topic))
            ==> checkpoint_seq(cps, Some(sub), topic) is None,
        checkpoint_seq(cps, None, topic) is None,
{
    assert forall|i: int|
        0 <= i < cps.len() && (#[trigger] cps[i]).0@ == sub && cps[i].1@ == topic && (forall|j: int|
            0 <= j < i ==> !((#[trigger] cps[j]).0@ == sub && cps[j].1@ == topic))
        implies checkpoint_seq(cps, Some(sub), topic) == cps[i].3 by {
        lemma_first_checkpoint_at(cps, sub, topic, i);
    }
    if forall|j: int| 0 <= j < cps.len() ==> !((#[trigger] cps[j]).0@ == sub && cps[j].1@ == topic) {
        lemma_no_checkpoint(cps, sub, topic);
    }
}

} // verus!
