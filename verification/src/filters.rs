//! Search and status filters of the topic and subscription index pages.
//!
//! A search query is lower-cased and trimmed; a row matches when the query is
//! empty or occurs in the lower-cased text of one of the row's searched fields.

use vstd::prelude::*;

use crate::text::str_chars;
use crate::types::{SubscriptionSummary, TopicSummary};

verus! {

/// The text `str::to_lowercase` returns for `s` (full Unicode lower-case mapping).
pub uninterp spec fn lowercase(s: Seq<char>) -> Seq<char>;

/// Lower-cases a string with `str::to_lowercase`; the result is what the name
/// [`lowercase`] stands for.
#[verifier::external_body]
fn to_lowercase(s: &str) -> (r: String)
    ensures
        r@ == lowercase(s@),
{
    s.to_lowercase()
}

/// The query a search box holds, as it is matched: lower-cased, then trimmed.
pub open spec fn normalized_query(query: Seq<char>) -> Seq<char> {
    crate::text::trim(lowercase(query))
}

/// Whether `needle` occurs in `hay`.
fn contains_chars(hay: &Vec<char>, needle: &Vec<char>) -> (r: bool)
    ensures
        r == crate::text::has_substring(hay@, needle@),
{
    let n = needle.len();
    if n == 0 {
        assert(hay@.subrange(0, 0int + needle@.len()) =~= needle@);
        return true;
    }
    if n > hay.len() {
        return false;
    }
    let last = hay.len() - n;
    let mut i: usize = 0;
    while i <= last
        invariant
            1 <= n == needle@.len(),
            last + n == hay@.len(),
            hay@.len() == hay.len(),
            i <= last + 1,
            forall|k: int| 0 <= k < i ==> #[trigger] hay@.subrange(k, k + n) != needle@,
        decreases last + 1 - i,
    {
        let mut j: usize = 0;
        while j < n && hay[i + j] == needle[j]
            invariant
                i <= last,
                n == needle@.len(),
                last + n == hay@.len(),
                hay@.len() == hay.len(),
                j <= n,
                forall|m: int| 0 <= m < j ==> hay@[i + m] == needle@[m],
            decreases n - j,
        {
            j = j + 1;
        }
        if j == n {
            assert(hay@.subrange(i as int, i + n) =~= needle@);
            return true;
        }
        assert(hay@.subrange(i as int, i + n)[j as int] != needle@[j as int]);
        i = i + 1;
    }
    false
}

/// Whether the lower-cased `text` holds the (already normalized) query `q`.
fn lowercase_contains(text: &str, q: &Vec<char>) -> (r: bool)
    ensures
        r == crate::text::has_substring(lowercase(text@), q@),
{
    let lower = to_lowercase(text);
    let chars = str_chars(lower.as_str());
    contains_chars(&chars, q)
}

fn normalize_query(query: &str) -> (q: Vec<char>)
    ensures
        q@ == normalized_query(query@),
{
    let lower = to_lowercase(query);
    let chars = str_chars(lower.as_str());
    let (start, end) = crate::text::trim_bounds(&chars);
    let mut q: Vec<char> = Vec::new();
    let mut i = start;
    while i < end
        invariant
            start <= i <= end <= chars@.len(),
            q@ == chars@.subrange(start as int, i as int),
        decreases end - i,
    {
        q.push(chars[i]);
        assert(q@ =~= chars@.subrange(start as int, i + 1));
        i = i + 1;
    }
    q
}

/// Topic `t` is shown for normalized query `q`: `q` is empty, or occurs in the
/// lower-cased name or the lower-cased schema.
pub open spec fn topic_matches(t: TopicSummary, q: Seq<char>) -> bool {
    ||| q.len() == 0
    ||| crate::text::has_substring(lowercase(t.topic_name@), q)
    ||| crate::text::has_substring(lowercase(t.schema_json@), q)
}

/// The test a topic passes to be shown for normalized query `q`.
pub open spec fn topic_shown(q: Seq<char>) -> spec_fn(TopicSummary) -> bool {
    |t: TopicSummary| topic_matches(t, q)
}

/// The topics the topic index shows for a search query, in list order.
pub fn filter_topics(topics: Vec<TopicSummary>, search_query: &str) -> (r: Vec<TopicSummary>)
    ensures
        r@ == topics@.filter(topic_shown(normalized_query(search_query@))),
{
    let q = normalize_query(search_query);
    let ghost pred = topic_shown(normalized_query(search_query@));
    let ghost all = topics@;
    let mut shown: Vec<TopicSummary> = Vec::new();
    for t in it: topics
        invariant
            it.seq() == all,
            q@ == normalized_query(search_query@),
            pred == topic_shown(normalized_query(search_query@)),
            shown@ == all.take(it.index() as int).filter(pred),
    {
        proof {
            assert(all.take(it.index() + 1) =~= all.take(it.index() as int).push(t));
            all.take(it.index() as int).lemma_filter_push(t, pred);
        }
        if q.len() == 0 || lowercase_contains(t.topic_name.as_str(), &q) || lowercase_contains(
            t.schema_json.as_str(),
            &q,
        ) {
            shown.push(t);
        }
    }
    assert(all.take(all.len() as int) =~= all);
    shown
}

/// The status choice of the subscription filter: `"on"` keeps enabled
/// subscriptions, `"off"` disabled ones, anything else keeps all.
pub open spec fn status_choice(status: Seq<char>) -> Option<bool> {
    if status == seq!['o', 'n'] {
        Some(true)
    } else if status == seq!['o', 'f', 'f'] {
        Some(false)
    } else {
        None
    }
}

/// Reads the status select of the subscription filter.
pub fn parse_status_filter(status: &str) -> (r: Option<bool>)
    ensures
        r == status_choice(status@),
{
    let c = str_chars(status);
    if c.len() == 2 && c[0] == 'o' && c[1] == 'n' {
        assert(c@ =~= seq!['o', 'n']);
        Some(true)
    } else if c.len() == 3 && c[0] == 'o' && c[1] == 'f' && c[2] == 'f' {
        assert(c@ =~= seq!['o', 'f', 'f']);
        Some(false)
    } else {
        assert(c@ != seq!['o', 'n']) by {
            if c@ =~= seq!['o', 'n'] {
                assert(c@[0] == 'o' && c@[1] == 'n');
            }
        }
        assert(c@ != seq!['o', 'f', 'f']) by {
            if c@ =~= seq!['o', 'f', 'f'] {
                assert(c@[0] == 'o' && c@[1] == 'f' && c@[2] == 'f');
            }
        }
        None
    }
}

/// Subscription `s` is shown for normalized query `q` and status choice
/// `status`: the query is empty or occurs in its lower-cased name or topic,
/// and its enabled flag is the one chosen, if any.
pub open spec fn subscription_matches(s: SubscriptionSummary, q: Seq<char>, status: Option<bool>) -> bool {
    &&& (q.len() == 0 || crate::text::has_substring(lowercase(s.subscription_name@), q)
        || crate::text::has_substring(lowercase(s.topic_name@), q))
    &&& match status {
        None => true,
        Some(enabled) => s.enabled == enabled,
    }
}

/// The test a subscription passes to be shown for normalized query `q` and
/// status choice `status`.
pub open spec fn subscription_shown(q: Seq<char>, status: Option<bool>) -> spec_fn(SubscriptionSummary) -> bool {
    |s: SubscriptionSummary| subscription_matches(s, q, status)
}

/// The subscriptions the subscription index shows for a search query and a
/// status select value, in list order.
pub fn filter_subscriptions(
    subs: Vec<SubscriptionSummary>,
    search_query: &str,
    status: &str,
) -> (r: Vec<SubscriptionSummary>)
    ensures
        r@ == subs@.filter(subscription_shown(normalized_query(search_query@), status_choice(status@))),
{
    let q = normalize_query(search_query);
    let choice = parse_status_filter(status);
    let ghost pred = subscription_shown(normalized_query(search_query@), status_choice(status@));
    let ghost all = subs@;
    let mut shown: Vec<SubscriptionSummary> = Vec::new();
    for s in it: subs
        invariant
            it.seq() == all,
            q@ == normalized_query(search_query@),
            choice == status_choice(status@),
            pred == subscription_shown(normalized_query(search_query@), status_choice(status@)),
            shown@ == all.take(it.index() as int).filter(pred),
    {
        proof {
            assert(all.take(it.index() + 1) =~= all.take(it.index() as int).push(s));
            all.take(it.index() as int).lemma_filter_push(s, pred);
        }
        let matches_search = q.len() == 0 || lowercase_contains(s.subscription_name.as_str(), &q)
            || lowercase_contains(s.topic_name.as_str(), &q);
        let matches_status = match choice {
            None => true,
            Some(enabled) => s.enabled == enabled,
        };
        if matches_search && matches_status {
            shown.push(s);
        }
    }
    assert(all.take(all.len() as int) =~= all);
    shown
}

/// Whether a search box holds nothing but whitespace (`str::trim` is empty).
fn is_blank(query: &str) -> (r: bool)
    ensures
        r == (crate::text::trim(query@).len() == 0),
{
    let chars = str_chars(query);
    let (start, end) = crate::text::trim_bounds(&chars);
    start == end
}

/// The empty-state message of the topic index: a search that matched nothing,
/// or no topics at all.
pub fn topics_empty_message(search_query: &str) -> (m: &'static str)
    ensures
        m@ == if crate::text::trim(search_query@).len() == 0 {
            "No topics"@
        } else {
            "No topics match your search"@
        },
{
    if is_blank(search_query) {
        "No topics"
    } else {
        "No topics match your search"
    }
}

/// The empty-state message of the subscription index: filters that matched
/// nothing, or no subscriptions at all.
pub fn subscriptions_empty_message(search_query: &str) -> (m: &'static str)
    ensures
        m@ == if crate::text::trim(search_query@).len() == 0 {
            "No subscriptions"@
        } else {
            "No subscriptions match your filters"@
        },
{
    if is_blank(search_query) {
        "No subscriptions"
    } else {
        "No subscriptions match your filters"
    }
}

proof fn lemma_filter_keeps_all<A>(s: Seq<A>, p: spec_fn(A) -> bool)
    requires
        forall|a: A| #[trigger] p(a),
    ensures
        s.filter(p) == s,
    decreases s.len(),
{
    broadcast use vstd::seq_lib::group_filter_ensures;

    if s.len() > 0 {
        lemma_filter_keeps_all(s.drop_last(), p);
        s.drop_last().lemma_filter_push(s.last(), p);
        assert(s.drop_last().push(s.last()) =~= s);
    } else {
        assert(s.filter(p).len() == 0);
        assert(s.filter(p) =~= s);
    }
}

/// Law: a blank search (nothing but whitespace once lower-cased) shows every
/// topic, in list order.
pub proof fn law_blank_search_shows_every_topic(topics: Seq<TopicSummary>, query: Seq<char>)
    requires
        normalized_query(query).len() == 0,
    ensures
        topics.filter(topic_shown(normalized_query(query))) == topics,
{
    lemma_filter_keeps_all(topics, topic_shown(normalized_query(query)));
}

/// Law: a blank search with no status choice shows every subscription, in
/// list order.
pub proof fn law_blank_search_shows_every_subscription(
    subs: Seq<SubscriptionSummary>,
    query: Seq<char>,
)
    requires
        normalized_query(query).len() == 0,
    ensures
        subs.filter(subscription_shown(normalized_query(query), None)) == subs,
{
    lemma_filter_keeps_all(subs, subscription_shown(normalized_query(query), None));
}

/// Law: every shown subscription comes from the list and has the chosen
/// enabled flag, and an enabled (disabled) subscription that matches the
/// search is shown when `on` (`off`) or no status is chosen.
pub proof fn law_status_filter_keeps_the_chosen_state(
    subs: Seq<SubscriptionSummary>,
    q: Seq<char>,
    status: Option<bool>,
)
    ensures
        forall|i: int|
            0 <= i < subs.filter(subscription_shown(q, status)).len() ==> {
                let s = #[trigger] subs.filter(subscription_shown(q, status))[i];
                &&& subs.contains(s)
                &&& (status matches Some(e) ==> s.enabled == e)
            },
        forall|i: int|
            0 <= i < subs.len() && subscription_matches(#[trigger] subs[i], q, status)
                ==> subs.filter(subscription_shown(q, status)).contains(subs[i]),
{
    broadcast use vstd::seq_lib::group_filter_ensures;

    let p = subscription_shown(q, status);
    let f = subs.filter(p);
    assert forall|i: int| 0 <= i < f.len() implies subs.contains(#[trigger] f[i]) && (
    status matches Some(e) ==> f[i].enabled == e) by {
        assert(p(f[i]));
        assert(f.contains(f[i]));
        subs.lemma_filter_contains_rev(p, f[i]);
    }
    assert forall|i: int| 0 <= i < subs.len() && subscription_matches(#[trigger] subs[i], q, status)
        implies f.contains(subs[i]) by {
        assert(p(subs[i]));
    }
}

proof fn lemma_filter_contains_iff<A>(s: Seq<A>, p: spec_fn(A) -> bool, x: A)
    ensures
        s.filter(p).contains(x) <==> s.contains(x) && p(x),
{
    broadcast use vstd::seq_lib::group_filter_ensures;

    if s.filter(p).contains(x) {
        s.lemma_filter_contains_rev(p, x);
        let i = choose|i: int| 0 <= i < s.filter(p).len() && s.filter(p)[i] == x;
        assert(p(s.filter(p)[i]));
    }
    if s.contains(x) && p(x) {
        let i = choose|i: int| 0 <= i < s.len() && s[i] == x;
        s.lemma_filter_contains(p, i);
    }
}

/// Law: the topic search is case-insensitive on both the name and the schema.
/// A topic of the list is shown exactly when the query, lower-cased and
/// trimmed, is empty or occurs in the lower-cased topic name or in the
/// lower-cased schema text.
pub proof fn law_topic_search_matches_lowercased_name_or_schema(
    topics: Seq<TopicSummary>,
    query: Seq<char>,
    t: TopicSummary,
)
    ensures
        topics.filter(topic_shown(normalized_query(query))).contains(t) <==> {
            let q = crate::text::trim(lowercase(query));
            &&& topics.contains(t)
            &&& (q.len() == 0 || crate::text::has_substring(lowercase(t.topic_name@), q)
                || crate::text::has_substring(lowercase(t.schema_json@), q))
        },
{
    lemma_filter_contains_iff(topics, topic_shown(normalized_query(query)), t);
}

/// Law: the subscription search is case-insensitive on both the subscription
/// name and the topic, and the status select keeps enabled subscriptions for
/// `on`, disabled ones for `off`, and all of them otherwise. A subscription of
/// the list is shown exactly when both tests pass.
pub proof fn law_subscription_search_matches_lowercased_name_or_topic(
    subs: Seq<SubscriptionSummary>,
    query: Seq<char>,
    status: Seq<char>,
    s: SubscriptionSummary,
)
    ensures
        subs.filter(subscription_shown(normalized_query(query), status_choice(status))).contains(s)
            <==> {
            let q = crate::text::trim(lowercase(query));
            &&& subs.contains(s)
            &&& (q.len() == 0 || crate::text::has_substring(lowercase(s.subscription_name@), q)
                || crate::text::has_substring(lowercase(s.topic_name@), q))
            &&& (status == seq!['o', 'n'] ==> s.enabled)
            &&& (status == seq!['o', 'f', 'f'] ==> !s.enabled)
        },
{
    assert(seq!['o', 'n'] != seq!['o', 'f', 'f']) by {
        assert(seq!['o', 'n'].len() != seq!['o', 'f', 'f'].len());
    }
    lemma_filter_contains_iff(
        subs,
        subscription_shown(normalized_query(query), status_choice(status)),
        s,
    );
}

} // verus!
