//! Local topic labels, kept per cluster in the configuration file (not in
//! Kafka). A cluster maps topic names to lists of labels.

use vstd::prelude::*;
use vstd::multiset::Multiset;

use crate::keyed::{has_key, lemma_lookup_at, lemma_lookup_push, lemma_lookup_remove, lemma_lookup_update, lookup, unique_keys};
use crate::text::{lemma_lex_irrefl, lemma_lex_total, lemma_lex_trans, lex_lt, str_lt, join, join_strings, lowercase, sort_strings, sorted_strs, str_eq, strs, trim, trim_str, unicode_lower};

verus! {

/// Labels of one topic.
#[derive(Debug, Clone)]
pub struct TopicLabels {
    pub topic: String,
    pub labels: Vec<String>,
}

/// Topics of one cluster with their labels.
#[derive(Debug, Clone)]
pub struct ClusterLabels {
    pub cluster: String,
    pub topics: Vec<TopicLabels>,
}

/// `cluster name` → `topic name` → labels.
#[derive(Debug, Clone)]
pub struct TopicLabelStore {
    pub clusters: Vec<ClusterLabels>,
}

/// A topic with its labels, as character sequences.
pub type TopicView = (Seq<char>, Seq<Seq<char>>);

/// The topics of one cluster.
pub type TopicsView = Seq<TopicView>;

/// The whole store.
pub type StoreView = Seq<(Seq<char>, TopicsView)>;

pub open spec fn topic_view(t: TopicLabels) -> TopicView {
    (t.topic@, strs(t.labels@))
}

pub open spec fn topics_view(ts: Seq<TopicLabels>) -> TopicsView {
    ts.map_values(|t: TopicLabels| topic_view(t))
}

pub open spec fn cluster_view(c: ClusterLabels) -> (Seq<char>, TopicsView) {
    (c.cluster@, topics_view(c.topics@))
}

pub open spec fn store_view(cs: Seq<ClusterLabels>) -> StoreView {
    cs.map_values(|c: ClusterLabels| cluster_view(c))
}

impl View for TopicLabelStore {
    type V = StoreView;

    open spec fn view(&self) -> StoreView {
        store_view(self.clusters@)
    }
}

/// Cluster names are unique, and so are topic names within a cluster.
pub open spec fn store_wf(s: StoreView) -> bool {
    &&& unique_keys(s)
    &&& forall|i: int| 0 <= i < s.len() ==> unique_keys(#[trigger] s[i].1)
}

/// The topics recorded for `cluster` (none when it has no entry).
pub open spec fn cluster_topics(s: StoreView, cluster: Seq<char>) -> TopicsView {
    match lookup(s, cluster) {
        Some(ts) => ts,
        None => Seq::empty(),
    }
}

/// The labels of `topic` in `cluster` (none when it has no entry).
pub open spec fn labels_of(s: StoreView, cluster: Seq<char>, topic: Seq<char>) -> Seq<Seq<char>> {
    match lookup(cluster_topics(s, cluster), topic) {
        Some(ls) => ls,
        None => Seq::empty(),
    }
}

/// Whether `cluster` has an entry.
pub open spec fn cluster_recorded(s: StoreView, cluster: Seq<char>) -> bool {
    lookup(s, cluster) is Some
}

/// Whether `topic` of `cluster` has an entry.
pub open spec fn topic_recorded(s: StoreView, cluster: Seq<char>, topic: Seq<char>) -> bool {
    lookup(cluster_topics(s, cluster), topic) is Some
}

/// How a label is stored: surrounding whitespace removed, lower case.
pub open spec fn normalized(label: Seq<char>) -> Seq<char> {
    unicode_lower(trim(label))
}

/// Labels after adding `l`: unchanged when `l` is already there, otherwise
/// all of them with `l`, sorted.
pub open spec fn labels_after_add(old_ls: Seq<Seq<char>>, new_ls: Seq<Seq<char>>, l: Seq<char>) -> bool {
    if old_ls.contains(l) {
        new_ls == old_ls
    } else {
        sorted_strs(new_ls) && new_ls.to_multiset() == old_ls.to_multiset().insert(l)
    }
}

/// `l` added to (`cluster`, `topic`) and nothing else changed.
pub open spec fn label_added(
    old_s: StoreView,
    new_s: StoreView,
    cluster: Seq<char>,
    topic: Seq<char>,
    l: Seq<char>,
) -> bool {
    &&& labels_after_add(labels_of(old_s, cluster, topic), labels_of(new_s, cluster, topic), l)
    &&& forall|c: Seq<char>, t: Seq<char>|
        (c != cluster || t != topic) ==> #[trigger] labels_of(new_s, c, t) == labels_of(old_s, c, t)
}

/// The labels whose lower-case form differs from `needle`.
pub open spec fn drop_matching(ls: Seq<Seq<char>>, needle: Seq<char>) -> Seq<Seq<char>>
    decreases ls.len(),
{
    if ls.len() == 0 {
        ls
    } else if unicode_lower(ls.last()) == needle {
        drop_matching(ls.drop_last(), needle)
    } else {
        drop_matching(ls.drop_last(), needle).push(ls.last())
    }
}

/// Some label's lower-case form is `needle`.
pub open spec fn has_matching(ls: Seq<Seq<char>>, needle: Seq<char>) -> bool {
    exists|k: int| 0 <= k < ls.len() && unicode_lower(#[trigger] ls[k]) == needle
}

/// Names of the topics that carry a label matching `needle`, in stored order.
pub open spec fn matching_topics(ts: TopicsView, needle: Seq<char>) -> Seq<Seq<char>>
    decreases ts.len(),
{
    if ts.len() == 0 {
        Seq::empty()
    } else if has_matching(ts.last().1, needle) {
        matching_topics(ts.drop_last(), needle).push(ts.last().0)
    } else {
        matching_topics(ts.drop_last(), needle)
    }
}

/// Every label occurrence of a cluster, counted with multiplicity.
pub open spec fn label_occurrences(ts: TopicsView) -> Multiset<Seq<char>>
    decreases ts.len(),
{
    if ts.len() == 0 {
        Multiset::empty()
    } else {
        label_occurrences(ts.drop_last()).add(ts.last().1.to_multiset())
    }
}

/// The labels recorded for `topic` among `ts` (none when absent).
pub open spec fn topic_labels_in(ts: TopicsView, topic: Seq<char>) -> Seq<Seq<char>> {
    match lookup(ts, topic) {
        Some(ls) => ls,
        None => Seq::empty(),
    }
}

/// `counts` lists each label of `m` once, in byte order, with its
/// multiplicity in `m`.
pub open spec fn label_counts(counts: Seq<(String, usize)>, m: Multiset<Seq<char>>) -> bool {
    &&& forall|i: int, j: int| 0 <= i < j < counts.len() ==> lex_lt(#[trigger] counts[i].0@, #[trigger] counts[j].0@)
    &&& forall|i: int| 0 <= i < counts.len() ==> #[trigger] counts[i].1 == m.count(counts[i].0@)
    &&& forall|i: int| 0 <= i < counts.len() ==> m.count(#[trigger] counts[i].0@) > 0
    &&& forall|l: Seq<char>| #[trigger] m.count(l) > 0 ==> exists|i: int| 0 <= i < counts.len() && #[trigger] counts[i].0@ == l
}

/// Keys in strictly ascending order.
pub open spec fn strictly_sorted(k: Seq<Seq<char>>) -> bool {
    forall|i: int, j: int| 0 <= i < j < k.len() ==> lex_lt(#[trigger] k[i], #[trigger] k[j])
}

proof fn lemma_strictly_sorted_same_members(ka: Seq<Seq<char>>, kb: Seq<Seq<char>>)
    requires
        strictly_sorted(ka),
        strictly_sorted(kb),
        forall|l: Seq<char>| ka.contains(l) == kb.contains(l),
    ensures
        ka == kb,
    decreases ka.len(),
{
    if ka.len() == 0 {
        if kb.len() > 0 {
            assert(kb.contains(kb[0]));
        }
        assert(ka =~= kb);
    } else {
        assert(ka.contains(ka[0]));
        let x = ka.last();
        assert(ka.contains(x));
        let j = choose|j: int| 0 <= j < kb.len() && kb[j] == x;
        let y = kb.last();
        assert(kb.contains(y));
        let i = choose|i: int| 0 <= i < ka.len() && ka[i] == y;
        if x != y {
            lemma_lex_total(x, y);
            if lex_lt(x, y) {
                assert(i < ka.len() - 1);
                assert(lex_lt(ka[i], ka[ka.len() - 1]));
                lemma_lex_trans(x, y, x);
                lemma_lex_irrefl(x);
            } else {
                assert(j < kb.len() - 1);
                assert(lex_lt(kb[j], kb[kb.len() - 1]));
                lemma_lex_trans(y, x, y);
                lemma_lex_irrefl(y);
            }
        }
        let da = ka.drop_last();
        let db = kb.drop_last();
        assert forall|l: Seq<char>| da.contains(l) == db.contains(l) by {
            if da.contains(l) {
                let p = choose|p: int| 0 <= p < da.len() && da[p] == l;
                assert(lex_lt(ka[p], ka[ka.len() - 1]));
                lemma_lex_irrefl(x);
                assert(ka.contains(l));
                let q = choose|q: int| 0 <= q < kb.len() && kb[q] == l;
                assert(q != kb.len() - 1);
                assert(db[q] == l);
            }
            if db.contains(l) {
                let p = choose|p: int| 0 <= p < db.len() && db[p] == l;
                assert(lex_lt(kb[p], kb[kb.len() - 1]));
                lemma_lex_irrefl(y);
                assert(kb.contains(l));
                let q = choose|q: int| 0 <= q < ka.len() && ka[q] == l;
                assert(q != ka.len() - 1);
                assert(da[q] == l);
            }
        }
        assert forall|p: int, q: int| 0 <= p < q < da.len() implies lex_lt(#[trigger] da[p], #[trigger] da[q]) by {
            assert(da[p] == ka[p] && da[q] == ka[q]);
        }
        assert forall|p: int, q: int| 0 <= p < q < db.len() implies lex_lt(#[trigger] db[p], #[trigger] db[q]) by {
            assert(db[p] == kb[p] && db[q] == kb[q]);
        }
        lemma_strictly_sorted_same_members(da, db);
        assert(ka =~= da.push(x));
        assert(kb =~= db.push(y));
    }
}

/// The label listing of a multiset of labels is unique: two listings that
/// both give the counts of `m` name the same labels, in the same order,
/// with the same counts.
pub proof fn law_label_listing_is_unique(a: Seq<(String, usize)>, b: Seq<(String, usize)>, m: Multiset<Seq<char>>)
    requires
        label_counts(a, m),
        label_counts(b, m),
    ensures
        a.len() == b.len(),
        forall|i: int| 0 <= i < a.len() ==> #[trigger] a[i].0@ == b[i].0@ && a[i].1 == b[i].1,
{
    let ka = a.map_values(|p: (String, usize)| p.0@);
    let kb = b.map_values(|p: (String, usize)| p.0@);
    assert forall|l: Seq<char>| ka.contains(l) == kb.contains(l) by {
        if ka.contains(l) {
            let i = choose|i: int| 0 <= i < ka.len() && ka[i] == l;
            assert(a[i].0@ == l);
            assert(m.count(a[i].0@) > 0);
            let j = choose|j: int| 0 <= j < b.len() && #[trigger] b[j].0@ == l;
            assert(kb[j] == l);
        }
        if kb.contains(l) {
            let i = choose|i: int| 0 <= i < kb.len() && kb[i] == l;
            assert(b[i].0@ == l);
            assert(m.count(b[i].0@) > 0);
            let j = choose|j: int| 0 <= j < a.len() && #[trigger] a[j].0@ == l;
            assert(ka[j] == l);
        }
    }
    assert forall|p: int, q: int| 0 <= p < q < ka.len() implies lex_lt(#[trigger] ka[p], #[trigger] ka[q]) by {
        assert(ka[p] == a[p].0@ && ka[q] == a[q].0@);
    }
    assert forall|p: int, q: int| 0 <= p < q < kb.len() implies lex_lt(#[trigger] kb[p], #[trigger] kb[q]) by {
        assert(kb[p] == b[p].0@ && kb[q] == b[q].0@);
    }
    lemma_strictly_sorted_same_members(ka, kb);
    assert(a.len() == ka.len() && b.len() == kb.len());
    assert forall|i: int| 0 <= i < a.len() implies #[trigger] a[i].0@ == b[i].0@ && a[i].1 == b[i].1 by {
        assert(ka[i] == a[i].0@);
        assert(kb[i] == b[i].0@);
    }
}

proof fn lemma_occurrences_prefix_len(tv: TopicsView, i: int)
    requires
        0 <= i < tv.len(),
    ensures
        label_occurrences(tv.subrange(0, i)).len() + tv[i].1.len() <= label_occurrences(tv).len(),
    decreases tv.len(),
{
    broadcast use vstd::seq_lib::group_to_multiset_ensures;
    broadcast use vstd::multiset::group_multiset_axioms;
    if i == tv.len() - 1 {
        assert(tv.drop_last() =~= tv.subrange(0, i));
    } else {
        lemma_occurrences_prefix_len(tv.drop_last(), i);
        assert(tv.drop_last().subrange(0, i) =~= tv.subrange(0, i));
    }
}

/// Counts one more occurrence of `l`.
fn bump_count(acc: &mut Vec<(String, usize)>, l: &String, Ghost(m): Ghost<Multiset<Seq<char>>>)
    requires
        label_counts(old(acc)@, m),
        m.count(l@) < usize::MAX,
    ensures
        label_counts(final(acc)@, m.insert(l@)),
{
    broadcast use vstd::multiset::group_multiset_axioms;
    let mut p: usize = 0;
    while p < acc.len() && str_lt(acc[p].0.as_str(), l.as_str())
        invariant
            p <= acc@.len(),
            acc@ == old(acc)@,
            forall|k: int| 0 <= k < p ==> lex_lt(#[trigger] acc@[k].0@, l@),
        decreases acc.len() - p,
    {
        p = p + 1;
    }
    let ghost a0 = acc@;
    if p < acc.len() && str_eq(acc[p].0.as_str(), l.as_str()) {
        let c = acc[p].1;
        let key = acc[p].0.clone();
        acc[p] = (key, c + 1);
        proof {
            let a1 = acc@;
            let m1 = m.insert(l@);
            assert forall|i: int| 0 <= i < a1.len() implies #[trigger] a1[i].1 == m1.count(a1[i].0@) by {
                if i != p {
                    assert(a1[i] == a0[i]);
                    lemma_lex_irrefl(l@);
                    if a0[i].0@ == l@ {
                        assert(false);
                    }
                }
            }
            assert forall|k: Seq<char>| #[trigger] m1.count(k) > 0 implies exists|i: int| 0 <= i < a1.len() && #[trigger] a1[i].0@ == k by {
                if k == l@ {
                    assert(a1[p as int].0@ == k);
                } else {
                    let i = choose|i: int| 0 <= i < a0.len() && #[trigger] a0[i].0@ == k;
                    assert(a1[i].0@ == k);
                }
            }
            assert forall|i: int, j: int| 0 <= i < j < a1.len() implies lex_lt(#[trigger] a1[i].0@, #[trigger] a1[j].0@) by {
                assert(a1[i].0@ == a0[i].0@);
                assert(a1[j].0@ == a0[j].0@);
            }
        }
    } else {
        proof {
            if p < a0.len() {
                lemma_lex_total(a0[p as int].0@, l@);
            }
        }
        acc.insert(p, (l.clone(), 1));
        proof {
            let a1 = acc@;
            let m1 = m.insert(l@);
            assert(m.count(l@) == 0) by {
                if m.count(l@) > 0 {
                    let i = choose|i: int| 0 <= i < a0.len() && #[trigger] a0[i].0@ == l@;
                    if i < p {
                        lemma_lex_irrefl(l@);
                    } else if i > p {
                        lemma_lex_trans(l@, a0[p as int].0@, a0[i].0@);
                        lemma_lex_irrefl(l@);
                    }
                }
            }
            assert forall|i: int, j: int| 0 <= i < j < a1.len() implies lex_lt(#[trigger] a1[i].0@, #[trigger] a1[j].0@) by {
                let ai = if i < p { i } else { i - 1 };
                let aj = if j < p { j } else { j - 1 };
                if i == p {
                    assert(a1[j] == a0[aj]);
                    if aj != p {
                        lemma_lex_trans(l@, a0[p as int].0@, a0[aj].0@);
                    }
                } else if j == p {
                    assert(a1[i] == a0[ai]);
                } else {
                    assert(a1[i] == a0[ai]);
                    assert(a1[j] == a0[aj]);
                }
            }
            assert forall|i: int| 0 <= i < a1.len() implies #[trigger] a1[i].1 == m1.count(a1[i].0@) && m1.count(a1[i].0@) > 0 by {
                if i < p {
                    assert(a1[i] == a0[i]);
                    assert(a0[i].0@ != l@) by { lemma_lex_irrefl(l@); }
                } else if i > p {
                    assert(a1[i] == a0[i - 1]);
                    if a0[i - 1].0@ == l@ {
                        assert(false);
                    }
                }
            }
            assert forall|k: Seq<char>| #[trigger] m1.count(k) > 0 implies exists|i: int| 0 <= i < a1.len() && #[trigger] a1[i].0@ == k by {
                if k == l@ {
                    assert(a1[p as int].0@ == k);
                } else {
                    let i = choose|i: int| 0 <= i < a0.len() && #[trigger] a0[i].0@ == k;
                    if i < p {
                        assert(a1[i].0@ == k);
                    } else {
                        assert(a1[i + 1].0@ == k);
                    }
                }
            }
        }
    }
}

/// `l` added to every topic of `cluster` in `topic_set`, nothing else
/// changed.
pub open spec fn label_added_in(
    old_s: StoreView,
    new_s: StoreView,
    cluster: Seq<char>,
    topic_set: spec_fn(Seq<char>) -> bool,
    l: Seq<char>,
) -> bool {
    &&& forall|c: Seq<char>, t: Seq<char>|
        !(c == cluster && topic_set(t)) ==> #[trigger] labels_of(new_s, c, t) == labels_of(old_s, c, t)
    &&& forall|t: Seq<char>|
        #![trigger labels_of(new_s, cluster, t)]
        topic_set(t) ==> labels_after_add(labels_of(old_s, cluster, t), labels_of(new_s, cluster, t), l)
}

/// Labels of (`cluster`, every topic) filtered by `needle`, other clusters kept.
pub open spec fn label_dropped_in(
    old_s: StoreView,
    new_s: StoreView,
    cluster: Seq<char>,
    topic_set: spec_fn(Seq<char>) -> bool,
    needle: Seq<char>,
) -> bool {
    forall|c: Seq<char>, t: Seq<char>|
        #[trigger] labels_of(new_s, c, t) == if c == cluster && topic_set(t) {
            drop_matching(labels_of(old_s, c, t), needle)
        } else {
            labels_of(old_s, c, t)
        }
}

proof fn lemma_store_update(cs: Seq<ClusterLabels>, i: int, c: ClusterLabels)
    requires
        0 <= i < cs.len(),
    ensures
        store_view(cs.update(i, c)) == store_view(cs).update(i, cluster_view(c)),
{
    assert(store_view(cs.update(i, c)) =~= store_view(cs).update(i, cluster_view(c)));
}

proof fn lemma_topics_update(ts: Seq<TopicLabels>, i: int, t: TopicLabels)
    requires
        0 <= i < ts.len(),
    ensures
        topics_view(ts.update(i, t)) == topics_view(ts).update(i, topic_view(t)),
{
    assert(topics_view(ts.update(i, t)) =~= topics_view(ts).update(i, topic_view(t)));
}

/// Index of `cluster` in the store.
fn find_cluster(cs: &Vec<ClusterLabels>, cluster: &str) -> (r: Option<usize>)
    ensures
        match r {
            Some(i) => i < cs@.len() && cs@[i as int].cluster@ == cluster@,
            None => !has_key(store_view(cs@), cluster@),
        },
{
    let mut i: usize = 0;
    while i < cs.len()
        invariant
            i <= cs@.len(),
            forall|j: int| 0 <= j < i ==> #[trigger] store_view(cs@)[j].0 != cluster@,
        decreases cs.len() - i,
    {
        if str_eq(cs[i].cluster.as_str(), cluster) {
            return Some(i);
        }
        i = i + 1;
    }
    None
}

/// Index of `topic` among a cluster's topics.
fn find_topic(ts: &Vec<TopicLabels>, topic: &str) -> (r: Option<usize>)
    ensures
        match r {
            Some(i) => i < ts@.len() && ts@[i as int].topic@ == topic@,
            None => !has_key(topics_view(ts@), topic@),
        },
{
    let mut i: usize = 0;
    while i < ts.len()
        invariant
            i <= ts@.len(),
            forall|j: int| 0 <= j < i ==> #[trigger] topics_view(ts@)[j].0 != topic@,
        decreases ts.len() - i,
    {
        if str_eq(ts[i].topic.as_str(), topic) {
            return Some(i);
        }
        i = i + 1;
    }
    None
}

/// Whether `ls` holds `l` exactly.
fn contains_label(ls: &Vec<String>, l: &String) -> (r: bool)
    ensures
        r == strs(ls@).contains(l@),
{
    let mut i: usize = 0;
    while i < ls.len()
        invariant
            i <= ls@.len(),
            forall|j: int| 0 <= j < i ==> #[trigger] strs(ls@)[j] != l@,
        decreases ls.len() - i,
    {
        if str_eq(ls[i].as_str(), l.as_str()) {
            assert(strs(ls@)[i as int] == l@);
            return true;
        }
        i = i + 1;
    }
    false
}

/// The labels whose lower-case form differs from `needle`.
fn retain_unmatched(ls: &Vec<String>, needle: &String) -> (r: Vec<String>)
    ensures
        strs(r@) == drop_matching(strs(ls@), needle@),
        (r@.len() != ls@.len()) == has_matching(strs(ls@), needle@),
        r@.len() <= ls@.len(),
{
    let mut out: Vec<String> = Vec::new();
    let mut i: usize = 0;
    while i < ls.len()
        invariant
            i <= ls@.len(),
            strs(out@) == drop_matching(strs(ls@).subrange(0, i as int), needle@),
            (out@.len() != i) == has_matching(strs(ls@).subrange(0, i as int), needle@),
            out@.len() <= i,
        decreases ls.len() - i,
    {
        let ghost pre = strs(ls@).subrange(0, i as int);
        let ghost nxt = strs(ls@).subrange(0, i + 1 as int);
        assert(nxt.drop_last() =~= pre);
        let lower = lowercase(ls[i].as_str());
        if str_eq(lower.as_str(), needle.as_str()) {
            assert(has_matching(nxt, needle@)) by {
                assert(nxt[i as int] == ls@[i as int]@);
            }
        } else {
            out.push(ls[i].clone());
            assert(strs(out@) =~= drop_matching(pre, needle@).push(ls@[i as int]@));
            assert(has_matching(nxt, needle@) == has_matching(pre, needle@)) by {
                if has_matching(nxt, needle@) {
                    let k = choose|k: int| 0 <= k < nxt.len() && unicode_lower(#[trigger] nxt[k]) == needle@;
                    assert(k < i);
                    assert(pre[k] == nxt[k]);
                }
                if has_matching(pre, needle@) {
                    let k = choose|k: int| 0 <= k < pre.len() && unicode_lower(#[trigger] pre[k]) == needle@;
                    assert(pre[k] == nxt[k]);
                }
            }
        }
        i = i + 1;
    }
    assert(strs(ls@).subrange(0, i as int) =~= strs(ls@));
    out
}

/// `label` with surrounding whitespace removed, in lower case.
pub fn normalize_label(label: &str) -> (r: String)
    ensures
        r@ == normalized(label@),
{
    let t = trim_str(label);
    lowercase(t.as_str())
}

/// Labels joined with commas; empty for no labels.
pub fn format_labels(labels: &[String]) -> (r: String)
    ensures
        r@ == join(strs(labels@), seq![',']),
{
    if labels.len() == 0 {
        return String::new();
    }
    proof {
        reveal_strlit(",");
    }
    let r = join_strings(labels, ",");
    assert(","@ =~= seq![',']);
    r
}

impl Default for TopicLabelStore {
    fn default() -> (r: Self)
        ensures
            r@ == Seq::<(Seq<char>, TopicsView)>::empty(),
    {
        TopicLabelStore { clusters: Vec::new() }
    }
}

impl TopicLabelStore {
    /// An empty store.
    pub fn new() -> (r: Self)
        ensures
            r@ == Seq::<(Seq<char>, TopicsView)>::empty(),
            store_wf(r@),
    {
        let r = TopicLabelStore { clusters: Vec::new() };
        assert(r@ =~= Seq::<(Seq<char>, TopicsView)>::empty());
        r
    }

    /// The labels of `topic` in `cluster`.
    pub fn labels_for(&self, cluster: &str, topic: &str) -> (r: Vec<String>)
        requires
            store_wf(self@),
        ensures
            strs(r@) == labels_of(self@, cluster@, topic@),
    {
        match find_cluster(&self.clusters, cluster) {
            None => {
                let r: Vec<String> = Vec::new();
                assert(strs(r@) =~= Seq::<Seq<char>>::empty());
                r
            },
            Some(ci) => {
                proof {
                    lemma_lookup_at(self@, ci as int);
                }
                let ts = &self.clusters[ci].topics;
                match find_topic(ts, topic) {
                    None => {
                        let r: Vec<String> = Vec::new();
                        assert(strs(r@) =~= Seq::<Seq<char>>::empty());
                        r
                    },
                    Some(ti) => {
                        proof {
                            assert(self@[ci as int].1 == topics_view(ts@));
                            lemma_lookup_at(topics_view(ts@), ti as int);
                        }
                        let r = ts[ti].labels.clone();
                        assert(strs(r@) =~= strs(ts@[ti as int].labels@));
                        r
                    },
                }
            },
        }
    }

    /// Adds the normalized `label` to `topic` of `cluster`, keeping the
    /// topic's labels sorted and free of exact duplicates. A label that is
    /// empty after normalization is ignored.
    pub fn add_label(&mut self, cluster: &str, topic: &str, label: &str)
        requires
            store_wf(old(self)@),
        ensures
            store_wf(final(self)@),
            normalized(label@).len() == 0 ==> final(self)@ == old(self)@,
            normalized(label@).len() > 0 ==> label_added(old(self)@, final(self)@, cluster@, topic@, normalized(label@)),
    {
        let l = normalize_label(label);
        if l.as_str().unicode_len() == 0 {
            return;
        }
        let ghost s0 = self@;
        let ci = match find_cluster(&self.clusters, cluster) {
            Some(i) => i,
            None => {
                let c = ClusterLabels { cluster: String::from_str(cluster), topics: Vec::new() };
                proof {
                    assert(topics_view(c.topics@) =~= Seq::<TopicView>::empty());
                    lemma_lookup_push(s0, cluster@, Seq::<TopicView>::empty());
                }
                self.clusters.push(c);
                assert(self@ =~= s0.push((cluster@, Seq::<TopicView>::empty())));
                self.clusters.len() - 1
            },
        };
        let ghost s1 = self@;
        proof {
            assert(store_wf(s1)) by {
                assert forall|i: int| 0 <= i < s1.len() implies unique_keys(#[trigger] s1[i].1) by {
                    if i < s0.len() {
                        assert(s1[i] == s0[i]);
                    } else {
                        assert(s1[i].1 =~= Seq::<TopicView>::empty());
                    }
                }
            }
            assert forall|c: Seq<char>, t: Seq<char>| true implies #[trigger] labels_of(s1, c, t) == labels_of(s0, c, t) by {
                if c == cluster@ && !has_key(s0, cluster@) {
                    lemma_lookup_at(s1, ci as int);
                }
            }
            lemma_lookup_at(s1, ci as int);
        }
        let ghost s1e = self.clusters@;
        let mut cl = self.clusters.remove(ci);
        let ghost ts0 = topics_view(cl.topics@);
        assert(ts0 == s1[ci as int].1);
        let ti = match find_topic(&cl.topics, topic) {
            Some(j) => j,
            None => {
                let t = TopicLabels { topic: String::from_str(topic), labels: Vec::new() };
                proof {
                    assert(strs(t.labels@) =~= Seq::<Seq<char>>::empty());
                    lemma_lookup_push(ts0, topic@, Seq::<Seq<char>>::empty());
                }
                cl.topics.push(t);
                assert(topics_view(cl.topics@) =~= ts0.push((topic@, Seq::<Seq<char>>::empty())));
                cl.topics.len() - 1
            },
        };
        let ghost ts1 = topics_view(cl.topics@);
        proof {
            assert(unique_keys(ts1));
            lemma_lookup_at(ts1, ti as int);
            assert forall|t: Seq<char>| true implies (match #[trigger] lookup(ts1, t) {
                Some(ls) => ls,
                None => Seq::<Seq<char>>::empty(),
            }) == (match lookup(ts0, t) {
                Some(ls) => ls,
                None => Seq::<Seq<char>>::empty(),
            }) by {
                if t == topic@ && !has_key(ts0, topic@) {
                }
            }
        }
        let ghost ts1e = cl.topics@;
        let mut te = cl.topics.remove(ti);
        let ghost old_ls = strs(te.labels@);
        if !contains_label(&te.labels, &l) {
            let mut v = Vec::new();
            std::mem::swap(&mut v, &mut te.labels);
            v.push(l);
            proof {
                broadcast use vstd::seq_lib::group_to_multiset_ensures;
                assert(strs(v@) =~= old_ls.push(normalized(label@)));
            }
            te.labels = sort_strings(v);
        }
        let ghost new_ls = strs(te.labels@);
        assert(labels_after_add(old_ls, new_ls, normalized(label@)));
        let ghost te_v = topic_view(te);
        cl.topics.insert(ti, te);
        proof {
            assert(cl.topics@ =~= ts1e.update(ti as int, cl.topics@[ti as int]));
            lemma_topics_update(ts1e, ti as int, cl.topics@[ti as int]);
        }
        let ghost ts2 = topics_view(cl.topics@);
        proof {
            assert(ts2 =~= ts1.update(ti as int, (topic@, new_ls)));
            lemma_lookup_update(ts1, ti as int, new_ls);
        }
        self.clusters.insert(ci, cl);
        proof {
            assert(self.clusters@ =~= s1e.update(ci as int, self.clusters@[ci as int]));
            lemma_store_update(s1e, ci as int, self.clusters@[ci as int]);
            assert(self@ =~= s1.update(ci as int, (cluster@, ts2)));
            lemma_lookup_update(s1, ci as int, ts2);
            let s2 = self@;
            assert(store_wf(s2)) by {
                assert forall|i: int| 0 <= i < s2.len() implies unique_keys(#[trigger] s2[i].1) by {
                    if i != ci {
                        assert(s2[i] == s1[i]);
                    }
                }
            }
            assert(labels_of(s2, cluster@, topic@) == new_ls);
            assert(labels_of(s1, cluster@, topic@) == old_ls);
            assert forall|c: Seq<char>, t: Seq<char>|
                (c != cluster@ || t != topic@) implies #[trigger] labels_of(s2, c, t) == labels_of(s0, c, t) by {
                assert(labels_of(s1, c, t) == labels_of(s0, c, t));
                if c != cluster@ {
                } else {
                    assert(cluster_topics(s2, c) == ts2);
                    assert(cluster_topics(s1, c) == ts0);
                    assert(lookup(ts2, t) == lookup(ts1, t));
                }
            }
        }
    }

    /// Puts `ls` as the labels of topic `ti` of cluster `ci`; an empty list
    /// drops the topic's entry.
    fn put_labels(&mut self, ci: usize, ti: usize, ls: Vec<String>)
        requires
            store_wf(old(self)@),
            ci < old(self)@.len(),
            ti < old(self)@[ci as int].1.len(),
        ensures
            store_wf(final(self)@),
            labels_of(final(self)@, old(self)@[ci as int].0, old(self)@[ci as int].1[ti as int].0) == strs(ls@),
            forall|c: Seq<char>, t: Seq<char>|
                (c != old(self)@[ci as int].0 || t != old(self)@[ci as int].1[ti as int].0)
                    ==> #[trigger] labels_of(final(self)@, c, t) == labels_of(old(self)@, c, t),
            forall|c: Seq<char>| #[trigger] cluster_recorded(final(self)@, c) == cluster_recorded(old(self)@, c),
            topic_recorded(final(self)@, old(self)@[ci as int].0, old(self)@[ci as int].1[ti as int].0) == (ls@.len() > 0),
            forall|c: Seq<char>, t: Seq<char>|
                (c != old(self)@[ci as int].0 || t != old(self)@[ci as int].1[ti as int].0)
                    ==> #[trigger] topic_recorded(final(self)@, c, t) == topic_recorded(old(self)@, c, t),
    {
        let ghost s1 = self@;
        let ghost s1e = self.clusters@;
        let ghost cname = s1[ci as int].0;
        let ghost ts1 = s1[ci as int].1;
        let ghost tname = ts1[ti as int].0;
        proof {
            lemma_lookup_at(s1, ci as int);
            lemma_lookup_at(ts1, ti as int);
        }
        let mut cl = self.clusters.remove(ci);
        assert(topics_view(cl.topics@) == ts1);
        let ghost ts1e = cl.topics@;
        let mut te = cl.topics.remove(ti);
        let ghost ts2;
        if ls.len() == 0 {
            proof {
                assert(topics_view(cl.topics@) =~= ts1.remove(ti as int));
                lemma_lookup_remove(ts1, ti as int);
                ts2 = topics_view(cl.topics@);
                assert(strs(ls@) =~= Seq::<Seq<char>>::empty());
            }
        } else {
            te.labels = ls;
            cl.topics.insert(ti, te);
            proof {
                assert(cl.topics@ =~= ts1e.update(ti as int, cl.topics@[ti as int]));
                lemma_topics_update(ts1e, ti as int, cl.topics@[ti as int]);
                ts2 = topics_view(cl.topics@);
                assert(ts2 =~= ts1.update(ti as int, (tname, strs(ls@))));
                lemma_lookup_update(ts1, ti as int, strs(ls@));
            }
        }
        assert(ts2 == topics_view(cl.topics@));
        self.clusters.insert(ci, cl);
        proof {
            assert(self.clusters@ =~= s1e.update(ci as int, self.clusters@[ci as int]));
            lemma_store_update(s1e, ci as int, self.clusters@[ci as int]);
            assert(self@ =~= s1.update(ci as int, (cname, ts2)));
            lemma_lookup_update(s1, ci as int, ts2);
            let s2 = self@;
            assert(store_wf(s2)) by {
                assert forall|i: int| 0 <= i < s2.len() implies unique_keys(#[trigger] s2[i].1) by {
                    if i != ci {
                        assert(s2[i] == s1[i]);
                    }
                }
            }
            assert forall|c: Seq<char>, t: Seq<char>|
                (c != cname || t != tname) implies #[trigger] labels_of(s2, c, t) == labels_of(s1, c, t) by {
                if c == cname {
                    assert(cluster_topics(s2, c) == ts2);
                    assert(cluster_topics(s1, c) == ts1);
                    assert(lookup(ts2, t) == lookup(ts1, t));
                }
            }
            assert forall|c: Seq<char>| #[trigger] cluster_recorded(s2, c) == cluster_recorded(s1, c) by {
                if c != cname {
                    assert(lookup(s2, c) == lookup(s1, c));
                }
            }
            assert(cluster_topics(s2, cname) == ts2);
            assert forall|c: Seq<char>, t: Seq<char>| (c != cname || t != tname)
                implies #[trigger] topic_recorded(s2, c, t) == topic_recorded(s1, c, t) by {
                if c == cname {
                    assert(cluster_topics(s1, c) == ts1);
                    assert(lookup(ts2, t) == lookup(ts1, t));
                } else {
                    assert(lookup(s2, c) == lookup(s1, c));
                }
            }
        }
    }

    /// Removes from `topic` of `cluster` every label whose lower-case form
    /// equals the lower-case `label`; a topic left without labels loses its
    /// entry.
    pub fn remove_label(&mut self, cluster: &str, topic: &str, label: &str)
        requires
            store_wf(old(self)@),
        ensures
            store_wf(final(self)@),
            labels_of(final(self)@, cluster@, topic@)
                == drop_matching(labels_of(old(self)@, cluster@, topic@), unicode_lower(label@)),
            forall|c: Seq<char>, t: Seq<char>|
                (c != cluster@ || t != topic@) ==> #[trigger] labels_of(final(self)@, c, t)
                    == labels_of(old(self)@, c, t),
            forall|c: Seq<char>| #[trigger] cluster_recorded(final(self)@, c) == cluster_recorded(old(self)@, c),
            topic_recorded(final(self)@, cluster@, topic@) == (topic_recorded(old(self)@, cluster@, topic@)
                && labels_of(final(self)@, cluster@, topic@).len() > 0),
            forall|c: Seq<char>, t: Seq<char>|
                (c != cluster@ || t != topic@) ==> #[trigger] topic_recorded(final(self)@, c, t)
                    == topic_recorded(old(self)@, c, t),
    {
        let needle = lowercase(label);
        let ci = match find_cluster(&self.clusters, cluster) {
            None => {
                assert(labels_of(self@, cluster@, topic@) =~= Seq::<Seq<char>>::empty());
                return;
            },
            Some(i) => i,
        };
        proof {
            lemma_lookup_at(self@, ci as int);
        }
        let ti = match find_topic(&self.clusters[ci].topics, topic) {
            None => {
                assert(self@[ci as int].1 == topics_view(self.clusters@[ci as int].topics@));
                return;
            },
            Some(j) => j,
        };
        proof {
            assert(self@[ci as int].1 == topics_view(self.clusters@[ci as int].topics@));
            lemma_lookup_at(self@[ci as int].1, ti as int);
        }
        let kept = retain_unmatched(&self.clusters[ci].topics[ti].labels, &needle);
        self.put_labels(ci, ti, kept);
    }

    /// `remove_label` on each of `topic_names`.
    pub fn remove_label_from_many(&mut self, cluster: &str, topic_names: &[String], label: &str)
        requires
            store_wf(old(self)@),
        ensures
            store_wf(final(self)@),
            label_dropped_in(old(self)@, final(self)@, cluster@, |t: Seq<char>| strs(topic_names@).contains(t),
                unicode_lower(label@)),
    {
        let ghost s0 = self@;
        let ghost needle = unicode_lower(label@);
        let mut i: usize = 0;
        while i < topic_names.len()
            invariant
                i <= topic_names@.len(),
                store_wf(self@),
                needle == unicode_lower(label@),
                label_dropped_in(s0, self@, cluster@, |t: Seq<char>| strs(topic_names@).subrange(0, i as int).contains(t), needle),
            decreases topic_names.len() - i,
        {
            let ghost before = self@;
            let name = topic_names[i].as_str();
            assert(name@ == topic_names@[i as int]@);
            self.remove_label(cluster, name, label);
            proof {
                let ti = topic_names@[i as int]@;
                assert(labels_of(self@, cluster@, ti) == drop_matching(labels_of(before, cluster@, ti), needle));
                assert forall|c: Seq<char>, t: Seq<char>| true implies #[trigger] labels_of(self@, c, t) == if c == cluster@
                    && strs(topic_names@).subrange(0, i + 1 as int).contains(t) {
                    drop_matching(labels_of(s0, c, t), needle)
                } else {
                    labels_of(s0, c, t)
                } by {
                    let pre = strs(topic_names@).subrange(0, i as int);
                    let nxt = strs(topic_names@).subrange(0, i + 1 as int);
                    assert(nxt =~= pre.push(ti));
                    assert(labels_of(before, c, t) == if c == cluster@ && pre.contains(t) {
                        drop_matching(labels_of(s0, c, t), needle)
                    } else {
                        labels_of(s0, c, t)
                    });
                    if c == cluster@ && t == ti {
                        assert(nxt[i as int] == ti);
                        assert(nxt.contains(t));
                        if pre.contains(t) {
                            lemma_drop_matching_idempotent(labels_of(s0, c, t), needle);
                        }
                    } else if c == cluster@ {
                        assert(nxt.contains(t) == pre.contains(t)) by {
                            if nxt.contains(t) {
                                let k = choose|k: int| 0 <= k < nxt.len() && nxt[k] == t;
                                assert(k < pre.len());
                                assert(pre[k] == t);
                            }
                            if pre.contains(t) {
                                let k = choose|k: int| 0 <= k < pre.len() && pre[k] == t;
                                assert(nxt[k] == t);
                            }
                        }
                    }
                }
            }
            i = i + 1;
        }
        assert(strs(topic_names@).subrange(0, i as int) =~= strs(topic_names@));
    }

    /// `add_label` on each of `topic_names`.
    pub fn add_label_to_many(&mut self, cluster: &str, topic_names: &[String], label: &str)
        requires
            store_wf(old(self)@),
        ensures
            store_wf(final(self)@),
            forall|c: Seq<char>, t: Seq<char>|
                !(c == cluster@ && strs(topic_names@).contains(t)) ==> #[trigger] labels_of(final(self)@, c, t)
                    == labels_of(old(self)@, c, t),
            normalized(label@).len() > 0 ==> forall|t: Seq<char>|
                #![trigger strs(topic_names@).contains(t)]
                strs(topic_names@).contains(t) ==> labels_after_add(
                    labels_of(old(self)@, cluster@, t),
                    labels_of(final(self)@, cluster@, t),
                    normalized(label@),
                ),
            normalized(label@).len() > 0 ==> label_added_in(old(self)@, final(self)@, cluster@,
                |t: Seq<char>| strs(topic_names@).contains(t), normalized(label@)),
    {
        let ghost s0 = self@;
        let ghost l = normalized(label@);
        let mut i: usize = 0;
        while i < topic_names.len()
            invariant
                i <= topic_names@.len(),
                store_wf(self@),
                l == normalized(label@),
                forall|c: Seq<char>, t: Seq<char>|
                    !(c == cluster@ && strs(topic_names@).subrange(0, i as int).contains(t)) ==> #[trigger] labels_of(self@, c, t)
                        == labels_of(s0, c, t),
                l.len() > 0 ==> forall|t: Seq<char>|
                    #![trigger strs(topic_names@).subrange(0, i as int).contains(t)]
                    strs(topic_names@).subrange(0, i as int).contains(t) ==> labels_after_add(
                        labels_of(s0, cluster@, t),
                        labels_of(self@, cluster@, t),
                        l,
                    ),
            decreases topic_names.len() - i,
        {
            let ghost before = self@;
            let name = topic_names[i].as_str();
            assert(name@ == topic_names@[i as int]@);
            self.add_label(cluster, name, label);
            proof {
                let ti = topic_names@[i as int]@;
                if l.len() > 0 {
                    assert(label_added(before, self@, cluster@, ti, l));
                    assert(labels_after_add(labels_of(before, cluster@, ti), labels_of(self@, cluster@, ti), l));
                }
                let pre = strs(topic_names@).subrange(0, i as int);
                let nxt = strs(topic_names@).subrange(0, i + 1 as int);
                assert(nxt =~= pre.push(ti));
                assert forall|t: Seq<char>| #[trigger] nxt.contains(t) <==> (pre.contains(t) || t == ti) by {
                    if nxt.contains(t) {
                        let k = choose|k: int| 0 <= k < nxt.len() && nxt[k] == t;
                        if k < pre.len() {
                            assert(pre[k] == t);
                        }
                    }
                    if pre.contains(t) {
                        let k = choose|k: int| 0 <= k < pre.len() && pre[k] == t;
                        assert(nxt[k] == t);
                    }
                    if t == ti {
                        assert(nxt[i as int] == t);
                    }
                }
                if l.len() > 0 {
                    assert forall|t: Seq<char>| #[trigger] nxt.contains(t) implies labels_after_add(
                        labels_of(s0, cluster@, t),
                        labels_of(self@, cluster@, t),
                        l,
                    ) by {
                        if t == ti {
                            if pre.contains(t) {
                                lemma_add_twice(labels_of(s0, cluster@, t), labels_of(before, cluster@, t), labels_of(self@, cluster@, t), l);
                            }
                        } else {
                            assert(pre.contains(t));
                        }
                    }
                }
            }
            i = i + 1;
        }
        assert(strs(topic_names@).subrange(0, i as int) =~= strs(topic_names@));
    }

    /// The names of the topics of `cluster` that carry `label`, compared in
    /// lower case; each name once, in stored order.
    pub fn topics_with_label(&self, cluster: &str, label: &str) -> (r: Vec<String>)
        requires
            store_wf(self@),
        ensures
            strs(r@) == matching_topics(cluster_topics(self@, cluster@), unicode_lower(label@)),
    {
        let needle = lowercase(label);
        let mut out: Vec<String> = Vec::new();
        let ci = match find_cluster(&self.clusters, cluster) {
            None => {
                assert(strs(out@) =~= Seq::<Seq<char>>::empty());
                return out;
            },
            Some(i) => i,
        };
        proof {
            lemma_lookup_at(self@, ci as int);
        }
        let ts = &self.clusters[ci].topics;
        let ghost tv = topics_view(ts@);
        assert(cluster_topics(self@, cluster@) == tv);
        let mut i: usize = 0;
        while i < ts.len()
            invariant
                i <= ts@.len(),
                tv == topics_view(ts@),
                strs(out@) == matching_topics(tv.subrange(0, i as int), needle@),
            decreases ts.len() - i,
        {
            let ghost pre = tv.subrange(0, i as int);
            let ghost nxt = tv.subrange(0, i + 1 as int);
            assert(nxt.drop_last() =~= pre);
            let kept = retain_unmatched(&ts[i].labels, &needle);
            if kept.len() != ts[i].labels.len() {
                out.push(ts[i].topic.clone());
                assert(strs(out@) =~= matching_topics(pre, needle@).push(tv[i as int].0));
            }
            i = i + 1;
        }
        assert(tv.subrange(0, i as int) =~= tv);
        out
    }

    /// Removes `label` (compared after trimming, in lower case) from every
    /// topic of `cluster`, drops topics left without labels and the cluster
    /// when no topic is left. Returns how many topics had the label.
    pub fn delete_label(&mut self, cluster: &str, label: &str) -> (r: usize)
        requires
            store_wf(old(self)@),
        ensures
            store_wf(final(self)@),
            normalized(label@).len() == 0 ==> r == 0 && final(self)@ == old(self)@,
            normalized(label@).len() > 0 ==> {
                &&& r == matching_topics(cluster_topics(old(self)@, cluster@), normalized(label@)).len()
                &&& label_dropped_in(old(self)@, final(self)@, cluster@, |t: Seq<char>| true, normalized(label@))
                &&& forall|c: Seq<char>| c != cluster@ ==> #[trigger] lookup(final(self)@, c) == lookup(old(self)@, c)
                &&& cluster_recorded(final(self)@, cluster@) == (cluster_topics(final(self)@, cluster@).len() > 0)
                &&& forall|t: Seq<char>| #[trigger] topic_recorded(final(self)@, cluster@, t)
                    == (labels_of(final(self)@, cluster@, t).len() > 0)
            },
    {
        let needle = normalize_label(label);
        if needle.as_str().unicode_len() == 0 {
            return 0;
        }
        let ghost s0 = self@;
        let ci = match find_cluster(&self.clusters, cluster) {
            None => {
                proof {
                    assert(cluster_topics(s0, cluster@) =~= Seq::<TopicView>::empty());
                    assert(matching_topics(Seq::<TopicView>::empty(), needle@) =~= Seq::<Seq<char>>::empty());
                    assert forall|c: Seq<char>, t: Seq<char>| true implies #[trigger] labels_of(s0, c, t) == if c == cluster@ {
                        drop_matching(labels_of(s0, c, t), needle@)
                    } else {
                        labels_of(s0, c, t)
                    } by {
                        if c == cluster@ {
                            assert(labels_of(s0, c, t) =~= Seq::<Seq<char>>::empty());
                        }
                    }
                }
                return 0;
            },
            Some(i) => i,
        };
        proof {
            lemma_lookup_at(s0, ci as int);
        }
        let ghost s0e = self.clusters@;
        let mut cl = self.clusters.remove(ci);
        let ghost tv = topics_view(cl.topics@);
        assert(tv == s0[ci as int].1);
        assert(unique_keys(tv));
        let mut new_ts: Vec<TopicLabels> = Vec::new();
        let mut affected: usize = 0;
        let mut i: usize = 0;
        while i < cl.topics.len()
            invariant
                i <= cl.topics@.len(),
                tv == topics_view(cl.topics@),
                unique_keys(tv),
                unique_keys(topics_view(new_ts@)),
                forall|j: int| 0 <= j < new_ts@.len() ==> #[trigger] has_key(tv.subrange(0, i as int), topics_view(new_ts@)[j].0),
                forall|t: Seq<char>| #[trigger] topic_labels_in(topics_view(new_ts@), t) == if has_key(tv.subrange(0, i as int), t) {
                    drop_matching(topic_labels_in(tv, t), needle@)
                } else {
                    Seq::<Seq<char>>::empty()
                },
                affected == matching_topics(tv.subrange(0, i as int), needle@).len(),
                affected <= i,
                forall|j: int| 0 <= j < new_ts@.len() ==> (#[trigger] topics_view(new_ts@)[j]).1.len() > 0,
            decreases cl.topics.len() - i,
        {
            let ghost pre = tv.subrange(0, i as int);
            let ghost nxt = tv.subrange(0, i + 1 as int);
            assert(nxt.drop_last() =~= pre);
            let ghost nv0 = topics_view(new_ts@);
            let kept = retain_unmatched(&cl.topics[i].labels, &needle);
            if kept.len() != cl.topics[i].labels.len() {
                affected = affected + 1;
            }
            let ghost name = tv[i as int].0;
            proof {
                lemma_lookup_at(tv, i as int);
                assert(!has_key(pre, name)) by {
                    if has_key(pre, name) {
                        let k = choose|k: int| 0 <= k < pre.len() && #[trigger] pre[k].0 == name;
                        assert(tv[k].0 == name);
                    }
                }
                assert(!has_key(nv0, name)) by {
                    if has_key(nv0, name) {
                        let k = choose|k: int| 0 <= k < nv0.len() && #[trigger] nv0[k].0 == name;
                        assert(has_key(pre, nv0[k].0));
                    }
                }
                assert(has_key(nxt, name)) by {
                    assert(nxt[i as int].0 == name);
                }
                assert forall|t: Seq<char>| #[trigger] has_key(nxt, t) == (has_key(pre, t) || t == name) by {
                    if has_key(nxt, t) {
                        let k = choose|k: int| 0 <= k < nxt.len() && #[trigger] nxt[k].0 == t;
                        if k < pre.len() {
                            assert(pre[k].0 == t);
                        }
                    }
                    if has_key(pre, t) {
                        let k = choose|k: int| 0 <= k < pre.len() && #[trigger] pre[k].0 == t;
                        assert(nxt[k].0 == t);
                    }
                }
            }
            if kept.len() > 0 {
                let t = TopicLabels { topic: cl.topics[i].topic.clone(), labels: kept };
                new_ts.push(t);
                proof {
                    assert(topics_view(new_ts@) =~= nv0.push((name, strs(t.labels@))));
                    lemma_lookup_push(nv0, name, strs(t.labels@));
                    let nv1 = topics_view(new_ts@);
                    assert forall|j: int| 0 <= j < nv1.len() implies (#[trigger] nv1[j]).1.len() > 0 by {
                        if j < nv0.len() {
                            assert(nv1[j] == nv0[j]);
                        } else {
                            assert(strs(t.labels@).len() == t.labels@.len());
                        }
                    }
                    assert forall|j: int| 0 <= j < nv1.len() implies #[trigger] has_key(nxt, nv1[j].0) by {
                        if j < nv0.len() {
                            assert(nv1[j] == nv0[j]);
                            assert(has_key(pre, nv0[j].0));
                        }
                    }
                    assert forall|t2: Seq<char>| true implies #[trigger] topic_labels_in(nv1, t2) == if has_key(nxt, t2) {
                        drop_matching(topic_labels_in(tv, t2), needle@)
                    } else {
                        Seq::<Seq<char>>::empty()
                    } by {
                        if t2 != name {
                            assert(topic_labels_in(nv1, t2) == topic_labels_in(nv0, t2));
                        }
                    }
                }
            } else {
                proof {
                    let nv1 = topics_view(new_ts@);
                    assert forall|j: int| 0 <= j < nv1.len() implies #[trigger] has_key(nxt, nv1[j].0) by {
                        assert(has_key(pre, nv1[j].0));
                    }
                    assert forall|t2: Seq<char>| true implies #[trigger] topic_labels_in(nv1, t2) == if has_key(nxt, t2) {
                        drop_matching(topic_labels_in(tv, t2), needle@)
                    } else {
                        Seq::<Seq<char>>::empty()
                    } by {
                        if t2 == name {
                            assert(strs(kept@) =~= Seq::<Seq<char>>::empty());
                        }
                    }
                }
            }
            i = i + 1;
        }
        assert(tv.subrange(0, i as int) =~= tv);
        let ghost nv = topics_view(new_ts@);
        if new_ts.len() == 0 {
            proof {
                assert(self.clusters@ =~= s0e.remove(ci as int));
                assert(self@ =~= s0.remove(ci as int));
                lemma_lookup_remove(s0, ci as int);
                let s2 = self@;
                assert(store_wf(s2)) by {
                    assert forall|k: int| 0 <= k < s2.len() implies unique_keys(#[trigger] s2[k].1) by {
                        let sk = if k < ci { k } else { k + 1 };
                        assert(s2[k] == s0[sk]);
                    }
                }
                assert forall|c: Seq<char>, t: Seq<char>| true implies #[trigger] labels_of(s2, c, t) == if c == cluster@ {
                    drop_matching(labels_of(s0, c, t), needle@)
                } else {
                    labels_of(s0, c, t)
                } by {
                    if c == cluster@ {
                        assert(cluster_topics(s0, c) == tv);
                        assert(topic_labels_in(nv, t) =~= Seq::<Seq<char>>::empty());
                        if !has_key(tv, t) {
                            assert(labels_of(s0, c, t) =~= Seq::<Seq<char>>::empty());
                        }
                    }
                }
                assert(lookup(s2, cluster@) is None);
                assert(cluster_topics(s2, cluster@) =~= Seq::<TopicView>::empty());
            }
        } else {
            cl.topics = new_ts;
            self.clusters.insert(ci, cl);
            proof {
                assert(self.clusters@ =~= s0e.update(ci as int, self.clusters@[ci as int]));
                lemma_store_update(s0e, ci as int, self.clusters@[ci as int]);
                assert(self@ =~= s0.update(ci as int, (cluster@, nv)));
                lemma_lookup_update(s0, ci as int, nv);
                let s2 = self@;
                assert(store_wf(s2)) by {
                    assert forall|k: int| 0 <= k < s2.len() implies unique_keys(#[trigger] s2[k].1) by {
                        if k != ci {
                            assert(s2[k] == s0[k]);
                        }
                    }
                }
                assert forall|c: Seq<char>, t: Seq<char>| true implies #[trigger] labels_of(s2, c, t) == if c == cluster@ {
                    drop_matching(labels_of(s0, c, t), needle@)
                } else {
                    labels_of(s0, c, t)
                } by {
                    if c == cluster@ {
                        assert(cluster_topics(s0, c) == tv);
                        assert(cluster_topics(s2, c) == nv);
                        assert(labels_of(s2, c, t) == topic_labels_in(nv, t));
                        assert(labels_of(s0, c, t) == topic_labels_in(tv, t));
                        if !has_key(tv, t) {
                            assert(labels_of(s0, c, t) =~= Seq::<Seq<char>>::empty());
                            assert(drop_matching(labels_of(s0, c, t), needle@) =~= Seq::<Seq<char>>::empty());
                        }
                    } else {
                        assert(lookup(s2, c) == lookup(s0, c));
                    }
                }
                assert(cluster_topics(s2, cluster@) == nv);
                assert forall|t: Seq<char>| #[trigger] topic_recorded(s2, cluster@, t)
                    == (labels_of(s2, cluster@, t).len() > 0) by {
                    if has_key(nv, t) {
                        let j = choose|j: int| 0 <= j < nv.len() && #[trigger] nv[j].0 == t;
                        lemma_lookup_at(nv, j);
                    }
                }
            }
        }
        affected
    }

    /// Every label of `cluster` with the number of times it occurs,
    /// sorted by label.
    pub fn all_labels(&self, cluster: &str) -> (r: Vec<(String, usize)>)
        requires
            store_wf(self@),
            label_occurrences(cluster_topics(self@, cluster@)).len() <= usize::MAX,
        ensures
            label_counts(r@, label_occurrences(cluster_topics(self@, cluster@))),
    {
        let mut acc: Vec<(String, usize)> = Vec::new();
        let ci = match find_cluster(&self.clusters, cluster) {
            None => {
                proof {
                    broadcast use vstd::multiset::group_multiset_axioms;
                    assert(cluster_topics(self@, cluster@) =~= Seq::<TopicView>::empty());
                }
                return acc;
            },
            Some(i) => i,
        };
        proof {
            lemma_lookup_at(self@, ci as int);
        }
        let ts = &self.clusters[ci].topics;
        let ghost tv = topics_view(ts@);
        assert(cluster_topics(self@, cluster@) == tv);
        proof {
            broadcast use vstd::multiset::group_multiset_axioms;
            assert(tv.subrange(0, 0) =~= Seq::<TopicView>::empty());
        }
        let mut i: usize = 0;
        while i < ts.len()
            invariant
                i <= ts@.len(),
                tv == topics_view(ts@),
                label_occurrences(tv).len() <= usize::MAX,
                label_counts(acc@, label_occurrences(tv.subrange(0, i as int))),
            decreases ts.len() - i,
        {
            let labels = &ts[i].labels;
            let ghost base = label_occurrences(tv.subrange(0, i as int));
            let ghost ls = strs(labels@);
            assert(ls == tv[i as int].1);
            proof {
                lemma_occurrences_prefix_len(tv, i as int);
                broadcast use vstd::seq_lib::group_to_multiset_ensures;
                assert(ls.subrange(0, 0) =~= Seq::<Seq<char>>::empty());
                assert(base.add(ls.subrange(0, 0).to_multiset()) =~= base);
            }
            let mut j: usize = 0;
            while j < labels.len()
                invariant
                    j <= labels@.len(),
                    ls == strs(labels@),
                    base.len() + ls.len() <= usize::MAX,
                    label_counts(acc@, base.add(ls.subrange(0, j as int).to_multiset())),
                decreases labels.len() - j,
            {
                let ghost m = base.add(ls.subrange(0, j as int).to_multiset());
                proof {
                    broadcast use vstd::seq_lib::group_to_multiset_ensures;
                    broadcast use vstd::multiset::group_multiset_axioms;
                    assert(m.count(ls[j as int]) <= m.len());
                    assert(m.len() == base.len() + j);
                    assert(ls.subrange(0, j + 1 as int) =~= ls.subrange(0, j as int).push(ls[j as int]));
                    assert(base.add(ls.subrange(0, j + 1 as int).to_multiset()) =~= m.insert(ls[j as int]));
                }
                bump_count(&mut acc, &labels[j], Ghost(m));
                j = j + 1;
            }
            proof {
                assert(ls.subrange(0, j as int) =~= ls);
                assert(tv.subrange(0, i + 1 as int).drop_last() =~= tv.subrange(0, i as int));
            }
            i = i + 1;
        }
        assert(tv.subrange(0, i as int) =~= tv);
        acc
    }

    /// How many label occurrences `cluster` has, if that count fits in a
    /// `usize`.
    pub fn label_total(&self, cluster: &str) -> (r: Option<usize>)
        requires
            store_wf(self@),
        ensures
            match r {
                Some(n) => n == label_occurrences(cluster_topics(self@, cluster@)).len(),
                None => label_occurrences(cluster_topics(self@, cluster@)).len() > usize::MAX,
            },
    {
        let ci = match find_cluster(&self.clusters, cluster) {
            None => {
                proof {
                    broadcast use vstd::multiset::group_multiset_axioms;
                    assert(cluster_topics(self@, cluster@) =~= Seq::<TopicView>::empty());
                }
                return Some(0);
            },
            Some(i) => i,
        };
        proof {
            lemma_lookup_at(self@, ci as int);
        }
        let ts = &self.clusters[ci].topics;
        let ghost tv = topics_view(ts@);
        assert(cluster_topics(self@, cluster@) == tv);
        proof {
            broadcast use vstd::multiset::group_multiset_axioms;
            assert(tv.subrange(0, 0) =~= Seq::<TopicView>::empty());
        }
        let mut total: usize = 0;
        let mut i: usize = 0;
        while i < ts.len()
            invariant
                i <= ts@.len(),
                tv == topics_view(ts@),
                cluster_topics(self@, cluster@) == tv,
                total == label_occurrences(tv.subrange(0, i as int)).len(),
            decreases ts.len() - i,
        {
            proof {
                broadcast use vstd::seq_lib::group_to_multiset_ensures;
                broadcast use vstd::multiset::group_multiset_axioms;
                assert(tv.subrange(0, i + 1 as int).drop_last() =~= tv.subrange(0, i as int));
                assert(tv[i as int].1 == strs(ts@[i as int].labels@));
            }
            let n = ts[i].labels.len();
            if total > usize::MAX - n {
                proof {
                    lemma_occurrences_prefix_len(tv, i as int);
                }
                return None;
            }
            total = total + n;
            i = i + 1;
        }
        assert(tv.subrange(0, i as int) =~= tv);
        Some(total)
    }

    /// How many topics of `cluster` carry `label` (lower-case comparison).
    pub fn label_topic_count(&self, cluster: &str, label: &str) -> (r: usize)
        requires
            store_wf(self@),
        ensures
            r == matching_topics(cluster_topics(self@, cluster@), unicode_lower(label@)).len(),
    {
        self.topics_with_label(cluster, label).len()
    }
}

pub proof fn lemma_drop_matching_idempotent(ls: Seq<Seq<char>>, needle: Seq<char>)
    ensures
        drop_matching(drop_matching(ls, needle), needle) == drop_matching(ls, needle),
    decreases ls.len(),
{
    if ls.len() > 0 {
        lemma_drop_matching_idempotent(ls.drop_last(), needle);
        let d = drop_matching(ls.drop_last(), needle);
        if unicode_lower(ls.last()) != needle {
            assert(d.push(ls.last()).drop_last() =~= d);
        }
    }
}

/// Two additions of one label: the second changes nothing.
pub proof fn lemma_add_twice(l0: Seq<Seq<char>>, l1: Seq<Seq<char>>, l2: Seq<Seq<char>>, l: Seq<char>)
    requires
        labels_after_add(l0, l1, l),
        labels_after_add(l1, l2, l),
    ensures
        labels_after_add(l0, l2, l),
        l2 == l1,
{
    broadcast use vstd::seq_lib::group_to_multiset_ensures;
    broadcast use vstd::multiset::group_multiset_axioms;
    if !l0.contains(l) {
        assert(l1.to_multiset().count(l) > 0);
        assert(l1.contains(l));
    }
}


proof fn lemma_drop_matching_clean(ls: Seq<Seq<char>>, needle: Seq<char>)
    ensures
        !has_matching(drop_matching(ls, needle), needle),
    decreases ls.len(),
{
    if ls.len() > 0 {
        lemma_drop_matching_clean(ls.drop_last(), needle);
        let d = drop_matching(ls.drop_last(), needle);
        if unicode_lower(ls.last()) != needle {
            let e = d.push(ls.last());
            if has_matching(e, needle) {
                let k = choose|k: int| 0 <= k < e.len() && unicode_lower(#[trigger] e[k]) == needle;
                if k < d.len() {
                    assert(e[k] == d[k]);
                }
            }
        }
    }
}

/// After `add_label`, the topic lists the (normalized) label.
pub proof fn law_added_label_is_listed(
    s0: StoreView,
    s1: StoreView,
    cluster: Seq<char>,
    topic: Seq<char>,
    l: Seq<char>,
)
    requires
        label_added(s0, s1, cluster, topic, l),
    ensures
        labels_of(s1, cluster, topic).contains(l),
{
    broadcast use vstd::seq_lib::group_to_multiset_ensures;
    broadcast use vstd::multiset::group_multiset_axioms;
    if !labels_of(s0, cluster, topic).contains(l) {
        assert(labels_of(s1, cluster, topic).to_multiset().count(l) > 0);
    }
}

/// Adding a label a second time changes nothing.
pub proof fn law_add_label_idempotent(
    s0: StoreView,
    s1: StoreView,
    s2: StoreView,
    cluster: Seq<char>,
    topic: Seq<char>,
    l: Seq<char>,
)
    requires
        label_added(s0, s1, cluster, topic, l),
        label_added(s1, s2, cluster, topic, l),
    ensures
        forall|c: Seq<char>, t: Seq<char>| #[trigger] labels_of(s2, c, t) == labels_of(s1, c, t),
{
    lemma_add_twice(labels_of(s0, cluster, topic), labels_of(s1, cluster, topic), labels_of(s2, cluster, topic), l);
    assert forall|c: Seq<char>, t: Seq<char>| #[trigger] labels_of(s2, c, t) == labels_of(s1, c, t) by {
        if c != cluster || t != topic {
            assert(labels_of(s2, c, t) == labels_of(s1, c, t));
        }
    }
}

/// After `delete_label`, no topic of the cluster carries a label matching
/// the deleted one, and labels of other clusters are as before.
pub proof fn law_deleted_label_is_gone(s0: StoreView, s1: StoreView, cluster: Seq<char>, needle: Seq<char>)
    requires
        label_dropped_in(s0, s1, cluster, |t: Seq<char>| true, needle),
    ensures
        forall|t: Seq<char>| !has_matching(#[trigger] labels_of(s1, cluster, t), needle),
        forall|c: Seq<char>, t: Seq<char>| c != cluster ==> #[trigger] labels_of(s1, c, t) == labels_of(s0, c, t),
{
    assert forall|t: Seq<char>| !has_matching(#[trigger] labels_of(s1, cluster, t), needle) by {
        assert(labels_of(s1, cluster, t) == drop_matching(labels_of(s0, cluster, t), needle));
        lemma_drop_matching_clean(labels_of(s0, cluster, t), needle);
    }
    assert forall|c: Seq<char>, t: Seq<char>| c != cluster implies #[trigger] labels_of(s1, c, t) == labels_of(s0, c, t) by {
        assert(labels_of(s1, c, t) == labels_of(s0, c, t));
    }
}

/// After `remove_label`, the topic carries no label matching the removed one.
pub proof fn law_removed_label_is_gone(
    s0: StoreView,
    s1: StoreView,
    cluster: Seq<char>,
    topic: Seq<char>,
    needle: Seq<char>,
)
    requires
        labels_of(s1, cluster, topic) == drop_matching(labels_of(s0, cluster, topic), needle),
    ensures
        !has_matching(labels_of(s1, cluster, topic), needle),
{
    lemma_drop_matching_clean(labels_of(s0, cluster, topic), needle);
}

/// For a label without surrounding whitespace, the count `delete_label`
/// reports is the count `label_topic_count` gives before the deletion.
pub proof fn law_delete_count_is_topic_count(s: StoreView, cluster: Seq<char>, label: Seq<char>)
    requires
        trim(label) == label,
    ensures
        matching_topics(cluster_topics(s, cluster), normalized(label)).len()
            == matching_topics(cluster_topics(s, cluster), unicode_lower(label)).len(),
{
}


/// Labels kept as `add_label` keeps them: each in lower case, none twice.
pub open spec fn labels_tidy(ls: Seq<Seq<char>>) -> bool {
    &&& forall|k: int| 0 <= k < ls.len() ==> unicode_lower(#[trigger] ls[k]) == ls[k]
    &&& forall|k1: int, k2: int| 0 <= k1 < k2 < ls.len() ==> #[trigger] ls[k1] != #[trigger] ls[k2]
}

/// Every topic's labels are tidy.
pub open spec fn topics_tidy(ts: TopicsView) -> bool {
    forall|i: int| 0 <= i < ts.len() ==> labels_tidy(#[trigger] ts[i].1)
}

proof fn lemma_tidy_list_count(ls: Seq<Seq<char>>, l: Seq<char>)
    requires
        labels_tidy(ls),
        unicode_lower(l) == l,
    ensures
        ls.to_multiset().count(l) == if has_matching(ls, l) { 1nat } else { 0nat },
    decreases ls.len(),
{
    broadcast use vstd::seq_lib::group_to_multiset_ensures;
    if ls.len() == 0 {
        assert(!has_matching(ls, l));
    } else {
        let d = ls.drop_last();
        assert(ls =~= d.push(ls.last()));
        assert forall|k1: int, k2: int| 0 <= k1 < k2 < d.len() implies #[trigger] d[k1] != #[trigger] d[k2] by {
            assert(d[k1] == ls[k1] && d[k2] == ls[k2]);
        }
        assert forall|k: int| 0 <= k < d.len() implies unicode_lower(#[trigger] d[k]) == d[k] by {
            assert(d[k] == ls[k]);
        }
        lemma_tidy_list_count(d, l);
        assert(has_matching(ls, l) == (has_matching(d, l) || unicode_lower(ls.last()) == l)) by {
            if has_matching(ls, l) {
                let k = choose|k: int| 0 <= k < ls.len() && unicode_lower(#[trigger] ls[k]) == l;
                if k < d.len() {
                    assert(d[k] == ls[k]);
                }
            }
            if has_matching(d, l) {
                let k = choose|k: int| 0 <= k < d.len() && unicode_lower(#[trigger] d[k]) == l;
                assert(ls[k] == d[k]);
            }
            if unicode_lower(ls.last()) == l {
                assert(unicode_lower(ls[ls.len() - 1]) == l);
            }
        }
        assert(unicode_lower(ls[ls.len() - 1]) == ls[ls.len() - 1]);
        if ls.last() == l && has_matching(d, l) {
            let k = choose|k: int| 0 <= k < d.len() && unicode_lower(#[trigger] d[k]) == l;
            assert(d[k] == ls[k]);
            assert(ls[k] != ls[ls.len() - 1]);
        }
    }
}

proof fn lemma_tidy_topic_count(ts: TopicsView, l: Seq<char>)
    requires
        topics_tidy(ts),
        unicode_lower(l) == l,
    ensures
        matching_topics(ts, l).len() == label_occurrences(ts).count(l),
    decreases ts.len(),
{
    broadcast use vstd::multiset::group_multiset_axioms;
    if ts.len() > 0 {
        let d = ts.drop_last();
        assert forall|i: int| 0 <= i < d.len() implies labels_tidy(#[trigger] d[i].1) by {
            assert(d[i] == ts[i]);
        }
        lemma_tidy_topic_count(d, l);
        assert(labels_tidy(ts[ts.len() - 1].1));
        lemma_tidy_list_count(ts.last().1, l);
    }
}

proof fn lemma_occurring_label_stored(ts: TopicsView, l: Seq<char>)
    requires
        label_occurrences(ts).count(l) > 0,
    ensures
        exists|i: int, k: int| 0 <= i < ts.len() && 0 <= k < ts[i].1.len() && #[trigger] ts[i].1[k] == l,
    decreases ts.len(),
{
    broadcast use vstd::multiset::group_multiset_axioms;
    broadcast use vstd::seq_lib::group_to_multiset_ensures;
    let d = ts.drop_last();
    if label_occurrences(d).count(l) > 0 {
        lemma_occurring_label_stored(d, l);
        let (i, k) = choose|i: int, k: int| 0 <= i < d.len() && 0 <= k < d[i].1.len() && #[trigger] d[i].1[k] == l;
        assert(ts[i] == d[i]);
    } else {
        assert(ts.last().1.to_multiset().count(l) > 0);
        assert(ts.last().1.contains(l));
        let k = choose|k: int| 0 <= k < ts.last().1.len() && ts.last().1[k] == l;
        assert(ts[ts.len() - 1].1[k] == l);
    }
}

/// Where every label of a cluster is stored in lower case and at most once
/// per topic (as adding keeps them), the number of topics carrying a label
/// (`label_topic_count`) is the count `all_labels` gives for it.
pub proof fn law_topic_count_is_label_count(s: StoreView, cluster: Seq<char>, l: Seq<char>)
    requires
        store_wf(s),
        topics_tidy(cluster_topics(s, cluster)),
        label_occurrences(cluster_topics(s, cluster)).count(l) > 0,
    ensures
        matching_topics(cluster_topics(s, cluster), unicode_lower(l)).len()
            == label_occurrences(cluster_topics(s, cluster)).count(l),
{
    let ts = cluster_topics(s, cluster);
    lemma_occurring_label_stored(ts, l);
    let (i, k) = choose|i: int, k: int| 0 <= i < ts.len() && 0 <= k < ts[i].1.len() && #[trigger] ts[i].1[k] == l;
    assert(labels_tidy(ts[i].1));
    assert(unicode_lower(ts[i].1[k]) == ts[i].1[k]);
    lemma_tidy_topic_count(ts, l);
}


proof fn lemma_sorted_same_multiset(a: Seq<Seq<char>>, b: Seq<Seq<char>>)
    requires
        sorted_strs(a),
        sorted_strs(b),
        a.to_multiset() == b.to_multiset(),
    ensures
        a == b,
    decreases a.len(),
{
    broadcast use vstd::seq_lib::group_to_multiset_ensures;
    broadcast use vstd::multiset::group_multiset_axioms;
    vstd::seq_lib::to_multiset_len(a);
    vstd::seq_lib::to_multiset_len(b);
    if a.len() == 0 {
        assert(a =~= b);
    } else {
        let x = a.last();
        let y = b.last();
        assert(a.contains(x));
        assert(a.to_multiset().count(x) > 0);
        assert(b.contains(x));
        let j = choose|j: int| 0 <= j < b.len() && b[j] == x;
        assert(b.to_multiset().count(y) > 0);
        assert(a.contains(y));
        let i = choose|i: int| 0 <= i < a.len() && a[i] == y;
        if j < b.len() - 1 {
            assert(!lex_lt(b[b.len() - 1], b[j]));
        }
        if i < a.len() - 1 {
            assert(!lex_lt(a[a.len() - 1], a[i]));
        }
        lemma_lex_total(x, y);
        assert(x == y);
        let da = a.drop_last();
        let db = b.drop_last();
        assert(a =~= da.push(x));
        assert(b =~= db.push(y));
        assert(a.to_multiset() == da.to_multiset().insert(x));
        assert(b.to_multiset() == db.to_multiset().insert(x));
        assert(da.to_multiset() =~= db.to_multiset()) by {
            assert forall|v: Seq<char>| #[trigger] da.to_multiset().count(v) == db.to_multiset().count(v) by {
                assert(a.to_multiset().count(v) == b.to_multiset().count(v));
                assert(da.to_multiset().insert(x).count(v) == da.to_multiset().count(v) + if v == x { 1nat } else { 0nat });
                assert(db.to_multiset().insert(x).count(v) == db.to_multiset().count(v) + if v == x { 1nat } else { 0nat });
            }
        }
        assert forall|i1: int, j1: int| 0 <= i1 < j1 < da.len() implies !lex_lt(#[trigger] da[j1], #[trigger] da[i1]) by {
            assert(da[i1] == a[i1] && da[j1] == a[j1]);
        }
        assert forall|i1: int, j1: int| 0 <= i1 < j1 < db.len() implies !lex_lt(#[trigger] db[j1], #[trigger] db[i1]) by {
            assert(db[i1] == b[i1] && db[j1] == b[j1]);
        }
        lemma_sorted_same_multiset(da, db);
    }
}

proof fn lemma_drop_matching_parts(ls: Seq<Seq<char>>, n: Seq<char>)
    ensures
        forall|x: Seq<char>| #[trigger] drop_matching(ls, n).to_multiset().count(x)
            == if unicode_lower(x) == n { 0 } else { ls.to_multiset().count(x) },
        forall|k: int| 0 <= k < drop_matching(ls, n).len() ==> ls.contains(#[trigger] drop_matching(ls, n)[k]),
        sorted_strs(ls) ==> sorted_strs(drop_matching(ls, n)),
    decreases ls.len(),
{
    broadcast use vstd::seq_lib::group_to_multiset_ensures;
    broadcast use vstd::multiset::group_multiset_axioms;
    if ls.len() == 0 {
        assert(drop_matching(ls, n).to_multiset() =~= Multiset::empty());
    } else {
        let d = ls.drop_last();
        let x = ls.last();
        assert(ls =~= d.push(x));
        lemma_drop_matching_parts(d, n);
        let dd = drop_matching(d, n);
        assert forall|k: int| 0 <= k < drop_matching(ls, n).len() implies ls.contains(#[trigger] drop_matching(ls, n)[k]) by {
            if k < dd.len() {
                assert(drop_matching(ls, n)[k] == dd[k]);
                assert(d.contains(dd[k]));
                let j = choose|j: int| 0 <= j < d.len() && d[j] == dd[k];
                assert(ls[j] == d[j]);
            } else {
                assert(ls[ls.len() - 1] == x);
            }
        }
        if sorted_strs(ls) {
            assert forall|i1: int, j1: int| 0 <= i1 < j1 < d.len() implies !lex_lt(#[trigger] d[j1], #[trigger] d[i1]) by {
                assert(d[i1] == ls[i1] && d[j1] == ls[j1]);
            }
            if unicode_lower(x) != n {
                let r = dd.push(x);
                assert forall|i1: int, j1: int| 0 <= i1 < j1 < r.len() implies !lex_lt(#[trigger] r[j1], #[trigger] r[i1]) by {
                    if j1 == dd.len() {
                        assert(r[i1] == dd[i1]);
                        assert(d.contains(dd[i1]));
                        let k = choose|k: int| 0 <= k < d.len() && d[k] == dd[i1];
                        assert(ls[k] == d[k]);
                        assert(!lex_lt(ls[ls.len() - 1], ls[k]));
                    } else {
                        assert(r[i1] == dd[i1] && r[j1] == dd[j1]);
                    }
                }
            }
        }
    }
}

/// Removing a label takes back adding it: where `n` is a label as stored
/// (in lower case), the topic's labels are sorted and none of them matches
/// `n`, adding `n` and then removing it leaves every topic's labels as they
/// were.
pub proof fn law_remove_undoes_add(
    s0: StoreView,
    s1: StoreView,
    s2: StoreView,
    cluster: Seq<char>,
    topic: Seq<char>,
    n: Seq<char>,
)
    requires
        n.len() > 0,
        unicode_lower(n) == n,
        sorted_strs(labels_of(s0, cluster, topic)),
        !has_matching(labels_of(s0, cluster, topic), n),
        label_added(s0, s1, cluster, topic, n),
        labels_of(s2, cluster, topic) == drop_matching(labels_of(s1, cluster, topic), unicode_lower(n)),
        forall|c: Seq<char>, t: Seq<char>| (c != cluster || t != topic) ==> #[trigger] labels_of(s2, c, t) == labels_of(s1, c, t),
    ensures
        forall|c: Seq<char>, t: Seq<char>| #[trigger] labels_of(s2, c, t) == labels_of(s0, c, t),
{
    broadcast use vstd::seq_lib::group_to_multiset_ensures;
    broadcast use vstd::multiset::group_multiset_axioms;
    let l0 = labels_of(s0, cluster, topic);
    let l1 = labels_of(s1, cluster, topic);
    let l2 = labels_of(s2, cluster, topic);
    assert(!l0.contains(n)) by {
        if l0.contains(n) {
            let k = choose|k: int| 0 <= k < l0.len() && l0[k] == n;
            assert(unicode_lower(l0[k]) == n);
        }
    }
    assert(sorted_strs(l1) && l1.to_multiset() == l0.to_multiset().insert(n));
    lemma_drop_matching_parts(l1, n);
    assert(l2.to_multiset() =~= l0.to_multiset()) by {
        assert forall|x: Seq<char>| #[trigger] l2.to_multiset().count(x) == l0.to_multiset().count(x) by {
            if unicode_lower(x) == n {
                if l0.to_multiset().count(x) > 0 {
                    assert(l0.contains(x));
                    let k = choose|k: int| 0 <= k < l0.len() && l0[k] == x;
                    assert(unicode_lower(l0[k]) == n);
                }
            }
        }
    }
    lemma_sorted_same_multiset(l2, l0);
}


/// What `all_labels` lists agrees with `label_topic_count`: where every
/// label of the cluster is stored in lower case and at most once per topic,
/// each listed pair (label, n) has `n` topics carrying the label.
pub proof fn law_all_labels_agree_with_topic_count(s: StoreView, cluster: Seq<char>, counts: Seq<(String, usize)>, i: int)
    requires
        store_wf(s),
        topics_tidy(cluster_topics(s, cluster)),
        label_counts(counts, label_occurrences(cluster_topics(s, cluster))),
        0 <= i < counts.len(),
    ensures
        matching_topics(cluster_topics(s, cluster), unicode_lower(counts[i].0@)).len() == counts[i].1,
{
    let m = label_occurrences(cluster_topics(s, cluster));
    assert(m.count(counts[i].0@) > 0);
    assert(counts[i].1 == m.count(counts[i].0@));
    law_topic_count_is_label_count(s, cluster, counts[i].0@);
}

/// The count `label_topic_count` gives for a label is the number of topics
/// `topics_with_label` lists for it.
pub proof fn law_label_count_is_listed_topics(s: StoreView, cluster: Seq<char>, label: Seq<char>, listed: Seq<String>, count: usize)
    requires
        store_wf(s),
        strs(listed) == matching_topics(cluster_topics(s, cluster), unicode_lower(label)),
        count == matching_topics(cluster_topics(s, cluster), unicode_lower(label)).len(),
    ensures
        listed.len() == count,
{
    assert(strs(listed).len() == listed.len());
}

} // verus!
