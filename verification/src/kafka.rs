//! Kafka data the explorer shows (topics, partitions, consumer groups,
//! committed offsets, fetched messages) and the decisions taken on it:
//! message ordering, per-partition budgets, offset targets.

use vstd::prelude::*;
use vstd::multiset::Multiset;

use crate::config::{clamp_spec, clamp_watermark_parallelism};
use crate::order::{ranked_sorted, sort_ranked, Ranked};
use crate::text::{lemma_lex_irrefl, lemma_lex_split, lemma_lex_total, lemma_lex_trans, lex_lt, str_eq, str_lt};

verus! {

/// A topic with its metadata.
#[derive(Debug)]
pub struct TopicInfo {
    pub name: String,
    pub partitions: usize,
    pub replication: usize,
    pub message_count: u64,
    pub internal: bool,
}

/// Placement of one partition.
#[derive(Debug)]
pub struct PartitionInfo {
    pub id: i32,
    pub leader: i32,
    pub replicas: Vec<i32>,
    pub isr: Vec<i32>,
}

/// A consumer group as the broker lists it.
#[derive(Debug)]
pub struct ConsumerGroupInfo {
    pub id: String,
    pub state: String,
    pub members: usize,
    pub protocol: String,
    pub protocol_type: String,
}

impl ConsumerGroupInfo {
    /// Resetting or deleting a group is allowed only while it has no active
    /// members; otherwise the broker answers REBALANCE_IN_PROGRESS or
    /// UNKNOWN_MEMBER_ID.
    pub fn is_empty_or_dead(&self) -> (r: bool)
        ensures
            r == (self.state@ == "Empty"@ || self.state@ == "Dead"@),
    {
        str_eq(self.state.as_str(), "Empty") || str_eq(self.state.as_str(), "Dead")
    }
}

/// The committed offset of a group on one (topic, partition), with the log
/// end offset and the lag.
#[derive(Debug)]
pub struct GroupOffset {
    pub topic: String,
    pub partition: i32,
    /// `None`: the group has no commit on this partition.
    pub current_offset: Option<i64>,
    pub log_end_offset: i64,
    pub lag: i64,
}

/// Where a reset moves a group's offsets.
#[derive(Debug, Clone, Copy, PartialEq, Eq, Structural)]
pub enum ResetStrategy {
    Earliest,
    Latest,
    /// An absolute offset, clamped into each partition's `[low, high]`.
    ToOffset(i64),
    /// Unix milliseconds, resolved to offsets by the broker.
    ToTimestamp(i64),
}

/// A message read from a partition.
#[derive(Debug)]
pub struct FetchedMessage {
    pub partition: i32,
    pub offset: i64,
    pub timestamp_ms: Option<i64>,
    pub key: Option<String>,
    pub payload: Option<String>,
    pub headers: Vec<(String, String)>,
}

/// Most new messages one live-follow tick takes.
pub const LIVE_MAX_PER_POLL: usize = 150;

/// How the topic list is loaded: whether message counts are computed from
/// the watermarks, and by how many threads.
#[derive(Debug, Clone, Copy)]
pub struct ListTopicsOptions {
    pub fetch_watermarks: bool,
    pub parallelism: usize,
}

impl Default for ListTopicsOptions {
    fn default() -> (r: Self)
        ensures
            r.fetch_watermarks,
            r.parallelism == 16,
    {
        ListTopicsOptions { fetch_watermarks: true, parallelism: 16 }
    }
}

// ---------- message order ----------

/// `(partition, offset)` of `a` is greater than that of `b`.
pub open spec fn pos_after(a: FetchedMessage, b: FetchedMessage) -> bool {
    a.partition > b.partition || (a.partition == b.partition && a.offset > b.offset)
}

/// Whether `a` is listed strictly before `b`: newest offset first within
/// one partition; across partitions newest timestamp first (messages
/// without one last, those by position), or by position, newest first.
pub open spec fn msg_before(a: FetchedMessage, b: FetchedMessage, single_partition: bool, sort_by_time: bool) -> bool {
    if single_partition {
        a.offset > b.offset
    } else if sort_by_time {
        match (a.timestamp_ms, b.timestamp_ms) {
            (Some(ta), Some(tb)) => ta > tb,
            (Some(_), None) => true,
            (None, Some(_)) => false,
            (None, None) => pos_after(a, b),
        }
    } else {
        pos_after(a, b)
    }
}

/// No message is listed before one that should precede it.
pub open spec fn msgs_sorted(s: Seq<FetchedMessage>, single_partition: bool, sort_by_time: bool) -> bool {
    forall|i: int, j: int| 0 <= i < j < s.len() ==> !msg_before(#[trigger] s[j], #[trigger] s[i], single_partition, sort_by_time)
}

pub proof fn lemma_msg_before_trans(a: FetchedMessage, b: FetchedMessage, c: FetchedMessage, single: bool, by_time: bool)
    requires
        msg_before(a, b, single, by_time),
        msg_before(b, c, single, by_time),
    ensures
        msg_before(a, c, single, by_time),
{
}

fn msg_before_exec(a: &FetchedMessage, b: &FetchedMessage, single_partition: bool, sort_by_time: bool) -> (r: bool)
    ensures
        r == msg_before(*a, *b, single_partition, sort_by_time),
{
    let pos = a.partition > b.partition || (a.partition == b.partition && a.offset > b.offset);
    if single_partition {
        a.offset > b.offset
    } else if sort_by_time {
        match (a.timestamp_ms, b.timestamp_ms) {
            (Some(ta), Some(tb)) => ta > tb,
            (Some(_), None) => true,
            (None, Some(_)) => false,
            (None, None) => pos,
        }
    } else {
        pos
    }
}

/// Two messages that neither precedes: one before the first is before the
/// second, and the first before some message puts the second before it too
/// (the listing order ranks by a key).
pub proof fn lemma_msg_before_split(a: FetchedMessage, b: FetchedMessage, c: FetchedMessage, single: bool, by_time: bool)
    requires
        msg_before(a, b, single, by_time),
    ensures
        msg_before(a, c, single, by_time) || msg_before(c, b, single, by_time),
{
}

/// `out` holds the messages of `input` rearranged by `perm` (`out[i]` is
/// `input[perm[i]]`, each index once), and two messages of which neither
/// precedes the other keep their order from `input`.
pub open spec fn stable_arrangement(
    input: Seq<FetchedMessage>,
    out: Seq<FetchedMessage>,
    perm: Seq<int>,
    single_partition: bool,
    sort_by_time: bool,
) -> bool {
    &&& perm.len() == out.len()
    &&& out.len() == input.len()
    &&& forall|i: int| 0 <= i < out.len() ==> 0 <= #[trigger] perm[i] < input.len() && out[i] == input[perm[i]]
    &&& forall|i: int, j: int| 0 <= i < j < out.len() ==> #[trigger] perm[i] != #[trigger] perm[j]
    &&& forall|i: int, j: int|
        0 <= i < j < out.len() && !msg_before(#[trigger] out[i], #[trigger] out[j], single_partition, sort_by_time)
            ==> perm[i] < perm[j]
}

/// Orders messages for display (see `msg_before`), keeping the order of
/// messages that compare equal.
pub fn sort_fetched(out: &mut Vec<FetchedMessage>, single_partition: bool, sort_by_time: bool)
    ensures
        final(out)@.to_multiset() == old(out)@.to_multiset(),
        msgs_sorted(final(out)@, single_partition, sort_by_time),
        exists|perm: Seq<int>| stable_arrangement(old(out)@, final(out)@, perm, single_partition, sort_by_time),
{
    let mut src: Vec<FetchedMessage> = Vec::new();
    std::mem::swap(&mut src, out);
    let ghost input = src@;
    let ghost mut perm: Seq<int> = Seq::empty();
    let mut k: usize = 0;
    proof {
        broadcast use vstd::seq_lib::group_to_multiset_ensures;
        broadcast use vstd::multiset::group_multiset_axioms;
        assert(out@ =~= Seq::<FetchedMessage>::empty());
        assert(input.len() == src.len());
        assert(src@ =~= input.subrange(0, input.len() as int));
        assert(out@.to_multiset().add(src@.to_multiset()) =~= input.to_multiset());
    }
    // Take the messages in input order; each goes in front of the first
    // message it precedes.
    while src.len() > 0
        invariant
            k <= input.len() <= usize::MAX,
            src@ == input.subrange(k as int, input.len() as int),
            out@.len() == k,
            perm.len() == k,
            out@.to_multiset().add(src@.to_multiset()) == input.to_multiset(),
            msgs_sorted(out@, single_partition, sort_by_time),
            forall|i: int| 0 <= i < k ==> 0 <= #[trigger] perm[i] < k && out@[i] == input[perm[i]],
            forall|i: int, j: int| 0 <= i < j < k ==> #[trigger] perm[i] != #[trigger] perm[j],
            forall|i: int, j: int|
                0 <= i < j < k && !msg_before(#[trigger] out@[i], #[trigger] out@[j], single_partition, sort_by_time)
                    ==> perm[i] < perm[j],
        decreases src.len(),
    {
        let ghost before = src@;
        let x = src.remove(0);
        let mut p: usize = 0;
        while p < out.len() && !msg_before_exec(&x, &out[p], single_partition, sort_by_time)
            invariant
                p <= out@.len(),
                forall|q: int| 0 <= q < p ==> !msg_before(x, #[trigger] out@[q], single_partition, sort_by_time),
            decreases out.len() - p,
        {
            p = p + 1;
        }
        let ghost o = out@;
        let ghost po = perm;
        proof {
            assert(x == input[k as int]);
            assert(src@ =~= input.subrange(k + 1, input.len() as int));
            // every message from position p on is one that x precedes
            assert forall|q: int| p <= q < o.len() implies msg_before(x, #[trigger] o[q], single_partition, sort_by_time) by {
                if q > p {
                    lemma_msg_before_split(x, o[p as int], o[q], single_partition, sort_by_time);
                }
            }
            let n = o.insert(p as int, x);
            let np = po.insert(p as int, k as int);
            assert forall|i: int, j: int| 0 <= i < j < n.len() implies !msg_before(#[trigger] n[j], #[trigger] n[i], single_partition, sort_by_time) by {
                if i < p && j < p {
                } else if i < p && j == p {
                } else if i < p && j > p {
                    assert(n[j] == o[j - 1]);
                } else if i == p {
                    assert(n[j] == o[j - 1]);
                    if msg_before(o[j - 1], x, single_partition, sort_by_time) {
                        lemma_msg_before_trans(x, o[j - 1], x, single_partition, sort_by_time);
                    }
                } else {
                    assert(n[i] == o[i - 1]);
                    assert(n[j] == o[j - 1]);
                }
            }
            assert forall|i: int| 0 <= i < k + 1 implies 0 <= #[trigger] np[i] < k + 1 && n[i] == input[np[i]] by {
                if i < p {
                } else if i == p {
                } else {
                    assert(np[i] == po[i - 1]);
                    assert(n[i] == o[i - 1]);
                }
            }
            assert forall|i: int, j: int| 0 <= i < j < k + 1 implies #[trigger] np[i] != #[trigger] np[j] by {
                if i < p && j < p {
                } else if i < p && j == p {
                } else if i < p && j > p {
                    assert(np[j] == po[j - 1]);
                } else if i == p {
                    assert(np[j] == po[j - 1]);
                } else {
                    assert(np[i] == po[i - 1]);
                    assert(np[j] == po[j - 1]);
                }
            }
            assert forall|i: int, j: int|
                0 <= i < j < k + 1 && !msg_before(#[trigger] n[i], #[trigger] n[j], single_partition, sort_by_time)
                    implies np[i] < np[j] by {
                if i < p && j < p {
                } else if i < p && j == p {
                } else if i < p && j > p {
                    assert(np[j] == po[j - 1]);
                    assert(n[j] == o[j - 1]);
                } else if i == p {
                    assert(n[j] == o[j - 1]);
                    assert(msg_before(x, o[j - 1], single_partition, sort_by_time));
                } else {
                    assert(np[i] == po[i - 1]);
                    assert(np[j] == po[j - 1]);
                    assert(n[i] == o[i - 1]);
                    assert(n[j] == o[j - 1]);
                }
            }
            perm = np;
        }
        out.insert(p, x);
        k = k + 1;
        proof {
            broadcast use vstd::seq_lib::group_to_multiset_ensures;
            broadcast use vstd::multiset::group_multiset_axioms;
            assert(before =~= src@.insert(0, x));
            assert(out@.to_multiset().add(src@.to_multiset()) =~= input.to_multiset());
        }
    }
    proof {
        broadcast use vstd::seq_lib::group_to_multiset_ensures;
        broadcast use vstd::multiset::group_multiset_axioms;
        assert(src@ =~= Seq::<FetchedMessage>::empty());
        assert(out@.to_multiset() =~= input.to_multiset());
        assert(stable_arrangement(input, out@, perm, single_partition, sort_by_time));
    }
}

/// The display order of a live list: the listing order, messages it does
/// not tell apart kept in ascending position.
pub open spec fn shown_before(a: FetchedMessage, b: FetchedMessage, single_partition: bool, sort_by_time: bool) -> bool {
    msg_before(a, b, single_partition, sort_by_time)
        || (!msg_before(b, a, single_partition, sort_by_time) && pos_after(b, a))
}

pub proof fn lemma_shown_before_order(a: FetchedMessage, b: FetchedMessage, c: FetchedMessage, single: bool, by_time: bool)
    ensures
        !shown_before(a, a, single, by_time),
        shown_before(a, b, single, by_time) && shown_before(b, c, single, by_time) ==> shown_before(a, c, single, by_time),
        !(a.partition == b.partition && a.offset == b.offset) ==> shown_before(a, b, single, by_time) || shown_before(b, a, single, by_time),
        shown_before(a, b, single, by_time) ==> !shown_before(b, a, single, by_time) && !msg_before(b, a, single, by_time),
{
}

fn shown_before_exec(a: &FetchedMessage, b: &FetchedMessage, single_partition: bool, sort_by_time: bool) -> (r: bool)
    ensures
        r == shown_before(*a, *b, single_partition, sort_by_time),
{
    msg_before_exec(a, b, single_partition, sort_by_time)
        || (!msg_before_exec(b, a, single_partition, sort_by_time)
            && (b.partition > a.partition || (b.partition == a.partition && b.offset > a.offset)))
}

/// Sorts into display order (see `shown_before`).
pub fn sort_shown(out: &mut Vec<FetchedMessage>, single_partition: bool, sort_by_time: bool)
    ensures
        final(out)@.to_multiset() == old(out)@.to_multiset(),
        forall|i: int, j: int| 0 <= i < j < final(out)@.len()
            ==> !shown_before(#[trigger] final(out)@[j], #[trigger] final(out)@[i], single_partition, sort_by_time),
{
    let mut src: Vec<FetchedMessage> = Vec::new();
    std::mem::swap(&mut src, out);
    let ghost input = src@;
    let mut rev: Vec<FetchedMessage> = Vec::new();
    proof {
        broadcast use vstd::seq_lib::group_to_multiset_ensures;
        broadcast use vstd::multiset::group_multiset_axioms;
        assert(out@ =~= Seq::<FetchedMessage>::empty());
    }
    while src.len() > 0
        invariant
            rev@.to_multiset().add(src@.to_multiset()) == input.to_multiset(),
            out@.len() == 0,
        decreases src.len(),
    {
        let ghost before = src@;
        let x = src.pop().unwrap();
        rev.push(x);
        proof {
            broadcast use vstd::seq_lib::group_to_multiset_ensures;
            broadcast use vstd::multiset::group_multiset_axioms;
            assert(before =~= src@.push(x));
            assert(rev@.to_multiset().add(src@.to_multiset()) =~= input.to_multiset());
        }
    }
    proof {
        broadcast use vstd::seq_lib::group_to_multiset_ensures;
        broadcast use vstd::multiset::group_multiset_axioms;
        assert(src@ =~= Seq::<FetchedMessage>::empty());
        assert(rev@.to_multiset() =~= input.to_multiset());
        assert(out@ =~= Seq::<FetchedMessage>::empty());
    }
    while rev.len() > 0
        invariant
            forall|i: int, j: int| 0 <= i < j < out@.len()
                ==> !shown_before(#[trigger] out@[j], #[trigger] out@[i], single_partition, sort_by_time),
            out@.to_multiset().add(rev@.to_multiset()) == input.to_multiset(),
        decreases rev.len(),
    {
        let ghost before = rev@;
        let x = rev.pop().unwrap();
        let mut p: usize = 0;
        while p < out.len() && !shown_before_exec(&x, &out[p], single_partition, sort_by_time)
            invariant
                p <= out@.len(),
                forall|k: int| 0 <= k < p ==> !shown_before(x, #[trigger] out@[k], single_partition, sort_by_time),
            decreases out.len() - p,
        {
            p = p + 1;
        }
        let ghost o = out@;
        proof {
            let n = o.insert(p as int, x);
            assert forall|i: int, j: int| 0 <= i < j < n.len() implies !shown_before(#[trigger] n[j], #[trigger] n[i], single_partition, sort_by_time) by {
                if i < p && j < p {
                } else if i < p && j == p {
                } else if i < p && j > p {
                    assert(n[j] == o[j - 1]);
                } else if i == p {
                    assert(n[j] == o[j - 1]);
                    if shown_before(o[j - 1], x, single_partition, sort_by_time) {
                        if j - 1 == p {
                            lemma_shown_before_order(x, o[p as int], x, single_partition, sort_by_time);
                        } else {
                            lemma_shown_before_order(o[j - 1], x, o[p as int], single_partition, sort_by_time);
                            lemma_shown_before_order(o[j - 1], o[j - 1], o[j - 1], single_partition, sort_by_time);
                        }
                    }
                } else {
                    assert(n[i] == o[i - 1]);
                    assert(n[j] == o[j - 1]);
                }
            }
        }
        out.insert(p, x);
        proof {
            broadcast use vstd::seq_lib::group_to_multiset_ensures;
            broadcast use vstd::multiset::group_multiset_axioms;
            assert(before =~= rev@.push(x));
            assert(out@.to_multiset().add(rev@.to_multiset()) =~= input.to_multiset());
        }
    }
    proof {
        broadcast use vstd::seq_lib::group_to_multiset_ensures;
        broadcast use vstd::multiset::group_multiset_axioms;
        assert(rev@ =~= Seq::<FetchedMessage>::empty());
        assert(out@.to_multiset() =~= input.to_multiset());
    }
}

// ---------- topic list ----------

/// A topic as the cluster metadata describes it.
#[derive(Debug)]
pub struct TopicMeta {
    pub name: String,
    pub partitions: Vec<i32>,
    /// Replicas of the first partition (0 without partitions).
    pub replication: usize,
}

impl Ranked for TopicInfo {
    open spec fn ranks_before(a: TopicInfo, b: TopicInfo) -> bool {
        lex_lt(a.name@, b.name@)
    }

    proof fn lemma_ranks_irrefl(a: TopicInfo) {
        lemma_lex_irrefl(a.name@);
    }

    proof fn lemma_ranks_trans(a: TopicInfo, b: TopicInfo, c: TopicInfo) {
        lemma_lex_trans(a.name@, b.name@, c.name@);
    }

    proof fn lemma_ranks_split(a: TopicInfo, b: TopicInfo, c: TopicInfo) {
        lemma_lex_split(a.name@, b.name@, c.name@);
    }

    fn precedes(&self, other: &TopicInfo) -> (r: bool) {
        str_lt(self.name.as_str(), other.name.as_str())
    }
}

/// The topics with a non-empty name, in order.
pub open spec fn named_only(s: Seq<TopicMeta>) -> Seq<TopicMeta>
    decreases s.len(),
{
    if s.len() == 0 {
        s
    } else if s.last().name@.len() > 0 {
        named_only(s.drop_last()).push(s.last())
    } else {
        named_only(s.drop_last())
    }
}

/// Drops the unnamed entries the metadata may list.
pub fn named_topics(metas: Vec<TopicMeta>) -> (r: Vec<TopicMeta>)
    ensures
        r@ == named_only(metas@),
{
    let mut src = metas;
    let ghost all = src@;
    let n = src.len();
    let mut out: Vec<TopicMeta> = Vec::new();
    let mut k: usize = 0;
    while src.len() > 0
        invariant
            all.len() == n,
            k + src@.len() == all.len(),
            src@ == all.subrange(k as int, all.len() as int),
            out@ == named_only(all.subrange(0, k as int)),
        decreases src.len(),
    {
        let x = src.remove(0);
        assert(all.subrange(0, k + 1).drop_last() =~= all.subrange(0, k as int));
        assert(all[k as int] == x);
        if x.name.unicode_len() > 0 {
            out.push(x);
        }
        k = k + 1;
        assert(src@ =~= all.subrange(k as int, all.len() as int));
    }
    assert(all.subrange(0, k as int) =~= all);
    out
}

/// The named topics are exactly the topics of `s` with a non-empty name,
/// in their order (each as often as it occurs).
pub proof fn law_named_only_keeps_named(s: Seq<TopicMeta>)
    ensures
        forall|k: int| 0 <= k < named_only(s).len() ==> (#[trigger] named_only(s)[k]).name@.len() > 0,
        forall|m: TopicMeta| #[trigger] named_only(s).contains(m) <==> (s.contains(m) && m.name@.len() > 0),
        named_only(s).len() <= s.len(),
        (forall|k: int| 0 <= k < s.len() ==> (#[trigger] s[k]).name@.len() > 0) ==> named_only(s) == s,
    decreases s.len(),
{
    if s.len() > 0 {
        let d = s.drop_last();
        law_named_only_keeps_named(d);
        assert(s =~= d.push(s.last()));
        let nd = named_only(d);
        if s.last().name@.len() > 0 {
            assert(named_only(s) == nd.push(s.last()));
        } else {
            assert(named_only(s) == nd);
        }
        assert forall|k: int| 0 <= k < nd.len() implies #[trigger] named_only(s)[k] == nd[k] by {}
        assert forall|m: TopicMeta| #[trigger] named_only(s).contains(m) <==> (s.contains(m) && m.name@.len() > 0) by {
            if s.contains(m) && m.name@.len() > 0 {
                let k = choose|k: int| 0 <= k < s.len() && s[k] == m;
                if k < s.len() - 1 {
                    assert(d[k] == m);
                    assert(d.contains(m));
                    assert(nd.contains(m));
                    let q = choose|q: int| 0 <= q < nd.len() && nd[q] == m;
                    assert(named_only(s)[q] == m);
                } else {
                    assert(m == s.last());
                    assert(named_only(s)[named_only(s).len() - 1] == m);
                }
            }
            if named_only(s).contains(m) {
                let k = choose|k: int| 0 <= k < named_only(s).len() && named_only(s)[k] == m;
                if k < nd.len() {
                    assert(nd[k] == m);
                    assert(nd.contains(m));
                    assert(d.contains(m));
                    let j = choose|j: int| 0 <= j < d.len() && d[j] == m;
                    assert(s[j] == m);
                } else {
                    assert(m == s.last());
                    assert(s[s.len() - 1] == m);
                }
            }
        }
        if forall|k: int| 0 <= k < s.len() ==> (#[trigger] s[k]).name@.len() > 0 {
            assert forall|k: int| 0 <= k < d.len() implies (#[trigger] d[k]).name@.len() > 0 by {
                assert(d[k] == s[k]);
            }
            assert(s.last() == s[s.len() - 1]);
        }
    }
}

/// The topic-list row of a topic with `count` messages; names starting
/// with `_` are internal topics.
pub open spec fn topic_row(t: TopicMeta, count: u64) -> TopicInfo {
    TopicInfo {
        name: t.name,
        partitions: t.partitions@.len() as usize,
        replication: t.replication,
        message_count: count,
        internal: t.name@.len() > 0 && t.name@[0] == '_',
    }
}

/// The topic list: one row per topic, with the message count at the same
/// index (0 past the end of `counts`), sorted by name.
pub fn topic_infos(metas: Vec<TopicMeta>, counts: &[u64]) -> (r: Vec<TopicInfo>)
    ensures
        ranked_sorted(r@),
        r@.to_multiset() == Seq::new(metas@.len(), |i: int| topic_row(metas@[i], if i < counts@.len() { counts@[i] } else { 0 })).to_multiset(),
{
    let mut src = metas;
    let ghost all = src@;
    let ghost rows = Seq::new(all.len(), |i: int| topic_row(all[i], if i < counts@.len() { counts@[i] } else { 0 }));
    let n = src.len();
    let mut out: Vec<TopicInfo> = Vec::new();
    let mut k: usize = 0;
    while src.len() > 0
        invariant
            all.len() == n,
            k + src@.len() == all.len(),
            src@ == all.subrange(k as int, all.len() as int),
            out@ == rows.subrange(0, k as int),
            rows == Seq::new(all.len(), |i: int| topic_row(all[i], if i < counts@.len() { counts@[i] } else { 0 })),
        decreases src.len(),
    {
        let t = src.remove(0);
        assert(all[k as int] == t);
        let count = if k < counts.len() { counts[k] } else { 0 };
        let internal = t.name.unicode_len() > 0 && t.name.get_char(0) == '_';
        let partitions = t.partitions.len();
        out.push(TopicInfo {
            name: t.name,
            partitions,
            replication: t.replication,
            message_count: count,
            internal,
        });
        k = k + 1;
        assert(out@ =~= rows.subrange(0, k as int));
        assert(src@ =~= all.subrange(k as int, all.len() as int));
    }
    assert(rows.subrange(0, k as int) =~= rows);
    sort_ranked(out)
}

/// Messages a partition holds, from its watermarks: `high - low`, or 0
/// when the range is empty.
pub fn watermark_count(low: i64, high: i64) -> (r: u64)
    ensures
        r == if high > low { high - low } else { 0 },
{
    if high > low {
        (high as i128 - low as i128) as u64
    } else {
        0
    }
}

/// How many `(topic, partition)` jobs each watermark thread takes: the
/// jobs split over `parallelism` threads (kept within 1..=64), at least one.
pub fn watermark_chunk_size(jobs: usize, parallelism: usize) -> (r: usize)
    ensures
        r == if jobs == 0 { 1 } else { (jobs + clamp_spec(parallelism as int, 1, 64) - 1) / clamp_spec(parallelism as int, 1, 64) },
        r >= 1,
{
    let par = clamp_watermark_parallelism(parallelism);
    let q = jobs / par;
    proof {
        assert(jobs % par != 0 ==> q < jobs) by (nonlinear_arith)
            requires
                par >= 1,
                q == jobs / par,
        ;
    }
    let c = if jobs % par == 0 { q } else { q + 1 };
    proof {
        assert(jobs > 0 ==> c == (jobs + par - 1) / (par as int)) by (nonlinear_arith)
            requires
                par >= 1,
                c == jobs / par + if jobs % par == 0 { 0int } else { 1int },
        ;
        assert(jobs > 0 ==> c >= 1) by (nonlinear_arith)
            requires
                par >= 1,
                c == jobs / par + if jobs % par == 0 { 0int } else { 1int },
        ;
    }
    if c == 0 { 1 } else { c }
}

/// The `(topic index, partition)` pairs whose watermarks are read, topic by
/// topic in partition order.
pub open spec fn watermark_jobs_of(metas: Seq<TopicMeta>) -> Seq<(usize, i32)>
    decreases metas.len(),
{
    if metas.len() == 0 {
        Seq::empty()
    } else {
        watermark_jobs_of(metas.drop_last())
            + metas.last().partitions@.map_values(|p: i32| ((metas.len() - 1) as usize, p))
    }
}

/// The watermark jobs of the named topics.
pub fn watermark_jobs(metas: &[TopicMeta]) -> (r: Vec<(usize, i32)>)
    ensures
        r@ == watermark_jobs_of(metas@),
        forall|t: int| 0 <= t < metas@.len() ==> #[trigger] jobs_for_topic(r@, t) == metas@[t].partitions@,
        forall|k: int| 0 <= k < r@.len() ==> (#[trigger] r@[k]).0 < metas@.len(),
{
    let mut out: Vec<(usize, i32)> = Vec::new();
    let mut i: usize = 0;
    while i < metas.len()
        invariant
            i <= metas@.len(),
            out@ == watermark_jobs_of(metas@.subrange(0, i as int)),
        decreases metas.len() - i,
    {
        let ghost pre = out@;
        let ps = &metas[i].partitions;
        let mut j: usize = 0;
        while j < ps.len()
            invariant
                i < metas@.len(),
                ps@ == metas@[i as int].partitions@,
                j <= ps@.len(),
                out@ == pre + ps@.subrange(0, j as int).map_values(|p: i32| (i, p)),
            decreases ps.len() - j,
        {
            out.push((i, ps[j]));
            j = j + 1;
            assert(out@ =~= pre + ps@.subrange(0, j as int).map_values(|p: i32| (i, p)));
        }
        assert(metas@.subrange(0, i + 1).drop_last() =~= metas@.subrange(0, i as int));
        assert(ps@.subrange(0, j as int) =~= ps@);
        i = i + 1;
        assert(out@ =~= watermark_jobs_of(metas@.subrange(0, i as int)));
    }
    assert(metas@.subrange(0, i as int) =~= metas@);
    proof {
        law_watermark_jobs_cover_each_topic(metas@);
    }
    out
}

/// The partitions the jobs `jobs` read for topic `t`, in job order.
pub open spec fn jobs_for_topic(jobs: Seq<(usize, i32)>, t: int) -> Seq<i32>
    decreases jobs.len(),
{
    if jobs.len() == 0 {
        Seq::empty()
    } else {
        jobs_for_topic(jobs.drop_last(), t) + if jobs.last().0 == t { seq![jobs.last().1] } else { Seq::empty() }
    }
}

proof fn lemma_jobs_for_topic_concat(a: Seq<(usize, i32)>, b: Seq<(usize, i32)>, t: int)
    ensures
        jobs_for_topic(a + b, t) == jobs_for_topic(a, t) + jobs_for_topic(b, t),
    decreases b.len(),
{
    if b.len() == 0 {
        assert(a + b =~= a);
        assert(jobs_for_topic(a, t) + jobs_for_topic(b, t) =~= jobs_for_topic(a, t));
    } else {
        assert((a + b).drop_last() =~= a + b.drop_last());
        lemma_jobs_for_topic_concat(a, b.drop_last(), t);
        assert(jobs_for_topic(a + b, t) =~= jobs_for_topic(a, t) + jobs_for_topic(b, t));
    }
}

proof fn lemma_jobs_for_one_topic(ps: Seq<i32>, i: usize, t: int)
    ensures
        jobs_for_topic(ps.map_values(|p: i32| (i, p)), t) == if t == i { ps } else { Seq::<i32>::empty() },
    decreases ps.len(),
{
    let m = ps.map_values(|p: i32| (i, p));
    if ps.len() == 0 {
        assert(m =~= Seq::<(usize, i32)>::empty());
        assert(ps =~= Seq::<i32>::empty());
    } else {
        assert(m.drop_last() =~= ps.drop_last().map_values(|p: i32| (i, p)));
        lemma_jobs_for_one_topic(ps.drop_last(), i, t);
        if t == i {
            assert(ps =~= ps.drop_last().push(ps.last()));
        }
        assert(jobs_for_topic(m, t) =~= if t == i { ps } else { Seq::<i32>::empty() });
    }
}

/// Which partition reads the topic list asks for: every job names a topic of
/// `metas`, the jobs go topic by topic, and the jobs of topic `t` are its
/// partitions, each once, in order.
pub proof fn law_watermark_jobs_cover_each_topic(metas: Seq<TopicMeta>)
    requires
        metas.len() <= usize::MAX,
    ensures
        forall|k: int| 0 <= k < watermark_jobs_of(metas).len() ==> (#[trigger] watermark_jobs_of(metas)[k]).0 < metas.len(),
        forall|k1: int, k2: int| 0 <= k1 < k2 < watermark_jobs_of(metas).len()
            ==> (#[trigger] watermark_jobs_of(metas)[k1]).0 <= (#[trigger] watermark_jobs_of(metas)[k2]).0,
        forall|t: int| 0 <= t < metas.len() ==> #[trigger] jobs_for_topic(watermark_jobs_of(metas), t) == metas[t].partitions@,
    decreases metas.len(),
{
    if metas.len() > 0 {
        let d = metas.drop_last();
        let n = (metas.len() - 1) as usize;
        let tail = metas.last().partitions@.map_values(|p: i32| (n, p));
        let w = watermark_jobs_of(d);
        law_watermark_jobs_cover_each_topic(d);
        assert(watermark_jobs_of(metas) == w + tail);
        assert forall|k: int| 0 <= k < watermark_jobs_of(metas).len() implies (#[trigger] watermark_jobs_of(metas)[k]).0 < metas.len() by {
            if k >= w.len() {
                assert(watermark_jobs_of(metas)[k] == tail[k - w.len()]);
            } else {
                assert(watermark_jobs_of(metas)[k] == w[k]);
            }
        }
        assert forall|k1: int, k2: int| 0 <= k1 < k2 < watermark_jobs_of(metas).len()
            implies (#[trigger] watermark_jobs_of(metas)[k1]).0 <= (#[trigger] watermark_jobs_of(metas)[k2]).0 by {
            if k2 >= w.len() {
                assert(watermark_jobs_of(metas)[k2] == tail[k2 - w.len()]);
                if k1 >= w.len() {
                    assert(watermark_jobs_of(metas)[k1] == tail[k1 - w.len()]);
                } else {
                    assert(watermark_jobs_of(metas)[k1] == w[k1]);
                }
            } else {
                assert(watermark_jobs_of(metas)[k1] == w[k1]);
                assert(watermark_jobs_of(metas)[k2] == w[k2]);
            }
        }
        assert forall|t: int| 0 <= t < metas.len() implies #[trigger] jobs_for_topic(watermark_jobs_of(metas), t) == metas[t].partitions@ by {
            lemma_jobs_for_topic_concat(w, tail, t);
            lemma_jobs_for_one_topic(metas.last().partitions@, n, t);
            if t < metas.len() - 1 {
                assert(d[t] == metas[t]);
                assert(jobs_for_topic(watermark_jobs_of(d), t) == d[t].partitions@);
                assert(jobs_for_topic(watermark_jobs_of(metas), t) =~= metas[t].partitions@);
            } else {
                lemma_no_jobs_past_end(w, d.len() as int);
                assert(jobs_for_topic(watermark_jobs_of(metas), t) =~= metas[t].partitions@);
            }
        }
    }
}

proof fn lemma_no_jobs_past_end(jobs: Seq<(usize, i32)>, t: int)
    requires
        forall|k: int| 0 <= k < jobs.len() ==> (#[trigger] jobs[k]).0 < t,
    ensures
        jobs_for_topic(jobs, t) == Seq::<i32>::empty(),
    decreases jobs.len(),
{
    if jobs.len() > 0 {
        assert(jobs.last() == jobs[jobs.len() - 1]);
        lemma_no_jobs_past_end(jobs.drop_last(), t);
        assert(jobs_for_topic(jobs, t) =~= Seq::<i32>::empty());
    }
}

/// Adds a partition's message count to its topic's total (wrapping, as an
/// atomic counter does).
pub fn add_topic_count(counts: &mut Vec<u64>, topic: usize, n: u64)
    requires
        topic < old(counts)@.len(),
    ensures
        final(counts)@ == old(counts)@.update(topic as int, (if old(counts)@[topic as int] + n <= u64::MAX { old(counts)@[topic as int] + n } else { old(counts)@[topic as int] + n - 0x1_0000_0000_0000_0000 }) as u64),
{
    let v = counts[topic].wrapping_add(n);
    counts.set(topic, v);
}

/// The messages counted for topic `topic` over the watermark `results`
/// (topic index, messages of one partition), before wrapping.
pub open spec fn count_sum(results: Seq<(usize, u64)>, topic: int) -> nat
    decreases results.len(),
{
    if results.len() == 0 {
        0
    } else {
        count_sum(results.drop_last(), topic) + if results.last().0 == topic { results.last().1 as nat } else { 0nat }
    }
}

/// Each topic's message count: the sum of its partitions' counts among
/// `results` (topic index, messages of one partition), wrapping as an
/// atomic counter does; a result for no topic of the `n_topics` counts
/// nowhere.
pub fn topic_counts(n_topics: usize, results: &[(usize, u64)]) -> (r: Vec<u64>)
    ensures
        r@.len() == n_topics,
        forall|i: int| 0 <= i < n_topics ==> #[trigger] r@[i] == count_sum(results@, i) % 0x1_0000_0000_0000_0000,
{
    let mut counts: Vec<u64> = Vec::new();
    let mut k: usize = 0;
    while k < n_topics
        invariant
            k <= n_topics,
            counts@.len() == k,
            forall|i: int| 0 <= i < k ==> #[trigger] counts@[i] == 0,
        decreases n_topics - k,
    {
        counts.push(0);
        k = k + 1;
    }
    let mut j: usize = 0;
    while j < results.len()
        invariant
            j <= results@.len(),
            counts@.len() == n_topics,
            forall|i: int| 0 <= i < n_topics ==> #[trigger] counts@[i] == count_sum(results@.subrange(0, j as int), i) % 0x1_0000_0000_0000_0000,
        decreases results.len() - j,
    {
        let ghost pre = results@.subrange(0, j as int);
        let ghost nxt = results@.subrange(0, j + 1);
        assert(nxt.drop_last() =~= pre);
        let (t, n) = results[j];
        let ghost before = counts@;
        if t < n_topics {
            add_topic_count(&mut counts, t, n);
        }
        proof {
            assert forall|i: int| 0 <= i < n_topics implies #[trigger] counts@[i] == count_sum(nxt, i) % 0x1_0000_0000_0000_0000 by {
                if i == t {
                    let a = count_sum(pre, i) as int;
                    let c = before[i] as int;
                    assert(count_sum(nxt, i) == a + n);
                    vstd::arithmetic::div_mod::lemma_add_mod_noop(a, n as int, 0x1_0000_0000_0000_0000);
                    vstd::arithmetic::div_mod::lemma_small_mod(n as nat, 0x1_0000_0000_0000_0000);
                    if c + n <= u64::MAX {
                        vstd::arithmetic::div_mod::lemma_small_mod((c + n) as nat, 0x1_0000_0000_0000_0000);
                    } else {
                        let b = c + n - 0x1_0000_0000_0000_0000;
                        vstd::arithmetic::div_mod::lemma_mod_add_multiples_vanish(b, 0x1_0000_0000_0000_0000);
                        vstd::arithmetic::div_mod::lemma_small_mod(b as nat, 0x1_0000_0000_0000_0000);
                    }
                } else {
                    assert(counts@[i] == before[i]);
                }
            }
        }
        j = j + 1;
    }
    assert(results@.subrange(0, j as int) =~= results@);
    counts
}

// ---------- reading messages ----------

/// Partition ids kept by an optional selection, in order.
pub open spec fn selected_partitions(ids: Seq<i32>, sel: Option<i32>) -> Seq<i32>
    decreases ids.len(),
{
    if ids.len() == 0 {
        ids
    } else {
        let rest = selected_partitions(ids.drop_last(), sel);
        match sel {
            Some(p) => if ids.last() == p { rest.push(ids.last()) } else { rest },
            None => rest.push(ids.last()),
        }
    }
}

/// The partitions a read selects: all of them in order when none is
/// chosen, else each occurrence of the chosen one and nothing else.
pub proof fn law_selected_partitions(ids: Seq<i32>, sel: Option<i32>)
    ensures
        sel is None ==> selected_partitions(ids, sel) == ids,
        sel matches Some(q) ==> (forall|k: int| 0 <= k < selected_partitions(ids, sel).len()
            ==> #[trigger] selected_partitions(ids, sel)[k] == q),
        sel matches Some(q) ==> selected_partitions(ids, sel).len() == ids.to_multiset().count(q),
    decreases ids.len(),
{
    broadcast use vstd::seq_lib::group_to_multiset_ensures;
    broadcast use vstd::multiset::group_multiset_axioms;
    if ids.len() == 0 {
        assert(ids.to_multiset() =~= Multiset::empty());
    } else {
        let d = ids.drop_last();
        law_selected_partitions(d, sel);
        assert(ids =~= d.push(ids.last()));
        let r = selected_partitions(ids, sel);
        let rd = selected_partitions(d, sel);
        if let Some(q) = sel {
            assert forall|k: int| 0 <= k < r.len() implies #[trigger] r[k] == q by {
                if k < rd.len() {
                    assert(r[k] == rd[k]);
                }
            }
        }
    }
}

/// The partitions to read: all of them, or the selected one.
pub fn select_partitions(ids: &[i32], partition: Option<i32>) -> (r: Vec<i32>)
    ensures
        r@ == selected_partitions(ids@, partition),
{
    let mut out: Vec<i32> = Vec::new();
    let mut i: usize = 0;
    while i < ids.len()
        invariant
            i <= ids@.len(),
            out@ == selected_partitions(ids@.subrange(0, i as int), partition),
        decreases ids.len() - i,
    {
        assert(ids@.subrange(0, i + 1).drop_last() =~= ids@.subrange(0, i as int));
        let keep = match partition {
            Some(p) => ids[i] == p,
            None => true,
        };
        if keep {
            out.push(ids[i]);
        }
        i = i + 1;
    }
    assert(ids@.subrange(0, i as int) =~= ids@);
    out
}

/// Messages read per partition: the limit shared evenly, at least one.
pub fn per_partition_budget(limit: usize, partitions: usize) -> (r: usize)
    requires
        partitions > 0,
    ensures
        r == if limit / partitions == 0 { 1 } else { limit / partitions },
{
    let q = limit / partitions;
    if q == 0 { 1 } else { q }
}

/// Reader threads for `partitions` partitions (at most 8), and how many
/// partitions each takes.
pub fn fetch_workers(partitions: usize) -> (r: (usize, usize))
    requires
        partitions > 0,
    ensures
        r.0 == if partitions < 8 { partitions } else { 8 },
        r.1 == (partitions + r.0 - 1) / (r.0 as int),
        r.1 >= 1,
        r.0 * r.1 >= partitions,
{
    let workers: usize = if partitions < 8 { partitions } else { 8 };
    let q = partitions / workers;
    proof {
        assert(partitions % workers != 0 ==> q < partitions) by (nonlinear_arith)
            requires
                workers >= 1,
                q == partitions / workers,
        ;
    }
    let chunk = if partitions % workers == 0 { q } else { q + 1 };
    proof {
        assert(chunk == (partitions + workers - 1) / (workers as int) && chunk >= 1 && workers * chunk >= partitions)
            by (nonlinear_arith)
            requires
                workers >= 1,
                partitions >= 1,
                q == partitions / workers,
                chunk == if partitions % workers == 0 { q as int } else { q + 1 },
        ;
    }
    (workers, chunk)
}

/// Where reading a partition starts and how many messages it takes, from
/// its watermarks `[low, high)`: the newest `per_partition` messages when
/// reading from the end, else the oldest; nothing when it is empty.
pub open spec fn read_range(low: i64, high: i64, per_partition: usize, from_end: bool) -> Option<(i64, usize)> {
    if high <= low {
        None
    } else {
        let want = if (per_partition as int) < high - low { per_partition as int } else { high - low };
        if want == 0 {
            None
        } else {
            Some((if from_end { (if high - want > low { high - want } else { low as int }) as i64 } else { low }, want as usize))
        }
    }
}

/// The read range of one partition (see `read_range`).
pub fn partition_read_range(low: i64, high: i64, per_partition: usize, from_end: bool) -> (r: Option<(i64, usize)>)
    ensures
        r == read_range(low, high, per_partition, from_end),
        r matches Some((start, want)) ==> low <= start && start + want <= high
            && (from_end ==> start + want == high) && (!from_end ==> start == low),
{
    proof {
        law_read_range_takes_head_or_tail(low, high, per_partition, from_end);
    }
    if high <= low {
        return None;
    }
    let avail: i128 = high as i128 - low as i128;
    let want: usize = if (per_partition as i128) < avail { per_partition } else { avail as usize };
    if want == 0 {
        return None;
    }
    let start: i64 = if from_end {
        let s: i128 = high as i128 - want as i128;
        if s > low as i128 { s as i64 } else { low }
    } else {
        low
    };
    Some((start, want))
}

/// What a partition read takes: nothing from an empty partition or with no
/// budget; otherwise `want` messages, as many as the budget allows and the
/// partition holds, lying inside `[low, high)`. Read from the end they are
/// the newest, ending at the high watermark; otherwise they start at the
/// low watermark.
pub proof fn law_read_range_takes_head_or_tail(low: i64, high: i64, per_partition: usize, from_end: bool)
    ensures
        (high <= low || per_partition == 0) <==> read_range(low, high, per_partition, from_end) is None,
        high > low && per_partition > 0 ==> (read_range(low, high, per_partition, from_end) matches Some((start, want))
            && want <= per_partition
            && want <= high - low
            && (want == per_partition || want == high - low)
            && low <= start
            && start + want <= high
            && (from_end ==> start + want == high)
            && (!from_end ==> start == low)),
{
}

/// A message belongs to the read range when its offset lies in
/// `[low, high)`; one outside it ends the read.
pub fn in_watermarks(offset: i64, low: i64, high: i64) -> (r: bool)
    ensures
        r == (low <= offset && offset < high),
{
    low <= offset && offset < high
}

/// The messages of a read, ordered for display and cut to `limit`.
pub fn finish_fetch(out: &mut Vec<FetchedMessage>, single_partition: bool, sort_by_time: bool, limit: usize)
    ensures
        msgs_sorted(final(out)@, single_partition, sort_by_time),
        final(out)@.len() == if old(out)@.len() < limit { old(out)@.len() } else { limit as nat },
        exists|all: Seq<FetchedMessage>| #![trigger all.to_multiset()]
            all.to_multiset() == old(out)@.to_multiset()
            && msgs_sorted(all, single_partition, sort_by_time)
            && (exists|perm: Seq<int>| stable_arrangement(old(out)@, all, perm, single_partition, sort_by_time))
            && final(out)@ == all.subrange(0, final(out)@.len() as int),
{
    sort_fetched(out, single_partition, sort_by_time);
    let ghost all = out@;
    proof {
        vstd::seq_lib::to_multiset_len(all);
        vstd::seq_lib::to_multiset_len(old(out)@);
    }
    out.truncate(limit);
    assert(out@ =~= all.subrange(0, out@.len() as int));
    assert forall|i: int, j: int| 0 <= i < j < out@.len() implies !msg_before(#[trigger] out@[j], #[trigger] out@[i], single_partition, sort_by_time) by {
        assert(out@[i] == all[i] && out@[j] == all[j]);
    }
}

/// The answers of a message read, one per selected partition, gathered as
/// they come: `done` of `total` partitions have answered so far.
#[derive(Debug)]
pub struct FetchCollector {
    pub total: usize,
    pub done: usize,
    pub out: Vec<FetchedMessage>,
}

impl FetchCollector {
    /// Waiting for `total` partitions.
    pub fn new(total: usize) -> (r: FetchCollector)
        ensures
            r.total == total,
            r.done == 0,
            r.out@.len() == 0,
    {
        FetchCollector { total, done: 0, out: Vec::new() }
    }

    /// Whether every partition has answered (at once when none was
    /// selected).
    pub fn complete(&self) -> (r: bool)
        ensures
            r == (self.done >= self.total),
    {
        self.done >= self.total
    }

    /// One partition's answer: the progress to report, `(partitions done,
    /// of all)`, is given back; its messages join the others, or its error
    /// ends the read.
    pub fn take(&mut self, part: Result<Vec<FetchedMessage>, String>) -> (r: ((usize, usize), Result<(), String>))
        requires
            old(self).done < old(self).total,
        ensures
            r.0 == ((old(self).done + 1) as usize, old(self).total),
            final(self).done == old(self).done + 1,
            final(self).total == old(self).total,
            match part {
                Ok(v) => r.1 is Ok && final(self).out@ == old(self).out@ + v@,
                Err(e) => r.1 == Err::<(), String>(e) && final(self).out == old(self).out,
            },
    {
        self.done = self.done + 1;
        let report = (self.done, self.total);
        match part {
            Ok(v) => {
                let mut v = v;
                let ghost before = self.out@;
                let ghost added = v@;
                self.out.append(&mut v);
                assert(self.out@ == before + added);
                (report, Ok(()))
            },
            Err(e) => (report, Err(e)),
        }
    }

    /// The read's result: the gathered messages in display order, cut to
    /// `limit` (see `finish_fetch`).
    pub fn finish(self, single_partition: bool, sort_by_time: bool, limit: usize) -> (r: Vec<FetchedMessage>)
        ensures
            msgs_sorted(r@, single_partition, sort_by_time),
            r@.len() == if self.out@.len() < limit { self.out@.len() } else { limit as nat },
            exists|all: Seq<FetchedMessage>| #![trigger all.to_multiset()]
                all.to_multiset() == self.out@.to_multiset()
                && msgs_sorted(all, single_partition, sort_by_time)
                && (exists|perm: Seq<int>| stable_arrangement(self.out@, all, perm, single_partition, sort_by_time))
                && r@ == all.subrange(0, r@.len() as int),
    {
        let mut out = self.out;
        finish_fetch(&mut out, single_partition, sort_by_time, limit);
        out
    }
}

// ---------- live follow ----------

/// New messages one live tick may take: at most the request, at most
/// `LIVE_MAX_PER_POLL`.
pub fn live_cap(max_messages: usize) -> (r: usize)
    ensures
        r == if max_messages < LIVE_MAX_PER_POLL { max_messages } else { LIVE_MAX_PER_POLL },
{
    if max_messages < LIVE_MAX_PER_POLL { max_messages } else { LIVE_MAX_PER_POLL }
}

/// The next offset to read of a partition, if it is followed.
pub open spec fn next_offset_of(after: Seq<(i32, i64)>, p: i32) -> Option<i64>
    decreases after.len(),
{
    if after.len() == 0 {
        None
    } else if after.last().0 == p {
        Some(after.last().1)
    } else {
        next_offset_of(after.drop_last(), p)
    }
}

/// The next offset of partition `p` is the one of its last entry in
/// `after`: there is none exactly when no entry names `p`.
pub proof fn law_next_offset_is_last_entry(after: Seq<(i32, i64)>, p: i32)
    ensures
        next_offset_of(after, p) is None <==> (forall|k: int| 0 <= k < after.len() ==> (#[trigger] after[k]).0 != p),
        next_offset_of(after, p) is Some ==> exists|k: int| 0 <= k < after.len() && #[trigger] after[k] == (p, next_offset_of(after, p)->0)
            && forall|j: int| k < j < after.len() ==> (#[trigger] after[j]).0 != p,
    decreases after.len(),
{
    if after.len() > 0 {
        let d = after.drop_last();
        law_next_offset_is_last_entry(d, p);
        let n = after.len() - 1;
        if after.last().0 == p {
            assert(after[n] == (p, after.last().1));
            assert(after[n].0 == p);
        } else {
            assert forall|k: int| 0 <= k < d.len() implies #[trigger] d[k] == after[k] by {}
            if let Some(o) = next_offset_of(d, p) {
                let k = choose|k: int| 0 <= k < d.len() && #[trigger] d[k] == (p, o)
                    && forall|j: int| k < j < d.len() ==> (#[trigger] d[j]).0 != p;
                assert(after[k] == (p, o));
                assert forall|j: int| k < j < after.len() implies (#[trigger] after[j]).0 != p by {
                    if j < n {
                        assert(d[j] == after[j]);
                    }
                }
            } else {
                assert forall|k: int| 0 <= k < after.len() implies (#[trigger] after[k]).0 != p by {
                    if k < n {
                        assert(d[k] == after[k]);
                    }
                }
            }
        }
    }
}

/// The next offset to read of partition `p` (the last entry for it).
pub fn next_offset(after: &[(i32, i64)], p: i32) -> (r: Option<i64>)
    ensures
        r == next_offset_of(after@, p),
{
    let mut i: usize = after.len();
    assert(after@.subrange(0, i as int) =~= after@);
    while i > 0
        invariant
            i <= after@.len(),
            next_offset_of(after@, p) == next_offset_of(after@.subrange(0, i as int), p),
        decreases i,
    {
        assert(after@.subrange(0, i as int).drop_last() =~= after@.subrange(0, i - 1));
        if after[i - 1].0 == p {
            return Some(after[i - 1].1);
        }
        i = i - 1;
    }
    None
}

/// Partitions a live tick reads: the selected ones that are followed.
pub open spec fn live_partitions_of(ids: Seq<i32>, sel: Option<i32>, after: Seq<(i32, i64)>) -> Seq<i32>
    decreases ids.len(),
{
    if ids.len() == 0 {
        ids
    } else {
        let rest = live_partitions_of(ids.drop_last(), sel, after);
        let p = ids.last();
        if (sel is None || sel == Some(p)) && next_offset_of(after, p) is Some {
            rest.push(p)
        } else {
            rest
        }
    }
}

/// A live tick reads, in order, the partitions of the topic that are
/// selected (all, or the chosen one) and have a next offset in `after`.
pub proof fn law_live_partitions_are_followed(ids: Seq<i32>, sel: Option<i32>, after: Seq<(i32, i64)>)
    ensures
        forall|p: i32| #[trigger] live_partitions_of(ids, sel, after).contains(p) <==> (ids.contains(p)
            && (sel is None || sel == Some(p))
            && exists|k: int| 0 <= k < after.len() && (#[trigger] after[k]).0 == p),
        live_partitions_of(ids, sel, after).len() <= ids.len(),
    decreases ids.len(),
{
    if ids.len() > 0 {
        let d = ids.drop_last();
        law_live_partitions_are_followed(d, sel, after);
        assert(ids =~= d.push(ids.last()));
        let r = live_partitions_of(ids, sel, after);
        let rd = live_partitions_of(d, sel, after);
        assert forall|p: i32| #[trigger] r.contains(p) <==> (ids.contains(p)
            && (sel is None || sel == Some(p))
            && exists|k: int| 0 <= k < after.len() && (#[trigger] after[k]).0 == p) by {
            law_next_offset_is_last_entry(after, p);
            if r.contains(p) {
                let k = choose|k: int| 0 <= k < r.len() && r[k] == p;
                if k < rd.len() {
                    assert(rd[k] == p);
                    assert(rd.contains(p));
                    let j = choose|j: int| 0 <= j < d.len() && d[j] == p;
                    assert(ids[j] == p);
                } else {
                    assert(p == ids.last());
                    assert(ids[ids.len() - 1] == p);
                }
            }
            if ids.contains(p) && (sel is None || sel == Some(p)) && exists|k: int| 0 <= k < after.len() && (#[trigger] after[k]).0 == p {
                let j = choose|j: int| 0 <= j < ids.len() && ids[j] == p;
                if j < ids.len() - 1 {
                    assert(d[j] == p);
                    assert(d.contains(p));
                    assert(rd.contains(p));
                    let q = choose|q: int| 0 <= q < rd.len() && rd[q] == p;
                    assert(r[q] == p);
                } else {
                    assert(r[r.len() - 1] == p);
                }
            }
        }
    }
}

/// The partitions a live tick reads (see `live_partitions_of`).
pub fn live_partitions(ids: &[i32], partition: Option<i32>, after: &[(i32, i64)]) -> (r: Vec<i32>)
    ensures
        r@ == live_partitions_of(ids@, partition, after@),
{
    let mut out: Vec<i32> = Vec::new();
    let mut i: usize = 0;
    while i < ids.len()
        invariant
            i <= ids@.len(),
            out@ == live_partitions_of(ids@.subrange(0, i as int), partition, after@),
        decreases ids.len() - i,
    {
        assert(ids@.subrange(0, i + 1).drop_last() =~= ids@.subrange(0, i as int));
        let p = ids[i];
        let selected = match partition {
            Some(s) => s == p,
            None => true,
        };
        if selected && next_offset(after, p).is_some() {
            out.push(p);
        }
        i = i + 1;
    }
    assert(ids@.subrange(0, i as int) =~= ids@);
    out
}

/// New messages a live tick takes from one partition: nothing when the
/// partition has nothing past `start`, else at most its share, what it
/// has, and what the tick has left.
pub fn live_want(start: i64, high: i64, per_part: usize, cap: usize, taken: usize) -> (r: usize)
    requires
        taken <= cap,
    ensures
        r == if start >= high { 0 } else {
            let avail = high - start;
            let m = if (per_part as int) < avail { per_part as int } else { avail };
            if m < cap - taken { m } else { cap - taken }
        },
{
    if start >= high {
        return 0;
    }
    let avail: i128 = high as i128 - start as i128;
    let m: i128 = if (per_part as i128) < avail { per_part as i128 } else { avail };
    let left = cap - taken;
    if m < left as i128 { m as usize } else { left }
}

/// A live message may be kept: it is in the partition read (when one is
/// selected), at or after the partition's next offset to read, and below
/// the high watermark `high` read for it.
pub open spec fn live_message_ok(m: FetchedMessage, high: i64, partition: Option<i32>, after: Seq<(i32, i64)>) -> bool {
    &&& (partition matches Some(p) ==> m.partition == p)
    &&& next_offset_of(after, m.partition) matches Some(start) && start <= m.offset
    &&& m.offset < high
}

/// The messages one live tick gathers: at most `cap` of them, each kept
/// with the high watermark it was checked against.
#[derive(Debug)]
pub struct LiveBatch {
    pub cap: usize,
    pub partition: Option<i32>,
    pub after: Vec<(i32, i64)>,
    pub out: Vec<FetchedMessage>,
    pub highs: Vec<i64>,
}

impl LiveBatch {
    /// Every message kept so far may be kept, and there are at most `cap`.
    pub open spec fn wf(&self) -> bool {
        &&& self.out@.len() == self.highs@.len()
        &&& self.out@.len() <= self.cap
        &&& forall|i: int| 0 <= i < self.out@.len()
            ==> live_message_ok(#[trigger] self.out@[i], self.highs@[i], self.partition, self.after@)
    }

    /// A tick asking for `max_messages` (capped at `LIVE_MAX_PER_POLL`) of
    /// the selected partition, or of all, after the offsets `after`.
    pub fn new(max_messages: usize, partition: Option<i32>, after: Vec<(i32, i64)>) -> (r: LiveBatch)
        ensures
            r.wf(),
            r.cap == (if max_messages < LIVE_MAX_PER_POLL { max_messages } else { LIVE_MAX_PER_POLL }),
            r.partition == partition,
            r.after == after,
            r.out@.len() == 0,
    {
        LiveBatch { cap: live_cap(max_messages), partition, after, out: Vec::new(), highs: Vec::new() }
    }

    /// The tick reads nothing: no message is wanted, or no partition is
    /// followed. No message can then be kept.
    pub fn wants_nothing(&self) -> (r: bool)
        requires
            self.wf(),
        ensures
            r == (self.cap == 0 || self.after@.len() == 0),
            r ==> self.out@.len() == 0,
    {
        if self.out.len() > 0 {
            assert(live_message_ok(self.out@[0], self.highs@[0], self.partition, self.after@));
        }
        self.cap == 0 || self.after.len() == 0
    }

    /// Offers a polled message `m`, with the high watermark of its
    /// partition: it is kept when there is room and it may be kept;
    /// otherwise nothing changes (and the partition's read ends).
    pub fn offer(&mut self, m: FetchedMessage, high: i64) -> (kept: bool)
        requires
            old(self).wf(),
        ensures
            final(self).wf(),
            kept == (old(self).out@.len() < old(self).cap && live_message_ok(m, high, old(self).partition, old(self).after@)),
            kept ==> final(self).out@ == old(self).out@.push(m) && final(self).highs@ == old(self).highs@.push(high)
                && final(self).cap == old(self).cap && final(self).partition == old(self).partition
                && final(self).after == old(self).after,
            !kept ==> *final(self) == *old(self),
    {
        if self.out.len() >= self.cap {
            return false;
        }
        if let Some(p) = self.partition {
            if m.partition != p {
                return false;
            }
        }
        let start = match next_offset(self.after.as_slice(), m.partition) {
            Some(s) => s,
            None => {
                return false;
            },
        };
        if !(start <= m.offset && m.offset < high) {
            return false;
        }
        let ghost before = self.out@;
        let ghost hb = self.highs@;
        self.out.push(m);
        self.highs.push(high);
        assert forall|i: int| 0 <= i < self.out@.len()
            implies live_message_ok(#[trigger] self.out@[i], self.highs@[i], self.partition, self.after@) by {
            if i < before.len() {
                assert(self.out@[i] == before[i] && self.highs@[i] == hb[i]);
            }
        }
        true
    }

    /// The tick's messages in display order: each a kept one, at most `cap`.
    pub fn finish(self, single_partition: bool, sort_by_time: bool) -> (r: Vec<FetchedMessage>)
        requires
            self.wf(),
        ensures
            r@.len() <= self.cap,
            r@.to_multiset() == self.out@.to_multiset(),
            msgs_sorted(r@, single_partition, sort_by_time),
            exists|perm: Seq<int>| stable_arrangement(self.out@, r@, perm, single_partition, sort_by_time),
            forall|j: int| 0 <= j < r@.len() ==> self.out@.contains(#[trigger] r@[j]),
    {
        let ghost kept = self.out@;
        let mut out = self.out;
        sort_fetched(&mut out, single_partition, sort_by_time);
        proof {
            broadcast use vstd::seq_lib::group_to_multiset_ensures;
            vstd::seq_lib::to_multiset_len(out@);
            vstd::seq_lib::to_multiset_len(kept);
            assert forall|j: int| 0 <= j < out@.len() implies kept.contains(#[trigger] out@[j]) by {
                assert(out@.contains(out@[j]));
                assert(out@.to_multiset().count(out@[j]) > 0);
                assert(kept.to_multiset().count(out@[j]) > 0);
            }
        }
        out
    }
}

// ---------- consumer groups ----------

impl Ranked for ConsumerGroupInfo {
    open spec fn ranks_before(a: ConsumerGroupInfo, b: ConsumerGroupInfo) -> bool {
        lex_lt(a.id@, b.id@)
    }

    proof fn lemma_ranks_irrefl(a: ConsumerGroupInfo) {
        lemma_lex_irrefl(a.id@);
    }

    proof fn lemma_ranks_trans(a: ConsumerGroupInfo, b: ConsumerGroupInfo, c: ConsumerGroupInfo) {
        lemma_lex_trans(a.id@, b.id@, c.id@);
    }

    proof fn lemma_ranks_split(a: ConsumerGroupInfo, b: ConsumerGroupInfo, c: ConsumerGroupInfo) {
        lemma_lex_split(a.id@, b.id@, c.id@);
    }

    fn precedes(&self, other: &ConsumerGroupInfo) -> (r: bool) {
        str_lt(self.id.as_str(), other.id.as_str())
    }
}

/// Consumer groups sorted by id.
pub fn sort_groups(groups: Vec<ConsumerGroupInfo>) -> (r: Vec<ConsumerGroupInfo>)
    ensures
        ranked_sorted(r@),
        r@.to_multiset() == groups@.to_multiset(),
{
    sort_ranked(groups)
}

impl Ranked for GroupOffset {
    open spec fn ranks_before(a: GroupOffset, b: GroupOffset) -> bool {
        lex_lt(a.topic@, b.topic@) || (a.topic@ == b.topic@ && a.partition < b.partition)
    }

    proof fn lemma_ranks_irrefl(a: GroupOffset) {
        lemma_lex_irrefl(a.topic@);
    }

    proof fn lemma_ranks_trans(a: GroupOffset, b: GroupOffset, c: GroupOffset) {
        if lex_lt(a.topic@, b.topic@) && lex_lt(b.topic@, c.topic@) {
            lemma_lex_trans(a.topic@, b.topic@, c.topic@);
        }
    }

    proof fn lemma_ranks_split(a: GroupOffset, b: GroupOffset, c: GroupOffset) {
        if lex_lt(a.topic@, b.topic@) {
            lemma_lex_split(a.topic@, b.topic@, c.topic@);
        } else {
            lemma_lex_total(a.topic@, c.topic@);
        }
    }

    fn precedes(&self, other: &GroupOffset) -> (r: bool) {
        str_lt(self.topic.as_str(), other.topic.as_str())
            || (str_eq(self.topic.as_str(), other.topic.as_str()) && self.partition < other.partition)
    }
}

/// A group's committed offset on a partition with its log end offset; the
/// lag is how far the log end is ahead of the commit, never negative.
pub fn group_offset_row(topic: String, partition: i32, committed: i64, log_end: i64) -> (r: GroupOffset)
    requires
        i64::MIN <= log_end - committed <= i64::MAX,
    ensures
        r.topic == topic,
        r.partition == partition,
        r.current_offset == Some(committed),
        r.log_end_offset == log_end,
        r.lag == if log_end > committed { log_end - committed } else { 0 },
{
    let d = log_end - committed;
    GroupOffset {
        topic,
        partition,
        current_offset: Some(committed),
        log_end_offset: log_end,
        lag: if d > 0 { d } else { 0 },
    }
}

/// Offsets sorted by topic, then partition.
pub fn sort_group_offsets(rows: Vec<GroupOffset>) -> (r: Vec<GroupOffset>)
    ensures
        ranked_sorted(r@),
        r@.to_multiset() == rows@.to_multiset(),
{
    sort_ranked(rows)
}

/// Why a reset cannot start, if it cannot: the group must be `Empty` or
/// `Dead`, and it must have committed offsets.
pub fn reset_precheck(group: &str, info: &ConsumerGroupInfo, committed: usize) -> (r: Result<(), String>)
    ensures
        !(info.state@ == "Empty"@ || info.state@ == "Dead"@) ==> (r matches Err(e)
            && e@ == "group '"@ + group@ + "' is in state '"@ + info.state@ + "'; stop all consumers (group must be Empty or Dead)"@),
        (info.state@ == "Empty"@ || info.state@ == "Dead"@) && committed == 0 ==> (r matches Err(e)
            && e@ == "group '"@ + group@ + "' has no committed offsets to reset"@),
        (info.state@ == "Empty"@ || info.state@ == "Dead"@) && committed > 0 ==> r is Ok,
{
    if !info.is_empty_or_dead() {
        let mut e = String::from_str("group '");
        e.append(group);
        e.append("' is in state '");
        e.append(info.state.as_str());
        e.append("'; stop all consumers (group must be Empty or Dead)");
        return Err(e);
    }
    if committed == 0 {
        let mut e = String::from_str("group '");
        e.append(group);
        e.append("' has no committed offsets to reset");
        return Err(e);
    }
    Ok(())
}

/// The offset a reset commits on a partition with watermarks
/// `[low, high]`: the low or high watermark, or the requested offset
/// clamped into them. `None` for a timestamp, which the broker resolves.
pub fn reset_target(strategy: ResetStrategy, low: i64, high: i64) -> (r: Option<i64>)
    requires
        strategy is ToOffset ==> low <= high,
    ensures
        r == match strategy {
            ResetStrategy::Earliest => Some(low),
            ResetStrategy::Latest => Some(high),
            ResetStrategy::ToOffset(t) => Some(if t < low { low } else if t > high { high } else { t }),
            ResetStrategy::ToTimestamp(_) => None::<i64>,
        },
{
    match strategy {
        ResetStrategy::Earliest => Some(low),
        ResetStrategy::Latest => Some(high),
        ResetStrategy::ToOffset(t) => Some(if t < low { low } else if t > high { high } else { t }),
        ResetStrategy::ToTimestamp(_) => None,
    }
}

} // verus!
