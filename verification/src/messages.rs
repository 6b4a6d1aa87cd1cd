//! The message browser (list, cursor, live follow, partition choice) and
//! the schema and connector detail screens, with the text they show and
//! copy.

use vstd::prelude::*;

use chrono::TimeZone;

use crate::connect::{ConnectorDetail, TaskStatus};
use crate::kafka::{lemma_shown_before_order, msgs_sorted, next_offset, next_offset_of, shown_before, sort_fetched, sort_shown, FetchedMessage};
use crate::order::{sort_ranked, Ranked};
use crate::registry::SchemaVersionDetail;
use crate::text::{chars_of, dec, fmt_i64, fmt_usize, int_dec, string_from_chars, trim, trim_str};

verus! {

// ---------- JSON and time text ----------

/// What `serde_json` pretty-prints for a text parsed as any JSON value;
/// `None` when it is not JSON.
pub uninterp spec fn json_pretty(raw: Seq<char>) -> Option<Seq<char>>;

/// `serde_json::from_str::<Value>` then `serde_json::to_string_pretty`.
#[verifier::external_body]
pub(crate) fn pretty_json_value(raw: &str) -> (r: Option<String>)
    ensures
        match r {
            Some(p) => json_pretty(raw@) == Some(p@),
            None => json_pretty(raw@) is None,
        },
{
    let v: serde_json::Value = serde_json::from_str(raw).ok()?;
    serde_json::to_string_pretty(&v).ok()
}

/// The pretty form of a text that holds JSON once trimmed (nothing for
/// blank text).
pub open spec fn try_pretty(raw: Seq<char>) -> Option<Seq<char>> {
    if trim(raw).len() == 0 { None } else { json_pretty(trim(raw)) }
}

/// Pretty-prints `raw` when it is JSON.
pub fn try_pretty_json(raw: &str) -> (r: Option<String>)
    ensures
        match r {
            Some(p) => try_pretty(raw@) == Some(p@),
            None => try_pretty(raw@) is None,
        },
{
    let t = trim_str(raw);
    if t.unicode_len() == 0 {
        return None;
    }
    pretty_json_value(t.as_str())
}

/// A key or payload as shown: pretty JSON when asked and possible, else
/// as it is.
pub open spec fn optional_json(raw: Seq<char>, pretty: bool) -> Seq<char> {
    if pretty {
        match try_pretty(raw) {
            Some(p) => p,
            None => raw,
        }
    } else {
        raw
    }
}

/// A key or payload as shown (see `optional_json`).
pub fn format_optional_json(raw: &str, pretty: bool) -> (r: String)
    ensures
        r@ == optional_json(raw@, pretty),
{
    if pretty {
        match try_pretty_json(raw) {
            Some(p) => p,
            None => String::from_str(raw),
        }
    } else {
        String::from_str(raw)
    }
}

/// `chrono`'s `%Y-%m-%d %H:%M:%S%.3f` rendering of a UTC instant given in
/// Unix milliseconds; `None` for an instant it cannot represent.
pub uninterp spec fn utc_millis_text(ms: i64) -> Option<Seq<char>>;

/// `Utc.timestamp_millis_opt(ms).single()` formatted as
/// `%Y-%m-%d %H:%M:%S%.3f`.
#[verifier::external_body]
fn format_utc_millis(ms: i64) -> (r: Option<String>)
    ensures
        match r {
            Some(t) => utc_millis_text(ms) == Some(t@),
            None => utc_millis_text(ms) is None,
        },
{
    chrono::Utc.timestamp_millis_opt(ms).single().map(|dt| dt.format("%Y-%m-%d %H:%M:%S%.3f").to_string())
}

/// A timestamp as shown: the UTC date and time, or the raw milliseconds.
pub open spec fn timestamp_text(ms: i64) -> Seq<char> {
    match utc_millis_text(ms) {
        Some(t) => t,
        None => int_dec(ms as int),
    }
}

/// A timestamp as shown (see `timestamp_text`).
pub fn format_timestamp(ms: i64) -> (r: String)
    ensures
        r@ == timestamp_text(ms),
{
    match format_utc_millis(ms) {
        Some(t) => t,
        None => fmt_i64(ms),
    }
}

/// At most `max` characters, with an ellipsis when cut.
pub open spec fn truncated(s: Seq<char>, max: nat) -> Seq<char> {
    if s.len() <= max { s } else { s.subrange(0, max as int) + "…"@ }
}

/// A cut text keeps at most `max` characters of the original, from its
/// start, and shows `…` exactly when something was cut.
pub proof fn law_truncated_keeps_a_prefix(s: Seq<char>, max: nat)
    ensures
        s.len() <= max ==> truncated(s, max) == s,
        s.len() > max ==> truncated(s, max).len() == max + 1
            && truncated(s, max).subrange(0, max as int) == s.subrange(0, max as int)
            && truncated(s, max)[max as int] == '…',
{
    reveal_strlit("…");
    if s.len() > max {
        assert(truncated(s, max).subrange(0, max as int) =~= s.subrange(0, max as int));
    }
}

/// `s` cut to `max` characters (see `truncated`).
pub fn truncate(s: &str, max: usize) -> (r: String)
    ensures
        r@ == truncated(s@, max as nat),
{
    let n = s.unicode_len();
    if n <= max {
        return String::from_str(s);
    }
    let cs = chars_of(s);
    let mut out: Vec<char> = Vec::new();
    let mut i: usize = 0;
    while i < max
        invariant
            max < cs@.len(),
            cs@ == s@,
            i <= max,
            out@ == cs@.subrange(0, i as int),
        decreases max - i,
    {
        out.push(cs[i]);
        i = i + 1;
        assert(out@ =~= cs@.subrange(0, i as int));
    }
    let mut r = string_from_chars(out.as_slice());
    r.append("…");
    r
}

// ---------- copying a message ----------

/// The header lines of a message: `  key: value` each.
pub open spec fn header_lines(h: Seq<(String, String)>) -> Seq<char>
    decreases h.len(),
{
    if h.len() == 0 {
        Seq::empty()
    } else {
        header_lines(h.drop_last()) + "  "@ + h.last().0@ + ": "@ + h.last().1@ + "\n"@
    }
}

pub open spec fn timestamp_part(m: FetchedMessage) -> Seq<char> {
    match m.timestamp_ms {
        Some(ts) => "timestamp: "@ + timestamp_text(ts) + "\n"@,
        None => Seq::empty(),
    }
}

pub open spec fn key_part(m: FetchedMessage, pretty: bool) -> Seq<char> {
    match m.key {
        Some(k) => "key:\n"@ + optional_json(k@, pretty) + "\n"@,
        None => Seq::empty(),
    }
}

pub open spec fn headers_part(m: FetchedMessage) -> Seq<char> {
    if m.headers@.len() > 0 { "headers:\n"@ + header_lines(m.headers@) } else { Seq::empty() }
}

pub open spec fn payload_part(m: FetchedMessage, pretty: bool) -> Seq<char> {
    match m.payload {
        Some(p) => optional_json(p@, pretty),
        None => "<null>"@,
    }
}

/// The text of a message as copied to the clipboard: partition, offset,
/// timestamp, key, headers, payload.
pub open spec fn clipboard_text(m: FetchedMessage, pretty: bool) -> Seq<char> {
    "partition: "@ + int_dec(m.partition as int) + "\n"@ + "offset: "@ + int_dec(m.offset as int) + "\n"@
        + timestamp_part(m) + key_part(m, pretty) + headers_part(m) + "payload:\n"@ + payload_part(m, pretty)
}

/// The text of a message as copied to the clipboard.
pub fn message_clipboard_text(m: &FetchedMessage, pretty_json: bool) -> (r: String)
    ensures
        r@ == clipboard_text(*m, pretty_json),
{
    let mut out = String::from_str("partition: ");
    let p = fmt_i64(m.partition as i64);
    out.append(p.as_str());
    out.append("\n");
    out.append("offset: ");
    let o = fmt_i64(m.offset);
    out.append(o.as_str());
    out.append("\n");
    let ghost head = out@;
    if let Some(ts) = m.timestamp_ms {
        out.append("timestamp: ");
        let t = format_timestamp(ts);
        out.append(t.as_str());
        out.append("\n");
    }
    assert(out@ =~= head + timestamp_part(*m));
    let ghost with_ts = out@;
    if let Some(key) = &m.key {
        out.append("key:\n");
        let k = format_optional_json(key.as_str(), pretty_json);
        out.append(k.as_str());
        out.append("\n");
    }
    assert(out@ =~= with_ts + key_part(*m, pretty_json));
    let ghost with_key = out@;
    if m.headers.len() > 0 {
        out.append("headers:\n");
        let ghost base = out@;
        let mut i: usize = 0;
        assert(m.headers@.subrange(0, 0) =~= Seq::<(String, String)>::empty());
        assert(out@ =~= base + header_lines(m.headers@.subrange(0, 0)));
        while i < m.headers.len()
            invariant
                i <= m.headers@.len(),
                out@ == base + header_lines(m.headers@.subrange(0, i as int)),
            decreases m.headers.len() - i,
        {
            assert(m.headers@.subrange(0, i + 1).drop_last() =~= m.headers@.subrange(0, i as int));
            out.append("  ");
            out.append(m.headers[i].0.as_str());
            out.append(": ");
            out.append(m.headers[i].1.as_str());
            out.append("\n");
            i = i + 1;
            assert(out@ =~= base + header_lines(m.headers@.subrange(0, i as int)));
        }
        assert(m.headers@.subrange(0, i as int) =~= m.headers@);
    }
    assert(out@ =~= with_key + headers_part(*m));
    let ghost with_headers = out@;
    out.append("payload:\n");
    let ghost with_label = out@;
    match &m.payload {
        Some(p) => {
            let s = format_optional_json(p.as_str(), pretty_json);
            out.append(s.as_str());
        },
        None => {
            out.append("<null>");
        },
    }
    assert(out@ =~= with_label + payload_part(*m, pretty_json));
    assert(out@ =~= clipboard_text(*m, pretty_json));
    out
}

/// Orders messages for display (see `kafka::msg_before`).
pub fn sort_messages_in_place(messages: &mut Vec<FetchedMessage>, single_partition: bool, sort_by_time: bool)
    ensures
        final(messages)@.to_multiset() == old(messages)@.to_multiset(),
        msgs_sorted(final(messages)@, single_partition, sort_by_time),
{
    sort_fetched(messages, single_partition, sort_by_time);
}

// ---------- next offsets ----------

/// The offset after `o`, kept at `i64::MAX`.
pub open spec fn after_offset(o: i64) -> i64 {
    if o == i64::MAX { o } else { (o + 1) as i64 }
}

pub open spec fn max_opt(a: Option<i64>, b: i64) -> i64 {
    match a {
        Some(x) => if x > b { x } else { b },
        None => b,
    }
}

/// The offset after the newest message of partition `p`, if it has any.
pub open spec fn msgs_next(msgs: Seq<FetchedMessage>, p: i32) -> Option<i64>
    decreases msgs.len(),
{
    if msgs.len() == 0 {
        None
    } else {
        let r = msgs_next(msgs.drop_last(), p);
        if msgs.last().partition == p {
            Some(max_opt(r, after_offset(msgs.last().offset)))
        } else {
            r
        }
    }
}

/// The next offset of `p` once `msgs` are read: past the newest message
/// read, never going back.
pub open spec fn merged_next(before: Option<i64>, msgs: Seq<FetchedMessage>, p: i32) -> Option<i64> {
    match msgs_next(msgs, p) {
        Some(n) => Some(max_opt(before, n)),
        None => before,
    }
}

/// The next offset of partition `p` after reading `msgs` is one past its
/// newest message there: there is none when no message of `p` was read,
/// else it is past every offset of `p` read (held at `i64::MAX`) and is
/// the offset right after one of them.
pub proof fn law_msgs_next_is_past_newest(msgs: Seq<FetchedMessage>, p: i32)
    ensures
        msgs_next(msgs, p) is None <==> (forall|k: int| 0 <= k < msgs.len() ==> (#[trigger] msgs[k]).partition != p),
        msgs_next(msgs, p) is Some ==> (forall|k: int| 0 <= k < msgs.len() && (#[trigger] msgs[k]).partition == p
            ==> msgs[k].offset < msgs_next(msgs, p)->0 || msgs_next(msgs, p)->0 == i64::MAX),
        msgs_next(msgs, p) is Some ==> exists|k: int| 0 <= k < msgs.len() && (#[trigger] msgs[k]).partition == p
            && msgs_next(msgs, p)->0 == after_offset(msgs[k].offset),
    decreases msgs.len(),
{
    if msgs.len() > 0 {
        let d = msgs.drop_last();
        law_msgs_next_is_past_newest(d, p);
        let n = msgs.len() - 1;
        assert forall|k: int| 0 <= k < d.len() implies #[trigger] d[k] == msgs[k] by {}
        assert(msgs.last() == msgs[n]);
        assert forall|k: int| 0 <= k < msgs.len() && (#[trigger] msgs[k]).partition == p
            implies msgs_next(msgs, p) is Some by {
            if k < n {
                assert(d[k].partition == p);
            }
        }
        if msgs_next(msgs, p) is Some {
            let x = msgs_next(msgs, p)->0;
            assert forall|k: int| 0 <= k < msgs.len() && (#[trigger] msgs[k]).partition == p
                implies msgs[k].offset < x || x == i64::MAX by {
                if k < n {
                    assert(d[k].partition == p);
                }
            }
        }
        if msgs.last().partition == p {
            if let Some(r) = msgs_next(d, p) {
                let k = choose|k: int| 0 <= k < d.len() && (#[trigger] d[k]).partition == p
                    && r == after_offset(d[k].offset);
                assert(msgs[k] == d[k]);
            }
        } else {
            if msgs_next(d, p) is Some {
                let k = choose|k: int| 0 <= k < d.len() && (#[trigger] d[k]).partition == p
                    && msgs_next(d, p)->0 == after_offset(d[k].offset);
                assert(msgs[k] == d[k]);
            }
        }
    }
}

/// A partition's next offset never goes back: after a read it is at least
/// what it was, and past every message of the partition that was read.
pub proof fn law_merged_next_never_goes_back(before: Option<i64>, msgs: Seq<FetchedMessage>, p: i32)
    ensures
        before matches Some(b) ==> (merged_next(before, msgs, p) matches Some(x) && x >= b),
        forall|k: int| 0 <= k < msgs.len() && (#[trigger] msgs[k]).partition == p
            ==> (merged_next(before, msgs, p) matches Some(x) && (msgs[k].offset < x || x == i64::MAX)),
{
    law_msgs_next_is_past_newest(msgs, p);
}

/// Sets the next offset of partition `p`.
fn set_next_offset(offs: &mut Vec<(i32, i64)>, p: i32, v: i64)
    ensures
        forall|q: i32| #[trigger] next_offset_of(final(offs)@, q) == if q == p { Some(v) } else { next_offset_of(old(offs)@, q) },
{
    let mut i: usize = offs.len();
    while i > 0
        invariant
            i <= offs@.len(),
            offs@ == old(offs)@,
            forall|j: int| i <= j < offs@.len() ==> (#[trigger] offs@[j]).0 != p,
        decreases i,
    {
        if offs[i - 1].0 == p {
            let ghost o = offs@;
            offs.set(i - 1, (p, v));
            proof {
                lemma_next_offset_update(o, i - 1, p, v);
            }
            return;
        }
        i = i - 1;
    }
    let ghost o = offs@;
    offs.push((p, v));
    proof {
        assert forall|q: i32| #[trigger] next_offset_of(offs@, q) == if q == p { Some(v) } else { next_offset_of(o, q) } by {
            assert(offs@.drop_last() =~= o);
        }
    }
}

proof fn lemma_next_offset_update(o: Seq<(i32, i64)>, k: int, p: i32, v: i64)
    requires
        0 <= k < o.len(),
        o[k].0 == p,
        forall|j: int| k < j < o.len() ==> (#[trigger] o[j]).0 != p,
    ensures
        forall|q: i32| #[trigger] next_offset_of(o.update(k, (p, v)), q) == if q == p { Some(v) } else { next_offset_of(o, q) },
    decreases o.len(),
{
    let n = o.update(k, (p, v));
    if k == o.len() - 1 {
        assert(n.drop_last() =~= o.drop_last());
        assert(n.last() == (p, v));
        assert forall|q: i32| #[trigger] next_offset_of(n, q) == if q == p { Some(v) } else { next_offset_of(o, q) } by {
            assert(n.len() > 0);
            assert(o.last().0 == p);
        }
    } else {
        let od = o.drop_last();
        assert forall|j: int| k < j < od.len() implies (#[trigger] od[j]).0 != p by {
            assert(od[j] == o[j]);
        }
        lemma_next_offset_update(od, k, p, v);
        assert(n.drop_last() =~= od.update(k, (p, v)));
        assert(n.last() == o.last());
        assert(o.last().0 != p);
        assert forall|q: i32| #[trigger] next_offset_of(n, q) == if q == p { Some(v) } else { next_offset_of(o, q) } by {
            assert(next_offset_of(od.update(k, (p, v)), q) == if q == p { Some(v) } else { next_offset_of(od, q) });
        }
    }
}

// ---------- the message browser ----------

impl Ranked for FetchedMessage {
    open spec fn ranks_before(a: FetchedMessage, b: FetchedMessage) -> bool {
        a.partition < b.partition || (a.partition == b.partition && a.offset < b.offset)
    }

    proof fn lemma_ranks_irrefl(a: FetchedMessage) {
    }

    proof fn lemma_ranks_trans(a: FetchedMessage, b: FetchedMessage, c: FetchedMessage) {
    }

    proof fn lemma_ranks_split(a: FetchedMessage, b: FetchedMessage, c: FetchedMessage) {
    }

    fn precedes(&self, other: &FetchedMessage) -> (r: bool) {
        self.partition < other.partition || (self.partition == other.partition && self.offset < other.offset)
    }
}

/// Some message of `s` has the position `(partition, offset)` of `m`.
pub open spec fn has_position(s: Seq<FetchedMessage>, m: FetchedMessage) -> bool {
    exists|i: int| 0 <= i < s.len() && (#[trigger] s[i]).partition == m.partition && s[i].offset == m.offset
}

/// No two messages share a position.
pub open spec fn unique_positions(s: Seq<FetchedMessage>) -> bool {
    forall|i: int, j: int| 0 <= i < j < s.len() ==> !((#[trigger] s[i]).partition == (#[trigger] s[j]).partition && s[i].offset == s[j].offset)
}

/// How many distinct positions the messages cover.
pub open spec fn position_count(s: Seq<FetchedMessage>) -> nat
    decreases s.len(),
{
    if s.len() == 0 {
        0
    } else if has_position(s.drop_last(), s.last()) {
        position_count(s.drop_last())
    } else {
        position_count(s.drop_last()) + 1
    }
}

/// The messages of a topic: list, cursor, reading mode and live follow.
#[derive(Debug)]
pub struct MessagesView {
    pub topic: String,
    pub title: String,
    pub messages: Vec<FetchedMessage>,
    /// The message under the cursor.
    pub selected: Option<usize>,
    pub detail_scroll: u16,
    /// Read the newest messages (else the oldest).
    pub from_end: bool,
    pub show_help: bool,
    pub message_limit: usize,
    /// The partition read, or all of them.
    pub partition: Option<i32>,
    pub partition_ids: Vec<i32>,
    pub sort_by_time: bool,
    /// Pretty-print JSON keys and payloads.
    pub pretty_json: bool,
    pub live: bool,
    /// Next offset to read per partition while following live.
    pub next_offsets: Vec<(i32, i64)>,
}

/// The mode word of the list title.
pub open spec fn mode_word(live: bool, from_end: bool) -> Seq<char> {
    if live { "LIVE"@ } else if from_end { "tail"@ } else { "head"@ }
}

/// The partition after `cur` in the cycle all, `ids[0]`, `ids[1]`, ...,
/// all (the first occurrence of `cur` counts; an unknown one goes back to
/// all, and so does everything when no partition is known).
pub open spec fn cycled_partition(ids: Seq<i32>, cur: Option<i32>) -> Option<i32> {
    if ids.len() == 0 {
        None::<i32>
    } else {
        match cur {
            None => Some(ids[0]),
            Some(c) => {
                if exists|k: int| 0 <= k < ids.len() && ids[k] == c {
                    let k = choose|k: int| 0 <= k < ids.len() && ids[k] == c && forall|j: int| 0 <= j < k ==> ids[j] != c;
                    if k + 1 < ids.len() { Some(ids[k + 1]) } else { None::<i32> }
                } else {
                    None::<i32>
                }
            },
        }
    }
}

/// Cycling the partition filter walks through all, then each partition in
/// order, then back to all (partition ids listed once each).
pub proof fn law_cycled_partition_walks_in_order(ids: Seq<i32>, k: int)
    requires
        forall|a: int, b: int| 0 <= a < b < ids.len() ==> #[trigger] ids[a] != #[trigger] ids[b],
        0 <= k < ids.len(),
    ensures
        cycled_partition(ids, None) == Some(ids[0]),
        k + 1 < ids.len() ==> cycled_partition(ids, Some(ids[k])) == Some(ids[k + 1]),
        k + 1 == ids.len() ==> cycled_partition(ids, Some(ids[k])) is None,
{
    let c = ids[k];
    assert(exists|j: int| 0 <= j < ids.len() && ids[j] == c);
    let j = choose|j: int| 0 <= j < ids.len() && ids[j] == c && forall|i: int| 0 <= i < j ==> ids[i] != c;
    if j != k {
        if j < k {
            assert(ids[j] != ids[k]);
        } else {
            assert(ids[k] != ids[k]);
        }
    }
}

/// A message browser as it opens on `topic`: nothing read yet, newest
/// first, all partitions, by time, pretty JSON, not live (its partition
/// list is set apart).
pub open spec fn fresh_messages_view(r: MessagesView, topic: Seq<char>, limit: usize) -> bool {
    &&& r.topic@ == topic
    &&& r.title@ == "Messages: "@ + topic
    &&& r.messages@.len() == 0
    &&& r.selected == Some(0usize)
    &&& r.detail_scroll == 0
    &&& r.from_end
    &&& !r.show_help
    &&& r.message_limit == limit
    &&& r.partition is None
    &&& r.sort_by_time
    &&& r.pretty_json
    &&& !r.live
    &&& r.next_offsets@.len() == 0
}

impl MessagesView {
    /// The browser of `topic`: newest first, all partitions, by time,
    /// pretty JSON, not live.
    pub fn new(topic: String, message_limit: usize) -> (r: MessagesView)
        ensures
            fresh_messages_view(r, topic@, message_limit),
            r.topic == topic,
            r.title@ == "Messages: "@ + topic@,
            r.messages@.len() == 0,
            r.selected == Some(0usize),
            r.detail_scroll == 0,
            r.from_end,
            !r.show_help,
            r.message_limit == message_limit,
            r.partition is None,
            r.partition_ids@.len() == 0,
            r.sort_by_time,
            r.pretty_json,
            !r.live,
            r.next_offsets@.len() == 0,
    {
        let mut title = String::from_str("Messages: ");
        title.append(topic.as_str());
        MessagesView {
            topic,
            title,
            messages: Vec::new(),
            selected: Some(0),
            detail_scroll: 0,
            from_end: true,
            show_help: false,
            message_limit,
            partition: None,
            partition_ids: Vec::new(),
            sort_by_time: true,
            pretty_json: true,
            live: false,
            next_offsets: Vec::new(),
        }
    }

    /// The list title: mode, limit, partition, sort and JSON setting.
    pub open spec fn list_title_spec(&self) -> Seq<char> {
        self.title@ + " ["@ + mode_word(self.live, self.from_end) + " lim="@ + dec(self.message_limit as nat) + " "@
            + match self.partition { Some(p) => "p"@ + int_dec(p as int), None => "all"@ }
            + " sort="@ + (if self.sort_by_time { "time"@ } else { "offset"@ })
            + " "@ + (if self.pretty_json { "json+"@ } else { "json-"@ }) + "]"@
    }

    pub fn list_title(&self) -> (r: String)
        ensures
            r@ == self.list_title_spec(),
    {
        let mut s = self.title.clone();
        s.append(" [");
        s.append(if self.live { "LIVE" } else if self.from_end { "tail" } else { "head" });
        s.append(" lim=");
        let l = fmt_usize(self.message_limit);
        s.append(l.as_str());
        s.append(" ");
        match self.partition {
            Some(p) => {
                s.append("p");
                let n = fmt_i64(p as i64);
                s.append(n.as_str());
            },
            None => {
                s.append("all");
            },
        }
        s.append(" sort=");
        s.append(if self.sort_by_time { "time" } else { "offset" });
        s.append(" ");
        s.append(if self.pretty_json { "json+" } else { "json-" });
        s.append("]");
        s
    }

    pub fn scroll_detail_up(&mut self, n: u16)
        ensures
            *final(self) == (MessagesView {
                detail_scroll: (if old(self).detail_scroll >= n { old(self).detail_scroll - n } else { 0 }) as u16,
                ..*old(self)
            }),
    {
        self.detail_scroll = self.detail_scroll.saturating_sub(n);
    }

    pub fn scroll_detail_down(&mut self, n: u16)
        ensures
            *final(self) == (MessagesView {
                detail_scroll: (if old(self).detail_scroll + n <= u16::MAX { old(self).detail_scroll + n } else { u16::MAX as int }) as u16,
                ..*old(self)
            }),
    {
        self.detail_scroll = self.detail_scroll.saturating_add(n);
    }

    /// Records, per partition, the offset after the newest message shown.
    pub fn sync_next_offsets(&mut self)
        ensures
            *final(self) == (MessagesView { next_offsets: final(self).next_offsets, ..*old(self) }),
            forall|p: i32| #[trigger] next_offset_of(final(self).next_offsets@, p)
                == merged_next(next_offset_of(old(self).next_offsets@, p), old(self).messages@, p),
    {
        let mut i: usize = 0;
        let ghost start = self.next_offsets@;
        while i < self.messages.len()
            invariant
                i <= self.messages@.len(),
                start == old(self).next_offsets@,
                *self == (MessagesView { next_offsets: self.next_offsets, ..*old(self) }),
                forall|p: i32| #[trigger] next_offset_of(self.next_offsets@, p)
                    == merged_next(next_offset_of(start, p), self.messages@.subrange(0, i as int), p),
            decreases self.messages.len() - i,
        {
            let m = &self.messages[i];
            let next = if m.offset == i64::MAX { m.offset } else { m.offset + 1 };
            let cur = next_offset(self.next_offsets.as_slice(), m.partition);
            let v = match cur {
                Some(o) => if o > next { o } else { next },
                None => next,
            };
            let ghost before = self.next_offsets@;
            let p0 = m.partition;
            set_next_offset(&mut self.next_offsets, p0, v);
            proof {
                let pre = self.messages@.subrange(0, i as int);
                let nxt = self.messages@.subrange(0, i + 1);
                assert(nxt.drop_last() =~= pre);
                assert(nxt.last() == self.messages@[i as int]);
                assert forall|p: i32| #[trigger] next_offset_of(self.next_offsets@, p)
                    == merged_next(next_offset_of(start, p), nxt, p) by {
                    assert(next_offset_of(before, p) == merged_next(next_offset_of(start, p), pre, p));
                }
            }
            i = i + 1;
        }
        assert(self.messages@.subrange(0, i as int) =~= self.messages@);
    }

    /// Shows a fresh read: the cursor goes to the first message when there
    /// is one.
    pub fn load(&mut self, messages: Vec<FetchedMessage>)
        ensures
            *final(self) == (MessagesView {
                messages: final(self).messages,
                selected: final(self).selected,
                next_offsets: final(self).next_offsets,
                ..*old(self)
            }),
            final(self).messages == messages,
            final(self).selected == if messages@.len() > 0 { Some(0usize) } else { old(self).selected },
            forall|p: i32| #[trigger] next_offset_of(final(self).next_offsets@, p)
                == merged_next(next_offset_of(old(self).next_offsets@, p), messages@, p),
            final(self).topic == old(self).topic,
            final(self).live == old(self).live,
            final(self).partition == old(self).partition,
            final(self).message_limit == old(self).message_limit,
            final(self).sort_by_time == old(self).sort_by_time,
            final(self).detail_scroll == old(self).detail_scroll,
    {
        self.messages = messages;
        self.sync_next_offsets();
        if self.messages.len() > 0 {
            self.selected = Some(0);
        }
    }

    /// The message under the cursor.
    pub fn selected(&self) -> (r: Option<&FetchedMessage>)
        ensures
            match self.selected {
                Some(i) => if i < self.messages@.len() { r == Some(&self.messages@[i as int]) } else { r is None },
                None => r is None,
            },
    {
        match self.selected {
            Some(i) => if i < self.messages.len() { Some(&self.messages[i]) } else { None },
            None => None,
        }
    }

    /// Moves the cursor down, stopping at the last message.
    pub fn next(&mut self)
        ensures
            old(self).messages@.len() == 0 ==> *final(self) == *old(self),
            old(self).messages@.len() > 0 ==> *final(self) == (MessagesView {
                selected: Some(match old(self).selected {
                    Some(i) => (if i + 1 < old(self).messages@.len() { i + 1 } else { old(self).messages@.len() - 1 }) as usize,
                    None => 0usize,
                }),
                detail_scroll: 0,
                ..*old(self)
            }),
    {
        let len = self.messages.len();
        if len == 0 {
            return;
        }
        let i = match self.selected {
            Some(i) => if i < len - 1 { i + 1 } else { len - 1 },
            None => 0,
        };
        self.selected = Some(i);
        self.detail_scroll = 0;
    }

    /// Moves the cursor up, stopping at the first message.
    pub fn prev(&mut self)
        ensures
            *final(self) == (MessagesView {
                selected: Some(match old(self).selected {
                    Some(i) => (if i > 0 { i - 1 } else { 0 }) as usize,
                    None => 0usize,
                }),
                detail_scroll: 0,
                ..*old(self)
            }),
    {
        let i = match self.selected {
            Some(i) => if i > 0 { i - 1 } else { 0 },
            None => 0,
        };
        self.selected = Some(i);
        self.detail_scroll = 0;
    }

    /// Steps the partition read: all, then each partition in order, then
    /// all again (all when the partitions are unknown).
    pub fn cycle_partition(&mut self)
        ensures
            *final(self) == (MessagesView { partition: final(self).partition, ..*old(self) }),
            final(self).partition == cycled_partition(old(self).partition_ids@, old(self).partition),
    {
        if self.partition_ids.len() == 0 {
            self.partition = None;
            return;
        }
        let next = match self.partition {
            None => Some(self.partition_ids[0]),
            Some(cur) => {
                let mut k: usize = 0;
                while k < self.partition_ids.len() && self.partition_ids[k] != cur
                    invariant
                        k <= self.partition_ids@.len(),
                        forall|j: int| 0 <= j < k ==> self.partition_ids@[j] != cur,
                    decreases self.partition_ids.len() - k,
                {
                    k = k + 1;
                }
                if k < self.partition_ids.len() {
                    proof {
                        let c = choose|c: int| 0 <= c < self.partition_ids@.len() && self.partition_ids@[c] == cur
                            && forall|j: int| 0 <= j < c ==> self.partition_ids@[j] != cur;
                        if c < k {
                            assert(self.partition_ids@[c] != cur);
                        } else if c > k {
                            assert(self.partition_ids@[k as int] == cur);
                        }
                    }
                    if k + 1 < self.partition_ids.len() { Some(self.partition_ids[k + 1]) } else { None }
                } else {
                    None
                }
            },
        };
        self.partition = next;
    }

    /// The clipboard text of the message under the cursor.
    pub fn selected_clipboard_text(&self) -> (r: Result<String, String>)
        ensures
            match self.selected {
                Some(i) => if i < self.messages@.len() {
                    r matches Ok(t) && t@ == clipboard_text(self.messages@[i as int], self.pretty_json)
                } else {
                    r matches Err(e) && e@ == "no message selected"@
                },
                None => r matches Err(e) && e@ == "no message selected"@,
            },
    {
        match self.selected() {
            Some(m) => Ok(message_clipboard_text(m, self.pretty_json)),
            None => Err(String::from_str("no message selected")),
        }
    }
}

fn has_position_exec(s: &Vec<FetchedMessage>, m: &FetchedMessage) -> (r: bool)
    ensures
        r == has_position(s@, *m),
{
    let mut i: usize = 0;
    while i < s.len()
        invariant
            i <= s@.len(),
            forall|j: int| 0 <= j < i ==> !((#[trigger] s@[j]).partition == m.partition && s@[j].offset == m.offset),
        decreases s.len() - i,
    {
        if s[i].partition == m.partition && s[i].offset == m.offset {
            return true;
        }
        i = i + 1;
    }
    false
}

/// The messages of `s`, each position once: the first message read at it,
/// in order of first appearance.
pub open spec fn first_copies(s: Seq<FetchedMessage>) -> Seq<FetchedMessage>
    decreases s.len(),
{
    if s.len() == 0 {
        Seq::empty()
    } else if has_position(s.drop_last(), s.last()) {
        first_copies(s.drop_last())
    } else {
        first_copies(s.drop_last()).push(s.last())
    }
}

/// `first_copies` covers the positions of `s`, only with messages of `s`,
/// once each, and counts them.
pub proof fn lemma_first_copies(s: Seq<FetchedMessage>)
    ensures
        forall|x: FetchedMessage| #[trigger] has_position(first_copies(s), x) <==> has_position(s, x),
        forall|i: int| 0 <= i < first_copies(s).len() ==> s.contains(#[trigger] first_copies(s)[i]),
        unique_positions(first_copies(s)),
        first_copies(s).len() == position_count(s),
    decreases s.len(),
{
    if s.len() > 0 {
        let d = s.drop_last();
        let m = s.last();
        lemma_first_copies(d);
        let f = first_copies(s);
        let fd = first_copies(d);
        assert(f == if has_position(d, m) { fd } else { fd.push(m) });
        assert forall|x: FetchedMessage| #[trigger] has_position(f, x) <==> has_position(s, x) by {
            if has_position(s, x) {
                let j = choose|j: int| 0 <= j < s.len() && (#[trigger] s[j]).partition == x.partition && s[j].offset == x.offset;
                if j < d.len() {
                    assert(d[j] == s[j]);
                    assert(has_position(d, x));
                    assert(has_position(fd, x));
                    let i = choose|i: int| 0 <= i < fd.len() && (#[trigger] fd[i]).partition == x.partition && fd[i].offset == x.offset;
                    assert(f[i] == fd[i]);
                } else if has_position(d, m) {
                    let k = choose|k: int| 0 <= k < d.len() && (#[trigger] d[k]).partition == m.partition && d[k].offset == m.offset;
                    assert(s[j] == m);
                    assert(has_position(d, x));
                    assert(has_position(fd, x));
                } else {
                    assert(f[fd.len() as int] == m);
                }
            }
            if has_position(f, x) {
                let i = choose|i: int| 0 <= i < f.len() && (#[trigger] f[i]).partition == x.partition && f[i].offset == x.offset;
                if i < fd.len() {
                    assert(fd[i] == f[i]);
                    assert(has_position(fd, x));
                    assert(has_position(d, x));
                    let j = choose|j: int| 0 <= j < d.len() && (#[trigger] d[j]).partition == x.partition && d[j].offset == x.offset;
                    assert(s[j] == d[j]);
                } else {
                    assert(s[s.len() - 1] == m);
                }
            }
        }
        assert forall|i: int| 0 <= i < f.len() implies s.contains(#[trigger] f[i]) by {
            if i < fd.len() {
                assert(f[i] == fd[i]);
                assert(d.contains(fd[i]));
                let j = choose|j: int| 0 <= j < d.len() && d[j] == fd[i];
                assert(s[j] == d[j]);
            } else {
                assert(s[s.len() - 1] == m);
            }
        }
        if !has_position(d, m) {
            assert forall|i: int, j: int| 0 <= i < j < f.len()
                implies !((#[trigger] f[i]).partition == (#[trigger] f[j]).partition && f[i].offset == f[j].offset) by {
                if j == fd.len() {
                    assert(f[i] == fd[i]);
                    if f[i].partition == m.partition && f[i].offset == m.offset {
                        assert(has_position(fd, m));
                    }
                } else {
                    assert(f[i] == fd[i] && f[j] == fd[j]);
                }
            }
        }
    }
}

/// The first message of each position, in order.
fn first_of_each_position(all: Vec<FetchedMessage>) -> (r: Vec<FetchedMessage>)
    ensures
        r@ == first_copies(all@),
        r@.len() == position_count(all@),
        forall|i: int| 0 <= i < r@.len() ==> all@.contains(#[trigger] r@[i]),
{
    let ghost a = all@;
    let n = all.len();
    let mut src = all;
    let mut out: Vec<FetchedMessage> = Vec::new();
    let mut k: usize = 0;
    while src.len() > 0
        invariant
            a.len() == n,
            k + src@.len() == n,
            src@ == a.subrange(k as int, n as int),
            out@ == first_copies(a.subrange(0, k as int)),
            out@.len() == position_count(a.subrange(0, k as int)),
            forall|i: int| 0 <= i < out@.len() ==> a.subrange(0, k as int).contains(#[trigger] out@[i]),
            forall|x: FetchedMessage| #[trigger] has_position(out@, x) <==> has_position(a.subrange(0, k as int), x),
        decreases src.len(),
    {
        let m = src.remove(0);
        let ghost pre = a.subrange(0, k as int);
        let ghost nxt = a.subrange(0, k + 1);
        assert(a[k as int] == m);
        assert(nxt.drop_last() =~= pre);
        assert(nxt.last() == m);
        let seen = has_position_exec(&out, &m);
        let ghost before = out@;
        if !seen {
            out.push(m);
        }
        proof {
            assert forall|i: int| 0 <= i < out@.len() implies nxt.contains(#[trigger] out@[i]) by {
                if i < before.len() {
                    assert(pre.contains(before[i]));
                    let j = choose|j: int| 0 <= j < pre.len() && pre[j] == before[i];
                    assert(nxt[j] == before[i]);
                } else {
                    assert(nxt[k as int] == m);
                }
            }
            assert forall|x: FetchedMessage| #[trigger] has_position(out@, x) <==> has_position(nxt, x) by {
                if has_position(out@, x) {
                    let i = choose|i: int| 0 <= i < out@.len() && (#[trigger] out@[i]).partition == x.partition && out@[i].offset == x.offset;
                    if i < before.len() {
                        assert(before[i] == out@[i]);
                        assert(has_position(before, x));
                        assert(has_position(pre, x));
                        let j = choose|j: int| 0 <= j < pre.len() && (#[trigger] pre[j]).partition == x.partition && pre[j].offset == x.offset;
                        assert(nxt[j] == pre[j]);
                    } else {
                        assert(nxt[k as int] == m);
                    }
                }
                if has_position(nxt, x) {
                    let j = choose|j: int| 0 <= j < nxt.len() && (#[trigger] nxt[j]).partition == x.partition && nxt[j].offset == x.offset;
                    if j < k {
                        assert(pre[j] == nxt[j]);
                        assert(has_position(pre, x));
                        assert(has_position(before, x));
                        let i = choose|i: int| 0 <= i < before.len() && (#[trigger] before[i]).partition == x.partition && before[i].offset == x.offset;
                        assert(out@[i] == before[i]);
                    } else {
                        if seen {
                            assert(has_position(before, m));
                            let i = choose|i: int| 0 <= i < before.len() && (#[trigger] before[i]).partition == m.partition && before[i].offset == m.offset;
                            assert(out@[i] == before[i]);
                        } else {
                            assert(out@[before.len() as int] == m);
                        }
                    }
                }
            }
            assert(has_position(pre, m) == seen);
        }
        k = k + 1;
        assert(src@ =~= a.subrange(k as int, n as int));
    }
    assert(a.subrange(0, k as int) =~= a);
    out
}

proof fn lemma_unique_count(s: Seq<FetchedMessage>, v: FetchedMessage)
    requires
        unique_positions(s),
    ensures
        s.to_multiset().count(v) <= 1,
    decreases s.len(),
{
    broadcast use vstd::seq_lib::group_to_multiset_ensures;
    if s.len() > 0 {
        let d = s.drop_last();
        assert(s =~= d.push(s.last()));
        assert forall|i: int, j: int| 0 <= i < j < d.len()
            implies !((#[trigger] d[i]).partition == (#[trigger] d[j]).partition && d[i].offset == d[j].offset) by {
            assert(d[i] == s[i] && d[j] == s[j]);
        }
        lemma_unique_count(d, v);
        if v == s.last() && d.contains(v) {
            let k = choose|k: int| 0 <= k < d.len() && d[k] == v;
            assert(s[k] == s[s.len() - 1]);
        }
    }
}

proof fn lemma_twice_counted(s: Seq<FetchedMessage>, i: int, j: int)
    requires
        0 <= i < j < s.len(),
        s[i] == s[j],
    ensures
        s.to_multiset().count(s[i]) >= 2,
    decreases s.len(),
{
    broadcast use vstd::seq_lib::group_to_multiset_ensures;
    let d = s.drop_last();
    assert(s =~= d.push(s.last()));
    if j < s.len() - 1 {
        assert(d[i] == s[i] && d[j] == s[j]);
        lemma_twice_counted(d, i, j);
    } else {
        assert(d[i] == s[i]);
        assert(d.contains(s[i]));
    }
}

/// A reordering of messages with distinct positions has distinct positions.
proof fn lemma_unique_kept(a: Seq<FetchedMessage>, b: Seq<FetchedMessage>)
    requires
        unique_positions(a),
        a.to_multiset() == b.to_multiset(),
    ensures
        unique_positions(b),
{
    broadcast use vstd::seq_lib::group_to_multiset_ensures;
    assert forall|i: int, j: int| 0 <= i < j < b.len()
        implies !((#[trigger] b[i]).partition == (#[trigger] b[j]).partition && b[i].offset == b[j].offset) by {
        if b[i].partition == b[j].partition && b[i].offset == b[j].offset {
            if b[i] == b[j] {
                lemma_twice_counted(b, i, j);
                lemma_unique_count(a, b[i]);
            } else {
                assert(b.contains(b[i]) && b.contains(b[j]));
                assert(b.to_multiset().count(b[i]) > 0 && b.to_multiset().count(b[j]) > 0);
                assert(a.to_multiset().count(b[i]) > 0 && a.to_multiset().count(b[j]) > 0);
                assert(a.contains(b[i]) && a.contains(b[j]));
                let x = choose|x: int| 0 <= x < a.len() && a[x] == b[i];
                let y = choose|y: int| 0 <= y < a.len() && a[y] == b[j];
                if x < y {
                } else {
                }
            }
        }
    }
}

/// The live list `w` from the messages `u` (one per position): the first
/// `limit` of them in display order, every one shown before every one left
/// out, no position twice.
pub open spec fn live_kept(w: Seq<FetchedMessage>, u: Seq<FetchedMessage>, limit: usize, single: bool, by_time: bool) -> bool {
    &&& w.len() == (if u.len() < limit { u.len() } else { limit as nat })
    &&& unique_positions(w)
    &&& forall|i: int| 0 <= i < w.len() ==> u.contains(#[trigger] w[i])
    &&& forall|i: int, j: int| 0 <= i < j < w.len() ==> shown_before(#[trigger] w[i], #[trigger] w[j], single, by_time)
    &&& forall|x: FetchedMessage, i: int| u.contains(x) && !w.contains(x) && 0 <= i < w.len()
        ==> #[trigger] shown_before(w[i], x, single, by_time)
}

impl MessagesView {
    /// Adds messages read by a live tick: a message whose position is
    /// already listed is dropped (the first one read stays), the list is
    /// reordered for display and cut to `limit`, the next offsets follow,
    /// and the cursor goes to the top. Returns how many rows were added.
    pub fn append_live(&mut self, new: Vec<FetchedMessage>, limit: usize, sort_by_time: bool, single_partition: bool) -> (r: usize)
        ensures
            new@.len() == 0 ==> r == 0 && *final(self) == *old(self),
            new@.len() > 0 ==> {
                let all = old(self).messages@ + new@;
                let n = final(self).messages@.len();
                &&& live_kept(final(self).messages@, first_copies(all), limit, single_partition, sort_by_time)
                &&& msgs_sorted(final(self).messages@, single_partition, sort_by_time)
                &&& n == if position_count(all) < limit { position_count(all) } else { limit as nat }
                &&& forall|i: int| 0 <= i < n ==> all.contains(#[trigger] final(self).messages@[i])
                &&& r == if n >= old(self).messages@.len() { n - old(self).messages@.len() } else { 0 }
                &&& final(self).selected == if n > 0 { Some(0usize) } else { old(self).selected }
                &&& final(self).detail_scroll == 0
                &&& forall|p: i32| #[trigger] next_offset_of(final(self).next_offsets@, p)
                    == merged_next(next_offset_of(old(self).next_offsets@, p), final(self).messages@, p)
                &&& *final(self) == (MessagesView {
                    messages: final(self).messages,
                    next_offsets: final(self).next_offsets,
                    selected: final(self).selected,
                    detail_scroll: final(self).detail_scroll,
                    ..*old(self)
                })
            },
    {
        if new.len() == 0 {
            return 0;
        }
        let before = self.messages.len();
        let mut all: Vec<FetchedMessage> = Vec::new();
        std::mem::swap(&mut all, &mut self.messages);
        let ghost a0 = all@;
        let mut rest = new;
        let ghost nv = rest@;
        let ghost all_view = a0 + nv;
        all.append(&mut rest);
        assert(all@ == all_view);
        let uniq = first_of_each_position(all);
        let ghost u = uniq@;
        let mut shown = uniq;
        sort_shown(&mut shown, single_partition, sort_by_time);
        let ghost full = shown@;
        proof {
            broadcast use vstd::seq_lib::group_to_multiset_ensures;
            vstd::seq_lib::to_multiset_len(full);
            vstd::seq_lib::to_multiset_len(u);
            lemma_first_copies(all_view);
            lemma_unique_kept(u, full);
        }
        shown.truncate(limit);
        proof {
            broadcast use vstd::seq_lib::group_to_multiset_ensures;
            let w = shown@;
            assert(w =~= full.take(w.len() as int));
            assert forall|i: int| 0 <= i < full.len() implies u.contains(#[trigger] full[i]) by {
                assert(full.contains(full[i]));
                assert(full.to_multiset().count(full[i]) > 0);
                assert(u.to_multiset().count(full[i]) > 0);
            }
            assert forall|i: int, j: int| 0 <= i < j < full.len()
                implies shown_before(#[trigger] full[i], #[trigger] full[j], single_partition, sort_by_time) by {
                lemma_shown_before_order(full[i], full[j], full[i], single_partition, sort_by_time);
            }
            assert forall|i: int| 0 <= i < w.len() implies all_view.contains(#[trigger] w[i]) by {
                assert(w[i] == full[i]);
                assert(u.contains(full[i]));
                let j = choose|j: int| 0 <= j < u.len() && u[j] == full[i];
                assert(all_view.contains(u[j]));
            }
            assert forall|x: FetchedMessage, i: int| u.contains(x) && !w.contains(x) && 0 <= i < w.len()
                implies #[trigger] shown_before(w[i], x, single_partition, sort_by_time) by {
                assert(u.to_multiset().count(x) > 0);
                assert(full.to_multiset().count(x) > 0);
                assert(full.contains(x));
                let k = choose|k: int| 0 <= k < full.len() && full[k] == x;
                if k < w.len() {
                    assert(w[k] == x);
                }
                assert(w[i] == full[i]);
            }
            assert forall|i: int, j: int| 0 <= i < j < w.len()
                implies !crate::kafka::msg_before(#[trigger] w[j], #[trigger] w[i], single_partition, sort_by_time) by {
                assert(w[i] == full[i] && w[j] == full[j]);
                lemma_shown_before_order(full[i], full[j], full[i], single_partition, sort_by_time);
            }
            assert forall|i: int, j: int| 0 <= i < j < w.len()
                implies !((#[trigger] w[i]).partition == (#[trigger] w[j]).partition && w[i].offset == w[j].offset) by {
                assert(w[i] == full[i] && w[j] == full[j]);
            }
        }
        self.messages = shown;
        self.sync_next_offsets();
        let n = self.messages.len();
        let added = if n >= before { n - before } else { 0 };
        if n > 0 {
            self.selected = Some(0);
        }
        self.detail_scroll = 0;
        added
    }
}

// ---------- schema and connector detail ----------

/// A schema as shown: pretty JSON when it parses, else as stored.
pub open spec fn schema_display_of(raw: Seq<char>) -> Seq<char> {
    match json_pretty(raw) {
        Some(p) => p,
        None => raw,
    }
}

/// One subject's versions, one at a time.
#[derive(Debug)]
pub struct SchemaDetailView {
    pub subject: String,
    pub title: String,
    pub versions: Vec<i32>,
    pub version_index: usize,
    pub detail: Option<SchemaVersionDetail>,
    pub schema_display: String,
    pub detail_scroll: usize,
    pub show_help: bool,
}

impl SchemaDetailView {
    pub fn new(subject: &str) -> (r: SchemaDetailView)
        ensures
            r.subject@ == subject@,
            r.title@ == "Schema: "@ + subject@,
            r.versions@.len() == 0,
            r.version_index == 0,
            r.detail is None,
            r.schema_display@.len() == 0,
            r.detail_scroll == 0,
            !r.show_help,
    {
        let mut title = String::from_str("Schema: ");
        title.append(subject);
        SchemaDetailView {
            subject: String::from_str(subject),
            title,
            versions: Vec::new(),
            version_index: 0,
            detail: None,
            schema_display: String::new(),
            detail_scroll: 0,
            show_help: false,
        }
    }

    /// The versions, the newest (last) one current.
    pub fn set_versions(&mut self, versions: Vec<i32>)
        ensures
            *final(self) == (SchemaDetailView {
                versions,
                version_index: (if versions@.len() > 0 { versions@.len() - 1 } else { 0 }) as usize,
                ..*old(self)
            }),
    {
        self.versions = versions;
        self.version_index = if self.versions.len() > 0 { self.versions.len() - 1 } else { 0 };
    }

    /// The version at the current position, if there is one.
    pub fn current_version(&self) -> (r: Option<i32>)
        ensures
            r == if self.version_index < self.versions@.len() { Some(self.versions@[self.version_index as int]) } else { None::<i32> },
    {
        if self.version_index < self.versions.len() { Some(self.versions[self.version_index]) } else { None }
    }

    /// Shows a version, from the top.
    pub fn set_detail(&mut self, detail: SchemaVersionDetail)
        ensures
            final(self).detail == Some(detail),
            final(self).schema_display@ == schema_display_of(detail.schema@),
            final(self).detail_scroll == 0,
            final(self).subject == old(self).subject,
            final(self).versions == old(self).versions,
            final(self).version_index == old(self).version_index,
            final(self).title == old(self).title,
            final(self).show_help == old(self).show_help,
    {
        self.schema_display = match pretty_json_value(detail.schema.as_str()) {
            Some(p) => p,
            None => detail.schema.clone(),
        };
        self.detail_scroll = 0;
        self.detail = Some(detail);
    }

    /// The next (newer) version, staying at the last.
    pub fn next_version(&mut self)
        ensures
            *final(self) == (SchemaDetailView {
                version_index: if old(self).version_index + 1 < old(self).versions@.len() { (old(self).version_index + 1) as usize } else { old(self).version_index },
                ..*old(self)
            }),
    {
        if self.versions.len() == 0 {
            return;
        }
        if self.version_index < self.versions.len() - 1 {
            self.version_index = self.version_index + 1;
        }
    }

    /// The previous (older) version, staying at the first.
    pub fn prev_version(&mut self)
        ensures
            *final(self) == (SchemaDetailView {
                version_index: if old(self).version_index > 0 { (old(self).version_index - 1) as usize } else { 0 },
                ..*old(self)
            }),
    {
        if self.version_index > 0 {
            self.version_index = self.version_index - 1;
        }
    }

    pub fn scroll_detail_down(&mut self, lines: usize)
        ensures
            *final(self) == (SchemaDetailView {
                detail_scroll: (if old(self).detail_scroll + lines <= usize::MAX { old(self).detail_scroll + lines } else { usize::MAX as int }) as usize,
                ..*old(self)
            }),
    {
        self.detail_scroll = self.detail_scroll.saturating_add(lines);
    }

    pub fn scroll_detail_up(&mut self, lines: usize)
        ensures
            *final(self) == (SchemaDetailView {
                detail_scroll: (if old(self).detail_scroll >= lines { old(self).detail_scroll - lines } else { 0 }) as usize,
                ..*old(self)
            }),
    {
        self.detail_scroll = self.detail_scroll.saturating_sub(lines);
    }
}

/// The task lines of a connector.
pub open spec fn task_lines(ts: Seq<TaskStatus>) -> Seq<char>
    decreases ts.len(),
{
    if ts.len() == 0 {
        Seq::empty()
    } else {
        task_lines(ts.drop_last()) + task_line_of(ts.last())
    }
}

/// One task's lines: id, state, worker, and the trace when there is one.
pub open spec fn task_line_of(t: TaskStatus) -> Seq<char> {
    "  #"@ + int_dec(t.id as int) + "  "@ + t.state@ + "  worker="@
        + match t.worker_id { Some(w) => w@, None => "—"@ } + "\n"@
        + match t.trace { Some(tr) => "    trace: "@ + tr@ + "\n"@, None => Seq::empty() }
}

fn task_line(t: &TaskStatus) -> (r: String)
    ensures
        r@ == task_line_of(*t),
{
    let mut out = String::from_str("  #");
    let id = fmt_i64(t.id as i64);
    out.append(id.as_str());
    out.append("  ");
    out.append(t.state.as_str());
    out.append("  worker=");
    match &t.worker_id {
        Some(w) => out.append(w.as_str()),
        None => out.append("—"),
    }
    out.append("\n");
    let ghost mid = out@;
    if let Some(tr) = &t.trace {
        out.append("    trace: ");
        out.append(tr.as_str());
        out.append("\n");
    }
    proof {
        reveal_strlit("");
    }
    assert(out@ =~= task_line_of(*t));
    out
}

/// The body of the connector screen: its tasks, then its configuration.
pub open spec fn body_of(d: ConnectorDetail) -> Seq<char> {
    "=== tasks ===\n"@ + (if d.tasks@.len() == 0 { "(none)\n"@ } else { Seq::empty() })
        + task_lines(d.tasks@) + "\n=== config ===\n"@ + d.config_json@
}

/// The body of the connector screen (see `body_of`).
pub fn format_body(d: &ConnectorDetail) -> (r: String)
    ensures
        r@ == body_of(*d),
{
    let mut out = String::from_str("=== tasks ===\n");
    if d.tasks.len() == 0 {
        out.append("(none)\n");
    }
    let ghost base = out@;
    let mut i: usize = 0;
    assert(d.tasks@.subrange(0, 0) =~= Seq::<TaskStatus>::empty());
    assert(out@ =~= base + task_lines(d.tasks@.subrange(0, 0)));
    while i < d.tasks.len()
        invariant
            i <= d.tasks@.len(),
            out@ == base + task_lines(d.tasks@.subrange(0, i as int)),
        decreases d.tasks.len() - i,
    {
        let ghost pre = out@;
        assert(d.tasks@.subrange(0, i + 1).drop_last() =~= d.tasks@.subrange(0, i as int));
        let line = task_line(&d.tasks[i]);
        out.append(line.as_str());
        i = i + 1;
        assert(out@ =~= base + task_lines(d.tasks@.subrange(0, i as int)));
    }
    assert(d.tasks@.subrange(0, i as int) =~= d.tasks@);
    out.append("\n=== config ===\n");
    out.append(d.config_json.as_str());
    proof {
        reveal_strlit("");
    }
    assert(out@ =~= body_of(*d));
    out
}

/// One connector's status and configuration.
#[derive(Debug)]
pub struct ConnectorDetailView {
    pub name: String,
    pub title: String,
    pub detail: Option<ConnectorDetail>,
    pub body_display: String,
    pub detail_scroll: usize,
    pub show_help: bool,
}

impl ConnectorDetailView {
    pub fn new(name: &str) -> (r: ConnectorDetailView)
        ensures
            r.name@ == name@,
            r.title@ == "Connector: "@ + name@,
            r.detail is None,
            r.body_display@.len() == 0,
            r.detail_scroll == 0,
            !r.show_help,
    {
        let mut title = String::from_str("Connector: ");
        title.append(name);
        ConnectorDetailView {
            name: String::from_str(name),
            title,
            detail: None,
            body_display: String::new(),
            detail_scroll: 0,
            show_help: false,
        }
    }

    /// Shows a connector's detail, from the top.
    pub fn set_detail(&mut self, detail: ConnectorDetail)
        ensures
            final(self).detail == Some(detail),
            final(self).body_display@ == body_of(detail),
            final(self).detail_scroll == 0,
            final(self).name == old(self).name,
            final(self).title == old(self).title,
            final(self).show_help == old(self).show_help,
    {
        self.body_display = format_body(&detail);
        self.detail_scroll = 0;
        self.detail = Some(detail);
    }

    pub fn scroll_detail_down(&mut self, lines: usize)
        ensures
            *final(self) == (ConnectorDetailView {
                detail_scroll: (if old(self).detail_scroll + lines <= usize::MAX { old(self).detail_scroll + lines } else { usize::MAX as int }) as usize,
                ..*old(self)
            }),
    {
        self.detail_scroll = self.detail_scroll.saturating_add(lines);
    }

    pub fn scroll_detail_up(&mut self, lines: usize)
        ensures
            *final(self) == (ConnectorDetailView {
                detail_scroll: (if old(self).detail_scroll >= lines { old(self).detail_scroll - lines } else { 0 }) as usize,
                ..*old(self)
            }),
    {
        self.detail_scroll = self.detail_scroll.saturating_sub(lines);
    }
}

} // verus!
