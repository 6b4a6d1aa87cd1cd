//! Replies of background work: each fills the screen it was asked for, when
//! that screen is still shown, and says on the status line how it went.

use vstd::prelude::*;

use crate::acl::AclEntry;
use crate::app::{cat, cat3, copy_topics, App, Effect, WorkerMsg};
use crate::config::{clamp_live_poll_secs, clamp_spec};
use crate::connect::{ConnectorDetail, ConnectorSummary};
use crate::kafka::{msgs_sorted, next_offset_of, ConsumerGroupInfo, FetchedMessage, GroupOffset, TopicInfo};
use crate::messages::{body_of, first_copies, live_kept, merged_next, position_count, schema_display_of, MessagesView};
use crate::order::{ranked_sorted, sort_ranked};
use crate::registry::{SchemaSubjectSummary, SchemaVersionDetail};
use crate::table::with_rows;
use crate::text::{contains, contains_seq, dec, fmt_i32, fmt_i64, fmt_u64, fmt_usize, int_dec, starts_with, str_eq};
use crate::views::{
    acl_rows, connector_rows, group_rows, lag_sum, lags_fit, opt_view, rows_view, schema_rows, topic_rows, total_lag,
    AclsView, ConnectorsView, GroupsView, SchemasView, Screen, TopicsView, ViewStack,
};

verus! {

/// Only the shown screen, the status line and the loading flag differ.
pub open spec fn top_and_status(a: App, b: App) -> bool {
    &&& b.stack@.len() == a.stack@.len()
    &&& b.stack@.drop_last() == a.stack@.drop_last()
    &&& b == (App { stack: b.stack, status: b.status, loading: b.loading, ..a })
}

/// The poll interval shown on the status line while following.
pub open spec fn poll_secs(a: App) -> int {
    clamp_spec(a.config.defaults.live_poll_secs as int, 1, 30)
}

/// `s` starts with `p`.
pub open spec fn begins(s: Seq<char>, p: Seq<char>) -> bool {
    p.len() <= s.len() && s.subrange(0, p.len() as int) == p
}

/// The status line after a live read: the messages shown, those added
/// when there are any, and the poll interval.
pub open spec fn live_status(total: nat, added: nat, secs: int) -> Seq<char> {
    "live · "@ + dec(total) + " msgs"@ + (if added > 0 { " (+"@ + dec(added) + ")"@ } else { Seq::empty() })
        + " · "@ + dec(secs as nat) + "s"@
}

pub open spec fn topics_outcome(a: App, b: App, r: Seq<Effect>, topics: Seq<TopicInfo>) -> bool {
    &&& r.len() == 0
    &&& b.cached_topics@ == topics
    &&& b.status@ == "ready"@
    &&& !b.loading
    &&& b.stack@.len() == a.stack@.len()
    &&& b.stack@.drop_last() == a.stack@.drop_last()
    &&& b == (App { stack: b.stack, status: b.status, loading: false, cached_topics: b.cached_topics, ..a })
    &&& match a.top() {
        ViewStack::Topics(v) => b.top() matches ViewStack::Topics(w) && w.topic_infos@ == topics
            && w == (TopicsView { topic_infos: w.topic_infos, table: with_rows(v.table, w.table.rows), ..v })
            && rows_view(w.table.rows@) == topic_rows(topics, a.config.topic_labels@, a.cluster_name@, opt_view(v.label_filter)),
        _ => b.top() == a.top(),
    }
}

pub open spec fn messages_outcome(a: App, b: App, r: Seq<Effect>, topic: Seq<char>, msgs: Seq<FetchedMessage>) -> bool {
    &&& r.len() == 0
    &&& !b.loading
    &&& top_and_status(a, b)
    &&& if a.top() matches ViewStack::Messages(v) && v.topic@ == topic {
        let v = a.top()->Messages_0;
        &&& b.top() matches ViewStack::Messages(w) && w.messages@ == msgs
            && w == (MessagesView { messages: w.messages, selected: w.selected, next_offsets: w.next_offsets, ..v })
            && w.selected == (if msgs.len() > 0 { Some(0usize) } else { v.selected })
            && (forall|p: i32| #[trigger] next_offset_of(w.next_offsets@, p) == merged_next(next_offset_of(v.next_offsets@, p), msgs, p))
        &&& b.status@ == if v.live {
            "live · "@ + dec(msgs.len()) + " msgs · poll "@ + dec(poll_secs(a) as nat) + "s"@
        } else {
            dec(msgs.len()) + " messages"@
        }
    } else {
        b.top() == a.top() && b.status == a.status
    }
}

pub open spec fn live_outcome(a: App, b: App, r: Seq<Effect>, topic: Seq<char>, new: Seq<FetchedMessage>) -> bool {
    &&& r.len() == 0
    &&& !b.loading
    &&& !b.live_fetch_in_flight
    &&& b.stack@.len() == a.stack@.len()
    &&& b.stack@.drop_last() == a.stack@.drop_last()
    &&& b == (App { stack: b.stack, status: b.status, loading: false, live_fetch_in_flight: false, ..a })
    &&& if a.top() matches ViewStack::Messages(v) && v.topic@ == topic && v.live {
        let v = a.top()->Messages_0;
        let all = v.messages@ + new;
        &&& b.top() matches ViewStack::Messages(w) && w.topic == v.topic && w.live
            && (new.len() == 0 ==> w == v)
            && (new.len() > 0 ==> w == (MessagesView {
                messages: w.messages, next_offsets: w.next_offsets, selected: w.selected, detail_scroll: 0, ..v })
                && msgs_sorted(w.messages@, v.partition is Some, v.sort_by_time)
                && live_kept(w.messages@, first_copies(all), v.message_limit, v.partition is Some, v.sort_by_time)
                && w.selected == (if w.messages@.len() > 0 { Some(0usize) } else { v.selected })
                && (forall|p: i32| #[trigger] next_offset_of(w.next_offsets@, p)
                    == merged_next(next_offset_of(v.next_offsets@, p), w.messages@, p)))
            && w.messages@.len() == (if new.len() == 0 { v.messages@.len() } else if position_count(all) < v.message_limit {
                position_count(all) } else { v.message_limit as nat })
            && (forall|i: int| 0 <= i < w.messages@.len() ==> all.contains(#[trigger] w.messages@[i]))
            && b.status@ == live_status(w.messages@.len(), if w.messages@.len() >= v.messages@.len() {
                (w.messages@.len() - v.messages@.len()) as nat } else { 0 }, poll_secs(a))
    } else {
        b.top() == a.top() && b.status == a.status
    }
}

/// The rows of the table a list screen shows.
pub open spec fn shown_rows(v: ViewStack) -> Seq<Seq<Seq<char>>> {
    match v {
        ViewStack::Groups(w) => rows_view(w.table.rows@),
        ViewStack::Acls(w) => rows_view(w.table.rows@),
        ViewStack::Schemas(w) => rows_view(w.table.rows@),
        ViewStack::Connectors(w) => rows_view(w.table.rows@),
        _ => Seq::empty(),
    }
}

/// List view `w` is `v` holding other items, its table showing other rows
/// (the cursor kept, or put on the first row when it had none).
pub open spec fn list_reloaded(v: ViewStack, w: ViewStack) -> bool {
    match (v, w) {
        (ViewStack::Groups(x), ViewStack::Groups(y)) =>
            y == (GroupsView { groups: y.groups, table: with_rows(x.table, y.table.rows), ..x }),
        (ViewStack::Acls(x), ViewStack::Acls(y)) =>
            y == (AclsView { acls: y.acls, table: with_rows(x.table, y.table.rows), ..x }),
        (ViewStack::Schemas(x), ViewStack::Schemas(y)) =>
            y == (SchemasView { subjects: y.subjects, table: with_rows(x.table, y.table.rows), ..x }),
        (ViewStack::Connectors(x), ViewStack::Connectors(y)) =>
            y == (ConnectorsView { connectors: y.connectors, table: with_rows(x.table, y.table.rows), ..x }),
        _ => false,
    }
}

/// A list reply for `screen`: the list fills that screen when it is shown.
pub open spec fn list_outcome(a: App, b: App, r: Seq<Effect>, screen: Screen, rows: Seq<Seq<Seq<char>>>) -> bool {
    &&& r.len() == 0
    &&& !b.loading
    &&& b.status@ == "ready"@
    &&& top_and_status(a, b)
    &&& if a.on_screen(screen) {
        b.on_screen(screen) && shown_rows(b.top()) == rows && list_reloaded(a.top(), b.top())
    } else {
        b.top() == a.top()
    }
}

/// A failed reply: the status line names the error, nothing else changes.
pub open spec fn failed_outcome(a: App, b: App, r: Seq<Effect>, text: Seq<char>) -> bool {
    &&& r.len() == 0
    &&& b.status@ == text
    &&& b == (App { status: b.status, loading: false, ..a })
}

pub open spec fn connector_outcome(a: App, b: App, r: Seq<Effect>, name: Seq<char>, d: ConnectorDetail) -> bool {
    &&& r.len() == 0
    &&& !b.loading
    &&& b.status@ == "connector "@ + name
    &&& top_and_status(a, b)
    &&& if a.top() matches ViewStack::ConnectorDetail(v) && v.name@ == name {
        b.top() matches ViewStack::ConnectorDetail(w) && w.detail == Some(d) && w.body_display@ == body_of(d)
            && w.name == a.top()->ConnectorDetail_0.name
    } else {
        b.top() == a.top()
    }
}

pub open spec fn versions_outcome(a: App, b: App, r: Seq<Effect>, subject: Seq<char>, versions: Seq<i32>) -> bool {
    &&& top_and_status(a, b)
    &&& if a.top() matches ViewStack::SchemaDetail(v) && v.subject@ == subject {
        &&& b.top() matches ViewStack::SchemaDetail(w) && w.subject == a.top()->SchemaDetail_0.subject
            && w.versions@.to_multiset() == versions.to_multiset() && ranked_sorted(w.versions@)
            && w.version_index == (if versions.len() > 0 { versions.len() - 1 } else { 0 })
        &&& versions.len() > 0 && a.has_registry() ==> b.loading && r.len() == 1
            && (r[0] matches Effect::SchemaVersion { subject: s, version } && s@ == subject
            && version == b.top()->SchemaDetail_0.versions@.last()
            && b.status@ == "loading "@ + subject + " v"@ + int_dec(version as int) + "…"@)
        &&& versions.len() > 0 && !a.has_registry() ==> r.len() == 0 && !b.loading
            && b.status@ == "schema_registry not configured"@
        &&& versions.len() == 0 ==> r.len() == 0 && !b.loading && b.status@ == "ready"@
    } else {
        b.top() == a.top() && r.len() == 0 && !b.loading && b.status@ == "ready"@
    }
}

pub open spec fn version_outcome(a: App, b: App, r: Seq<Effect>, subject: Seq<char>, version: i32, d: SchemaVersionDetail) -> bool {
    &&& r.len() == 0
    &&& !b.loading
    &&& b.status@ == subject + " v"@ + int_dec(version as int)
    &&& top_and_status(a, b)
    &&& if a.top() matches ViewStack::SchemaDetail(v) && v.subject@ == subject && v.version_index < v.versions@.len()
        && v.versions@[v.version_index as int] == version {
        b.top() matches ViewStack::SchemaDetail(w) && w.detail == Some(d) && w.schema_display@ == schema_display_of(d.schema@)
            && w.subject == a.top()->SchemaDetail_0.subject && w.versions == a.top()->SchemaDetail_0.versions
    } else {
        b.top() == a.top()
    }
}

pub open spec fn offsets_outcome(a: App, b: App, r: Seq<Effect>, group: Seq<char>, info: ConsumerGroupInfo, offsets: Seq<GroupOffset>) -> bool {
    &&& r.len() == 0
    &&& !b.loading
    &&& b.status@ == group + " · "@ + info.state@ + " · "@ + dec(offsets.len()) + " part · total lag "@ + int_dec(total_lag(offsets))
    &&& top_and_status(a, b)
    &&& if a.top() matches ViewStack::GroupDetails(v) && v.group@ == group {
        b.top() matches ViewStack::GroupDetails(w) && w.offsets@ == offsets && w.state == info.state
            && w.members == info.members && w.group == a.top()->GroupDetails_0.group
    } else {
        b.top() == a.top()
    }
}

/// Work asked for after an operation (`doing` on the status line), or
/// refused with `refused` when `able` fails; the loading flag was cleared.
pub open spec fn op_reload(a: App, b: App, r: Seq<Effect>, able: bool, doing: Seq<char>, work: Effect, refused: Seq<char>) -> bool {
    &&& b == (App { loading: b.loading, status: b.status, ..a })
    &&& able ==> b.loading && b.status@ == doing && r == seq![work]
    &&& !able ==> !b.loading && b.status@ == refused && r.len() == 0
}

/// What the success message `msg` of an operation does: it goes on the
/// status line, and the screen shown reloads when the operation changed
/// what it lists.
pub open spec fn op_outcome(a: App, b: App, r: Seq<Effect>, msg: Seq<char>) -> bool {
    let produced = begins(msg, "produced"@);
    let topic_op = begins(msg, "created topic"@) || begins(msg, "deleted topic"@);
    let group_op = begins(msg, "deleted group"@);
    let reset = begins(msg, "reset offsets"@);
    let acl_op = contains_seq(msg, "ACL"@);
    let connect_op = contains_seq(msg, "connector"@);
    let deleted_connector = contains_seq(msg, "deleted connector"@);
    if a.on_screen(Screen::Topics) && (topic_op || produced) {
        if a.connected {
            op_reload(a, b, r, true, "loading topics…"@, Effect::ListTopics, msg)
        } else {
            b.status@ == msg && r.len() == 1 && r[0] is Connect && b == (App { status: b.status, loading: false, ..a })
        }
    } else if a.on_screen(Screen::Messages) && produced {
        let v = a.top()->Messages_0;
        op_reload(a, b, r, a.connected, "loading messages for "@ + v.topic@ + "…"@, Effect::FetchMessages {
            topic: v.topic, partition: v.partition, limit: v.message_limit, from_end: v.from_end, sort_by_time: v.sort_by_time,
        }, msg)
    } else if a.on_screen(Screen::Groups) && (group_op || reset) {
        op_reload(a, b, r, a.connected, "loading consumer groups…"@, Effect::ListGroups, "not connected"@)
    } else if a.on_screen(Screen::GroupDetails) && reset {
        let g = a.top()->GroupDetails_0.group;
        op_reload(a, b, r, a.connected, "loading offsets for "@ + g@ + "…"@, Effect::GroupOffsets { group: g }, "not connected"@)
    } else if a.on_screen(Screen::Acls) && acl_op {
        op_reload(a, b, r, a.connected, "loading ACLs…"@, Effect::ListAcls, "not connected"@)
    } else if a.on_screen(Screen::Connectors) && connect_op {
        op_reload(a, b, r, a.has_connect(), "loading connectors…"@, Effect::ListConnectors,
            "kafka_connect not configured — add [clusters.<name>.kafka_connect]"@)
    } else if a.on_screen(Screen::ConnectorDetail) && connect_op {
        let name = a.top()->ConnectorDetail_0.name;
        if deleted_connector {
            &&& a.has_connect() ==> r == seq![Effect::ListConnectors]
            &&& !a.has_connect() ==> r.len() == 0
            &&& b.loading == a.has_connect()
            &&& a.stack@.len() > 1 ==> b.stack@ == a.stack@.drop_last() && b.status@ == "ready"@
                && b == (App { stack: b.stack, loading: b.loading, status: b.status, live_fetch_in_flight: false,
                    last_live_poll: None, ..a })
            &&& a.stack@.len() <= 1 ==> b == (App { loading: b.loading, status: b.status, ..a })
                && b.status@ == if a.has_connect() { "loading connectors…"@ } else {
                    "kafka_connect not configured — add [clusters.<name>.kafka_connect]"@ }
        } else {
            &&& b == (App { loading: b.loading, status: b.status, ..a })
            &&& a.has_connect() ==> b.loading && b.status@ == "reloading "@ + name@ + "…"@
                && r == seq![Effect::ListConnectors, Effect::ConnectorDetail { name }]
            &&& !a.has_connect() ==> !b.loading && b.status@ == "kafka_connect not configured"@ && r.len() == 0
        }
    } else {
        r.len() == 0 && b.status@ == msg && b == (App { status: b.status, loading: false, ..a })
    }
}

/// What a reply of background work does.
pub open spec fn worker_outcome(a: App, b: App, r: Seq<Effect>, msg: WorkerMsg) -> bool {
    match msg {
        WorkerMsg::Topics(Ok(ts)) => topics_outcome(a, b, r, ts@),
        WorkerMsg::Topics(Err(e)) => failed_outcome(a, b, r, "topics error: "@ + e@),
        WorkerMsg::Messages { topic, result: Ok(ms) } => messages_outcome(a, b, r, topic@, ms@),
        WorkerMsg::Messages { result: Err(e), .. } => failed_outcome(a, b, r, "messages error: "@ + e@),
        WorkerMsg::MessagesProgress { topic, done, total } => r.len() == 0 && top_and_status(a, b) && b.stack == a.stack
            && b.loading == a.loading && if a.top() matches ViewStack::Messages(v) && v.topic@ == topic@ {
                b.status@ == "loading messages for "@ + topic@ + "… "@ + dec(done as nat) + "/"@ + dec(total as nat)
            } else {
                b.status == a.status
            },
        WorkerMsg::LiveMessages { topic, result: Ok(ms) } => live_outcome(a, b, r, topic@, ms@),
        WorkerMsg::LiveMessages { result: Err(e), .. } => r.len() == 0 && b.status@ == "live error: "@ + e@
            && b == (App { status: b.status, loading: false, live_fetch_in_flight: false, ..a }),
        WorkerMsg::Groups(Ok(gs)) => list_outcome(a, b, r, Screen::Groups, group_rows(gs@))
            && (a.on_screen(Screen::Groups) ==> b.top()->Groups_0.groups == gs),
        WorkerMsg::Groups(Err(e)) => failed_outcome(a, b, r, "groups error: "@ + e@),
        WorkerMsg::GroupOffsets { group, result: Ok((info, offs)) } => offsets_outcome(a, b, r, group@, info, offs@),
        WorkerMsg::GroupOffsets { result: Err(e), .. } => failed_outcome(a, b, r, "offsets error: "@ + e@),
        WorkerMsg::Acls(Ok(acls)) => list_outcome(a, b, r, Screen::Acls, acl_rows(acls@))
            && (a.on_screen(Screen::Acls) ==> b.top()->Acls_0.acls == acls),
        WorkerMsg::Acls(Err(e)) => failed_outcome(a, b, r, "ACL error: "@ + e@),
        WorkerMsg::Schemas(Ok(ss)) => list_outcome(a, b, r, Screen::Schemas, schema_rows(ss@))
            && (a.on_screen(Screen::Schemas) ==> b.top()->Schemas_0.subjects == ss),
        WorkerMsg::Schemas(Err(e)) => failed_outcome(a, b, r, "schema registry error: "@ + e@),
        WorkerMsg::Connectors(Ok(cs)) => list_outcome(a, b, r, Screen::Connectors, connector_rows(cs@))
            && (a.on_screen(Screen::Connectors) ==> b.top()->Connectors_0.connectors == cs),
        WorkerMsg::Connectors(Err(e)) => failed_outcome(a, b, r, "kafka connect error: "@ + e@),
        WorkerMsg::ConnectorDetail { name, result: Ok(d) } => connector_outcome(a, b, r, name@, d),
        WorkerMsg::ConnectorDetail { result: Err(e), .. } => failed_outcome(a, b, r, "connector error: "@ + e@),
        WorkerMsg::SchemaVersions { subject, result: Ok(vs) } => versions_outcome(a, b, r, subject@, vs@),
        WorkerMsg::SchemaVersions { result: Err(e), .. } => failed_outcome(a, b, r, "schema versions error: "@ + e@),
        WorkerMsg::SchemaVersion { subject, version, result: Ok(d) } => version_outcome(a, b, r, subject@, version, d),
        WorkerMsg::SchemaVersion { result: Err(e), .. } => failed_outcome(a, b, r, "schema error: "@ + e@),
        WorkerMsg::Op(Ok(m)) => op_outcome(a, b, r, m@),
        WorkerMsg::Op(Err(e)) => failed_outcome(a, b, r, "error: "@ + e@),
    }
}

/// The lag sums of an offsets reply fit in an `i64`.
pub open spec fn worker_msg_ok(msg: WorkerMsg) -> bool {
    msg matches WorkerMsg::GroupOffsets { result: Ok((_, offs)), .. } ==> lags_fit(offs@)
}

fn concat_effects(a: Vec<Effect>, b: Vec<Effect>) -> (r: Vec<Effect>)
    ensures
        r@ == a@ + b@,
{
    let mut r = a;
    let mut rest = b;
    let ghost all = r@ + rest@;
    while rest.len() > 0
        invariant
            r@ + rest@ == all,
        decreases rest.len(),
    {
        let ghost before = rest@;
        let e = rest.remove(0);
        r.push(e);
        assert(r@ + rest@ =~= all) by {
            assert(before =~= seq![e] + rest@);
        }
    }
    assert(r@ =~= all);
    r
}

fn fail(app: &mut App, prefix: &str, e: String) -> (r: Vec<Effect>)
    ensures
        failed_outcome(*old(app), *final(app), r@, prefix@ + e@),
{
    app.loading = false;
    app.status = cat(prefix, e.as_str());
    Vec::new()
}

impl App {
    fn topics_loaded(&mut self, topics: Vec<TopicInfo>) -> (r: Vec<Effect>)
        requires
            old(self).wf(),
        ensures
            final(self).wf(),
            topics_outcome(*old(self), *final(self), r@, topics@),
    {
        self.loading = false;
        self.cached_topics = copy_topics(&topics);
        let ghost before = self.stack@;
        let mut top = self.stack.pop().unwrap();
        if let ViewStack::Topics(v) = &mut top {
            v.load_with_labels(topics, &self.config.topic_labels, self.cluster_name.as_str());
        }
        self.stack.push(top);
        assert(self.stack@.drop_last() =~= before.drop_last());
        self.status = String::from_str("ready");
        Vec::new()
    }

    fn messages_loaded(&mut self, topic: String, msgs: Vec<FetchedMessage>) -> (r: Vec<Effect>)
        requires
            old(self).wf(),
        ensures
            final(self).wf(),
            messages_outcome(*old(self), *final(self), r@, topic@, msgs@),
    {
        self.loading = false;
        let secs = clamp_live_poll_secs(self.config.defaults.live_poll_secs);
        let ghost before = self.stack@;
        let mut top = self.stack.pop().unwrap();
        let mut status: Option<String> = None;
        if let ViewStack::Messages(v) = &mut top {
            if str_eq(v.topic.as_str(), topic.as_str()) {
                let count = fmt_usize(msgs.len());
                let live = v.live;
                v.load(msgs);
                status = Some(if live {
                    let mut s = cat3("live · ", count.as_str(), " msgs · poll ");
                    let p = fmt_u64(secs);
                    s.append(p.as_str());
                    s.append("s");
                    s
                } else {
                    cat(count.as_str(), " messages")
                });
            }
        }
        self.stack.push(top);
        assert(self.stack@.drop_last() =~= before.drop_last());
        if let Some(s) = status {
            self.status = s;
        }
        Vec::new()
    }

    fn live_loaded(&mut self, topic: String, new: Vec<FetchedMessage>) -> (r: Vec<Effect>)
        requires
            old(self).wf(),
        ensures
            final(self).wf(),
            live_outcome(*old(self), *final(self), r@, topic@, new@),
    {
        self.loading = false;
        self.live_fetch_in_flight = false;
        let secs = clamp_live_poll_secs(self.config.defaults.live_poll_secs);
        let ghost before = self.stack@;
        let mut top = self.stack.pop().unwrap();
        let mut status: Option<String> = None;
        if let ViewStack::Messages(v) = &mut top {
            if str_eq(v.topic.as_str(), topic.as_str()) && v.live {
                let single = v.partition.is_some();
                let limit = v.message_limit;
                let sort = v.sort_by_time;
                let n = v.append_live(new, limit, sort, single);
                let total = fmt_usize(v.messages.len());
                let p = fmt_u64(secs);
                let mut s = cat3("live · ", total.as_str(), " msgs");
                if n > 0 {
                    let added = fmt_usize(n);
                    s.append(" (+");
                    s.append(added.as_str());
                    s.append(")");
                }
                s.append(" · ");
                s.append(p.as_str());
                s.append("s");
                assert(s@ =~= live_status(v.messages@.len(), n as nat, secs as int));
                status = Some(s);
            }
        }
        self.stack.push(top);
        assert(self.stack@.drop_last() =~= before.drop_last());
        if let Some(s) = status {
            self.status = s;
        }
        Vec::new()
    }

    fn groups_loaded(&mut self, groups: Vec<ConsumerGroupInfo>) -> (r: Vec<Effect>)
        requires
            old(self).wf(),
        ensures
            final(self).wf(),
            list_outcome(*old(self), *final(self), r@, Screen::Groups, group_rows(groups@)),
            old(self).on_screen(Screen::Groups) ==> final(self).top()->Groups_0.groups == groups,
    {
        self.loading = false;
        let ghost before = self.stack@;
        let mut top = self.stack.pop().unwrap();
        if let ViewStack::Groups(v) = &mut top {
            v.load(groups);
        }
        self.stack.push(top);
        assert(self.stack@.drop_last() =~= before.drop_last());
        self.status = String::from_str("ready");
        Vec::new()
    }

    fn acls_loaded(&mut self, acls: Vec<AclEntry>) -> (r: Vec<Effect>)
        requires
            old(self).wf(),
        ensures
            final(self).wf(),
            list_outcome(*old(self), *final(self), r@, Screen::Acls, acl_rows(acls@)),
            old(self).on_screen(Screen::Acls) ==> final(self).top()->Acls_0.acls == acls,
    {
        self.loading = false;
        let ghost before = self.stack@;
        let mut top = self.stack.pop().unwrap();
        if let ViewStack::Acls(v) = &mut top {
            v.load(acls);
        }
        self.stack.push(top);
        assert(self.stack@.drop_last() =~= before.drop_last());
        self.status = String::from_str("ready");
        Vec::new()
    }

    fn schemas_loaded(&mut self, subjects: Vec<SchemaSubjectSummary>) -> (r: Vec<Effect>)
        requires
            old(self).wf(),
        ensures
            final(self).wf(),
            list_outcome(*old(self), *final(self), r@, Screen::Schemas, schema_rows(subjects@)),
            old(self).on_screen(Screen::Schemas) ==> final(self).top()->Schemas_0.subjects == subjects,
    {
        self.loading = false;
        let ghost before = self.stack@;
        let mut top = self.stack.pop().unwrap();
        if let ViewStack::Schemas(v) = &mut top {
            v.load(subjects);
        }
        self.stack.push(top);
        assert(self.stack@.drop_last() =~= before.drop_last());
        self.status = String::from_str("ready");
        Vec::new()
    }

    fn connectors_loaded(&mut self, list: Vec<ConnectorSummary>) -> (r: Vec<Effect>)
        requires
            old(self).wf(),
        ensures
            final(self).wf(),
            list_outcome(*old(self), *final(self), r@, Screen::Connectors, connector_rows(list@)),
            old(self).on_screen(Screen::Connectors) ==> final(self).top()->Connectors_0.connectors == list,
    {
        self.loading = false;
        let ghost before = self.stack@;
        let mut top = self.stack.pop().unwrap();
        if let ViewStack::Connectors(v) = &mut top {
            v.load(list);
        }
        self.stack.push(top);
        assert(self.stack@.drop_last() =~= before.drop_last());
        self.status = String::from_str("ready");
        Vec::new()
    }

    fn connector_loaded(&mut self, name: String, detail: ConnectorDetail) -> (r: Vec<Effect>)
        requires
            old(self).wf(),
        ensures
            final(self).wf(),
            connector_outcome(*old(self), *final(self), r@, name@, detail),
    {
        self.loading = false;
        let ghost before = self.stack@;
        let mut top = self.stack.pop().unwrap();
        if let ViewStack::ConnectorDetail(v) = &mut top {
            if str_eq(v.name.as_str(), name.as_str()) {
                v.set_detail(detail);
            }
        }
        self.stack.push(top);
        assert(self.stack@.drop_last() =~= before.drop_last());
        self.status = cat("connector ", name.as_str());
        Vec::new()
    }

    fn versions_loaded(&mut self, subject: String, versions: Vec<i32>) -> (r: Vec<Effect>)
        requires
            old(self).wf(),
        ensures
            final(self).wf(),
            versions_outcome(*old(self), *final(self), r@, subject@, versions@),
    {
        self.loading = false;
        let sorted = sort_ranked(versions);
        proof {
            vstd::seq_lib::to_multiset_len(sorted@);
            vstd::seq_lib::to_multiset_len(versions@);
        }
        let count = sorted.len();
        assert(count as int == versions@.len());
        let ghost before = self.stack@;
        let mut top = self.stack.pop().unwrap();
        let mut ver: Option<i32> = None;
        if let ViewStack::SchemaDetail(v) = &mut top {
            if str_eq(v.subject.as_str(), subject.as_str()) {
                v.set_versions(sorted);
                ver = v.current_version();
            }
        }
        self.stack.push(top);
        assert(self.stack@.drop_last() =~= before.drop_last());
        match ver {
            Some(x) => self.reload_schema_version(subject, x),
            None => {
                self.status = String::from_str("ready");
                Vec::new()
            },
        }
    }

    fn version_loaded(&mut self, subject: String, version: i32, detail: SchemaVersionDetail) -> (r: Vec<Effect>)
        requires
            old(self).wf(),
        ensures
            final(self).wf(),
            version_outcome(*old(self), *final(self), r@, subject@, version, detail),
    {
        self.loading = false;
        let ghost before = self.stack@;
        let mut top = self.stack.pop().unwrap();
        if let ViewStack::SchemaDetail(v) = &mut top {
            if str_eq(v.subject.as_str(), subject.as_str()) && v.current_version() == Some(version) {
                v.set_detail(detail);
            }
        }
        self.stack.push(top);
        assert(self.stack@.drop_last() =~= before.drop_last());
        let mut s = cat(subject.as_str(), " v");
        let n = fmt_i32(version);
        s.append(n.as_str());
        self.status = s;
        Vec::new()
    }

    fn offsets_loaded(&mut self, group: String, info: ConsumerGroupInfo, offsets: Vec<GroupOffset>) -> (r: Vec<Effect>)
        requires
            old(self).wf(),
            lags_fit(offsets@),
        ensures
            final(self).wf(),
            offsets_outcome(*old(self), *final(self), r@, group@, info, offsets@),
    {
        self.loading = false;
        let n = fmt_usize(offsets.len());
        let lag = fmt_i64(lag_sum(&offsets));
        let mut s = cat3(group.as_str(), " · ", info.state.as_str());
        s.append(" · ");
        s.append(n.as_str());
        s.append(" part · total lag ");
        s.append(lag.as_str());
        assert(s@ =~= group@ + " · "@ + info.state@ + " · "@ + dec(offsets@.len()) + " part · total lag "@
            + int_dec(total_lag(offsets@)));
        let ghost before = self.stack@;
        let mut top = self.stack.pop().unwrap();
        if let ViewStack::GroupDetails(v) = &mut top {
            if str_eq(v.group.as_str(), group.as_str()) {
                v.load(offsets);
                v.set_meta(info.state.clone(), info.members);
            }
        }
        self.stack.push(top);
        assert(self.stack@.drop_last() =~= before.drop_last());
        self.status = s;
        Vec::new()
    }

    fn progress(&mut self, topic: String, done: usize, total: usize) -> (r: Vec<Effect>)
        requires
            old(self).wf(),
        ensures
            final(self).wf(),
            r@.len() == 0,
            final(self).stack == old(self).stack,
            *final(self) == (App { status: final(self).status, ..*old(self) }),
            if old(self).top() matches crate::views::ViewStack::Messages(v) && v.topic@ == topic@ {
                final(self).status@ == "loading messages for "@ + topic@ + "… "@ + dec(done as nat) + "/"@ + dec(total as nat)
            } else {
                final(self).status == old(self).status
            },
    {
        let n = self.stack.len();
        let shown = match &self.stack[n - 1] {
            ViewStack::Messages(v) => str_eq(v.topic.as_str(), topic.as_str()),
            _ => false,
        };
        if shown {
            let mut s = cat3("loading messages for ", topic.as_str(), "… ");
            let d = fmt_usize(done);
            let t = fmt_usize(total);
            s.append(d.as_str());
            s.append("/");
            s.append(t.as_str());
            self.status = s;
        }
        Vec::new()
    }

    fn op_done(&mut self, msg: String) -> (r: Vec<Effect>)
        requires
            old(self).wf(),
        ensures
            final(self).wf(),
            op_outcome(*old(self), *final(self), r@, msg@),
    {
        self.loading = false;
        let produced = starts_with(msg.as_str(), "produced");
        let topic_op = starts_with(msg.as_str(), "created topic") || starts_with(msg.as_str(), "deleted topic");
        let group_op = starts_with(msg.as_str(), "deleted group");
        let reset = starts_with(msg.as_str(), "reset offsets");
        let acl_op = contains(msg.as_str(), "ACL");
        let connect_op = contains(msg.as_str(), "connector");
        let deleted_connector = contains(msg.as_str(), "deleted connector");
        self.status = msg;
        let n = self.stack.len();
        match &self.stack[n - 1] {
            ViewStack::Topics(_) => {
                if topic_op || produced {
                    return self.refresh_topics();
                }
            },
            ViewStack::Messages(v) => {
                if produced {
                    let t = v.topic.clone();
                    return self.reload_messages_for(t);
                }
            },
            ViewStack::Groups(_) => {
                if group_op || reset {
                    return self.refresh_groups();
                }
            },
            ViewStack::GroupDetails(v) => {
                if reset {
                    let g = v.group.clone();
                    return self.reload_group_offsets(g);
                }
            },
            ViewStack::Acls(_) => {
                if acl_op {
                    return self.refresh_acls();
                }
            },
            ViewStack::Connectors(_) => {
                if connect_op {
                    return self.refresh_connectors();
                }
            },
            ViewStack::ConnectorDetail(v) => {
                if connect_op {
                    let name = v.name.clone();
                    let r = self.refresh_connectors();
                    if deleted_connector {
                        self.pop();
                        return r;
                    } else {
                        let more = self.reload_connector_detail(name);
                        let all = concat_effects(r, more);
                        assert(old(self).has_connect() ==> all@ =~= seq![Effect::ListConnectors, Effect::ConnectorDetail {
                            name: old(self).top()->ConnectorDetail_0.name }]);
                        return all;
                    }
                }
            },
            _ => {},
        }
        Vec::new()
    }

    /// Takes the reply of background work: the loading flag clears, the
    /// screen it was for fills when still shown, and the status line says
    /// how it went; an operation's success reloads what it changed.
    pub fn on_worker_msg(&mut self, msg: WorkerMsg) -> (r: Vec<Effect>)
        requires
            old(self).wf(),
            worker_msg_ok(msg),
        ensures
            final(self).wf(),
            worker_outcome(*old(self), *final(self), r@, msg),
    {
        match msg {
            WorkerMsg::Topics(Ok(ts)) => self.topics_loaded(ts),
            WorkerMsg::Topics(Err(e)) => fail(self, "topics error: ", e),
            WorkerMsg::Messages { topic, result } => match result {
                Ok(ms) => self.messages_loaded(topic, ms),
                Err(e) => fail(self, "messages error: ", e),
            },
            WorkerMsg::MessagesProgress { topic, done, total } => self.progress(topic, done, total),
            WorkerMsg::LiveMessages { topic, result } => match result {
                Ok(ms) => self.live_loaded(topic, ms),
                Err(e) => {
                    self.live_fetch_in_flight = false;
                    fail(self, "live error: ", e)
                },
            },
            WorkerMsg::Groups(Ok(gs)) => self.groups_loaded(gs),
            WorkerMsg::Groups(Err(e)) => fail(self, "groups error: ", e),
            WorkerMsg::GroupOffsets { group, result } => match result {
                Ok((info, offs)) => self.offsets_loaded(group, info, offs),
                Err(e) => fail(self, "offsets error: ", e),
            },
            WorkerMsg::Acls(Ok(acls)) => self.acls_loaded(acls),
            WorkerMsg::Acls(Err(e)) => fail(self, "ACL error: ", e),
            WorkerMsg::Schemas(Ok(ss)) => self.schemas_loaded(ss),
            WorkerMsg::Schemas(Err(e)) => fail(self, "schema registry error: ", e),
            WorkerMsg::Connectors(Ok(cs)) => self.connectors_loaded(cs),
            WorkerMsg::Connectors(Err(e)) => fail(self, "kafka connect error: ", e),
            WorkerMsg::ConnectorDetail { name, result } => match result {
                Ok(d) => self.connector_loaded(name, d),
                Err(e) => fail(self, "connector error: ", e),
            },
            WorkerMsg::SchemaVersions { subject, result } => match result {
                Ok(vs) => self.versions_loaded(subject, vs),
                Err(e) => fail(self, "schema versions error: ", e),
            },
            WorkerMsg::SchemaVersion { subject, version, result } => match result {
                Ok(d) => self.version_loaded(subject, version, d),
                Err(e) => fail(self, "schema error: ", e),
            },
            WorkerMsg::Op(Ok(m)) => self.op_done(m),
            WorkerMsg::Op(Err(e)) => fail(self, "error: ", e),
        }
    }
}

} // verus!
