//! The screens of the explorer and what each shows: the rows of the list
//! screens, the label filter of the topic list, the cursor-driven lookups,
//! and the stack of open screens.

use vstd::prelude::*;

use crate::acl::{utf8_len, utf8_size, AclEntry};
use crate::config::{cluster_entries, AppConfig, AuthConfig, ClusterConfig, ScramMechanism};
use crate::keyed::{lemma_lookup_at, lookup};
use crate::connect::ConnectorSummary;
use crate::kafka::{ConsumerGroupInfo, GroupOffset, TopicInfo};
use crate::messages::{ConnectorDetailView, MessagesView, SchemaDetailView};
use crate::labels::{format_labels, labels_of, store_wf, TopicLabelStore};
use crate::registry::SchemaSubjectSummary;
use crate::table::{with_rows, without, TableView};
use crate::text::{sorted_strs, any_trimmed_piece, dec, fmt_i64, fmt_u64, fmt_usize, has_trimmed_piece, int_dec, join, join_strings, lowercase, str_eq, strs, unicode_lower};

verus! {

/// The screens, as the sidebar and the key bindings name them.
#[derive(Debug, Clone, Copy, PartialEq, Eq, Structural)]
pub enum Screen {
    Topics,
    Messages,
    Groups,
    GroupDetails,
    Labels,
    Contexts,
    Acls,
    Schemas,
    SchemaDetail,
    Connectors,
    ConnectorDetail,
}

fn strings(items: &[&str]) -> (r: Vec<String>)
    ensures
        r@.len() == items@.len(),
        forall|i: int| 0 <= i < items@.len() ==> #[trigger] r@[i]@ == items@[i]@,
{
    let mut out: Vec<String> = Vec::new();
    let mut i: usize = 0;
    while i < items.len()
        invariant
            i <= items@.len(),
            out@.len() == i,
            forall|k: int| 0 <= k < i ==> #[trigger] out@[k]@ == items@[k]@,
        decreases items.len() - i,
    {
        out.push(String::from_str(items[i]));
        i = i + 1;
    }
    out
}

// ---------- topics ----------

/// The cells of a topic row: name, labels, messages, partitions,
/// replication, whether it is internal.
pub open spec fn topic_cells(t: TopicInfo, labels: Seq<Seq<char>>) -> Seq<Seq<char>> {
    seq![
        t.name@,
        join(labels, seq![',']),
        dec(t.message_count as nat),
        dec(t.partitions as nat),
        dec(t.replication as nat),
        if t.internal { "yes"@ } else { Seq::<char>::empty() },
    ]
}

/// A label-column cell carries `label` when one of its comma-separated
/// parts, trimmed, equals the label; both compared in lower case.
pub open spec fn cell_has_label(cell: Seq<char>, label: Seq<char>) -> bool {
    has_trimmed_piece(unicode_lower(cell), ',', unicode_lower(label))
}

/// The topic rows, in topic order, with the label filter applied.
pub open spec fn topic_rows(infos: Seq<TopicInfo>, store: Seq<(Seq<char>, Seq<(Seq<char>, Seq<Seq<char>>)>)>, cluster: Seq<char>, label: Option<Seq<char>>) -> Seq<Seq<Seq<char>>>
    decreases infos.len(),
{
    if infos.len() == 0 {
        Seq::empty()
    } else {
        let rest = topic_rows(infos.drop_last(), store, cluster, label);
        let t = infos.last();
        let cells = topic_cells(t, labels_of(store, cluster, t.name@));
        match label {
            Some(l) => if cell_has_label(cells[1], l) { rest.push(cells) } else { rest },
            None => rest.push(cells),
        }
    }
}

pub open spec fn rows_view(rows: Seq<Vec<String>>) -> Seq<Seq<Seq<char>>> {
    rows.map_values(|r: Vec<String>| strs(r@))
}

pub open spec fn group_rows(s: Seq<ConsumerGroupInfo>) -> Seq<Seq<Seq<char>>> {
    s.map_values(|g: ConsumerGroupInfo| group_cells(g))
}

pub open spec fn offset_rows(s: Seq<GroupOffset>) -> Seq<Seq<Seq<char>>> {
    s.map_values(|o: GroupOffset| offset_cells(o))
}

pub open spec fn count_rows(s: Seq<(String, usize)>) -> Seq<Seq<Seq<char>>> {
    s.map_values(|c: (String, usize)| seq![c.0@, dec(c.1 as nat)])
}

pub open spec fn acl_rows(s: Seq<AclEntry>) -> Seq<Seq<Seq<char>>> {
    s.map_values(|a: AclEntry| acl_cells(a))
}

pub open spec fn schema_rows(s: Seq<SchemaSubjectSummary>) -> Seq<Seq<Seq<char>>> {
    s.map_values(|x: SchemaSubjectSummary| schema_cells(x))
}

pub open spec fn connector_rows(s: Seq<ConnectorSummary>) -> Seq<Seq<Seq<char>>> {
    s.map_values(|c: ConnectorSummary| connector_cells(c))
}

pub open spec fn context_rows(names: Seq<Seq<char>>, clusters: Seq<(String, ClusterConfig)>, active: Seq<char>) -> Seq<Seq<Seq<char>>> {
    names.map_values(|n: Seq<char>| context_cells(n, lookup(cluster_entries(clusters), n)->0, active))
}

/// The topic list.
#[derive(Debug)]
pub struct TopicsView {
    pub table: TableView,
    pub show_help: bool,
    pub topic_infos: Vec<TopicInfo>,
    /// Only topics with this label are listed.
    pub label_filter: Option<String>,
}

/// A topic list as first shown: no topics, no filter, no marks, the cursor
/// on the first row, rows markable.
pub open spec fn fresh_topics(v: TopicsView) -> bool {
    &&& v.table.title@ == "Topics"@
    &&& strs(v.table.headers@) == seq!["NAME"@, "LABELS"@, "MESSAGES"@, "PARTITIONS"@, "REPLICATION"@, "INTERNAL"@]
    &&& v.table.rows@.len() == 0
    &&& v.table.selected == Some(0usize)
    &&& v.table.filter@.len() == 0
    &&& v.table.multi_select
    &&& v.table.marked@.len() == 0
    &&& !v.show_help
    &&& v.topic_infos@.len() == 0
    &&& v.label_filter is None
}

impl TopicsView {
    /// An empty topic list, rows markable.
    pub fn new() -> (r: TopicsView)
        ensures
            fresh_topics(r),
            r.table.title@ == "Topics"@,
            strs(r.table.headers@) == seq!["NAME"@, "LABELS"@, "MESSAGES"@, "PARTITIONS"@, "REPLICATION"@, "INTERNAL"@],
            r.table.rows@.len() == 0,
            r.table.selected == Some(0usize),
            r.table.filter@.len() == 0,
            r.table.multi_select,
            r.table.marked@.len() == 0,
            !r.show_help,
            r.topic_infos@.len() == 0,
            r.label_filter is None,
    {
        let headers = strings(&["NAME", "LABELS", "MESSAGES", "PARTITIONS", "REPLICATION", "INTERNAL"]);
        assert(strs(headers@) =~= seq!["NAME"@, "LABELS"@, "MESSAGES"@, "PARTITIONS"@, "REPLICATION"@, "INTERNAL"@]);
        TopicsView {
            table: TableView::new(String::from_str("Topics"), headers).enable_multi_select(),
            show_help: false,
            topic_infos: Vec::new(),
            label_filter: None,
        }
    }

    pub fn set_label_filter(&mut self, label: Option<String>)
        ensures
            *final(self) == (TopicsView { label_filter: label, ..*old(self) }),
    {
        self.label_filter = label;
    }

    pub fn clear_label_filter(&mut self)
        ensures
            *final(self) == (TopicsView { label_filter: None, ..*old(self) }),
    {
        self.label_filter = None;
    }

    /// Shows `topics`, with their labels from `store`.
    pub fn load_with_labels(&mut self, topics: Vec<TopicInfo>, store: &TopicLabelStore, cluster: &str)
        requires
            store_wf(store@),
        ensures
            *final(self) == (TopicsView { topic_infos: topics, table: with_rows(old(self).table, final(self).table.rows), ..*old(self) }),
            final(self).topic_infos == topics,
            rows_view(final(self).table.rows@) == topic_rows(topics@, store@, cluster@, opt_view(old(self).label_filter)),
            final(self).label_filter == old(self).label_filter,
            final(self).table.filter == old(self).table.filter,
            final(self).table.marked == old(self).table.marked,
            final(self).table.multi_select == old(self).table.multi_select,
            final(self).show_help == old(self).show_help,
    {
        self.topic_infos = topics;
        self.rebuild_rows(store, cluster);
    }

    /// Rebuilds the rows after labels changed, without fetching topics.
    pub fn refresh_labels(&mut self, store: &TopicLabelStore, cluster: &str)
        requires
            store_wf(store@),
        ensures
            *final(self) == (TopicsView { table: with_rows(old(self).table, final(self).table.rows), ..*old(self) }),
            final(self).topic_infos == old(self).topic_infos,
            rows_view(final(self).table.rows@) == topic_rows(old(self).topic_infos@, store@, cluster@, opt_view(old(self).label_filter)),
            final(self).label_filter == old(self).label_filter,
            final(self).table.filter == old(self).table.filter,
            final(self).table.marked == old(self).table.marked,
            final(self).table.multi_select == old(self).table.multi_select,
            final(self).show_help == old(self).show_help,
    {
        self.rebuild_rows(store, cluster);
    }

    fn rebuild_rows(&mut self, store: &TopicLabelStore, cluster: &str)
        requires
            store_wf(store@),
        ensures
            *final(self) == (TopicsView { table: with_rows(old(self).table, final(self).table.rows), ..*old(self) }),
            final(self).topic_infos == old(self).topic_infos,
            rows_view(final(self).table.rows@) == topic_rows(old(self).topic_infos@, store@, cluster@, opt_view(old(self).label_filter)),
            final(self).label_filter == old(self).label_filter,
            final(self).table.filter == old(self).table.filter,
            final(self).table.marked == old(self).table.marked,
            final(self).table.multi_select == old(self).table.multi_select,
            final(self).show_help == old(self).show_help,
    {
        let ghost infos = self.topic_infos@;
        let ghost lf = opt_view(self.label_filter);
        let needle: Option<String> = match &self.label_filter {
            Some(l) => Some(lowercase(l.as_str())),
            None => None,
        };
        let mut rows: Vec<Vec<String>> = Vec::new();
        let mut i: usize = 0;
        while i < self.topic_infos.len()
            invariant
                i <= infos.len(),
                infos == self.topic_infos@,
                store_wf(store@),
                lf == opt_view(self.label_filter),
                match needle { Some(n) => lf matches Some(l) && n@ == unicode_lower(l), None => lf is None },
                rows_view(rows@) == topic_rows(infos.subrange(0, i as int), store@, cluster@, lf),
            decreases self.topic_infos.len() - i,
        {
            let ghost pre = infos.subrange(0, i as int);
            assert(infos.subrange(0, i + 1).drop_last() =~= pre);
            let t = &self.topic_infos[i];
            let labels = store.labels_for(cluster, t.name.as_str());
            let mut cells: Vec<String> = Vec::new();
            cells.push(t.name.clone());
            cells.push(format_labels(labels.as_slice()));
            cells.push(fmt_u64(t.message_count));
            cells.push(fmt_usize(t.partitions));
            cells.push(fmt_usize(t.replication));
            cells.push(if t.internal { String::from_str("yes") } else { String::new() });
            let ghost cv = topic_cells(*t, labels_of(store@, cluster@, t.name@));
            assert(strs(cells@) =~= cv);
            let keep = match &needle {
                Some(n) => {
                    let lc = lowercase(cells[1].as_str());
                    any_trimmed_piece(lc.as_str(), ',', n.as_str())
                },
                None => true,
            };
            let ghost before = rows_view(rows@);
            if keep {
                rows.push(cells);
                assert(rows_view(rows@) =~= before.push(cv));
            }
            i = i + 1;
        }
        assert(infos.subrange(0, i as int) =~= infos);
        self.table.set_rows(rows);
    }

    /// The topic under the cursor.
    pub fn selected_topic(&self) -> (r: Option<&String>)
        ensures
            match r {
                Some(n) => self.table.current_key() == Some(n@),
                None => self.table.current_key() is None,
            },
    {
        match self.table.selected_row() {
            Some(row) => if row.len() > 0 { Some(&row[0]) } else { None },
            None => None,
        }
    }

    /// The topics an action applies to: the marked ones, else the one under
    /// the cursor.
    pub fn target_topic_names(&self) -> (r: Vec<String>)
        ensures
            self.table.marked@.len() > 0 ==> strs(r@) == strs(self.table.marked@),
            self.table.marked@.len() == 0 ==> strs(r@) == match self.table.current_key() {
                Some(k) => seq![k],
                None => Seq::<Seq<char>>::empty(),
            },
    {
        self.table.marked_or_current_first_col()
    }

    pub fn toggle_mark(&mut self)
        ensures
            *final(self) == (TopicsView { table: final(self).table, ..*old(self) }),
            crate::table::mark_flipped(old(self).table, final(self).table),
            final(self).topic_infos == old(self).topic_infos,
            final(self).label_filter == old(self).label_filter,
            final(self).show_help == old(self).show_help,
            final(self).table.rows == old(self).table.rows,
            final(self).table.selected == old(self).table.selected,
            final(self).table.filter == old(self).table.filter,
            final(self).table.multi_select == old(self).table.multi_select,
            !old(self).table.multi_select || old(self).table.current_key() is None ==> final(self).table.marked == old(self).table.marked,
            old(self).table.multi_select && old(self).table.current_key() is Some ==> {
                let k = old(self).table.current_key()->0;
                if strs(old(self).table.marked@).contains(k) {
                    strs(final(self).table.marked@) == without(strs(old(self).table.marked@), k)
                } else {
                    strs(final(self).table.marked@) == strs(old(self).table.marked@).push(k)
                }
            },
    {
        self.table.toggle_mark();
    }

    pub fn clear_marks(&mut self)
        ensures
            *final(self) == (TopicsView { table: TableView { marked: final(self).table.marked, ..old(self).table }, ..*old(self) }),
            final(self).table.marked@.len() == 0,
            final(self).table.rows == old(self).table.rows,
            final(self).table.selected == old(self).table.selected,
            final(self).topic_infos == old(self).topic_infos,
            final(self).label_filter == old(self).label_filter,
    {
        self.table.clear_marks();
    }
}

pub open spec fn opt_view(o: Option<String>) -> Option<Seq<char>> {
    match o {
        Some(s) => Some(s@),
        None => None,
    }
}

// ---------- consumer groups ----------

pub open spec fn group_cells(g: ConsumerGroupInfo) -> Seq<Seq<char>> {
    seq![g.id@, g.state@, dec(g.members as nat), g.protocol@, g.protocol_type@]
}

/// The consumer group list.
#[derive(Debug)]
pub struct GroupsView {
    pub table: TableView,
    pub show_help: bool,
    pub groups: Vec<ConsumerGroupInfo>,
}

/// Entry `i` is the first of `groups` with id `id`.
pub open spec fn first_group_match(groups: Seq<ConsumerGroupInfo>, id: Seq<char>, i: int) -> bool {
    &&& 0 <= i < groups.len()
    &&& groups[i].id@ == id
    &&& forall|j: int| 0 <= j < i ==> (#[trigger] groups[j]).id@ != id
}

/// The group of the row under the cursor: the first entry with its id.
pub open spec fn group_under_cursor(v: GroupsView) -> Option<ConsumerGroupInfo> {
    match v.table.current_key() {
        None => None,
        Some(id) => if exists|i: int| first_group_match(v.groups@, id, i) {
            Some(v.groups@[choose|i: int| first_group_match(v.groups@, id, i)])
        } else {
            None
        },
    }
}

proof fn lemma_group_under_cursor(v: GroupsView, id: Seq<char>, i: int)
    requires
        v.table.current_key() == Some(id),
        first_group_match(v.groups@, id, i),
    ensures
        group_under_cursor(v) == Some(v.groups@[i]),
{
    let c = choose|c: int| first_group_match(v.groups@, id, c);
    assert(first_group_match(v.groups@, id, c));
    if c < i {
        assert(v.groups@[c].id@ != id);
    } else if c > i {
        assert(v.groups@[i].id@ != id);
    }
}

impl GroupsView {
    pub fn new() -> (r: GroupsView)
        ensures
            r.table.title@ == "Consumer groups"@,
            strs(r.table.headers@) == seq!["GROUP"@, "STATE"@, "MEMBERS"@, "PROTOCOL"@, "TYPE"@],
            r.table.rows@.len() == 0,
            r.table.selected == Some(0usize),
            r.table.filter@.len() == 0,
            r.groups@.len() == 0,
            !r.show_help,
    {
        let headers = strings(&["GROUP", "STATE", "MEMBERS", "PROTOCOL", "TYPE"]);
        assert(strs(headers@) =~= seq!["GROUP"@, "STATE"@, "MEMBERS"@, "PROTOCOL"@, "TYPE"@]);
        GroupsView { table: TableView::new(String::from_str("Consumer groups"), headers), show_help: false, groups: Vec::new() }
    }

    /// Shows the groups, one row each.
    pub fn load(&mut self, groups: Vec<ConsumerGroupInfo>)
        ensures
            *final(self) == (GroupsView { groups, table: with_rows(old(self).table, final(self).table.rows), ..*old(self) }),
            final(self).groups == groups,
            rows_view(final(self).table.rows@) == group_rows(groups@),
            final(self).table.filter == old(self).table.filter,
            final(self).show_help == old(self).show_help,
    {
        let mut rows: Vec<Vec<String>> = Vec::new();
        let mut i: usize = 0;
        while i < groups.len()
            invariant
                i <= groups@.len(),
                rows_view(rows@) == group_rows(groups@.subrange(0, i as int)),
            decreases groups.len() - i,
        {
            let g = &groups[i];
            let mut cells: Vec<String> = Vec::new();
            cells.push(g.id.clone());
            cells.push(g.state.clone());
            cells.push(fmt_usize(g.members));
            cells.push(g.protocol.clone());
            cells.push(g.protocol_type.clone());
            assert(strs(cells@) =~= group_cells(*g));
            let ghost before = rows_view(rows@);
            assert(groups@.subrange(0, i + 1) =~= groups@.subrange(0, i as int).push(*g));
            rows.push(cells);
            assert(rows_view(rows@) =~= before.push(group_cells(*g)));
            i = i + 1;
            assert(rows_view(rows@) =~= group_rows(groups@.subrange(0, i as int)));
        }
        assert(groups@.subrange(0, i as int) =~= groups@);
        self.groups = groups;
        self.table.set_rows(rows);
    }

    /// The id of the group under the cursor.
    pub fn selected_id(&self) -> (r: Option<&String>)
        ensures
            match r {
                Some(n) => self.table.current_key() == Some(n@),
                None => self.table.current_key() is None,
            },
    {
        match self.table.selected_row() {
            Some(row) => if row.len() > 0 { Some(&row[0]) } else { None },
            None => None,
        }
    }

    /// The group under the cursor: the first listed with its id.
    pub fn selected_group(&self) -> (r: Option<&ConsumerGroupInfo>)
        ensures
            match r {
                Some(g) => group_under_cursor(*self) == Some(*g),
                None => group_under_cursor(*self) is None,
            },
            match r {
                Some(g) => self.table.current_key() == Some(g.id@) && self.groups@.contains(*g)
                    && exists|i: int| 0 <= i < self.groups@.len() && self.groups@[i] == *g
                        && forall|j: int| 0 <= j < i ==> (#[trigger] self.groups@[j]).id@ != g.id@,
                None => self.table.current_key() is None
                    || forall|j: int| 0 <= j < self.groups@.len() ==> Some((#[trigger] self.groups@[j]).id@) != self.table.current_key(),
            },
    {
        let id = match self.selected_id() {
            Some(id) => id,
            None => return None,
        };
        let mut i: usize = 0;
        while i < self.groups.len()
            invariant
                i <= self.groups@.len(),
                self.table.current_key() == Some(id@),
                forall|j: int| 0 <= j < i ==> (#[trigger] self.groups@[j]).id@ != id@,
            decreases self.groups.len() - i,
        {
            if str_eq(self.groups[i].id.as_str(), id.as_str()) {
                proof {
                    lemma_group_under_cursor(*self, id@, i as int);
                }
                return Some(&self.groups[i]);
            }
            i = i + 1;
        }
        None
    }
}

// ---------- one group's offsets ----------

/// The sum of the lags.
pub open spec fn total_lag(offsets: Seq<GroupOffset>) -> int
    decreases offsets.len(),
{
    if offsets.len() == 0 {
        0
    } else {
        total_lag(offsets.drop_last()) + offsets.last().lag
    }
}

/// Every running sum of the lags fits in an `i64`.
pub open spec fn lags_fit(offsets: Seq<GroupOffset>) -> bool {
    forall|k: int| 0 <= k <= offsets.len() ==> i64::MIN <= #[trigger] total_lag(offsets.subrange(0, k)) <= i64::MAX
}

/// The sum of the lags.
pub fn lag_sum(offsets: &Vec<GroupOffset>) -> (r: i64)
    requires
        lags_fit(offsets@),
    ensures
        r == total_lag(offsets@),
{
    let mut lag: i64 = 0;
    let mut i: usize = 0;
    while i < offsets.len()
        invariant
            i <= offsets@.len(),
            lags_fit(offsets@),
            lag == total_lag(offsets@.subrange(0, i as int)),
        decreases offsets.len() - i,
    {
        assert(offsets@.subrange(0, i + 1).drop_last() =~= offsets@.subrange(0, i as int));
        assert(i64::MIN <= total_lag(offsets@.subrange(0, i + 1)) <= i64::MAX);
        lag = lag + offsets[i].lag;
        i = i + 1;
    }
    assert(offsets@.subrange(0, i as int) =~= offsets@);
    lag
}

pub open spec fn offset_cells(o: GroupOffset) -> Seq<Seq<char>> {
    seq![
        o.topic@,
        int_dec(o.partition as int),
        match o.current_offset { Some(n) => int_dec(n as int), None => "—"@ },
        int_dec(o.log_end_offset as int),
        int_dec(o.lag as int),
    ]
}

/// A group's committed offsets.
#[derive(Debug)]
pub struct GroupDetailsView {
    pub group: String,
    pub state: String,
    pub members: usize,
    pub table: TableView,
    pub show_help: bool,
    pub offsets: Vec<GroupOffset>,
}

/// The offsets screen of `group` as it opens: no offsets read yet (its
/// state and member count are set apart).
pub open spec fn fresh_group_details(r: GroupDetailsView, group: Seq<char>) -> bool {
    &&& r.group@ == group
    &&& r.table.title@ == "group "@ + group
    &&& strs(r.table.headers@) == seq!["TOPIC"@, "PART"@, "CURRENT"@, "LOG-END"@, "LAG"@]
    &&& r.table.rows@.len() == 0
    &&& r.offsets@.len() == 0
    &&& !r.show_help
}

impl GroupDetailsView {
    /// The key help of the footer: in full, or the short hint.
    pub fn help_pairs(&self) -> (r: Vec<String>)
        ensures
            self.show_help ==> strs(r@) == seq!["j/k"@, "nav"@, "R"@, "reset offsets"@, "r"@, "refresh"@, "Esc"@, "back"@, "?"@, "help"@, "q"@, "quit"@],
            !self.show_help ==> strs(r@) == seq!["R"@, "reset"@, "r"@, "refresh"@, "Esc"@, "back"@, "?"@, "help"@],
    {
        if self.show_help {
            let r = strings(&["j/k", "nav", "R", "reset offsets", "r", "refresh", "Esc", "back", "?", "help", "q", "quit"]);
            assert(strs(r@) =~= seq!["j/k"@, "nav"@, "R"@, "reset offsets"@, "r"@, "refresh"@, "Esc"@, "back"@, "?"@, "help"@, "q"@, "quit"@]);
            r
        } else {
            let r = strings(&["R", "reset", "r", "refresh", "Esc", "back", "?", "help"]);
            assert(strs(r@) =~= seq!["R"@, "reset"@, "r"@, "refresh"@, "Esc"@, "back"@, "?"@, "help"@]);
            r
        }
    }

    pub fn new(group: String) -> (r: GroupDetailsView)
        ensures
            fresh_group_details(r, group@),
            r.group == group,
            r.table.title@ == "group "@ + group@,
            strs(r.table.headers@) == seq!["TOPIC"@, "PART"@, "CURRENT"@, "LOG-END"@, "LAG"@],
            r.table.rows@.len() == 0,
            r.state@.len() == 0,
            r.members == 0,
            r.offsets@.len() == 0,
            !r.show_help,
    {
        let headers = strings(&["TOPIC", "PART", "CURRENT", "LOG-END", "LAG"]);
        assert(strs(headers@) =~= seq!["TOPIC"@, "PART"@, "CURRENT"@, "LOG-END"@, "LAG"@]);
        let mut title = String::from_str("group ");
        title.append(group.as_str());
        GroupDetailsView {
            group,
            state: String::new(),
            members: 0,
            table: TableView::new(title, headers),
            show_help: false,
            offsets: Vec::new(),
        }
    }

    /// Shows the offsets; the title counts the partitions and sums the lag.
    pub fn load(&mut self, offsets: Vec<GroupOffset>)
        requires
            lags_fit(offsets@),
        ensures
            *final(self) == (GroupDetailsView { offsets, table: with_rows(TableView { title: final(self).table.title, ..old(self).table }, final(self).table.rows), ..*old(self) }),
            final(self).offsets == offsets,
            final(self).group == old(self).group,
            final(self).table.title@ == "group "@ + old(self).group@ + " · "@ + dec(offsets@.len()) + " part · total lag "@
                + int_dec(total_lag(offsets@)),
            rows_view(final(self).table.rows@) == offset_rows(offsets@),
    {
        let mut rows: Vec<Vec<String>> = Vec::new();
        let mut lag: i64 = 0;
        let mut i: usize = 0;
        while i < offsets.len()
            invariant
                i <= offsets@.len(),
                lags_fit(offsets@),
                lag == total_lag(offsets@.subrange(0, i as int)),
                rows_view(rows@) == offset_rows(offsets@.subrange(0, i as int)),
            decreases offsets.len() - i,
        {
            let o = &offsets[i];
            assert(offsets@.subrange(0, i + 1).drop_last() =~= offsets@.subrange(0, i as int));
            assert(i64::MIN <= total_lag(offsets@.subrange(0, i + 1)) <= i64::MAX);
            lag = lag + o.lag;
            let mut cells: Vec<String> = Vec::new();
            cells.push(o.topic.clone());
            cells.push(fmt_i64(o.partition as i64));
            cells.push(match o.current_offset { Some(n) => fmt_i64(n), None => String::from_str("—") });
            cells.push(fmt_i64(o.log_end_offset));
            cells.push(fmt_i64(o.lag));
            assert(strs(cells@) =~= offset_cells(*o));
            let ghost before = rows_view(rows@);
            assert(offsets@.subrange(0, i + 1) =~= offsets@.subrange(0, i as int).push(*o));
            rows.push(cells);
            assert(rows_view(rows@) =~= before.push(offset_cells(*o)));
            i = i + 1;
            assert(rows_view(rows@) =~= offset_rows(offsets@.subrange(0, i as int)));
        }
        assert(offsets@.subrange(0, i as int) =~= offsets@);
        let mut title = String::from_str("group ");
        title.append(self.group.as_str());
        title.append(" · ");
        let n = fmt_usize(offsets.len());
        title.append(n.as_str());
        title.append(" part · total lag ");
        let l = fmt_i64(lag);
        title.append(l.as_str());
        self.offsets = offsets;
        self.table.title = title;
        self.table.set_rows(rows);
    }

    pub fn set_meta(&mut self, state: String, members: usize)
        ensures
            *final(self) == (GroupDetailsView { state, members, ..*old(self) }),
    {
        self.state = state;
        self.members = members;
    }
}

// ---------- labels ----------

/// The labels of the current cluster with their topic counts.
#[derive(Debug)]
pub struct LabelListView {
    pub table: TableView,
    pub show_help: bool,
}

impl LabelListView {
    /// The key help of the footer: in full, or the short hint.
    pub fn help_pairs(&self) -> (r: Vec<String>)
        ensures
            self.show_help ==> strs(r@) == seq!["j/k"@, "nav"@, "Enter"@, "filter topics"@, "d"@, "delete label"@, "/"@, "filter"@, "1-4"@, "nav pane"@, "?"@, "help"@, "q"@, "quit"@],
            !self.show_help ==> strs(r@) == seq!["Enter"@, "topics"@, "d"@, "delete"@, "/"@, "filter"@, "?"@, "help"@],
    {
        if self.show_help {
            let r = strings(&["j/k", "nav", "Enter", "filter topics", "d", "delete label", "/", "filter", "1-4", "nav pane", "?", "help", "q", "quit"]);
            assert(strs(r@) =~= seq!["j/k"@, "nav"@, "Enter"@, "filter topics"@, "d"@, "delete label"@, "/"@, "filter"@, "1-4"@, "nav pane"@, "?"@, "help"@, "q"@, "quit"@]);
            r
        } else {
            let r = strings(&["Enter", "topics", "d", "delete", "/", "filter", "?", "help"]);
            assert(strs(r@) =~= seq!["Enter"@, "topics"@, "d"@, "delete"@, "/"@, "filter"@, "?"@, "help"@]);
            r
        }
    }

    pub fn new() -> (r: LabelListView)
        ensures
            r.table.title@ == "Labels"@,
            strs(r.table.headers@) == seq!["LABEL"@, "TOPICS"@],
            r.table.rows@.len() == 0,
            !r.show_help,
    {
        let headers = strings(&["LABEL", "TOPICS"]);
        assert(strs(headers@) =~= seq!["LABEL"@, "TOPICS"@]);
        LabelListView { table: TableView::new(String::from_str("Labels"), headers), show_help: false }
    }

    /// One row per label of `cluster` with how many times it is used,
    /// sorted by label; no rows when the count would not fit in a `usize`.
    pub fn load(&mut self, store: &TopicLabelStore, cluster: &str)
        requires
            store_wf(store@),
        ensures
            *final(self) == (LabelListView { table: with_rows(old(self).table, final(self).table.rows), ..*old(self) }),
            crate::labels::label_occurrences(crate::labels::cluster_topics(store@, cluster@)).len() <= usize::MAX ==>
                exists|counts: Seq<(String, usize)>|
                    crate::labels::label_counts(counts, crate::labels::label_occurrences(crate::labels::cluster_topics(store@, cluster@)))
                    && #[trigger] rows_view(final(self).table.rows@) == count_rows(counts),
            crate::labels::label_occurrences(crate::labels::cluster_topics(store@, cluster@)).len() > usize::MAX ==>
                final(self).table.rows@.len() == 0,
            final(self).show_help == old(self).show_help,
    {
        let mut rows: Vec<Vec<String>> = Vec::new();
        if store.label_total(cluster).is_some() {
            let counts = store.all_labels(cluster);
            let mut i: usize = 0;
            while i < counts.len()
                invariant
                    i <= counts@.len(),
                    rows_view(rows@) == count_rows(counts@.subrange(0, i as int)),
                decreases counts.len() - i,
            {
                let mut cells: Vec<String> = Vec::new();
                cells.push(counts[i].0.clone());
                cells.push(fmt_usize(counts[i].1));
                let ghost before = rows_view(rows@);
                assert(counts@.subrange(0, i + 1) =~= counts@.subrange(0, i as int).push(counts@[i as int]));
                assert(strs(cells@) =~= seq![counts@[i as int].0@, dec(counts@[i as int].1 as nat)]);
                rows.push(cells);
                assert(rows_view(rows@) =~= before.push(seq![counts@[i as int].0@, dec(counts@[i as int].1 as nat)]));
                i = i + 1;
                assert(rows_view(rows@) =~= count_rows(counts@.subrange(0, i as int)));
            }
            assert(counts@.subrange(0, i as int) =~= counts@);
            self.table.set_rows(rows);
            assert(rows_view(self.table.rows@) == count_rows(counts@));
        } else {
            self.table.set_rows(rows);
        }
    }

    /// The label under the cursor.
    pub fn selected_label(&self) -> (r: Option<&String>)
        ensures
            match r {
                Some(n) => self.table.current_key() == Some(n@),
                None => self.table.current_key() is None,
            },
    {
        match self.table.selected_row() {
            Some(row) => if row.len() > 0 { Some(&row[0]) } else { None },
            None => None,
        }
    }
}

// ---------- contexts ----------

/// How a cluster authenticates, in a word.
pub open spec fn auth_label_of(auth: AuthConfig) -> Seq<char> {
    match auth {
        AuthConfig::NoAuth => "none"@,
        AuthConfig::SaslPlain { tls, .. } => if tls { "sasl_plain+tls"@ } else { "sasl_plain"@ },
        AuthConfig::SaslScram { mechanism, tls, .. } => {
            let m = match mechanism {
                ScramMechanism::ScramSha256 => "scram256"@,
                ScramMechanism::ScramSha512 => "scram512"@,
            };
            if tls { m + "+tls"@ } else { m }
        },
        AuthConfig::Ssl { .. } => "ssl"@,
        AuthConfig::Kerberos { tls, .. } => if tls { "kerberos+tls"@ } else { "kerberos"@ },
    }
}

/// The authentication column of the context list.
pub fn auth_label(auth: &AuthConfig) -> (r: String)
    ensures
        r@ == auth_label_of(*auth),
{
    match auth {
        AuthConfig::NoAuth => String::from_str("none"),
        AuthConfig::SaslPlain { tls, .. } => if *tls { String::from_str("sasl_plain+tls") } else { String::from_str("sasl_plain") },
        AuthConfig::SaslScram { mechanism, tls, .. } => {
            let mut m = match mechanism {
                ScramMechanism::ScramSha256 => String::from_str("scram256"),
                ScramMechanism::ScramSha512 => String::from_str("scram512"),
            };
            if *tls {
                m.append("+tls");
            }
            m
        },
        AuthConfig::Ssl { .. } => String::from_str("ssl"),
        AuthConfig::Kerberos { tls, .. } => if *tls { String::from_str("kerberos+tls") } else { String::from_str("kerberos") },
    }
}

/// The longest prefix of `s` whose UTF-8 encoding takes at most `max`
/// bytes.
pub open spec fn byte_prefix(s: Seq<char>, max: int) -> Seq<char>
    decreases s.len(),
{
    if s.len() == 0 || utf8_len(s[0]) > max {
        Seq::empty()
    } else {
        seq![s[0]] + byte_prefix(s.drop_first(), max - utf8_len(s[0]))
    }
}

/// The broker column: the list cut to 45 bytes and an ellipsis when it is
/// longer than 48 bytes.
pub open spec fn brokers_cell(s: Seq<char>) -> Seq<char> {
    if utf8_size(s) > 48 { byte_prefix(s, 45) + "…"@ } else { s }
}

proof fn lemma_utf8_size_split(s: Seq<char>, i: int)
    requires
        0 <= i <= s.len(),
    ensures
        utf8_size(s) == utf8_size(s.subrange(0, i)) + utf8_size(s.subrange(i, s.len() as int)),
    decreases s.len(),
{
    if i < s.len() {
        lemma_utf8_size_split(s.drop_last(), i);
        assert(s.drop_last().subrange(0, i) =~= s.subrange(0, i));
        assert(s.subrange(i, s.len() as int).drop_last() =~= s.drop_last().subrange(i, s.len() - 1));
    } else {
        assert(s.subrange(0, i) =~= s);
        assert(s.subrange(i, s.len() as int) =~= Seq::<char>::empty());
    }
}

fn char_utf8_len(c: char) -> (r: usize)
    ensures
        r == utf8_len(c),
{
    let u = c as u32;
    if u < 0x80 { 1 } else if u < 0x800 { 2 } else if u < 0x10000 { 3 } else { 4 }
}

/// The broker column of a cluster (see `brokers_cell`).
pub fn brokers_column(brokers: &str) -> (r: String)
    ensures
        r@ == brokers_cell(brokers@),
{
    let cs = crate::text::chars_of(brokers);
    let n = cs.len();
    let mut total: usize = 0;
    let mut i: usize = 0;
    while i < n && total <= 48
        invariant
            n == cs@.len(),
            cs@ == brokers@,
            i <= n,
            total == utf8_size(cs@.subrange(0, i as int)),
            total <= 52,
        decreases n - i,
    {
        assert(cs@.subrange(0, i + 1).drop_last() =~= cs@.subrange(0, i as int));
        total = total + char_utf8_len(cs[i]);
        i = i + 1;
    }
    proof {
        lemma_utf8_size_split(cs@, i as int);
        if i == n {
            assert(cs@.subrange(0, i as int) =~= brokers@);
        }
    }
    if total <= 48 {
        return String::from_str(brokers);
    }
    // The longest prefix of at most 45 bytes.
    assert(cs@.subrange(0, n as int) =~= cs@);
    let mut out: Vec<char> = Vec::new();
    let mut used: usize = 0;
    let mut k: usize = 0;
    while k < n && used + char_utf8_len(cs[k]) <= 45
        invariant
            n == cs@.len(),
            k <= n,
            used <= 45,
            out@ == cs@.subrange(0, k as int),
            byte_prefix(cs@, 45) == out@ + byte_prefix(cs@.subrange(k as int, n as int), 45 - used),
        decreases n - k,
    {
        let ghost rest = cs@.subrange(k as int, n as int);
        assert(rest.drop_first() =~= cs@.subrange(k + 1, n as int));
        assert(rest[0] == cs@[k as int]);
        used = used + char_utf8_len(cs[k]);
        out.push(cs[k]);
        k = k + 1;
        assert(out@ =~= cs@.subrange(0, k as int));
        assert(byte_prefix(cs@, 45) =~= out@ + byte_prefix(cs@.subrange(k as int, n as int), 45 - used));
    }
    proof {
        let rest = cs@.subrange(k as int, n as int);
        if k < n {
            assert(rest[0] == cs@[k as int]);
        }
        assert(byte_prefix(rest, 45 - used) =~= Seq::<char>::empty());
        assert(byte_prefix(cs@, 45) =~= out@);
        assert(cs@.subrange(0, 0) =~= Seq::<char>::empty());
    }
    let mut s = crate::text::string_from_chars(out.as_slice());
    s.append("…");
    s
}

/// The cells of a context row: name, `*` for the active cluster, brokers,
/// authentication.
pub open spec fn context_cells(name: Seq<char>, c: ClusterConfig, active: Seq<char>) -> Seq<Seq<char>> {
    seq![
        name,
        if name == active { "*"@ } else { Seq::<char>::empty() },
        brokers_cell(join(strs(c.brokers@), ","@)),
        auth_label_of(c.auth),
    ]
}

/// The configured clusters.
#[derive(Debug)]
pub struct ContextListView {
    pub table: TableView,
    pub show_help: bool,
}

impl ContextListView {
    pub fn new() -> (r: ContextListView)
        ensures
            r.table.title@ == "Contexts"@,
            strs(r.table.headers@) == seq!["CONTEXT"@, Seq::<char>::empty(), "BROKERS"@, "AUTH"@],
            r.table.rows@.len() == 0,
            !r.show_help,
    {
        let mut headers: Vec<String> = Vec::new();
        headers.push(String::from_str("CONTEXT"));
        headers.push(String::new());
        headers.push(String::from_str("BROKERS"));
        headers.push(String::from_str("AUTH"));
        assert(strs(headers@) =~= seq!["CONTEXT"@, Seq::<char>::empty(), "BROKERS"@, "AUTH"@]);
        ContextListView { table: TableView::new(String::from_str("Contexts"), headers), show_help: false }
    }

    /// One row per cluster in name order; the cursor goes to the active
    /// one.
    pub fn load(&mut self, config: &AppConfig, active: &str)
        requires
            config.wf(),
        ensures
            *final(self) == (ContextListView { table: TableView { selected: final(self).table.selected, ..with_rows(old(self).table, final(self).table.rows) }, ..*old(self) }),
            exists|names: Seq<Seq<char>>| #![trigger names.to_multiset()]
                sorted_strs(names) && names.to_multiset() == config.names().to_multiset()
                && rows_view(final(self).table.rows@) == context_rows(names, config.clusters@, active@),
            match first_active(rows_view(final(self).table.rows@)) {
                Some(i) => final(self).table.selected == Some(i as usize),
                None => final(self).table.selected == old(self).table.selected
                    || (old(self).table.selected is None && final(self).table.selected == Some(0usize)),
            },
            final(self).show_help == old(self).show_help,
    {
        let names = config.cluster_names();
        let ghost nv = strs(names@);
        let mut rows: Vec<Vec<String>> = Vec::new();
        let mut i: usize = 0;
        while i < names.len()
            invariant
                i <= names@.len(),
                nv == strs(names@),
                config.wf(),
                nv.to_multiset() == config.names().to_multiset(),
                rows_view(rows@) == context_rows(nv.subrange(0, i as int), config.clusters@, active@),
            decreases names.len() - i,
        {
            let name = &names[i];
            proof {
                broadcast use vstd::seq_lib::group_to_multiset_ensures;
                assert(nv[i as int] == name@);
                assert(nv.contains(name@));
                assert(nv.to_multiset().count(name@) > 0);
                assert(config.names().to_multiset().count(name@) > 0);
                assert(config.names().contains(name@));
                let j = choose|j: int| 0 <= j < config.names().len() && config.names()[j] == name@;
                assert(cluster_entries(config.clusters@)[j].0 == name@);
                assert(crate::keyed::has_key(cluster_entries(config.clusters@), name@));
            }
            let idx = config.find_cluster(name.as_str());
            let ci = match idx {
                Some(ci) => ci,
                None => {
                    return;
                },
            };
            proof {
                lemma_lookup_at(cluster_entries(config.clusters@), ci as int);
            }
            let c = &config.clusters[ci].1;
            let mut cells: Vec<String> = Vec::new();
            cells.push(name.clone());
            cells.push(if str_eq(name.as_str(), active) { String::from_str("*") } else { String::new() });
            let joined = join_strings(c.brokers.as_slice(), ",");
            cells.push(brokers_column(joined.as_str()));
            cells.push(auth_label(&c.auth));
            proof {
                reveal_strlit("");
            }
            assert(strs(cells@) =~= context_cells(name@, lookup(cluster_entries(config.clusters@), name@)->0, active@));
            let ghost before = rows_view(rows@);
            assert(nv.subrange(0, i + 1) =~= nv.subrange(0, i as int).push(name@));
            rows.push(cells);
            assert(rows_view(rows@) =~= before.push(context_cells(name@, lookup(cluster_entries(config.clusters@), name@)->0, active@)));
            i = i + 1;
            assert(rows_view(rows@) =~= context_rows(nv.subrange(0, i as int), config.clusters@, active@));
        }
        assert(nv.subrange(0, i as int) =~= nv);
        let found = active_row(&rows);
        self.table.set_rows(rows);
        if let Some(k) = found {
            self.table.selected = Some(k);
        }
    }

    /// The cluster name under the cursor.
    pub fn selected_context(&self) -> (r: Option<String>)
        ensures
            match r {
                Some(n) => self.table.current_key() == Some(n@),
                None => self.table.current_key() is None,
            },
    {
        match self.table.selected_row() {
            Some(row) => if row.len() > 0 { Some(row[0].clone()) } else { None },
            None => None,
        }
    }
}

/// Index of the first row marked as the active cluster.
fn active_row(rows: &Vec<Vec<String>>) -> (r: Option<usize>)
    ensures
        match first_active(rows_view(rows@)) {
            Some(i) => r == Some(i as usize),
            None => r is None,
        },
{
    let mut k: usize = 0;
    while k < rows.len()
        invariant
            k <= rows@.len(),
            forall|j: int| 0 <= j < k ==> !is_active_row(#[trigger] rows_view(rows@)[j]),
        decreases rows.len() - k,
    {
        let row = &rows[k];
        proof {
            reveal_strlit("*");
        }
        let hit = row.len() > 1 && str_eq(row[1].as_str(), "*");
        assert(hit == is_active_row(rows_view(rows@)[k as int]));
        if hit {
            proof {
                lemma_first_active(rows_view(rows@), k as int);
            }
            return Some(k);
        }
        k = k + 1;
    }
    proof {
        lemma_no_active(rows_view(rows@));
    }
    None
}

/// A row marked as the active cluster.
pub open spec fn is_active_row(row: Seq<Seq<char>>) -> bool {
    row.len() > 1 && row[1] == "*"@
}

/// Index of the first row marked as the active cluster.
pub open spec fn first_active(rows: Seq<Seq<Seq<char>>>) -> Option<int> {
    if exists|i: int| 0 <= i < rows.len() && is_active_row(#[trigger] rows[i]) {
        Some(choose|i: int| 0 <= i < rows.len() && is_active_row(#[trigger] rows[i])
            && forall|j: int| 0 <= j < i ==> !is_active_row(#[trigger] rows[j]))
    } else {
        None
    }
}

proof fn lemma_first_active(rows: Seq<Seq<Seq<char>>>, k: int)
    requires
        0 <= k < rows.len(),
        is_active_row(rows[k]),
        forall|j: int| 0 <= j < k ==> !is_active_row(#[trigger] rows[j]),
    ensures
        first_active(rows) == Some(k),
{
    let i = choose|i: int| 0 <= i < rows.len() && is_active_row(#[trigger] rows[i])
        && forall|j: int| 0 <= j < i ==> !is_active_row(#[trigger] rows[j]);
    if i < k {
        assert(!is_active_row(rows[i]));
    } else if i > k {
        assert(!is_active_row(rows[k]));
    }
}

proof fn lemma_no_active(rows: Seq<Seq<Seq<char>>>)
    requires
        forall|j: int| 0 <= j < rows.len() ==> !is_active_row(#[trigger] rows[j]),
    ensures
        first_active(rows) is None,
{
}

// ---------- ACLs ----------

pub open spec fn acl_cells(a: AclEntry) -> Seq<Seq<char>> {
    seq![a.resource_type@, a.resource_name@, a.pattern_type@, a.principal@, a.host@, a.operation@, a.permission@]
}

/// The ACL list.
#[derive(Debug)]
pub struct AclsView {
    pub table: TableView,
    pub show_help: bool,
    pub acls: Vec<AclEntry>,
}

/// The ACL shown by a row: every column but the host agrees (the first
/// such entry is taken).
pub open spec fn acl_matches_row(a: AclEntry, row: Seq<Seq<char>>) -> bool {
    &&& row.len() > 0
    &&& a.resource_type@ == row[0]
    &&& a.resource_name@ == (if row.len() > 1 { row[1] } else { Seq::<char>::empty() })
    &&& a.pattern_type@ == (if row.len() > 2 { row[2] } else { Seq::<char>::empty() })
    &&& a.principal@ == (if row.len() > 3 { row[3] } else { Seq::<char>::empty() })
    &&& a.operation@ == (if row.len() > 5 { row[5] } else { Seq::<char>::empty() })
    &&& a.permission@ == (if row.len() > 6 { row[6] } else { Seq::<char>::empty() })
}

fn cell_or_empty(row: &Vec<String>, i: usize) -> (r: &str)
    ensures
        r@ == if i < row@.len() { row@[i as int]@ } else { Seq::<char>::empty() },
{
    if i < row.len() {
        row[i].as_str()
    } else {
        proof {
            reveal_strlit("");
        }
        ""
    }
}

/// Entry `i` is the first of `acls` that row `row` shows.
pub open spec fn first_acl_match(acls: Seq<AclEntry>, row: Seq<Seq<char>>, i: int) -> bool {
    &&& 0 <= i < acls.len()
    &&& acl_matches_row(acls[i], row)
    &&& forall|j: int| 0 <= j < i ==> !acl_matches_row(#[trigger] acls[j], row)
}

/// The ACL shown by the row under the cursor: the first entry that row
/// shows.
pub open spec fn acl_under_cursor(v: AclsView) -> Option<AclEntry> {
    match v.table.selected_row_index() {
        None => None,
        Some(ri) => {
            let row = strs(v.table.rows@[ri]@);
            if exists|i: int| first_acl_match(v.acls@, row, i) {
                Some(v.acls@[choose|i: int| first_acl_match(v.acls@, row, i)])
            } else {
                None
            }
        },
    }
}

impl AclsView {
    pub fn new() -> (r: AclsView)
        ensures
            r.table.title@ == "ACLs"@,
            strs(r.table.headers@) == seq!["TYPE"@, "RESOURCE"@, "PATTERN"@, "PRINCIPAL"@, "HOST"@, "OP"@, "PERM"@],
            r.table.rows@.len() == 0,
            r.acls@.len() == 0,
            !r.show_help,
    {
        let headers = strings(&["TYPE", "RESOURCE", "PATTERN", "PRINCIPAL", "HOST", "OP", "PERM"]);
        assert(strs(headers@) =~= seq!["TYPE"@, "RESOURCE"@, "PATTERN"@, "PRINCIPAL"@, "HOST"@, "OP"@, "PERM"@]);
        AclsView { table: TableView::new(String::from_str("ACLs"), headers), show_help: false, acls: Vec::new() }
    }

    /// Shows the ACLs, one row each.
    pub fn load(&mut self, acls: Vec<AclEntry>)
        ensures
            *final(self) == (AclsView { acls, table: with_rows(old(self).table, final(self).table.rows), ..*old(self) }),
            final(self).acls == acls,
            rows_view(final(self).table.rows@) == acl_rows(acls@),
            final(self).show_help == old(self).show_help,
    {
        let mut rows: Vec<Vec<String>> = Vec::new();
        let mut i: usize = 0;
        while i < acls.len()
            invariant
                i <= acls@.len(),
                rows_view(rows@) == acl_rows(acls@.subrange(0, i as int)),
            decreases acls.len() - i,
        {
            let a = &acls[i];
            let mut cells: Vec<String> = Vec::new();
            cells.push(a.resource_type.clone());
            cells.push(a.resource_name.clone());
            cells.push(a.pattern_type.clone());
            cells.push(a.principal.clone());
            cells.push(a.host.clone());
            cells.push(a.operation.clone());
            cells.push(a.permission.clone());
            assert(strs(cells@) =~= acl_cells(*a));
            let ghost before = rows_view(rows@);
            assert(acls@.subrange(0, i + 1) =~= acls@.subrange(0, i as int).push(*a));
            rows.push(cells);
            assert(rows_view(rows@) =~= before.push(acl_cells(*a)));
            i = i + 1;
            assert(rows_view(rows@) =~= acl_rows(acls@.subrange(0, i as int)));
        }
        assert(acls@.subrange(0, i as int) =~= acls@);
        self.acls = acls;
        self.table.set_rows(rows);
    }

    /// The ACL under the cursor.
    pub fn selected_acl(&self) -> (r: Option<&AclEntry>)
        ensures
            match r {
                Some(a) => acl_under_cursor(*self) == Some(*a),
                None => acl_under_cursor(*self) is None,
            },
            match self.table.selected_row_index() {
                None => r is None,
                Some(ri) => match r {
                    Some(a) => exists|i: int| 0 <= i < self.acls@.len() && self.acls@[i] == *a
                        && acl_matches_row(*a, strs(self.table.rows@[ri]@))
                        && forall|j: int| 0 <= j < i ==> !acl_matches_row(#[trigger] self.acls@[j], strs(self.table.rows@[ri]@)),
                    None => forall|j: int| 0 <= j < self.acls@.len() ==> !acl_matches_row(#[trigger] self.acls@[j], strs(self.table.rows@[ri]@)),
                },
            },
    {
        let row = match self.table.selected_row() {
            Some(row) => row,
            None => return None,
        };
        let ghost rv = strs(row@);
        assert(rv == strs(self.table.rows@[self.table.selected_row_index()->0]@));
        if row.len() == 0 {
            assert(rv.len() == 0);
            return None;
        }
        let t = row[0].as_str();
        let n = cell_or_empty(row, 1);
        let p = cell_or_empty(row, 2);
        let pr = cell_or_empty(row, 3);
        let op = cell_or_empty(row, 5);
        let pe = cell_or_empty(row, 6);
        let mut i: usize = 0;
        while i < self.acls.len()
            invariant
                i <= self.acls@.len(),
                rv == strs(row@),
                rv.len() > 0,
                t@ == rv[0],
                n@ == (if rv.len() > 1 { rv[1] } else { Seq::<char>::empty() }),
                p@ == (if rv.len() > 2 { rv[2] } else { Seq::<char>::empty() }),
                pr@ == (if rv.len() > 3 { rv[3] } else { Seq::<char>::empty() }),
                op@ == (if rv.len() > 5 { rv[5] } else { Seq::<char>::empty() }),
                pe@ == (if rv.len() > 6 { rv[6] } else { Seq::<char>::empty() }),
                self.table.selected_row_index() is Some,
                rv == strs(self.table.rows@[self.table.selected_row_index()->0]@),
                forall|j: int| 0 <= j < i ==> !acl_matches_row(#[trigger] self.acls@[j], rv),
            decreases self.acls.len() - i,
        {
            let a = &self.acls[i];
            if str_eq(a.resource_type.as_str(), t) && str_eq(a.resource_name.as_str(), n) && str_eq(a.pattern_type.as_str(), p)
                && str_eq(a.principal.as_str(), pr) && str_eq(a.operation.as_str(), op) && str_eq(a.permission.as_str(), pe)
            {
                assert(acl_matches_row(self.acls@[i as int], rv));
                proof {
                    assert(first_acl_match(self.acls@, rv, i as int));
                    let c = choose|c: int| first_acl_match(self.acls@, rv, c);
                    if c > i {
                        assert(!acl_matches_row(self.acls@[i as int], rv));
                    }
                }
                return Some(a);
            }
            i = i + 1;
        }
        None
    }
}

// ---------- schemas ----------

pub open spec fn schema_cells(s: SchemaSubjectSummary) -> Seq<Seq<char>> {
    seq![s.subject@, int_dec(s.latest_version as int), dec(s.version_count as nat), s.schema_type@]
}

/// The Schema Registry subjects.
#[derive(Debug)]
pub struct SchemasView {
    pub table: TableView,
    pub show_help: bool,
    pub subjects: Vec<SchemaSubjectSummary>,
}

impl SchemasView {
    /// The key help of the footer: in full, or the short hint.
    pub fn help_pairs(&self) -> (r: Vec<String>)
        ensures
            self.show_help ==> strs(r@) == seq!["j/k"@, "nav"@, "Enter"@, "schema"@, "/"@, "filter"@, "r"@, "refresh"@, "Esc"@, "back"@, "?"@, "help"@, "q"@, "quit"@],
            !self.show_help ==> strs(r@) == seq!["Enter"@, "detail"@, "/"@, "filter"@, "r"@, "refresh"@, "?"@, "help"@],
    {
        if self.show_help {
            let r = strings(&["j/k", "nav", "Enter", "schema", "/", "filter", "r", "refresh", "Esc", "back", "?", "help", "q", "quit"]);
            assert(strs(r@) =~= seq!["j/k"@, "nav"@, "Enter"@, "schema"@, "/"@, "filter"@, "r"@, "refresh"@, "Esc"@, "back"@, "?"@, "help"@, "q"@, "quit"@]);
            r
        } else {
            let r = strings(&["Enter", "detail", "/", "filter", "r", "refresh", "?", "help"]);
            assert(strs(r@) =~= seq!["Enter"@, "detail"@, "/"@, "filter"@, "r"@, "refresh"@, "?"@, "help"@]);
            r
        }
    }

    pub fn new() -> (r: SchemasView)
        ensures
            r.table.title@ == "Schemas"@,
            strs(r.table.headers@) == seq!["SUBJECT"@, "LATEST"@, "VERSIONS"@, "TYPE"@],
            r.table.rows@.len() == 0,
            r.subjects@.len() == 0,
            !r.show_help,
    {
        let headers = strings(&["SUBJECT", "LATEST", "VERSIONS", "TYPE"]);
        assert(strs(headers@) =~= seq!["SUBJECT"@, "LATEST"@, "VERSIONS"@, "TYPE"@]);
        SchemasView { table: TableView::new(String::from_str("Schemas"), headers), show_help: false, subjects: Vec::new() }
    }

    /// Shows the subjects, one row each.
    pub fn load(&mut self, subjects: Vec<SchemaSubjectSummary>)
        ensures
            *final(self) == (SchemasView { subjects, table: with_rows(old(self).table, final(self).table.rows), ..*old(self) }),
            final(self).subjects == subjects,
            rows_view(final(self).table.rows@) == schema_rows(subjects@),
            final(self).show_help == old(self).show_help,
    {
        let mut rows: Vec<Vec<String>> = Vec::new();
        let mut i: usize = 0;
        while i < subjects.len()
            invariant
                i <= subjects@.len(),
                rows_view(rows@) == schema_rows(subjects@.subrange(0, i as int)),
            decreases subjects.len() - i,
        {
            let x = &subjects[i];
            let mut cells: Vec<String> = Vec::new();
            cells.push(x.subject.clone());
            cells.push(fmt_i64(x.latest_version as i64));
            cells.push(fmt_usize(x.version_count));
            cells.push(x.schema_type.clone());
            assert(strs(cells@) =~= schema_cells(*x));
            let ghost before = rows_view(rows@);
            assert(subjects@.subrange(0, i + 1) =~= subjects@.subrange(0, i as int).push(*x));
            rows.push(cells);
            assert(rows_view(rows@) =~= before.push(schema_cells(*x)));
            i = i + 1;
            assert(rows_view(rows@) =~= schema_rows(subjects@.subrange(0, i as int)));
        }
        assert(subjects@.subrange(0, i as int) =~= subjects@);
        self.subjects = subjects;
        self.table.set_rows(rows);
    }

    /// The subject under the cursor.
    pub fn selected_subject(&self) -> (r: Option<&String>)
        ensures
            match r {
                Some(n) => self.table.current_key() == Some(n@),
                None => self.table.current_key() is None,
            },
    {
        match self.table.selected_row() {
            Some(row) => if row.len() > 0 { Some(&row[0]) } else { None },
            None => None,
        }
    }

    /// The summary of the subject under the cursor.
    pub fn selected_summary(&self) -> (r: Option<&SchemaSubjectSummary>)
        ensures
            match r {
                Some(x) => self.table.current_key() == Some(x.subject@) && self.subjects@.contains(*x),
                None => self.table.current_key() is None
                    || forall|j: int| 0 <= j < self.subjects@.len() ==> Some((#[trigger] self.subjects@[j]).subject@) != self.table.current_key(),
            },
    {
        let name = match self.selected_subject() {
            Some(n) => n,
            None => return None,
        };
        let mut i: usize = 0;
        while i < self.subjects.len()
            invariant
                i <= self.subjects@.len(),
                self.table.current_key() == Some(name@),
                forall|j: int| 0 <= j < i ==> (#[trigger] self.subjects@[j]).subject@ != name@,
            decreases self.subjects.len() - i,
        {
            if str_eq(self.subjects[i].subject.as_str(), name.as_str()) {
                assert(self.subjects@[i as int] == self.subjects@[i as int]);
                return Some(&self.subjects[i]);
            }
            i = i + 1;
        }
        None
    }
}

// ---------- connectors ----------

/// The task column: running of total, and the failed ones when any.
pub open spec fn tasks_cell(c: ConnectorSummary) -> Seq<char> {
    if c.tasks_failed > 0 {
        dec(c.tasks_running as nat) + "/"@ + dec(c.tasks_total as nat) + " ("@ + dec(c.tasks_failed as nat) + " failed)"@
    } else {
        dec(c.tasks_running as nat) + "/"@ + dec(c.tasks_total as nat)
    }
}

pub open spec fn connector_cells(c: ConnectorSummary) -> Seq<Seq<char>> {
    seq![c.name@, c.kind@, c.state@, tasks_cell(c)]
}

/// The Kafka Connect connectors.
#[derive(Debug)]
pub struct ConnectorsView {
    pub table: TableView,
    pub show_help: bool,
    pub connectors: Vec<ConnectorSummary>,
}

impl ConnectorsView {
    pub fn new() -> (r: ConnectorsView)
        ensures
            r.table.title@ == "Connectors"@,
            strs(r.table.headers@) == seq!["NAME"@, "TYPE"@, "STATE"@, "TASKS"@],
            r.table.rows@.len() == 0,
            r.connectors@.len() == 0,
            !r.show_help,
    {
        let headers = strings(&["NAME", "TYPE", "STATE", "TASKS"]);
        assert(strs(headers@) =~= seq!["NAME"@, "TYPE"@, "STATE"@, "TASKS"@]);
        ConnectorsView { table: TableView::new(String::from_str("Connectors"), headers), show_help: false, connectors: Vec::new() }
    }

    /// Shows the connectors, one row each.
    pub fn load(&mut self, connectors: Vec<ConnectorSummary>)
        ensures
            *final(self) == (ConnectorsView { connectors, table: with_rows(old(self).table, final(self).table.rows), ..*old(self) }),
            final(self).connectors == connectors,
            rows_view(final(self).table.rows@) == connector_rows(connectors@),
            final(self).show_help == old(self).show_help,
    {
        let mut rows: Vec<Vec<String>> = Vec::new();
        let mut i: usize = 0;
        while i < connectors.len()
            invariant
                i <= connectors@.len(),
                rows_view(rows@) == connector_rows(connectors@.subrange(0, i as int)),
            decreases connectors.len() - i,
        {
            let c = &connectors[i];
            let mut tasks = fmt_usize(c.tasks_running);
            tasks.append("/");
            let total = fmt_usize(c.tasks_total);
            tasks.append(total.as_str());
            if c.tasks_failed > 0 {
                tasks.append(" (");
                let failed = fmt_usize(c.tasks_failed);
                tasks.append(failed.as_str());
                tasks.append(" failed)");
            }
            let mut cells: Vec<String> = Vec::new();
            cells.push(c.name.clone());
            cells.push(c.kind.clone());
            cells.push(c.state.clone());
            cells.push(tasks);
            assert(strs(cells@) =~= connector_cells(*c));
            let ghost before = rows_view(rows@);
            assert(connectors@.subrange(0, i + 1) =~= connectors@.subrange(0, i as int).push(*c));
            rows.push(cells);
            assert(rows_view(rows@) =~= before.push(connector_cells(*c)));
            i = i + 1;
            assert(rows_view(rows@) =~= connector_rows(connectors@.subrange(0, i as int)));
        }
        assert(connectors@.subrange(0, i as int) =~= connectors@);
        self.connectors = connectors;
        self.table.set_rows(rows);
    }

    /// The connector under the cursor.
    pub fn selected_name(&self) -> (r: Option<&String>)
        ensures
            match r {
                Some(n) => self.table.current_key() == Some(n@),
                None => self.table.current_key() is None,
            },
    {
        match self.table.selected_row() {
            Some(row) => if row.len() > 0 { Some(&row[0]) } else { None },
            None => None,
        }
    }
}

// ---------- the stack of open screens ----------

/// An open screen with its state.
#[derive(Debug)]
pub enum ViewStack {
    Topics(TopicsView),
    Messages(MessagesView),
    Groups(GroupsView),
    GroupDetails(GroupDetailsView),
    Labels(LabelListView),
    Contexts(ContextListView),
    Acls(AclsView),
    Schemas(SchemasView),
    SchemaDetail(SchemaDetailView),
    Connectors(ConnectorsView),
    ConnectorDetail(ConnectorDetailView),
}

/// The screen a view shows.
pub open spec fn screen_of(v: ViewStack) -> Screen {
    match v {
        ViewStack::Topics(_) => Screen::Topics,
        ViewStack::Messages(_) => Screen::Messages,
        ViewStack::Groups(_) => Screen::Groups,
        ViewStack::GroupDetails(_) => Screen::GroupDetails,
        ViewStack::Labels(_) => Screen::Labels,
        ViewStack::Contexts(_) => Screen::Contexts,
        ViewStack::Acls(_) => Screen::Acls,
        ViewStack::Schemas(_) => Screen::Schemas,
        ViewStack::SchemaDetail(_) => Screen::SchemaDetail,
        ViewStack::Connectors(_) => Screen::Connectors,
        ViewStack::ConnectorDetail(_) => Screen::ConnectorDetail,
    }
}

/// The sidebar entry of a screen: a drill-down shows under the list it
/// came from.
pub open spec fn root_of(s: Screen) -> Screen {
    match s {
        Screen::Messages => Screen::Topics,
        Screen::GroupDetails => Screen::Groups,
        Screen::SchemaDetail => Screen::Schemas,
        Screen::ConnectorDetail => Screen::Connectors,
        other => other,
    }
}

/// The screens the sidebar lists.
pub open spec fn is_root_screen(s: Screen) -> bool {
    match s {
        Screen::Topics | Screen::Groups | Screen::Labels | Screen::Contexts | Screen::Acls | Screen::Schemas
        | Screen::Connectors => true,
        _ => false,
    }
}

impl ViewStack {
    pub fn screen(&self) -> (r: Screen)
        ensures
            r == screen_of(*self),
    {
        match self {
            ViewStack::Topics(_) => Screen::Topics,
            ViewStack::Messages(_) => Screen::Messages,
            ViewStack::Groups(_) => Screen::Groups,
            ViewStack::GroupDetails(_) => Screen::GroupDetails,
            ViewStack::Labels(_) => Screen::Labels,
            ViewStack::Contexts(_) => Screen::Contexts,
            ViewStack::Acls(_) => Screen::Acls,
            ViewStack::Schemas(_) => Screen::Schemas,
            ViewStack::SchemaDetail(_) => Screen::SchemaDetail,
            ViewStack::Connectors(_) => Screen::Connectors,
            ViewStack::ConnectorDetail(_) => Screen::ConnectorDetail,
        }
    }

    /// The sidebar entry to highlight.
    pub fn root_screen(&self) -> (r: Screen)
        ensures
            r == root_of(screen_of(*self)),
    {
        match self {
            ViewStack::Messages(_) => Screen::Topics,
            ViewStack::GroupDetails(_) => Screen::Groups,
            ViewStack::SchemaDetail(_) => Screen::Schemas,
            ViewStack::ConnectorDetail(_) => Screen::Connectors,
            other => other.screen(),
        }
    }

    /// Whether the view is one of the sidebar's lists.
    pub fn is_root_nav(&self) -> (r: bool)
        ensures
            r == is_root_screen(screen_of(*self)),
    {
        match self {
            ViewStack::Topics(_) | ViewStack::Groups(_) | ViewStack::Labels(_) | ViewStack::Contexts(_)
            | ViewStack::Acls(_) | ViewStack::Schemas(_) | ViewStack::Connectors(_) => true,
            _ => false,
        }
    }

    /// The view's title.
    pub fn title(&self) -> (r: &String)
        ensures
            *r == match *self {
                ViewStack::Topics(v) => v.table.title,
                ViewStack::Messages(v) => v.title,
                ViewStack::Groups(v) => v.table.title,
                ViewStack::GroupDetails(v) => v.table.title,
                ViewStack::Labels(v) => v.table.title,
                ViewStack::Contexts(v) => v.table.title,
                ViewStack::Acls(v) => v.table.title,
                ViewStack::Schemas(v) => v.table.title,
                ViewStack::SchemaDetail(v) => v.title,
                ViewStack::Connectors(v) => v.table.title,
                ViewStack::ConnectorDetail(v) => v.title,
            },
    {
        match self {
            ViewStack::Topics(v) => &v.table.title,
            ViewStack::Messages(v) => &v.title,
            ViewStack::Groups(v) => &v.table.title,
            ViewStack::GroupDetails(v) => &v.table.title,
            ViewStack::Labels(v) => &v.table.title,
            ViewStack::Contexts(v) => &v.table.title,
            ViewStack::Acls(v) => &v.table.title,
            ViewStack::Schemas(v) => &v.table.title,
            ViewStack::SchemaDetail(v) => &v.title,
            ViewStack::Connectors(v) => &v.table.title,
            ViewStack::ConnectorDetail(v) => &v.title,
        }
    }

    /// Whether the view shows its full key help.
    pub open spec fn help_shown(&self) -> bool {
        match *self {
            ViewStack::Topics(v) => v.show_help,
            ViewStack::Messages(v) => v.show_help,
            ViewStack::Groups(v) => v.show_help,
            ViewStack::GroupDetails(v) => v.show_help,
            ViewStack::Labels(v) => v.show_help,
            ViewStack::Contexts(v) => v.show_help,
            ViewStack::Acls(v) => v.show_help,
            ViewStack::Schemas(v) => v.show_help,
            ViewStack::SchemaDetail(v) => v.show_help,
            ViewStack::Connectors(v) => v.show_help,
            ViewStack::ConnectorDetail(v) => v.show_help,
        }
    }

    pub fn show_help(&self) -> (r: bool)
        ensures
            r == self.help_shown(),
    {
        match self {
            ViewStack::Topics(v) => v.show_help,
            ViewStack::Messages(v) => v.show_help,
            ViewStack::Groups(v) => v.show_help,
            ViewStack::GroupDetails(v) => v.show_help,
            ViewStack::Labels(v) => v.show_help,
            ViewStack::Contexts(v) => v.show_help,
            ViewStack::Acls(v) => v.show_help,
            ViewStack::Schemas(v) => v.show_help,
            ViewStack::SchemaDetail(v) => v.show_help,
            ViewStack::Connectors(v) => v.show_help,
            ViewStack::ConnectorDetail(v) => v.show_help,
        }
    }

    /// Shows or hides the full key help.
    /// The view with its key help flipped between full and short.
    pub open spec fn help_toggled(self) -> ViewStack {
        match self {
            ViewStack::Topics(v) => ViewStack::Topics(TopicsView { show_help: !v.show_help, ..v }),
            ViewStack::Messages(v) => ViewStack::Messages(MessagesView { show_help: !v.show_help, ..v }),
            ViewStack::Groups(v) => ViewStack::Groups(GroupsView { show_help: !v.show_help, ..v }),
            ViewStack::GroupDetails(v) => ViewStack::GroupDetails(GroupDetailsView { show_help: !v.show_help, ..v }),
            ViewStack::Labels(v) => ViewStack::Labels(LabelListView { show_help: !v.show_help, ..v }),
            ViewStack::Contexts(v) => ViewStack::Contexts(ContextListView { show_help: !v.show_help, ..v }),
            ViewStack::Acls(v) => ViewStack::Acls(AclsView { show_help: !v.show_help, ..v }),
            ViewStack::Schemas(v) => ViewStack::Schemas(SchemasView { show_help: !v.show_help, ..v }),
            ViewStack::SchemaDetail(v) => ViewStack::SchemaDetail(SchemaDetailView { show_help: !v.show_help, ..v }),
            ViewStack::Connectors(v) => ViewStack::Connectors(ConnectorsView { show_help: !v.show_help, ..v }),
            ViewStack::ConnectorDetail(v) => ViewStack::ConnectorDetail(ConnectorDetailView { show_help: !v.show_help, ..v }),
        }
    }

    /// Flipping the key help twice gives the screen back as it was.
    pub proof fn law_help_toggle_twice(self)
        ensures
            self.help_toggled().help_toggled() == self,
            self.help_toggled().help_shown() == !self.help_shown(),
    {
    }

    pub fn toggle_help(&mut self)
        ensures
            *final(self) == old(self).help_toggled(),
            screen_of(*final(self)) == screen_of(*old(self)),
            final(self).help_shown() == !old(self).help_shown(),
    {
        match self {
            ViewStack::Topics(v) => v.show_help = !v.show_help,
            ViewStack::Messages(v) => v.show_help = !v.show_help,
            ViewStack::Groups(v) => v.show_help = !v.show_help,
            ViewStack::GroupDetails(v) => v.show_help = !v.show_help,
            ViewStack::Labels(v) => v.show_help = !v.show_help,
            ViewStack::Contexts(v) => v.show_help = !v.show_help,
            ViewStack::Acls(v) => v.show_help = !v.show_help,
            ViewStack::Schemas(v) => v.show_help = !v.show_help,
            ViewStack::SchemaDetail(v) => v.show_help = !v.show_help,
            ViewStack::Connectors(v) => v.show_help = !v.show_help,
            ViewStack::ConnectorDetail(v) => v.show_help = !v.show_help,
        }
    }
}

} // verus!
