//! The explorer's state machine: the screen stack, dialogs, status line and
//! live follow, driven by keys and by the results of background work. Each
//! step returns the work to start (`Effect`); the caller performs it and
//! reports back through `on_worker_msg` and the other result handlers.

use vstd::prelude::*;

use crate::acl::{AclEntry, AclSpec};
use crate::config::{clamp_live_poll_secs, clamp_spec, clamp_watermark_parallelism, cluster_entries, AppConfig, ClusterConfig, Defaults};
use crate::connect::{ConnectorDetail, ConnectorSummary};
use crate::kafka::{next_offset_of, ConsumerGroupInfo, FetchedMessage, GroupOffset, PartitionInfo, ResetStrategy, TopicInfo};
use crate::keyed::has_key;
use crate::messages::{merged_next, ConnectorDetailView, MessagesView, SchemaDetailView};
use crate::modal::Modal;
use crate::registry::{SchemaSubjectSummary, SchemaVersionDetail};
use crate::text::{
    ascii_lower, ascii_lowercase, dec, fmt_i64, fmt_u64, fmt_usize, int_dec, join, join_strings, parse_i64,
    parse_in_range, str_eq, strip_prefix, strs, trim, trim_str,
};
use crate::table::TableView;
use crate::views::{
    AclsView, ConnectorsView, ContextListView, GroupDetailsView, GroupsView, LabelListView, SchemasView, Screen,
    TopicsView, ViewStack,
};

verus! {

// ---------- offset reset specification ----------

/// What follows `prefix` in `s`, when `s` starts with it.
pub open spec fn after_prefix(s: Seq<char>, prefix: Seq<char>) -> Option<Seq<char>> {
    if prefix.len() <= s.len() && s.subrange(0, prefix.len() as int) == prefix {
        Some(s.subrange(prefix.len() as int, s.len() as int))
    } else {
        None
    }
}

pub open spec fn either_prefix(s: Seq<char>, a: Seq<char>, b: Seq<char>) -> Option<Seq<char>> {
    match after_prefix(s, a) {
        Some(r) => Some(r),
        None => after_prefix(s, b),
    }
}

/// The reset strategy a dialog entry names: `earliest` or `latest` (any
/// letter case), `offset:N` / `offset=N`, `timestamp:MS` / `timestamp=MS` /
/// `ts:MS`; or the message explaining what is wrong.
pub open spec fn reset_spec_of(spec: Seq<char>) -> Result<ResetStrategy, Seq<char>> {
    let t = trim(spec);
    if ascii_lower(t) == "earliest"@ {
        Ok(ResetStrategy::Earliest)
    } else if ascii_lower(t) == "latest"@ {
        Ok(ResetStrategy::Latest)
    } else {
        match either_prefix(t, "offset:"@, "offset="@) {
            Some(rest) => match parse_in_range(trim(rest), true, i64::MIN as int, i64::MAX as int) {
                Some(n) => Ok(ResetStrategy::ToOffset(n as i64)),
                None => Err("invalid offset '"@ + rest + "', expected integer"@),
            },
            None => match either_prefix(t, "timestamp:"@, "timestamp="@) {
                Some(rest) => match parse_in_range(trim(rest), true, i64::MIN as int, i64::MAX as int) {
                    Some(n) => Ok(ResetStrategy::ToTimestamp(n as i64)),
                    None => Err("invalid timestamp '"@ + rest + "', expected unix millis"@),
                },
                None => match after_prefix(t, "ts:"@) {
                    Some(rest) => match parse_in_range(trim(rest), true, i64::MIN as int, i64::MAX as int) {
                        Some(n) => Ok(ResetStrategy::ToTimestamp(n as i64)),
                        None => Err("invalid timestamp '"@ + rest + "', expected unix millis"@),
                    },
                    None => Err("invalid spec '"@ + t + "'; use earliest | latest | offset:N | timestamp:UNIX_MS"@),
                },
            },
        }
    }
}

fn strip_either(s: &str, a: &str, b: &str) -> (r: Option<String>)
    ensures
        match r {
            Some(x) => either_prefix(s@, a@, b@) == Some(x@),
            None => either_prefix(s@, a@, b@) is None,
        },
{
    match strip_prefix(s, a) {
        Some(x) => Some(x),
        None => strip_prefix(s, b),
    }
}

fn quoted_error(head: &str, rest: &str, tail: &str) -> (r: String)
    ensures
        r@ == head@ + rest@ + tail@,
{
    let mut e = String::from_str(head);
    e.append(rest);
    e.append(tail);
    e
}

/// Parses an offset reset entry (see `reset_spec_of`).
pub fn parse_reset_spec(spec: &str) -> (r: Result<ResetStrategy, String>)
    ensures
        match reset_spec_of(spec@) {
            Ok(s) => r == Ok::<ResetStrategy, String>(s),
            Err(e) => r matches Err(x) && x@ == e,
        },
{
    let t = trim_str(spec);
    let lower = ascii_lowercase(t.as_str());
    if str_eq(lower.as_str(), "earliest") {
        return Ok(ResetStrategy::Earliest);
    }
    if str_eq(lower.as_str(), "latest") {
        return Ok(ResetStrategy::Latest);
    }
    if let Some(rest) = strip_either(t.as_str(), "offset:", "offset=") {
        let n = trim_str(rest.as_str());
        return match parse_i64(n.as_str()) {
            Some(v) => Ok(ResetStrategy::ToOffset(v)),
            None => Err(quoted_error("invalid offset '", rest.as_str(), "', expected integer")),
        };
    }
    let ts = match strip_either(t.as_str(), "timestamp:", "timestamp=") {
        Some(rest) => Some(rest),
        None => strip_prefix(t.as_str(), "ts:"),
    };
    if let Some(rest) = ts {
        let n = trim_str(rest.as_str());
        return match parse_i64(n.as_str()) {
            Some(v) => Ok(ResetStrategy::ToTimestamp(v)),
            None => Err(quoted_error("invalid timestamp '", rest.as_str(), "', expected unix millis")),
        };
    }
    Err(quoted_error("invalid spec '", t.as_str(), "'; use earliest | latest | offset:N | timestamp:UNIX_MS"))
}

// ---------- partitions popup ----------

/// `s` right-aligned in `width` characters.
pub open spec fn pad_left(s: Seq<char>, width: nat) -> Seq<char> {
    if s.len() < width { Seq::new((width - s.len()) as nat, |i: int| ' ') + s } else { s }
}

/// The `Debug` rendering of a list of integers with the given width: each
/// number right-aligned in it.
pub open spec fn debug_ints(v: Seq<i32>, width: nat) -> Seq<char>
    decreases v.len(),
{
    "["@ + ints_joined(v, width) + "]"@
}

pub open spec fn ints_joined(v: Seq<i32>, width: nat) -> Seq<char>
    decreases v.len(),
{
    if v.len() == 0 {
        Seq::empty()
    } else if v.len() == 1 {
        pad_left(int_dec(v[0] as int), width)
    } else {
        ints_joined(v.drop_last(), width) + ", "@ + pad_left(int_dec(v.last() as int), width)
    }
}

/// One row of the partitions popup.
pub open spec fn partition_line(p: PartitionInfo) -> Seq<char> {
    pad_left(int_dec(p.id as int), 4) + "  "@ + pad_left(int_dec(p.leader as int), 6) + "  "@
        + debug_ints(p.replicas@, 17) + "  "@ + debug_ints(p.isr@, 17)
}

fn padded(s: String, width: usize) -> (r: String)
    ensures
        r@ == pad_left(s@, width as nat),
{
    let n = s.unicode_len();
    if n >= width {
        return s;
    }
    let mut out = String::new();
    let mut i: usize = 0;
    while i < width - n
        invariant
            n < width,
            i <= width - n,
            out@ == Seq::new(i as nat, |k: int| ' '),
        decreases width - n - i,
    {
        crate::text::push_char(&mut out, ' ');
        i = i + 1;
        assert(out@ =~= Seq::new(i as nat, |k: int| ' '));
    }
    out.append(s.as_str());
    out
}

fn debug_ints_exec(v: &Vec<i32>, width: usize) -> (r: String)
    ensures
        r@ == debug_ints(v@, width as nat),
{
    let mut out = String::from_str("[");
    let ghost base = out@;
    let mut i: usize = 0;
    assert(v@.subrange(0, 0) =~= Seq::<i32>::empty());
    while i < v.len()
        invariant
            i <= v@.len(),
            out@ == base + ints_joined(v@.subrange(0, i as int), width as nat),
        decreases v.len() - i,
    {
        assert(v@.subrange(0, i + 1).drop_last() =~= v@.subrange(0, i as int));
        if i > 0 {
            out.append(", ");
        }
        let n = padded(fmt_i64(v[i] as i64), width);
        out.append(n.as_str());
        i = i + 1;
        assert(out@ =~= base + ints_joined(v@.subrange(0, i as int), width as nat));
    }
    assert(v@.subrange(0, i as int) =~= v@);
    out.append("]");
    out
}

/// The lines of the partitions popup: a header, a rule, one line per
/// partition.
pub fn format_partitions(parts: &[PartitionInfo]) -> (r: Vec<String>)
    ensures
        r@.len() == parts@.len() + 2,
        r@[0]@ == "PART  LEADER  REPLICAS           ISR"@,
        r@[1]@ == "────  ──────  ─────────────────  ─────────────────"@,
        forall|i: int| 0 <= i < parts@.len() ==> #[trigger] r@[i + 2]@ == partition_line(parts@[i]),
{
    let mut lines: Vec<String> = Vec::new();
    lines.push(String::from_str("PART  LEADER  REPLICAS           ISR"));
    lines.push(String::from_str("────  ──────  ─────────────────  ─────────────────"));
    let mut i: usize = 0;
    while i < parts.len()
        invariant
            i <= parts@.len(),
            lines@.len() == i + 2,
            lines@[0]@ == "PART  LEADER  REPLICAS           ISR"@,
            lines@[1]@ == "────  ──────  ─────────────────  ─────────────────"@,
            forall|k: int| 0 <= k < i ==> #[trigger] lines@[k + 2]@ == partition_line(parts@[k]),
        decreases parts.len() - i,
    {
        let p = &parts[i];
        let mut line = padded(fmt_i64(p.id as i64), 4);
        line.append("  ");
        let l = padded(fmt_i64(p.leader as i64), 6);
        line.append(l.as_str());
        line.append("  ");
        let rs = debug_ints_exec(&p.replicas, 17);
        line.append(rs.as_str());
        line.append("  ");
        let is = debug_ints_exec(&p.isr, 17);
        line.append(is.as_str());
        lines.push(line);
        i = i + 1;
    }
    lines
}

// ---------- events and work ----------

/// The result of background work, as the worker threads report it; errors
/// carry the full cause chain.
#[derive(Debug)]
pub enum WorkerMsg {
    Topics(Result<Vec<TopicInfo>, String>),
    Messages { topic: String, result: Result<Vec<FetchedMessage>, String> },
    MessagesProgress { topic: String, done: usize, total: usize },
    LiveMessages { topic: String, result: Result<Vec<FetchedMessage>, String> },
    Groups(Result<Vec<ConsumerGroupInfo>, String>),
    GroupOffsets { group: String, result: Result<(ConsumerGroupInfo, Vec<GroupOffset>), String> },
    Acls(Result<Vec<AclEntry>, String>),
    Schemas(Result<Vec<SchemaSubjectSummary>, String>),
    Connectors(Result<Vec<ConnectorSummary>, String>),
    ConnectorDetail { name: String, result: Result<ConnectorDetail, String> },
    SchemaVersions { subject: String, result: Result<Vec<i32>, String> },
    SchemaVersion { subject: String, version: i32, result: Result<SchemaVersionDetail, String> },
    Op(Result<String, String>),
}

/// A key press, as far as the explorer tells keys apart.
#[derive(Debug, Clone, Copy, PartialEq, Eq, Structural)]
pub enum Key {
    Char(char),
    Enter,
    Esc,
    Tab,
    Backspace,
    Up,
    Down,
    PageUp,
    PageDown,
    Other,
}

/// Work the explorer asks for; the caller performs it and reports back.
#[derive(Debug)]
pub enum Effect {
    /// Connect to the active cluster, then report with `connected`.
    Connect { fetch_watermarks: bool, parallelism: usize },
    ListTopics,
    FetchMessages { topic: String, partition: Option<i32>, limit: usize, from_end: bool, sort_by_time: bool },
    PollLive { topic: String, partition: Option<i32>, after: Vec<(i32, i64)>, max_messages: usize, sort_by_time: bool },
    /// Read the topic's partition ids, then report with `messages_opened`.
    OpenMessages { topic: String },
    /// Read the topic's partitions, then report with `partitions_shown`.
    ShowPartitions { topic: String },
    CreateTopic { name: String, partitions: i32 },
    DeleteTopic { name: String },
    Produce { topic: String, key: Option<String>, payload: String },
    ListGroups,
    GroupOffsets { group: String },
    ResetOffsets { group: String, strategy: ResetStrategy },
    DeleteGroup { group: String },
    ListAcls,
    CreateAcl { spec: AclSpec },
    DeleteAcl { spec: AclSpec },
    ReplaceAcl { old: AclSpec, new: AclSpec },
    ListSchemas,
    SchemaVersions { subject: String },
    SchemaVersion { subject: String, version: i32 },
    ListConnectors,
    ConnectorDetail { name: String },
    ConnectorRestart { name: String },
    ConnectorPause { name: String },
    ConnectorResume { name: String },
    ConnectorDelete { name: String },
    /// Write the configuration file, then report with `config_saved`.
    SaveConfig,
    /// Put the text on the clipboard, then report with `copied`.
    CopyToClipboard { text: String },
}

/// What the status line says once a save ends: the text on success, else
/// the first part, the error, and the last part.
#[derive(Debug)]
pub struct SaveNote {
    pub saved: String,
    pub failed_head: String,
    pub failed_tail: String,
    pub next: FollowUp,
}

/// The explorer.
#[derive(Debug)]
pub struct App {
    pub config: AppConfig,
    pub cluster_name: String,
    /// Index of the active cluster in `config.clusters`.
    pub cluster_index: usize,
    pub connected: bool,
    /// Open screens; the last one is shown. Never empty.
    pub stack: Vec<ViewStack>,
    pub status: String,
    pub loading: bool,
    pub should_quit: bool,
    pub modal: Option<Modal>,
    pub filter_buf: String,
    pub command_buf: String,
    pub show_partitions_popup: bool,
    pub partition_lines: Vec<String>,
    /// A live tick is waiting for its answer.
    pub live_fetch_in_flight: bool,
    /// When the last live tick started (milliseconds).
    pub last_live_poll: Option<u64>,
    /// The splash screen shows until then (milliseconds).
    pub splash_until: Option<u64>,
    /// The last topic list read, for switching screens without a refetch.
    pub cached_topics: Vec<TopicInfo>,
    pub save_note: Option<SaveNote>,
    /// The configuration file, when it is known.
    pub config_path: Option<String>,
    /// The colour palette in use.
    pub theme: crate::theme::ThemeState,
}

pub open spec fn screen_is(s: Seq<ViewStack>, sc: Screen) -> bool {
    s.len() > 0 && crate::views::screen_of(s.last()) == sc
}

fn copy_topic(t: &TopicInfo) -> (r: TopicInfo)
    ensures
        r == *t,
{
    TopicInfo {
        name: t.name.clone(),
        partitions: t.partitions,
        replication: t.replication,
        message_count: t.message_count,
        internal: t.internal,
    }
}

pub(crate) fn copy_topics(v: &Vec<TopicInfo>) -> (r: Vec<TopicInfo>)
    ensures
        r@ == v@,
{
    let mut out: Vec<TopicInfo> = Vec::new();
    let mut i: usize = 0;
    while i < v.len()
        invariant
            i <= v@.len(),
            out@ == v@.subrange(0, i as int),
        decreases v.len() - i,
    {
        out.push(copy_topic(&v[i]));
        i = i + 1;
        assert(out@ =~= v@.subrange(0, i as int));
    }
    assert(v@.subrange(0, i as int) =~= v@);
    out
}

impl App {
    /// The stack is never empty; the active cluster is the one at
    /// `cluster_index`; the configuration is well formed.
    pub open spec fn wf(&self) -> bool {
        &&& self.stack@.len() > 0
        &&& self.config.wf()
        &&& self.cluster_index < self.config.clusters@.len()
        &&& self.config.clusters@[self.cluster_index as int].0@ == self.cluster_name@
    }

    pub open spec fn top(&self) -> ViewStack {
        self.stack@.last()
    }

    pub open spec fn on_screen(&self, sc: Screen) -> bool {
        crate::views::screen_of(self.top()) == sc
    }

    /// The active cluster.
    pub fn cluster(&self) -> (r: &ClusterConfig)
        requires
            self.wf(),
        ensures
            *r == self.config.clusters@[self.cluster_index as int].1,
    {
        &self.config.clusters[self.cluster_index].1
    }

    /// The explorer on the configured active cluster, on the topic list,
    /// with a splash until `splash_until`; the status line names the
    /// configuration file (when known) and the clusters.
    pub fn new(config: AppConfig, config_path: Option<String>, splash_until: Option<u64>) -> (r: Result<App, String>)
        requires
            config.wf(),
        ensures
            match r {
                Ok(a) => a.wf() && a.on_screen(Screen::Topics) && a.stack@.len() == 1 && a.loading && !a.connected
                    && (a.stack@[0] matches ViewStack::Topics(v) && crate::views::fresh_topics(v))
                    && Some(a.cluster_name@) == config.active_name() && a.modal is None && !a.should_quit
                    && a.splash_until == splash_until && a.cached_topics@.len() == 0
                    && a.config == config && a.config_path == config_path
                    && a.cluster_index < config.clusters@.len() && config.clusters@[a.cluster_index as int].0@ == a.cluster_name@
                    && a.filter_buf@.len() == 0 && a.command_buf@.len() == 0
                    && !a.show_partitions_popup && a.partition_lines@.len() == 0
                    && !a.live_fetch_in_flight && a.last_live_poll is None && a.save_note is None
                    && a.theme.active == crate::theme::Palette::Midnight
                    && exists|names: Seq<Seq<char>>| #![trigger names.to_multiset()]
                        crate::text::sorted_strs(names) && names.to_multiset() == config.names().to_multiset()
                        && a.status@ == (match config_path { Some(p) => "config: "@ + p@ + "  "@, None => Seq::empty() })
                            + "clusters: ["@ + join(names, ", "@) + "]"@,
                Err(e) => config.active_name() is None || !has_key(cluster_entries(config.clusters@), config.active_name()->0),
            },
    {
        let (name, idx) = match config.active_cluster() {
            Ok((n, _)) => {
                let idx = match config.find_cluster(n.as_str()) {
                    Some(i) => i,
                    None => {
                        return Err(String::from_str("cluster not found"));
                    },
                };
                (n.clone(), idx)
            },
            Err(e) => {
                return Err(e);
            },
        };
        let names = config.cluster_names();
        let listed = join_strings(names.as_slice(), ", ");
        let mut status = String::new();
        if let Some(p) = &config_path {
            status.append("config: ");
            status.append(p.as_str());
            status.append("  ");
        }
        status.append("clusters: [");
        status.append(listed.as_str());
        status.append("]");
        assert(status@ =~= (match config_path { Some(p) => "config: "@ + p@ + "  "@, None => Seq::empty() })
            + "clusters: ["@ + join(strs(names@), ", "@) + "]"@);
        let mut stack: Vec<ViewStack> = Vec::new();
        stack.push(ViewStack::Topics(TopicsView::new()));
        Ok(App {
            config,
            cluster_name: name,
            cluster_index: idx,
            connected: false,
            stack,
            status,
            loading: true,
            should_quit: false,
            modal: None,
            filter_buf: String::new(),
            command_buf: String::new(),
            show_partitions_popup: false,
            partition_lines: Vec::new(),
            live_fetch_in_flight: false,
            last_live_poll: None,
            splash_until,
            cached_topics: Vec::new(),
            save_note: None,
            config_path,
            theme: crate::theme::ThemeState::new(),
        })
    }

    pub fn should_quit(&self) -> (r: bool)
        ensures
            r == self.should_quit,
    {
        self.should_quit
    }

    /// The screen shown.
    pub fn current(&self) -> (r: &ViewStack)
        requires
            self.wf(),
        ensures
            *r == self.top(),
    {
        &self.stack[self.stack.len() - 1]
    }
}

/// The effect copies `text`.
pub open spec fn copies(e: Effect, text: Seq<char>) -> bool {
    e matches Effect::CopyToClipboard { text: t } && t@ == text
}

/// `a + b` as a `String`.
pub(crate) fn cat(a: &str, b: &str) -> (r: String)
    ensures
        r@ == a@ + b@,
{
    let mut s = String::from_str(a);
    s.append(b);
    s
}

/// `a + b + c` as a `String`.
pub(crate) fn cat3(a: &str, b: &str, c: &str) -> (r: String)
    ensures
        r@ == a@ + b@ + c@,
{
    let mut s = String::from_str(a);
    s.append(b);
    s.append(c);
    s
}

/// Only the status line, the loading flag and the stack's top may differ.
pub open spec fn same_but_status(a: App, b: App) -> bool {
    &&& a.config == b.config
    &&& a.cluster_name == b.cluster_name
    &&& a.cluster_index == b.cluster_index
    &&& a.connected == b.connected
    &&& a.should_quit == b.should_quit
    &&& a.modal == b.modal
    &&& a.filter_buf == b.filter_buf
    &&& a.command_buf == b.command_buf
    &&& a.show_partitions_popup == b.show_partitions_popup
    &&& a.cached_topics == b.cached_topics
}

impl App {
    /// Asks to connect to the active cluster, with the configured topic
    /// list options (parallelism kept within 1..=64).
    pub fn init_connection(&mut self) -> (r: Vec<Effect>)
        ensures
            *final(self) == *old(self),
            r@ == seq![Effect::Connect {
                fetch_watermarks: old(self).config.defaults.fetch_watermarks,
                parallelism: clamp_spec(old(self).config.defaults.watermark_parallelism as int, 1, 64) as usize,
            }],
    {
        let mut r: Vec<Effect> = Vec::new();
        r.push(Effect::Connect {
            fetch_watermarks: self.config.defaults.fetch_watermarks,
            parallelism: clamp_watermark_parallelism(self.config.defaults.watermark_parallelism),
        });
        r
    }

    /// Reloads the topic list, connecting first when not connected.
    pub fn refresh_topics(&mut self) -> (r: Vec<Effect>)
        ensures
            !old(self).connected ==> *final(self) == *old(self) && r@.len() == 1 && r@[0] is Connect,
            old(self).connected ==> final(self).loading && final(self).status@ == "loading topics…"@
                && r@ == seq![Effect::ListTopics]
                && *final(self) == (App { loading: true, status: final(self).status, ..*old(self) }),
    {
        if !self.connected {
            return self.init_connection();
        }
        self.loading = true;
        self.status = String::from_str("loading topics…");
        let mut r: Vec<Effect> = Vec::new();
        r.push(Effect::ListTopics);
        r
    }

    /// The outcome of `Effect::Connect`: on success the topic list loads.
    pub fn connected(&mut self, result: Result<(), String>) -> (r: Vec<Effect>)
        ensures
            match result {
                Ok(_) => final(self).connected && final(self).loading && final(self).status@ == "loading topics…"@
                    && r@ == seq![Effect::ListTopics],
                Err(e) => !final(self).loading && final(self).status@ == "connect failed: "@ + e@ && r@.len() == 0
                    && final(self).connected == old(self).connected,
            },
            *final(self) == (App { connected: final(self).connected, loading: final(self).loading, status: final(self).status, ..*old(self) }),
    {
        match result {
            Ok(()) => {
                self.connected = true;
                self.status = String::from_str("connected");
                self.refresh_topics()
            },
            Err(e) => {
                self.status = cat("connect failed: ", e.as_str());
                self.loading = false;
                Vec::new()
            },
        }
    }

    /// Starts work that needs a connection: when connected, the status
    /// says what is under way and the work is asked for; otherwise the
    /// status says `not connected`.
    fn connected_work(&mut self, doing: String, work: Effect) -> (r: Vec<Effect>)
        ensures
            old(self).connected ==> final(self).loading && final(self).status == doing && r@ == seq![work],
            !old(self).connected ==> final(self).loading == old(self).loading && final(self).status@ == "not connected"@ && r@.len() == 0,
            *final(self) == (App { loading: final(self).loading, status: final(self).status, ..*old(self) }),
    {
        if !self.connected {
            self.status = String::from_str("not connected");
            return Vec::new();
        }
        self.loading = true;
        self.status = doing;
        let mut r: Vec<Effect> = Vec::new();
        r.push(work);
        r
    }

    pub fn refresh_groups(&mut self) -> (r: Vec<Effect>)
        ensures
            old(self).connected ==> final(self).loading && final(self).status@ == "loading consumer groups…"@ && r@ == seq![Effect::ListGroups],
            !old(self).connected ==> final(self).status@ == "not connected"@ && r@.len() == 0 && final(self).loading == old(self).loading,
            *final(self) == (App { loading: final(self).loading, status: final(self).status, ..*old(self) }),
    {
        self.connected_work(String::from_str("loading consumer groups…"), Effect::ListGroups)
    }

    pub fn reload_group_offsets(&mut self, group: String) -> (r: Vec<Effect>)
        ensures
            old(self).connected ==> final(self).loading && final(self).status@ == "loading offsets for "@ + group@ + "…"@
                && r@ == seq![Effect::GroupOffsets { group }],
            !old(self).connected ==> final(self).status@ == "not connected"@ && r@.len() == 0 && final(self).loading == old(self).loading,
            *final(self) == (App { loading: final(self).loading, status: final(self).status, ..*old(self) }),
    {
        let doing = cat3("loading offsets for ", group.as_str(), "…");
        self.connected_work(doing, Effect::GroupOffsets { group })
    }

    pub fn refresh_acls(&mut self) -> (r: Vec<Effect>)
        ensures
            old(self).connected ==> final(self).loading && final(self).status@ == "loading ACLs…"@ && r@ == seq![Effect::ListAcls],
            !old(self).connected ==> final(self).status@ == "not connected"@ && r@.len() == 0 && final(self).loading == old(self).loading,
            *final(self) == (App { loading: final(self).loading, status: final(self).status, ..*old(self) }),
    {
        self.connected_work(String::from_str("loading ACLs…"), Effect::ListAcls)
    }

    pub fn run_create_topic(&mut self, name: String, partitions: i32) -> (r: Vec<Effect>)
        ensures
            old(self).connected ==> final(self).loading && final(self).status@ == "creating topic "@ + name@ + "…"@
                && r@ == seq![Effect::CreateTopic { name, partitions }],
            !old(self).connected ==> final(self).status@ == "not connected"@ && r@.len() == 0 && final(self).loading == old(self).loading,
            *final(self) == (App { loading: final(self).loading, status: final(self).status, ..*old(self) }),
    {
        let doing = cat3("creating topic ", name.as_str(), "…");
        self.connected_work(doing, Effect::CreateTopic { name, partitions })
    }

    pub fn run_delete_topic(&mut self, name: String) -> (r: Vec<Effect>)
        ensures
            old(self).connected ==> final(self).loading && final(self).status@ == "deleting topic "@ + name@ + "…"@
                && r@ == seq![Effect::DeleteTopic { name }],
            !old(self).connected ==> final(self).status@ == "not connected"@ && r@.len() == 0 && final(self).loading == old(self).loading,
            *final(self) == (App { loading: final(self).loading, status: final(self).status, ..*old(self) }),
    {
        let doing = cat3("deleting topic ", name.as_str(), "…");
        self.connected_work(doing, Effect::DeleteTopic { name })
    }

    /// Produces `payload` to `topic`; a blank key means no key.
    pub fn run_produce(&mut self, topic: String, key: String, payload: String) -> (r: Vec<Effect>)
        ensures
            old(self).connected ==> final(self).loading && final(self).status@ == "producing to "@ + topic@ + "…"@
                && r@ == seq![Effect::Produce { topic, key: if trim(key@).len() == 0 { None::<String> } else { Some(key) }, payload }],
            !old(self).connected ==> final(self).status@ == "not connected"@ && r@.len() == 0 && final(self).loading == old(self).loading,
            *final(self) == (App { loading: final(self).loading, status: final(self).status, ..*old(self) }),
    {
        let doing = cat3("producing to ", topic.as_str(), "…");
        let t = trim_str(key.as_str());
        let key_opt = if t.unicode_len() == 0 { None } else { Some(key) };
        self.connected_work(doing, Effect::Produce { topic, key: key_opt, payload })
    }

    pub fn run_delete_group(&mut self, group: String) -> (r: Vec<Effect>)
        ensures
            old(self).connected ==> final(self).loading && final(self).status@ == "deleting group "@ + group@ + "…"@
                && r@ == seq![Effect::DeleteGroup { group }],
            !old(self).connected ==> final(self).status@ == "not connected"@ && r@.len() == 0 && final(self).loading == old(self).loading,
            *final(self) == (App { loading: final(self).loading, status: final(self).status, ..*old(self) }),
    {
        let doing = cat3("deleting group ", group.as_str(), "…");
        self.connected_work(doing, Effect::DeleteGroup { group })
    }

    pub fn run_reset_offsets(&mut self, group: String, strategy: ResetStrategy) -> (r: Vec<Effect>)
        ensures
            old(self).connected ==> final(self).loading && final(self).status@ == "resetting offsets for "@ + group@ + "…"@
                && r@ == seq![Effect::ResetOffsets { group, strategy }],
            !old(self).connected ==> final(self).status@ == "not connected"@ && r@.len() == 0 && final(self).loading == old(self).loading,
            *final(self) == (App { loading: final(self).loading, status: final(self).status, ..*old(self) }),
    {
        let doing = cat3("resetting offsets for ", group.as_str(), "…");
        self.connected_work(doing, Effect::ResetOffsets { group, strategy })
    }

    pub fn run_create_acl(&mut self, spec: AclSpec) -> (r: Vec<Effect>)
        ensures
            old(self).connected ==> final(self).loading && final(self).status@ == "creating ACL…"@ && r@ == seq![Effect::CreateAcl { spec }],
            !old(self).connected ==> final(self).status@ == "not connected"@ && r@.len() == 0 && final(self).loading == old(self).loading,
            *final(self) == (App { loading: final(self).loading, status: final(self).status, ..*old(self) }),
    {
        self.connected_work(String::from_str("creating ACL…"), Effect::CreateAcl { spec })
    }

    pub fn run_delete_acl(&mut self, spec: AclSpec) -> (r: Vec<Effect>)
        ensures
            old(self).connected ==> final(self).loading && final(self).status@ == "deleting ACL…"@ && r@ == seq![Effect::DeleteAcl { spec }],
            !old(self).connected ==> final(self).status@ == "not connected"@ && r@.len() == 0 && final(self).loading == old(self).loading,
            *final(self) == (App { loading: final(self).loading, status: final(self).status, ..*old(self) }),
    {
        self.connected_work(String::from_str("deleting ACL…"), Effect::DeleteAcl { spec })
    }

    pub fn run_replace_acl(&mut self, old_spec: AclSpec, new_spec: AclSpec) -> (r: Vec<Effect>)
        ensures
            old(self).connected ==> final(self).loading && final(self).status@ == "updating ACL…"@
                && r@ == seq![Effect::ReplaceAcl { old: old_spec, new: new_spec }],
            !old(self).connected ==> final(self).status@ == "not connected"@ && r@.len() == 0 && final(self).loading == old(self).loading,
            *final(self) == (App { loading: final(self).loading, status: final(self).status, ..*old(self) }),
    {
        self.connected_work(String::from_str("updating ACL…"), Effect::ReplaceAcl { old: old_spec, new: new_spec })
    }
}

/// What follows a configuration save once it is done.
#[derive(Debug, Clone, Copy, PartialEq, Eq, Structural)]
pub enum FollowUp {
    Nothing,
    ReloadMessages,
    Connect,
}

/// Leaving a drill-down screen: back to the one below it, live follow
/// stopped; the last screen stays.
pub open spec fn pop_outcome(a: App, b: App) -> bool {
    &&& a.stack@.len() <= 1 ==> b == a
    &&& a.stack@.len() > 1 ==> b.stack@ == a.stack@.drop_last()
        && b.status@ == "ready"@
        && b == (App { stack: b.stack, live_fetch_in_flight: false, last_live_poll: None, status: b.status, ..a })
}

/// The top view with message limit `limit`, when it is a message screen.
pub open spec fn with_limit(v: ViewStack, limit: usize) -> ViewStack {
    match v {
        ViewStack::Messages(w) => ViewStack::Messages(MessagesView { message_limit: limit, ..w }),
        _ => v,
    }
}

/// A new message limit: kept in the configuration (which is then saved)
/// and on the message screen shown.
pub open spec fn limit_set_outcome(a: App, b: App, r: Seq<Effect>, limit: usize) -> bool {
    &&& r == seq![Effect::SaveConfig]
    &&& b.config == (AppConfig { defaults: Defaults { message_limit: limit, ..a.config.defaults }, ..a.config })
    &&& b.stack@ == a.stack@.drop_last().push(with_limit(a.top(), limit))
    &&& b.save_note matches Some(n) && n.next == FollowUp::ReloadMessages
        && n.saved@ == "message limit → "@ + dec(limit as nat) + " (saved)"@
        && n.failed_head@ == "message limit → "@ + dec(limit as nat) + " (not saved: "@
        && n.failed_tail@ == ")"@
    &&& b == (App { config: b.config, stack: b.stack, save_note: b.save_note, ..a })
}

/// What the report of a configuration save does: the note kept for it
/// goes, the status line says whether the file was written, then the
/// pending work follows (connecting, or reading the messages again).
pub open spec fn saved_outcome(a: App, b: App, r: Seq<Effect>, result: Result<(), String>) -> bool {
    &&& b.save_note is None
    &&& a.save_note is None ==> r.len() == 0 && b == a
    &&& a.save_note matches Some(n) ==> {
        let st = match result {
            Ok(_) => n.saved@,
            Err(e) => n.failed_head@ + e@ + n.failed_tail@,
        };
        match n.next {
            FollowUp::Nothing => r.len() == 0 && b.status@ == st && b == (App { status: b.status, save_note: None, ..a }),
            FollowUp::Connect => b.status@ == st && b == (App { status: b.status, save_note: None, ..a })
                && r == seq![Effect::Connect {
                    fetch_watermarks: a.config.defaults.fetch_watermarks,
                    parallelism: clamp_spec(a.config.defaults.watermark_parallelism as int, 1, 64) as usize,
                }],
            FollowUp::ReloadMessages => if a.on_screen(Screen::Messages) && a.connected {
                let v = a.top()->Messages_0;
                &&& b.loading
                &&& b.status@ == "loading messages for "@ + v.topic@ + "…"@
                &&& r == seq![Effect::FetchMessages {
                    topic: v.topic, partition: v.partition, limit: v.message_limit, from_end: v.from_end, sort_by_time: v.sort_by_time,
                }]
                &&& b == (App { status: b.status, loading: true, save_note: None, ..a })
            } else {
                r.len() == 0 && b.status@ == st && b == (App { status: b.status, save_note: None, ..a })
            },
        }
    }
}

impl App {
    /// Asks to save the configuration; `config_saved` then reports with
    /// `saved`, or with `failed_head`, the error and `failed_tail`.
    fn save_config(&mut self, saved: String, failed_head: String, failed_tail: String, next: FollowUp) -> (r: Vec<Effect>)
        ensures
            r@ == seq![Effect::SaveConfig],
            final(self).save_note == Some(SaveNote { saved, failed_head, failed_tail, next }),
            *final(self) == (App { save_note: final(self).save_note, ..*old(self) }),
    {
        self.save_note = Some(SaveNote { saved, failed_head, failed_tail, next });
        let mut r: Vec<Effect> = Vec::new();
        r.push(Effect::SaveConfig);
        r
    }

    /// The outcome of `Effect::SaveConfig`: the status line tells whether
    /// the file was written, then the pending work follows.
    pub fn config_saved(&mut self, result: Result<(), String>) -> (r: Vec<Effect>)
        requires
            old(self).wf(),
        ensures
            final(self).wf(),
            saved_outcome(*old(self), *final(self), r@, result),
    {
        let note = match self.save_note.take() {
            Some(n) => n,
            None => {
                return Vec::new();
            },
        };
        self.status = match result {
            Ok(()) => note.saved,
            Err(e) => cat3(note.failed_head.as_str(), e.as_str(), note.failed_tail.as_str()),
        };
        match note.next {
            FollowUp::Nothing => Vec::new(),
            FollowUp::ReloadMessages => self.reload_messages(),
            FollowUp::Connect => self.init_connection(),
        }
    }

    /// The outcome of `Effect::CopyToClipboard`.
    pub fn copied(&mut self, result: Result<usize, String>)
        ensures
            match result {
                Ok(n) => final(self).status@ == "copied "@ + dec(n as nat) + " bytes to clipboard (y)"@,
                Err(e) => final(self).status@ == "copy failed: "@ + e@,
            },
            *final(self) == (App { status: final(self).status, ..*old(self) }),
    {
        self.status = match result {
            Ok(n) => {
                let c = fmt_usize(n);
                cat3("copied ", c.as_str(), " bytes to clipboard (y)")
            },
            Err(e) => cat("copy failed: ", e.as_str()),
        };
    }

    /// Reloads the messages of the message screen.
    pub fn reload_messages(&mut self) -> (r: Vec<Effect>)
        requires
            old(self).wf(),
        ensures
            final(self).wf(),
            !old(self).on_screen(Screen::Messages) || !old(self).connected ==> *final(self) == *old(self) && r@.len() == 0,
            old(self).on_screen(Screen::Messages) && old(self).connected ==> {
                let v = old(self).top()->Messages_0;
                &&& final(self).loading
                &&& final(self).status@ == "loading messages for "@ + v.topic@ + "…"@
                &&& r@ == seq![Effect::FetchMessages {
                    topic: v.topic, partition: v.partition, limit: v.message_limit, from_end: v.from_end, sort_by_time: v.sort_by_time,
                }]
                &&& *final(self) == (App { loading: true, status: final(self).status, ..*old(self) })
            },
    {
        let n = self.stack.len();
        let topic = match &self.stack[n - 1] {
            ViewStack::Messages(v) => v.topic.clone(),
            _ => {
                return Vec::new();
            },
        };
        self.reload_messages_for(topic)
    }

    /// Reads `topic` again with the settings of the message screen.
    pub fn reload_messages_for(&mut self, topic: String) -> (r: Vec<Effect>)
        requires
            old(self).wf(),
        ensures
            final(self).wf(),
            !old(self).on_screen(Screen::Messages) || !old(self).connected ==> *final(self) == *old(self) && r@.len() == 0,
            old(self).on_screen(Screen::Messages) && old(self).connected ==> {
                let v = old(self).top()->Messages_0;
                &&& final(self).loading
                &&& final(self).status@ == "loading messages for "@ + topic@ + "…"@
                &&& r@ == seq![Effect::FetchMessages {
                    topic, partition: v.partition, limit: v.message_limit, from_end: v.from_end, sort_by_time: v.sort_by_time,
                }]
                &&& *final(self) == (App { loading: true, status: final(self).status, ..*old(self) })
            },
    {
        let n = self.stack.len();
        let (partition, limit, from_end, sort_by_time) = match &self.stack[n - 1] {
            ViewStack::Messages(v) => (v.partition, v.message_limit, v.from_end, v.sort_by_time),
            _ => {
                return Vec::new();
            },
        };
        if !self.connected {
            return Vec::new();
        }
        self.loading = true;
        self.status = cat3("loading messages for ", topic.as_str(), "…");
        let mut r: Vec<Effect> = Vec::new();
        r.push(Effect::FetchMessages { topic, partition, limit, from_end, sort_by_time });
        r
    }

    /// Sets the message limit (default and current screen), saves the
    /// configuration and, once saved, reloads the messages.
    pub fn set_message_limit(&mut self, limit: usize) -> (r: Vec<Effect>)
        requires
            old(self).wf(),
        ensures
            final(self).wf(),
            limit_set_outcome(*old(self), *final(self), r@, limit),
            final(self).modal == old(self).modal,
            final(self).config.defaults.message_limit == limit,
            final(self).stack@.len() == old(self).stack@.len(),
            old(self).on_screen(Screen::Messages) ==> (final(self).top() matches ViewStack::Messages(v)
                && v.message_limit == limit && v.topic == old(self).top()->Messages_0.topic),
    {
        self.config.defaults.message_limit = limit;
        let mut top = self.stack.pop().unwrap();
        if let ViewStack::Messages(v) = &mut top {
            v.message_limit = limit;
        }
        self.stack.push(top);
        assert(self.stack@.drop_last() =~= old(self).stack@.drop_last());
        let l = fmt_usize(limit);
        let saved = cat3("message limit → ", l.as_str(), " (saved)");
        let head = cat3("message limit → ", l.as_str(), " (not saved: ");
        self.save_config(saved, head, String::from_str(")"), FollowUp::ReloadMessages)
    }

    /// Closes the dialog and clears its buffers.
    pub fn close_modal(&mut self)
        ensures
            final(self).modal is None,
            final(self).filter_buf@.len() == 0,
            final(self).command_buf@.len() == 0,
            *final(self) == (App { modal: None, filter_buf: final(self).filter_buf, command_buf: final(self).command_buf, ..*old(self) }),
    {
        self.modal = None;
        self.filter_buf = String::new();
        self.command_buf = String::new();
    }

    /// Shows or hides the full key help of the current screen.
    pub fn toggle_help(&mut self)
        requires
            old(self).wf(),
        ensures
            final(self).wf(),
            final(self).stack@ == old(self).stack@.drop_last().push(old(self).top().help_toggled()),
            *final(self) == (App { stack: final(self).stack, ..*old(self) }),
            final(self).top().help_shown() == !old(self).top().help_shown(),
    {
        let mut top = self.stack.pop().unwrap();
        top.toggle_help();
        self.stack.push(top);
    }

    /// Leaves a drill-down screen: back to the previous one, live follow
    /// stopped.
    pub fn pop(&mut self)
        requires
            old(self).wf(),
        ensures
            final(self).wf(),
            pop_outcome(*old(self), *final(self)),
    {
        if self.stack.len() > 1 {
            let _ = self.stack.pop();
            self.live_fetch_in_flight = false;
            self.last_live_poll = None;
            self.status = String::from_str("ready");
        }
    }
}

impl App {
    pub open spec fn has_registry(&self) -> bool {
        self.config.clusters@[self.cluster_index as int].1.schema_registry is Some
    }

    pub open spec fn has_connect(&self) -> bool {
        self.config.clusters@[self.cluster_index as int].1.kafka_connect is Some
    }

    fn registry_configured(&self) -> (r: bool)
        requires
            self.wf(),
        ensures
            r == self.has_registry(),
    {
        self.config.clusters[self.cluster_index].1.schema_registry.is_some()
    }

    fn connect_configured(&self) -> (r: bool)
        requires
            self.wf(),
        ensures
            r == self.has_connect(),
    {
        self.config.clusters[self.cluster_index].1.kafka_connect.is_some()
    }

    /// Work on the Schema Registry: asked for when the cluster has one,
    /// else the status line says it is not configured.
    fn registry_work(&mut self, doing: String, work: Effect) -> (r: Vec<Effect>)
        requires
            old(self).wf(),
        ensures
            final(self).wf(),
            old(self).has_registry() ==> final(self).loading && final(self).status == doing && r@ == seq![work],
            !old(self).has_registry() ==> final(self).status@ == "schema_registry not configured"@ && r@.len() == 0
                && final(self).loading == old(self).loading,
            *final(self) == (App { loading: final(self).loading, status: final(self).status, ..*old(self) }),
    {
        if !self.registry_configured() {
            self.status = String::from_str("schema_registry not configured");
            return Vec::new();
        }
        self.loading = true;
        self.status = doing;
        let mut r: Vec<Effect> = Vec::new();
        r.push(work);
        r
    }

    /// Work on Kafka Connect (see `registry_work`).
    fn connect_work(&mut self, doing: String, work: Effect) -> (r: Vec<Effect>)
        requires
            old(self).wf(),
        ensures
            final(self).wf(),
            old(self).has_connect() ==> final(self).loading && final(self).status == doing && r@ == seq![work],
            !old(self).has_connect() ==> final(self).status@ == "kafka_connect not configured"@ && r@.len() == 0
                && final(self).loading == old(self).loading,
            *final(self) == (App { loading: final(self).loading, status: final(self).status, ..*old(self) }),
    {
        if !self.connect_configured() {
            self.status = String::from_str("kafka_connect not configured");
            return Vec::new();
        }
        self.loading = true;
        self.status = doing;
        let mut r: Vec<Effect> = Vec::new();
        r.push(work);
        r
    }

    /// Reloads the subject list.
    pub fn refresh_schemas(&mut self) -> (r: Vec<Effect>)
        requires
            old(self).wf(),
        ensures
            final(self).wf(),
            old(self).has_registry() ==> final(self).loading && final(self).status@ == "loading schemas…"@ && r@ == seq![Effect::ListSchemas],
            !old(self).has_registry() ==> final(self).status@ == "schema_registry not configured — add [clusters.<name>.schema_registry]"@
                && r@.len() == 0 && final(self).loading == old(self).loading,
            *final(self) == (App { loading: final(self).loading, status: final(self).status, ..*old(self) }),
    {
        if !self.registry_configured() {
            self.status = String::from_str("schema_registry not configured — add [clusters.<name>.schema_registry]");
            return Vec::new();
        }
        self.registry_work(String::from_str("loading schemas…"), Effect::ListSchemas)
    }

    /// Reloads the connector list.
    pub fn refresh_connectors(&mut self) -> (r: Vec<Effect>)
        requires
            old(self).wf(),
        ensures
            final(self).wf(),
            old(self).has_connect() ==> final(self).loading && final(self).status@ == "loading connectors…"@ && r@ == seq![Effect::ListConnectors],
            !old(self).has_connect() ==> final(self).status@ == "kafka_connect not configured — add [clusters.<name>.kafka_connect]"@
                && r@.len() == 0 && final(self).loading == old(self).loading,
            *final(self) == (App { loading: final(self).loading, status: final(self).status, ..*old(self) }),
    {
        if !self.connect_configured() {
            self.status = String::from_str("kafka_connect not configured — add [clusters.<name>.kafka_connect]");
            return Vec::new();
        }
        self.connect_work(String::from_str("loading connectors…"), Effect::ListConnectors)
    }

    /// Opens a connector's screen and loads it.
    pub fn open_connector_detail(&mut self, name: String) -> (r: Vec<Effect>)
        requires
            old(self).wf(),
        ensures
            final(self).wf(),
            !old(self).has_connect() ==> final(self).status@ == "kafka_connect not configured"@ && r@.len() == 0
                && final(self).stack == old(self).stack,
            *final(self) == (App { stack: final(self).stack, loading: final(self).loading, status: final(self).status, ..*old(self) }),
            !old(self).has_connect() ==> final(self).loading == old(self).loading,
            old(self).has_connect() ==> final(self).stack@.len() == old(self).stack@.len() + 1
                && final(self).stack@.drop_last() == old(self).stack@
                && (final(self).top() matches ViewStack::ConnectorDetail(v) && v.name@ == name@ && v.detail is None)
                && final(self).loading && final(self).status@ == "loading connector "@ + name@ + "…"@
                && r@ == seq![Effect::ConnectorDetail { name }],
    {
        if !self.connect_configured() {
            self.status = String::from_str("kafka_connect not configured");
            return Vec::new();
        }
        let v = ConnectorDetailView::new(name.as_str());
        self.stack.push(ViewStack::ConnectorDetail(v));
        let doing = cat3("loading connector ", name.as_str(), "…");
        self.connect_work(doing, Effect::ConnectorDetail { name })
    }

    pub fn reload_connector_detail(&mut self, name: String) -> (r: Vec<Effect>)
        requires
            old(self).wf(),
        ensures
            final(self).wf(),
            old(self).has_connect() ==> final(self).loading && final(self).status@ == "reloading "@ + name@ + "…"@
                && r@ == seq![Effect::ConnectorDetail { name }],
            !old(self).has_connect() ==> final(self).status@ == "kafka_connect not configured"@ && r@.len() == 0 && final(self).loading == old(self).loading,
            *final(self) == (App { loading: final(self).loading, status: final(self).status, ..*old(self) }),
    {
        let doing = cat3("reloading ", name.as_str(), "…");
        self.connect_work(doing, Effect::ConnectorDetail { name })
    }

    pub fn run_connect_pause(&mut self, name: String) -> (r: Vec<Effect>)
        requires
            old(self).wf(),
        ensures
            final(self).wf(),
            old(self).has_connect() ==> final(self).loading && final(self).status@ == "pausing "@ + name@ + "…"@
                && r@ == seq![Effect::ConnectorPause { name }],
            !old(self).has_connect() ==> final(self).status@ == "kafka_connect not configured"@ && r@.len() == 0 && final(self).loading == old(self).loading,
            *final(self) == (App { loading: final(self).loading, status: final(self).status, ..*old(self) }),
    {
        let doing = cat3("pausing ", name.as_str(), "…");
        self.connect_work(doing, Effect::ConnectorPause { name })
    }

    pub fn run_connect_resume(&mut self, name: String) -> (r: Vec<Effect>)
        requires
            old(self).wf(),
        ensures
            final(self).wf(),
            old(self).has_connect() ==> final(self).loading && final(self).status@ == "resuming "@ + name@ + "…"@
                && r@ == seq![Effect::ConnectorResume { name }],
            !old(self).has_connect() ==> final(self).status@ == "kafka_connect not configured"@ && r@.len() == 0 && final(self).loading == old(self).loading,
            *final(self) == (App { loading: final(self).loading, status: final(self).status, ..*old(self) }),
    {
        let doing = cat3("resuming ", name.as_str(), "…");
        self.connect_work(doing, Effect::ConnectorResume { name })
    }

    pub fn run_connect_restart(&mut self, name: String) -> (r: Vec<Effect>)
        requires
            old(self).wf(),
        ensures
            final(self).wf(),
            old(self).has_connect() ==> final(self).loading && final(self).status@ == "restarting "@ + name@ + "…"@
                && r@ == seq![Effect::ConnectorRestart { name }],
            !old(self).has_connect() ==> final(self).status@ == "kafka_connect not configured"@ && r@.len() == 0 && final(self).loading == old(self).loading,
            *final(self) == (App { loading: final(self).loading, status: final(self).status, ..*old(self) }),
    {
        let doing = cat3("restarting ", name.as_str(), "…");
        self.connect_work(doing, Effect::ConnectorRestart { name })
    }

    pub fn run_connect_delete(&mut self, name: String) -> (r: Vec<Effect>)
        requires
            old(self).wf(),
        ensures
            final(self).wf(),
            old(self).has_connect() ==> final(self).loading && final(self).status@ == "deleting "@ + name@ + "…"@
                && r@ == seq![Effect::ConnectorDelete { name }],
            !old(self).has_connect() ==> final(self).status@ == "kafka_connect not configured"@ && r@.len() == 0 && final(self).loading == old(self).loading,
            *final(self) == (App { loading: final(self).loading, status: final(self).status, ..*old(self) }),
    {
        let doing = cat3("deleting ", name.as_str(), "…");
        self.connect_work(doing, Effect::ConnectorDelete { name })
    }

    /// Opens a subject's screen and loads its versions.
    pub fn open_schema_detail(&mut self, subject: String) -> (r: Vec<Effect>)
        requires
            old(self).wf(),
        ensures
            final(self).wf(),
            !old(self).has_registry() ==> final(self).status@ == "schema_registry not configured"@ && r@.len() == 0
                && final(self).stack == old(self).stack,
            *final(self) == (App { stack: final(self).stack, loading: final(self).loading, status: final(self).status, ..*old(self) }),
            !old(self).has_registry() ==> final(self).loading == old(self).loading,
            old(self).has_registry() ==> final(self).stack@.len() == old(self).stack@.len() + 1
                && final(self).stack@.drop_last() == old(self).stack@
                && (final(self).top() matches ViewStack::SchemaDetail(v) && v.subject@ == subject@ && v.versions@.len() == 0)
                && final(self).loading && final(self).status@ == "loading "@ + subject@ + "…"@
                && r@ == seq![Effect::SchemaVersions { subject }],
    {
        if !self.registry_configured() {
            self.status = String::from_str("schema_registry not configured");
            return Vec::new();
        }
        let v = SchemaDetailView::new(subject.as_str());
        self.stack.push(ViewStack::SchemaDetail(v));
        let doing = cat3("loading ", subject.as_str(), "…");
        self.registry_work(doing, Effect::SchemaVersions { subject })
    }

    pub fn reload_schema_versions(&mut self, subject: String) -> (r: Vec<Effect>)
        requires
            old(self).wf(),
        ensures
            final(self).wf(),
            old(self).has_registry() ==> final(self).loading && final(self).status@ == "loading versions for "@ + subject@ + "…"@
                && r@ == seq![Effect::SchemaVersions { subject }],
            !old(self).has_registry() ==> final(self).status@ == "schema_registry not configured"@ && r@.len() == 0 && final(self).loading == old(self).loading,
            *final(self) == (App { loading: final(self).loading, status: final(self).status, ..*old(self) }),
    {
        let doing = cat3("loading versions for ", subject.as_str(), "…");
        self.registry_work(doing, Effect::SchemaVersions { subject })
    }

    pub fn reload_schema_version(&mut self, subject: String, version: i32) -> (r: Vec<Effect>)
        requires
            old(self).wf(),
        ensures
            final(self).wf(),
            old(self).has_registry() ==> final(self).loading
                && final(self).status@ == "loading "@ + subject@ + " v"@ + int_dec(version as int) + "…"@
                && r@ == seq![Effect::SchemaVersion { subject, version }],
            !old(self).has_registry() ==> final(self).status@ == "schema_registry not configured"@ && r@.len() == 0 && final(self).loading == old(self).loading,
            *final(self) == (App { loading: final(self).loading, status: final(self).status, ..*old(self) }),
    {
        let mut doing = cat3("loading ", subject.as_str(), " v");
        let v = fmt_i64(version as i64);
        doing.append(v.as_str());
        doing.append("…");
        self.registry_work(doing, Effect::SchemaVersion { subject, version })
    }
}

/// A table cursor one visible row down (`down`) or up: it stops at the
/// ends, starts on the first row, and stays put when no row is visible.
pub open spec fn table_step(t: TableView, down: bool) -> TableView {
    let n = t.visible_rows().len();
    TableView {
        selected: if n == 0 {
            t.selected
        } else {
            match t.selected {
                Some(i) => Some((if down {
                    if i + 1 < n { i + 1 } else { n - 1 }
                } else {
                    if i > 0 { i - 1 } else { 0 }
                }) as usize),
                None => Some(0usize),
            }
        },
        ..t
    }
}

/// The message cursor one message down or up; the detail scrolls back to
/// its top. Down on an empty list changes nothing.
pub open spec fn messages_step(v: MessagesView, down: bool) -> MessagesView {
    let n = v.messages@.len();
    if down && n == 0 {
        v
    } else {
        MessagesView {
            selected: Some(match v.selected {
                Some(i) => (if down {
                    if i + 1 < n { i + 1 } else { n - 1 }
                } else {
                    if i > 0 { i - 1 } else { 0 }
                }) as usize,
                None => 0usize,
            }),
            detail_scroll: 0,
            ..v
        }
    }
}

/// The schema version one newer (down) or older (up), within the list.
pub open spec fn version_step(v: SchemaDetailView, down: bool) -> SchemaDetailView {
    SchemaDetailView {
        version_index: if down {
            if v.version_index + 1 < v.versions@.len() { (v.version_index + 1) as usize } else { v.version_index }
        } else {
            if v.version_index > 0 { (v.version_index - 1) as usize } else { 0 }
        },
        ..v
    }
}

/// A view with its cursor moved one step.
pub open spec fn cursor_moved(v: ViewStack, down: bool) -> ViewStack {
    match v {
        ViewStack::Topics(w) => ViewStack::Topics(TopicsView { table: table_step(w.table, down), ..w }),
        ViewStack::Messages(w) => ViewStack::Messages(messages_step(w, down)),
        ViewStack::Groups(w) => ViewStack::Groups(GroupsView { table: table_step(w.table, down), ..w }),
        ViewStack::GroupDetails(w) => ViewStack::GroupDetails(GroupDetailsView { table: table_step(w.table, down), ..w }),
        ViewStack::Labels(w) => ViewStack::Labels(LabelListView { table: table_step(w.table, down), ..w }),
        ViewStack::Contexts(w) => ViewStack::Contexts(ContextListView { table: table_step(w.table, down), ..w }),
        ViewStack::Acls(w) => ViewStack::Acls(AclsView { table: table_step(w.table, down), ..w }),
        ViewStack::Schemas(w) => ViewStack::Schemas(SchemasView { table: table_step(w.table, down), ..w }),
        ViewStack::SchemaDetail(w) => ViewStack::SchemaDetail(version_step(w, down)),
        ViewStack::Connectors(w) => ViewStack::Connectors(ConnectorsView { table: table_step(w.table, down), ..w }),
        ViewStack::ConnectorDetail(w) => v,
    }
}

/// A cursor step: the top view moves its cursor; on a schema the version
/// now under the cursor loads (or the status says the registry is missing).
pub open spec fn nav_outcome(a: App, b: App, r: Seq<Effect>, down: bool) -> bool {
    let moved = cursor_moved(a.top(), down);
    &&& b.stack@ == a.stack@.drop_last().push(moved)
    &&& match moved {
        ViewStack::SchemaDetail(w) if w.version_index < w.versions@.len() => {
            let ver = w.versions@[w.version_index as int];
            &&& b == (App { stack: b.stack, loading: b.loading, status: b.status, ..a })
            &&& a.has_registry() ==> b.loading
                && b.status@ == "loading "@ + w.subject@ + " v"@ + int_dec(ver as int) + "…"@
                && r == seq![Effect::SchemaVersion { subject: w.subject, version: ver }]
            &&& !a.has_registry() ==> b.status@ == "schema_registry not configured"@ && r.len() == 0
        },
        _ => r.len() == 0 && b == (App { stack: b.stack, ..a }),
    }
}

/// What asking to copy the message under the cursor does.
pub open spec fn copy_outcome(a: App, b: App, r: Seq<Effect>) -> bool {
    &&& b == (App { status: b.status, ..a })
    &&& !a.on_screen(Screen::Messages) ==> r.len() == 0 && b == a
    &&& a.on_screen(Screen::Messages) ==> {
            let v = a.top()->Messages_0;
            match v.selected {
                Some(i) => if i < v.messages@.len() {
                    r.len() == 1 && copies(r[0], crate::messages::clipboard_text(v.messages@[i as int], v.pretty_json))
                } else {
                    r.len() == 0 && b.status@ == "copy failed: "@ + "no message selected"@
                },
                None => r.len() == 0 && b.status@ == "copy failed: "@ + "no message selected"@,
            }
        }
}

/// What turning live follow on or off does.
pub open spec fn live_toggle_outcome(a: App, b: App, r: Seq<Effect>) -> bool {
    match a.top() {
        ViewStack::Messages(v) => if v.live {
            &&& r.len() == 0
            &&& b.stack@ == a.stack@.drop_last().push(ViewStack::Messages(MessagesView { live: false, ..v }))
            &&& b.status@ == "live off"@
            &&& b == (App { stack: b.stack, status: b.status, live_fetch_in_flight: false, last_live_poll: None, ..a })
        } else {
            &&& b.top() matches ViewStack::Messages(w)
                && w == (MessagesView { live: true, from_end: true, next_offsets: w.next_offsets, ..v })
                && (v.messages@.len() == 0 ==> w.next_offsets == v.next_offsets)
                && (v.messages@.len() > 0 ==> forall|p: i32| #[trigger] next_offset_of(w.next_offsets@, p)
                    == merged_next(next_offset_of(v.next_offsets@, p), v.messages@, p))
                && (v.messages@.len() == 0 && a.connected ==> r == seq![Effect::FetchMessages {
                    topic: v.topic, partition: v.partition, limit: v.message_limit, from_end: true, sort_by_time: v.sort_by_time,
                }] && b.loading)
                && (v.messages@.len() > 0 || !a.connected ==> r.len() == 0 && b.loading == a.loading)
            &&& b.stack@.drop_last() == a.stack@.drop_last()
            &&& b.stack@.len() == a.stack@.len()
            &&& b.status@ == "live on · poll every "@
                + dec(clamp_spec(a.config.defaults.live_poll_secs as int, 1, 30) as nat) + "s (f off, [/] interval)"@
            &&& b == (App { stack: b.stack, status: b.status, loading: b.loading, last_live_poll: None, ..a })
        },
        _ => r.len() == 0 && b == a,
    }
}

/// What asking for the partition popup does.
pub open spec fn partitions_request_outcome(a: App, b: App, r: Seq<Effect>) -> bool {
    let topic: Option<Seq<char>> = match a.top() {
        ViewStack::Topics(v) => v.table.current_key(),
        ViewStack::Messages(v) => Some(v.topic@),
        _ => None,
    };
    if topic is Some && a.connected {
        &&& b.loading
        &&& r.len() == 1 && (r[0] matches Effect::ShowPartitions { topic: t } && t@ == topic->0)
        &&& b.status@ == "loading partitions for "@ + topic->0 + "…"@
        &&& b == (App { loading: true, status: b.status, ..a })
    } else {
        r.len() == 0 && b == a
    }
}

/// A list screen that loads when `able`, else says `refused` on the
/// status line.
pub open spec fn switch_reload(a: App, b: App, r: Seq<Effect>, able: bool, doing: Seq<char>, work: Effect, refused: Seq<char>) -> bool {
    &&& able ==> b.loading && b.status@ == doing && r == seq![work]
    &&& !able ==> b.loading == a.loading && b.status@ == refused && r.len() == 0
}

/// What choosing a sidebar screen does.
pub open spec fn nav_switch_outcome(a: App, b: App, r: Seq<Effect>, screen: Screen) -> bool {
    &&& b == (App { stack: b.stack, loading: b.loading, status: b.status, ..a })
    &&& b.stack@.len() == 1
    &&& crate::views::is_root_screen(screen) ==> b.on_screen(screen)
    &&& !crate::views::is_root_screen(screen) ==> b.stack@[0] == a.stack@[0] && r.len() == 0
        && b.loading == a.loading && b.status == a.status
    &&& screen == Screen::Topics && a.cached_topics@.len() > 0 ==> r.len() == 0 && b.status@ == "topics"@
            && b.loading == a.loading && b.top()->Topics_0.topic_infos@ == a.cached_topics@
    &&& screen == Screen::Topics && a.cached_topics@.len() == 0 ==> if a.connected {
            r == seq![Effect::ListTopics] && b.loading && b.status@ == "loading topics…"@
        } else {
            r.len() == 1 && r[0] is Connect && b.loading == a.loading && b.status == a.status
        }
    &&& screen == Screen::Groups ==> switch_reload(a, b, r, a.connected, "loading consumer groups…"@, Effect::ListGroups,
            "not connected"@)
    &&& screen == Screen::Acls ==> switch_reload(a, b, r, a.connected, "loading ACLs…"@, Effect::ListAcls, "not connected"@)
    &&& screen == Screen::Schemas ==> switch_reload(a, b, r, a.has_registry(), "loading schemas…"@, Effect::ListSchemas,
            "schema_registry not configured — add [clusters.<name>.schema_registry]"@)
    &&& screen == Screen::Connectors ==> switch_reload(a, b, r, a.has_connect(), "loading connectors…"@,
            Effect::ListConnectors, "kafka_connect not configured — add [clusters.<name>.kafka_connect]"@)
    &&& screen == Screen::Labels ==> r.len() == 0 && b.status@ == "labels"@ && b.loading == a.loading
    &&& screen == Screen::Contexts ==> r.len() == 0 && b.status@ == "contexts"@ && b.loading == a.loading
}

impl App {
    /// Shows a sidebar list, alone on the stack, and loads it (the topic
    /// list from the last read when there is one).
    pub fn switch_nav(&mut self, screen: Screen) -> (r: Vec<Effect>)
        requires
            old(self).wf(),
        ensures
            final(self).wf(),
            nav_switch_outcome(*old(self), *final(self), r@, screen),
    {
        self.stack.truncate(1);
        match screen {
            Screen::Topics => {
                let mut v = TopicsView::new();
                if self.cached_topics.len() > 0 {
                    let topics = copy_topics(&self.cached_topics);
                    v.load_with_labels(topics, &self.config.topic_labels, self.cluster_name.as_str());
                }
                self.stack = Vec::new();
                self.stack.push(ViewStack::Topics(v));
                if self.cached_topics.len() == 0 {
                    self.refresh_topics()
                } else {
                    self.status = String::from_str("topics");
                    Vec::new()
                }
            },
            Screen::Groups => {
                self.stack = Vec::new();
                self.stack.push(ViewStack::Groups(GroupsView::new()));
                self.refresh_groups()
            },
            Screen::Labels => {
                let mut v = LabelListView::new();
                v.load(&self.config.topic_labels, self.cluster_name.as_str());
                self.stack = Vec::new();
                self.stack.push(ViewStack::Labels(v));
                self.status = String::from_str("labels");
                Vec::new()
            },
            Screen::Contexts => {
                let mut v = ContextListView::new();
                v.load(&self.config, self.cluster_name.as_str());
                self.stack = Vec::new();
                self.stack.push(ViewStack::Contexts(v));
                self.status = String::from_str("contexts");
                Vec::new()
            },
            Screen::Acls => {
                self.stack = Vec::new();
                self.stack.push(ViewStack::Acls(AclsView::new()));
                self.refresh_acls()
            },
            Screen::Schemas => {
                self.stack = Vec::new();
                self.stack.push(ViewStack::Schemas(SchemasView::new()));
                self.refresh_schemas()
            },
            Screen::Connectors => {
                self.stack = Vec::new();
                self.stack.push(ViewStack::Connectors(ConnectorsView::new()));
                self.refresh_connectors()
            },
            _ => Vec::new(),
        }
    }

    /// The topic the current screen is about: the one under the cursor, or
    /// the topic of the message screen.
    pub fn selected_topic_name(&self) -> (r: Option<String>)
        requires
            self.wf(),
        ensures
            match self.top() {
                ViewStack::Topics(v) => match r {
                    Some(t) => v.table.current_key() == Some(t@),
                    None => v.table.current_key() is None,
                },
                ViewStack::Messages(v) => r == Some(v.topic),
                _ => r is None,
            },
    {
        match self.current() {
            ViewStack::Topics(v) => match v.selected_topic() {
                Some(t) => Some(t.clone()),
                None => None,
            },
            ViewStack::Messages(v) => Some(v.topic.clone()),
            _ => None,
        }
    }

    /// The consumer group the current screen is about.
    pub fn selected_group_id(&self) -> (r: Option<String>)
        requires
            self.wf(),
        ensures
            match self.top() {
                ViewStack::Groups(v) => match r {
                    Some(g) => v.table.current_key() == Some(g@),
                    None => v.table.current_key() is None,
                },
                ViewStack::GroupDetails(v) => r == Some(v.group),
                _ => r is None,
            },
    {
        match self.current() {
            ViewStack::Groups(v) => match v.selected_id() {
                Some(g) => Some(g.clone()),
                None => None,
            },
            ViewStack::GroupDetails(v) => Some(v.group.clone()),
            _ => None,
        }
    }

    /// Cursor down: the next row, message, or newer schema version (which
    /// then loads).
    pub fn nav_down(&mut self) -> (r: Vec<Effect>)
        requires
            old(self).wf(),
        ensures
            final(self).wf(),
            nav_outcome(*old(self), *final(self), r@, true),
    {
        let mut top = self.stack.pop().unwrap();
        let mut reload: Option<(String, i32)> = None;
        match &mut top {
            ViewStack::SchemaDetail(v) => {
                v.next_version();
                if let Some(ver) = v.current_version() {
                    reload = Some((v.subject.clone(), ver));
                }
            },
            ViewStack::Topics(v) => v.table.next(),
            ViewStack::Messages(v) => v.next(),
            ViewStack::Groups(v) => v.table.next(),
            ViewStack::GroupDetails(v) => v.table.next(),
            ViewStack::Labels(v) => v.table.next(),
            ViewStack::Contexts(v) => v.table.next(),
            ViewStack::Acls(v) => v.table.next(),
            ViewStack::Schemas(v) => v.table.next(),
            ViewStack::Connectors(v) => v.table.next(),
            ViewStack::ConnectorDetail(_) => {},
        }
        self.stack.push(top);
        match reload {
            Some((subject, ver)) => self.reload_schema_version(subject, ver),
            None => Vec::new(),
        }
    }

    /// Cursor up (see `nav_down`).
    pub fn nav_up(&mut self) -> (r: Vec<Effect>)
        requires
            old(self).wf(),
        ensures
            final(self).wf(),
            nav_outcome(*old(self), *final(self), r@, false),
    {
        let mut top = self.stack.pop().unwrap();
        let mut reload: Option<(String, i32)> = None;
        match &mut top {
            ViewStack::SchemaDetail(v) => {
                v.prev_version();
                if let Some(ver) = v.current_version() {
                    reload = Some((v.subject.clone(), ver));
                }
            },
            ViewStack::Topics(v) => v.table.prev(),
            ViewStack::Messages(v) => v.prev(),
            ViewStack::Groups(v) => v.table.prev(),
            ViewStack::GroupDetails(v) => v.table.prev(),
            ViewStack::Labels(v) => v.table.prev(),
            ViewStack::Contexts(v) => v.table.prev(),
            ViewStack::Acls(v) => v.table.prev(),
            ViewStack::Schemas(v) => v.table.prev(),
            ViewStack::Connectors(v) => v.table.prev(),
            ViewStack::ConnectorDetail(_) => {},
        }
        self.stack.push(top);
        match reload {
            Some((subject, ver)) => self.reload_schema_version(subject, ver),
            None => Vec::new(),
        }
    }

    /// Opens the message screen of `topic` with its partition ids (or the
    /// error reading them) and loads messages.
    pub fn messages_opened(&mut self, topic: String, partitions: Result<Vec<i32>, String>) -> (r: Vec<Effect>)
        requires
            old(self).wf(),
        ensures
            final(self).wf(),
            final(self).stack@.len() == old(self).stack@.len() + 1,
            final(self).top() matches ViewStack::Messages(v) && v.topic == topic
                && crate::messages::fresh_messages_view(v, topic@, old(self).config.defaults.message_limit)
                && match partitions { Ok(ids) => v.partition_ids == ids, Err(_) => v.partition_ids@.len() == 0 },
            final(self).stack@.drop_last() == old(self).stack@,
            *final(self) == (App { stack: final(self).stack, loading: final(self).loading, status: final(self).status, ..*old(self) }),
            !old(self).connected ==> final(self).loading == old(self).loading,
            old(self).connected ==> r@.len() == 1 && final(self).loading
                && final(self).status@ == "loading messages for "@ + topic@ + "…"@,
            !old(self).connected ==> r@.len() == 0 && match partitions {
                Err(e) => final(self).status@ == "partitions error: "@ + e@,
                Ok(_) => final(self).status == old(self).status,
            },
    {
        let mut mv = MessagesView::new(topic, self.config.defaults.message_limit);
        match partitions {
            Ok(ids) => {
                mv.partition_ids = ids;
            },
            Err(e) => {
                self.status = cat("partitions error: ", e.as_str());
            },
        }
        self.stack.push(ViewStack::Messages(mv));
        self.reload_messages()
    }

    /// Reads the partitions of the current topic for the popup.
    pub fn show_partitions(&mut self) -> (r: Vec<Effect>)
        requires
            old(self).wf(),
        ensures
            final(self).wf(),
            partitions_request_outcome(*old(self), *final(self), r@),
    {
        let topic = match self.selected_topic_name() {
            Some(t) => t,
            None => {
                return Vec::new();
            },
        };
        if !self.connected {
            return Vec::new();
        }
        self.loading = true;
        self.status = cat3("loading partitions for ", topic.as_str(), "…");
        let mut r: Vec<Effect> = Vec::new();
        r.push(Effect::ShowPartitions { topic });
        r
    }

    /// The outcome of `Effect::ShowPartitions`: the popup, or the error.
    pub fn partitions_shown(&mut self, topic: &str, result: Result<Vec<PartitionInfo>, String>)
        ensures
            !final(self).loading,
            final(self).stack == old(self).stack,
            final(self).config == old(self).config,
            match result {
                Ok(parts) => final(self).show_partitions_popup
                    && final(self).partition_lines@.len() == parts@.len() + 2
                    && final(self).partition_lines@[0]@ == "PART  LEADER  REPLICAS           ISR"@
                    && final(self).partition_lines@[1]@ == "────  ──────  ─────────────────  ─────────────────"@
                    && (forall|i: int| 0 <= i < parts@.len() ==> #[trigger] final(self).partition_lines@[i + 2]@
                        == partition_line(parts@[i]))
                    && final(self).status@ == topic@ + ": "@ + dec(parts@.len()) + " partitions"@,
                Err(e) => final(self).status@ == "partitions error: "@ + e@
                    && final(self).show_partitions_popup == old(self).show_partitions_popup
                    && final(self).partition_lines == old(self).partition_lines,
            },
            *final(self) == (App {
                partition_lines: final(self).partition_lines,
                show_partitions_popup: final(self).show_partitions_popup,
                status: final(self).status,
                loading: false,
                ..*old(self)
            }),
    {
        match result {
            Ok(parts) => {
                self.partition_lines = format_partitions(parts.as_slice());
                self.show_partitions_popup = true;
                let n = fmt_usize(parts.len());
                let mut s = String::from_str(topic);
                s.append(": ");
                s.append(n.as_str());
                s.append(" partitions");
                self.status = s;
                self.loading = false;
            },
            Err(e) => {
                self.status = cat("partitions error: ", e.as_str());
                self.loading = false;
            },
        }
    }

    /// Asks to copy the message under the cursor.
    pub fn copy_selected_message(&mut self) -> (r: Vec<Effect>)
        requires
            old(self).wf(),
        ensures
            final(self).wf(),
            copy_outcome(*old(self), *final(self), r@),
    {
        let text = match self.current() {
            ViewStack::Messages(v) => v.selected_clipboard_text(),
            _ => {
                return Vec::new();
            },
        };
        match text {
            Ok(t) => {
                let ghost tv = t@;
                let mut r: Vec<Effect> = Vec::new();
                r.push(Effect::CopyToClipboard { text: t });
                assert(copies(r@[0], tv));
                proof {
                    let v = old(self).top()->Messages_0;
                    assert(v.selected is Some);
                    let i = v.selected->0;
                    assert(i < v.messages@.len());
                    assert(tv == crate::messages::clipboard_text(v.messages@[i as int], v.pretty_json));
                }
                r
            },
            Err(e) => {
                self.status = cat("copy failed: ", e.as_str());
                Vec::new()
            },
        }
    }

    /// Turns live follow on (reading from the end, loading when nothing is
    /// shown yet) or off.
    pub fn toggle_live(&mut self) -> (r: Vec<Effect>)
        requires
            old(self).wf(),
        ensures
            final(self).wf(),
            live_toggle_outcome(*old(self), *final(self), r@),
    {
        if !matches!(self.current(), ViewStack::Messages(_)) {
            return Vec::new();
        }
        let mut top = self.stack.pop().unwrap();
        let (now_live, empty) = match &mut top {
            ViewStack::Messages(v) => {
                v.live = !v.live;
                if v.live {
                    v.from_end = true;
                    if v.messages.len() > 0 {
                        v.sync_next_offsets();
                    }
                }
                (v.live, v.messages.len() == 0)
            },
            _ => {
                self.stack.push(top);
                return Vec::new();
            },
        };
        self.stack.push(top);
        assert(self.stack@.drop_last() =~= old(self).stack@.drop_last());
        if now_live {
            let r = if empty { self.reload_messages() } else { Vec::new() };
            self.last_live_poll = None;
            let secs = clamp_live_poll_secs(self.config.defaults.live_poll_secs);
            let s = fmt_u64(secs);
            self.status = cat3("live on · poll every ", s.as_str(), "s (f off, [/] interval)");
            r
        } else {
            self.live_fetch_in_flight = false;
            self.last_live_poll = None;
            self.status = String::from_str("live off");
            Vec::new()
        }
    }
}

/// The live interval after a `[`/`]` step: the configured value read as a
/// signed number, moved by `delta` (wrapping), read back as unsigned and
/// kept within 1..=30.
pub open spec fn stepped_poll(cur: u64, delta: i64) -> u64 {
    let s = (cur as i64) as int + delta as int;
    let w: int = if s > i64::MAX { s - 0x1_0000_0000_0000_0000 } else if s < i64::MIN { s + 0x1_0000_0000_0000_0000 } else { s };
    let u: int = if w < 0 { w + 0x1_0000_0000_0000_0000 } else { w };
    clamp_spec(u, 1, 30) as u64
}

/// The live interval always ends up within 1..=30 seconds.
pub proof fn law_poll_interval_in_range(cur: u64, delta: i64)
    ensures
        1 <= stepped_poll(cur, delta) <= 30,
{
}

/// What moving the live interval by `delta` seconds does.
pub open spec fn poll_step_outcome(a: App, b: App, r: Seq<Effect>, delta: i64) -> bool {
    &&& b.stack == a.stack
    &&& !a.on_screen(Screen::Messages) ==> r.len() == 0 && b == a
    &&& a.on_screen(Screen::Messages) ==> {
            let next = stepped_poll(a.config.defaults.live_poll_secs, delta);
            &&& b.config == (AppConfig { defaults: Defaults { live_poll_secs: next, ..a.config.defaults }, ..a.config })
            &&& b == (App { config: b.config, last_live_poll: None, save_note: b.save_note, ..a })
            &&& r == seq![Effect::SaveConfig]
            &&& b.save_note matches Some(n) && n.next == FollowUp::Nothing
                && n.saved@ == "live poll interval → "@ + dec(next as nat) + "s (saved)"@
                && n.failed_head@ == "live poll interval → "@ + dec(next as nat) + "s (not saved: "@
                && n.failed_tail@ == ")"@
        }
}

impl App {
    /// Moves the live interval by `delta` seconds and saves it.
    pub fn adjust_live_poll(&mut self, delta: i64) -> (r: Vec<Effect>)
        requires
            old(self).wf(),
        ensures
            final(self).wf(),
            poll_step_outcome(*old(self), *final(self), r@, delta),
    {
        if !matches!(self.current(), ViewStack::Messages(_)) {
            return Vec::new();
        }
        let cur: i64 = self.config.defaults.live_poll_secs as i64;
        let s: i128 = cur as i128 + delta as i128;
        let w: i128 = if s > i64::MAX as i128 {
            s - 0x1_0000_0000_0000_0000
        } else if s < i64::MIN as i128 {
            s + 0x1_0000_0000_0000_0000
        } else {
            s
        };
        let u: u64 = if w < 0 { (w + 0x1_0000_0000_0000_0000) as u64 } else { w as u64 };
        let next = clamp_live_poll_secs(u);
        self.config.defaults.live_poll_secs = next;
        self.last_live_poll = None;
        let n = fmt_u64(next);
        let saved = cat3("live poll interval → ", n.as_str(), "s (saved)");
        let head = cat3("live poll interval → ", n.as_str(), "s (not saved: ");
        self.save_config(saved, head, String::from_str(")"), FollowUp::Nothing)
    }
}

/// What reloading the current screen does.
pub open spec fn refresh_outcome(a: App, b: App, r: Seq<Effect>) -> bool {
    &&& b.stack@.len() == a.stack@.len()
    &&& b.stack@.drop_last() == a.stack@.drop_last()
    &&& crate::views::screen_of(b.top()) == crate::views::screen_of(a.top())
    &&& b == (App { stack: b.stack, loading: b.loading, status: b.status, ..a })
    &&& !(a.on_screen(Screen::Labels) || a.on_screen(Screen::Contexts)) ==> b.stack == a.stack
    &&& match a.top() {
        ViewStack::Topics(_) => if a.connected {
            r == seq![Effect::ListTopics] && b.loading && b.status@ == "loading topics…"@
        } else {
            r.len() == 1 && r[0] is Connect && b == a
        },
        ViewStack::Messages(v) => switch_reload(a, b, r, a.connected, "loading messages for "@ + v.topic@ + "…"@,
            Effect::FetchMessages {
                topic: v.topic, partition: v.partition, limit: v.message_limit, from_end: v.from_end, sort_by_time: v.sort_by_time,
            }, a.status@),
        ViewStack::Groups(_) => switch_reload(a, b, r, a.connected, "loading consumer groups…"@, Effect::ListGroups,
            "not connected"@),
        ViewStack::GroupDetails(v) => switch_reload(a, b, r, a.connected, "loading offsets for "@ + v.group@ + "…"@,
            Effect::GroupOffsets { group: v.group }, "not connected"@),
        ViewStack::Labels(_) => r.len() == 0 && b.status@ == "labels refreshed"@ && b.loading == a.loading,
        ViewStack::Contexts(_) => r.len() == 0 && b.status@ == "contexts refreshed"@ && b.loading == a.loading,
        ViewStack::Acls(_) => switch_reload(a, b, r, a.connected, "loading ACLs…"@, Effect::ListAcls, "not connected"@),
        ViewStack::Schemas(_) => switch_reload(a, b, r, a.has_registry(), "loading schemas…"@, Effect::ListSchemas,
            "schema_registry not configured — add [clusters.<name>.schema_registry]"@),
        ViewStack::SchemaDetail(v) => if v.version_index < v.versions@.len() {
            let ver = v.versions@[v.version_index as int];
            switch_reload(a, b, r, a.has_registry(), "loading "@ + v.subject@ + " v"@ + int_dec(ver as int) + "…"@,
                Effect::SchemaVersion { subject: v.subject, version: ver }, "schema_registry not configured"@)
        } else {
            switch_reload(a, b, r, a.has_registry(), "loading versions for "@ + v.subject@ + "…"@,
                Effect::SchemaVersions { subject: v.subject }, "schema_registry not configured"@)
        },
        ViewStack::Connectors(_) => switch_reload(a, b, r, a.has_connect(), "loading connectors…"@, Effect::ListConnectors,
            "kafka_connect not configured — add [clusters.<name>.kafka_connect]"@),
        ViewStack::ConnectorDetail(v) => switch_reload(a, b, r, a.has_connect(), "reloading "@ + v.name@ + "…"@,
            Effect::ConnectorDetail { name: v.name }, "kafka_connect not configured"@),
    }
}

/// Adding (`add`) or removing `label` on the marked topics, else the one under the cursor; the configuration then saves.
pub open spec fn label_apply_outcome(a: App, b: App, r: Seq<Effect>, label: Seq<char>, add: bool) -> bool {
    &&& b.stack@.len() == a.stack@.len()
    &&& b.stack@.drop_last() == a.stack@.drop_last()
    &&& b == (App { config: b.config, stack: b.stack, status: b.status, save_note: b.save_note, ..a })
    &&& label.len() == 0 ==> r.len() == 0 && b.status@ == "label cannot be empty"@
            && b.config == a.config
    &&& label.len() > 0 && !a.on_screen(Screen::Topics) ==> r.len() == 0
            && b.status@ == "no topics selected"@ && b.config == a.config
    &&& label.len() > 0 && a.on_screen(Screen::Topics) ==> {
            let t = a.top()->Topics_0.table;
            let targets = if t.marked@.len() > 0 { strs(t.marked@) } else {
                match t.current_key() { Some(k) => seq![k], None => Seq::<Seq<char>>::empty() }
            };
            &&& targets.len() == 0 ==> r.len() == 0 && b.status@ == "no topics selected"@
                && b.config == a.config
            &&& targets.len() > 0 ==> r == seq![Effect::SaveConfig]
                && (b.save_note matches Some(n)
                    && n.saved@ == (if add { "added"@ } else { "removed"@ }) + " label '"@ + label + "' on "@
                        + dec(targets.len()) + " topic(s) (saved)"@
                    && n.failed_head@ == (if add { "added"@ } else { "removed"@ }) + " label '"@ + label + "' ("@
                    && n.failed_tail@ == ", not saved)"@)
                && (!add ==> crate::labels::label_dropped_in(a.config.topic_labels@, b.config.topic_labels@,
                    a.cluster_name@, |x: Seq<char>| targets.contains(x), crate::text::unicode_lower(label)))
                && (add && crate::labels::normalized(label).len() > 0 ==> crate::labels::label_added_in(
                    a.config.topic_labels@, b.config.topic_labels@, a.cluster_name@,
                    |x: Seq<char>| targets.contains(x), crate::labels::normalized(label)))
                && b.config == (AppConfig { topic_labels: b.config.topic_labels, ..a.config })
        }
}

/// Deleting `label` from every topic of the cluster; the configuration then saves.
pub open spec fn label_delete_outcome(a: App, b: App, r: Seq<Effect>, label: Seq<char>) -> bool {
    &&& b.stack@.len() == a.stack@.len()
    &&& r == seq![Effect::SaveConfig]
    &&& crate::labels::normalized(label).len() > 0 ==> crate::labels::label_dropped_in(a.config.topic_labels@,
            b.config.topic_labels@, a.cluster_name@, |t: Seq<char>| true, crate::labels::normalized(label))
    &&& b.save_note matches Some(n) && n.next == FollowUp::Nothing
    &&& b.config == (AppConfig { topic_labels: b.config.topic_labels, ..a.config })
    &&& b.stack@.drop_last() == a.stack@.drop_last()
    &&& b == (App { config: b.config, stack: b.stack, save_note: b.save_note, ..a })
}

impl App {
    pub fn open_groups(&mut self) -> (r: Vec<Effect>)
        requires
            old(self).wf(),
        ensures
            final(self).wf(),
            nav_switch_outcome(*old(self), *final(self), r@, Screen::Groups),
    {
        self.switch_nav(Screen::Groups)
    }

    /// Reloads what the current screen shows.
    pub fn refresh_current(&mut self) -> (r: Vec<Effect>)
        requires
            old(self).wf(),
        ensures
            final(self).wf(),
            refresh_outcome(*old(self), *final(self), r@),
    {
        let n = self.stack.len();
        match &self.stack[n - 1] {
            ViewStack::Topics(_) => self.refresh_topics(),
            ViewStack::Messages(_) => self.reload_messages(),
            ViewStack::Groups(_) => self.refresh_groups(),
            ViewStack::GroupDetails(v) => {
                let g = v.group.clone();
                self.reload_group_offsets(g)
            },
            ViewStack::Labels(_) => {
                let mut top = self.stack.pop().unwrap();
                if let ViewStack::Labels(v) = &mut top {
                    v.load(&self.config.topic_labels, self.cluster_name.as_str());
                }
                self.stack.push(top);
                assert(self.stack@.drop_last() =~= old(self).stack@.drop_last());
                self.status = String::from_str("labels refreshed");
                Vec::new()
            },
            ViewStack::Contexts(_) => {
                let mut top = self.stack.pop().unwrap();
                if let ViewStack::Contexts(v) = &mut top {
                    v.load(&self.config, self.cluster_name.as_str());
                }
                self.stack.push(top);
                assert(self.stack@.drop_last() =~= old(self).stack@.drop_last());
                self.status = String::from_str("contexts refreshed");
                Vec::new()
            },
            ViewStack::Acls(_) => self.refresh_acls(),
            ViewStack::Schemas(_) => self.refresh_schemas(),
            ViewStack::Connectors(_) => self.refresh_connectors(),
            ViewStack::ConnectorDetail(v) => {
                let name = v.name.clone();
                self.reload_connector_detail(name)
            },
            ViewStack::SchemaDetail(v) => {
                let subject = v.subject.clone();
                match v.current_version() {
                    Some(ver) => self.reload_schema_version(subject, ver),
                    None => self.reload_schema_versions(subject),
                }
            },
        }
    }

    /// Adds `label` to, or removes it from, the marked topics (else the one
    /// under the cursor), then saves.
    pub fn apply_topic_label(&mut self, label: &str, add: bool) -> (r: Vec<Effect>)
        requires
            old(self).wf(),
        ensures
            final(self).wf(),
            final(self).modal == old(self).modal,
            label_apply_outcome(*old(self), *final(self), r@, label@, add),
    {
        if label.unicode_len() == 0 {
            self.status = String::from_str("label cannot be empty");
            return Vec::new();
        }
        let topics = match self.current() {
            ViewStack::Topics(v) => v.target_topic_names(),
            _ => Vec::new(),
        };
        if topics.len() == 0 {
            self.status = String::from_str("no topics selected");
            return Vec::new();
        }
        if add {
            self.config.topic_labels.add_label_to_many(self.cluster_name.as_str(), topics.as_slice(), label);
        } else {
            self.config.topic_labels.remove_label_from_many(self.cluster_name.as_str(), topics.as_slice(), label);
        }
        let action = if add { "added" } else { "removed" };
        let count = fmt_usize(topics.len());
        let mut saved = cat3(action, " label '", label);
        saved.append("' on ");
        saved.append(count.as_str());
        saved.append(" topic(s) (saved)");
        let mut head = cat3(action, " label '", label);
        head.append("' (");
        let mut top = self.stack.pop().unwrap();
        if let ViewStack::Topics(v) = &mut top {
            v.refresh_labels(&self.config.topic_labels, self.cluster_name.as_str());
        }
        self.stack.push(top);
        assert(self.stack@.drop_last() =~= old(self).stack@.drop_last());
        self.save_config(saved, head, String::from_str(", not saved)"), FollowUp::Nothing)
    }

    /// Removes `label` from every topic of the cluster, then saves.
    pub fn run_delete_label(&mut self, label: String) -> (r: Vec<Effect>)
        requires
            old(self).wf(),
        ensures
            final(self).wf(),
            final(self).modal == old(self).modal,
            label_delete_outcome(*old(self), *final(self), r@, label@),
    {
        let affected = self.config.topic_labels.delete_label(self.cluster_name.as_str(), label.as_str());
        let a = fmt_usize(affected);
        let mut saved = cat3("deleted label '", label.as_str(), "' from ");
        saved.append(a.as_str());
        saved.append(" topic(s) (saved)");
        let mut head = cat3("deleted label '", label.as_str(), "' from ");
        head.append(a.as_str());
        head.append(" topic(s) (not saved: ");
        let mut top = self.stack.pop().unwrap();
        match &mut top {
            ViewStack::Labels(v) => v.load(&self.config.topic_labels, self.cluster_name.as_str()),
            ViewStack::Topics(v) => v.refresh_labels(&self.config.topic_labels, self.cluster_name.as_str()),
            _ => {},
        }
        self.stack.push(top);
        assert(self.stack@.drop_last() =~= old(self).stack@.drop_last());
        self.save_config(saved, head, String::from_str(")"), FollowUp::Nothing)
    }

    /// The cluster list for the status line, the active one starred.
    pub fn format_clusters_list(&self) -> (r: String)
        ensures
            clusters_text(*self, r@),
    {
        let names = self.config.cluster_names();
        let ghost nv = strs(names@);
        let mut listed: Vec<String> = Vec::new();
        let mut i: usize = 0;
        while i < names.len()
            invariant
                i <= names@.len(),
                nv == strs(names@),
                strs(listed@) == starred(nv.subrange(0, i as int), self.cluster_name@),
            decreases names.len() - i,
        {
            assert(nv.subrange(0, i + 1).drop_last() =~= nv.subrange(0, i as int));
            let n = &names[i];
            let ghost pre = strs(listed@);
            if str_eq(n.as_str(), self.cluster_name.as_str()) {
                listed.push(cat("*", n.as_str()));
            } else {
                listed.push(n.clone());
            }
            i = i + 1;
            assert(strs(listed@) =~= starred(nv.subrange(0, i as int), self.cluster_name@));
        }
        assert(nv.subrange(0, i as int) =~= nv);
        let joined = join_strings(listed.as_slice(), ", ");
        let mut s = cat("clusters: ", joined.as_str());
        s.append("  (current: ");
        s.append(self.cluster_name.as_str());
        s.append(")");
        s
    }
}

/// The names with the active one starred.
pub open spec fn starred(names: Seq<Seq<char>>, active: Seq<char>) -> Seq<Seq<char>>
    decreases names.len(),
{
    if names.len() == 0 {
        names
    } else {
        let n = names.last();
        starred(names.drop_last(), active).push(if n == active { "*"@ + n } else { n })
    }
}

// ---------- command line ----------

/// Splitting at whitespace: the words closed so far and the one being read.
pub open spec fn word_scan(s: Seq<char>) -> (Seq<Seq<char>>, Seq<char>)
    decreases s.len(),
{
    if s.len() == 0 {
        (Seq::empty(), Seq::empty())
    } else {
        let (ws, cur) = word_scan(s.drop_last());
        if crate::text::is_ws(s.last()) {
            if cur.len() > 0 { (ws.push(cur), Seq::empty()) } else { (ws, cur) }
        } else {
            (ws, cur.push(s.last()))
        }
    }
}

/// `str::split_whitespace`.
pub open spec fn words(s: Seq<char>) -> Seq<Seq<char>> {
    let (ws, cur) = word_scan(s);
    if cur.len() > 0 { ws.push(cur) } else { ws }
}

/// The first two words of `line`.
pub fn first_two_words(line: &str) -> (r: (Option<String>, Option<String>))
    ensures
        match r.0 {
            Some(w) => words(line@).len() > 0 && w@ == words(line@)[0],
            None => words(line@).len() == 0,
        },
        match r.1 {
            Some(w) => words(line@).len() > 1 && w@ == words(line@)[1],
            None => words(line@).len() <= 1,
        },
{
    let cs = crate::text::chars_of(line);
    let mut done: Vec<String> = Vec::new();
    let mut cur: Vec<char> = Vec::new();
    let mut i: usize = 0;
    assert(cs@.subrange(0, 0) =~= Seq::<char>::empty());
    while i < cs.len()
        invariant
            i <= cs@.len(),
            cs@ == line@,
            strs(done@) == word_scan(cs@.subrange(0, i as int)).0,
            cur@ == word_scan(cs@.subrange(0, i as int)).1,
        decreases cs.len() - i,
    {
        assert(cs@.subrange(0, i + 1).drop_last() =~= cs@.subrange(0, i as int));
        let c = cs[i];
        if crate::text::char_is_ws(c) {
            if cur.len() > 0 {
                let ghost pre = strs(done@);
                done.push(crate::text::string_from_chars(cur.as_slice()));
                assert(strs(done@) =~= pre.push(cur@));
                cur = Vec::new();
            }
        } else {
            cur.push(c);
        }
        i = i + 1;
    }
    assert(cs@.subrange(0, i as int) =~= line@);
    if cur.len() > 0 {
        let ghost pre = strs(done@);
        done.push(crate::text::string_from_chars(cur.as_slice()));
        assert(strs(done@) =~= pre.push(cur@));
    }
    assert(strs(done@) == words(line@));
    let first = if done.len() > 0 { Some(done[0].clone()) } else { None };
    let second = if done.len() > 1 { Some(done[1].clone()) } else { None };
    (first, second)
}

/// The status text naming the clusters, the active one starred.
pub open spec fn clusters_text(a: App, text: Seq<char>) -> bool {
    exists|names: Seq<Seq<char>>| #![trigger names.to_multiset()]
        crate::text::sorted_strs(names) && names.to_multiset() == a.config.names().to_multiset()
        && text == "clusters: "@ + join(starred(names, a.cluster_name@), ", "@) + "  (current: "@ + a.cluster_name@ + ")"@
}

/// Switching to cluster `name`: saved as the default, a fresh topic list,
/// then a new connection; or, for an unknown name, the status line lists
/// the clusters there are and nothing else changes.
pub open spec fn cluster_switch_outcome(a: App, b: App, r: Seq<Effect>, name: Seq<char>) -> bool {
    if !has_key(cluster_entries(a.config.clusters@), name) {
        &&& r.len() == 0
        &&& b == (App { status: b.status, ..a })
        &&& exists|names: Seq<Seq<char>>| #![trigger names.to_multiset()]
            crate::text::sorted_strs(names) && names.to_multiset() == a.config.names().to_multiset()
            && b.status@ == "cluster '"@ + name + "' not found (available: "@ + join(names, ", "@) + ")"@
    } else {
        &&& b.cluster_name@ == name
        &&& b.config == (AppConfig { defaults: Defaults { cluster: b.config.defaults.cluster, ..a.config.defaults }, ..a.config })
        &&& crate::config::opt_view(b.config.defaults.cluster) == Some(name)
        &&& !b.connected
        &&& b.cached_topics@.len() == 0
        &&& b.stack@.len() == 1 && b.on_screen(Screen::Topics)
        &&& b.stack@[0] matches ViewStack::Topics(v) && crate::views::fresh_topics(v)
        &&& !b.show_partitions_popup
        &&& b.loading
        &&& b.status@ == "switching to "@ + name + "…"@
        &&& r == seq![Effect::SaveConfig]
        &&& b.save_note matches Some(n) && n.next == FollowUp::Connect
            && n.saved@ == "cluster → "@ + name + " (saved to config)"@
            && n.failed_head@ == "cluster → "@ + name + " (config not saved: "@
            && n.failed_tail@ == ")"@
        &&& b == (App {
            config: b.config, cluster_name: b.cluster_name, cluster_index: b.cluster_index, connected: false,
            cached_topics: b.cached_topics, stack: b.stack, show_partitions_popup: false, loading: true,
            status: b.status, save_note: b.save_note, ..a
        })
    }
}

impl App {
    /// Makes `name` the active cluster: saved as the default, a fresh
    /// topic list, then a new connection; or the error naming the clusters.
    pub fn switch_cluster(&mut self, name: &str) -> (r: Vec<Effect>)
        requires
            old(self).wf(),
        ensures
            final(self).modal == old(self).modal,
            final(self).wf(),
            cluster_switch_outcome(*old(self), *final(self), r@, name@),
    {
        if let Err(e) = self.config.set_active_cluster(name) {
            self.status = e;
            return Vec::new();
        }
        let idx = match self.config.find_cluster(name) {
            Some(i) => i,
            None => {
                return Vec::new();
            },
        };
        self.cluster_name = String::from_str(name);
        self.cluster_index = idx;
        self.connected = false;
        self.cached_topics = Vec::new();
        self.stack = Vec::new();
        self.stack.push(ViewStack::Topics(TopicsView::new()));
        self.show_partitions_popup = false;
        self.loading = true;
        self.status = cat3("switching to ", name, "…");
        let saved = cat3("cluster → ", name, " (saved to config)");
        let head = cat3("cluster → ", name, " (config not saved: ");
        self.save_config(saved, head, String::from_str(")"), FollowUp::Connect)
    }
}

/// The topic list filtered by a label replaces the screens: from the last
/// read of the topics when there is one, else the topics load (or the
/// connection is made first).
pub open spec fn label_shown_outcome(a: App, b: App, r: Seq<Effect>, label: Seq<char>) -> bool {
    &&& b == (App { stack: b.stack, loading: b.loading, status: b.status, ..a })
    &&& b.stack@.len() == 1
    &&& b.top() matches ViewStack::Topics(v) && v.label_filter matches Some(f) && f@ == label
    &&& a.cached_topics@.len() > 0 ==> r.len() == 0 && b.loading == a.loading && b.status@ == "filter: label @"@ + label
    &&& a.cached_topics@.len() == 0 && a.connected ==> b.loading && b.status@ == "loading topics…"@ && r == seq![Effect::ListTopics]
    &&& a.cached_topics@.len() == 0 && !a.connected ==> b.loading == a.loading && b.status == a.status
        && r.len() == 1 && r[0] is Connect
}

impl App {
    /// Shows the topic list filtered by `label` (from the last read when
    /// there is one).
    pub(crate) fn show_label(&mut self, label: String) -> (r: Vec<Effect>)
        requires
            old(self).wf(),
        ensures
            final(self).modal == old(self).modal,
            final(self).wf(),
            final(self).stack@.len() == 1,
            final(self).top() matches ViewStack::Topics(v) && v.label_filter == Some(label),
            label_shown_outcome(*old(self), *final(self), r@, label@),
    {
        let mut tv = TopicsView::new();
        let lbl = label.clone();
        tv.set_label_filter(Some(lbl));
        if self.cached_topics.len() > 0 {
            let topics = copy_topics(&self.cached_topics);
            tv.load_with_labels(topics, &self.config.topic_labels, self.cluster_name.as_str());
        }
        self.stack = Vec::new();
        self.stack.push(ViewStack::Topics(tv));
        if self.cached_topics.len() == 0 {
            self.refresh_topics()
        } else {
            self.status = cat("filter: label @", label.as_str());
            Vec::new()
        }
    }

    /// Runs a `:` command: the first word names it (in any letter case),
    /// the second is its argument.
    pub fn execute_command(&mut self, line: &str) -> (r: Vec<Effect>)
        requires
            old(self).wf(),
        ensures
            final(self).wf(),
            final(self).modal == old(self).modal,
            words(line@).len() == 0 ==> r@.len() == 0 && *final(self) == *old(self),
            words(line@).len() > 0 ==> command_outcome(*old(self), *final(self), r@, cmd_of(line@), arg_of(line@)),
    {
        let (first, second) = first_two_words(line);
        let word = match first {
            Some(w) => w,
            None => {
                return Vec::new();
            },
        };
        let cmd = crate::text::lowercase(word.as_str());
        assert(cmd@ == cmd_of(line@));
        let ghost a = arg_of(line@);
        assert(match second { Some(x) => a == Some(x@), None => a is None });
        self.run_command(cmd.as_str(), second)
    }

    fn run_command(&mut self, c: &str, second: Option<String>) -> (r: Vec<Effect>)
        requires
            old(self).wf(),
        ensures
            final(self).wf(),
            final(self).modal == old(self).modal,
            command_outcome(*old(self), *final(self), r@, c@, match second { Some(x) => Some(x@), None => None }),
    {
        if str_eq(c, "context") || str_eq(c, "ctx") {
            match second {
                Some(name) => self.switch_cluster(name.as_str()),
                None => {
                    self.status = self.format_clusters_list();
                    Vec::new()
                },
            }
        } else if str_eq(c, "clusters") {
            self.status = self.format_clusters_list();
            Vec::new()
        } else if str_eq(c, "limit") {
            match second {
                Some(n) => match crate::text::parse_usize(n.as_str()) {
                    Some(limit) => {
                        if 10 <= limit && limit <= 10000 {
                            self.set_message_limit(limit)
                        } else {
                            self.status = String::from_str("limit must be 10–10000");
                            Vec::new()
                        }
                    },
                    None => {
                        self.status = String::from_str("limit must be 10–10000");
                        Vec::new()
                    },
                },
                None => {
                    self.status = String::from_str("usage: :limit <N>  (10–10000)");
                    Vec::new()
                },
            }
        } else if str_eq(c, "poll") {
            match second {
                Some(n) => match crate::text::parse_u64(n.as_str()) {
                    Some(v) => {
                        let secs = clamp_live_poll_secs(v);
                        self.config.defaults.live_poll_secs = secs;
                        self.last_live_poll = None;
                        let s = fmt_u64(secs);
                        let saved = cat3("live poll interval → ", s.as_str(), "s (saved)");
                        let head = cat3("live poll interval → ", s.as_str(), "s (not saved: ");
                        self.save_config(saved, head, String::from_str(")"), FollowUp::Nothing)
                    },
                    None => {
                        self.status = String::from_str("poll must be seconds (1–30)");
                        Vec::new()
                    },
                },
                None => {
                    let secs = clamp_live_poll_secs(self.config.defaults.live_poll_secs);
                    let s = fmt_u64(secs);
                    self.status = cat3("live poll interval: ", s.as_str(), "s  (:poll <1-30>)");
                    Vec::new()
                },
            }
        } else {
            self.run_screen_command(c, second)
        }
    }

    fn run_screen_command(&mut self, c: &str, second: Option<String>) -> (r: Vec<Effect>)
        requires
            old(self).wf(),
        ensures
            final(self).wf(),
            final(self).modal == old(self).modal,
            screen_command_outcome(*old(self), *final(self), r@, c@, match second { Some(x) => Some(x@), None => None }),
    {
        if str_eq(c, "groups") || str_eq(c, "g") {
            self.open_groups()
        } else if str_eq(c, "labels") {
            self.switch_nav(Screen::Labels)
        } else if str_eq(c, "contexts") {
            self.switch_nav(Screen::Contexts)
        } else if str_eq(c, "acls") || str_eq(c, "acl") {
            self.switch_nav(Screen::Acls)
        } else if str_eq(c, "schemas") || str_eq(c, "schema") || str_eq(c, "sr") {
            self.switch_nav(Screen::Schemas)
        } else if str_eq(c, "connect") || str_eq(c, "connectors") {
            self.switch_nav(Screen::Connectors)
        } else {
            self.run_other_command(c, second)
        }
    }

    fn run_other_command(&mut self, c: &str, second: Option<String>) -> (r: Vec<Effect>)
        requires
            old(self).wf(),
        ensures
            final(self).wf(),
            final(self).modal == old(self).modal,
            other_command_outcome(*old(self), *final(self), r@, c@, match second { Some(x) => Some(x@), None => None }),
    {
        if str_eq(c, "label-delete") || str_eq(c, "label-rm") {
            match second {
                Some(name) => self.run_delete_label(name),
                None => {
                    self.status = String::from_str("usage: :label-delete <name>");
                    Vec::new()
                },
            }
        } else if str_eq(c, "label") {
            match second {
                Some(name) => self.show_label(name),
                None => {
                    self.status = String::from_str("usage: :label <name>");
                    Vec::new()
                },
            }
        } else if str_eq(c, "help") || str_eq(c, "h") || str_eq(c, "?") {
            let mut s = String::from_str("config: ");
            match &self.config_path {
                Some(p) => s.append(p.as_str()),
                None => s.append("?"),
            }
            s.append("  |  :context  :contexts  :groups  :labels  :acls  :schemas  :connect  :label  :label-delete  :limit  :poll  :help");
            self.status = s;
            Vec::new()
        } else {
            self.status = cat3("unknown command '", c, "' — try :help");
            Vec::new()
        }
    }
}

/// What a `:` command does (`cmd` in lower case, `arg` its argument).
pub open spec fn command_outcome(a: App, b: App, r: Seq<Effect>, cmd: Seq<char>, arg: Option<Seq<char>>) -> bool {
    if cmd == "context"@ || cmd == "ctx"@ {
        match arg {
            None => status_only(a, b, r) && clusters_text(a, b.status@),
            Some(name) => cluster_switch_outcome(a, b, r, name),
        }
    } else if cmd == "clusters"@ {
        status_only(a, b, r) && clusters_text(a, b.status@)
    } else if cmd == "limit"@ {
        match arg {
            None => status_only(a, b, r) && b.status@ == "usage: :limit <N>  (10–10000)"@,
            Some(s) => match parse_in_range(s, false, 0, usize::MAX as int) {
                Some(n) => if 10 <= n <= 10000 {
                    limit_set_outcome(a, b, r, n as usize)
                } else {
                    status_only(a, b, r) && b.status@ == "limit must be 10–10000"@
                },
                None => status_only(a, b, r) && b.status@ == "limit must be 10–10000"@,
            },
        }
    } else if cmd == "poll"@ {
        match arg {
            Some(s) => match parse_in_range(s, false, 0, u64::MAX as int) {
                Some(n) => {
                    let secs = clamp_spec(n, 1, 30);
                    &&& r == seq![Effect::SaveConfig]
                    &&& b.config == (AppConfig { defaults: Defaults { live_poll_secs: secs as u64, ..a.config.defaults }, ..a.config })
                    &&& b.save_note matches Some(note) && note.next == FollowUp::Nothing
                        && note.saved@ == "live poll interval → "@ + dec(secs as nat) + "s (saved)"@
                        && note.failed_head@ == "live poll interval → "@ + dec(secs as nat) + "s (not saved: "@
                        && note.failed_tail@ == ")"@
                    &&& b == (App { config: b.config, last_live_poll: None, save_note: b.save_note, ..a })
                },
                None => status_only(a, b, r) && b.status@ == "poll must be seconds (1–30)"@,
            },
            None => status_only(a, b, r) && b.status@ == "live poll interval: "@
                + dec(clamp_spec(a.config.defaults.live_poll_secs as int, 1, 30) as nat) + "s  (:poll <1-30>)"@,
        }
    } else {
        screen_command_outcome(a, b, r, cmd, arg)
    }
}

/// Only the status line changes, and no work is asked for.
pub open spec fn status_only(a: App, b: App, r: Seq<Effect>) -> bool {
    r.len() == 0 && b == (App { status: b.status, ..a })
}

/// What a `:` command that opens a screen does.
pub open spec fn screen_command_outcome(a: App, b: App, r: Seq<Effect>, cmd: Seq<char>, arg: Option<Seq<char>>) -> bool {
    if cmd == "groups"@ || cmd == "g"@ {
        nav_switch_outcome(a, b, r, Screen::Groups)
    } else if cmd == "labels"@ {
        nav_switch_outcome(a, b, r, Screen::Labels)
    } else if cmd == "contexts"@ {
        nav_switch_outcome(a, b, r, Screen::Contexts)
    } else if cmd == "acls"@ || cmd == "acl"@ {
        nav_switch_outcome(a, b, r, Screen::Acls)
    } else if cmd == "schemas"@ || cmd == "schema"@ || cmd == "sr"@ {
        nav_switch_outcome(a, b, r, Screen::Schemas)
    } else if cmd == "connect"@ || cmd == "connectors"@ {
        nav_switch_outcome(a, b, r, Screen::Connectors)
    } else {
        other_command_outcome(a, b, r, cmd, arg)
    }
}

/// What the label and help commands do, and an unknown one.
pub open spec fn other_command_outcome(a: App, b: App, r: Seq<Effect>, cmd: Seq<char>, arg: Option<Seq<char>>) -> bool {
    if cmd == "label-delete"@ || cmd == "label-rm"@ {
        match arg {
            None => status_only(a, b, r) && b.status@ == "usage: :label-delete <name>"@,
            Some(l) => label_delete_outcome(a, b, r, l),
        }
    } else if cmd == "label"@ {
        match arg {
            None => status_only(a, b, r) && b.status@ == "usage: :label <name>"@,
            Some(name) => label_shown_outcome(a, b, r, name),
        }
    } else if cmd == "help"@ || cmd == "h"@ || cmd == "?"@ {
        status_only(a, b, r) && b.status@ == "config: "@
            + (match a.config_path { Some(p) => p@, None => "?"@ })
            + "  |  :context  :contexts  :groups  :labels  :acls  :schemas  :connect  :label  :label-delete  :limit  :poll  :help"@
    } else {
        status_only(a, b, r) && b.status@ == "unknown command '"@ + cmd + "' — try :help"@
    }
}

/// The command word of a `:` line, in lower case.
pub open spec fn cmd_of(line: Seq<char>) -> Seq<char> {
    crate::text::unicode_lower(words(line)[0])
}

/// The argument of a `:` line.
pub open spec fn arg_of(line: Seq<char>) -> Option<Seq<char>> {
    if words(line).len() > 1 { Some(words(line)[1]) } else { None }
}


} // verus!
