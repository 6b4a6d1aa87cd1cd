//! Kafka Connect REST client (Connect 2.x and later): the requests it sends
//! and what it makes of the answers. The caller performs each request and
//! hands back the response.

use vstd::prelude::*;

use crate::config::KafkaConnectConfig;
use crate::http::{
    auth_headers, auth_view, base_url, credentials, credentials_of, header_views, json_string_map_entries,
    normalize_base_url, parse_string_map, pct_encode, percent_encode, pretty_json_object, pretty_object,
    push_auth_header, HttpMethod, HttpRequest, HttpResponse,
};
use crate::order::{ranked_sorted, sort_ranked, Ranked};
use crate::text::{contains, contains_seq, dec, fmt_usize, lemma_lex_irrefl, lemma_lex_split, lemma_lex_trans, lex_lt, str_eq, str_lt};

verus! {

/// One connector of the list.
#[derive(Debug, Clone)]
pub struct ConnectorSummary {
    pub name: String,
    pub kind: String,
    pub state: String,
    pub tasks_running: usize,
    pub tasks_failed: usize,
    pub tasks_total: usize,
}

/// A task of a connector.
#[derive(Debug, Clone)]
pub struct TaskStatus {
    pub id: i32,
    pub state: String,
    pub worker_id: Option<String>,
    pub trace: Option<String>,
}

/// A connector with its tasks and configuration.
#[derive(Debug, Clone)]
pub struct ConnectorDetail {
    pub name: String,
    pub kind: String,
    pub state: String,
    pub worker_id: Option<String>,
    pub tasks: Vec<TaskStatus>,
    /// The configuration, by key.
    pub config: Vec<(String, String)>,
    /// The configuration as pretty-printed JSON.
    pub config_json: String,
}

/// The connector part of a status answer (absent fields empty).
#[derive(Debug, Clone)]
pub struct ConnectorState {
    pub state: String,
    pub worker_id: Option<String>,
}

/// A task entry of a status answer.
#[derive(Debug, Clone)]
pub struct TaskEntry {
    pub id: i32,
    pub state: String,
    pub worker_id: Option<String>,
    pub trace: Option<String>,
}

/// `GET /connectors/{name}/status`.
#[derive(Debug, Clone)]
pub struct StatusResponse {
    pub connector: ConnectorState,
    pub tasks: Vec<TaskEntry>,
}

/// `info` of the expanded connector list: the connector type and config.
#[derive(Debug, Clone)]
pub struct InfoResponse {
    pub kind: String,
    pub config: Vec<(String, String)>,
}

/// One connector of the expanded list.
#[derive(Debug, Clone)]
pub struct ExpandEntry {
    pub status: Option<StatusResponse>,
    pub info: Option<InfoResponse>,
}

/// A client of one Connect cluster.
#[derive(Debug, Clone)]
pub struct KafkaConnectClient {
    pub base: String,
    pub auth: Option<(String, String)>,
}

/// The error of a failed request.
pub open spec fn connect_http_error(status: u16, url: Seq<char>, body: Seq<char>) -> Seq<char> {
    "kafka connect HTTP "@ + dec(status as nat) + " on "@ + url + ": "@ + body
}

/// The error of a body that is not the expected JSON.
pub open spec fn connect_parse_error(url: Seq<char>, cause: Seq<char>) -> Seq<char> {
    "parse JSON from "@ + url + ": "@ + cause
}

/// Whether the class names a source or a sink connector.
pub open spec fn kind_of_class(class: Seq<char>) -> Seq<char> {
    if contains_seq(class, "Source"@) {
        "source"@
    } else if contains_seq(class, "Sink"@) {
        "sink"@
    } else {
        "connector"@
    }
}

/// `source`, `sink` or `connector`, from the connector class.
pub fn connector_kind(class: &str) -> (r: String)
    ensures
        r@ == kind_of_class(class@),
{
    if contains(class, "Source") {
        String::from_str("source")
    } else if contains(class, "Sink") {
        String::from_str("sink")
    } else {
        String::from_str("connector")
    }
}

/// The value of `key` among the entries (the first entry with it).
pub open spec fn entry_value(entries: Seq<(String, String)>, key: Seq<char>) -> Option<Seq<char>>
    decreases entries.len(),
{
    if entries.len() == 0 {
        None
    } else if entries[0].0@ == key {
        Some(entries[0].1@)
    } else {
        entry_value(entries.drop_first(), key)
    }
}

fn find_entry<'a>(entries: &'a [(String, String)], key: &str) -> (r: Option<&'a String>)
    ensures
        match r {
            Some(v) => entry_value(entries@, key@) == Some(v@),
            None => entry_value(entries@, key@) is None,
        },
{
    let mut i: usize = 0;
    assert(entries@.subrange(0, entries@.len() as int) =~= entries@);
    while i < entries.len()
        invariant
            i <= entries@.len(),
            entry_value(entries@, key@) == entry_value(entries@.subrange(i as int, entries@.len() as int), key@),
        decreases entries.len() - i,
    {
        let ghost rest = entries@.subrange(i as int, entries@.len() as int);
        assert(rest.drop_first() =~= entries@.subrange(i + 1, entries@.len() as int));
        if str_eq(entries[i].0.as_str(), key) {
            return Some(&entries[i].1);
        }
        i = i + 1;
    }
    None
}

/// Tasks in state `st`.
pub open spec fn tasks_in(tasks: Seq<TaskEntry>, st: Seq<char>) -> nat
    decreases tasks.len(),
{
    if tasks.len() == 0 {
        0
    } else {
        tasks_in(tasks.drop_last(), st) + if tasks.last().state@ == st { 1nat } else { 0nat }
    }
}

fn count_tasks(tasks: &[TaskEntry], st: &str) -> (r: usize)
    ensures
        r == tasks_in(tasks@, st@),
{
    let mut n: usize = 0;
    let mut i: usize = 0;
    while i < tasks.len()
        invariant
            i <= tasks@.len(),
            n == tasks_in(tasks@.subrange(0, i as int), st@),
            n <= i,
        decreases tasks.len() - i,
    {
        assert(tasks@.subrange(0, i + 1).drop_last() =~= tasks@.subrange(0, i as int));
        if str_eq(tasks[i].state.as_str(), st) {
            n = n + 1;
        }
        i = i + 1;
    }
    assert(tasks@.subrange(0, i as int) =~= tasks@);
    n
}

/// A configuration value is the one of the first entry with that key:
/// none when no entry has the key.
pub proof fn law_entry_value_is_first_match(entries: Seq<(String, String)>, key: Seq<char>)
    ensures
        entry_value(entries, key) is None <==> (forall|k: int| 0 <= k < entries.len() ==> (#[trigger] entries[k]).0@ != key),
        entry_value(entries, key) is Some ==> exists|k: int| 0 <= k < entries.len() && (#[trigger] entries[k]).0@ == key
            && entries[k].1@ == entry_value(entries, key)->0
            && forall|j: int| 0 <= j < k ==> (#[trigger] entries[j]).0@ != key,
    decreases entries.len(),
{
    if entries.len() > 0 && entries[0].0@ != key {
        let d = entries.drop_first();
        law_entry_value_is_first_match(d, key);
        assert forall|k: int| 0 <= k < d.len() implies #[trigger] d[k] == entries[k + 1] by {}
        if entry_value(d, key) is Some {
            let k = choose|k: int| 0 <= k < d.len() && (#[trigger] d[k]).0@ == key
                && d[k].1@ == entry_value(d, key)->0
                && forall|j: int| 0 <= j < k ==> (#[trigger] d[j]).0@ != key;
            assert(entries[k + 1] == d[k]);
            assert forall|j: int| 0 <= j < k + 1 implies (#[trigger] entries[j]).0@ != key by {
                if j > 0 {
                    assert(entries[j] == d[j - 1]);
                }
            }
        } else {
            assert forall|k: int| 0 <= k < entries.len() implies (#[trigger] entries[k]).0@ != key by {
                if k > 0 {
                    assert(entries[k] == d[k - 1]);
                }
            }
        }
    } else if entries.len() > 0 {
        assert(entries[0].0@ == key);
    }
}

/// Counting tasks by state: no more than there are tasks, all of them when
/// every task has the state, none when no task has it, and tasks of two
/// different states are counted apart.
pub proof fn law_tasks_in_counts_by_state(tasks: Seq<TaskEntry>, st: Seq<char>, other: Seq<char>)
    ensures
        tasks_in(tasks, st) <= tasks.len(),
        (forall|k: int| 0 <= k < tasks.len() ==> (#[trigger] tasks[k]).state@ == st) ==> tasks_in(tasks, st) == tasks.len(),
        (forall|k: int| 0 <= k < tasks.len() ==> (#[trigger] tasks[k]).state@ != st) ==> tasks_in(tasks, st) == 0,
        st != other ==> tasks_in(tasks, st) + tasks_in(tasks, other) <= tasks.len(),
    decreases tasks.len(),
{
    if tasks.len() > 0 {
        let d = tasks.drop_last();
        law_tasks_in_counts_by_state(d, st, other);
        assert forall|k: int| 0 <= k < d.len() implies #[trigger] d[k] == tasks[k] by {}
        assert(tasks.last() == tasks[tasks.len() - 1]);
    }
}

/// The kind shown in the list: from the configured connector class, else
/// the type the worker reports, else a dash.
pub open spec fn summary_kind(info: Option<InfoResponse>) -> Seq<char> {
    match info {
        Some(i) => match entry_value(i.config@, "connector.class"@) {
            Some(c) => kind_of_class(c),
            None => i.kind@,
        },
        None => "—"@,
    }
}

/// The list row of connector `name` from its expanded entry; without a
/// status it counts no tasks and shows an empty state.
pub fn summary_from_entry(name: &str, entry: ExpandEntry) -> (r: Result<ConnectorSummary, String>)
    ensures
        r matches Ok(s) && s.name@ == name@ && s.kind@ == summary_kind(entry.info)
            && match entry.status {
                Some(st) => s.state == st.connector.state
                    && s.tasks_total == st.tasks@.len()
                    && s.tasks_running == tasks_in(st.tasks@, "RUNNING"@)
                    && s.tasks_failed == tasks_in(st.tasks@, "FAILED"@),
                None => s.state@.len() == 0 && s.tasks_total == 0 && s.tasks_running == 0 && s.tasks_failed == 0,
            },
{
    let kind = match &entry.info {
        Some(i) => match find_entry(i.config.as_slice(), "connector.class") {
            Some(c) => connector_kind(c.as_str()),
            None => i.kind.clone(),
        },
        None => String::from_str("—"),
    };
    match entry.status {
        Some(st) => {
            let total = st.tasks.len();
            let running = count_tasks(st.tasks.as_slice(), "RUNNING");
            let failed = count_tasks(st.tasks.as_slice(), "FAILED");
            Ok(ConnectorSummary {
                name: String::from_str(name),
                kind,
                state: st.connector.state,
                tasks_running: running,
                tasks_failed: failed,
                tasks_total: total,
            })
        },
        None => Ok(ConnectorSummary {
            name: String::from_str(name),
            kind,
            state: String::new(),
            tasks_running: 0,
            tasks_failed: 0,
            tasks_total: 0,
        }),
    }
}

/// A list row shows the connector of the entry: its name, kind, state and
/// task counts (without a status, an empty state and no tasks).
pub open spec fn row_of_entry(row: ConnectorSummary, entry: (String, ExpandEntry)) -> bool {
    &&& row.name == entry.0
    &&& row.kind@ == summary_kind(entry.1.info)
    &&& match entry.1.status {
        Some(st) => row.state == st.connector.state
            && row.tasks_total == st.tasks@.len()
            && row.tasks_running == tasks_in(st.tasks@, "RUNNING"@)
            && row.tasks_failed == tasks_in(st.tasks@, "FAILED"@),
        None => row.state@.len() == 0 && row.tasks_total == 0 && row.tasks_running == 0 && row.tasks_failed == 0,
    }
}

/// Some list row shows the entry.
pub open spec fn entry_has_row(rows: Seq<ConnectorSummary>, entry: (String, ExpandEntry)) -> bool {
    exists|i: int| 0 <= i < rows.len() && #[trigger] row_of_entry(rows[i], entry)
}

/// A list row shows one of the entries.
pub open spec fn row_from_some_entry(row: ConnectorSummary, entries: Seq<(String, ExpandEntry)>) -> bool {
    exists|j: int| 0 <= j < entries.len() && #[trigger] row_of_entry(row, entries[j])
}

impl Ranked for ConnectorSummary {
    open spec fn ranks_before(a: ConnectorSummary, b: ConnectorSummary) -> bool {
        lex_lt(a.name@, b.name@)
    }

    proof fn lemma_ranks_irrefl(a: ConnectorSummary) {
        lemma_lex_irrefl(a.name@);
    }

    proof fn lemma_ranks_trans(a: ConnectorSummary, b: ConnectorSummary, c: ConnectorSummary) {
        lemma_lex_trans(a.name@, b.name@, c.name@);
    }

    proof fn lemma_ranks_split(a: ConnectorSummary, b: ConnectorSummary, c: ConnectorSummary) {
        lemma_lex_split(a.name@, b.name@, c.name@);
    }

    fn precedes(&self, other: &ConnectorSummary) -> (r: bool) {
        str_lt(self.name.as_str(), other.name.as_str())
    }
}

/// The error of a request answered with status 400 or above.
pub fn check_connect_status(url: &str, resp: &HttpResponse) -> (r: Result<(), String>)
    ensures
        resp.status < 400 ==> r is Ok,
        resp.status >= 400 ==> (r matches Err(e) && e@ == connect_http_error(resp.status, url@, resp.body@)),
{
    if resp.status >= 400 {
        let mut e = String::from_str("kafka connect HTTP ");
        let code = fmt_usize(resp.status as usize);
        e.append(code.as_str());
        e.append(" on ");
        e.append(url);
        e.append(": ");
        e.append(resp.body.as_str());
        Err(e)
    } else {
        Ok(())
    }
}

fn parse_failure(url: &str, cause: &str) -> (r: String)
    ensures
        r@ == connect_parse_error(url@, cause@),
{
    let mut e = String::from_str("parse JSON from ");
    e.append(url);
    e.append(": ");
    e.append(cause);
    e
}

/// The list rows of the entries, sorted by name.
fn summaries_of(entries: Vec<(String, ExpandEntry)>) -> (r: Vec<ConnectorSummary>)
    ensures
        ranked_sorted(r@),
        r@.len() == entries@.len(),
        forall|i: int| 0 <= i < r@.len() ==> row_from_some_entry(#[trigger] r@[i], entries@),
        forall|j: int| 0 <= j < entries@.len() ==> entry_has_row(r@, #[trigger] entries@[j]),
{
    let mut rows: Vec<ConnectorSummary> = Vec::new();
    let ghost all = entries@;
    let mut src = entries;
    let n = src.len();
    let mut k: usize = 0;
    while src.len() > 0
        invariant
            all.len() == n,
            k + src@.len() == n,
            src@ == all.subrange(k as int, n as int),
            rows@.len() == k,
            forall|i: int| 0 <= i < k ==> row_of_entry(#[trigger] rows@[i], all[i]),
        decreases src.len(),
    {
        let (name, entry) = src.remove(0);
        assert(all[k as int] == (name, entry));
        let row = summary_from_entry(name.as_str(), entry);
        let mut s = match row {
            Ok(s) => s,
            Err(_) => {
                assert(false);
                ConnectorSummary { name: String::new(), kind: String::new(), state: String::new(), tasks_running: 0, tasks_failed: 0, tasks_total: 0 }
            },
        };
        s.name = name;
        rows.push(s);
        k = k + 1;
        assert(src@ =~= all.subrange(k as int, n as int));
    }
    let ghost unsorted = rows@;
    let sorted = sort_ranked(rows);
    proof {
        broadcast use vstd::seq_lib::group_to_multiset_ensures;
        vstd::seq_lib::to_multiset_len(sorted@);
        vstd::seq_lib::to_multiset_len(unsorted);
        assert forall|i: int| 0 <= i < sorted@.len() implies row_from_some_entry(#[trigger] sorted@[i], entries@) by {
            assert(sorted@.to_multiset().count(sorted@[i]) > 0);
            assert(unsorted.contains(sorted@[i]));
            let j = choose|j: int| 0 <= j < unsorted.len() && unsorted[j] == sorted@[i];
            assert(row_of_entry(unsorted[j], all[j]));
            assert(row_of_entry(sorted@[i], entries@[j]));
        }
        assert forall|j: int| 0 <= j < entries@.len() implies entry_has_row(sorted@, #[trigger] entries@[j]) by {
            assert(row_of_entry(unsorted[j], all[j]));
            assert(unsorted.contains(unsorted[j]));
            assert(unsorted.to_multiset().count(unsorted[j]) > 0);
            assert(sorted@.contains(unsorted[j]));
            let i = choose|i: int| 0 <= i < sorted@.len() && sorted@[i] == unsorted[j];
            assert(row_of_entry(sorted@[i], entries@[j]));
        }
    }
    sorted
}

impl KafkaConnectClient {
    pub open spec fn auth_spec(&self) -> Option<(Seq<char>, Seq<char>)> {
        auth_view(self.auth)
    }

    /// A client for `cfg`: the URL trimmed and without trailing `/`
    /// (refused when nothing is left), with credentials when a non-empty
    /// user name and a password are set.
    pub fn new(cfg: &KafkaConnectConfig) -> (r: Result<KafkaConnectClient, String>)
        ensures
            base_url(cfg.url@).len() == 0 ==> (r matches Err(e) && e@ == "kafka_connect.url is empty"@),
            base_url(cfg.url@).len() > 0 ==> (r matches Ok(c) && c.base@ == base_url(cfg.url@)
                && c.auth_spec() == credentials_of(cfg.username, cfg.password)),
    {
        let base = normalize_base_url(cfg.url.as_str());
        if base.unicode_len() == 0 {
            return Err(String::from_str("kafka_connect.url is empty"));
        }
        let auth = credentials(&cfg.username, &cfg.password);
        Ok(KafkaConnectClient { base, auth })
    }

    pub open spec fn connector_path(&self, name: Seq<char>) -> Seq<char> {
        self.base@ + "/connectors/"@ + pct_encode(vstd::utf8::encode_utf8(name))
    }

    fn connector_url(&self, name: &str) -> (r: String)
        ensures
            r@ == self.connector_path(name@),
    {
        let mut url = self.base.clone();
        url.append("/connectors/");
        let enc = percent_encode(name);
        url.append(enc.as_str());
        url
    }

    fn request(&self, method: HttpMethod, url: String) -> (r: HttpRequest)
        ensures
            r.method == method,
            r.url == url,
            header_views(r.headers@) == auth_headers(self.auth_spec()),
    {
        let mut headers: Vec<(String, String)> = Vec::new();
        assert(header_views(headers@) =~= Seq::<(Seq<char>, Seq<char>)>::empty());
        push_auth_header(&mut headers, &self.auth);
        assert(header_views(headers@) =~= auth_headers(self.auth_spec()));
        HttpRequest { method, url, headers }
    }

    pub open spec fn list_url(&self) -> Seq<char> {
        self.base@ + "/connectors?expand=status&expand=info"@
    }

    /// `GET {base}/connectors?expand=status&expand=info`.
    pub fn list_request(&self) -> (r: HttpRequest)
        ensures
            r.method == HttpMethod::Get,
            r.url@ == self.list_url(),
            header_views(r.headers@) == auth_headers(self.auth_spec()),
    {
        let mut url = self.base.clone();
        url.append("/connectors?expand=status&expand=info");
        self.request(HttpMethod::Get, url)
    }

    /// The connector list from the answer to `list_request`; `decoded` is
    /// the body decoded by the caller (connector name to entry), or the
    /// decoder's error message. Rows are sorted by name.
    pub fn list_summaries(&self, resp: &HttpResponse, decoded: Result<Vec<(String, ExpandEntry)>, String>) -> (r: Result<Vec<ConnectorSummary>, String>)
        ensures
            resp.status >= 400 ==> (r matches Err(e) && e@ == connect_http_error(resp.status, self.list_url(), resp.body@)),
            resp.status < 400 ==> match decoded {
                Err(cause) => r matches Err(e) && e@ == connect_parse_error(self.list_url(), cause@),
                Ok(entries) => r matches Ok(rows) && ranked_sorted(rows@) && rows@.len() == entries@.len()
                    && (forall|i: int| 0 <= i < rows@.len() ==> row_from_some_entry(#[trigger] rows@[i], entries@))
                    && (forall|j: int| 0 <= j < entries@.len() ==> entry_has_row(rows@, #[trigger] entries@[j])),
            },
    {
        let mut url = self.base.clone();
        url.append("/connectors?expand=status&expand=info");
        if let Err(e) = check_connect_status(url.as_str(), resp) {
            return Err(e);
        }
        match decoded {
            Err(cause) => Err(parse_failure(url.as_str(), cause.as_str())),
            Ok(entries) => Ok(summaries_of(entries)),
        }
    }

    /// `GET {base}/connectors/{name}/status`.
    pub fn status_request(&self, name: &str) -> (r: HttpRequest)
        ensures
            r.method == HttpMethod::Get,
            r.url@ == self.connector_path(name@) + "/status"@,
            header_views(r.headers@) == auth_headers(self.auth_spec()),
    {
        let mut url = self.connector_url(name);
        url.append("/status");
        self.request(HttpMethod::Get, url)
    }

    /// `GET {base}/connectors/{name}/config`.
    pub fn config_request(&self, name: &str) -> (r: HttpRequest)
        ensures
            r.method == HttpMethod::Get,
            r.url@ == self.connector_path(name@) + "/config"@,
            header_views(r.headers@) == auth_headers(self.auth_spec()),
    {
        let mut url = self.connector_url(name);
        url.append("/config");
        self.request(HttpMethod::Get, url)
    }

    /// The detail of connector `name` from the answers to `status_request`
    /// (decoded by the caller, or the decoder's error message) and to
    /// `config_request`. The status answer is checked first.
    pub fn get_detail(
        &self,
        name: &str,
        status_resp: &HttpResponse,
        status: Result<StatusResponse, String>,
        config_resp: &HttpResponse,
    ) -> (r: Result<ConnectorDetail, String>)
        ensures
            status_resp.status >= 400 ==> (r matches Err(e)
                && e@ == connect_http_error(status_resp.status, self.connector_path(name@) + "/status"@, status_resp.body@)),
            status_resp.status < 400 && status is Err ==> (r matches Err(e)
                && e@ == connect_parse_error(self.connector_path(name@) + "/status"@, status->Err_0@)),
            status_resp.status < 400 && status is Ok && config_resp.status >= 400 ==> (r matches Err(e)
                && e@ == connect_http_error(config_resp.status, self.connector_path(name@) + "/config"@, config_resp.body@)),
            status_resp.status < 400 && status is Ok && config_resp.status < 400 ==> match json_string_map_entries(config_resp.body@) {
                Err(cause) => r matches Err(e) && e@ == connect_parse_error(self.connector_path(name@) + "/config"@, cause),
                Ok(entries) => r matches Ok(d) && d.name@ == name@
                    && d.state == status->Ok_0.connector.state
                    && d.worker_id == status->Ok_0.connector.worker_id
                    && d.tasks@.len() == status->Ok_0.tasks@.len()
                    && (forall|i: int| 0 <= i < d.tasks@.len() ==> {
                        let t = #[trigger] d.tasks@[i];
                        let s = status->Ok_0.tasks@[i];
                        t.id == s.id && t.state == s.state && t.worker_id == s.worker_id && t.trace == s.trace
                    })
                    && header_views(d.config@) == entries
                    && d.config_json@ == pretty_json_object(entries)
                    && d.kind@ == match entry_value(d.config@, "connector.class"@) { Some(c) => kind_of_class(c), None => "connector"@ },
            },
    {
        let mut status_url = self.connector_url(name);
        status_url.append("/status");
        let mut config_url = self.connector_url(name);
        config_url.append("/config");
        if let Err(e) = check_connect_status(status_url.as_str(), status_resp) {
            return Err(e);
        }
        let st = match status {
            Ok(st) => st,
            Err(cause) => {
                return Err(parse_failure(status_url.as_str(), cause.as_str()));
            },
        };
        if let Err(e) = check_connect_status(config_url.as_str(), config_resp) {
            return Err(e);
        }
        let config = match parse_string_map(config_resp.body.as_str()) {
            Ok(c) => c,
            Err(cause) => {
                return Err(parse_failure(config_url.as_str(), cause.as_str()));
            },
        };
        let config_json = pretty_object(config.as_slice());
        let kind = match find_entry(config.as_slice(), "connector.class") {
            Some(c) => connector_kind(c.as_str()),
            None => String::from_str("connector"),
        };
        let mut tasks: Vec<TaskStatus> = Vec::new();
        let ghost entries = st.tasks@;
        let mut src = st.tasks;
        let n = src.len();
        let mut k: usize = 0;
        while src.len() > 0
            invariant
                entries.len() == n,
                k + src@.len() == n,
                src@ == entries.subrange(k as int, n as int),
                tasks@.len() == k,
                forall|i: int| 0 <= i < k ==> {
                    let t = #[trigger] tasks@[i];
                    let s = entries[i];
                    t.id == s.id && t.state == s.state && t.worker_id == s.worker_id && t.trace == s.trace
                },
            decreases src.len(),
        {
            let t = src.remove(0);
            assert(entries[k as int] == t);
            tasks.push(TaskStatus { id: t.id, state: t.state, worker_id: t.worker_id, trace: t.trace });
            k = k + 1;
            assert(src@ =~= entries.subrange(k as int, n as int));
        }
        Ok(ConnectorDetail {
            name: String::from_str(name),
            kind,
            state: st.connector.state,
            worker_id: st.connector.worker_id,
            tasks,
            config,
            config_json,
        })
    }

    /// `POST {base}/connectors/{name}/restart`.
    pub fn restart(&self, name: &str) -> (r: HttpRequest)
        ensures
            r.method == HttpMethod::Post,
            r.url@ == self.connector_path(name@) + "/restart"@,
            header_views(r.headers@) == auth_headers(self.auth_spec()),
    {
        let mut url = self.connector_url(name);
        url.append("/restart");
        self.request(HttpMethod::Post, url)
    }

    /// `PUT {base}/connectors/{name}/pause`.
    pub fn pause(&self, name: &str) -> (r: HttpRequest)
        ensures
            r.method == HttpMethod::Put,
            r.url@ == self.connector_path(name@) + "/pause"@,
            header_views(r.headers@) == auth_headers(self.auth_spec()),
    {
        let mut url = self.connector_url(name);
        url.append("/pause");
        self.request(HttpMethod::Put, url)
    }

    /// `PUT {base}/connectors/{name}/resume`.
    pub fn resume(&self, name: &str) -> (r: HttpRequest)
        ensures
            r.method == HttpMethod::Put,
            r.url@ == self.connector_path(name@) + "/resume"@,
            header_views(r.headers@) == auth_headers(self.auth_spec()),
    {
        let mut url = self.connector_url(name);
        url.append("/resume");
        self.request(HttpMethod::Put, url)
    }

    /// `DELETE {base}/connectors/{name}`.
    pub fn delete(&self, name: &str) -> (r: HttpRequest)
        ensures
            r.method == HttpMethod::Delete,
            r.url@ == self.connector_path(name@),
            header_views(r.headers@) == auth_headers(self.auth_spec()),
    {
        let url = self.connector_url(name);
        self.request(HttpMethod::Delete, url)
    }

    /// The outcome of a request without an answer body (restart, pause,
    /// resume, delete): a status of 400 or above is an error.
    pub fn finish(&self, req: &HttpRequest, resp: &HttpResponse) -> (r: Result<(), String>)
        ensures
            resp.status < 400 ==> r is Ok,
            resp.status >= 400 ==> (r matches Err(e) && e@ == connect_http_error(resp.status, req.url@, resp.body@)),
    {
        check_connect_status(req.url.as_str(), resp)
    }
}

} // verus!
