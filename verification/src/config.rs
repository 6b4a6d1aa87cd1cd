//! Configuration: clusters with their authentication, Schema Registry and
//! Kafka Connect endpoints, display defaults, and the rules that pick the
//! active cluster, the configuration file and the Kerberos CA file.

use vstd::prelude::*;

use crate::keyed::{has_key, keys, lemma_lookup_at, lookup, unique_keys};
use crate::labels::{store_wf, TopicLabelStore};
use crate::text::{chars_of, contains_seq, dedup_sorted, find, join, join_strings, occurs_at, sort_strings, sorted_strs, str_eq, string_from_chars, strictly_sorted, strs, trim, trim_chars};

verus! {

/// Display and loading defaults.
#[derive(Debug, Clone)]
pub struct Defaults {
    pub cluster: Option<String>,
    pub message_limit: usize,
    /// Live-follow interval in seconds, 1..=30.
    pub live_poll_secs: u64,
    /// UI palette name; the `--theme` flag overrides it.
    pub theme: Option<String>,
    /// Compute per-topic message counts from the watermarks.
    pub fetch_watermarks: bool,
    /// Threads fetching watermarks, 1..=64.
    pub watermark_parallelism: usize,
}

/// Default number of messages fetched.
pub fn default_message_limit() -> (r: usize)
    ensures
        r == 100,
{
    100
}

/// Default live-follow interval.
pub fn default_live_poll_secs() -> (r: u64)
    ensures
        r == 3,
{
    3
}

/// Default of flags that are on unless configured.
pub fn default_true() -> (r: bool)
    ensures
        r,
{
    true
}

/// Default watermark parallelism.
pub fn default_watermark_parallelism() -> (r: usize)
    ensures
        r == 16,
{
    16
}

pub const LIVE_POLL_MIN_SECS: u64 = 1;

pub const LIVE_POLL_MAX_SECS: u64 = 30;

pub const WATERMARK_PARALLELISM_MIN: usize = 1;

pub const WATERMARK_PARALLELISM_MAX: usize = 64;

pub open spec fn clamp_spec(v: int, lo: int, hi: int) -> int {
    if v < lo { lo } else if v > hi { hi } else { v }
}

/// Clamping keeps a value inside `[lo, hi]`: a value already inside is
/// kept, one below becomes `lo`, one above becomes `hi`.
pub proof fn law_clamp_stays_in_range(v: int, lo: int, hi: int)
    requires
        lo <= hi,
    ensures
        lo <= clamp_spec(v, lo, hi) <= hi,
        lo <= v <= hi ==> clamp_spec(v, lo, hi) == v,
        v < lo ==> clamp_spec(v, lo, hi) == lo,
        v > hi ==> clamp_spec(v, lo, hi) == hi,
{
}

/// The live-follow interval kept within 1..=30 seconds.
pub fn clamp_live_poll_secs(secs: u64) -> (r: u64)
    ensures
        r == clamp_spec(secs as int, 1, 30),
{
    if secs < LIVE_POLL_MIN_SECS {
        LIVE_POLL_MIN_SECS
    } else if secs > LIVE_POLL_MAX_SECS {
        LIVE_POLL_MAX_SECS
    } else {
        secs
    }
}

/// The watermark parallelism kept within 1..=64.
pub fn clamp_watermark_parallelism(n: usize) -> (r: usize)
    ensures
        r == clamp_spec(n as int, 1, 64),
{
    if n < WATERMARK_PARALLELISM_MIN {
        WATERMARK_PARALLELISM_MIN
    } else if n > WATERMARK_PARALLELISM_MAX {
        WATERMARK_PARALLELISM_MAX
    } else {
        n
    }
}

/// SCRAM hash.
#[derive(Debug, Clone, Copy, PartialEq, Eq, Structural)]
pub enum ScramMechanism {
    ScramSha256,
    ScramSha512,
}

/// How the client authenticates to the brokers.
#[derive(Debug, Clone)]
pub enum AuthConfig {
    NoAuth,
    SaslPlain { username: String, password: String, tls: bool },
    SaslScram { username: String, password: String, mechanism: ScramMechanism, tls: bool },
    Ssl {
        ca_location: Option<String>,
        certificate_location: Option<String>,
        key_location: Option<String>,
        key_password: Option<String>,
    },
    Kerberos {
        /// Client keytab file.
        keytab: String,
        /// e.g. kafka-client/host.example.com@REALM
        principal: String,
        /// Primary of the broker principal, usually `kafka`.
        service_name: String,
        tls: bool,
        /// `KRB5_CONFIG` path.
        krb5_conf: Option<String>,
        /// CA file for TLS when the brokers use a corporate CA.
        ssl_ca: Option<String>,
        /// Verify the broker host name in its certificate.
        tls_verify_hostname: bool,
    },
}

/// Default broker service name for Kerberos.
pub fn default_kerberos_service() -> (r: String)
    ensures
        r@ == "kafka"@,
{
    String::from_str("kafka")
}

/// A Confluent Schema Registry endpoint.
#[derive(Debug, Clone)]
pub struct SchemaRegistryConfig {
    pub url: String,
    pub username: Option<String>,
    pub password: Option<String>,
    pub tls: bool,
}

/// A Kafka Connect REST endpoint.
#[derive(Debug, Clone)]
pub struct KafkaConnectConfig {
    pub url: String,
    pub username: Option<String>,
    pub password: Option<String>,
    pub tls: bool,
}

/// One cluster.
#[derive(Debug, Clone)]
pub struct ClusterConfig {
    pub brokers: Vec<String>,
    pub auth: AuthConfig,
    pub client_id: Option<String>,
    pub schema_registry: Option<SchemaRegistryConfig>,
    pub kafka_connect: Option<KafkaConnectConfig>,
}

/// The whole configuration file.
#[derive(Debug, Clone)]
pub struct AppConfig {
    pub defaults: Defaults,
    /// Clusters by name, names unique.
    pub clusters: Vec<(String, ClusterConfig)>,
    pub topic_labels: TopicLabelStore,
}

pub open spec fn cluster_entries(cs: Seq<(String, ClusterConfig)>) -> Seq<(Seq<char>, ClusterConfig)> {
    cs.map_values(|e: (String, ClusterConfig)| (e.0@, e.1))
}

pub open spec fn opt_view(o: Option<String>) -> Option<Seq<char>> {
    match o {
        Some(s) => Some(s@),
        None => None,
    }
}

impl AppConfig {
    /// Cluster names are unique, and so are the label store's keys.
    pub open spec fn wf(&self) -> bool {
        &&& unique_keys(cluster_entries(self.clusters@))
        &&& store_wf(self.topic_labels@)
    }

    /// The cluster names, in stored order.
    pub open spec fn names(&self) -> Seq<Seq<char>> {
        keys(cluster_entries(self.clusters@))
    }

    /// The name of the active cluster: the configured default, else the
    /// first cluster, else none.
    pub open spec fn active_name(&self) -> Option<Seq<char>> {
        match self.defaults.cluster {
            Some(n) => Some(n@),
            None => if self.clusters@.len() > 0 { Some(self.clusters@[0].0@) } else { None },
        }
    }

    /// The configuration used when no file exists: one local cluster.
    pub fn default_with_example() -> (r: AppConfig)
        ensures
            r.wf(),
            r.clusters@.len() == 1,
            r.clusters@[0].0@ == "local"@,
            strs(r.clusters@[0].1.brokers@) == seq!["localhost:9092"@],
            r.clusters@[0].1.auth matches AuthConfig::NoAuth,
            opt_view(r.clusters@[0].1.client_id) == Some("y2kexplorer"@),
            r.clusters@[0].1.schema_registry is None,
            r.clusters@[0].1.kafka_connect is None,
            opt_view(r.defaults.cluster) == Some("local"@),
            r.defaults.message_limit == 100,
            r.defaults.live_poll_secs == 3,
            r.defaults.theme is None,
            r.defaults.fetch_watermarks,
            r.defaults.watermark_parallelism == 16,
            r.topic_labels@.len() == 0,
    {
        let mut brokers = Vec::new();
        brokers.push(String::from_str("localhost:9092"));
        let cluster = ClusterConfig {
            brokers,
            auth: AuthConfig::NoAuth,
            client_id: Some(String::from_str("y2kexplorer")),
            schema_registry: None,
            kafka_connect: None,
        };
        let mut clusters = Vec::new();
        clusters.push((String::from_str("local"), cluster));
        let r = AppConfig {
            defaults: Defaults {
                cluster: Some(String::from_str("local")),
                message_limit: default_message_limit(),
                live_poll_secs: default_live_poll_secs(),
                theme: None,
                fetch_watermarks: default_true(),
                watermark_parallelism: default_watermark_parallelism(),
            },
            clusters,
            topic_labels: TopicLabelStore::new(),
        };
        assert(strs(r.clusters@[0].1.brokers@) =~= seq!["localhost:9092"@]);
        r
    }

    /// Index of the cluster named `name`.
    pub fn find_cluster(&self, name: &str) -> (r: Option<usize>)
        requires
            self.wf(),
        ensures
            match r {
                Some(i) => i < self.clusters@.len() && self.clusters@[i as int].0@ == name@,
                None => !has_key(cluster_entries(self.clusters@), name@),
            },
    {
        let mut i: usize = 0;
        while i < self.clusters.len()
            invariant
                i <= self.clusters@.len(),
                forall|j: int| 0 <= j < i ==> #[trigger] cluster_entries(self.clusters@)[j].0 != name@,
            decreases self.clusters.len() - i,
        {
            if str_eq(self.clusters[i].0.as_str(), name) {
                return Some(i);
            }
            i = i + 1;
        }
        None
    }

    /// The active cluster's name and configuration, or why there is none.
    pub fn active_cluster(&self) -> (r: Result<(&String, &ClusterConfig), String>)
        requires
            self.wf(),
        ensures
            match self.active_name() {
                None => r matches Err(e) && e@ == "no cluster configured; edit config.toml"@,
                Some(n) => match lookup(cluster_entries(self.clusters@), n) {
                    Some(c) => r matches Ok((name, cfg)) && name@ == n && *cfg == c,
                    None => r matches Err(e) && e@ == "cluster '"@ + n + "' not found"@,
                },
            },
    {
        let name: &String = match &self.defaults.cluster {
            Some(n) => n,
            None => {
                if self.clusters.len() > 0 {
                    &self.clusters[0].0
                } else {
                    return Err(String::from_str("no cluster configured; edit config.toml"));
                }
            },
        };
        match self.find_cluster(name.as_str()) {
            Some(i) => {
                proof {
                    lemma_lookup_at(cluster_entries(self.clusters@), i as int);
                }
                Ok((name, &self.clusters[i].1))
            },
            None => {
                let mut e = String::from_str("cluster '");
                e.append(name.as_str());
                e.append("' not found");
                Err(e)
            },
        }
    }

    /// Cluster names in byte order.
    pub fn cluster_names(&self) -> (r: Vec<String>)
        ensures
            sorted_strs(strs(r@)),
            strs(r@).to_multiset() == self.names().to_multiset(),
    {
        let mut names: Vec<String> = Vec::new();
        let mut i: usize = 0;
        while i < self.clusters.len()
            invariant
                i <= self.clusters@.len(),
                strs(names@) == self.names().subrange(0, i as int),
            decreases self.clusters.len() - i,
        {
            let ghost pre = strs(names@);
            names.push(self.clusters[i].0.clone());
            assert(self.names()[i as int] == self.clusters@[i as int].0@);
            assert(strs(names@) =~= pre.push(self.clusters@[i as int].0@));
            i = i + 1;
            assert(strs(names@) =~= self.names().subrange(0, i as int));
        }
        assert(self.names().subrange(0, i as int) =~= self.names());
        sort_strings(names)
    }

    /// Makes `name` the default cluster, or explains which names exist.
    pub fn set_active_cluster(&mut self, name: &str) -> (r: Result<(), String>)
        requires
            old(self).wf(),
        ensures
            final(self).wf(),
            final(self).clusters == old(self).clusters,
            final(self).topic_labels == old(self).topic_labels,
            has_key(cluster_entries(old(self).clusters@), name@) ==> r is Ok && opt_view(final(self).defaults.cluster) == Some(name@)
                && final(self).defaults == (Defaults { cluster: final(self).defaults.cluster, ..old(self).defaults }),
            !has_key(cluster_entries(old(self).clusters@), name@) ==> {
                &&& final(self).defaults == old(self).defaults
                &&& r matches Err(e) && exists|names: Seq<Seq<char>>|
                    sorted_strs(names) && #[trigger] names.to_multiset() == old(self).names().to_multiset()
                        && e@ == "cluster '"@ + name@ + "' not found (available: "@ + join(names, ", "@) + ")"@
            },
    {
        match self.find_cluster(name) {
            None => {
                let names = self.cluster_names();
                let available = join_strings(names.as_slice(), ", ");
                let ghost nv = strs(names@);
                let mut e = String::from_str("cluster '");
                e.append(name);
                e.append("' not found (available: ");
                e.append(available.as_str());
                e.append(")");
                assert(sorted_strs(nv) && nv.to_multiset() == self.names().to_multiset()
                    && e@ == "cluster '"@ + name@ + "' not found (available: "@ + join(nv, ", "@) + ")"@);
                assert(exists|names: Seq<Seq<char>>|
                    sorted_strs(names) && names.to_multiset() == self.names().to_multiset()
                        && #[trigger] join(names, ", "@) == join(nv, ", "@)
                        && e@ == "cluster '"@ + name@ + "' not found (available: "@ + join(names, ", "@) + ")"@);
                Err(e)
            },
            Some(i) => {
                assert(cluster_entries(self.clusters@)[i as int].0 == name@);
                self.defaults.cluster = Some(String::from_str(name));
                Ok(())
            },
        }
    }
}

// ---------- file locations ----------

/// `base` joined with the relative `part` (`Path::join` on Unix).
pub open spec fn path_join(base: Seq<char>, part: Seq<char>) -> Seq<char> {
    if base.len() == 0 || base.last() == '/' {
        base + part
    } else {
        base + seq!['/'] + part
    }
}

/// `Path::join` of a relative part on Unix.
pub fn join_path(base: &str, part: &str) -> (r: String)
    ensures
        r@ == path_join(base@, part@),
{
    let n = base.unicode_len();
    let mut s = String::from_str(base);
    if n == 0 || base.get_char(n - 1) == '/' {
        s.append(part);
    } else {
        s.append("/");
        s.append(part);
        proof {
            reveal_strlit("/");
        }
        assert(s@ =~= base@ + seq!['/'] + part@);
    }
    s
}

/// The configuration directory: `~/.config/y2kexplorer`, or the relative
/// `.config/y2kexplorer` when there is no home directory.
pub open spec fn config_dir_of(home: Option<Seq<char>>) -> Seq<char> {
    match home {
        Some(h) => path_join(path_join(h, ".config"@), "y2kexplorer"@),
        None => ".config/y2kexplorer"@,
    }
}

/// Which configuration file to use: an explicit path, else `$Y2K_CONFIG`,
/// else `config.toml` in the home configuration directory when it exists,
/// else the legacy platform path when it exists, else the home one.
pub open spec fn config_path_of(
    explicit: Option<Seq<char>>,
    env_value: Option<Seq<char>>,
    home_file: Seq<char>,
    home_exists: bool,
    legacy_file: Option<Seq<char>>,
    legacy_exists: bool,
) -> Seq<char> {
    match explicit {
        Some(p) => p,
        None => match env_value {
            Some(p) => p,
            None => if home_exists {
                home_file
            } else {
                match legacy_file {
                    Some(l) => if legacy_exists { l } else { home_file },
                    None => home_file,
                }
            },
        },
    }
}

pub open spec fn opt_str(o: Option<&str>) -> Option<Seq<char>> {
    match o {
        Some(p) => Some(p@),
        None => None,
    }
}

/// `config.toml` in the configuration directory under `home`.
pub open spec fn home_config_file(home: Option<Seq<char>>) -> Seq<char> {
    path_join(config_dir_of(home), "config.toml"@)
}

impl AppConfig {
    /// The configuration directory: `~/.config/y2kexplorer` under `home`,
    /// or the relative `.config/y2kexplorer` without a home directory.
    pub fn config_dir(home: Option<&str>) -> (r: String)
        ensures
            r@ == config_dir_of(opt_str(home)),
    {
        match home {
            Some(h) => {
                let c = join_path(h, ".config");
                join_path(c.as_str(), "y2kexplorer")
            },
            None => String::from_str(".config/y2kexplorer"),
        }
    }

    /// The configuration file to read (see `config_path_of`), given an
    /// explicit path, the value of `Y2K_CONFIG`, the home directory, and
    /// which of the home and legacy files exist.
    pub fn resolve_config_path(
        explicit: Option<&str>,
        env_value: Option<&str>,
        home: Option<&str>,
        home_exists: bool,
        legacy_file: Option<&str>,
        legacy_exists: bool,
    ) -> (r: String)
        ensures
            r@ == config_path_of(
                opt_str(explicit),
                opt_str(env_value),
                home_config_file(opt_str(home)),
                home_exists,
                opt_str(legacy_file),
                legacy_exists,
            ),
    {
        if let Some(p) = explicit {
            return String::from_str(p);
        }
        if let Some(p) = env_value {
            return String::from_str(p);
        }
        let dir = AppConfig::config_dir(home);
        let home_file = join_path(dir.as_str(), "config.toml");
        if home_exists {
            return home_file;
        }
        if let Some(l) = legacy_file {
            if legacy_exists {
                return String::from_str(l);
            }
        }
        home_file
    }

    /// The configuration file when no path is given explicitly.
    pub fn config_path(
        env_value: Option<&str>,
        home: Option<&str>,
        home_exists: bool,
        legacy_file: Option<&str>,
        legacy_exists: bool,
    ) -> (r: String)
        ensures
            r@ == config_path_of(
                None,
                opt_str(env_value),
                home_config_file(opt_str(home)),
                home_exists,
                opt_str(legacy_file),
                legacy_exists,
            ),
    {
        AppConfig::resolve_config_path(None, env_value, home, home_exists, legacy_file, legacy_exists)
    }
}

/// The first path marked as existing, in the given order.
pub open spec fn is_first_existing(candidates: Seq<(String, bool)>, r: Option<String>) -> bool {
    match r {
        Some(p) => exists|i: int| 0 <= i < candidates.len() && (#[trigger] candidates[i]).1
            && candidates[i].0@ == p@
            && forall|j: int| 0 <= j < i ==> !(#[trigger] candidates[j]).1,
        None => forall|i: int| 0 <= i < candidates.len() ==> !(#[trigger] candidates[i]).1,
    }
}

fn first_existing(candidates: &[(String, bool)]) -> (r: Option<String>)
    ensures
        is_first_existing(candidates@, r),
{
    let mut i: usize = 0;
    while i < candidates.len()
        invariant
            i <= candidates@.len(),
            forall|j: int| 0 <= j < i ==> !(#[trigger] candidates@[j]).1,
        decreases candidates.len() - i,
    {
        if candidates[i].1 {
            let p = candidates[i].0.clone();
            assert(candidates@[i as int].0@ == p@);
            return Some(p);
        }
        i = i + 1;
    }
    None
}

/// The Kerberos TLS CA: the configured `ssl_ca` when there is one, else
/// the first existing candidate from `krb5.conf` (in candidate order);
/// `candidates` pairs each path with whether that file exists.
pub fn resolve_kerberos_ssl_ca(auth: &AuthConfig, candidates: &[(String, bool)]) -> (r: Option<String>)
    ensures
        match auth {
            AuthConfig::Kerberos { ssl_ca, krb5_conf, .. } => {
                if ssl_ca is Some {
                    opt_view(r) == opt_view(*ssl_ca)
                } else if krb5_conf is Some {
                    is_first_existing(candidates@, r)
                } else {
                    r is None
                }
            },
            _ => r is None,
        },
{
    match auth {
        AuthConfig::Kerberos { ssl_ca, krb5_conf, .. } => {
            if let Some(ca) = ssl_ca {
                return Some(ca.clone());
            }
            if krb5_conf.is_some() {
                return first_existing(candidates);
            }
            None
        },
        _ => None,
    }
}

// ---------- krb5.conf CA candidates ----------

/// The lines of `s`: the pieces between `'\n'` characters (a `'\r'` before
/// the `'\n'` stays, trimming removes it).
pub open spec fn split_lines(s: Seq<char>) -> Seq<Seq<char>>
    decreases s.len(),
{
    if s.len() == 0 {
        seq![Seq::<char>::empty()]
    } else {
        let ls = split_lines(s.drop_last());
        if s.last() == '\n' {
            ls.push(Seq::<char>::empty())
        } else {
            ls.update(ls.len() - 1, ls.last().push(s.last()))
        }
    }
}

pub proof fn lemma_split_lines_nonempty(s: Seq<char>)
    ensures
        split_lines(s).len() >= 1,
    decreases s.len(),
{
    if s.len() > 0 {
        lemma_split_lines_nonempty(s.drop_last());
    }
}

/// `str::trim_end_matches(['}', ',', '"', ';'])`.
pub open spec fn strip_closers(s: Seq<char>) -> Seq<char>
    decreases s.len(),
{
    if s.len() > 0 && (s.last() == '}' || s.last() == ',' || s.last() == '"' || s.last() == ';') {
        strip_closers(s.drop_last())
    } else {
        s
    }
}

/// Splitting into lines loses nothing: joining the lines with `'\n'`
/// gives the text back, and no line holds a `'\n'`.
pub proof fn law_split_lines_round_trip(s: Seq<char>)
    ensures
        split_lines(s).len() >= 1,
        join(split_lines(s), seq!['\n']) == s,
        forall|k: int, m: int| 0 <= k < split_lines(s).len() && 0 <= m < split_lines(s)[k].len()
            ==> #[trigger] split_lines(s)[k][m] != '\n',
    decreases s.len(),
{
    if s.len() == 0 {
        assert(join(split_lines(s), seq!['\n']) =~= s);
    } else {
        let t = s.drop_last();
        let c = s.last();
        law_split_lines_round_trip(t);
        let ls = split_lines(t);
        let nl = seq!['\n'];
        assert(s =~= t.push(c));
        if c == '\n' {
            let ls2 = ls.push(Seq::<char>::empty());
            assert(split_lines(s) == ls2);
            assert(ls2.drop_last() =~= ls);
            assert(join(ls2, nl) =~= s);
            assert forall|k: int, m: int| 0 <= k < ls2.len() && 0 <= m < ls2[k].len() implies #[trigger] ls2[k][m] != '\n' by {
                assert(k < ls.len());
                assert(ls2[k] == ls[k]);
            }
        } else {
            let x = ls.last();
            let ls2 = ls.update(ls.len() - 1, x.push(c));
            assert(split_lines(s) == ls2);
            if ls.len() == 1 {
                assert(join(ls2, nl) == ls2[0]);
                assert(join(ls, nl) == ls[0]);
                assert(join(ls2, nl) =~= s);
            } else {
                assert(ls2.drop_last() =~= ls.drop_last());
                assert(join(ls2, nl) == join(ls.drop_last(), nl) + nl + x.push(c));
                assert(join(ls, nl) == join(ls.drop_last(), nl) + nl + x);
                assert(join(ls2, nl) =~= s);
            }
            assert forall|k: int, m: int| 0 <= k < ls2.len() && 0 <= m < ls2[k].len() implies #[trigger] ls2[k][m] != '\n' by {
                if k < ls.len() - 1 {
                    assert(ls2[k] == ls[k]);
                } else if m < x.len() {
                    assert(ls2[k][m] == x[m]);
                    assert(ls[ls.len() - 1][m] == x[m]);
                }
            }
        }
    }
}

/// Stripping closers drops only trailing `}` `,` `"` `;`: the result is a
/// prefix of the input that does not end in one of them.
pub proof fn law_strip_closers_drops_only_closers(s: Seq<char>)
    ensures
        strip_closers(s).len() <= s.len(),
        strip_closers(s) == s.subrange(0, strip_closers(s).len() as int),
        forall|k: int| strip_closers(s).len() <= k < s.len()
            ==> (#[trigger] s[k] == '}' || s[k] == ',' || s[k] == '"' || s[k] == ';'),
        strip_closers(s).len() > 0 ==> !(strip_closers(s).last() == '}' || strip_closers(s).last() == ','
            || strip_closers(s).last() == '"' || strip_closers(s).last() == ';'),
    decreases s.len(),
{
    if s.len() > 0 && (s.last() == '}' || s.last() == ',' || s.last() == '"' || s.last() == ';') {
        let d = s.drop_last();
        law_strip_closers_drops_only_closers(d);
        assert forall|k: int| strip_closers(s).len() <= k < s.len()
            implies (#[trigger] s[k] == '}' || s[k] == ',' || s[k] == '"' || s[k] == ';') by {
            if k < d.len() {
                assert(d[k] == s[k]);
            }
        }
        assert(strip_closers(s) =~= s.subrange(0, strip_closers(s).len() as int));
    } else {
        assert(s =~= s.subrange(0, s.len() as int));
    }
}

/// Index of the first occurrence of `needle` in `hay` (when there is one).
pub open spec fn first_occurrence(hay: Seq<char>, needle: Seq<char>) -> int {
    choose|i: int| occurs_at(hay, needle, i) && forall|j: int| 0 <= j < i ==> !occurs_at(hay, needle, j)
}

/// The path named by a `FILE:` reference on one line, if any: what follows
/// the first `FILE:` of the trimmed line, trimmed, without trailing
/// `}` `,` `"` `;`, when not empty.
pub open spec fn file_reference(line: Seq<char>) -> Option<Seq<char>> {
    let t = trim(line);
    if contains_seq(t, "FILE:"@) {
        let p = strip_closers(trim(t.subrange(first_occurrence(t, "FILE:"@) + 5, t.len() as int)));
        if p.len() > 0 { Some(p) } else { None }
    } else {
        None
    }
}

/// The `FILE:` references of the lines, in line order.
pub open spec fn file_references(lines: Seq<Seq<char>>) -> Seq<Seq<char>>
    decreases lines.len(),
{
    if lines.len() == 0 {
        Seq::empty()
    } else {
        file_references(lines.drop_last()) + match file_reference(lines.last()) {
            Some(p) => seq![p],
            None => Seq::empty(),
        }
    }
}

proof fn lemma_first_occurrence(hay: Seq<char>, needle: Seq<char>, i: int)
    requires
        occurs_at(hay, needle, i),
        forall|j: int| 0 <= j < i ==> !occurs_at(hay, needle, j),
    ensures
        first_occurrence(hay, needle) == i,
{
    let k = first_occurrence(hay, needle);
    assert(occurs_at(hay, needle, k) && forall|j: int| 0 <= j < k ==> !occurs_at(hay, needle, j));
    if k < i {
        assert(!occurs_at(hay, needle, k));
    } else if k > i {
        assert(!occurs_at(hay, needle, i));
    }
}

fn strip_closers_chars(cs: Vec<char>) -> (r: Vec<char>)
    ensures
        r@ == strip_closers(cs@),
{
    let mut v = cs;
    while v.len() > 0 && (v[v.len() - 1] == '}' || v[v.len() - 1] == ',' || v[v.len() - 1] == '"' || v[v.len() - 1] == ';')
        invariant
            strip_closers(v@) == strip_closers(cs@),
        decreases v.len(),
    {
        v.pop();
    }
    v
}

/// The path of a `FILE:` reference on one line.
fn line_file_reference(line: &[char]) -> (r: Option<String>)
    ensures
        match r {
            Some(p) => file_reference(line@) == Some(p@),
            None => file_reference(line@) is None,
        },
{
    let t = trim_chars(line);
    let marker = chars_of("FILE:");
    proof {
        reveal_strlit("FILE:");
    }
    match find(t.as_slice(), marker.as_slice()) {
        None => None,
        Some(i) => {
            proof {
                lemma_first_occurrence(t@, "FILE:"@, i as int);
                assert(marker@.len() == 5);
            }
            let n = t.len();
            assert(i + 5 <= n);
            let mut rest: Vec<char> = Vec::new();
            let mut k: usize = i + 5;
            while k < t.len()
                invariant
                    i + 5 <= k <= t@.len(),
                    rest@ == t@.subrange(i + 5, k as int),
                decreases t.len() - k,
            {
                rest.push(t[k]);
                k = k + 1;
                assert(rest@ =~= t@.subrange(i + 5, k as int));
            }
            let p = strip_closers_chars(trim_chars(rest.as_slice()));
            if p.len() > 0 {
                Some(string_from_chars(p.as_slice()))
            } else {
                None
            }
        },
    }
}

#[verifier::rlimit(40)]
#[verifier::spinoff_prover]
/// The CA files that `krb5.conf` text refers to with `FILE:` (pkinit pools
/// and anchors): each path once, in byte order.
pub fn krb5_ca_candidates(raw: &str) -> (r: Vec<String>)
    ensures
        strictly_sorted(strs(r@)),
        strs(r@).to_set() == file_references(split_lines(raw@)).to_set(),
{
    let cs = chars_of(raw);
    let mut found: Vec<String> = Vec::new();
    let mut cur: Vec<char> = Vec::new();
    let mut i: usize = 0;
    proof {
        assert(cs@.subrange(0, 0) =~= Seq::<char>::empty());
    }
    while i < cs.len()
        invariant
            i <= cs@.len(),
            cs@ == raw@,
            split_lines(cs@.subrange(0, i as int)).len() >= 1,
            cur@ == split_lines(cs@.subrange(0, i as int)).last(),
            strs(found@) == file_references(split_lines(cs@.subrange(0, i as int)).drop_last()),
        decreases cs.len() - i,
    {
        let ghost pre = cs@.subrange(0, i as int);
        let ghost ls = split_lines(pre);
        let ghost nxt = cs@.subrange(0, i + 1);
        assert(nxt.drop_last() =~= pre);
        let c = cs[i];
        if c == '\n' {
            let ghost before = strs(found@);
            match line_file_reference(cur.as_slice()) {
                Some(p) => {
                    found.push(p);
                },
                None => {},
            }
            proof {
                assert(split_lines(nxt).drop_last() =~= ls);
                assert(ls.drop_last() =~= ls.subrange(0, ls.len() - 1));
                assert(strs(found@) =~= file_references(ls));
            }
            cur = Vec::new();
        } else {
            cur.push(c);
            proof {
                assert(split_lines(nxt).drop_last() =~= ls.drop_last());
            }
        }
        i = i + 1;
    }
    proof {
        assert(cs@.subrange(0, i as int) =~= raw@);
    }
    let ghost ls = split_lines(raw@);
    match line_file_reference(cur.as_slice()) {
        Some(p) => {
            found.push(p);
        },
        None => {},
    }
    proof {
        assert(ls.drop_last() =~= ls.subrange(0, ls.len() - 1));
        assert(strs(found@) =~= file_references(ls));
    }
    let sorted = sort_strings(found);
    proof {
        broadcast use vstd::seq_lib::group_to_multiset_ensures;
        assert(strs(sorted@).to_set() =~= file_references(ls).to_set()) by {
            assert forall|x: Seq<char>| strs(sorted@).contains(x) <==> file_references(ls).contains(x) by {
                assert(strs(sorted@).to_multiset().count(x) == file_references(ls).to_multiset().count(x));
            }
        }
    }
    dedup_sorted(sorted)
}

} // verus!
