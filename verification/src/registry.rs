//! Confluent-compatible Schema Registry client: the requests it sends and
//! what it makes of the answers. The caller performs each request and
//! hands back the response.

use vstd::prelude::*;

use crate::config::SchemaRegistryConfig;
use crate::http::{
    auth_headers, auth_view, base_url, credentials, credentials_of, header_views, json_i32_array,
    json_string_array, normalize_base_url, parse_i32_array, parse_string_array, pct_encode,
    percent_encode, push_auth_header, HttpMethod, HttpRequest, HttpResponse,
};
use crate::text::{dec, fmt_i32, fmt_usize, int_dec, sort_strings, sorted_strs, strs};

verus! {

/// One subject of the registry list.
#[derive(Debug, Clone)]
pub struct SchemaSubjectSummary {
    pub subject: String,
    pub latest_version: i32,
    pub schema_type: String,
    pub version_count: usize,
}

/// One version of a subject's schema.
#[derive(Debug, Clone)]
pub struct SchemaVersionDetail {
    pub subject: String,
    pub version: i32,
    pub id: i32,
    pub schema_type: String,
    pub schema: String,
}

/// A version as the registry returns it; `subject` and `schema_type` may be
/// absent.
#[derive(Debug, Clone)]
pub struct VersionResponse {
    pub subject: Option<String>,
    pub version: i32,
    pub id: i32,
    pub schema_type: Option<String>,
    pub schema: String,
}

/// A client of one registry.
#[derive(Debug, Clone)]
pub struct SchemaRegistryClient {
    pub base: String,
    pub auth: Option<(String, String)>,
}

/// The error of a failed request.
pub open spec fn registry_http_error(status: u16, body: Seq<char>) -> Seq<char> {
    "schema registry HTTP "@ + dec(status as nat) + ": "@ + body
}

/// The error of a body that is not the expected JSON.
pub open spec fn parse_error(url: Seq<char>, cause: Seq<char>) -> Seq<char> {
    "parse JSON from "@ + url + ": "@ + cause
}

pub open spec fn success(status: u16) -> bool {
    200 <= status < 300
}

impl SchemaRegistryClient {
    pub open spec fn auth_spec(&self) -> Option<(Seq<char>, Seq<char>)> {
        auth_view(self.auth)
    }

    /// A client for `cfg`: the URL trimmed and without trailing `/`
    /// (refused when nothing is left), with credentials when a non-empty
    /// user name and a password are set.
    pub fn new(cfg: &SchemaRegistryConfig) -> (r: Result<SchemaRegistryClient, String>)
        ensures
            base_url(cfg.url@).len() == 0 ==> (r matches Err(e) && e@ == "schema_registry.url is empty"@),
            base_url(cfg.url@).len() > 0 ==> (r matches Ok(c) && c.base@ == base_url(cfg.url@)
                && c.auth_spec() == credentials_of(cfg.username, cfg.password)),
    {
        let base = normalize_base_url(cfg.url.as_str());
        if base.unicode_len() == 0 {
            return Err(String::from_str("schema_registry.url is empty"));
        }
        let auth = credentials(&cfg.username, &cfg.password);
        Ok(SchemaRegistryClient { base, auth })
    }

    /// Headers of every request: the registry's media type, and the
    /// credentials.
    pub open spec fn headers_spec(&self) -> Seq<(Seq<char>, Seq<char>)> {
        seq![("Accept"@, "application/vnd.schemaregistry.v1+json"@)] + auth_headers(self.auth_spec())
    }

    fn get(&self, url: String) -> (r: HttpRequest)
        ensures
            r.method == HttpMethod::Get,
            r.url == url,
            header_views(r.headers@) == self.headers_spec(),
    {
        let mut headers: Vec<(String, String)> = Vec::new();
        headers.push((String::from_str("Accept"), String::from_str("application/vnd.schemaregistry.v1+json")));
        assert(header_views(headers@) =~= seq![("Accept"@, "application/vnd.schemaregistry.v1+json"@)]);
        push_auth_header(&mut headers, &self.auth);
        HttpRequest { method: HttpMethod::Get, url, headers }
    }

    pub open spec fn subject_path(&self, subject: Seq<char>) -> Seq<char> {
        self.base@ + "/subjects/"@ + pct_encode(vstd::utf8::encode_utf8(subject))
    }

    fn subject_url(&self, subject: &str) -> (r: String)
        ensures
            r@ == self.subject_path(subject@),
    {
        let mut url = self.base.clone();
        url.append("/subjects/");
        let enc = percent_encode(subject);
        url.append(enc.as_str());
        url
    }

    /// `GET {base}/subjects`.
    pub fn subjects_request(&self) -> (r: HttpRequest)
        ensures
            r.method == HttpMethod::Get,
            r.url@ == self.base@ + "/subjects"@,
            header_views(r.headers@) == self.headers_spec(),
    {
        let mut url = self.base.clone();
        url.append("/subjects");
        self.get(url)
    }

    /// The body of a response, or the error it stands for: a status
    /// outside 2xx is an error carrying the body.
    pub fn check_status(resp: &HttpResponse) -> (r: Result<(), String>)
        ensures
            success(resp.status) ==> r is Ok,
            !success(resp.status) ==> (r matches Err(e) && e@ == registry_http_error(resp.status, resp.body@)),
    {
        if 200 <= resp.status && resp.status < 300 {
            Ok(())
        } else {
            let mut e = String::from_str("schema registry HTTP ");
            let code = fmt_usize(resp.status as usize);
            e.append(code.as_str());
            e.append(": ");
            e.append(resp.body.as_str());
            Err(e)
        }
    }

    /// The subjects the registry lists, sorted; or why there are none.
    pub fn list_subjects(&self, resp: &HttpResponse) -> (r: Result<Vec<String>, String>)
        ensures
            !success(resp.status) ==> (r matches Err(e) && e@ == registry_http_error(resp.status, resp.body@)),
            success(resp.status) ==> match json_string_array(resp.body@) {
                Ok(subjects) => r matches Ok(v) && sorted_strs(strs(v@)) && strs(v@).to_multiset() == subjects.to_multiset(),
                Err(cause) => r matches Err(e) && e@ == parse_error(self.base@ + "/subjects"@, cause),
            },
    {
        if let Err(e) = Self::check_status(resp) {
            return Err(e);
        }
        match parse_string_array(resp.body.as_str()) {
            Ok(subjects) => Ok(sort_strings(subjects)),
            Err(cause) => {
                let mut e = String::from_str("parse JSON from ");
                e.append(self.base.as_str());
                e.append("/subjects");
                e.append(": ");
                e.append(cause.as_str());
                Err(e)
            },
        }
    }

    /// `GET {base}/subjects/{subject}/versions`.
    pub fn versions_request(&self, subject: &str) -> (r: HttpRequest)
        ensures
            r.method == HttpMethod::Get,
            r.url@ == self.subject_path(subject@) + "/versions"@,
            header_views(r.headers@) == self.headers_spec(),
    {
        let mut url = self.subject_url(subject);
        url.append("/versions");
        self.get(url)
    }

    /// The version numbers of `subject`, as listed; or why there are none.
    pub fn list_versions(&self, subject: &str, resp: &HttpResponse) -> (r: Result<Vec<i32>, String>)
        ensures
            !success(resp.status) ==> (r matches Err(e) && e@ == registry_http_error(resp.status, resp.body@)),
            success(resp.status) ==> match json_i32_array(resp.body@) {
                Ok(vs) => r matches Ok(v) && v@ == vs,
                Err(cause) => r matches Err(e) && e@ == parse_error(self.subject_path(subject@) + "/versions"@, cause),
            },
    {
        if let Err(e) = Self::check_status(resp) {
            return Err(e);
        }
        match parse_i32_array(resp.body.as_str()) {
            Ok(vs) => Ok(vs),
            Err(cause) => {
                let mut e = String::from_str("parse JSON from ");
                let url = self.subject_url(subject);
                e.append(url.as_str());
                e.append("/versions");
                e.append(": ");
                e.append(cause.as_str());
                Err(e)
            },
        }
    }

    /// `GET {base}/subjects/{subject}/versions/latest`.
    pub fn latest_request(&self, subject: &str) -> (r: HttpRequest)
        ensures
            r.method == HttpMethod::Get,
            r.url@ == self.subject_path(subject@) + "/versions/latest"@,
            header_views(r.headers@) == self.headers_spec(),
    {
        let mut url = self.subject_url(subject);
        url.append("/versions/latest");
        self.get(url)
    }

    /// `GET {base}/subjects/{subject}/versions/{version}`.
    pub fn version_request(&self, subject: &str, version: i32) -> (r: HttpRequest)
        ensures
            r.method == HttpMethod::Get,
            r.url@ == self.subject_path(subject@) + "/versions/"@ + int_dec(version as int),
            header_views(r.headers@) == self.headers_spec(),
    {
        let mut url = self.subject_url(subject);
        url.append("/versions/");
        let v = fmt_i32(version);
        url.append(v.as_str());
        self.get(url)
    }

    /// A version as shown: the subject asked for when the answer names
    /// none, `AVRO` when it names no schema type.
    pub fn parse_version(&self, subject: &str, v: VersionResponse) -> (r: Result<SchemaVersionDetail, String>)
        ensures
            r matches Ok(d) && d.subject@ == (match v.subject { Some(s) => s@, None => subject@ })
                && d.version == v.version && d.id == v.id
                && d.schema_type@ == (match v.schema_type { Some(t) => t@, None => "AVRO"@ })
                && d.schema == v.schema,
    {
        let s = match v.subject {
            Some(s) => s,
            None => String::from_str(subject),
        };
        let t = match v.schema_type {
            Some(t) => t,
            None => String::from_str("AVRO"),
        };
        Ok(SchemaVersionDetail { subject: s, version: v.version, id: v.id, schema_type: t, schema: v.schema })
    }

    /// The latest version of `subject` from its answer; `decoded` is the
    /// body decoded by the caller, or the decoder's error message.
    pub fn get_latest(&self, subject: &str, resp: &HttpResponse, decoded: Result<VersionResponse, String>) -> (r: Result<SchemaVersionDetail, String>)
        ensures
            !success(resp.status) ==> (r matches Err(e) && e@ == registry_http_error(resp.status, resp.body@)),
            success(resp.status) ==> match decoded {
                Ok(v) => r matches Ok(d) && d.version == v.version && d.id == v.id && d.schema == v.schema
                    && d.subject@ == (match v.subject { Some(s) => s@, None => subject@ })
                    && d.schema_type@ == (match v.schema_type { Some(t) => t@, None => "AVRO"@ }),
                Err(cause) => r matches Err(e) && e@ == parse_error(self.subject_path(subject@) + "/versions/latest"@, cause@),
            },
    {
        if let Err(e) = Self::check_status(resp) {
            return Err(e);
        }
        match decoded {
            Ok(v) => self.parse_version(subject, v),
            Err(cause) => {
                let mut e = String::from_str("parse JSON from ");
                let url = self.subject_url(subject);
                e.append(url.as_str());
                e.append("/versions/latest");
                e.append(": ");
                e.append(cause.as_str());
                Err(e)
            },
        }
    }

    /// One version of `subject` from its answer (see `get_latest`).
    pub fn get_version(&self, subject: &str, version: i32, resp: &HttpResponse, decoded: Result<VersionResponse, String>) -> (r: Result<SchemaVersionDetail, String>)
        ensures
            !success(resp.status) ==> (r matches Err(e) && e@ == registry_http_error(resp.status, resp.body@)),
            success(resp.status) ==> match decoded {
                Ok(v) => r matches Ok(d) && d.version == v.version && d.id == v.id && d.schema == v.schema
                    && d.subject@ == (match v.subject { Some(s) => s@, None => subject@ })
                    && d.schema_type@ == (match v.schema_type { Some(t) => t@, None => "AVRO"@ }),
                Err(cause) => r matches Err(e)
                    && e@ == parse_error(self.subject_path(subject@) + "/versions/"@ + int_dec(version as int), cause@),
            },
    {
        if let Err(e) = Self::check_status(resp) {
            return Err(e);
        }
        match decoded {
            Ok(v) => self.parse_version(subject, v),
            Err(cause) => {
                let mut e = String::from_str("parse JSON from ");
                let url = self.subject_url(subject);
                e.append(url.as_str());
                e.append("/versions/");
                let n = fmt_i32(version);
                e.append(n.as_str());
                e.append(": ");
                e.append(cause.as_str());
                Err(e)
            },
        }
    }

    /// The newest version number of `subject`, which the summary then
    /// fetches; a subject without versions is an error.
    pub fn latest_version(subject: &str, versions: &[i32]) -> (r: Result<i32, String>)
        ensures
            max_version(versions@) > 0 ==> r == Ok::<i32, String>(max_version(versions@) as i32),
            max_version(versions@) <= 0 ==> (r matches Err(e) && e@ == "subject "@ + subject@ + " has no versions"@),
    {
        let mut best: i32 = 0;
        let mut i: usize = 0;
        while i < versions.len()
            invariant
                i <= versions@.len(),
                best == max_version(versions@.subrange(0, i as int)),
            decreases versions.len() - i,
        {
            assert(versions@.subrange(0, i + 1).drop_last() =~= versions@.subrange(0, i as int));
            if versions[i] > best {
                best = versions[i];
            }
            i = i + 1;
        }
        assert(versions@.subrange(0, i as int) =~= versions@);
        if best > 0 {
            Ok(best)
        } else {
            let mut e = String::from_str("subject ");
            e.append(subject);
            e.append(" has no versions");
            Err(e)
        }
    }

    /// The list row of `subject` from its versions and the detail of the
    /// largest of them (`latest`, fetched by the caller); a subject without
    /// versions is an error.
    pub fn summarize_subject(&self, subject: &str, versions: &[i32], latest: SchemaVersionDetail) -> (r: Result<SchemaSubjectSummary, String>)
        ensures
            max_version(versions@) <= 0 ==> (r matches Err(e) && e@ == "subject "@ + subject@ + " has no versions"@),
            max_version(versions@) > 0 ==> (r matches Ok(s)
                && s.subject@ == subject@
                && s.latest_version == max_version(versions@)
                && s.schema_type == latest.schema_type
                && s.version_count == versions@.len()),
    {
        proof {
            lemma_max_version_range(versions@);
        }
        let newest = match Self::latest_version(subject, versions) {
            Ok(v) => v,
            Err(e) => {
                return Err(e);
            },
        };
        Ok(SchemaSubjectSummary {
            subject: String::from_str(subject),
            latest_version: newest,
            schema_type: latest.schema_type,
            version_count: versions.len(),
        })
    }

    /// The registry list from the summaries of the subjects, in subject
    /// order: the first failure, if any, fails the list.
    pub fn list_summaries(&self, rows: Vec<Result<SchemaSubjectSummary, String>>) -> (r: Result<Vec<SchemaSubjectSummary>, String>)
        ensures
            match first_failure(rows@) {
                Some(e) => r matches Err(x) && x@ == e,
                None => r matches Ok(v) && v@.len() == rows@.len()
                    && forall|i: int| 0 <= i < rows@.len() ==> rows@[i] == Ok::<SchemaSubjectSummary, String>(#[trigger] v@[i]),
            },
    {
        let mut out: Vec<SchemaSubjectSummary> = Vec::new();
        let mut src = rows;
        let ghost all = src@;
        let n = src.len();
        let mut k: usize = 0;
        while src.len() > 0
            invariant
                all == rows@,
                all.len() == n,
                k + src@.len() == n,
                src@ == all.subrange(k as int, n as int),
                first_failure(all.subrange(0, k as int)) is None,
                out@.len() == k,
                forall|i: int| 0 <= i < k ==> all[i] == Ok::<SchemaSubjectSummary, String>(#[trigger] out@[i]),
            decreases src.len(),
        {
            let x = src.remove(0);
            assert(all[k as int] == x);
            proof {
                lemma_first_failure_extend(all, k as int);
            }
            match x {
                Ok(row) => {
                    out.push(row);
                },
                Err(e) => {
                    proof {
                        lemma_first_failure_prefix(all, k as int + 1);
                    }
                    assert(first_failure(rows@) == Some(e@));
                    return Err(e);
                },
            }
            k = k + 1;
            assert(src@ =~= all.subrange(k as int, n as int));
        }
        assert(all.subrange(0, n as int) =~= all);
        assert(first_failure(rows@) is None);
        Ok(out)
    }
}

/// The first error among the results, if any.
pub open spec fn first_failure<T>(rs: Seq<Result<T, String>>) -> Option<Seq<char>>
    decreases rs.len(),
{
    if rs.len() == 0 {
        None
    } else {
        match rs[0] {
            Err(e) => Some(e@),
            Ok(_) => first_failure(rs.drop_first()),
        }
    }
}

proof fn lemma_first_failure_extend<T>(rs: Seq<Result<T, String>>, k: int)
    requires
        0 <= k < rs.len(),
        first_failure(rs.subrange(0, k)) is None,
    ensures
        rs[k] is Ok ==> first_failure(rs.subrange(0, k + 1)) is None,
        rs[k] matches Err(e) ==> first_failure(rs.subrange(0, k + 1)) == Some(e@),
    decreases k,
{
    assert(rs.subrange(0, k + 1).drop_first() =~= rs.drop_first().subrange(0, k));
    assert(rs.subrange(0, k + 1)[0] == rs[0]);
    if k > 0 {
        assert(rs.subrange(0, k).drop_first() =~= rs.drop_first().subrange(0, k - 1));
        assert(rs.subrange(0, k)[0] == rs[0]);
        lemma_first_failure_extend(rs.drop_first(), k - 1);
    } else {
        assert(rs.subrange(0, 1).drop_first() =~= Seq::<Result<T, String>>::empty());
        assert(first_failure(rs.subrange(0, 1).drop_first()) is None);
    }
}

proof fn lemma_first_failure_prefix<T>(rs: Seq<Result<T, String>>, k: int)
    requires
        0 <= k <= rs.len(),
        first_failure(rs.subrange(0, k)) is Some,
    ensures
        first_failure(rs) == first_failure(rs.subrange(0, k)),
    decreases k,
{
    if k > 0 {
        match rs[0] {
            Err(_) => {},
            Ok(_) => {
                assert(rs.subrange(0, k).drop_first() =~= rs.drop_first().subrange(0, k - 1));
                lemma_first_failure_prefix(rs.drop_first(), k - 1);
            },
        }
    }
}

proof fn lemma_max_version_range(vs: Seq<i32>)
    ensures
        0 <= max_version(vs) <= i32::MAX,
    decreases vs.len(),
{
    if vs.len() > 0 {
        lemma_max_version_range(vs.drop_last());
    }
}

/// The largest version number, 0 for none (or only non-positive ones).
pub open spec fn max_version(vs: Seq<i32>) -> int
    decreases vs.len(),
{
    if vs.len() == 0 {
        0
    } else {
        let m = max_version(vs.drop_last());
        if vs.last() > m { vs.last() as int } else { m }
    }
}


/// The first failure of a list of results is the error of its first `Err`:
/// there is none exactly when every result is `Ok`.
pub proof fn law_first_failure_is_first_error<T>(rs: Seq<Result<T, String>>)
    ensures
        first_failure(rs) is None <==> (forall|k: int| 0 <= k < rs.len() ==> (#[trigger] rs[k]) is Ok),
        first_failure(rs) is Some ==> exists|k: int| 0 <= k < rs.len() && (#[trigger] rs[k]) is Err
            && rs[k]->Err_0@ == first_failure(rs)->0
            && forall|j: int| 0 <= j < k ==> (#[trigger] rs[j]) is Ok,
    decreases rs.len(),
{
    if rs.len() > 0 {
        let d = rs.drop_first();
        law_first_failure_is_first_error(d);
        assert forall|k: int| 0 <= k < d.len() implies #[trigger] d[k] == rs[k + 1] by {}
        if rs[0] is Ok {
            if first_failure(d) is Some {
                let k = choose|k: int| 0 <= k < d.len() && (#[trigger] d[k]) is Err
                    && d[k]->Err_0@ == first_failure(d)->0
                    && forall|j: int| 0 <= j < k ==> (#[trigger] d[j]) is Ok;
                assert(rs[k + 1] == d[k]);
                assert forall|j: int| 0 <= j < k + 1 implies (#[trigger] rs[j]) is Ok by {
                    if j > 0 {
                        assert(rs[j] == d[j - 1]);
                    }
                }
            } else {
                assert forall|k: int| 0 <= k < rs.len() implies (#[trigger] rs[k]) is Ok by {
                    if k > 0 {
                        assert(rs[k] == d[k - 1]);
                    }
                }
            }
        }
    }
}

} // verus!
