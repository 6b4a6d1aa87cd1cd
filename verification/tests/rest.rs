use y2kexplorer::acl::replace_after_delete;
use y2kexplorer::client::{base_config, config_value, consumer_config, helper_group_id, producer_config};
use y2kexplorer::config::{AppConfig, AuthConfig, KafkaConnectConfig, ScramMechanism, SchemaRegistryConfig};
use y2kexplorer::connect::{connector_kind, ConnectorState, KafkaConnectClient, StatusResponse, TaskEntry};
use y2kexplorer::http::{base64_encode, basic_auth, normalize_base_url, HttpMethod, HttpResponse};
use y2kexplorer::registry::SchemaRegistryClient;

#[test]
fn base64_matches_rfc_vectors() {
    assert_eq!(base64_encode(b""), "");
    assert_eq!(base64_encode(b"f"), "Zg==");
    assert_eq!(base64_encode(b"fo"), "Zm8=");
    assert_eq!(base64_encode(b"foo"), "Zm9v");
    assert_eq!(base64_encode(b"foobar"), "Zm9vYmFy");
}

#[test]
fn basic_auth_header_value() {
    assert_eq!(basic_auth("admin", "secret"), "Basic YWRtaW46c2VjcmV0");
}

#[test]
fn path_segments_are_percent_encoded() {
    let c = registry("http://sr:8081", None);
    assert_eq!(c.versions_request("orders-value").url, "http://sr:8081/subjects/orders-value/versions");
    assert_eq!(c.versions_request("a b/c").url, "http://sr:8081/subjects/a%20b%2Fc/versions");
    let k = connect("http://kc:8083");
    assert_eq!(k.restart("é").url, "http://kc:8083/connectors/%C3%A9/restart");
}

#[test]
fn base_urls_lose_trailing_slashes() {
    assert_eq!(normalize_base_url("  http://h:8081// "), "http://h:8081");
    assert_eq!(normalize_base_url(" / "), "");
}

fn registry(url: &str, user: Option<&str>) -> SchemaRegistryClient {
    SchemaRegistryClient::new(&SchemaRegistryConfig {
        url: url.into(),
        username: user.map(|u| u.to_string()),
        password: user.map(|_| "pw".to_string()),
        tls: false,
    })
    .unwrap()
}

#[test]
fn registry_requests() {
    let c = registry("http://sr:8081/", Some("u"));
    let req = c.subjects_request();
    assert_eq!(req.method, HttpMethod::Get);
    assert_eq!(req.url, "http://sr:8081/subjects");
    assert_eq!(req.headers[0], ("Accept".to_string(), "application/vnd.schemaregistry.v1+json".to_string()));
    assert_eq!(req.headers[1], ("Authorization".to_string(), "Basic dTpwdw==".to_string()));
    assert_eq!(c.versions_request("a b").url, "http://sr:8081/subjects/a%20b/versions");
    let no_auth = registry("http://sr:8081", None);
    assert_eq!(no_auth.subjects_request().headers.len(), 1);
}

#[test]
fn registry_refuses_empty_url() {
    let e = SchemaRegistryClient::new(&SchemaRegistryConfig { url: " / ".into(), username: None, password: None, tls: false })
        .unwrap_err();
    assert_eq!(e, "schema_registry.url is empty");
}

#[test]
fn registry_answers() {
    let c = registry("http://sr:8081", None);
    let ok = HttpResponse { status: 200, body: "[\"b\",\"a\"]".into() };
    assert_eq!(c.list_subjects(&ok).unwrap(), vec!["a", "b"]);
    let bad = HttpResponse { status: 500, body: "oops".into() };
    assert_eq!(c.list_subjects(&bad).unwrap_err(), "schema registry HTTP 500: oops");
    let junk = HttpResponse { status: 200, body: "{".into() };
    assert!(c.list_subjects(&junk).unwrap_err().starts_with("parse JSON from http://sr:8081/subjects: "));
    let vs = HttpResponse { status: 200, body: "[1,3,2]".into() };
    assert_eq!(c.list_versions("s", &vs).unwrap(), vec![1, 3, 2]);
    assert_eq!(SchemaRegistryClient::latest_version("s", &[1, 7, 3]), Ok(7));
}

fn connect(url: &str) -> KafkaConnectClient {
    KafkaConnectClient::new(&KafkaConnectConfig { url: url.into(), username: None, password: None, tls: false }).unwrap()
}

#[test]
fn connect_requests() {
    let c = connect("http://kc:8083/");
    assert_eq!(c.list_request().url, "http://kc:8083/connectors?expand=status&expand=info");
    let r = c.restart("my conn");
    assert_eq!(r.method, HttpMethod::Post);
    assert_eq!(r.url, "http://kc:8083/connectors/my%20conn/restart");
    assert_eq!(c.pause("x").method, HttpMethod::Put);
    assert_eq!(c.resume("x").url, "http://kc:8083/connectors/x/resume");
    assert_eq!(c.delete("x").method, HttpMethod::Delete);
    assert!(r.headers.is_empty());
}

#[test]
fn connect_errors_name_the_url() {
    let c = connect("http://kc:8083");
    let req = c.delete("x");
    let resp = HttpResponse { status: 404, body: "missing".into() };
    assert_eq!(c.finish(&req, &resp).unwrap_err(), "kafka connect HTTP 404 on http://kc:8083/connectors/x: missing");
    assert!(c.finish(&req, &HttpResponse { status: 204, body: String::new() }).is_ok());
}

#[test]
fn connector_kinds() {
    assert_eq!(connector_kind("io.confluent.connect.jdbc.JdbcSourceConnector"), "source");
    assert_eq!(connector_kind("org.apache.kafka.connect.file.FileStreamSinkConnector"), "sink");
}

#[test]
fn client_settings_of_plain_cluster() {
    let c = AppConfig::default_with_example();
    let cluster = &c.clusters[0].1;
    let cfg = base_config(cluster, None);
    assert_eq!(config_value(&cfg, "bootstrap.servers"), Some("localhost:9092".to_string()));
    assert_eq!(config_value(&cfg, "client.id"), Some("y2kexplorer".to_string()));
    let p = producer_config(cluster, None);
    assert_eq!(config_value(&p, "bootstrap.servers"), Some("localhost:9092".to_string()));
    let cons = consumer_config(cluster, None, "y2k", 42);
    assert_eq!(config_value(&cons, "group.id"), Some(helper_group_id("y2k", 42)));
}

#[test]
fn client_settings_for_scram() {
    let mut c = AppConfig::default_with_example();
    c.clusters[0].1.auth = AuthConfig::SaslScram {
        username: "u".into(),
        password: "p".into(),
        mechanism: ScramMechanism::ScramSha512,
        tls: true,
    };
    let cfg = base_config(&c.clusters[0].1, None);
    assert_eq!(config_value(&cfg, "security.protocol"), Some("SASL_SSL".to_string()));
    assert_eq!(config_value(&cfg, "sasl.mechanism"), Some("SCRAM-SHA-512".to_string()));
    assert_eq!(config_value(&cfg, "sasl.username"), Some("u".to_string()));
}

#[test]
fn connector_detail_from_answers() {
    let c = connect("http://kc:8083");
    let ok = HttpResponse { status: 200, body: String::new() };
    let status = StatusResponse {
        connector: ConnectorState { state: "RUNNING".into(), worker_id: Some("w1:8083".into()) },
        tasks: vec![TaskEntry { id: 0, state: "FAILED".into(), worker_id: None, trace: Some("boom".into()) }],
    };
    let config = HttpResponse {
        status: 200,
        body: "{\"tasks.max\":\"1\",\"connector.class\":\"a.b.FileStreamSinkConnector\"}".into(),
    };
    let d = c.get_detail("files", &ok, Ok(status.clone()), &config).unwrap();
    assert_eq!(d.name, "files");
    assert_eq!(d.kind, "sink");
    assert_eq!(d.state, "RUNNING");
    assert_eq!(d.worker_id, Some("w1:8083".to_string()));
    assert_eq!(d.tasks.len(), 1);
    assert_eq!(d.tasks[0].trace, Some("boom".to_string()));
    assert_eq!(
        d.config,
        vec![
            ("connector.class".to_string(), "a.b.FileStreamSinkConnector".to_string()),
            ("tasks.max".to_string(), "1".to_string()),
        ]
    );
    assert_eq!(d.config_json, "{\n  \"connector.class\": \"a.b.FileStreamSinkConnector\",\n  \"tasks.max\": \"1\"\n}");
    let bad = HttpResponse { status: 200, body: "[1]".into() };
    let e = c.get_detail("files", &ok, Ok(status.clone()), &bad).unwrap_err();
    assert!(e.starts_with("parse JSON from http://kc:8083/connectors/files/config: "));
    let e = c.get_detail("files", &ok, Err("eof".into()), &config).unwrap_err();
    assert_eq!(e, "parse JSON from http://kc:8083/connectors/files/status: eof");
    let missing = HttpResponse { status: 404, body: "nope".into() };
    let e = c.get_detail("files", &missing, Ok(status), &config).unwrap_err();
    assert_eq!(e, "kafka connect HTTP 404 on http://kc:8083/connectors/files/status: nope");
}

#[test]
fn acl_replace_needs_a_deleted_binding() {
    assert_eq!(replace_after_delete(0), Err("no ACL matched the previous binding (nothing deleted)".to_string()));
    assert_eq!(replace_after_delete(2), Ok(()));
}
