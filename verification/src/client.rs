//! librdkafka client settings for a cluster: brokers, timeouts, and the
//! security settings of each authentication mode.

use vstd::prelude::*;

use rdkafka::config::ClientConfig;

use crate::config::{AuthConfig, ClusterConfig, ScramMechanism};
use crate::text::{dec, fmt_u64, join, join_strings, strs};

verus! {

#[verifier::external_type_specification]
#[verifier::external_body]
pub struct ExClientConfig(ClientConfig);

/// The settings a `ClientConfig` holds, key to value.
pub uninterp spec fn config_entries(cfg: ClientConfig) -> Map<Seq<char>, Seq<char>>;

/// The empty settings map.
pub open spec fn no_settings() -> Map<Seq<char>, Seq<char>> {
    Map::empty()
}

/// `ClientConfig::new`: a configuration with no settings (its map starts
/// empty; the log level it also takes is not a setting).
#[verifier::external_body]
fn new_client_config() -> (r: ClientConfig)
    ensures
        config_entries(r) == no_settings(),
{
    ClientConfig::new()
}

/// `ClientConfig::set`: sets `key` to `value`, replacing an earlier value.
#[verifier::external_body]
fn set_entry(cfg: &mut ClientConfig, key: &str, value: &str)
    ensures
        config_entries(*final(cfg)) == config_entries(*old(cfg)).insert(key@, value@),
{
    cfg.set(key, value);
}

/// `ClientConfig::get`: the value set for `key`.
#[verifier::external_body]
fn get_entry(cfg: &ClientConfig, key: &str) -> (r: Option<String>)
    ensures
        match r {
            Some(v) => config_entries(*cfg).contains_key(key@) && config_entries(*cfg)[key@] == v@,
            None => !config_entries(*cfg).contains_key(key@),
        },
{
    cfg.get(key).map(|v| v.to_string())
}

/// The value a client configuration holds for `key`, if it holds one.
pub fn config_value(cfg: &ClientConfig, key: &str) -> (r: Option<String>)
    ensures
        r is Some <==> config_entries(*cfg).contains_key(key@),
        r matches Some(v) ==> v@ == config_entries(*cfg)[key@],
{
    get_entry(cfg, key)
}

/// The settings every client of the cluster gets before authentication.
pub open spec fn common_settings(c: ClusterConfig) -> Map<Seq<char>, Seq<char>> {
    let m = no_settings().insert("bootstrap.servers"@, join(strs(c.brokers@), ","@));
    let m = match c.client_id {
        Some(id) => m.insert("client.id"@, id@),
        None => m,
    };
    m.insert("socket.timeout.ms"@, "30000"@)
        .insert("socket.connection.setup.timeout.ms"@, "30000"@)
        .insert("api.version.request"@, "true"@)
}

/// TLS settings: host name verification and, when given, the CA file.
pub open spec fn tls_settings(
    m: Map<Seq<char>, Seq<char>>,
    tls: bool,
    ca: Option<Seq<char>>,
    verify_hostname: bool,
) -> Map<Seq<char>, Seq<char>> {
    if !tls {
        m
    } else {
        let m = m.insert(
            "ssl.endpoint.identification.algorithm"@,
            if verify_hostname { "https"@ } else { "none"@ },
        );
        match ca {
            Some(p) => m.insert("ssl.ca.location"@, p),
            None => m,
        }
    }
}

pub open spec fn sasl_protocol(tls: bool) -> Seq<char> {
    if tls { "SASL_SSL"@ } else { "SASL_PLAINTEXT"@ }
}

pub open spec fn scram_name(m: ScramMechanism) -> Seq<char> {
    match m {
        ScramMechanism::ScramSha256 => "SCRAM-SHA-256"@,
        ScramMechanism::ScramSha512 => "SCRAM-SHA-512"@,
    }
}

pub open spec fn insert_opt(m: Map<Seq<char>, Seq<char>>, key: Seq<char>, v: Option<String>) -> Map<Seq<char>, Seq<char>> {
    match v {
        Some(s) => m.insert(key, s@),
        None => m,
    }
}

/// The settings of the authentication mode, over `m`; `kerberos_ca` is the
/// CA file found for Kerberos over TLS.
pub open spec fn auth_settings(
    m: Map<Seq<char>, Seq<char>>,
    auth: AuthConfig,
    kerberos_ca: Option<Seq<char>>,
) -> Map<Seq<char>, Seq<char>> {
    match auth {
        AuthConfig::NoAuth => m,
        AuthConfig::SaslPlain { username, password, tls } => tls_settings(m, tls, None, true)
            .insert("security.protocol"@, sasl_protocol(tls))
            .insert("sasl.mechanism"@, "PLAIN"@)
            .insert("sasl.username"@, username@)
            .insert("sasl.password"@, password@),
        AuthConfig::SaslScram { username, password, mechanism, tls } => tls_settings(m, tls, None, true)
            .insert("security.protocol"@, sasl_protocol(tls))
            .insert("sasl.mechanism"@, scram_name(mechanism))
            .insert("sasl.username"@, username@)
            .insert("sasl.password"@, password@),
        AuthConfig::Ssl { ca_location, certificate_location, key_location, key_password } => {
            let m = m.insert("security.protocol"@, "SSL"@);
            let m = insert_opt(m, "ssl.ca.location"@, ca_location);
            let m = insert_opt(m, "ssl.certificate.location"@, certificate_location);
            let m = insert_opt(m, "ssl.key.location"@, key_location);
            insert_opt(m, "ssl.key.password"@, key_password)
        },
        AuthConfig::Kerberos { keytab, principal, service_name, tls, tls_verify_hostname, .. } =>
            tls_settings(m, tls, kerberos_ca, tls_verify_hostname)
                .insert("security.protocol"@, sasl_protocol(tls))
                .insert("sasl.mechanism"@, "GSSAPI"@)
                .insert("sasl.kerberos.keytab"@, keytab@)
                .insert("sasl.kerberos.principal"@, principal@)
                .insert("sasl.kerberos.service.name"@, service_name@)
                .insert("sasl.kerberos.kinit.cmd"@, "kinit -t \"%{sasl.kerberos.keytab}\" -k %{sasl.kerberos.principal}"@)
                .insert("sasl.kerberos.min.time.before.relogin"@, "86400"@),
    }
}

/// Everything a client of the cluster is configured with.
pub open spec fn base_settings(c: ClusterConfig, kerberos_ca: Option<Seq<char>>) -> Map<Seq<char>, Seq<char>> {
    auth_settings(common_settings(c), c.auth, kerberos_ca)
}

/// How a client authenticates follows the cluster's auth mode: SASL modes
/// set the protocol (`SASL_SSL` over TLS, else `SASL_PLAINTEXT`), the
/// mechanism (`PLAIN`, the configured SCRAM variant, or `GSSAPI`) and the
/// credentials; SSL sets the `SSL` protocol and no SASL mechanism; without
/// authentication neither is set. The brokers are always listed.
pub proof fn law_auth_settings_follow_the_mode(c: ClusterConfig, kerberos_ca: Option<Seq<char>>)
    ensures
        base_settings(c, kerberos_ca).dom().contains("bootstrap.servers"@),
        base_settings(c, kerberos_ca)["bootstrap.servers"@] == join(strs(c.brokers@), ","@),
        c.auth is NoAuth ==> !base_settings(c, kerberos_ca).dom().contains("security.protocol"@)
            && !base_settings(c, kerberos_ca).dom().contains("sasl.mechanism"@),
        c.auth is Ssl ==> base_settings(c, kerberos_ca).dom().contains("security.protocol"@)
            && base_settings(c, kerberos_ca)["security.protocol"@] == "SSL"@
            && !base_settings(c, kerberos_ca).dom().contains("sasl.mechanism"@),
        c.auth matches AuthConfig::SaslPlain { username, password, tls } ==> {
            let m = base_settings(c, kerberos_ca);
            &&& m.dom().contains("security.protocol"@) && m.dom().contains("sasl.mechanism"@)
            &&& m.dom().contains("sasl.username"@) && m.dom().contains("sasl.password"@)
            &&& m["security.protocol"@] == (if tls { "SASL_SSL"@ } else { "SASL_PLAINTEXT"@ })
            &&& m["sasl.mechanism"@] == "PLAIN"@
            &&& m["sasl.username"@] == username@
            &&& m["sasl.password"@] == password@
        },
        c.auth matches AuthConfig::SaslScram { username, password, mechanism, tls } ==> {
            let m = base_settings(c, kerberos_ca);
            &&& m.dom().contains("security.protocol"@) && m.dom().contains("sasl.mechanism"@)
            &&& m.dom().contains("sasl.username"@) && m.dom().contains("sasl.password"@)
            &&& m["security.protocol"@] == (if tls { "SASL_SSL"@ } else { "SASL_PLAINTEXT"@ })
            &&& (mechanism is ScramSha256 ==> m["sasl.mechanism"@] == "SCRAM-SHA-256"@)
            &&& (mechanism is ScramSha512 ==> m["sasl.mechanism"@] == "SCRAM-SHA-512"@)
            &&& m["sasl.username"@] == username@
            &&& m["sasl.password"@] == password@
        },
        c.auth matches AuthConfig::Kerberos { keytab, principal, service_name, tls, .. } ==> {
            let m = base_settings(c, kerberos_ca);
            &&& m.dom().contains("security.protocol"@) && m.dom().contains("sasl.mechanism"@)
            &&& m["security.protocol"@] == (if tls { "SASL_SSL"@ } else { "SASL_PLAINTEXT"@ })
            &&& m["sasl.mechanism"@] == "GSSAPI"@
            &&& m.dom().contains("sasl.kerberos.keytab"@) && m["sasl.kerberos.keytab"@] == keytab@
            &&& m.dom().contains("sasl.kerberos.principal"@) && m["sasl.kerberos.principal"@] == principal@
            &&& m.dom().contains("sasl.kerberos.service.name"@) && m["sasl.kerberos.service.name"@] == service_name@
        },
{
    reveal_strlit("bootstrap.servers");
    assert("bootstrap.servers"@.len() == 17);
    assert("bootstrap.servers"@[0] == 'b');
    assert("bootstrap.servers"@[1] == 'o');
    assert("bootstrap.servers"@[2] == 'o');
    assert("bootstrap.servers"@[3] == 't');
    assert("bootstrap.servers"@[4] == 's');
    assert("bootstrap.servers"@[5] == 't');
    assert("bootstrap.servers"@[6] == 'r');
    assert("bootstrap.servers"@[7] == 'a');
    assert("bootstrap.servers"@[8] == 'p');
    assert("bootstrap.servers"@[9] == '.');
    assert("bootstrap.servers"@[10] == 's');
    assert("bootstrap.servers"@[11] == 'e');
    assert("bootstrap.servers"@[12] == 'r');
    assert("bootstrap.servers"@[13] == 'v');
    assert("bootstrap.servers"@[14] == 'e');
    assert("bootstrap.servers"@[15] == 'r');
    assert("bootstrap.servers"@[16] == 's');
    reveal_strlit("client.id");
    assert("client.id"@.len() == 9);
    assert("client.id"@[0] == 'c');
    assert("client.id"@[1] == 'l');
    assert("client.id"@[2] == 'i');
    assert("client.id"@[3] == 'e');
    assert("client.id"@[4] == 'n');
    assert("client.id"@[5] == 't');
    assert("client.id"@[6] == '.');
    assert("client.id"@[7] == 'i');
    assert("client.id"@[8] == 'd');
    reveal_strlit("socket.timeout.ms");
    assert("socket.timeout.ms"@.len() == 17);
    assert("socket.timeout.ms"@[0] == 's');
    assert("socket.timeout.ms"@[1] == 'o');
    assert("socket.timeout.ms"@[2] == 'c');
    assert("socket.timeout.ms"@[3] == 'k');
    assert("socket.timeout.ms"@[4] == 'e');
    assert("socket.timeout.ms"@[5] == 't');
    assert("socket.timeout.ms"@[6] == '.');
    assert("socket.timeout.ms"@[7] == 't');
    assert("socket.timeout.ms"@[8] == 'i');
    assert("socket.timeout.ms"@[9] == 'm');
    assert("socket.timeout.ms"@[10] == 'e');
    assert("socket.timeout.ms"@[11] == 'o');
    assert("socket.timeout.ms"@[12] == 'u');
    assert("socket.timeout.ms"@[13] == 't');
    assert("socket.timeout.ms"@[14] == '.');
    assert("socket.timeout.ms"@[15] == 'm');
    assert("socket.timeout.ms"@[16] == 's');
    reveal_strlit("socket.connection.setup.timeout.ms");
    assert("socket.connection.setup.timeout.ms"@.len() == 34);
    assert("socket.connection.setup.timeout.ms"@[0] == 's');
    assert("socket.connection.setup.timeout.ms"@[1] == 'o');
    assert("socket.connection.setup.timeout.ms"@[2] == 'c');
    assert("socket.connection.setup.timeout.ms"@[3] == 'k');
    assert("socket.connection.setup.timeout.ms"@[4] == 'e');
    assert("socket.connection.setup.timeout.ms"@[5] == 't');
    assert("socket.connection.setup.timeout.ms"@[6] == '.');
    assert("socket.connection.setup.timeout.ms"@[7] == 'c');
    assert("socket.connection.setup.timeout.ms"@[8] == 'o');
    assert("socket.connection.setup.timeout.ms"@[9] == 'n');
    assert("socket.connection.setup.timeout.ms"@[10] == 'n');
    assert("socket.connection.setup.timeout.ms"@[11] == 'e');
    assert("socket.connection.setup.timeout.ms"@[12] == 'c');
    assert("socket.connection.setup.timeout.ms"@[13] == 't');
    assert("socket.connection.setup.timeout.ms"@[14] == 'i');
    assert("socket.connection.setup.timeout.ms"@[15] == 'o');
    assert("socket.connection.setup.timeout.ms"@[16] == 'n');
    assert("socket.connection.setup.timeout.ms"@[17] == '.');
    assert("socket.connection.setup.timeout.ms"@[18] == 's');
    assert("socket.connection.setup.timeout.ms"@[19] == 'e');
    assert("socket.connection.setup.timeout.ms"@[20] == 't');
    assert("socket.connection.setup.timeout.ms"@[21] == 'u');
    assert("socket.connection.setup.timeout.ms"@[22] == 'p');
    assert("socket.connection.setup.timeout.ms"@[23] == '.');
    assert("socket.connection.setup.timeout.ms"@[24] == 't');
    assert("socket.connection.setup.timeout.ms"@[25] == 'i');
    assert("socket.connection.setup.timeout.ms"@[26] == 'm');
    assert("socket.connection.setup.timeout.ms"@[27] == 'e');
    assert("socket.connection.setup.timeout.ms"@[28] == 'o');
    assert("socket.connection.setup.timeout.ms"@[29] == 'u');
    assert("socket.connection.setup.timeout.ms"@[30] == 't');
    assert("socket.connection.setup.timeout.ms"@[31] == '.');
    assert("socket.connection.setup.timeout.ms"@[32] == 'm');
    assert("socket.connection.setup.timeout.ms"@[33] == 's');
    reveal_strlit("api.version.request");
    assert("api.version.request"@.len() == 19);
    assert("api.version.request"@[0] == 'a');
    assert("api.version.request"@[1] == 'p');
    assert("api.version.request"@[2] == 'i');
    assert("api.version.request"@[3] == '.');
    assert("api.version.request"@[4] == 'v');
    assert("api.version.request"@[5] == 'e');
    assert("api.version.request"@[6] == 'r');
    assert("api.version.request"@[7] == 's');
    assert("api.version.request"@[8] == 'i');
    assert("api.version.request"@[9] == 'o');
    assert("api.version.request"@[10] == 'n');
    assert("api.version.request"@[11] == '.');
    assert("api.version.request"@[12] == 'r');
    assert("api.version.request"@[13] == 'e');
    assert("api.version.request"@[14] == 'q');
    assert("api.version.request"@[15] == 'u');
    assert("api.version.request"@[16] == 'e');
    assert("api.version.request"@[17] == 's');
    assert("api.version.request"@[18] == 't');
    reveal_strlit("ssl.endpoint.identification.algorithm");
    assert("ssl.endpoint.identification.algorithm"@.len() == 37);
    assert("ssl.endpoint.identification.algorithm"@[0] == 's');
    assert("ssl.endpoint.identification.algorithm"@[1] == 's');
    assert("ssl.endpoint.identification.algorithm"@[2] == 'l');
    assert("ssl.endpoint.identification.algorithm"@[3] == '.');
    assert("ssl.endpoint.identification.algorithm"@[4] == 'e');
    assert("ssl.endpoint.identification.algorithm"@[5] == 'n');
    assert("ssl.endpoint.identification.algorithm"@[6] == 'd');
    assert("ssl.endpoint.identification.algorithm"@[7] == 'p');
    assert("ssl.endpoint.identification.algorithm"@[8] == 'o');
    assert("ssl.endpoint.identification.algorithm"@[9] == 'i');
    assert("ssl.endpoint.identification.algorithm"@[10] == 'n');
    assert("ssl.endpoint.identification.algorithm"@[11] == 't');
    assert("ssl.endpoint.identification.algorithm"@[12] == '.');
    assert("ssl.endpoint.identification.algorithm"@[13] == 'i');
    assert("ssl.endpoint.identification.algorithm"@[14] == 'd');
    assert("ssl.endpoint.identification.algorithm"@[15] == 'e');
    assert("ssl.endpoint.identification.algorithm"@[16] == 'n');
    assert("ssl.endpoint.identification.algorithm"@[17] == 't');
    assert("ssl.endpoint.identification.algorithm"@[18] == 'i');
    assert("ssl.endpoint.identification.algorithm"@[19] == 'f');
    assert("ssl.endpoint.identification.algorithm"@[20] == 'i');
    assert("ssl.endpoint.identification.algorithm"@[21] == 'c');
    assert("ssl.endpoint.identification.algorithm"@[22] == 'a');
    assert("ssl.endpoint.identification.algorithm"@[23] == 't');
    assert("ssl.endpoint.identification.algorithm"@[24] == 'i');
    assert("ssl.endpoint.identification.algorithm"@[25] == 'o');
    assert("ssl.endpoint.identification.algorithm"@[26] == 'n');
    assert("ssl.endpoint.identification.algorithm"@[27] == '.');
    assert("ssl.endpoint.identification.algorithm"@[28] == 'a');
    assert("ssl.endpoint.identification.algorithm"@[29] == 'l');
    assert("ssl.endpoint.identification.algorithm"@[30] == 'g');
    assert("ssl.endpoint.identification.algorithm"@[31] == 'o');
    assert("ssl.endpoint.identification.algorithm"@[32] == 'r');
    assert("ssl.endpoint.identification.algorithm"@[33] == 'i');
    assert("ssl.endpoint.identification.algorithm"@[34] == 't');
    assert("ssl.endpoint.identification.algorithm"@[35] == 'h');
    assert("ssl.endpoint.identification.algorithm"@[36] == 'm');
    reveal_strlit("ssl.ca.location");
    assert("ssl.ca.location"@.len() == 15);
    assert("ssl.ca.location"@[0] == 's');
    assert("ssl.ca.location"@[1] == 's');
    assert("ssl.ca.location"@[2] == 'l');
    assert("ssl.ca.location"@[3] == '.');
    assert("ssl.ca.location"@[4] == 'c');
    assert("ssl.ca.location"@[5] == 'a');
    assert("ssl.ca.location"@[6] == '.');
    assert("ssl.ca.location"@[7] == 'l');
    assert("ssl.ca.location"@[8] == 'o');
    assert("ssl.ca.location"@[9] == 'c');
    assert("ssl.ca.location"@[10] == 'a');
    assert("ssl.ca.location"@[11] == 't');
    assert("ssl.ca.location"@[12] == 'i');
    assert("ssl.ca.location"@[13] == 'o');
    assert("ssl.ca.location"@[14] == 'n');
    reveal_strlit("security.protocol");
    assert("security.protocol"@.len() == 17);
    assert("security.protocol"@[0] == 's');
    assert("security.protocol"@[1] == 'e');
    assert("security.protocol"@[2] == 'c');
    assert("security.protocol"@[3] == 'u');
    assert("security.protocol"@[4] == 'r');
    assert("security.protocol"@[5] == 'i');
    assert("security.protocol"@[6] == 't');
    assert("security.protocol"@[7] == 'y');
    assert("security.protocol"@[8] == '.');
    assert("security.protocol"@[9] == 'p');
    assert("security.protocol"@[10] == 'r');
    assert("security.protocol"@[11] == 'o');
    assert("security.protocol"@[12] == 't');
    assert("security.protocol"@[13] == 'o');
    assert("security.protocol"@[14] == 'c');
    assert("security.protocol"@[15] == 'o');
    assert("security.protocol"@[16] == 'l');
    reveal_strlit("sasl.mechanism");
    assert("sasl.mechanism"@.len() == 14);
    assert("sasl.mechanism"@[0] == 's');
    assert("sasl.mechanism"@[1] == 'a');
    assert("sasl.mechanism"@[2] == 's');
    assert("sasl.mechanism"@[3] == 'l');
    assert("sasl.mechanism"@[4] == '.');
    assert("sasl.mechanism"@[5] == 'm');
    assert("sasl.mechanism"@[6] == 'e');
    assert("sasl.mechanism"@[7] == 'c');
    assert("sasl.mechanism"@[8] == 'h');
    assert("sasl.mechanism"@[9] == 'a');
    assert("sasl.mechanism"@[10] == 'n');
    assert("sasl.mechanism"@[11] == 'i');
    assert("sasl.mechanism"@[12] == 's');
    assert("sasl.mechanism"@[13] == 'm');
    reveal_strlit("sasl.username");
    assert("sasl.username"@.len() == 13);
    assert("sasl.username"@[0] == 's');
    assert("sasl.username"@[1] == 'a');
    assert("sasl.username"@[2] == 's');
    assert("sasl.username"@[3] == 'l');
    assert("sasl.username"@[4] == '.');
    assert("sasl.username"@[5] == 'u');
    assert("sasl.username"@[6] == 's');
    assert("sasl.username"@[7] == 'e');
    assert("sasl.username"@[8] == 'r');
    assert("sasl.username"@[9] == 'n');
    assert("sasl.username"@[10] == 'a');
    assert("sasl.username"@[11] == 'm');
    assert("sasl.username"@[12] == 'e');
    reveal_strlit("sasl.password");
    assert("sasl.password"@.len() == 13);
    assert("sasl.password"@[0] == 's');
    assert("sasl.password"@[1] == 'a');
    assert("sasl.password"@[2] == 's');
    assert("sasl.password"@[3] == 'l');
    assert("sasl.password"@[4] == '.');
    assert("sasl.password"@[5] == 'p');
    assert("sasl.password"@[6] == 'a');
    assert("sasl.password"@[7] == 's');
    assert("sasl.password"@[8] == 's');
    assert("sasl.password"@[9] == 'w');
    assert("sasl.password"@[10] == 'o');
    assert("sasl.password"@[11] == 'r');
    assert("sasl.password"@[12] == 'd');
    reveal_strlit("ssl.certificate.location");
    assert("ssl.certificate.location"@.len() == 24);
    assert("ssl.certificate.location"@[0] == 's');
    assert("ssl.certificate.location"@[1] == 's');
    assert("ssl.certificate.location"@[2] == 'l');
    assert("ssl.certificate.location"@[3] == '.');
    assert("ssl.certificate.location"@[4] == 'c');
    assert("ssl.certificate.location"@[5] == 'e');
    assert("ssl.certificate.location"@[6] == 'r');
    assert("ssl.certificate.location"@[7] == 't');
    assert("ssl.certificate.location"@[8] == 'i');
    assert("ssl.certificate.location"@[9] == 'f');
    assert("ssl.certificate.location"@[10] == 'i');
    assert("ssl.certificate.location"@[11] == 'c');
    assert("ssl.certificate.location"@[12] == 'a');
    assert("ssl.certificate.location"@[13] == 't');
    assert("ssl.certificate.location"@[14] == 'e');
    assert("ssl.certificate.location"@[15] == '.');
    assert("ssl.certificate.location"@[16] == 'l');
    assert("ssl.certificate.location"@[17] == 'o');
    assert("ssl.certificate.location"@[18] == 'c');
    assert("ssl.certificate.location"@[19] == 'a');
    assert("ssl.certificate.location"@[20] == 't');
    assert("ssl.certificate.location"@[21] == 'i');
    assert("ssl.certificate.location"@[22] == 'o');
    assert("ssl.certificate.location"@[23] == 'n');
    reveal_strlit("ssl.key.location");
    assert("ssl.key.location"@.len() == 16);
    assert("ssl.key.location"@[0] == 's');
    assert("ssl.key.location"@[1] == 's');
    assert("ssl.key.location"@[2] == 'l');
    assert("ssl.key.location"@[3] == '.');
    assert("ssl.key.location"@[4] == 'k');
    assert("ssl.key.location"@[5] == 'e');
    assert("ssl.key.location"@[6] == 'y');
    assert("ssl.key.location"@[7] == '.');
    assert("ssl.key.location"@[8] == 'l');
    assert("ssl.key.location"@[9] == 'o');
    assert("ssl.key.location"@[10] == 'c');
    assert("ssl.key.location"@[11] == 'a');
    assert("ssl.key.location"@[12] == 't');
    assert("ssl.key.location"@[13] == 'i');
    assert("ssl.key.location"@[14] == 'o');
    assert("ssl.key.location"@[15] == 'n');
    reveal_strlit("ssl.key.password");
    assert("ssl.key.password"@.len() == 16);
    assert("ssl.key.password"@[0] == 's');
    assert("ssl.key.password"@[1] == 's');
    assert("ssl.key.password"@[2] == 'l');
    assert("ssl.key.password"@[3] == '.');
    assert("ssl.key.password"@[4] == 'k');
    assert("ssl.key.password"@[5] == 'e');
    assert("ssl.key.password"@[6] == 'y');
    assert("ssl.key.password"@[7] == '.');
    assert("ssl.key.password"@[8] == 'p');
    assert("ssl.key.password"@[9] == 'a');
    assert("ssl.key.password"@[10] == 's');
    assert("ssl.key.password"@[11] == 's');
    assert("ssl.key.password"@[12] == 'w');
    assert("ssl.key.password"@[13] == 'o');
    assert("ssl.key.password"@[14] == 'r');
    assert("ssl.key.password"@[15] == 'd');
    reveal_strlit("sasl.kerberos.keytab");
    assert("sasl.kerberos.keytab"@.len() == 20);
    assert("sasl.kerberos.keytab"@[0] == 's');
    assert("sasl.kerberos.keytab"@[1] == 'a');
    assert("sasl.kerberos.keytab"@[2] == 's');
    assert("sasl.kerberos.keytab"@[3] == 'l');
    assert("sasl.kerberos.keytab"@[4] == '.');
    assert("sasl.kerberos.keytab"@[5] == 'k');
    assert("sasl.kerberos.keytab"@[6] == 'e');
    assert("sasl.kerberos.keytab"@[7] == 'r');
    assert("sasl.kerberos.keytab"@[8] == 'b');
    assert("sasl.kerberos.keytab"@[9] == 'e');
    assert("sasl.kerberos.keytab"@[10] == 'r');
    assert("sasl.kerberos.keytab"@[11] == 'o');
    assert("sasl.kerberos.keytab"@[12] == 's');
    assert("sasl.kerberos.keytab"@[13] == '.');
    assert("sasl.kerberos.keytab"@[14] == 'k');
    assert("sasl.kerberos.keytab"@[15] == 'e');
    assert("sasl.kerberos.keytab"@[16] == 'y');
    assert("sasl.kerberos.keytab"@[17] == 't');
    assert("sasl.kerberos.keytab"@[18] == 'a');
    assert("sasl.kerberos.keytab"@[19] == 'b');
    reveal_strlit("sasl.kerberos.principal");
    assert("sasl.kerberos.principal"@.len() == 23);
    assert("sasl.kerberos.principal"@[0] == 's');
    assert("sasl.kerberos.principal"@[1] == 'a');
    assert("sasl.kerberos.principal"@[2] == 's');
    assert("sasl.kerberos.principal"@[3] == 'l');
    assert("sasl.kerberos.principal"@[4] == '.');
    assert("sasl.kerberos.principal"@[5] == 'k');
    assert("sasl.kerberos.principal"@[6] == 'e');
    assert("sasl.kerberos.principal"@[7] == 'r');
    assert("sasl.kerberos.principal"@[8] == 'b');
    assert("sasl.kerberos.principal"@[9] == 'e');
    assert("sasl.kerberos.principal"@[10] == 'r');
    assert("sasl.kerberos.principal"@[11] == 'o');
    assert("sasl.kerberos.principal"@[12] == 's');
    assert("sasl.kerberos.principal"@[13] == '.');
    assert("sasl.kerberos.principal"@[14] == 'p');
    assert("sasl.kerberos.principal"@[15] == 'r');
    assert("sasl.kerberos.principal"@[16] == 'i');
    assert("sasl.kerberos.principal"@[17] == 'n');
    assert("sasl.kerberos.principal"@[18] == 'c');
    assert("sasl.kerberos.principal"@[19] == 'i');
    assert("sasl.kerberos.principal"@[20] == 'p');
    assert("sasl.kerberos.principal"@[21] == 'a');
    assert("sasl.kerberos.principal"@[22] == 'l');
    reveal_strlit("sasl.kerberos.service.name");
    assert("sasl.kerberos.service.name"@.len() == 26);
    assert("sasl.kerberos.service.name"@[0] == 's');
    assert("sasl.kerberos.service.name"@[1] == 'a');
    assert("sasl.kerberos.service.name"@[2] == 's');
    assert("sasl.kerberos.service.name"@[3] == 'l');
    assert("sasl.kerberos.service.name"@[4] == '.');
    assert("sasl.kerberos.service.name"@[5] == 'k');
    assert("sasl.kerberos.service.name"@[6] == 'e');
    assert("sasl.kerberos.service.name"@[7] == 'r');
    assert("sasl.kerberos.service.name"@[8] == 'b');
    assert("sasl.kerberos.service.name"@[9] == 'e');
    assert("sasl.kerberos.service.name"@[10] == 'r');
    assert("sasl.kerberos.service.name"@[11] == 'o');
    assert("sasl.kerberos.service.name"@[12] == 's');
    assert("sasl.kerberos.service.name"@[13] == '.');
    assert("sasl.kerberos.service.name"@[14] == 's');
    assert("sasl.kerberos.service.name"@[15] == 'e');
    assert("sasl.kerberos.service.name"@[16] == 'r');
    assert("sasl.kerberos.service.name"@[17] == 'v');
    assert("sasl.kerberos.service.name"@[18] == 'i');
    assert("sasl.kerberos.service.name"@[19] == 'c');
    assert("sasl.kerberos.service.name"@[20] == 'e');
    assert("sasl.kerberos.service.name"@[21] == '.');
    assert("sasl.kerberos.service.name"@[22] == 'n');
    assert("sasl.kerberos.service.name"@[23] == 'a');
    assert("sasl.kerberos.service.name"@[24] == 'm');
    assert("sasl.kerberos.service.name"@[25] == 'e');
    reveal_strlit("sasl.kerberos.kinit.cmd");
    assert("sasl.kerberos.kinit.cmd"@.len() == 23);
    assert("sasl.kerberos.kinit.cmd"@[0] == 's');
    assert("sasl.kerberos.kinit.cmd"@[1] == 'a');
    assert("sasl.kerberos.kinit.cmd"@[2] == 's');
    assert("sasl.kerberos.kinit.cmd"@[3] == 'l');
    assert("sasl.kerberos.kinit.cmd"@[4] == '.');
    assert("sasl.kerberos.kinit.cmd"@[5] == 'k');
    assert("sasl.kerberos.kinit.cmd"@[6] == 'e');
    assert("sasl.kerberos.kinit.cmd"@[7] == 'r');
    assert("sasl.kerberos.kinit.cmd"@[8] == 'b');
    assert("sasl.kerberos.kinit.cmd"@[9] == 'e');
    assert("sasl.kerberos.kinit.cmd"@[10] == 'r');
    assert("sasl.kerberos.kinit.cmd"@[11] == 'o');
    assert("sasl.kerberos.kinit.cmd"@[12] == 's');
    assert("sasl.kerberos.kinit.cmd"@[13] == '.');
    assert("sasl.kerberos.kinit.cmd"@[14] == 'k');
    assert("sasl.kerberos.kinit.cmd"@[15] == 'i');
    assert("sasl.kerberos.kinit.cmd"@[16] == 'n');
    assert("sasl.kerberos.kinit.cmd"@[17] == 'i');
    assert("sasl.kerberos.kinit.cmd"@[18] == 't');
    assert("sasl.kerberos.kinit.cmd"@[19] == '.');
    assert("sasl.kerberos.kinit.cmd"@[20] == 'c');
    assert("sasl.kerberos.kinit.cmd"@[21] == 'm');
    assert("sasl.kerberos.kinit.cmd"@[22] == 'd');
    reveal_strlit("sasl.kerberos.min.time.before.relogin");
    assert("sasl.kerberos.min.time.before.relogin"@.len() == 37);
    assert("sasl.kerberos.min.time.before.relogin"@[0] == 's');
    assert("sasl.kerberos.min.time.before.relogin"@[1] == 'a');
    assert("sasl.kerberos.min.time.before.relogin"@[2] == 's');
    assert("sasl.kerberos.min.time.before.relogin"@[3] == 'l');
    assert("sasl.kerberos.min.time.before.relogin"@[4] == '.');
    assert("sasl.kerberos.min.time.before.relogin"@[5] == 'k');
    assert("sasl.kerberos.min.time.before.relogin"@[6] == 'e');
    assert("sasl.kerberos.min.time.before.relogin"@[7] == 'r');
    assert("sasl.kerberos.min.time.before.relogin"@[8] == 'b');
    assert("sasl.kerberos.min.time.before.relogin"@[9] == 'e');
    assert("sasl.kerberos.min.time.before.relogin"@[10] == 'r');
    assert("sasl.kerberos.min.time.before.relogin"@[11] == 'o');
    assert("sasl.kerberos.min.time.before.relogin"@[12] == 's');
    assert("sasl.kerberos.min.time.before.relogin"@[13] == '.');
    assert("sasl.kerberos.min.time.before.relogin"@[14] == 'm');
    assert("sasl.kerberos.min.time.before.relogin"@[15] == 'i');
    assert("sasl.kerberos.min.time.before.relogin"@[16] == 'n');
    assert("sasl.kerberos.min.time.before.relogin"@[17] == '.');
    assert("sasl.kerberos.min.time.before.relogin"@[18] == 't');
    assert("sasl.kerberos.min.time.before.relogin"@[19] == 'i');
    assert("sasl.kerberos.min.time.before.relogin"@[20] == 'm');
    assert("sasl.kerberos.min.time.before.relogin"@[21] == 'e');
    assert("sasl.kerberos.min.time.before.relogin"@[22] == '.');
    assert("sasl.kerberos.min.time.before.relogin"@[23] == 'b');
    assert("sasl.kerberos.min.time.before.relogin"@[24] == 'e');
    assert("sasl.kerberos.min.time.before.relogin"@[25] == 'f');
    assert("sasl.kerberos.min.time.before.relogin"@[26] == 'o');
    assert("sasl.kerberos.min.time.before.relogin"@[27] == 'r');
    assert("sasl.kerberos.min.time.before.relogin"@[28] == 'e');
    assert("sasl.kerberos.min.time.before.relogin"@[29] == '.');
    assert("sasl.kerberos.min.time.before.relogin"@[30] == 'r');
    assert("sasl.kerberos.min.time.before.relogin"@[31] == 'e');
    assert("sasl.kerberos.min.time.before.relogin"@[32] == 'l');
    assert("sasl.kerberos.min.time.before.relogin"@[33] == 'o');
    assert("sasl.kerberos.min.time.before.relogin"@[34] == 'g');
    assert("sasl.kerberos.min.time.before.relogin"@[35] == 'i');
    assert("sasl.kerberos.min.time.before.relogin"@[36] == 'n');
}

fn apply_tls(cfg: &mut ClientConfig, tls: bool, ca: Option<&str>, verify_hostname: bool)
    ensures
        config_entries(*final(cfg)) == tls_settings(
            config_entries(*old(cfg)),
            tls,
            match ca { Some(p) => Some(p@), None => None },
            verify_hostname,
        ),
{
    if !tls {
        return;
    }
    if verify_hostname {
        set_entry(cfg, "ssl.endpoint.identification.algorithm", "https");
    } else {
        set_entry(cfg, "ssl.endpoint.identification.algorithm", "none");
    }
    if let Some(p) = ca {
        set_entry(cfg, "ssl.ca.location", p);
    }
}

fn set_opt(cfg: &mut ClientConfig, key: &str, v: &Option<String>)
    ensures
        config_entries(*final(cfg)) == insert_opt(config_entries(*old(cfg)), key@, *v),
{
    if let Some(s) = v {
        set_entry(cfg, key, s.as_str());
    }
}

fn protocol_for(tls: bool) -> (r: &'static str)
    ensures
        r@ == sasl_protocol(tls),
{
    if tls { "SASL_SSL" } else { "SASL_PLAINTEXT" }
}

/// The client configuration of `cluster`. `kerberos_ca` is the CA file
/// chosen for Kerberos over TLS (see `resolve_kerberos_ssl_ca`); the other
/// modes ignore it.
pub fn base_config(cluster: &ClusterConfig, kerberos_ca: Option<&str>) -> (r: ClientConfig)
    ensures
        config_entries(r) == base_settings(*cluster, match kerberos_ca { Some(p) => Some(p@), None => None }),
{
    let mut cfg = new_client_config();
    let servers = join_strings(cluster.brokers.as_slice(), ",");
    set_entry(&mut cfg, "bootstrap.servers", servers.as_str());
    if let Some(id) = &cluster.client_id {
        set_entry(&mut cfg, "client.id", id.as_str());
    }
    set_entry(&mut cfg, "socket.timeout.ms", "30000");
    set_entry(&mut cfg, "socket.connection.setup.timeout.ms", "30000");
    set_entry(&mut cfg, "api.version.request", "true");
    match &cluster.auth {
        AuthConfig::NoAuth => {},
        AuthConfig::SaslPlain { username, password, tls } => {
            apply_tls(&mut cfg, *tls, None, true);
            set_entry(&mut cfg, "security.protocol", protocol_for(*tls));
            set_entry(&mut cfg, "sasl.mechanism", "PLAIN");
            set_entry(&mut cfg, "sasl.username", username.as_str());
            set_entry(&mut cfg, "sasl.password", password.as_str());
        },
        AuthConfig::SaslScram { username, password, mechanism, tls } => {
            apply_tls(&mut cfg, *tls, None, true);
            set_entry(&mut cfg, "security.protocol", protocol_for(*tls));
            let mech = match mechanism {
                ScramMechanism::ScramSha256 => "SCRAM-SHA-256",
                ScramMechanism::ScramSha512 => "SCRAM-SHA-512",
            };
            set_entry(&mut cfg, "sasl.mechanism", mech);
            set_entry(&mut cfg, "sasl.username", username.as_str());
            set_entry(&mut cfg, "sasl.password", password.as_str());
        },
        AuthConfig::Ssl { ca_location, certificate_location, key_location, key_password } => {
            set_entry(&mut cfg, "security.protocol", "SSL");
            set_opt(&mut cfg, "ssl.ca.location", ca_location);
            set_opt(&mut cfg, "ssl.certificate.location", certificate_location);
            set_opt(&mut cfg, "ssl.key.location", key_location);
            set_opt(&mut cfg, "ssl.key.password", key_password);
        },
        AuthConfig::Kerberos { keytab, principal, service_name, tls, tls_verify_hostname, .. } => {
            apply_tls(&mut cfg, *tls, kerberos_ca, *tls_verify_hostname);
            set_entry(&mut cfg, "security.protocol", protocol_for(*tls));
            set_entry(&mut cfg, "sasl.mechanism", "GSSAPI");
            set_entry(&mut cfg, "sasl.kerberos.keytab", keytab.as_str());
            set_entry(&mut cfg, "sasl.kerberos.principal", principal.as_str());
            set_entry(&mut cfg, "sasl.kerberos.service.name", service_name.as_str());
            set_entry(
                &mut cfg,
                "sasl.kerberos.kinit.cmd",
                "kinit -t \"%{sasl.kerberos.keytab}\" -k %{sasl.kerberos.principal}",
            );
            set_entry(&mut cfg, "sasl.kerberos.min.time.before.relogin", "86400");
        },
    }
    cfg
}

/// `prefix-pid`: the group id of a short-lived explorer consumer.
pub open spec fn scoped_group_id(prefix: Seq<char>, pid: u64) -> Seq<char> {
    prefix + "-"@ + dec(pid as nat)
}

/// Settings of a consumer that reads messages: its own group, no commits,
/// and no end-of-partition events (they are not errors, only the end of
/// the queue, and would be logged over the screen).
pub open spec fn consumer_settings(m: Map<Seq<char>, Seq<char>>, group_id: Seq<char>) -> Map<Seq<char>, Seq<char>> {
    m.insert("group.id"@, group_id)
        .insert("enable.auto.commit"@, "false"@)
        .insert("enable.partition.eof"@, "false"@)
        .insert("log.connection.close"@, "false"@)
        .insert("log_level"@, "0"@)
}

fn scoped_group(prefix: &str, pid: u64) -> (r: String)
    ensures
        r@ == scoped_group_id(prefix@, pid),
{
    let mut g = String::from_str(prefix);
    g.append("-");
    let n = fmt_u64(pid);
    g.append(n.as_str());
    g
}

/// A message-reading consumer of `cluster`, in group `prefix-pid`.
pub fn consumer_config(cluster: &ClusterConfig, kerberos_ca: Option<&str>, group_prefix: &str, pid: u64) -> (r: ClientConfig)
    ensures
        config_entries(r) == consumer_settings(
            base_settings(*cluster, match kerberos_ca { Some(p) => Some(p@), None => None }),
            scoped_group_id(group_prefix@, pid),
        ),
{
    let mut cfg = base_config(cluster, kerberos_ca);
    let g = scoped_group(group_prefix, pid);
    set_entry(&mut cfg, "group.id", g.as_str());
    set_entry(&mut cfg, "enable.auto.commit", "false");
    set_entry(&mut cfg, "enable.partition.eof", "false");
    set_entry(&mut cfg, "log.connection.close", "false");
    set_entry(&mut cfg, "log_level", "0");
    cfg
}

/// Settings of a consumer that works on a group's offsets without joining
/// it: the group id, no commits of its own, no end-of-partition events, no
/// logging.
pub open spec fn group_admin_settings(m: Map<Seq<char>, Seq<char>>, group_id: Seq<char>) -> Map<Seq<char>, Seq<char>> {
    m.insert("group.id"@, group_id)
        .insert("enable.auto.commit"@, "false"@)
        .insert("enable.partition.eof"@, "false"@)
        .insert("log_level"@, "0"@)
}

/// A consumer of `cluster` acting for group `group_id` (listing groups,
/// reading or resetting committed offsets).
pub fn group_admin_config(cluster: &ClusterConfig, kerberos_ca: Option<&str>, group_id: &str) -> (r: ClientConfig)
    ensures
        config_entries(r) == group_admin_settings(
            base_settings(*cluster, match kerberos_ca { Some(p) => Some(p@), None => None }),
            group_id@,
        ),
{
    let mut cfg = base_config(cluster, kerberos_ca);
    set_entry(&mut cfg, "group.id", group_id);
    set_entry(&mut cfg, "enable.auto.commit", "false");
    set_entry(&mut cfg, "enable.partition.eof", "false");
    set_entry(&mut cfg, "log_level", "0");
    cfg
}

/// The group id, `prefix-pid`, of the explorer's own helper consumers.
pub fn helper_group_id(prefix: &str, pid: u64) -> (r: String)
    ensures
        r@ == scoped_group_id(prefix@, pid),
{
    scoped_group(prefix, pid)
}

/// A consumer that only reads watermarks for the topic list.
pub fn metadata_consumer_config(cluster: &ClusterConfig, kerberos_ca: Option<&str>, pid: u64) -> (r: ClientConfig)
    ensures
        config_entries(r) == base_settings(*cluster, match kerberos_ca { Some(p) => Some(p@), None => None })
            .insert("group.id"@, scoped_group_id("y2kexplorer-meta"@, pid)),
{
    let mut cfg = base_config(cluster, kerberos_ca);
    let g = scoped_group("y2kexplorer-meta", pid);
    set_entry(&mut cfg, "group.id", g.as_str());
    cfg
}

/// A producer of `cluster`; a message not delivered within ten seconds
/// fails.
pub fn producer_config(cluster: &ClusterConfig, kerberos_ca: Option<&str>) -> (r: ClientConfig)
    ensures
        config_entries(r) == base_settings(*cluster, match kerberos_ca { Some(p) => Some(p@), None => None })
            .insert("message.timeout.ms"@, "10000"@),
{
    let mut cfg = base_config(cluster, kerberos_ca);
    set_entry(&mut cfg, "message.timeout.ms", "10000");
    cfg
}

} // verus!
