//! Kafka ACLs: entries as listed, the form's specification, and how a
//! specification becomes an ACL binding (for create) or a binding filter
//! (for delete), including every validation the admin API asks for.

use vstd::prelude::*;

use crate::text::{ascii_lower, ascii_lowercase, lex_lt, lemma_lex_asym, lemma_lex_irrefl, lemma_lex_trans, str_eq, str_lt, trim, trim_str, dec, fmt_u128};

verus! {

/// An ACL binding as the broker lists it (names in lower case).
#[derive(Debug)]
pub struct AclEntry {
    pub resource_type: String,
    pub resource_name: String,
    pub pattern_type: String,
    pub principal: String,
    pub host: String,
    pub operation: String,
    pub permission: String,
}

/// An ACL as the form describes it.
#[derive(Debug)]
pub struct AclSpec {
    pub resource_type: String,
    pub resource_name: String,
    pub pattern_type: String,
    pub principal: String,
    pub host: String,
    pub operation: String,
    pub permission: String,
}

/// The seven fields, in form order.
pub type AclView = (Seq<char>, Seq<char>, Seq<char>, Seq<char>, Seq<char>, Seq<char>, Seq<char>);

impl AclEntry {
    pub open spec fn view(&self) -> AclView {
        (self.resource_type@, self.resource_name@, self.pattern_type@, self.principal@, self.host@, self.operation@, self.permission@)
    }

    /// The specification that selects this entry.
    pub fn to_spec(&self) -> (r: AclSpec)
        ensures
            r.view() == self.view(),
    {
        AclSpec {
            resource_type: self.resource_type.clone(),
            resource_name: self.resource_name.clone(),
            pattern_type: self.pattern_type.clone(),
            principal: self.principal.clone(),
            host: self.host.clone(),
            operation: self.operation.clone(),
            permission: self.permission.clone(),
        }
    }
}

impl AclSpec {
    pub open spec fn view(&self) -> AclView {
        (self.resource_type@, self.resource_name@, self.pattern_type@, self.principal@, self.host@, self.operation@, self.permission@)
    }

    /// A copy.
    pub fn duplicate(&self) -> (r: AclSpec)
        ensures
            r.view() == self.view(),
    {
        AclSpec {
            resource_type: self.resource_type.clone(),
            resource_name: self.resource_name.clone(),
            pattern_type: self.pattern_type.clone(),
            principal: self.principal.clone(),
            host: self.host.clone(),
            operation: self.operation.clone(),
            permission: self.permission.clone(),
        }
    }
}

/// Kind of resource an ACL guards; `Any` only in filters.
#[derive(Debug, Clone, Copy, PartialEq, Eq, Structural)]
pub enum AclResourceType {
    Any,
    Topic,
    Group,
    Broker,
    TransactionalId,
}

/// How the resource name matches; `Any` only in filters.
#[derive(Debug, Clone, Copy, PartialEq, Eq, Structural)]
pub enum AclPatternType {
    Any,
    Literal,
    Prefixed,
    Match,
}

/// The guarded operation; `Any` only in filters.
#[derive(Debug, Clone, Copy, PartialEq, Eq, Structural)]
pub enum AclOperation {
    Any,
    All,
    Read,
    Write,
    Create,
    Delete,
    Alter,
    Describe,
    ClusterAction,
    DescribeConfigs,
    AlterConfigs,
    IdempotentWrite,
}

/// Allow or deny; `Any` only in filters.
#[derive(Debug, Clone, Copy, PartialEq, Eq, Structural)]
pub enum AclPermission {
    Any,
    Allow,
    Deny,
}

/// A complete binding, ready for the create call.
#[derive(Debug)]
pub struct AclBinding {
    pub resource_type: AclResourceType,
    pub resource_name: String,
    pub pattern_type: AclPatternType,
    pub principal: String,
    pub host: String,
    pub operation: AclOperation,
    pub permission: AclPermission,
}

/// A binding filter for the delete and describe calls; `None` matches any
/// value.
#[derive(Debug)]
pub struct AclBindingFilter {
    pub resource_type: AclResourceType,
    pub resource_name: Option<String>,
    pub pattern_type: AclPatternType,
    pub principal: Option<String>,
    pub host: Option<String>,
    pub operation: AclOperation,
    pub permission: AclPermission,
}

/// The form value as the parsers compare it.
pub open spec fn acl_key(s: Seq<char>) -> Seq<char> {
    ascii_lower(trim(s))
}

pub open spec fn resource_type_named(key: Seq<char>) -> Option<AclResourceType> {
    if key == "topic"@ {
        Some(AclResourceType::Topic)
    } else if key == "group"@ {
        Some(AclResourceType::Group)
    } else if key == "broker"@ || key == "cluster"@ {
        Some(AclResourceType::Broker)
    } else if key == "transactional_id"@ || key == "transactional-id"@ || key == "txn"@ {
        Some(AclResourceType::TransactionalId)
    } else {
        None
    }
}

pub open spec fn pattern_type_named(key: Seq<char>) -> Option<AclPatternType> {
    if key == "literal"@ {
        Some(AclPatternType::Literal)
    } else if key == "prefixed"@ || key == "prefix"@ {
        Some(AclPatternType::Prefixed)
    } else if key == "match"@ {
        Some(AclPatternType::Match)
    } else {
        None
    }
}

pub open spec fn operation_named(key: Seq<char>) -> Option<AclOperation> {
    if key == "all"@ {
        Some(AclOperation::All)
    } else if key == "read"@ {
        Some(AclOperation::Read)
    } else if key == "write"@ {
        Some(AclOperation::Write)
    } else if key == "create"@ {
        Some(AclOperation::Create)
    } else if key == "delete"@ {
        Some(AclOperation::Delete)
    } else if key == "alter"@ {
        Some(AclOperation::Alter)
    } else if key == "describe"@ {
        Some(AclOperation::Describe)
    } else if key == "cluster_action"@ || key == "cluster"@ {
        Some(AclOperation::ClusterAction)
    } else if key == "describe_configs"@ {
        Some(AclOperation::DescribeConfigs)
    } else if key == "alter_configs"@ {
        Some(AclOperation::AlterConfigs)
    } else if key == "idempotent_write"@ {
        Some(AclOperation::IdempotentWrite)
    } else {
        None
    }
}

pub open spec fn permission_named(key: Seq<char>) -> Option<AclPermission> {
    if key == "allow"@ {
        Some(AclPermission::Allow)
    } else if key == "deny"@ {
        Some(AclPermission::Deny)
    } else {
        None
    }
}

/// A form's permission is the one its text names: `allow` grants, `deny`
/// refuses, and no other text names a permission.
pub proof fn law_permission_names(k: Seq<char>)
    ensures
        permission_named(k) == Some(AclPermission::Allow) <==> k == "allow"@,
        permission_named(k) == Some(AclPermission::Deny) <==> k == "deny"@,
        permission_named(k) is None <==> (k != "allow"@ && k != "deny"@),
{
    reveal_strlit("allow");
    assert("allow"@.len() == 5);
    assert("allow"@[0] == 'a');
    assert("allow"@[1] == 'l');
    assert("allow"@[2] == 'l');
    assert("allow"@[3] == 'o');
    assert("allow"@[4] == 'w');
    reveal_strlit("deny");
    assert("deny"@.len() == 4);
    assert("deny"@[0] == 'd');
    assert("deny"@[1] == 'e');
    assert("deny"@[2] == 'n');
    assert("deny"@[3] == 'y');
}

/// A form's operation is the one its text names, `cluster` standing for
/// `cluster_action`.
pub proof fn law_operation_names(k: Seq<char>)
    ensures
        operation_named(k) == Some(AclOperation::All) <==> k == "all"@,
        operation_named(k) == Some(AclOperation::Read) <==> k == "read"@,
        operation_named(k) == Some(AclOperation::Write) <==> k == "write"@,
        operation_named(k) == Some(AclOperation::Create) <==> k == "create"@,
        operation_named(k) == Some(AclOperation::Delete) <==> k == "delete"@,
        operation_named(k) == Some(AclOperation::Alter) <==> k == "alter"@,
        operation_named(k) == Some(AclOperation::Describe) <==> k == "describe"@,
        operation_named(k) == Some(AclOperation::ClusterAction) <==> (k == "cluster_action"@ || k == "cluster"@),
        operation_named(k) == Some(AclOperation::DescribeConfigs) <==> k == "describe_configs"@,
        operation_named(k) == Some(AclOperation::AlterConfigs) <==> k == "alter_configs"@,
        operation_named(k) == Some(AclOperation::IdempotentWrite) <==> k == "idempotent_write"@,
        operation_named(k) != Some(AclOperation::Any),
{
    reveal_strlit("all");
    assert("all"@.len() == 3);
    assert("all"@[0] == 'a');
    assert("all"@[1] == 'l');
    assert("all"@[2] == 'l');
    reveal_strlit("read");
    assert("read"@.len() == 4);
    assert("read"@[0] == 'r');
    assert("read"@[1] == 'e');
    assert("read"@[2] == 'a');
    assert("read"@[3] == 'd');
    reveal_strlit("write");
    assert("write"@.len() == 5);
    assert("write"@[0] == 'w');
    assert("write"@[1] == 'r');
    assert("write"@[2] == 'i');
    assert("write"@[3] == 't');
    assert("write"@[4] == 'e');
    reveal_strlit("create");
    assert("create"@.len() == 6);
    assert("create"@[0] == 'c');
    assert("create"@[1] == 'r');
    assert("create"@[2] == 'e');
    assert("create"@[3] == 'a');
    assert("create"@[4] == 't');
    assert("create"@[5] == 'e');
    reveal_strlit("delete");
    assert("delete"@.len() == 6);
    assert("delete"@[0] == 'd');
    assert("delete"@[1] == 'e');
    assert("delete"@[2] == 'l');
    assert("delete"@[3] == 'e');
    assert("delete"@[4] == 't');
    assert("delete"@[5] == 'e');
    reveal_strlit("alter");
    assert("alter"@.len() == 5);
    assert("alter"@[0] == 'a');
    assert("alter"@[1] == 'l');
    assert("alter"@[2] == 't');
    assert("alter"@[3] == 'e');
    assert("alter"@[4] == 'r');
    reveal_strlit("describe");
    assert("describe"@.len() == 8);
    assert("describe"@[0] == 'd');
    assert("describe"@[1] == 'e');
    assert("describe"@[2] == 's');
    assert("describe"@[3] == 'c');
    assert("describe"@[4] == 'r');
    assert("describe"@[5] == 'i');
    assert("describe"@[6] == 'b');
    assert("describe"@[7] == 'e');
    reveal_strlit("cluster_action");
    assert("cluster_action"@.len() == 14);
    assert("cluster_action"@[0] == 'c');
    assert("cluster_action"@[1] == 'l');
    assert("cluster_action"@[2] == 'u');
    assert("cluster_action"@[3] == 's');
    assert("cluster_action"@[4] == 't');
    assert("cluster_action"@[5] == 'e');
    assert("cluster_action"@[6] == 'r');
    assert("cluster_action"@[7] == '_');
    assert("cluster_action"@[8] == 'a');
    assert("cluster_action"@[9] == 'c');
    assert("cluster_action"@[10] == 't');
    assert("cluster_action"@[11] == 'i');
    assert("cluster_action"@[12] == 'o');
    assert("cluster_action"@[13] == 'n');
    reveal_strlit("cluster");
    assert("cluster"@.len() == 7);
    assert("cluster"@[0] == 'c');
    assert("cluster"@[1] == 'l');
    assert("cluster"@[2] == 'u');
    assert("cluster"@[3] == 's');
    assert("cluster"@[4] == 't');
    assert("cluster"@[5] == 'e');
    assert("cluster"@[6] == 'r');
    reveal_strlit("describe_configs");
    assert("describe_configs"@.len() == 16);
    assert("describe_configs"@[0] == 'd');
    assert("describe_configs"@[1] == 'e');
    assert("describe_configs"@[2] == 's');
    assert("describe_configs"@[3] == 'c');
    assert("describe_configs"@[4] == 'r');
    assert("describe_configs"@[5] == 'i');
    assert("describe_configs"@[6] == 'b');
    assert("describe_configs"@[7] == 'e');
    assert("describe_configs"@[8] == '_');
    assert("describe_configs"@[9] == 'c');
    assert("describe_configs"@[10] == 'o');
    assert("describe_configs"@[11] == 'n');
    assert("describe_configs"@[12] == 'f');
    assert("describe_configs"@[13] == 'i');
    assert("describe_configs"@[14] == 'g');
    assert("describe_configs"@[15] == 's');
    reveal_strlit("alter_configs");
    assert("alter_configs"@.len() == 13);
    assert("alter_configs"@[0] == 'a');
    assert("alter_configs"@[1] == 'l');
    assert("alter_configs"@[2] == 't');
    assert("alter_configs"@[3] == 'e');
    assert("alter_configs"@[4] == 'r');
    assert("alter_configs"@[5] == '_');
    assert("alter_configs"@[6] == 'c');
    assert("alter_configs"@[7] == 'o');
    assert("alter_configs"@[8] == 'n');
    assert("alter_configs"@[9] == 'f');
    assert("alter_configs"@[10] == 'i');
    assert("alter_configs"@[11] == 'g');
    assert("alter_configs"@[12] == 's');
    reveal_strlit("idempotent_write");
    assert("idempotent_write"@.len() == 16);
    assert("idempotent_write"@[0] == 'i');
    assert("idempotent_write"@[1] == 'd');
    assert("idempotent_write"@[2] == 'e');
    assert("idempotent_write"@[3] == 'm');
    assert("idempotent_write"@[4] == 'p');
    assert("idempotent_write"@[5] == 'o');
    assert("idempotent_write"@[6] == 't');
    assert("idempotent_write"@[7] == 'e');
    assert("idempotent_write"@[8] == 'n');
    assert("idempotent_write"@[9] == 't');
    assert("idempotent_write"@[10] == '_');
    assert("idempotent_write"@[11] == 'w');
    assert("idempotent_write"@[12] == 'r');
    assert("idempotent_write"@[13] == 'i');
    assert("idempotent_write"@[14] == 't');
    assert("idempotent_write"@[15] == 'e');
}

/// A form's resource type and pattern type are the ones their texts name.
pub proof fn law_resource_and_pattern_names(k: Seq<char>)
    ensures
        resource_type_named(k) == Some(AclResourceType::Topic) <==> k == "topic"@,
        resource_type_named(k) == Some(AclResourceType::Group) <==> k == "group"@,
        resource_type_named(k) == Some(AclResourceType::Broker) <==> (k == "broker"@ || k == "cluster"@),
        resource_type_named(k) == Some(AclResourceType::TransactionalId)
            <==> (k == "transactional_id"@ || k == "transactional-id"@ || k == "txn"@),
        pattern_type_named(k) == Some(AclPatternType::Literal) <==> k == "literal"@,
        pattern_type_named(k) == Some(AclPatternType::Prefixed) <==> (k == "prefixed"@ || k == "prefix"@),
        pattern_type_named(k) == Some(AclPatternType::Match) <==> k == "match"@,
{
    reveal_strlit("topic");
    assert("topic"@.len() == 5);
    assert("topic"@[0] == 't');
    assert("topic"@[1] == 'o');
    assert("topic"@[2] == 'p');
    assert("topic"@[3] == 'i');
    assert("topic"@[4] == 'c');
    reveal_strlit("group");
    assert("group"@.len() == 5);
    assert("group"@[0] == 'g');
    assert("group"@[1] == 'r');
    assert("group"@[2] == 'o');
    assert("group"@[3] == 'u');
    assert("group"@[4] == 'p');
    reveal_strlit("broker");
    assert("broker"@.len() == 6);
    assert("broker"@[0] == 'b');
    assert("broker"@[1] == 'r');
    assert("broker"@[2] == 'o');
    assert("broker"@[3] == 'k');
    assert("broker"@[4] == 'e');
    assert("broker"@[5] == 'r');
    reveal_strlit("cluster");
    assert("cluster"@.len() == 7);
    assert("cluster"@[0] == 'c');
    assert("cluster"@[1] == 'l');
    assert("cluster"@[2] == 'u');
    assert("cluster"@[3] == 's');
    assert("cluster"@[4] == 't');
    assert("cluster"@[5] == 'e');
    assert("cluster"@[6] == 'r');
    reveal_strlit("transactional_id");
    assert("transactional_id"@.len() == 16);
    assert("transactional_id"@[0] == 't');
    assert("transactional_id"@[1] == 'r');
    assert("transactional_id"@[2] == 'a');
    assert("transactional_id"@[3] == 'n');
    assert("transactional_id"@[4] == 's');
    assert("transactional_id"@[5] == 'a');
    assert("transactional_id"@[6] == 'c');
    assert("transactional_id"@[7] == 't');
    assert("transactional_id"@[8] == 'i');
    assert("transactional_id"@[9] == 'o');
    assert("transactional_id"@[10] == 'n');
    assert("transactional_id"@[11] == 'a');
    assert("transactional_id"@[12] == 'l');
    assert("transactional_id"@[13] == '_');
    assert("transactional_id"@[14] == 'i');
    assert("transactional_id"@[15] == 'd');
    reveal_strlit("transactional-id");
    assert("transactional-id"@.len() == 16);
    assert("transactional-id"@[0] == 't');
    assert("transactional-id"@[1] == 'r');
    assert("transactional-id"@[2] == 'a');
    assert("transactional-id"@[3] == 'n');
    assert("transactional-id"@[4] == 's');
    assert("transactional-id"@[5] == 'a');
    assert("transactional-id"@[6] == 'c');
    assert("transactional-id"@[7] == 't');
    assert("transactional-id"@[8] == 'i');
    assert("transactional-id"@[9] == 'o');
    assert("transactional-id"@[10] == 'n');
    assert("transactional-id"@[11] == 'a');
    assert("transactional-id"@[12] == 'l');
    assert("transactional-id"@[13] == '-');
    assert("transactional-id"@[14] == 'i');
    assert("transactional-id"@[15] == 'd');
    reveal_strlit("txn");
    assert("txn"@.len() == 3);
    assert("txn"@[0] == 't');
    assert("txn"@[1] == 'x');
    assert("txn"@[2] == 'n');
    reveal_strlit("literal");
    assert("literal"@.len() == 7);
    assert("literal"@[0] == 'l');
    assert("literal"@[1] == 'i');
    assert("literal"@[2] == 't');
    assert("literal"@[3] == 'e');
    assert("literal"@[4] == 'r');
    assert("literal"@[5] == 'a');
    assert("literal"@[6] == 'l');
    reveal_strlit("prefixed");
    assert("prefixed"@.len() == 8);
    assert("prefixed"@[0] == 'p');
    assert("prefixed"@[1] == 'r');
    assert("prefixed"@[2] == 'e');
    assert("prefixed"@[3] == 'f');
    assert("prefixed"@[4] == 'i');
    assert("prefixed"@[5] == 'x');
    assert("prefixed"@[6] == 'e');
    assert("prefixed"@[7] == 'd');
    reveal_strlit("prefix");
    assert("prefix"@.len() == 6);
    assert("prefix"@[0] == 'p');
    assert("prefix"@[1] == 'r');
    assert("prefix"@[2] == 'e');
    assert("prefix"@[3] == 'f');
    assert("prefix"@[4] == 'i');
    assert("prefix"@[5] == 'x');
    reveal_strlit("match");
    assert("match"@.len() == 5);
    assert("match"@[0] == 'm');
    assert("match"@[1] == 'a');
    assert("match"@[2] == 't');
    assert("match"@[3] == 'c');
    assert("match"@[4] == 'h');
}

/// `any` or `*`: the filter wildcard.
pub open spec fn is_wildcard(key: Seq<char>) -> bool {
    key == "any"@ || key == "*"@
}

/// The resource name a binding gets: a `cluster` binding with no name is
/// on `kafka-cluster`.
pub open spec fn binding_resource_name(key: Seq<char>, name: Seq<char>) -> Seq<char> {
    if key == "cluster"@ && name.len() == 0 {
        "kafka-cluster"@
    } else {
        name
    }
}

pub open spec fn resource_type_error() -> Seq<char> {
    "resource_type: expected topic|group|broker|cluster|transactional_id"@
}

pub open spec fn pattern_type_error() -> Seq<char> {
    "pattern_type: literal|prefixed|match"@
}

pub open spec fn operation_error() -> Seq<char> {
    "operation: all|read|write|create|delete|alter|describe|cluster_action|describe_configs|alter_configs|idempotent_write"@
}

pub open spec fn permission_error() -> Seq<char> {
    "permission: allow|deny"@
}

/// Resource type and name of a binding.
pub fn parse_resource(ty: &str, name: &str) -> (r: Result<(AclResourceType, String), String>)
    ensures
        match resource_type_named(acl_key(ty@)) {
            Some(t) => r matches Ok((t2, n)) && t2 == t && n@ == binding_resource_name(acl_key(ty@), name@),
            None => r matches Err(e) && e@ == resource_type_error(),
        },
{
    proof {
        reveal_strlit("topic");
        reveal_strlit("group");
        reveal_strlit("broker");
        reveal_strlit("cluster");
        reveal_strlit("transactional_id");
        reveal_strlit("transactional-id");
        reveal_strlit("txn");
    }
    let tt = trim_str(ty);
    let t = ascii_lowercase(tt.as_str());
    let k = t.as_str();
    let rname = if str_eq(k, "cluster") && name.unicode_len() == 0 {
        String::from_str("kafka-cluster")
    } else {
        String::from_str(name)
    };
    if str_eq(k, "topic") {
        Ok((AclResourceType::Topic, rname))
    } else if str_eq(k, "group") {
        Ok((AclResourceType::Group, rname))
    } else if str_eq(k, "broker") || str_eq(k, "cluster") {
        Ok((AclResourceType::Broker, rname))
    } else if str_eq(k, "transactional_id") || str_eq(k, "transactional-id") || str_eq(k, "txn") {
        Ok((AclResourceType::TransactionalId, rname))
    } else {
        Err(String::from_str("resource_type: expected topic|group|broker|cluster|transactional_id"))
    }
}

/// Resource type and name of a filter: `any` or `*` matches every type.
pub fn parse_resource_filter(ty: &str, name: &str) -> (r: Result<(AclResourceType, String), String>)
    ensures
        is_wildcard(acl_key(ty@)) ==> (r matches Ok((t2, n)) && t2 == AclResourceType::Any && n@ == name@),
        !is_wildcard(acl_key(ty@)) ==> match resource_type_named(acl_key(ty@)) {
            Some(t) => r matches Ok((t2, n)) && t2 == t && n@ == binding_resource_name(acl_key(ty@), name@),
            None => r matches Err(e) && e@ == resource_type_error(),
        },
{
    let tt = trim_str(ty);
    let t = ascii_lowercase(tt.as_str());
    if str_eq(t.as_str(), "any") || str_eq(t.as_str(), "*") {
        return Ok((AclResourceType::Any, String::from_str(name)));
    }
    parse_resource(ty, name)
}

/// Pattern type of a binding.
pub fn parse_pattern_type(s: &str) -> (r: Result<AclPatternType, String>)
    ensures
        match pattern_type_named(acl_key(s@)) {
            Some(p) => r == Ok::<AclPatternType, String>(p),
            None => r matches Err(e) && e@ == pattern_type_error(),
        },
{
    let tt = trim_str(s);
    let t = ascii_lowercase(tt.as_str());
    let k = t.as_str();
    if str_eq(k, "literal") {
        Ok(AclPatternType::Literal)
    } else if str_eq(k, "prefixed") || str_eq(k, "prefix") {
        Ok(AclPatternType::Prefixed)
    } else if str_eq(k, "match") {
        Ok(AclPatternType::Match)
    } else {
        Err(String::from_str("pattern_type: literal|prefixed|match"))
    }
}

/// Pattern type of a filter: `any` or `*` matches every pattern type.
pub fn parse_pattern_type_filter(s: &str) -> (r: Result<AclPatternType, String>)
    ensures
        is_wildcard(acl_key(s@)) ==> r == Ok::<AclPatternType, String>(AclPatternType::Any),
        !is_wildcard(acl_key(s@)) ==> match pattern_type_named(acl_key(s@)) {
            Some(p) => r == Ok::<AclPatternType, String>(p),
            None => r matches Err(e) && e@ == pattern_type_error(),
        },
{
    let tt = trim_str(s);
    let t = ascii_lowercase(tt.as_str());
    if str_eq(t.as_str(), "any") || str_eq(t.as_str(), "*") {
        return Ok(AclPatternType::Any);
    }
    parse_pattern_type(s)
}

/// Operation of a binding.
pub fn parse_operation(s: &str) -> (r: Result<AclOperation, String>)
    ensures
        match operation_named(acl_key(s@)) {
            Some(o) => r == Ok::<AclOperation, String>(o),
            None => r matches Err(e) && e@ == operation_error(),
        },
{
    let tt = trim_str(s);
    let t = ascii_lowercase(tt.as_str());
    let k = t.as_str();
    if str_eq(k, "all") {
        Ok(AclOperation::All)
    } else if str_eq(k, "read") {
        Ok(AclOperation::Read)
    } else if str_eq(k, "write") {
        Ok(AclOperation::Write)
    } else if str_eq(k, "create") {
        Ok(AclOperation::Create)
    } else if str_eq(k, "delete") {
        Ok(AclOperation::Delete)
    } else if str_eq(k, "alter") {
        Ok(AclOperation::Alter)
    } else if str_eq(k, "describe") {
        Ok(AclOperation::Describe)
    } else if str_eq(k, "cluster_action") || str_eq(k, "cluster") {
        Ok(AclOperation::ClusterAction)
    } else if str_eq(k, "describe_configs") {
        Ok(AclOperation::DescribeConfigs)
    } else if str_eq(k, "alter_configs") {
        Ok(AclOperation::AlterConfigs)
    } else if str_eq(k, "idempotent_write") {
        Ok(AclOperation::IdempotentWrite)
    } else {
        Err(String::from_str(
            "operation: all|read|write|create|delete|alter|describe|cluster_action|describe_configs|alter_configs|idempotent_write",
        ))
    }
}

/// Operation of a filter: `any` or `*` matches every operation.
pub fn parse_operation_filter(s: &str) -> (r: Result<AclOperation, String>)
    ensures
        is_wildcard(acl_key(s@)) ==> r == Ok::<AclOperation, String>(AclOperation::Any),
        !is_wildcard(acl_key(s@)) ==> match operation_named(acl_key(s@)) {
            Some(o) => r == Ok::<AclOperation, String>(o),
            None => r matches Err(e) && e@ == operation_error(),
        },
{
    let tt = trim_str(s);
    let t = ascii_lowercase(tt.as_str());
    if str_eq(t.as_str(), "any") || str_eq(t.as_str(), "*") {
        return Ok(AclOperation::Any);
    }
    parse_operation(s)
}

/// Permission of a binding.
pub fn parse_permission(s: &str) -> (r: Result<AclPermission, String>)
    ensures
        acl_key(s@) == "allow"@ ==> r == Ok::<AclPermission, String>(AclPermission::Allow),
        acl_key(s@) == "deny"@ ==> r == Ok::<AclPermission, String>(AclPermission::Deny),
        match permission_named(acl_key(s@)) {
            Some(p) => r == Ok::<AclPermission, String>(p),
            None => r matches Err(e) && e@ == permission_error(),
        },
{
    proof {
        law_permission_names(acl_key(s@));
    }
    let tt = trim_str(s);
    let t = ascii_lowercase(tt.as_str());
    let k = t.as_str();
    if str_eq(k, "allow") {
        Ok(AclPermission::Allow)
    } else if str_eq(k, "deny") {
        Ok(AclPermission::Deny)
    } else {
        Err(String::from_str("permission: allow|deny"))
    }
}

/// Permission of a filter: `any` or `*` matches both.
pub fn parse_permission_filter(s: &str) -> (r: Result<AclPermission, String>)
    ensures
        acl_key(s@) == "allow"@ ==> r == Ok::<AclPermission, String>(AclPermission::Allow),
        acl_key(s@) == "deny"@ ==> r == Ok::<AclPermission, String>(AclPermission::Deny),
        is_wildcard(acl_key(s@)) ==> r == Ok::<AclPermission, String>(AclPermission::Any),
        !is_wildcard(acl_key(s@)) ==> match permission_named(acl_key(s@)) {
            Some(p) => r == Ok::<AclPermission, String>(p),
            None => r matches Err(e) && e@ == permission_error(),
        },
{
    proof {
        law_permission_names(acl_key(s@));
        reveal_strlit("any");
        reveal_strlit("*");
        reveal_strlit("allow");
        reveal_strlit("deny");
        assert("any"@.len() == 3 && "*"@.len() == 1 && "allow"@.len() == 5 && "deny"@.len() == 4);
    }
    let tt = trim_str(s);
    let t = ascii_lowercase(tt.as_str());
    if str_eq(t.as_str(), "any") || str_eq(t.as_str(), "*") {
        return Ok(AclPermission::Any);
    }
    parse_permission(s)
}

// ---------- C strings ----------

/// Bytes of a character in UTF-8.
pub open spec fn utf8_len(c: char) -> nat {
    let u = c as u32;
    if u < 0x80 {
        1
    } else if u < 0x800 {
        2
    } else if u < 0x10000 {
        3
    } else {
        4
    }
}

/// Bytes of a string in UTF-8.
pub open spec fn utf8_size(s: Seq<char>) -> nat
    decreases s.len(),
{
    if s.len() == 0 {
        0
    } else {
        utf8_size(s.drop_last()) + utf8_len(s.last())
    }
}

proof fn lemma_utf8_size_front(s: Seq<char>)
    requires
        s.len() > 0,
    ensures
        utf8_size(s) == utf8_len(s[0]) + utf8_size(s.drop_first()),
    decreases s.len(),
{
    if s.len() > 1 {
        lemma_utf8_size_front(s.drop_last());
        assert(s.drop_last().drop_first() =~= s.drop_first().drop_last());
        assert(s.drop_first().last() == s.last());
    } else {
        assert(s.drop_first() =~= Seq::<char>::empty());
        assert(s.drop_last() =~= Seq::<char>::empty());
    }
}

/// The byte size counted for a string is the length of its UTF-8 encoding.
pub proof fn law_utf8_size_is_encoded_length(s: Seq<char>)
    ensures
        utf8_size(s) == vstd::utf8::encode_utf8(s).len(),
    decreases s.len(),
{
    if s.len() > 0 {
        lemma_utf8_size_front(s);
        law_utf8_size_is_encoded_length(s.drop_first());
        vstd::utf8::char_is_scalar(s[0]);
        assert(vstd::utf8::encode_scalar(s[0] as u32).len() == utf8_len(s[0]));
    }
}

/// Index of the first NUL character, if any.
pub open spec fn first_nul(s: Seq<char>) -> Option<int> {
    if exists|i: int| 0 <= i < s.len() && s[i] == '\0' {
        Some(choose|i: int| 0 <= i < s.len() && s[i] == '\0' && forall|j: int| 0 <= j < i ==> s[j] != '\0')
    } else {
        None
    }
}

/// What converting a field to a C string reports: the field name and the
/// byte position of the first NUL.
pub open spec fn nul_error(field: Seq<char>, s: Seq<char>, i: int) -> Seq<char> {
    field + ": nul byte found in provided data at position: "@ + dec(utf8_size(s.subrange(0, i)))
}

/// `s` is usable as a C string (no NUL inside), or the error saying where
/// the NUL is.
pub fn check_c_string(s: &str, field: &str) -> (r: Result<(), String>)
    ensures
        match first_nul(s@) {
            None => r is Ok,
            Some(i) => r matches Err(e) && e@ == nul_error(field@, s@, i),
        },
{
    let n = s.unicode_len();
    let mut i: usize = 0;
    let mut bytes: u128 = 0;
    while i < n
        invariant
            n == s@.len(),
            i <= n,
            bytes == utf8_size(s@.subrange(0, i as int)),
            bytes <= 4 * i,
            forall|j: int| 0 <= j < i ==> s@[j] != '\0',
        decreases n - i,
    {
        let c = s.get_char(i);
        let ghost pre = s@.subrange(0, i as int);
        if c == '\0' {
            let mut e = String::from_str(field);
            e.append(": nul byte found in provided data at position: ");
            let p = fmt_u128(bytes);
            e.append(p.as_str());
            proof {
                assert(exists|k: int| 0 <= k < s@.len() && s@[k] == '\0');
                let k = choose|k: int| 0 <= k < s@.len() && s@[k] == '\0' && forall|j: int| 0 <= j < k ==> s@[j] != '\0';
                assert(k == i) by {
                    if k < i {
                    } else if k > i {
                        assert(s@[i as int] == '\0');
                    }
                }
            }
            return Err(e);
        }
        let u = c as u32;
        let w: u128 = if u < 0x80 { 1 } else if u < 0x800 { 2 } else if u < 0x10000 { 3 } else { 4 };
        assert(s@.subrange(0, i + 1 as int).drop_last() =~= pre);
        bytes = bytes + w;
        i = i + 1;
    }
    assert(!(exists|k: int| 0 <= k < s@.len() && s@[k] == '\0'));
    Ok(())
}

// ---------- bindings and filters ----------

/// The binding a form describes, or the first problem with it (checked in
/// the order resource type, pattern type, operation, permission,
/// principal, host, resource name). An empty host means every host (`*`).
pub fn new_binding(spec: &AclSpec) -> (r: Result<AclBinding, String>)
    ensures
        r matches Ok(b) ==> {
            &&& resource_type_named(acl_key(spec.resource_type@)) == Some(b.resource_type)
            &&& b.resource_name@ == binding_resource_name(acl_key(spec.resource_type@), spec.resource_name@)
            &&& pattern_type_named(acl_key(spec.pattern_type@)) == Some(b.pattern_type)
            &&& operation_named(acl_key(spec.operation@)) == Some(b.operation)
            &&& permission_named(acl_key(spec.permission@)) == Some(b.permission)
            &&& b.principal@ == spec.principal@
            &&& b.host@ == (if spec.host@.len() == 0 { "*"@ } else { spec.host@ })
            &&& first_nul(b.principal@) is None
            &&& first_nul(b.host@) is None
            &&& first_nul(b.resource_name@) is None
        },
        r is Err <==> {
            ||| resource_type_named(acl_key(spec.resource_type@)) is None
            ||| pattern_type_named(acl_key(spec.pattern_type@)) is None
            ||| operation_named(acl_key(spec.operation@)) is None
            ||| permission_named(acl_key(spec.permission@)) is None
            ||| first_nul(spec.principal@) is Some
            ||| first_nul(if spec.host@.len() == 0 { "*"@ } else { spec.host@ }) is Some
            ||| first_nul(binding_resource_name(acl_key(spec.resource_type@), spec.resource_name@)) is Some
        },
        resource_type_named(acl_key(spec.resource_type@)) is None ==> (r matches Err(e) && e@ == resource_type_error()),
{
    let (restype, name) = match parse_resource(spec.resource_type.as_str(), spec.resource_name.as_str()) {
        Ok(v) => v,
        Err(e) => return Err(e),
    };
    let pattern = match parse_pattern_type(spec.pattern_type.as_str()) {
        Ok(v) => v,
        Err(e) => return Err(e),
    };
    let operation = match parse_operation(spec.operation.as_str()) {
        Ok(v) => v,
        Err(e) => return Err(e),
    };
    let permission = match parse_permission(spec.permission.as_str()) {
        Ok(v) => v,
        Err(e) => return Err(e),
    };
    match check_c_string(spec.principal.as_str(), "principal") {
        Ok(()) => {},
        Err(e) => return Err(e),
    }
    let host = if spec.host.as_str().unicode_len() == 0 {
        String::from_str("*")
    } else {
        spec.host.clone()
    };
    match check_c_string(host.as_str(), "host") {
        Ok(()) => {},
        Err(e) => return Err(e),
    }
    match check_c_string(name.as_str(), "resource name") {
        Ok(()) => {},
        Err(e) => return Err(e),
    }
    Ok(AclBinding {
        resource_type: restype,
        resource_name: name,
        pattern_type: pattern,
        principal: spec.principal.clone(),
        host,
        operation,
        permission,
    })
}

/// A filter field: blank or `*` (after trimming) matches anything.
pub open spec fn filter_field(value: Seq<char>) -> Option<Seq<char>> {
    if trim(value).len() == 0 || trim(value) == "*"@ {
        None
    } else {
        Some(trim(value))
    }
}

/// A filter value for a form field, or the C-string problem with it.
pub fn filter_optional(value: &str, field: &str) -> (r: Result<Option<String>, String>)
    ensures
        match filter_field(value@) {
            None => r matches Ok(None),
            Some(v) => match first_nul(v) {
                None => r matches Ok(Some(s)) && s@ == v,
                Some(i) => r matches Err(e) && e@ == nul_error(field@, v, i),
            },
        },
{
    let v = trim_str(value);
    if v.as_str().unicode_len() == 0 || str_eq(v.as_str(), "*") {
        return Ok(None);
    }
    match check_c_string(v.as_str(), field) {
        Ok(()) => Ok(Some(v)),
        Err(e) => Err(e),
    }
}

/// A filter's resource name: an empty name on any resource type matches
/// every name.
pub fn filter_name(restype: AclResourceType, name: &str) -> (r: Result<Option<String>, String>)
    ensures
        (name@.len() == 0 && restype == AclResourceType::Any) ==> r matches Ok(None),
        !(name@.len() == 0 && restype == AclResourceType::Any) ==> match first_nul(name@) {
            None => r matches Ok(Some(s)) && s@ == name@,
            Some(i) => r matches Err(e) && e@ == nul_error("resource name"@, name@, i),
        },
{
    if name.unicode_len() == 0 && restype == AclResourceType::Any {
        return Ok(None);
    }
    match check_c_string(name, "resource name") {
        Ok(()) => Ok(Some(String::from_str(name))),
        Err(e) => Err(e),
    }
}

/// The filter that matches every ACL.
pub fn new_filter_any() -> (r: AclBindingFilter)
    ensures
        r.resource_type == AclResourceType::Any,
        r.resource_name is None,
        r.pattern_type == AclPatternType::Any,
        r.principal is None,
        r.host is None,
        r.operation == AclOperation::Any,
        r.permission == AclPermission::Any,
{
    AclBindingFilter {
        resource_type: AclResourceType::Any,
        resource_name: None,
        pattern_type: AclPatternType::Any,
        principal: None,
        host: None,
        operation: AclOperation::Any,
        permission: AclPermission::Any,
    }
}

/// The resource name a filter form gives: as typed under a wildcard
/// resource type, else as a binding of that type would take it.
pub open spec fn filter_resource_name(ty: Seq<char>, name: Seq<char>) -> Seq<char> {
    if is_wildcard(acl_key(ty)) { name } else { binding_resource_name(acl_key(ty), name) }
}

/// The filter a form describes (every field may be a wildcard), or the
/// first problem with it.
pub fn new_binding_filter(spec: &AclSpec) -> (r: Result<AclBindingFilter, String>)
    ensures
        r matches Ok(f) ==> {
            &&& (if is_wildcard(acl_key(spec.resource_type@)) {
                f.resource_type == AclResourceType::Any
            } else {
                resource_type_named(acl_key(spec.resource_type@)) == Some(f.resource_type)
            })
            &&& (if is_wildcard(acl_key(spec.pattern_type@)) {
                f.pattern_type == AclPatternType::Any
            } else {
                pattern_type_named(acl_key(spec.pattern_type@)) == Some(f.pattern_type)
            })
            &&& (if is_wildcard(acl_key(spec.operation@)) {
                f.operation == AclOperation::Any
            } else {
                operation_named(acl_key(spec.operation@)) == Some(f.operation)
            })
            &&& (if is_wildcard(acl_key(spec.permission@)) {
                f.permission == AclPermission::Any
            } else {
                permission_named(acl_key(spec.permission@)) == Some(f.permission)
            })
            &&& (match f.principal { Some(p) => filter_field(spec.principal@) == Some(p@), None => filter_field(spec.principal@) is None })
            &&& (match f.host { Some(h) => filter_field(spec.host@) == Some(h@), None => filter_field(spec.host@) is None })
            &&& (match f.resource_name {
                Some(n) => n@ == filter_resource_name(spec.resource_type@, spec.resource_name@),
                None => filter_resource_name(spec.resource_type@, spec.resource_name@).len() == 0
                    && f.resource_type == AclResourceType::Any,
            })
            &&& (filter_resource_name(spec.resource_type@, spec.resource_name@).len() == 0
                && f.resource_type == AclResourceType::Any ==> f.resource_name is None)
        },
        r is Err <==> {
            ||| (!is_wildcard(acl_key(spec.resource_type@)) && resource_type_named(acl_key(spec.resource_type@)) is None)
            ||| (!is_wildcard(acl_key(spec.pattern_type@)) && pattern_type_named(acl_key(spec.pattern_type@)) is None)
            ||| (!is_wildcard(acl_key(spec.operation@)) && operation_named(acl_key(spec.operation@)) is None)
            ||| (!is_wildcard(acl_key(spec.permission@)) && permission_named(acl_key(spec.permission@)) is None)
            ||| (!(filter_resource_name(spec.resource_type@, spec.resource_name@).len() == 0
                && is_wildcard(acl_key(spec.resource_type@)))
                && first_nul(filter_resource_name(spec.resource_type@, spec.resource_name@)) is Some)
            ||| (filter_field(spec.principal@) matches Some(v) && first_nul(v) is Some)
            ||| (filter_field(spec.host@) matches Some(v) && first_nul(v) is Some)
        },
        !is_wildcard(acl_key(spec.resource_type@)) && resource_type_named(acl_key(spec.resource_type@)) is None
            ==> (r matches Err(e) && e@ == resource_type_error()),
{
    let (restype, name) = match parse_resource_filter(spec.resource_type.as_str(), spec.resource_name.as_str()) {
        Ok(v) => v,
        Err(e) => return Err(e),
    };
    let pattern = match parse_pattern_type_filter(spec.pattern_type.as_str()) {
        Ok(v) => v,
        Err(e) => return Err(e),
    };
    let operation = match parse_operation_filter(spec.operation.as_str()) {
        Ok(v) => v,
        Err(e) => return Err(e),
    };
    let permission = match parse_permission_filter(spec.permission.as_str()) {
        Ok(v) => v,
        Err(e) => return Err(e),
    };
    let name_opt = match filter_name(restype, name.as_str()) {
        Ok(v) => v,
        Err(e) => return Err(e),
    };
    let principal_opt = match filter_optional(spec.principal.as_str(), "principal") {
        Ok(v) => v,
        Err(e) => return Err(e),
    };
    let host_opt = match filter_optional(spec.host.as_str(), "host") {
        Ok(v) => v,
        Err(e) => return Err(e),
    };
    Ok(AclBindingFilter {
        resource_type: restype,
        resource_name: name_opt,
        pattern_type: pattern,
        principal: principal_opt,
        host: host_opt,
        operation,
        permission,
    })
}

/// Kafka has no in-place update of an ACL: the old binding is deleted,
/// then the new one created. After the delete, this says whether to go on:
/// not when the delete matched no ACL.
pub fn replace_after_delete(deleted: usize) -> (r: Result<(), String>)
    ensures
        deleted > 0 ==> r is Ok,
        deleted == 0 ==> (r matches Err(e) && e@ == "no ACL matched the previous binding (nothing deleted)"@),
{
    if deleted == 0 {
        Err(String::from_str("no ACL matched the previous binding (nothing deleted)"))
    } else {
        Ok(())
    }
}

// ---------- listing order ----------

/// Listing order of ACLs: by resource type, resource name, principal,
/// operation.
pub open spec fn acl_before(a: AclEntry, b: AclEntry) -> bool {
    if a.resource_type@ != b.resource_type@ {
        lex_lt(a.resource_type@, b.resource_type@)
    } else if a.resource_name@ != b.resource_name@ {
        lex_lt(a.resource_name@, b.resource_name@)
    } else if a.principal@ != b.principal@ {
        lex_lt(a.principal@, b.principal@)
    } else {
        lex_lt(a.operation@, b.operation@)
    }
}

proof fn lemma_acl_before_irrefl(a: AclEntry)
    ensures
        !acl_before(a, a),
{
    lemma_lex_irrefl(a.operation@);
}

proof fn lemma_acl_before_trans(a: AclEntry, b: AclEntry, c: AclEntry)
    requires
        acl_before(a, b),
        acl_before(b, c),
    ensures
        acl_before(a, c),
{
    if a.resource_type@ != b.resource_type@ {
        if b.resource_type@ != c.resource_type@ {
            lemma_lex_trans(a.resource_type@, b.resource_type@, c.resource_type@);
            if a.resource_type@ == c.resource_type@ {
                lemma_lex_asym(a.resource_type@, b.resource_type@);
            }
        }
    } else if b.resource_type@ != c.resource_type@ {
    } else if a.resource_name@ != b.resource_name@ {
        if b.resource_name@ != c.resource_name@ {
            lemma_lex_trans(a.resource_name@, b.resource_name@, c.resource_name@);
            if a.resource_name@ == c.resource_name@ {
                lemma_lex_asym(a.resource_name@, b.resource_name@);
            }
        }
    } else if b.resource_name@ != c.resource_name@ {
    } else if a.principal@ != b.principal@ {
        if b.principal@ != c.principal@ {
            lemma_lex_trans(a.principal@, b.principal@, c.principal@);
            if a.principal@ == c.principal@ {
                lemma_lex_asym(a.principal@, b.principal@);
            }
        }
    } else if b.principal@ != c.principal@ {
    } else {
        lemma_lex_trans(a.operation@, b.operation@, c.operation@);
    }
}

fn acl_before_exec(a: &AclEntry, b: &AclEntry) -> (r: bool)
    ensures
        r == acl_before(*a, *b),
{
    if !str_eq(a.resource_type.as_str(), b.resource_type.as_str()) {
        str_lt(a.resource_type.as_str(), b.resource_type.as_str())
    } else if !str_eq(a.resource_name.as_str(), b.resource_name.as_str()) {
        str_lt(a.resource_name.as_str(), b.resource_name.as_str())
    } else if !str_eq(a.principal.as_str(), b.principal.as_str()) {
        str_lt(a.principal.as_str(), b.principal.as_str())
    } else {
        str_lt(a.operation.as_str(), b.operation.as_str())
    }
}

/// No entry is listed after one that should follow it.
pub open spec fn acls_sorted(s: Seq<AclEntry>) -> bool {
    forall|i: int, j: int| 0 <= i < j < s.len() ==> !acl_before(#[trigger] s[j], #[trigger] s[i])
}

/// Sorts ACLs for listing, keeping the order of entries that compare equal.
pub fn sort_acl_entries(v: Vec<AclEntry>) -> (r: Vec<AclEntry>)
    ensures
        r@.to_multiset() == v@.to_multiset(),
        acls_sorted(r@),
{
    let mut rev: Vec<AclEntry> = Vec::new();
    let mut src = v;
    proof {
        broadcast use vstd::seq_lib::group_to_multiset_ensures;
        broadcast use vstd::multiset::group_multiset_axioms;
    }
    while src.len() > 0
        invariant
            rev@.to_multiset().add(src@.to_multiset()) == v@.to_multiset(),
        decreases src.len(),
    {
        let ghost before = src@;
        let x = src.pop().unwrap();
        rev.push(x);
        proof {
            broadcast use vstd::seq_lib::group_to_multiset_ensures;
            broadcast use vstd::multiset::group_multiset_axioms;
            assert(before =~= src@.push(x));
            assert(rev@.to_multiset().add(src@.to_multiset()) =~= v@.to_multiset());
        }
    }
    let mut out: Vec<AclEntry> = Vec::new();
    proof {
        broadcast use vstd::seq_lib::group_to_multiset_ensures;
        broadcast use vstd::multiset::group_multiset_axioms;
        assert(src@ =~= Seq::<AclEntry>::empty());
        assert(out@.to_multiset().add(rev@.to_multiset()) =~= v@.to_multiset());
    }
    while rev.len() > 0
        invariant
            acls_sorted(out@),
            out@.to_multiset().add(rev@.to_multiset()) == v@.to_multiset(),
        decreases rev.len(),
    {
        let ghost before = rev@;
        let x = rev.pop().unwrap();
        let mut p: usize = 0;
        while p < out.len() && !acl_before_exec(&x, &out[p])
            invariant
                p <= out@.len(),
                forall|k: int| 0 <= k < p ==> !acl_before(x, #[trigger] out@[k]),
            decreases out.len() - p,
        {
            p = p + 1;
        }
        let ghost o = out@;
        proof {
            let n = o.insert(p as int, x);
            assert forall|i: int, j: int| 0 <= i < j < n.len() implies !acl_before(#[trigger] n[j], #[trigger] n[i]) by {
                if i < p && j < p {
                } else if i < p && j == p {
                } else if i < p && j > p {
                    assert(n[j] == o[j - 1]);
                } else if i == p {
                    assert(n[j] == o[j - 1]);
                    if acl_before(o[j - 1], x) {
                        if j - 1 == p {
                            lemma_acl_before_trans(x, o[p as int], x);
                            lemma_acl_before_irrefl(x);
                        } else {
                            lemma_acl_before_trans(o[j - 1], x, o[p as int]);
                        }
                    }
                } else {
                    assert(n[i] == o[i - 1]);
                    assert(n[j] == o[j - 1]);
                }
            }
        }
        out.insert(p, x);
        proof {
            broadcast use vstd::seq_lib::group_to_multiset_ensures;
            broadcast use vstd::multiset::group_multiset_axioms;
            assert(before =~= rev@.push(x));
            assert(out@.to_multiset().add(rev@.to_multiset()) =~= v@.to_multiset());
        }
    }
    proof {
        broadcast use vstd::seq_lib::group_to_multiset_ensures;
        broadcast use vstd::multiset::group_multiset_axioms;
        assert(rev@ =~= Seq::<AclEntry>::empty());
        assert(out@.to_multiset() =~= v@.to_multiset());
    }
    out
}

/// One-line description of an ACL for confirmations.
/// One line naming an ACL in a confirmation.
pub open spec fn summary_of(a: AclEntry) -> Seq<char> {
    a.resource_type@ + " "@ + a.resource_name@ + " · "@ + a.principal@ + " · "@ + a.host@ + " · "@
        + a.operation@ + " · "@ + a.permission@
}

pub fn acl_entry_summary(a: &AclEntry) -> (r: String)
    ensures
        r@ == summary_of(*a),
{
    let mut s = a.resource_type.clone();
    s.append(" ");
    s.append(a.resource_name.as_str());
    s.append(" · ");
    s.append(a.principal.as_str());
    s.append(" · ");
    s.append(a.host.as_str());
    s.append(" · ");
    s.append(a.operation.as_str());
    s.append(" · ");
    s.append(a.permission.as_str());
    s
}

} // verus!
