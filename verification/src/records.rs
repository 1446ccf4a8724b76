//! Passive data records of the surrounding service: the rows of the
//! administrative identity store, the catalogue tables, the request
//! guards' claim payloads, and the synchronous API response. The core
//! never interprets them; they are carried between the HTTP surface
//! and the relational store by the binary around this crate.
#![allow(non_camel_case_types)]
use vstd::prelude::*;

verus! {

/// Request-level fairing that resolves the caller's claims once per
/// request; the binary implements the framework hook on it.
#[derive(Debug)]
pub struct AuthFairing;

/// The decoded claims of a caller's bearer token.
#[derive(Debug)]
pub struct Claims {
    /// Subject of the token.
    pub sub: String,
    /// Expiry, seconds since the epoch.
    pub exp: usize,
    /// The caller's user identifier.
    pub user_id: String,
    /// Distinguishes access from refresh tokens.
    pub token_type: String,
    /// Optional given name.
    pub first_name: Option<String>,
    /// Optional family name.
    pub last_name: Option<String>,
    /// Optional middle name.
    pub middle_name: Option<String>,
    /// The client the token was issued to.
    pub client_id: String,
}

/// Why a request carried no usable claims.
#[derive(Debug)]
pub enum ClaimsError {
    /// No authorization header was present.
    Missing,
    /// The token failed validation.
    Invalid,
}

/// The groups the caller belongs to.
#[derive(Debug)]
pub struct GroupMemberships(pub Vec<String>);

impl GroupMemberships {
    /// Wraps a resolved list of group names.
    pub fn new(groups: Vec<String>) -> (r: Self)
        ensures
            r.0 == groups,
    {
        GroupMemberships(groups)
    }
}

/// The groups the caller owns.
#[derive(Debug)]
pub struct GroupOwnerships(pub Vec<String>);

impl GroupOwnerships {
    /// Wraps a resolved list of group names.
    pub fn new(groups: Vec<String>) -> (r: Self)
        ensures
            r.0 == groups,
    {
        GroupOwnerships(groups)
    }
}

/// A permission row of the identity store.
#[derive(Debug)]
pub struct Permission {
    /// Human-readable name.
    pub name: String,
    /// The content type the permission applies to.
    pub content_type_id: i64,
    /// Machine-readable code name.
    pub codename: String,
    /// Row identifier.
    pub id: i64,
}

/// A group row of the identity store.
#[derive(Debug)]
pub struct Group {
    /// The group's name.
    pub name: String,
    /// Row identifier.
    pub id: i64,
}

/// Membership of a permission in a group.
#[derive(Debug)]
pub struct Group_Permission {
    /// Row identifier.
    pub id: i64,
    /// The permission granted.
    pub permission_id: i64,
    /// The group it is granted to.
    pub group_id: i64,
}

/// A content-type row of the identity store.
#[derive(Debug)]
pub struct ContentType {
    /// Application label.
    pub app_label: String,
    /// Model name.
    pub model: String,
    /// Row identifier.
    pub id: i64,
}

/// A sample row of the identity store's test table.
#[derive(Debug)]
pub struct Test {
    /// Optional enumerated choice.
    pub choice_field: Option<String>,
    /// A boolean column.
    pub bool_field: bool,
    /// An optional character column.
    pub char_field: Option<String>,
    /// A non-negative integer column.
    pub positive_integer_field: i32,
    /// A further boolean column.
    pub field3: bool,
    /// Row identifier.
    pub id: i64,
}

/// A sample row of the many-to-many test table.
#[derive(Debug)]
pub struct Many2ManyTest {
    /// The row's name.
    pub name: String,
    /// Row identifier.
    pub id: i64,
}

/// Link row between the two test tables.
#[derive(Debug)]
pub struct Many2ManyTest_Test {
    /// Row identifier.
    pub id: i64,
    /// The linked test row.
    pub test_id: i64,
    /// The linked many-to-many row.
    pub many2manytest_id: i64,
}

/// Link row between the many-to-many test table and the cross-app
/// model.
#[derive(Debug)]
pub struct Many2ManyTest_TestAppModel1 {
    /// Row identifier.
    pub id: i64,
    /// The linked cross-app row.
    pub testappmodel1_id: i64,
    /// The linked many-to-many row.
    pub many2manytest_id: i64,
}

/// A tenant's database namespace and the environment keys that reach
/// it.
#[derive(Debug)]
pub struct DBNamespace {
    /// Owning tenant.
    pub tenant_id: i64,
    /// Namespace name.
    pub name: String,
    /// Environment variable naming the host.
    pub host_env_var_name: String,
    /// Environment variable naming the port.
    pub port_env_var_name: String,
    /// Environment variable naming the user.
    pub username_env_var_name: String,
    /// Environment variable naming the password.
    pub password_env_var_name: String,
    /// Row identifier.
    pub id: i64,
}

/// A language pack of the template catalogue.
#[derive(Debug)]
pub struct LanguagePack {
    /// The language.
    pub lang: String,
    /// Row identifier.
    pub id: i64,
}

/// A template of the catalogue.
#[derive(Debug)]
pub struct Template {
    /// Kind of template.
    pub kind: String,
    /// The template's name.
    pub name: String,
    /// Source location.
    pub src: String,
    /// Owning language pack.
    pub pack_id: i64,
    /// Version string.
    pub version: String,
    /// Row identifier.
    pub id: i64,
}

/// A component of a template.
#[derive(Debug)]
pub struct Component {
    /// Owning template.
    pub template_id: i64,
    /// Source location.
    pub src: String,
    /// The component's name.
    pub name: String,
    /// Human-readable description.
    pub description: String,
    /// Row identifier.
    pub id: i64,
}

/// Deployment metadata of a tenant's service.
#[derive(Debug)]
pub struct ServiceMetadata {
    /// Owning tenant.
    pub tenant_id: i64,
    /// Production URL.
    pub prod_url: String,
    /// Production schema URL.
    pub prod_schema_url: String,
    /// Staging URL.
    pub stage_url: String,
    /// Staging schema URL.
    pub stage_schema_url: String,
    /// Environment key of the service's token.
    pub auth_token_env_key: String,
    /// The service's name.
    pub name: String,
    /// Row identifier.
    pub id: i64,
}

/// Version constraints published for a package.
#[derive(Debug)]
pub struct PackageVersion {
    /// Owning tenant, if tenant-scoped.
    pub tenant_id: Option<i64>,
    /// The package's identifier.
    pub identifier: String,
    /// Lowest accepted version.
    pub minimum_version: String,
    /// Newest published version.
    pub latest_version: String,
    /// Whether older versions are still accepted.
    pub allow_older_version: bool,
    /// Row identifier.
    pub id: i64,
}

/// A sample row of the cross-app test model.
#[derive(Debug)]
pub struct TestAppModel1 {
    /// A character column.
    pub char_field: String,
    /// Row identifier.
    pub id: i64,
}

/// Synchronous response to a creation request: the row was inserted
/// and the message published; provisioning itself is asynchronous.
#[derive(Debug)]
pub struct CreateClusterResponse {
    /// Human-readable confirmation.
    pub message: String,
    /// The inserted row's identifier.
    pub id: i64,
    /// The cluster's external identifier.
    pub identifier: String,
}

/// A schema catalogue template row.
#[derive(Debug)]
pub struct Templates {
    /// Short display name.
    pub short_name: String,
    /// Human-readable description.
    pub description: String,
    /// Repository link.
    pub repo_link: String,
    /// External identifier.
    pub identifier: String,
    /// Row identifier.
    pub id: i64,
}

/// A registered service row.
#[derive(Debug)]
pub struct Service {
    /// External identifier.
    pub identifier: String,
    /// Owning group, if any.
    pub group_id: Option<String>,
    /// Row identifier.
    pub id: i64,
}

/// An environment of a registered service.
#[derive(Debug)]
pub struct Service_Envs {
    /// Owning service.
    pub parent_id: i64,
    /// Environment specification.
    pub spec: String,
    /// Environment name.
    pub env: String,
    /// Base URL of the environment.
    pub base_url: String,
    /// Row identifier.
    pub id: i64,
}

/// Insertable form of [`Templates`]: the row without its identifier.
#[derive(Debug)]
pub struct TemplatesInsertable {
    /// Short display name.
    pub short_name: String,
    /// Human-readable description.
    pub description: String,
    /// Repository link.
    pub repo_link: String,
    /// External identifier.
    pub identifier: String,
}

/// Insertable form of [`Service`].
#[derive(Debug)]
pub struct ServiceInsertable {
    /// External identifier.
    pub identifier: String,
    /// Owning group, if any.
    pub group_id: Option<String>,
}

/// Insertable form of [`Service_Envs`].
#[derive(Debug)]
pub struct Service_EnvsInsertable {
    /// Owning service.
    pub parent_id: i64,
    /// Environment specification.
    pub spec: String,
    /// Environment name.
    pub env: String,
    /// Base URL of the environment.
    pub base_url: String,
}

} // verus!
