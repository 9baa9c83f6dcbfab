//! Database adapter contract and common execution error policy.

use crate::text::{append_text, owned};
use secrecy::ExposeSecret;
use vstd::prelude::*;

verus! {

/// A text held by `secrecy::SecretString`, which wipes it when dropped and keeps it
/// out of diagnostics.
#[verifier::external_body]
pub struct Secret {
    inner: secrecy::SecretString,
}

/// The text that a secret holds.
pub uninterp spec fn secret_text(secret: Secret) -> Seq<char>;

impl Secret {
    /// `SecretString::from`: the secret holds the text given.
    #[verifier::external_body]
    pub(crate) fn conceal(value: String) -> (secret: Self)
        ensures
            secret_text(secret) == value@,
    {
        Secret { inner: secrecy::SecretString::from(value) }
    }

    /// `ExposeSecret::expose_secret`: borrows the text that the secret holds.
    #[verifier::external_body]
    pub(crate) fn expose(&self) -> (text: &str)
        ensures
            text@ == secret_text(*self),
    {
        self.inner.expose_secret()
    }

    /// Borrows the text for the driver that logs in with it.
    pub fn disclose(&self) -> (text: &str)
        ensures
            text@ == secret_text(*self),
    {
        self.expose()
    }
}

/// Resolved credentials supplied only while opening a database session.
pub struct Credentials {
    username: String,
    password: Secret,
}

impl Credentials {
    /// The user that logs in.
    pub closed spec fn user(self) -> Seq<char> {
        self.username@
    }

    /// The secret that the user logs in with.
    pub closed spec fn secret(self) -> Seq<char> {
        secret_text(self.password)
    }

    /// Creates redacted username/password credentials.
    pub fn new(username: String, password: String) -> (r: Self)
        ensures
            r.user() == username@,
            r.secret() == password@,
    {
        Credentials { username, password: Secret::conceal(password) }
    }

    /// Borrows the username.
    pub fn username(&self) -> (r: &str)
        ensures
            r@ == self.user(),
    {
        self.username.as_str()
    }

    /// Borrows the password through the explicit secret-exposure API.
    pub fn password(&self) -> (r: &str)
        ensures
            r@ == self.secret(),
    {
        self.password.expose()
    }
}

/// Environment-backed credential reference resolved on every new connection.
pub struct EnvironmentCredentialProvider {
    username: String,
    password_env: String,
}

impl Clone for EnvironmentCredentialProvider {
    fn clone(&self) -> (r: Self)
        ensures
            r == *self,
    {
        EnvironmentCredentialProvider {
            username: self.username.clone(),
            password_env: self.password_env.clone(),
        }
    }
}

impl EnvironmentCredentialProvider {
    /// The user that logs in.
    pub closed spec fn user(self) -> Seq<char> {
        self.username@
    }

    /// The environment variable that holds the password.
    pub closed spec fn variable(self) -> Seq<char> {
        self.password_env@
    }

    /// Creates a provider without resolving secret material.
    pub fn new(username: String, password_env: String) -> (r: Self)
        ensures
            r.user() == username@,
            r.variable() == password_env@,
    {
        EnvironmentCredentialProvider { username, password_env }
    }

    /// Borrows the name of the environment variable to read.
    pub fn password_env(&self) -> (r: &str)
        ensures
            r@ == self.variable(),
    {
        self.password_env.as_str()
    }

    /// Resolves fresh credentials from what the environment variable holds now, so
    /// that a password rotates on reconnect.
    pub fn resolve(&self, password: Option<String>) -> (r: Result<Credentials, CredentialError>)
        ensures
            match (password, r) {
                (Some(text), Ok(credentials)) => credentials.user() == self.user()
                    && credentials.secret() == text@,
                (None, Err(CredentialError::Environment { name })) => name@ == self.variable(),
                _ => false,
            },
    {
        match password {
            Some(text) => Ok(Credentials::new(self.username.clone(), text)),
            None => Err(CredentialError::Environment { name: self.password_env.clone() }),
        }
    }
}

/// Credential resolution failure that never includes secret material.
#[derive(Debug)]
pub enum CredentialError {
    /// Referenced environment variable was absent or invalid.
    Environment {
        /// Safe environment variable name.
        name: String,
    },
}

/// What an operator is told when credentials cannot be resolved.
pub open spec fn credential_message(error: CredentialError) -> Seq<char> {
    match error {
        CredentialError::Environment { name } =>
            "failed to read database password from environment variable "@ + name@,
    }
}

impl CredentialError {
    /// What an operator is told of this failure.
    pub fn message(&self) -> (r: String)
        ensures
            r@ == credential_message(*self),
    {
        match self {
            CredentialError::Environment { name } => {
                let mut r = owned("failed to read database password from environment variable ");
                append_text(&mut r, name.as_str());
                r
            },
        }
    }
}

/// Stable database system identity used in OTLP and internal telemetry.
#[derive(Clone, Copy, Debug, PartialEq, Eq, Structural)]
pub enum DatabaseSystem {
    /// PostgreSQL.
    PostgreSql,
    /// Oracle Database.
    Oracle,
    /// Microsoft SQL Server.
    SqlServer,
    /// MySQL.
    MySql,
}

/// The OpenTelemetry name of a database system.
pub open spec fn system_name(system: DatabaseSystem) -> Seq<char> {
    match system {
        DatabaseSystem::PostgreSql => "postgresql"@,
        DatabaseSystem::Oracle => "oracle"@,
        DatabaseSystem::SqlServer => "sql_server"@,
        DatabaseSystem::MySql => "mysql"@,
    }
}

impl DatabaseSystem {
    /// Returns the OpenTelemetry database system name.
    pub fn as_str(self) -> (r: &'static str)
        ensures
            r@ == system_name(self),
    {
        match self {
            DatabaseSystem::PostgreSql => "postgresql",
            DatabaseSystem::Oracle => "oracle",
            DatabaseSystem::SqlServer => "sql_server",
            DatabaseSystem::MySql => "mysql",
        }
    }
}

/// Adapter capabilities used for startup validation and runtime branching.
#[derive(Clone, Copy, Debug, PartialEq, Eq, Structural)]
pub struct DriverCapabilities {
    /// Driver supports cooperative server-side cancellation.
    pub cancellation: bool,
    /// Driver exposes source database types and nullability.
    pub result_metadata: bool,
    /// Driver supports logical named or positional bind values.
    pub parameter_binding: bool,
}

/// Whether an adapter can do all that polling asks of it.
pub open spec fn is_sufficient(capabilities: DriverCapabilities) -> bool {
    capabilities.cancellation && capabilities.result_metadata && capabilities.parameter_binding
}

impl DriverCapabilities {
    /// Whether the adapter can do all that polling asks of it.
    pub fn sufficient(&self) -> (found: bool)
        ensures
            found == is_sufficient(*self),
    {
        self.cancellation && self.result_metadata && self.parameter_binding
    }
}

/// Bounded receiver-wide database error taxonomy.
#[derive(Clone, Copy, Debug, PartialEq, Eq, Structural)]
pub enum ErrorClass {
    /// Invalid configuration or unsupported requested capability.
    Configuration,
    /// Credential or authentication failure.
    Authentication,
    /// Recoverable connection or network failure.
    TransientTransport,
    /// Query deadline or cancellation.
    TimeoutCancel,
    /// SQL, authorization, or source-object failure.
    Query,
    /// Native value normalization or mapping failure.
    Conversion,
    /// Downstream pipeline failure.
    Downstream,
    /// Adapter or worker invariant failure.
    Internal,
}

/// The telemetry name of an error class.
pub open spec fn class_name(class: ErrorClass) -> Seq<char> {
    match class {
        ErrorClass::Configuration => "configuration"@,
        ErrorClass::Authentication => "authentication"@,
        ErrorClass::TransientTransport => "transient_transport"@,
        ErrorClass::TimeoutCancel => "timeout_cancel"@,
        ErrorClass::Query => "query"@,
        ErrorClass::Conversion => "conversion"@,
        ErrorClass::Downstream => "downstream"@,
        ErrorClass::Internal => "internal"@,
    }
}

impl ErrorClass {
    /// Returns a stable low-cardinality telemetry value.
    pub fn as_str(self) -> (r: &'static str)
        ensures
            r@ == class_name(self),
    {
        match self {
            ErrorClass::Configuration => "configuration",
            ErrorClass::Authentication => "authentication",
            ErrorClass::TransientTransport => "transient_transport",
            ErrorClass::TimeoutCancel => "timeout_cancel",
            ErrorClass::Query => "query",
            ErrorClass::Conversion => "conversion",
            ErrorClass::Downstream => "downstream",
            ErrorClass::Internal => "internal",
        }
    }
}

/// Whether a failed session can safely execute another query.
#[derive(Clone, Copy, Debug, PartialEq, Eq, Structural)]
pub enum SessionDisposition {
    /// Session is safe for reuse.
    Reuse,
    /// Session must be closed and recreated.
    Discard,
}

/// Runtime response to one adapter failure.
#[derive(Clone, Copy, Debug, PartialEq, Eq, Structural)]
pub struct ErrorDisposition {
    /// Bounded failure category.
    pub class: ErrorClass,
    /// Whether bounded retry policy may retry this operation.
    pub retryable: bool,
    /// Whether the current session remains safe.
    pub session: SessionDisposition,
}

/// Every database system has a name of its own, and so has every error class.
pub proof fn law_names_tell_apart(
    one: DatabaseSystem,
    other: DatabaseSystem,
    first: ErrorClass,
    second: ErrorClass,
)
    ensures
        system_name(one) == system_name(other) ==> one == other,
        class_name(first) == class_name(second) ==> first == second,
{
    reveal_strlit("postgresql");
    reveal_strlit("oracle");
    reveal_strlit("sql_server");
    reveal_strlit("mysql");
    reveal_strlit("configuration");
    reveal_strlit("authentication");
    reveal_strlit("transient_transport");
    reveal_strlit("timeout_cancel");
    reveal_strlit("query");
    reveal_strlit("conversion");
    reveal_strlit("downstream");
    reveal_strlit("internal");
    assert("postgresql"@[0] == 'p' && "oracle"@[0] == 'o' && "sql_server"@[0] == 's' && "mysql"@[0]
        == 'm');
    assert("conversion"@.len() == 10 && "downstream"@.len() == 10 && "conversion"@[0] == 'c'
        && "downstream"@[0] == 'd');
    assert("authentication"@.len() == 14 && "timeout_cancel"@.len() == 14 && "authentication"@[0]
        == 'a' && "timeout_cancel"@[0] == 't');
    assert("configuration"@.len() == 13 && "transient_transport"@.len() == 19 && "query"@.len() == 5
        && "internal"@.len() == 8);
}

/// An adapter suffices exactly when it lacks nothing of what polling asks of it.
pub proof fn law_sufficient_adapters_lack_nothing(capabilities: DriverCapabilities)
    ensures
        !capabilities.cancellation ==> !is_sufficient(capabilities),
        !capabilities.result_metadata ==> !is_sufficient(capabilities),
        !capabilities.parameter_binding ==> !is_sufficient(capabilities),
        capabilities.cancellation && capabilities.result_metadata && capabilities.parameter_binding
            ==> is_sufficient(capabilities),
{
}

} // verus!
