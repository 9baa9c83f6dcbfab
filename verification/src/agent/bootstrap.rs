//! Converts local deployment inputs into semantic receiver inputs.

use crate::agent::error::AgentError;
use crate::agent::input;
use crate::agent::input::{AgentInput, ReceiverSelection};
use crate::receivers::oracle::ORACLE_RECEIVER_URN;
use crate::receivers::postgresql::POSTGRESQL_RECEIVER_URN;
use crate::receivers::sql_server::SQL_SERVER_RECEIVER_URN;
use crate::text;
use crate::text::{begins, blank};
use vstd::prelude::*;

verus! {

/// What one receiver and one exporter are built from.
#[derive(Debug)]
pub struct BootstrapConfig {
    /// The receiver to run.
    pub receiver: ReceiverSelection,
    /// Its settings.
    pub receiver_config: ReceiverBootstrapConfig,
    /// The exporter's settings.
    pub exporter_config: OtlpBootstrapConfig,
}

/// Settings of the receiver.
#[derive(Debug)]
pub struct ReceiverBootstrapConfig {
    /// The database endpoint.
    pub endpoint: String,
    /// The database or service.
    pub database_or_service: String,
    /// The mounted statement.
    pub query_file: String,
    /// The mounted credential.
    pub credential_file: String,
    /// The directory of checkpoints.
    pub checkpoint_directory: String,
}

/// Settings of the exporter.
#[derive(Debug)]
pub struct OtlpBootstrapConfig {
    /// Where logs are sent.
    pub endpoint: String,
}

/// Whether an exporter can be given this endpoint.
pub open spec fn is_otlp_endpoint(endpoint: Seq<char>) -> bool {
    text::begins_with(endpoint, "http://"@) || text::begins_with(endpoint, "https://"@)
}

/// Why no agent can run with this input, if none can: the receiver is not part of this
/// agent, an endpoint cannot be one, or a file is not named.
pub open spec fn refusal(input: AgentInput, compiled: Seq<ReceiverSelection>) -> Option<
    AgentError,
> {
    if !compiled.contains(input.receiver) {
        Some(AgentError::ReceiverNotCompiled)
    } else if text::is_blank(input.endpoint@) || !is_otlp_endpoint(input.otlp_endpoint@) {
        Some(AgentError::InvalidEndpoint)
    } else if text::is_blank(input.query_file@) || text::is_blank(input.credential_file@)
        || text::is_blank(input.checkpoint_directory@) {
        Some(AgentError::InvalidFileReference)
    } else {
        None
    }
}

fn is_compiled(compiled: &Vec<ReceiverSelection>, wanted: ReceiverSelection) -> (found: bool)
    ensures
        found == compiled@.contains(wanted),
{
    let mut i: usize = 0;
    while i < compiled.len()
        invariant
            i <= compiled@.len(),
            forall|j: int| 0 <= j < i ==> compiled@[j] != wanted,
        decreases compiled.len() - i,
    {
        if compiled[i] == wanted {
            return true;
        }
        i += 1;
    }
    false
}

impl BootstrapConfig {
    /// Checks an input against the receivers that this agent has, and sorts it by component.
    pub fn from_input(input: AgentInput, compiled: &Vec<ReceiverSelection>) -> (r: Result<
        Self,
        AgentError,
    >)
        ensures
            match r {
                Ok(config) => {
                    &&& refusal(input, compiled@) is None
                    &&& config.receiver == input.receiver
                    &&& config.receiver_config == (ReceiverBootstrapConfig {
                        endpoint: input.endpoint,
                        database_or_service: input.database_or_service,
                        query_file: input.query_file,
                        credential_file: input.credential_file,
                        checkpoint_directory: input.checkpoint_directory,
                    })
                    &&& config.exporter_config.endpoint == input.otlp_endpoint
                },
                Err(error) => refusal(input, compiled@) == Some(error),
            },
    {
        if !is_compiled(compiled, input.receiver) {
            return Err(AgentError::ReceiverNotCompiled);
        }
        if blank(input.endpoint.as_str()) || !(begins(input.otlp_endpoint.as_str(), "http://")
            || begins(input.otlp_endpoint.as_str(), "https://")) {
            return Err(AgentError::InvalidEndpoint);
        }
        if blank(input.query_file.as_str()) || blank(input.credential_file.as_str()) || blank(
            input.checkpoint_directory.as_str(),
        ) {
            return Err(AgentError::InvalidFileReference);
        }
        Ok(
            BootstrapConfig {
                receiver: input.receiver,
                receiver_config: ReceiverBootstrapConfig {
                    endpoint: input.endpoint,
                    database_or_service: input.database_or_service,
                    query_file: input.query_file,
                    credential_file: input.credential_file,
                    checkpoint_directory: input.checkpoint_directory,
                },
                exporter_config: OtlpBootstrapConfig { endpoint: input.otlp_endpoint },
            },
        )
    }
}

/// The name under which a selected receiver is registered.
pub open spec fn urn(receiver: ReceiverSelection) -> Seq<char> {
    match receiver {
        ReceiverSelection::Oracle => ORACLE_RECEIVER_URN@,
        ReceiverSelection::Postgresql => POSTGRESQL_RECEIVER_URN@,
        ReceiverSelection::SqlServer => SQL_SERVER_RECEIVER_URN@,
        ReceiverSelection::MySql => "urn:otel:receiver:mysql"@,
    }
}

/// Gives the name under which a selected receiver is registered.
pub fn receiver_urn(receiver: ReceiverSelection) -> (r: &'static str)
    ensures
        r@ == urn(receiver),
{
    match receiver {
        ReceiverSelection::Oracle => ORACLE_RECEIVER_URN,
        ReceiverSelection::Postgresql => POSTGRESQL_RECEIVER_URN,
        ReceiverSelection::SqlServer => SQL_SERVER_RECEIVER_URN,
        ReceiverSelection::MySql => "urn:otel:receiver:mysql",
    }
}

/// A receiver is registered under the name by which it is selected, in the common name space.
pub proof fn law_receivers_are_registered_by_name(name: Seq<char>)
    ensures
        input::named_receiver(name) matches Some(receiver) ==> urn(receiver) == "urn:otel:receiver:"@
            + name,
{
    reveal_strlit("urn:otel:receiver:");
    reveal_strlit("oracle");
    reveal_strlit("postgresql");
    reveal_strlit("sql_server");
    reveal_strlit("mysql");
    reveal_strlit("urn:otel:receiver:oracle");
    reveal_strlit("urn:otel:receiver:postgresql");
    reveal_strlit("urn:otel:receiver:sql_server");
    reveal_strlit("urn:otel:receiver:mysql");
    assert("urn:otel:receiver:oracle"@ =~= "urn:otel:receiver:"@ + "oracle"@);
    assert("urn:otel:receiver:postgresql"@ =~= "urn:otel:receiver:"@ + "postgresql"@);
    assert("urn:otel:receiver:sql_server"@ =~= "urn:otel:receiver:"@ + "sql_server"@);
    assert("urn:otel:receiver:mysql"@ =~= "urn:otel:receiver:"@ + "mysql"@);
}

/// Two receivers are never registered under one name.
pub proof fn law_receivers_are_registered_apart(a: ReceiverSelection, b: ReceiverSelection)
    ensures
        urn(a) == urn(b) ==> a == b,
{
    reveal_strlit("urn:otel:receiver:oracle");
    reveal_strlit("urn:otel:receiver:postgresql");
    reveal_strlit("urn:otel:receiver:sql_server");
    reveal_strlit("urn:otel:receiver:mysql");
    assert(urn(ReceiverSelection::Oracle).len() == 24);
    assert(urn(ReceiverSelection::MySql).len() == 23);
    assert(urn(ReceiverSelection::Postgresql).len() == 28);
    assert(urn(ReceiverSelection::SqlServer).len() == 28);
    assert(urn(ReceiverSelection::Postgresql)[18] == 'p');
    assert(urn(ReceiverSelection::SqlServer)[18] == 's');
}

/// An exporter is given an endpoint exactly when it begins with one of the two schemes.
pub proof fn law_endpoints_begin_with_a_scheme(endpoint: Seq<char>)
    ensures
        is_otlp_endpoint(endpoint) <==> (endpoint.len() >= 7 && endpoint.take(7) == seq![
            'h',
            't',
            't',
            'p',
            ':',
            '/',
            '/',
        ]) || (endpoint.len() >= 8 && endpoint.take(8) == seq![
            'h',
            't',
            't',
            'p',
            's',
            ':',
            '/',
            '/',
        ]),
{
    reveal_strlit("http://");
    reveal_strlit("https://");
    assert("http://"@ =~= seq!['h', 't', 't', 'p', ':', '/', '/']);
    assert("https://"@ =~= seq!['h', 't', 't', 'p', 's', ':', '/', '/']);
    if endpoint.len() >= 7 {
        assert(endpoint.take(7) =~= endpoint.subrange(0, 7));
    }
    if endpoint.len() >= 8 {
        assert(endpoint.take(8) =~= endpoint.subrange(0, 8));
    }
}

/// An agent runs exactly when its receiver is part of it, its endpoints can be such, and its
/// files are named; what is told is the first of these that fails.
pub proof fn law_accepted_inputs_can_run(input: AgentInput, compiled: Seq<ReceiverSelection>)
    ensures
        ({
            let part = exists|i: int|
                0 <= i < compiled.len() && #[trigger] compiled[i] == input.receiver;
            let reached = !text::is_blank(input.endpoint@) && is_otlp_endpoint(
                input.otlp_endpoint@,
            );
            let named = !text::is_blank(input.query_file@) && !text::is_blank(
                input.credential_file@,
            ) && !text::is_blank(input.checkpoint_directory@);
            &&& refusal(input, compiled) is None <==> part && reached && named
            &&& refusal(input, compiled) == Some(AgentError::ReceiverNotCompiled) <==> !part
            &&& refusal(input, compiled) == Some(AgentError::InvalidEndpoint) <==> part && !reached
            &&& refusal(input, compiled) == Some(AgentError::InvalidFileReference) <==> part
                && reached && !named
        }),
{
}

} // verus!
