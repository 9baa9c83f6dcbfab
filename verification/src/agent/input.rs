//! Small, versioned customer-facing input contract.

use crate::agent::error::AgentError;
use crate::text::same;
use vstd::prelude::*;

verus! {

/// The input schema that is understood.
pub const SCHEMA_VERSION: u32 = 1;

/// The environment's values, each where it is set. None of them is secret: files are named,
/// not read.
#[derive(Debug)]
pub struct Environment {
    /// The version of the input schema.
    pub schema_version: Option<String>,
    /// The receiver's name.
    pub receiver: Option<String>,
    /// The database endpoint.
    pub endpoint: Option<String>,
    /// The database or service.
    pub database_or_service: Option<String>,
    /// The mounted statement.
    pub query_file: Option<String>,
    /// The mounted credential.
    pub credential_file: Option<String>,
    /// The directory of checkpoints.
    pub checkpoint_directory: Option<String>,
    /// Where logs are sent.
    pub otlp_endpoint: Option<String>,
}

/// What the customer sets.
#[derive(Debug)]
pub struct AgentInput {
    /// The version of the input schema.
    pub schema_version: u32,
    /// The receiver to run.
    pub receiver: ReceiverSelection,
    /// The database endpoint.
    pub endpoint: String,
    /// The database or service.
    pub database_or_service: String,
    /// The mounted statement.
    pub query_file: String,
    /// The mounted credential.
    pub credential_file: String,
    /// The directory of checkpoints.
    pub checkpoint_directory: String,
    /// Where logs are sent.
    pub otlp_endpoint: String,
}

/// A receiver that can be selected.
#[derive(Clone, Copy, Debug, PartialEq, Eq, Structural)]
pub enum ReceiverSelection {
    Oracle,
    Postgresql,
    SqlServer,
    MySql,
}

/// The receiver of a name.
pub open spec fn named_receiver(name: Seq<char>) -> Option<ReceiverSelection> {
    if name == "oracle"@ {
        Some(ReceiverSelection::Oracle)
    } else if name == "postgresql"@ {
        Some(ReceiverSelection::Postgresql)
    } else if name == "sql_server"@ {
        Some(ReceiverSelection::SqlServer)
    } else if name == "mysql"@ {
        Some(ReceiverSelection::MySql)
    } else {
        None
    }
}

/// Whether every value is set.
pub open spec fn complete(environment: Environment) -> bool {
    &&& environment.schema_version is Some
    &&& environment.receiver is Some
    &&& environment.endpoint is Some
    &&& environment.database_or_service is Some
    &&& environment.query_file is Some
    &&& environment.credential_file is Some
    &&& environment.checkpoint_directory is Some
    &&& environment.otlp_endpoint is Some
}

/// Why an environment gives no input, if it gives none. What is missing comes first, then
/// the version, which says how to read the rest, then the receiver's name.
pub open spec fn refusal(environment: Environment) -> Option<AgentError> {
    if !complete(environment) {
        Some(AgentError::MissingInput)
    } else if environment.schema_version->0@ != "1"@ {
        Some(AgentError::UnsupportedInputVersion)
    } else if named_receiver(environment.receiver->0@) is None {
        Some(AgentError::UnsupportedReceiver)
    } else {
        None
    }
}

/// The input that a complete environment gives.
pub open spec fn reads(environment: Environment, input: AgentInput) -> bool {
    &&& input.schema_version == SCHEMA_VERSION
    &&& Some(input.receiver) == named_receiver(environment.receiver->0@)
    &&& input.endpoint == environment.endpoint->0
    &&& input.database_or_service == environment.database_or_service->0
    &&& input.query_file == environment.query_file->0
    &&& input.credential_file == environment.credential_file->0
    &&& input.checkpoint_directory == environment.checkpoint_directory->0
    &&& input.otlp_endpoint == environment.otlp_endpoint->0
}

/// Finds the receiver of a name.
pub fn select_receiver(name: &str) -> (r: Option<ReceiverSelection>)
    ensures
        r == named_receiver(name@),
{
    if same(name, "oracle") {
        Some(ReceiverSelection::Oracle)
    } else if same(name, "postgresql") {
        Some(ReceiverSelection::Postgresql)
    } else if same(name, "sql_server") {
        Some(ReceiverSelection::SqlServer)
    } else if same(name, "mysql") {
        Some(ReceiverSelection::MySql)
    } else {
        None
    }
}

impl AgentInput {
    /// Reads the input from the environment's values.
    pub fn from_environment(environment: Environment) -> (r: Result<Self, AgentError>)
        ensures
            match r {
                Ok(input) => refusal(environment) is None && reads(environment, input),
                Err(error) => refusal(environment) == Some(error),
            },
    {
        match (
            environment.schema_version,
            environment.receiver,
            environment.endpoint,
            environment.database_or_service,
            environment.query_file,
            environment.credential_file,
            environment.checkpoint_directory,
            environment.otlp_endpoint,
        ) {
            (
                Some(version),
                Some(receiver),
                Some(endpoint),
                Some(database_or_service),
                Some(query_file),
                Some(credential_file),
                Some(checkpoint_directory),
                Some(otlp_endpoint),
            ) => {
                if !same(version.as_str(), "1") {
                    return Err(AgentError::UnsupportedInputVersion);
                }
                match select_receiver(receiver.as_str()) {
                    None => Err(AgentError::UnsupportedReceiver),
                    Some(receiver) => Ok(
                        AgentInput {
                            schema_version: SCHEMA_VERSION,
                            receiver,
                            endpoint,
                            database_or_service,
                            query_file,
                            credential_file,
                            checkpoint_directory,
                            otlp_endpoint,
                        },
                    ),
                }
            },
            _ => Err(AgentError::MissingInput),
        }
    }
}

/// A receiver is selected by its own name and by no other.
pub proof fn law_receivers_are_selected_by_name(name: Seq<char>)
    ensures
        named_receiver(name) == Some(ReceiverSelection::Oracle) <==> name == "oracle"@,
        named_receiver(name) == Some(ReceiverSelection::Postgresql) <==> name == "postgresql"@,
        named_receiver(name) == Some(ReceiverSelection::SqlServer) <==> name == "sql_server"@,
        named_receiver(name) == Some(ReceiverSelection::MySql) <==> name == "mysql"@,
{
    reveal_strlit("oracle");
    reveal_strlit("postgresql");
    reveal_strlit("sql_server");
    reveal_strlit("mysql");
    assert("sql_server"@[0] != "postgresql"@[0]);
    assert("oracle"@.len() != "mysql"@.len());
}

/// An input is read exactly from an environment that sets every value, in the first version of
/// the schema, with the name of a receiver.
pub proof fn law_inputs_are_complete(environment: Environment)
    ensures
        refusal(environment) is None <==> {
            &&& environment.endpoint is Some
            &&& environment.database_or_service is Some
            &&& environment.query_file is Some
            &&& environment.credential_file is Some
            &&& environment.checkpoint_directory is Some
            &&& environment.otlp_endpoint is Some
            &&& environment.schema_version matches Some(version) && version@ == seq!['1']
            &&& environment.receiver matches Some(name) && (name@ == "oracle"@ || name@
                == "postgresql"@ || name@ == "sql_server"@ || name@ == "mysql"@)
        },
        environment.endpoint is None || environment.database_or_service is None
            || environment.query_file is None || environment.credential_file is None
            || environment.checkpoint_directory is None || environment.otlp_endpoint is None
            || environment.schema_version is None || environment.receiver is None <==> refusal(
            environment,
        ) == Some(AgentError::MissingInput),
        refusal(environment) == Some(AgentError::UnsupportedReceiver)
            ==> environment.schema_version->0@ == seq!['1'],
{
    reveal_strlit("1");
    assert("1"@ =~= seq!['1']);
}

/// What is read is what the environment sets, each value in its own place.
pub proof fn law_inputs_keep_their_values(environment: Environment, input: AgentInput)
    requires
        refusal(environment) is None,
        reads(environment, input),
    ensures
        input.schema_version == 1,
        environment.endpoint == Some(input.endpoint),
        environment.database_or_service == Some(input.database_or_service),
        environment.query_file == Some(input.query_file),
        environment.credential_file == Some(input.credential_file),
        environment.checkpoint_directory == Some(input.checkpoint_directory),
        environment.otlp_endpoint == Some(input.otlp_endpoint),
        match input.receiver {
            ReceiverSelection::Oracle => environment.receiver->0@ == "oracle"@,
            ReceiverSelection::Postgresql => environment.receiver->0@ == "postgresql"@,
            ReceiverSelection::SqlServer => environment.receiver->0@ == "sql_server"@,
            ReceiverSelection::MySql => environment.receiver->0@ == "mysql"@,
        },
{
}

} // verus!
