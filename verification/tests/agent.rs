use database_receiver::agent::bootstrap::{receiver_urn, BootstrapConfig};
use database_receiver::agent::error::AgentError;
use database_receiver::agent::input::{
    select_receiver, AgentInput, Environment, ReceiverSelection,
};
use database_receiver::agent::pipeline::{
    build_constrained_pipeline, validate_selected_components, PipelineNode,
};

fn environment() -> Environment {
    let set = |value: &str| Some(value.to_string());
    Environment {
        schema_version: set("1"),
        receiver: set("postgresql"),
        endpoint: set("db.example:5432"),
        database_or_service: set("events"),
        query_file: set("/etc/agent/query.json"),
        credential_file: set("/run/secrets/database"),
        checkpoint_directory: set("/var/lib/agent"),
        otlp_endpoint: set("https://collector.example:4317"),
    }
}

fn input(change: impl Fn(&mut Environment)) -> Result<AgentInput, AgentError> {
    let mut environment = environment();
    change(&mut environment);
    AgentInput::from_environment(environment)
}

/// Scenario: every value is set.
/// Guarantees: the input holds the values and the selected receiver.
#[test]
fn complete_environment_is_read() {
    let input = input(|_| {}).expect("complete");
    assert_eq!(input.schema_version, 1);
    assert_eq!(input.receiver, ReceiverSelection::Postgresql);
    assert_eq!(input.endpoint, "db.example:5432");
    assert_eq!(input.otlp_endpoint, "https://collector.example:4317");
}

/// Scenario: a value is missing, of another version, or names no receiver.
/// Guarantees: each is refused for its own reason.
#[test]
fn incomplete_environments_are_told_apart() {
    assert_eq!(
        input(|e| e.query_file = None).err(),
        Some(AgentError::MissingInput)
    );
    assert_eq!(
        input(|e| e.schema_version = Some("2".to_string())).err(),
        Some(AgentError::UnsupportedInputVersion)
    );
    assert_eq!(
        input(|e| e.receiver = Some("db2".to_string())).err(),
        Some(AgentError::UnsupportedReceiver)
    );
}

/// Scenario: the selected receiver is part of the agent or not, and references are unusable.
/// Guarantees: a usable input is sorted by component and every other one is refused.
#[test]
fn bootstrap_checks_its_input() {
    let compiled = vec![ReceiverSelection::Oracle, ReceiverSelection::Postgresql];
    let config = BootstrapConfig::from_input(input(|_| {}).expect("complete"), &compiled)
        .expect("usable");
    assert_eq!(config.receiver, ReceiverSelection::Postgresql);
    assert_eq!(config.receiver_config.query_file, "/etc/agent/query.json");
    assert_eq!(config.exporter_config.endpoint, "https://collector.example:4317");
    let refused = |change: &dyn Fn(&mut AgentInput)| {
        let mut input = input(|_| {}).expect("complete");
        change(&mut input);
        BootstrapConfig::from_input(input, &compiled).err()
    };
    assert_eq!(
        refused(&|input| input.receiver = ReceiverSelection::MySql),
        Some(AgentError::ReceiverNotCompiled)
    );
    assert_eq!(
        refused(&|input| input.otlp_endpoint = "collector:4317".to_string()),
        Some(AgentError::InvalidEndpoint)
    );
    assert_eq!(
        refused(&|input| input.endpoint = " ".to_string()),
        Some(AgentError::InvalidEndpoint)
    );
    assert_eq!(
        refused(&|input| input.credential_file = String::new()),
        Some(AgentError::InvalidFileReference)
    );
}

/// Scenario: receivers are selected by name.
/// Guarantees: each name selects the receiver that is registered under its own URN.
#[test]
fn receivers_are_selected_by_name() {
    for (name, urn) in [
        ("oracle", "urn:otel:receiver:oracle"),
        ("postgresql", "urn:otel:receiver:postgresql"),
        ("sql_server", "urn:otel:receiver:sql_server"),
        ("mysql", "urn:otel:receiver:mysql"),
    ] {
        assert_eq!(select_receiver(name).map(receiver_urn), Some(urn));
    }
    assert_eq!(select_receiver("Oracle"), None);
}

/// Scenario: a pipeline is built for an accepted input.
/// Guarantees: it is the selected receiver handing its data to the exporter on one core, and an
/// agent without that receiver refuses it.
#[test]
fn pipelines_are_constrained() {
    let compiled = vec![ReceiverSelection::Postgresql];
    let config = BootstrapConfig::from_input(input(|_| {}).expect("complete"), &compiled)
        .expect("usable");
    let spec = build_constrained_pipeline(&config).expect("pipeline");
    assert_eq!(spec.receiver_urn, "urn:otel:receiver:postgresql");
    assert_eq!(spec.receiver.endpoint, "db.example:5432");
    assert_eq!(spec.exporter.endpoint, "https://collector.example:4317");
    assert_eq!(
        spec.connections,
        vec![(PipelineNode::Receiver, PipelineNode::Exporter)]
    );
    assert_eq!(spec.cores, 1);
    assert_eq!(validate_selected_components(&spec, &compiled), Ok(()));
    assert_eq!(
        validate_selected_components(&spec, &vec![ReceiverSelection::Oracle]),
        Err(AgentError::ReceiverNotCompiled)
    );
}
