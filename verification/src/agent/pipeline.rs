//! The one pipeline that an agent runs: its receiver, connected to its exporter.

use crate::agent::bootstrap;
use crate::agent::bootstrap::{
    receiver_urn, BootstrapConfig, OtlpBootstrapConfig, ReceiverBootstrapConfig,
};
use crate::agent::error::AgentError;
use crate::agent::input::ReceiverSelection;
use crate::text::same;
use vstd::prelude::*;

verus! {

/// A node of the pipeline.
#[derive(Clone, Copy, Debug, PartialEq, Eq, Structural)]
pub enum PipelineNode {
    /// The database receiver.
    Receiver,
    /// The OTLP exporter.
    Exporter,
}

/// A pipeline of one receiver and one exporter.
#[derive(Debug)]
pub struct DataflowSpec {
    /// The name under which the receiver is registered.
    pub receiver_urn: &'static str,
    /// The receiver's settings.
    pub receiver: ReceiverBootstrapConfig,
    /// The exporter's settings.
    pub exporter: OtlpBootstrapConfig,
    /// Which node hands its data to which.
    pub connections: Vec<(PipelineNode, PipelineNode)>,
    /// How many cores run it.
    pub cores: usize,
}

/// Whether a pipeline is the one of an agent: the selected receiver with its own settings,
/// handing its data to the exporter and to nothing else, on one core.
pub open spec fn is_constrained(spec: DataflowSpec, config: BootstrapConfig) -> bool {
    &&& spec.receiver_urn@ == bootstrap::urn(config.receiver)
    &&& spec.receiver == config.receiver_config
    &&& spec.exporter == config.exporter_config
    &&& spec.connections@ == seq![(PipelineNode::Receiver, PipelineNode::Exporter)]
    &&& spec.cores == 1
}

/// Builds the pipeline of an agent.
pub fn build_constrained_pipeline(bootstrap: &BootstrapConfig) -> (r: Result<
    DataflowSpec,
    AgentError,
>)
    ensures
        r matches Ok(spec) && is_constrained(spec, *bootstrap),
{
    let settings = &bootstrap.receiver_config;
    let mut connections: Vec<(PipelineNode, PipelineNode)> = Vec::new();
    connections.push((PipelineNode::Receiver, PipelineNode::Exporter));
    Ok(
        DataflowSpec {
            receiver_urn: receiver_urn(bootstrap.receiver),
            receiver: ReceiverBootstrapConfig {
                endpoint: settings.endpoint.clone(),
                database_or_service: settings.database_or_service.clone(),
                query_file: settings.query_file.clone(),
                credential_file: settings.credential_file.clone(),
                checkpoint_directory: settings.checkpoint_directory.clone(),
            },
            exporter: OtlpBootstrapConfig { endpoint: bootstrap.exporter_config.endpoint.clone() },
            connections,
            cores: 1,
        },
    )
}

/// Whether some receiver of an agent is registered under a name.
pub open spec fn is_registered(urn: Seq<char>, compiled: Seq<ReceiverSelection>) -> bool {
    exists|i: int| 0 <= i < compiled.len() && bootstrap::urn(#[trigger] compiled[i]) == urn
}

/// Checks that the pipeline's receiver is part of this agent.
pub fn validate_selected_components(spec: &DataflowSpec, compiled: &Vec<ReceiverSelection>) -> (r:
    Result<(), AgentError>)
    ensures
        r == if is_registered(spec.receiver_urn@, compiled@) {
            Ok::<(), AgentError>(())
        } else {
            Err(AgentError::ReceiverNotCompiled)
        },
{
    let mut i: usize = 0;
    while i < compiled.len()
        invariant
            i <= compiled@.len(),
            forall|j: int|
                0 <= j < i ==> bootstrap::urn(#[trigger] compiled@[j]) != spec.receiver_urn@,
        decreases compiled.len() - i,
    {
        if same(receiver_urn(compiled[i]), spec.receiver_urn) {
            assert(bootstrap::urn(compiled@[i as int]) == spec.receiver_urn@);
            return Ok(());
        }
        i += 1;
    }
    Err(AgentError::ReceiverNotCompiled)
}

/// The pipeline of an accepted input passes the check of its components.
pub proof fn law_accepted_agents_have_their_receiver(
    spec: DataflowSpec,
    config: BootstrapConfig,
    compiled: Seq<ReceiverSelection>,
)
    requires
        is_constrained(spec, config),
        compiled.contains(config.receiver),
    ensures
        is_registered(spec.receiver_urn@, compiled),
{
    let i = choose|i: int| 0 <= i < compiled.len() && compiled[i] == config.receiver;
    assert(bootstrap::urn(compiled[i]) == spec.receiver_urn@);
}

} // verus!
