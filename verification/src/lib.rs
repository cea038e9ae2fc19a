//! Core runtime of a security-automation framework: declarative reference
//! resolution for playbook step parameters, execution-context construction,
//! event ingestion with deduplication, and result persistence.

pub mod errors;
pub mod events;
pub mod helpers;
pub mod humaninteraction;
pub mod integrations;
pub mod json;
pub mod models;
pub mod resolver;
pub mod utils;

pub use errors::SoclessError;
pub use events::{
    build_dedup_hash, deduplicate, get_playbook_arn, setup_events, ExecutionStatus,
    SoclessEventBatch,
};
pub use helpers::split_with_delimiter;
pub use humaninteraction::{end_human_interaction, init_human_interaction};
pub use integrations::{build_socless_context, save_state_results};
pub use json::{json_merge, JsonValue};
pub use models::{
    EventTableItem, PlaybookArtifacts, PlaybookInput, ResponsesTableItem, ResultsTableItem,
    SoclessEvent,
};
pub use resolver::{
    resolve_parameters, resolve_reference, SoclessContext, SoclessLambdaInput, StateConfig, Vault,
};
pub use utils::{gen_datetimenow, gen_id};
