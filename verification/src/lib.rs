//! Verified decision logic of the Argus target-review workflow: the durable
//! workflow-data state machine, review-decision validation and the assessment
//! draft schemas, evidence requests and expansions, admission planning,
//! documentation and architecture planning, recovery manifests and outcome
//! identities.

pub mod actor_registry;
pub mod actors;
pub mod admission;
pub mod architecture;
pub mod architecture_plan;
pub mod architecture_schema;
pub mod conformance_schema;
pub mod correctness_schema;
pub mod decision_schema;
pub mod diagnostics;
pub mod documentation_contract;
pub mod documentation_plan;
pub mod documentation_runtime;
pub mod documentation_schema;
pub mod equiv;
pub mod evidence;
pub mod evidence_flow;
pub mod finding_work;
pub mod graph;
pub mod hashing;
pub mod json;
pub mod maintainability_schema;
pub mod optimization_schema;
pub mod order;
pub mod outcome;
pub mod primary_review;
pub mod prompt;
pub mod recovery;
pub mod review;
pub mod schema_parts;
pub mod shape;
pub mod short_circuit;
pub mod text;
pub mod textset;
pub mod transport;
pub mod worker;
pub mod workflow_data;
