//! Verified core of the LAO workflow orchestrator: trust policy, path policy,
//! workflow graphs and conditions, the workflow scheduler, the model registry and
//! hardware-aware model routing, and the data contracts shared between them.
pub mod text;
pub mod model;
pub mod order;
pub mod workflow_types;
pub mod workflow_helpers;
pub mod plugin_info;
pub mod plugin_manager;
pub mod plugin_registry;
pub mod plugin_result;
pub mod code_intelligence;
pub mod path_policy;
pub mod trust;
pub mod step_run;
pub mod plugin_step;
pub mod model_step;
pub mod workflow_dag;
pub mod workflow_state;
pub mod scheduler;
pub mod macos_integrations;
pub mod unified_memory;
pub mod apple_silicon;
pub mod cross_platform;
pub mod core_scheduler;
pub mod power_management;
pub mod mps_shaders;
pub mod cli;
pub mod execution;
pub mod local_llm;
pub mod workflow_executor;
