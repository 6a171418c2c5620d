use lao_orchestrator_core::model::registry::{ModelEntry, ModelRegistry, PathState};
use lao_orchestrator_core::model::scheduler::{
    schedule, SchedulingOverrides, WorkerLocality, WorkerSnapshot,
};
use lao_orchestrator_core::model::types::{
    AcceleratorKind, ArtifactReference, ModelId, ModelMessage, ModelRequest, ModelRequestError,
    ModelRequirements, ModelRole, ModelSelector, RequestId, WorkerId,
};

fn entry(id: &str, ctx: u32, mem: u64, roles: &[ModelRole]) -> ModelEntry {
    ModelEntry {
        id: ModelId::from(id),
        format: "gguf".to_string(),
        path: format!("/models/{}.gguf", id),
        backend: "llama_cpp".to_string(),
        context_tokens: Some(ctx),
        estimated_memory_bytes: Some(mem),
        roles: roles.to_vec(),
        execution_config: String::new(),
        tool_calling: None,
        reasoning: None,
    }
}

fn registry() -> ModelRegistry {
    let entries = vec![
        entry("big", 32768, 11_000_000_000, &[ModelRole::Reasoning, ModelRole::Coding]),
        entry("small", 32768, 4_000_000_000, &[ModelRole::Reasoning, ModelRole::Coding]),
    ];
    let roles = vec![(ModelRole::Reasoning, vec![ModelId::from("big"), ModelId::from("small")])];
    ModelRegistry::new(entries, roles).unwrap()
}

fn worker(id: &str) -> WorkerSnapshot {
    WorkerSnapshot {
        worker_id: WorkerId::from(id),
        healthy: true,
        backend: "llama_cpp".to_string(),
        backend_healthy: true,
        accelerators: vec![AcceleratorKind::Cpu],
        loaded_models: vec![],
        known_models: vec![ModelId::from("big"), ModelId::from("small")],
        queue_depth: 0,
        active_jobs: 0,
        max_queued_jobs: 16,
        available_memory_bytes: Some(20_000_000_000),
        supports_streaming: true,
        locality: WorkerLocality::Local,
        measured_generation_millitokens_per_second: None,
        measured_prompt_millitokens_per_second: None,
        priority: 0,
    }
}

fn request() -> ModelRequest {
    ModelRequest {
        request_id: RequestId::generate(),
        role: ModelRole::Reasoning,
        model: None,
        messages: vec![ModelMessage::user("hi".to_string())],
        requirements: ModelRequirements::default(),
        inputs: vec![],
    }
}

#[test]
fn selects_the_highest_scoring_eligible_placement() {
    let reg = registry();
    let mut w1 = worker("w1");
    w1.loaded_models = vec![ModelId::from("small")];
    let workers = vec![w1, worker("w2")];
    let explanation = schedule(&request(), &reg, &workers, &SchedulingOverrides::default());
    let selected = explanation.selected.unwrap();
    assert_eq!(selected.worker_id, WorkerId::from("w1"));
    assert_eq!(selected.model_id, ModelId::from("small"));
}

#[test]
fn scheduling_is_deterministic_for_identical_input() {
    let reg = registry();
    let workers = vec![worker("w2"), worker("w1")];
    let r1 = schedule(&request(), &reg, &workers, &SchedulingOverrides::default());
    let r2 = schedule(&request(), &reg, &workers, &SchedulingOverrides::default());
    assert_eq!(r1, r2);
}

#[test]
fn unhealthy_worker_is_hard_rejected() {
    let reg = registry();
    let mut w = worker("w1");
    w.healthy = false;
    let explanation = schedule(&request(), &reg, &[w], &SchedulingOverrides::default());
    assert!(explanation.selected.is_none());
    assert!(explanation
        .rejected
        .iter()
        .any(|r| r.reasons.iter().any(|m| m.contains("unhealthy"))));
}

#[test]
fn insufficient_context_is_hard_rejected() {
    let reg = registry();
    let mut req = request();
    req.requirements.minimum_context_tokens = Some(999_999);
    let explanation = schedule(&req, &reg, &[worker("w1")], &SchedulingOverrides::default());
    assert!(explanation.selected.is_none());
    assert!(explanation
        .rejected
        .iter()
        .any(|r| r.reasons.iter().any(|m| m.contains("below the required"))));
}

#[test]
fn required_accelerator_unavailable_is_hard_rejected() {
    let reg = registry();
    let mut req = request();
    req.requirements.require_accelerator = true;
    let explanation = schedule(&req, &reg, &[worker("w1")], &SchedulingOverrides::default());
    assert!(explanation.selected.is_none());
    assert!(explanation
        .rejected
        .iter()
        .any(|r| r.reasons.iter().any(|m| m.contains("accelerator is required"))));
}

#[test]
fn cpu_fallback_is_used_when_allowed_and_no_accelerator_present() {
    let reg = registry();
    let req = request();
    let explanation = schedule(&req, &reg, &[worker("w1")], &SchedulingOverrides::default());
    assert!(explanation.selected.unwrap().used_cpu_fallback);
}

#[test]
fn cpu_fallback_disabled_without_accelerator_is_rejected() {
    let reg = registry();
    let mut req = request();
    req.requirements.allow_cpu_fallback = false;
    let explanation = schedule(&req, &reg, &[worker("w1")], &SchedulingOverrides::default());
    assert!(explanation.selected.is_none());
    assert!(explanation
        .rejected
        .iter()
        .any(|r| r.reasons.iter().any(|m| m.contains("CPU fallback is not allowed"))));
}

#[test]
fn queue_full_worker_is_hard_rejected() {
    let reg = registry();
    let mut w = worker("w1");
    w.queue_depth = 16;
    w.max_queued_jobs = 16;
    let explanation = schedule(&request(), &reg, &[w], &SchedulingOverrides::default());
    assert!(explanation.selected.is_none());
    assert!(explanation
        .rejected
        .iter()
        .any(|r| r.reasons.iter().any(|m| m.contains("queue is full"))));
}

#[test]
fn streaming_required_but_unsupported_is_hard_rejected() {
    let reg = registry();
    let mut req = request();
    req.requirements.require_streaming = true;
    let mut w = worker("w1");
    w.supports_streaming = false;
    let explanation = schedule(&req, &reg, &[w], &SchedulingOverrides::default());
    assert!(explanation.selected.is_none());
}

#[test]
fn force_worker_restricts_selection_to_that_worker() {
    let reg = registry();
    let mut w1 = worker("w1");
    w1.loaded_models = vec![ModelId::from("small")];
    let workers = vec![w1, worker("w2")];
    let mut overrides = SchedulingOverrides::default();
    overrides.force_worker = Some(WorkerId::from("w2"));
    let explanation = schedule(&request(), &reg, &workers, &overrides);
    assert_eq!(explanation.selected.unwrap().worker_id, WorkerId::from("w2"));
}

#[test]
fn impossible_forced_worker_fails_clearly_rather_than_routing_elsewhere() {
    let reg = registry();
    let workers = vec![worker("w1"), worker("w2")];
    let mut overrides = SchedulingOverrides::default();
    overrides.force_worker = Some(WorkerId::from("ghost"));
    let explanation = schedule(&request(), &reg, &workers, &overrides);
    assert!(explanation.selected.is_none());
    assert_eq!(explanation.rejected.len(), 1);
    assert_eq!(explanation.rejected[0].worker_id, WorkerId::from("ghost"));
}

#[test]
fn force_model_restricts_candidate_models() {
    let reg = registry();
    let mut overrides = SchedulingOverrides::default();
    overrides.force_model = Some(ModelId::from("big"));
    let explanation = schedule(&request(), &reg, &[worker("w1")], &overrides);
    assert_eq!(explanation.selected.unwrap().model_id, ModelId::from("big"));
}

#[test]
fn explanation_display_lists_selection_and_rejections() {
    let reg = registry();
    let mut unhealthy = worker("w2");
    unhealthy.healthy = false;
    let workers = vec![worker("w1"), unhealthy];
    let explanation = schedule(&request(), &reg, &workers, &SchedulingOverrides::default());
    let text = explanation.render();
    assert!(text.starts_with("Selected w1"));
    assert!(text.contains("Rejected w2"));
}

#[test]
fn no_workers_yields_no_selection_and_no_panic() {
    let reg = registry();
    let explanation = schedule(&request(), &reg, &[], &SchedulingOverrides::default());
    assert!(explanation.selected.is_none());
    assert!(explanation.all_candidates.is_empty());
    assert_eq!(explanation.render(), "No eligible worker\n");
}

#[test]
fn zero_minimum_context_is_rejected() {
    let mut reqs = ModelRequirements::default();
    reqs.minimum_context_tokens = Some(0);
    assert!(reqs.validate().is_err());
}

#[test]
fn contradictory_accelerator_requirement_is_rejected() {
    let mut reqs = ModelRequirements::default();
    reqs.require_accelerator = true;
    reqs.preferred_accelerator = Some(AcceleratorKind::Cpu);
    assert!(reqs.validate().is_err());
}

#[test]
fn default_requirements_validate_and_allow_cpu_fallback() {
    let reqs = ModelRequirements::default();
    assert!(reqs.validate().is_ok());
    assert!(reqs.allow_cpu_fallback);
    assert!(!reqs.require_accelerator);
}

#[test]
fn generated_request_ids_are_hyphenated_uuids() {
    let a = RequestId::generate();
    let b = RequestId::generate();
    assert_eq!(a.0.len(), 36);
    assert_ne!(a, b);
    let chars: Vec<char> = a.0.chars().collect();
    for (i, c) in chars.iter().enumerate() {
        if [8, 13, 18, 23].contains(&i) {
            assert_eq!(*c, '-');
        } else {
            assert!(c.is_ascii_hexdigit() && !c.is_ascii_uppercase());
        }
    }
    assert_eq!(chars[14], '4');
    assert!(['8', '9', 'a', 'b'].contains(&chars[19]));
}

#[test]
fn duplicate_model_id_is_rejected() {
    let entries = vec![entry("m", 4096, 1, &[]), entry("m", 4096, 1, &[])];
    assert!(ModelRegistry::new(entries, vec![]).is_err());
}

#[test]
fn role_referencing_unknown_model_is_rejected() {
    let entries = vec![entry("m", 4096, 1, &[])];
    let roles = vec![(ModelRole::Coding, vec![ModelId::from("ghost")])];
    assert!(ModelRegistry::new(entries, roles).is_err());
}

#[test]
fn empty_models_section_yields_empty_registry() {
    let reg = ModelRegistry::new(vec![], vec![]).unwrap();
    assert!(reg.is_empty());
    assert_eq!(reg.len(), 0);
}

#[test]
fn registry_lookups_follow_the_declared_roles() {
    let reg = registry();
    assert_eq!(reg.get(&ModelId::from("small")).unwrap().context_tokens, Some(32768));
    assert!(reg.get(&ModelId::from("none")).is_none());
    assert_eq!(
        reg.candidates_for_role(&ModelRole::Reasoning),
        vec![ModelId::from("big"), ModelId::from("small")]
    );
    assert!(reg.candidates_for_role(&ModelRole::Embedding).is_empty());
}

#[test]
fn custom_role_names_round_trip() {
    let role = ModelRole::parse("translator");
    assert_eq!(role.name(), "translator");
    assert_eq!(ModelRole::parse("coding"), ModelRole::Coding);
}

fn sample_request() -> ModelRequest {
    ModelRequest {
        request_id: RequestId::generate(),
        role: ModelRole::Reasoning,
        model: Some(ModelSelector::Id(ModelId::from("qwen3-14b-q4"))),
        messages: vec![
            ModelMessage::system("be terse".to_string()),
            ModelMessage::user("hi".to_string()),
        ],
        requirements: ModelRequirements {
            minimum_context_tokens: Some(16384),
            preferred_accelerator: Some(AcceleratorKind::Metal),
            allow_cpu_fallback: true,
            ..ModelRequirements::default()
        },
        inputs: vec![ArtifactReference {
            step: "step1".to_string(),
            output: "output".to_string(),
            label: Some("upstream".to_string()),
        }],
    }
}

#[test]
fn valid_request_passes_validation() {
    assert!(sample_request().validate(Ok(())).is_ok());
}

#[test]
fn empty_messages_are_rejected() {
    let mut req = sample_request();
    req.messages.clear();
    assert!(req.validate(Ok(())).is_err());
}

#[test]
fn request_checks_run_messages_then_parameters_then_requirements() {
    let mut req = sample_request();
    req.requirements.minimum_context_tokens = Some(0);
    let params_rejected = Err(ModelRequestError::new("temperature", "must be a finite value in [0.0, 2.0]"));
    let e = req.validate(params_rejected).unwrap_err();
    assert_eq!(e.field, "temperature");
    let e = req.validate(Ok(())).unwrap_err();
    assert_eq!(e.field, "minimum_context_tokens");
    req.messages.clear();
    let e = req.validate(Ok(())).unwrap_err();
    assert_eq!(e.field, "messages");
    assert_eq!(e.message, "must contain at least one message");
}

#[test]
fn missing_model_file_is_unavailable_not_a_crash() {
    let reg = registry();
    let resolved = reg
        .resolve(
            &ModelId::from("big"),
            PathState::Unreadable("No such file or directory (os error 2)".to_string()),
        )
        .unwrap();
    assert!(!resolved.available);
    assert_eq!(
        resolved.unavailable_reason,
        Some("/models/big.gguf: No such file or directory (os error 2)".to_string())
    );
    assert_eq!(resolved.file_size_bytes, None);
    assert_eq!(resolved.entry.id, ModelId::from("big"));
}

#[test]
fn resolution_reports_file_size_and_accepts_model_directories() {
    let reg = registry();
    let file = reg.resolve(&ModelId::from("small"), PathState::File { size: 31 }).unwrap();
    assert!(file.available);
    assert_eq!(file.file_size_bytes, Some(31));
    assert_eq!(file.unavailable_reason, None);
    let dir = reg.resolve(&ModelId::from("small"), PathState::Directory).unwrap();
    assert!(dir.available);
    assert_eq!(dir.file_size_bytes, None);
    let other = reg.resolve(&ModelId::from("small"), PathState::Other).unwrap();
    assert!(!other.available);
    assert_eq!(
        other.unavailable_reason,
        Some("/models/small.gguf is neither a regular file nor a directory".to_string())
    );
    assert!(reg.resolve(&ModelId::from("none"), PathState::Directory).is_none());
}

#[test]
fn all_entries_resolve_in_registration_order() {
    let reg = registry();
    assert_eq!(
        reg.paths(),
        vec!["/models/big.gguf".to_string(), "/models/small.gguf".to_string()]
    );
    let all = reg.all_resolved(&vec![PathState::File { size: 5 }, PathState::Other]);
    assert_eq!(all.len(), 2);
    assert_eq!(all[0].entry.id, ModelId::from("big"));
    assert!(all[0].available);
    assert_eq!(all[1].entry.id, ModelId::from("small"));
    assert!(!all[1].available);
}
