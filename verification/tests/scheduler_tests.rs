use lao_orchestrator_core::scheduler::{
    calculate_next_run, combine_run_results, lock_is_stale, next_run_in_range, parse_simple_cron,
    WorkflowScheduler,
};
use lao_orchestrator_core::workflow_state::{
    WorkflowSchedule, WorkflowState, WorkflowStateManager, WorkflowStatus,
};

const NOW: u64 = 1_700_000_000;

fn make_schedule(cron: &str, enabled: bool) -> WorkflowSchedule {
    WorkflowSchedule {
        cron_expression: Some(cron.to_string()),
        next_run: None,
        enabled,
        max_runs: None,
        run_count: 0,
    }
}

fn scheduler() -> WorkflowScheduler {
    WorkflowScheduler::new("states".to_string(), vec![], NOW)
}

#[test]
fn test_schedule_and_list_workflow() {
    let mut s = scheduler();
    s.schedule_workflow("wf-1".to_string(), "test.yaml".to_string(), make_schedule("interval:30", true), NOW)
        .unwrap();
    let listed = s.list_scheduled_workflows();
    assert_eq!(listed.len(), 1);
    assert_eq!(listed[0].0, "wf-1");
    assert_eq!(listed[0].1.workflow_path, "test.yaml");
}

#[test]
fn test_unschedule_workflow() {
    let mut s = scheduler();
    s.schedule_workflow("wf-1".to_string(), "test.yaml".to_string(), make_schedule("interval:10", true), NOW)
        .unwrap();
    assert_eq!(s.list_scheduled_workflows().len(), 1);
    s.unschedule_workflow("wf-1");
    assert_eq!(s.list_scheduled_workflows().len(), 0);
    assert!(s.get_workflow_history("wf-1").is_none());
}

#[test]
fn test_parse_simple_cron_interval() {
    let next = calculate_next_run(&make_schedule("interval:60", true), NOW);
    assert!(next.is_ok());
    let diff = next.unwrap() - NOW;
    assert!(diff >= 3550 && diff <= 3650);
    assert_eq!(diff, 3600);
}

#[test]
fn test_parse_simple_cron_daily() {
    let next = calculate_next_run(&make_schedule("daily:10:30", true), NOW);
    assert!(next.is_ok());
    let diff = next.unwrap() - NOW;
    assert!(diff >= 86000 && diff <= 86800);
}

#[test]
fn test_parse_simple_cron_weekly() {
    let next = calculate_next_run(&make_schedule("weekly:Mon:09:00", true), NOW);
    assert_eq!(next, Ok(NOW + 604800));
}

#[test]
fn test_parse_invalid_cron() {
    let result = calculate_next_run(&make_schedule("garbage", true), NOW);
    assert_eq!(result.unwrap_err(), "Invalid cron expression format: garbage");
}

#[test]
fn test_parse_invalid_interval_value() {
    let result = calculate_next_run(&make_schedule("interval:abc", true), NOW);
    assert_eq!(result.unwrap_err(), "Invalid interval minutes: abc");
}

#[test]
fn test_no_cron_defaults_to_one_hour() {
    let schedule = WorkflowSchedule {
        cron_expression: None,
        next_run: None,
        enabled: true,
        max_runs: None,
        run_count: 0,
    };
    assert_eq!(calculate_next_run(&schedule, NOW).unwrap(), NOW + 3600);
}

#[test]
fn cron_numbers_are_checked() {
    assert_eq!(parse_simple_cron("daily:x:30", NOW).unwrap_err(), "Invalid hour: x");
    assert_eq!(parse_simple_cron("daily:10:99999999999", NOW).unwrap_err(), "Invalid minute: 99999999999");
    assert_eq!(parse_simple_cron("interval:+2", NOW), Ok(NOW + 120));
    assert!(parse_simple_cron("interval:-2", NOW).is_err());
    assert!(parse_simple_cron("interval:", NOW).is_err());
    assert!(parse_simple_cron("interval:1:2", NOW).is_err());
    assert!(next_run_in_range(&make_schedule("interval:1", true), NOW));
    assert!(!next_run_in_range(&make_schedule("interval:18446744073709551615", true), NOW));
}

#[test]
fn test_get_due_workflows() {
    let mut s = scheduler();
    s.schedule_workflow("wf-due".to_string(), "test.yaml".to_string(), make_schedule("interval:1", true), NOW)
        .unwrap();
    assert_eq!(s.get_due_workflows(NOW).len(), 0);
    let due = s.get_due_workflows(NOW + 120);
    assert_eq!(due.len(), 1);
    assert_eq!(due[0], "wf-due");
}

#[test]
fn test_disabled_workflows_not_due() {
    let mut s = scheduler();
    s.schedule_workflow("wf-off".to_string(), "test.yaml".to_string(), make_schedule("interval:1", false), NOW)
        .unwrap();
    assert_eq!(s.get_due_workflows(NOW + 120).len(), 0);
}

#[test]
fn test_update_workflow_run_increments_count() {
    let mut s = scheduler();
    s.schedule_workflow("wf-1".to_string(), "test.yaml".to_string(), make_schedule("interval:10", true), NOW)
        .unwrap();
    let saved = s.update_workflow_run("wf-1", NOW + 5).unwrap().unwrap();
    let listed = s.list_scheduled_workflows();
    assert_eq!(listed[0].1.schedule.run_count, 1);
    assert_eq!(listed[0].1.last_run, Some(NOW + 5));
    assert_eq!(listed[0].1.next_run, NOW + 5 + 600);
    assert_eq!(saved.completed_at, Some(NOW + 5));
    assert_eq!(saved.schedule.unwrap().run_count, 1);
    assert_eq!(s.update_workflow_run("unknown", NOW), Ok(None));
}

#[test]
fn test_max_runs_disables_workflow() {
    let mut s = scheduler();
    let mut schedule = make_schedule("interval:10", true);
    schedule.max_runs = Some(2);
    s.schedule_workflow("wf-max".to_string(), "test.yaml".to_string(), schedule, NOW).unwrap();
    s.update_workflow_run("wf-max", NOW).unwrap();
    assert!(s.list_scheduled_workflows()[0].1.schedule.enabled);
    s.update_workflow_run("wf-max", NOW).unwrap();
    assert!(!s.list_scheduled_workflows()[0].1.schedule.enabled);
}

#[test]
fn test_workflow_state_persisted() {
    let mut s = scheduler();
    let state = s
        .schedule_workflow("wf-persist".to_string(), "test.yaml".to_string(), make_schedule("interval:30", true), NOW)
        .unwrap();
    assert_eq!(state.workflow_name, "Scheduled Workflow");
    let history = s.get_workflow_history("wf-persist");
    assert!(history.is_some());
    assert!(matches!(history.unwrap().status, WorkflowStatus::Scheduled));
}

#[test]
fn test_scheduled_workflows_reload_from_disk() {
    let mut first = scheduler();
    let saved = first
        .schedule_workflow("wf-reload".to_string(), "test.yaml".to_string(), make_schedule("interval:30", true), NOW)
        .unwrap();
    let second = WorkflowScheduler::new("states".to_string(), vec![saved], NOW + 10);
    let listed = second.list_scheduled_workflows();
    assert_eq!(listed.len(), 1);
    assert_eq!(listed[0].0, "wf-reload");
    assert_eq!(listed[0].1.workflow_path, "test.yaml");
    assert_eq!(listed[0].1.next_run, NOW + 1800);
}

#[test]
fn failed_run_and_update_errors_are_joined() {
    assert_eq!(combine_run_results(Ok(vec![]), Ok(())), Ok(vec![]));
    assert_eq!(combine_run_results(Err("run".to_string()), Ok(())), Err("run".to_string()));
    assert_eq!(combine_run_results(Ok(vec![]), Err("upd".to_string())), Err("upd".to_string()));
    assert_eq!(combine_run_results(Err("a".to_string()), Err("b".to_string())), Err("a; b".to_string()));
}

#[test]
fn lock_staleness_is_an_hour() {
    assert!(!lock_is_stale(None));
    assert!(!lock_is_stale(Some(3600)));
    assert!(lock_is_stale(Some(3601)));
}

fn make_state(id: &str, status: WorkflowStatus) -> WorkflowState {
    let mut state = WorkflowState::new(id.to_string(), format!("Workflow {}", id), 2);
    state.status = status;
    state
}

#[test]
fn test_create_and_load_state() {
    let mut manager = WorkflowStateManager::empty("states".to_string());
    manager.save_state(&make_state("wf-1", WorkflowStatus::Running));
    let loaded = manager.get_state("wf-1").unwrap();
    assert_eq!(loaded.workflow_id, "wf-1");
    assert!(matches!(loaded.status, WorkflowStatus::Running));
}

#[test]
fn test_load_nonexistent_state() {
    let manager = WorkflowStateManager::empty("states".to_string());
    assert!(manager.get_state("nonexistent").is_none());
}

#[test]
fn test_delete_state() {
    let mut manager = WorkflowStateManager::empty("states".to_string());
    manager.save_state(&make_state("wf-del", WorkflowStatus::Completed));
    assert_eq!(manager.list_states().len(), 1);
    manager.delete_state("wf-del");
    assert_eq!(manager.list_states().len(), 0);
    assert!(manager.get_state("wf-del").is_none());
}

#[test]
fn test_delete_nonexistent_state_is_ok() {
    let mut manager = WorkflowStateManager::empty("states".to_string());
    manager.delete_state("nope");
    assert_eq!(manager.list_states().len(), 0);
}

#[test]
fn test_list_states() {
    let mut manager = WorkflowStateManager::empty("states".to_string());
    manager.save_state(&make_state("a", WorkflowStatus::Pending));
    manager.save_state(&make_state("b", WorkflowStatus::Running));
    manager.save_state(&make_state("c", WorkflowStatus::Completed));
    assert_eq!(manager.list_states().len(), 3);
}

#[test]
fn test_list_active_workflows() {
    let mut manager = WorkflowStateManager::empty("states".to_string());
    manager.save_state(&make_state("a", WorkflowStatus::Pending));
    manager.save_state(&make_state("b", WorkflowStatus::Running));
    manager.save_state(&make_state("c", WorkflowStatus::Completed));
    manager.save_state(&make_state("d", WorkflowStatus::Failed));
    assert_eq!(manager.list_active_workflows().len(), 2);
}

#[test]
fn test_list_scheduled_workflows() {
    let mut manager = WorkflowStateManager::empty("states".to_string());
    manager.save_state(&make_state("a", WorkflowStatus::Scheduled));
    manager.save_state(&make_state("b", WorkflowStatus::Running));
    let scheduled = manager.list_scheduled_workflows();
    assert_eq!(scheduled.len(), 1);
    assert_eq!(scheduled[0].workflow_id, "a");
}

#[test]
fn test_persistence_across_instances() {
    let mut first = WorkflowStateManager::empty("states".to_string());
    first.save_state(&make_state("persist", WorkflowStatus::Running));
    let second = WorkflowStateManager::new("states".to_string(), first.list_states());
    assert_eq!(second.list_states().len(), 1);
    assert_eq!(second.list_states()[0].workflow_id, "persist");
    assert_eq!(second.state_dir(), "states");
}

#[test]
fn test_cleanup_old_states() {
    let mut manager = WorkflowStateManager::empty("states".to_string());
    let mut old_state = make_state("old", WorkflowStatus::Completed);
    old_state.completed_at = Some(NOW - 48 * 3600);
    manager.save_state(&old_state);
    let mut recent_state = make_state("recent", WorkflowStatus::Completed);
    recent_state.completed_at = Some(NOW);
    manager.save_state(&recent_state);
    manager.save_state(&make_state("running", WorkflowStatus::Running));
    let removed = manager.cleanup_old_states(NOW, 24);
    assert_eq!(removed, vec!["old".to_string()]);
    assert_eq!(manager.list_states().len(), 2);
}

#[test]
fn test_overwrite_existing_state() {
    let mut manager = WorkflowStateManager::empty("states".to_string());
    let mut state = make_state("wf-1", WorkflowStatus::Running);
    manager.save_state(&state);
    state.status = WorkflowStatus::Completed;
    state.completed_at = Some(NOW);
    manager.save_state(&state);
    let loaded = manager.get_state("wf-1").unwrap();
    assert!(matches!(loaded.status, WorkflowStatus::Completed));
    assert_eq!(manager.list_states().len(), 1);
}
