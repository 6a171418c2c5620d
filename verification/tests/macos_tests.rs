use lao_orchestrator_core::macos_integrations::{
    KeyboardShortcuts, MenuBarManager, NotificationManager, NotificationType, PreviewType,
    QuickLookPreview, SpotlightSearchManager,
};

#[test]
fn test_menu_bar_manager() {
    let manager = MenuBarManager::new("LAO", "1.0.0", "./workflows");
    let menu = manager.get_menu_structure();
    assert_eq!(menu.app_menu.quit.label, "Quit LAO");
    assert_eq!(menu.file_menu.new_workflow.shortcut, "Cmd+N");
}

#[test]
fn test_spotlight_indexing() {
    let mut spotlight = SpotlightSearchManager::new();
    spotlight.index_workflow(
        "./workflows/test.yaml",
        "Test Workflow",
        vec!["test".to_string(), "demo".to_string()],
    );
    assert_eq!(spotlight.indexed_items.len(), 1);
    assert_eq!(spotlight.indexed_items[0].id, "workflow-test");
    assert_eq!(spotlight.indexed_items[0].description, "Workflow: Test Workflow");
}

#[test]
fn test_spotlight_search() {
    let mut spotlight = SpotlightSearchManager::new();
    spotlight.index_workflow(
        "./workflows/transcribe.yaml",
        "Audio Transcription",
        vec!["audio".to_string(), "transcribe".to_string()],
    );
    spotlight.index_plugin("WhisperPlugin", "Speech-to-text", vec!["audio".to_string()]);

    let results = spotlight.search("audio");
    assert!(results.len() >= 2);
}

#[test]
fn test_keyboard_shortcuts() {
    let shortcuts = KeyboardShortcuts::default();
    assert_eq!(shortcuts.new_workflow, "Cmd+N");
    assert_eq!(shortcuts.run_workflow, "Cmd+R");
}

#[test]
fn test_quick_look_preview() {
    let preview = QuickLookPreview {
        file_path: "./README.md".to_string(),
        preview_type: PreviewType::Markdown,
        preview_text: "# Title".to_string(),
    };
    assert_eq!(preview.preview_type, PreviewType::Markdown);
    assert_eq!(preview.to_text(), "# Title");
}

#[test]
fn test_notification_manager() {
    let mut manager = NotificationManager::new();
    manager.notify_workflow_complete("Test Workflow", 42);
    assert_eq!(manager.notifications.len(), 1);
    assert_eq!(manager.notifications[0].notification_type, NotificationType::Success);

    manager.notify_workflow_error("Failed Workflow", "Connection timeout");
    assert_eq!(manager.notifications.len(), 2);
    assert_eq!(manager.notifications[1].notification_type, NotificationType::Error);
}

#[test]
fn recorded_notifications_carry_their_time_and_text() {
    let mut manager = NotificationManager::default();
    manager.record_workflow_complete("Build", 7, 1_700_000_000, "2023-11-14T22:13:20+00:00".to_string());
    manager.record_background_task("Index", "done", -5, "t".to_string());
    let n = manager.get_notifications();
    assert_eq!(n[0].id, "workflow-complete-1700000000");
    assert_eq!(n[0].body, "Build completed in 7 seconds");
    assert_eq!(n[0].action_buttons[0].action_id, "view_results");
    assert_eq!(n[1].id, "task-update--5");
    assert_eq!(n[1].body, "Index: done");
    assert!(n[1].action_buttons.is_empty());
    manager.clear();
    assert!(manager.get_notifications().is_empty());
}

#[test]
fn search_is_case_insensitive_and_keeps_index_order() {
    let mut s = SpotlightSearchManager::default();
    s.index_plugin("ShellPlugin", "Runs COMMANDS", vec![]);
    s.index_workflow("/w/nightly.build.yml", "Nightly", vec!["Cron".to_string()]);
    s.index_workflow("/w/.hidden", "Hidden", vec![]);
    assert_eq!(s.indexed_items[0].id, "plugin-shellplugin");
    assert_eq!(s.indexed_items[1].id, "workflow-nightly.build");
    assert_eq!(s.indexed_items[2].id, "workflow-.hidden");
    assert_eq!(s.search("commands").len(), 1);
    assert_eq!(s.search("CRON")[0].title, "Nightly");
    assert!(s.search("missing").is_empty());
    let recent = s.get_recent_items(1);
    assert_eq!(recent.len(), 1);
    assert_eq!(recent[0].id, "workflow-.hidden");
    let recent = s.get_recent_items(10);
    assert_eq!(recent.len(), 2);
    assert_eq!(recent[0].id, "workflow-.hidden");
    assert_eq!(recent[1].id, "workflow-nightly.build");
    assert!(s.get_recent_items(0).is_empty());
    s.clear();
    assert!(s.indexed_items.is_empty());
}

#[test]
fn html_preview_escapes_markup() {
    let p = QuickLookPreview {
        file_path: "a".to_string(),
        preview_type: PreviewType::Text,
        preview_text: "<a href=\"x\">&</a>".to_string(),
    };
    let html = p.to_html();
    assert!(html.contains("<pre>&lt;a href=&quot;x&quot;&gt;&amp;&lt;/a&gt;</pre>"));
    assert!(html.starts_with("<html><head><style>body { font-family: monospace; padding: 10px; }"));
}

#[test]
fn truncation_keeps_the_first_lines_and_marks_the_cut() {
    let mut p = QuickLookPreview {
        file_path: "a".to_string(),
        preview_type: PreviewType::YAML,
        preview_text: "one\r\ntwo\nthree\n".to_string(),
    };
    p.truncate(3);
    assert_eq!(p.preview_text, "one\r\ntwo\nthree\n");
    p.truncate(2);
    assert_eq!(p.preview_text, "one\ntwo\n\n[Preview truncated...]");
}
