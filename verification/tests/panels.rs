use nexus_view::components::{working_directory_label, AgentProbe, ColorRole, WorkingDirectoryModel};
use nexus_view::i18n::{Language, Text};
use nexus_view::issues::{
    assignees_text, issue_actions, issue_body_text, issue_date, issue_state_text, page_controls,
    priority_text, Issue, IssueState,
};
use nexus_view::lifecycle::new_task_shows_window;
use nexus_view::review::{review_empty_text, FileStatus, ReviewFile, ReviewSection};
use nexus_view::settings::{harness_card, SettingsSection};
use nexus_view::sidebar::{
    project_click, settings_click_section, settings_status_color, update_badge, UpdateStage,
};

#[test]
fn readable_issue_dates_have_the_minute_shape() {
    let text = issue_date("2024-01-02T03:04:05+08:00");
    let c: Vec<char> = text.chars().collect();
    assert_eq!(c.len(), 16);
    assert_eq!(c[4], '-');
    assert_eq!(c[7], '-');
    assert_eq!(c[10], ' ');
    assert_eq!(c[13], ':');
    for i in [0, 1, 2, 3, 5, 6, 8, 9, 11, 12, 14, 15] {
        assert!(c[i].is_ascii_digit());
    }
    assert_eq!(issue_date("not a date"), "—");
}

#[test]
fn code_view_language_is_the_path_extension() {
    let modified = ReviewFile {
        path: "src/main.rs".into(),
        patch: "diff --git a/src/main.rs b/src/main.rs\n--- a/src/main.rs\n+++ b/src/main.rs\n@@ -1 +1 @@\n-a\n+b\n".into(),
        section: ReviewSection::Unstaged,
        status: FileStatus::Modified,
        additions: 1,
        deletions: 1,
    };
    let detail = modified.detail(Language::Chinese);
    assert_eq!(detail.title, "src/main.rs");
    assert_eq!(detail.text, "@@ -1 +1 @@\n-a\n+b\n");
    assert_eq!(detail.language, "rs");
    assert!(detail.diff);
    let notes = ReviewFile {
        path: "notes.md".into(),
        patch: "a\nb".into(),
        section: ReviewSection::Untracked,
        status: FileStatus::Added,
        additions: 2,
        deletions: 0,
    };
    let detail = notes.detail(Language::Chinese);
    assert_eq!(detail.language, "md");
    assert_eq!(detail.text, "@@ -0,0 +1,2 @@\n+a\n+b");
    let hidden = ReviewFile {
        path: "dir/.gitignore".into(),
        ..notes
    };
    assert_eq!(hidden.detail(Language::English).language, "text");
}

#[test]
fn working_directory_label_is_the_last_component() {
    for name in ["nexus", "含 空格的目录", "deep"] {
        let model = WorkingDirectoryModel {
            project_path: Some(format!("workspace/{name}")),
            selected_codex_thread: None,
            codex_threads: Vec::new(),
        };
        assert_eq!(working_directory_label(&model, Language::Chinese), name);
    }
    let trailing = WorkingDirectoryModel {
        project_path: Some("workspace/nexus/".into()),
        selected_codex_thread: None,
        codex_threads: Vec::new(),
    };
    assert_eq!(working_directory_label(&trailing, Language::English), "nexus");
    let root = WorkingDirectoryModel {
        project_path: Some("/".into()),
        selected_codex_thread: None,
        codex_threads: Vec::new(),
    };
    assert_eq!(working_directory_label(&root, Language::English), "/");
}

#[test]
fn harness_cards_offer_maintenance_only_when_idle_and_saved() {
    let card = harness_card(
        false, false, "  codex ", "codex", true, true, Some("1.2.3".into()), true, true, 2,
        Language::Chinese,
    );
    assert!(!card.actions_disabled);
    assert_eq!(card.version, "1.2.3");
    assert!(card.show_copy_command && card.show_update && card.show_install);
    assert!(!card.rescan_disabled);
    let unsaved = harness_card(
        false, false, "codex2", "codex", true, true, None, true, false, 0, Language::Chinese,
    );
    assert!(unsaved.actions_disabled);
    assert!(!unsaved.rescan_disabled);
    assert_eq!(unsaved.version, "版本未知");
    assert!(unsaved.show_copy_command && !unsaved.show_update && !unsaved.show_install);
    let busy = harness_card(
        true, false, "codex", "codex", false, false, None, false, false, 0, Language::Chinese,
    );
    assert!(busy.actions_disabled && busy.rescan_disabled);
    assert_eq!(busy.version, "尚未扫描");
    let missing = harness_card(
        false, true, "codex", "codex", true, false, None, false, false, 1, Language::English,
    );
    assert!(missing.actions_disabled && missing.rescan_disabled);
    assert_eq!(missing.version, "Not installed");
    assert!(!missing.show_copy_command && missing.show_install);
}

#[test]
fn issue_actions_follow_state_and_progress() {
    let open = issue_actions(false, false, true, false, true, false);
    assert_eq!(open.target, IssueState::Closed);
    assert_eq!(open.state_label, Text::CloseIssue);
    assert!(open.chat_enabled && open.assign_enabled && open.state_enabled);
    assert!(open.npc_shown && open.npc_enabled);
    let closed = issue_actions(true, false, false, false, false, true);
    assert_eq!(closed.target, IssueState::Open);
    assert_eq!(closed.state_label, Text::ReopenIssue);
    assert!(!closed.chat_enabled);
    assert!(!closed.npc_shown && !closed.npc_enabled);
    let loading = issue_actions(false, false, true, true, true, false);
    assert!(!loading.chat_enabled && loading.npc_enabled);
    let busy = issue_actions(false, true, true, false, true, false);
    assert!(!busy.chat_enabled && !busy.assign_enabled && !busy.state_enabled && !busy.npc_enabled);
}

#[test]
fn pager_counts_pages_and_offers_neighbours() {
    let first = page_controls(45, 1, 20, false, false, Language::Chinese);
    assert_eq!(first.pages, 3);
    assert_eq!(first.text, "第 1 / 3 页");
    assert!(!first.previous_enabled && first.next_enabled);
    assert!(first.pages >= 2);
    let second = page_controls(45, 2, 20, false, false, Language::English);
    assert!(second.next_enabled && second.pages >= 3);
    let last = page_controls(45, 3, 20, false, false, Language::English);
    assert_eq!(last.text, "Page 3 of 3");
    assert!(last.previous_enabled && !last.next_enabled);
    let exact = page_controls(40, 2, 20, false, false, Language::English);
    assert_eq!(exact.pages, 2);
    assert!(!exact.next_enabled);
    let beyond = page_controls(0, 4, 20, false, false, Language::English);
    assert_eq!(beyond.pages, 4);
    let loading = page_controls(45, 2, 20, true, false, Language::English);
    assert!(!loading.previous_enabled && !loading.next_enabled);
    let no_cursor = page_controls(45, 1, 20, false, true, Language::English);
    assert!(!no_cursor.next_enabled);
    let huge = page_controls(usize::MAX, usize::MAX, 2, false, false, Language::English);
    assert!(!huge.next_enabled);
}

#[test]
fn issue_detail_fields_fall_back_when_empty() {
    assert_eq!(assignees_text(&[], Language::Chinese), "未分配");
    assert_eq!(assignees_text(&["ann".to_string()], Language::English), "ann");
    assert_eq!(
        assignees_text(&["ann".to_string(), "bo".to_string(), "cy".to_string()], Language::English),
        "ann, bo, cy"
    );
    assert_eq!(priority_text(""), "—");
    assert_eq!(priority_text("P1"), "P1");
    assert_eq!(issue_state_text(&Issue { state: "closed".into() }), Text::IssueClosed);
    assert_eq!(issue_state_text(&Issue { state: "open".into() }), Text::IssueOpen);
    assert_eq!(issue_body_text(" \n ", Language::Chinese), "此 Issue 暂无描述。");
    assert_eq!(issue_body_text("Fix it", Language::Chinese), "Fix it");
}

#[test]
fn sidebar_rows_badges_and_settings_entry() {
    let other = project_click(false, true);
    assert!(other.select && !other.collapsed);
    let fold = project_click(true, false);
    assert!(!fold.select && fold.collapsed);
    let open = project_click(true, true);
    assert!(!open.select && !open.collapsed);
    assert_eq!(update_badge(None), None);
    assert_eq!(update_badge(Some(UpdateStage::Available)), Some(Text::UpdateAvailable));
    assert_eq!(update_badge(Some(UpdateStage::Downloading)), Some(Text::DownloadingUpdate));
    assert_eq!(update_badge(Some(UpdateStage::Ready)), Some(Text::WaitingToInstall));
    assert_eq!(update_badge(Some(UpdateStage::Installing)), Some(Text::InstallingUpdate));
    assert_eq!(settings_status_color(None), ColorRole::Muted);
    let ready = AgentProbe { available: true, authenticated: true };
    assert_eq!(settings_status_color(Some(ready)), ColorRole::Success);
    let signed_out = AgentProbe { available: true, authenticated: false };
    assert_eq!(settings_status_color(Some(signed_out)), ColorRole::Warning);
    assert_eq!(settings_click_section(true, SettingsSection::Agent), SettingsSection::General);
    assert_eq!(settings_click_section(false, SettingsSection::Agent), SettingsSection::Agent);
}

#[test]
fn review_notes_and_new_task_window() {
    assert_eq!(review_empty_text(true, false, true), Text::ReadingChanges);
    assert_eq!(review_empty_text(false, false, true), Text::DiffUnavailable);
    assert_eq!(review_empty_text(false, true, true), Text::NoChanges);
    assert_eq!(review_empty_text(false, false, false), Text::NoChanges);
    assert!(new_task_shows_window(true));
    assert!(!new_task_shows_window(false));
}
