use nexus_view::catalog::{
    catalog_follow_default_item, catalog_model_row_title, catalog_model_trigger_title,
    find_default_model, find_model_by_id, AppModel, CatalogModelChoice, CatalogModelItem,
    ModelAvailability, ModelCatalogState, ModelDescriptor,
};
use nexus_view::components::{
    can_send_prompt, composer_hint, disclosure_label, label_value, message_indicator,
    message_label, message_layout, run_status_color, MessageRole,
    workspace_header, working_directory_label, working_directory_label_for, AgentProbe,
    ColorRole, ComposerModel, HeaderModel, HeaderStatusKind, MessageKind, RunStatus,
    ThreadSummary, WorkingDirectoryModel,
};
use nexus_view::fonts::{font_choices, FontSettings};
use nexus_view::i18n::{Language, Text};
use nexus_view::issues::{
    compose_issue_prompt, issue_color, issue_date, issue_date_text, issue_label, Issue, Label,
};
use nexus_view::lifecycle::{
    delete_archived_prompt, delete_task_prompt, quit_action, quit_confirmed, quit_message,
    quit_shows_window, should_close_window, toggle_window, CloseEffect, ClosePlatform, QuitAction,
    TaskEntry, WindowAction,
};
use nexus_view::media::{bare_url, link_label, split_media_paragraph, ParagraphChild, Part};
use nexus_view::picker::{
    provider_groups, CatalogModelGroup, CatalogModelSelectContent, IndexPath, ModelPickerList,
};
use nexus_view::player::{escape_html, media_mime, player_html, MediaKind};
use nexus_view::review::{
    decode_path, patch_files, patch_path, review_files, review_heading, review_path_parts,
    section_headers, selected_file, FileStatus, MergePlan, ReviewFile, ReviewSection,
    SectionHeader, WorkspaceReview,
};
use nexus_view::search::{can_manage_task, empty_task_list_text, matches_search, search_filter};
use nexus_view::settings::{
    masked_token, profile_form_draft, provider_environment_defaults, HarnessKind, ProviderProfile,
    SettingsIcon, SettingsSection,
};
use nexus_view::text::{chars_less, decimal_chars, find, is_white_space, trim_chars};
use nexus_view::webview::{pdf_close_request, pdf_navigation_allowed, player_navigation_allowed};
use nexus_view::theme::{
    system_accessibility, AppearanceSettings, Palette, ResolvedAppearance, SystemAccessibility,
    ThemePreference, WindowAppearance, WindowBackground,
};

fn chars(s: &str) -> Vec<char> {
    s.chars().collect()
}

fn omp_model(provider: &str, id: &str) -> ModelDescriptor {
    ModelDescriptor {
        id: id.into(),
        display_name: "Shared Model".into(),
        provider: Some(provider.into()),
        availability: ModelAvailability::Available,
        is_default: false,
    }
}

fn app_model(catalog: ModelCatalogState) -> AppModel {
    AppModel {
        language: Language::Chinese,
        harness_name: "OMP".into(),
        selected_project: false,
        profile_model: None,
        model_override: None,
        model_override_name: None,
        model_catalog: catalog,
    }
}

fn is_model(choice: &CatalogModelChoice, id: &str) -> bool {
    matches!(choice, CatalogModelChoice::Model(m) if m == id)
}

fn titles(groups: &[CatalogModelGroup]) -> Vec<&str> {
    groups.iter().map(|group| group.title.as_str()).collect()
}

// ---- required scenarios ----

#[test]
fn cnb_player_embeds_controls_and_escapes_untrusted_urls() {
    let html = player_html(
        "https://example.test/video.mp4?a=\"<script>&b=1",
        MediaKind::Video,
        Language::Chinese,
    );
    assert!(html.contains("<video controls playsinline preload=\"metadata\""));
    assert!(html.contains("&quot;&lt;script&gt;&amp;b=1"));
    assert!(!html.contains("autoplay"));
    assert!(!html.contains("<script>&b=1"));
    assert!(
        player_html(
            "https://example.test/a.mp3",
            MediaKind::Audio,
            Language::English
        )
        .contains("<audio controls")
    );
}

#[test]
fn search_accepts_case_insensitive_titles_chinese_and_surrounding_spaces() {
    assert!(matches_search("Fix Runner output", " RUNNER "));
    assert!(matches_search("优化会话交互", "会话"));
    assert!(matches_search("any session", "  "));
    assert!(!matches_search("Fix Runner output", "storage"));
}

// ---- scenarios of the application, on the library's own model ----

#[test]
fn composer_rejects_blank_prompts_read_only_history_and_busy_or_unready_agents() {
    let mut model = ComposerModel {
        can_submit: true,
        selected_codex_thread: None,
    };
    assert!(can_send_prompt(&model, "检查当前项目"));
    for prompt in ["", "  ", "\n\t", "\u{3000}"] {
        assert!(!can_send_prompt(&model, prompt));
    }
    model.selected_codex_thread = Some("read-only-thread".into());
    assert!(!can_send_prompt(&model, "检查当前项目"));
    model.selected_codex_thread = None;
    model.can_submit = false;
    assert!(!can_send_prompt(&model, "检查当前项目"));
}

#[test]
fn working_directory_labels_preserve_paths_and_localize_empty_states() {
    let mut model = WorkingDirectoryModel {
        project_path: None,
        selected_codex_thread: None,
        codex_threads: Vec::new(),
    };
    for (language, no_directory, unknown) in [
        (Language::Chinese, "未选择目录", "未知目录"),
        (
            Language::English,
            "No directory selected",
            "Unknown directory",
        ),
    ] {
        model.project_path = None;
        model.selected_codex_thread = None;
        assert_eq!(working_directory_label(&model, language), no_directory);
        let long_name = "中文 long directory ".repeat(30);
        for name in ["nexus", "含 空格的目录", long_name.as_str()] {
            let path = std::path::Path::new("workspace")
                .join(name)
                .display()
                .to_string();
            model.project_path = Some(path.clone());
            assert_eq!(working_directory_label(&model, language), name);
            assert_eq!(model.working_directory(), Some(path.as_str()));
        }
        model.project_path = Some("/".into());
        assert_eq!(working_directory_label(&model, language), "/");

        model.selected_codex_thread = Some("history".into());
        assert_eq!(working_directory_label(&model, language), unknown);
        model.codex_threads = vec![ThreadSummary {
            id: "history".into(),
            cwd: std::path::Path::new("history")
                .join("独立目录")
                .display()
                .to_string(),
        }];
        assert_eq!(working_directory_label(&model, language), "独立目录");
        model.codex_threads[0].cwd.clear();
        assert_eq!(working_directory_label(&model, language), unknown);
        assert_eq!(model.working_directory(), None);
        model.codex_threads.clear();
    }
}

#[test]
fn catalog_content_groups_providers_and_searches_provider_name_and_full_id() {
    let mut model = app_model(ModelCatalogState::Ready(vec![
        omp_model("openai", "openai/shared-model"),
        omp_model("bigmodel", "bigmodel/shared-model"),
    ]));
    model.model_override = Some("bigmodel/shared-model".into());

    let content = CatalogModelSelectContent::from_model(&model);
    assert_eq!(titles(&content.groups), vec!["默认", "bigmodel", "openai"]);
    let bigmodel = &content.groups[1].items[0];
    assert!(bigmodel.matches("BIGMODEL"));
    assert!(bigmodel.matches("shared model"));
    assert!(bigmodel.matches("bigmodel/shared-model"));
    assert!(is_model(&bigmodel.choice, "bigmodel/shared-model"));
    assert!(is_model(
        &content.groups[2].items[0].choice,
        "openai/shared-model"
    ));
    assert!(content.selected_index().is_some());
}

#[test]
fn catalog_content_keeps_an_unavailable_full_selector_visible() {
    let mut model = app_model(ModelCatalogState::Ready(vec![omp_model(
        "public-provider",
        "public-provider/custom-model",
    )]));
    model.model_override = Some("private-provider/custom-model".into());

    let content = CatalogModelSelectContent::from_model(&model);
    let current = &content.groups[1];
    assert_eq!(current.title, "当前选择");
    assert!(current.items[0].disabled);
    assert!(is_model(
        &current.items[0].choice,
        "private-provider/custom-model"
    ));
    assert!(current.items[0].title.contains("不可用"));
    assert!(content.selected_index().is_some());
}

#[test]
fn picker_distinguishes_catalog_states_and_does_not_confuse_default_with_override() {
    let mut default = omp_model("provider", "default-model");
    default.is_default = true;
    let mut explicit = omp_model("provider", "explicit-model");
    explicit.display_name = "Chosen display name".into();
    let mut model = app_model(ModelCatalogState::Ready(vec![default, explicit]));
    model.model_override = Some("explicit-model".into());
    model.model_override_name = Some("Chosen display name".into());
    let content = CatalogModelSelectContent::from_model(&model);
    assert!(content.groups[0].items[0].title.contains("default-model"));
    assert!(!content.groups[0].items[0].title.contains("explicit-model"));
    for (state, status) in [
        (ModelCatalogState::Idle, "选择项目"),
        (ModelCatalogState::Loading { models: vec![] }, "正在加载"),
        (ModelCatalogState::Empty, "目录为空"),
        (
            ModelCatalogState::Failed {
                message: "test failure".into(),
                models: vec![],
            },
            "test failure",
        ),
        (
            ModelCatalogState::NotReady("CLI not ready".into()),
            "CLI not ready",
        ),
    ] {
        model.model_catalog = state;
        let content = CatalogModelSelectContent::from_model(&model);
        let items = content
            .groups
            .iter()
            .flat_map(|group| &group.items)
            .collect::<Vec<_>>();
        assert!(items.iter().any(|item| item.title.contains(status)));
        assert!(
            items
                .iter()
                .any(|item| item.disabled && item.title.contains("Chosen display name"))
        );
    }
    let mut default = omp_model("provider", "default-model");
    default.is_default = true;
    default.availability = ModelAvailability::Unavailable {
        reason: "disabled by provider".into(),
    };
    model.model_catalog = ModelCatalogState::Ready(vec![default]);
    model.model_override = None;
    let content = CatalogModelSelectContent::from_model(&model);
    let default = &content.groups[0].items[0];
    assert!(default.title.contains("disabled by provider"));
    assert!(default.trigger_title.contains("不可用"));
}

#[test]
fn quitting_while_tasks_run_confirms_before_stopping_them() {
    assert_eq!(quit_action(1), QuitAction::Confirm);
    assert_eq!(
        quit_message(Language::Chinese, 1),
        "有 1 个任务正在运行，退出 Nexus Agent 会立即中断它们。"
    );
    assert!(Language::Chinese
        .text(Text::QuitDetail)
        .contains("正在运行的任务会被停止"));
    assert!(quit_confirmed(Some(0)));
    assert!(!quit_confirmed(Some(1)));
    assert!(!quit_confirmed(None));
}

#[test]
fn quitting_without_running_tasks_needs_no_confirmation() {
    assert_eq!(quit_action(0), QuitAction::Shutdown);
    assert!(!quit_shows_window(0, true));
}

#[test]
fn closing_the_main_window_on_windows_confirms_while_tasks_run() {
    assert_eq!(
        should_close_window(ClosePlatform::Windows, 0),
        (true, CloseEffect::Nothing)
    );
    assert_eq!(
        should_close_window(ClosePlatform::Windows, 2),
        (false, CloseEffect::AskToQuit)
    );
    assert_eq!(
        should_close_window(ClosePlatform::MacOs, 0),
        (false, CloseEffect::Hide)
    );
    assert_eq!(
        should_close_window(ClosePlatform::MacOs, 3),
        (false, CloseEffect::Hide)
    );
}

// ---- text utilities ----

#[test]
fn character_order_follows_code_points() {
    assert!(chars_less(&chars("bigmodel"), &chars("openai")));
    assert!(!chars_less(&chars("openai"), &chars("bigmodel")));
    assert!(chars_less(&chars("open"), &chars("openai")));
    assert!(!chars_less(&chars("openai"), &chars("openai")));
    assert!(chars_less(&chars("Zeta"), &chars("alpha")));
    assert!(chars_less(&chars(""), &chars("a")));
}

#[test]
fn trimming_and_finding_characters() {
    assert_eq!(trim_chars(&chars("\u{3000} a b \n")), chars("a b"));
    assert_eq!(trim_chars(&chars("   ")), Vec::<char>::new());
    assert_eq!(find(&chars("abcabc"), &chars("ca")), Some(2));
    assert_eq!(find(&chars("abc"), &chars("")), Some(0));
    assert_eq!(find(&chars("abc"), &chars("x")), None);
    assert_eq!(decimal_chars(0), chars("0"));
    assert_eq!(decimal_chars(1207), chars("1207"));
}

// ---- picker ----

#[test]
fn provider_sections_are_sorted_and_fall_back_to_the_harness_name() {
    let mut unnamed = omp_model("x", "local-model");
    unnamed.provider = None;
    let models = vec![
        omp_model("zeta", "zeta/a"),
        unnamed,
        omp_model("alpha", "alpha/a"),
        omp_model("zeta", "zeta/b"),
    ];
    let groups = provider_groups(&models, "Codex", Language::English);
    assert_eq!(titles(&groups), vec!["Codex", "alpha", "zeta"]);
    assert_eq!(groups[2].items.len(), 2);
    assert!(is_model(&groups[2].items[0].choice, "zeta/a"));
    assert!(is_model(&groups[2].items[1].choice, "zeta/b"));
    assert!(provider_groups(&[], "OMP", Language::English).is_empty());
}

#[test]
fn model_rows_describe_name_provider_and_availability() {
    let mut model = omp_model("openai", "openai/gpt");
    model.display_name = "GPT".into();
    assert_eq!(catalog_model_trigger_title(&model), "openai · GPT");
    assert_eq!(catalog_model_row_title(&model), "GPT · openai/gpt");
    let item = CatalogModelItem::model(&model, Language::English);
    assert_eq!(item.detail, "GPT · openai/gpt");
    assert_eq!(item.search_text, "openai GPT openai/gpt");
    assert!(!item.disabled);
    model.availability = ModelAvailability::Unknown;
    let item = CatalogModelItem::model(&model, Language::English);
    assert_eq!(item.detail, "GPT · openai/gpt · Unverified");
    model.availability = ModelAvailability::Unavailable {
        reason: "quota".into(),
    };
    let item = CatalogModelItem::model(&model, Language::Chinese);
    assert_eq!(item.trigger_title, "openai · GPT · 不可用");
    assert!(item.disabled);
    model.provider = None;
    model.display_name = "openai/gpt".into();
    assert_eq!(catalog_model_row_title(&model), "openai/gpt");
    assert_eq!(catalog_model_trigger_title(&model), "openai/gpt");
}

#[test]
fn unlisted_and_status_rows_are_disabled() {
    let row = CatalogModelItem::unavailable(
        "m",
        None,
        &ModelCatalogState::Loading { models: vec![] },
        Language::English,
    );
    assert_eq!(row.title, "m · Verifying");
    assert_eq!(row.detail, "m · Verifying");
    assert_eq!(row.search_text, "m m Verifying");
    assert!(row.disabled);
    let row = CatalogModelItem::status("busy".into());
    assert!(row.disabled);
    assert!(matches!(&row.choice, CatalogModelChoice::Status(t) if t == "busy"));
    let row = CatalogModelItem::follow_default("a".into(), "b".into(), "c".into());
    assert_eq!(row.detail, "a");
    assert!(!row.disabled);
    assert!(matches!(row.choice, CatalogModelChoice::FollowDefault));
}

#[test]
fn default_row_follows_profile_then_catalog_then_cli() {
    let mut default = omp_model("p", "d");
    default.is_default = true;
    let mut model = app_model(ModelCatalogState::Ready(vec![omp_model("p", "x"), default]));
    model.language = Language::English;
    let row = catalog_follow_default_item(&model);
    assert_eq!(row.title, "Follow CLI default · Shared Model · d");
    assert_eq!(row.trigger_title, "CLI default · p · Shared Model");
    assert_eq!(row.search_text, "default 默认 cli Shared Model d");
    model.profile_model = Some("x".into());
    let row = catalog_follow_default_item(&model);
    assert_eq!(row.title, "Follow profile default · Shared Model · x");
    assert_eq!(row.search_text, "default 默认 profile Shared Model x");
    model.profile_model = Some("missing".into());
    let row = catalog_follow_default_item(&model);
    assert_eq!(row.title, "Follow profile default · missing (not in the catalog)");
    assert_eq!(row.trigger_title, "Default · missing · not in the catalog");
    model.language = Language::Chinese;
    let row = catalog_follow_default_item(&model);
    assert_eq!(row.title, "跟随 Profile 默认 · missing（目录未验证）");
    model.profile_model = None;
    model.model_catalog = ModelCatalogState::NotReady("x".into());
    let row = catalog_follow_default_item(&model);
    assert_eq!(row.title, "跟随 CLI 默认模型");
    assert_eq!(row.trigger_title, "CLI 默认模型 · 未就绪");
    model.model_catalog = ModelCatalogState::Idle;
    assert_eq!(catalog_follow_default_item(&model).trigger_title, "CLI 默认模型");
}

#[test]
fn models_are_found_first_by_id_and_by_default_mark() {
    let mut second = omp_model("p", "a");
    second.display_name = "second".into();
    second.is_default = true;
    let models = vec![omp_model("p", "a"), second, omp_model("p", "b")];
    assert_eq!(find_model_by_id(&models, "a"), Some(0));
    assert_eq!(find_model_by_id(&models, "b"), Some(2));
    assert_eq!(find_model_by_id(&models, "c"), None);
    assert_eq!(find_default_model(&models), Some(1));
    assert_eq!(find_default_model(&models[2..]), None);
    let stale = ModelCatalogState::Failed {
        message: "m".into(),
        models: vec![omp_model("p", "a")],
    };
    assert_eq!(stale.models().len(), 1);
    assert!(ModelCatalogState::Empty.models().is_empty());
}

#[test]
fn status_rows_report_every_catalog_state() {
    let mut model = app_model(ModelCatalogState::Idle);
    model.language = Language::English;
    let last_title = |model: &AppModel| {
        let content = CatalogModelSelectContent::from_model(model);
        let last = content.groups.last().unwrap();
        (last.title.clone(), last.items[0].title.clone())
    };
    assert_eq!(
        last_title(&model),
        (
            "Status".to_string(),
            "Select a project to load the model catalog".to_string()
        )
    );
    model.selected_project = true;
    assert_eq!(
        last_title(&model).1,
        "The model catalog has not been loaded"
    );
    model.model_catalog = ModelCatalogState::Failed {
        message: "boom".into(),
        models: vec![omp_model("p", "m")],
    };
    assert_eq!(last_title(&model).1, "Failed to load the model catalog: boom");
    let content = CatalogModelSelectContent::from_model(&model);
    assert_eq!(titles(&content.groups), vec!["Default", "p", "Status"]);
    model.model_catalog = ModelCatalogState::Ready(vec![omp_model("p", "m")]);
    let content = CatalogModelSelectContent::from_model(&model);
    assert_eq!(titles(&content.groups), vec!["Default", "p"]);
}

#[test]
fn picker_list_filters_by_query_and_finds_the_highlighted_row() {
    let mut model = app_model(ModelCatalogState::Ready(vec![
        omp_model("openai", "openai/needle"),
        omp_model("bigmodel", "bigmodel/other"),
    ]));
    model.model_override = Some("openai/needle".into());
    let content = CatalogModelSelectContent::from_model(&model);
    assert_eq!(
        content.selected_index(),
        Some(IndexPath { section: 2, row: 0 })
    );
    let mut list = ModelPickerList::new(content);
    assert_eq!(list.sections_count(), 3);
    assert_eq!(list.items_count(1), 1);
    assert_eq!(list.items_count(9), 0);
    list.perform_search("  NEEDLE ");
    assert_eq!(titles(&list.groups), vec!["openai"]);
    assert_eq!(list.selected_index(), Some(IndexPath { section: 0, row: 0 }));
    assert!(is_model(
        &list.item(IndexPath { section: 0, row: 0 }).unwrap().choice,
        "openai/needle"
    ));
    assert!(list.item(IndexPath { section: 0, row: 1 }).is_none());
    assert!(list.item(IndexPath { section: 1, row: 0 }).is_none());
    list.perform_search("other");
    assert_eq!(titles(&list.groups), vec!["bigmodel"]);
    assert_eq!(list.selected_index(), Some(IndexPath { section: 0, row: 0 }));
    list.perform_search("nothing matches this");
    assert!(list.groups.is_empty());
    assert_eq!(list.selected_index(), None);
    list.perform_search(" ");
    assert_eq!(titles(&list.groups), vec!["默认", "bigmodel", "openai"]);
}

#[test]
fn highlight_falls_back_to_the_first_enabled_row() {
    let mut model = app_model(ModelCatalogState::Idle);
    model.model_override = Some("gone".into());
    let content = CatalogModelSelectContent::from_model(&model);
    assert_eq!(titles(&content.groups), vec!["默认", "当前选择", "状态"]);
    let mut list = ModelPickerList::new(content);
    assert_eq!(list.selected_index(), Some(IndexPath { section: 1, row: 0 }));
    list.perform_search("默认");
    assert_eq!(titles(&list.groups), vec!["默认"]);
    assert_eq!(list.selected_index(), Some(IndexPath { section: 0, row: 0 }));
    list.perform_search("选择项目");
    assert_eq!(titles(&list.groups), vec!["状态"]);
    assert_eq!(list.selected_index(), None);
}

#[test]
fn picker_sync_replaces_only_changed_content() {
    let mut model = app_model(ModelCatalogState::Loading { models: vec![] });
    let mut list = ModelPickerList::new(CatalogModelSelectContent::from_model(&model));
    list.perform_search("shared");
    assert!(list
        .sync(CatalogModelSelectContent::from_model(&model))
        .is_none());
    model.model_catalog = ModelCatalogState::Ready(vec![omp_model("bigmodel", "bigmodel/shared-model")]);
    model.model_override = Some("bigmodel/shared-model".into());
    let highlighted = list.sync(CatalogModelSelectContent::from_model(&model));
    assert_eq!(highlighted, Some(Some(IndexPath { section: 0, row: 0 })));
    assert_eq!(titles(&list.groups), vec!["bigmodel"]);
    assert_eq!(list.query, "shared");
    let again = CatalogModelSelectContent::from_model(&model);
    assert!(again.same(&list.content));
    model.language = Language::English;
    assert!(!CatalogModelSelectContent::from_model(&model).same(&list.content));
}

#[test]
fn replacing_content_keeps_the_query() {
    let model = app_model(ModelCatalogState::Ready(vec![omp_model("p", "p/one")]));
    let mut list = ModelPickerList::new(CatalogModelSelectContent::from_model(&model));
    list.perform_search("ONE");
    assert_eq!(titles(&list.groups), vec!["p"]);
    let other = app_model(ModelCatalogState::Ready(vec![
        omp_model("q", "q/one"),
        omp_model("r", "r/two"),
    ]));
    list.replace_content(CatalogModelSelectContent::from_model(&other));
    assert_eq!(titles(&list.groups), vec!["q"]);
}

// ---- components ----

#[test]
fn status_colours_follow_message_kind_and_run_state() {
    assert_eq!(message_indicator(MessageKind::Error), ColorRole::Danger);
    assert_eq!(message_indicator(MessageKind::ToolCall), ColorRole::Tool);
    assert_eq!(message_indicator(MessageKind::ToolResult), ColorRole::Tool);
    assert_eq!(message_indicator(MessageKind::Text), ColorRole::Muted);
    assert_eq!(run_status_color(RunStatus::Completed), ColorRole::Success);
    assert_eq!(run_status_color(RunStatus::Failed), ColorRole::Danger);
    assert_eq!(run_status_color(RunStatus::Running), ColorRole::Accent);
    assert_eq!(run_status_color(RunStatus::Cancelling), ColorRole::Accent);
    assert_eq!(run_status_color(RunStatus::Cancelled), ColorRole::Muted);
    assert_eq!(run_status_color(RunStatus::Queued), ColorRole::Muted);
    let pair = label_value("Model".into(), "gpt".into());
    assert_eq!((pair.label.as_str(), pair.value.as_str()), ("Model", "gpt"));
}

#[test]
fn directory_label_uses_the_file_name_or_the_whole_path() {
    assert_eq!(
        working_directory_label_for(Some("/a/b"), Some("b".into()), false, Language::English),
        "b"
    );
    assert_eq!(
        working_directory_label_for(Some("/"), None, false, Language::English),
        "/"
    );
    assert_eq!(
        working_directory_label_for(None, None, true, Language::English),
        "Unknown directory"
    );
    assert_eq!(
        working_directory_label_for(None, None, false, Language::Chinese),
        "未选择目录"
    );
}

// ---- settings ----

#[test]
fn tokens_are_masked_in_the_middle() {
    assert_eq!(masked_token("sk-1234567890abcdef"), "sk-123••••cdef");
    assert_eq!(masked_token("short"), "••••••••");
    assert_eq!(masked_token("0123456789"), "••••••••");
    assert_eq!(masked_token("0123456789a"), "012345••••789a");
    assert_eq!(masked_token("密钥密钥密钥密钥密钥密钥"), "密钥密钥密钥••••密钥密钥");
}

#[test]
fn settings_pages_have_ids_labels_and_icons() {
    let pages = SettingsSection::all();
    let ids: Vec<&str> = pages.iter().map(|page| page.id()).collect();
    assert_eq!(
        ids,
        vec!["general", "appearance", "agent", "voice", "providers", "remote", "archived"]
    );
    let mut distinct = ids.clone();
    distinct.sort();
    distinct.dedup();
    assert_eq!(distinct.len(), ids.len());
    assert!(ids.iter().any(|id| format!("settings-nav-{id}") == "settings-nav-voice"));
    assert_eq!(SettingsSection::Voice.label(Language::English), "Voice input");
    assert_eq!(SettingsSection::Voice.icon(), SettingsIcon::Mic);
    assert_eq!(SettingsSection::Providers.label(Language::Chinese), "凭据配置");
    assert_eq!(SettingsSection::Remote.label(Language::English), "Remote access");
    assert_eq!(SettingsSection::Archived.icon(), SettingsIcon::Inbox);
    assert_eq!(SettingsSection::General.icon(), SettingsIcon::Settings2);
}

#[test]
fn provider_form_starts_from_the_profile_or_the_harness_defaults() {
    assert_eq!(
        provider_environment_defaults(HarnessKind::Codex),
        ("CODEX_API_KEY", "OPENAI_BASE_URL")
    );
    let fresh = profile_form_draft(None, HarnessKind::Omp);
    assert_eq!(fresh.id, None);
    assert_eq!(fresh.api_key_env, "DEEPSEEK_API_KEY");
    assert_eq!(fresh.base_url_env, "");
    assert_eq!(fresh.name, "");
    let profile = ProviderProfile {
        id: 7,
        name: "DeepSeek Production".into(),
        api_key_env: "MY_KEY".into(),
        base_url_env: None,
        base_url: Some("https://api.example.com/v1".into()),
        model: None,
    };
    let draft = profile_form_draft(Some(&profile), HarnessKind::Claude);
    assert_eq!(draft.id, Some(7));
    assert_eq!(draft.name, "DeepSeek Production");
    assert_eq!(draft.api_key_env, "MY_KEY");
    assert_eq!(draft.api_key, "");
    assert_eq!(draft.base_url_env, "");
    assert_eq!(draft.base_url, "https://api.example.com/v1");
    assert_eq!(draft.model, "");
}

// ---- theme ----

#[test]
fn appearance_follows_system_and_applies_accessibility() {
    let settings = AppearanceSettings {
        theme: ThemePreference::System,
        glass: true,
        reduced_motion: false,
    };
    let none = system_accessibility();
    assert!(!none.reduce_transparency && !none.reduce_motion);
    let r = ResolvedAppearance::resolve(settings, WindowAppearance::VibrantDark, none, true, true);
    assert!(r.dark && r.glass && !r.reduced_motion && r.active);
    assert_eq!(r.window_background(), WindowBackground::Blurred);
    let r = ResolvedAppearance::resolve(settings, WindowAppearance::Light, none, false, false);
    assert!(!r.dark && !r.glass && !r.active);
    assert_eq!(r.window_background(), WindowBackground::Opaque);
    let reduce = SystemAccessibility {
        reduce_transparency: true,
        reduce_motion: true,
    };
    let r = ResolvedAppearance::resolve(settings, WindowAppearance::Dark, reduce, true, true);
    assert!(!r.glass && r.reduced_motion);
    let light = AppearanceSettings {
        theme: ThemePreference::Light,
        ..settings
    };
    assert!(!ResolvedAppearance::resolve(light, WindowAppearance::Dark, none, true, true).dark);
    let dark = AppearanceSettings {
        theme: ThemePreference::Dark,
        ..settings
    };
    assert!(ResolvedAppearance::resolve(dark, WindowAppearance::Light, none, true, true).dark);
    assert_ne!(Palette::for_dark(true).canvas, Palette::for_dark(false).canvas);
    for system in [WindowAppearance::Light, WindowAppearance::Dark] {
        for theme in [
            ThemePreference::System,
            ThemePreference::Light,
            ThemePreference::Dark,
        ] {
            let appearance = ResolvedAppearance::resolve(
                AppearanceSettings { theme, ..settings },
                system,
                none,
                true,
                true,
            );
            assert_eq!(
                appearance.dark,
                match theme {
                    ThemePreference::System => system == WindowAppearance::Dark,
                    ThemePreference::Light => false,
                    ThemePreference::Dark => true,
                }
            );
        }
    }
    for blur_supported in [true, false] {
        for reduced in [true, false] {
            let appearance = ResolvedAppearance::resolve(
                settings,
                WindowAppearance::Dark,
                SystemAccessibility {
                    reduce_transparency: reduced,
                    reduce_motion: reduced,
                },
                true,
                blur_supported,
            );
            assert_eq!(appearance.glass, blur_supported && !reduced);
            assert_eq!(appearance.reduced_motion, reduced);
            assert_eq!(
                appearance.window_background(),
                if appearance.glass {
                    WindowBackground::Blurred
                } else {
                    WindowBackground::Opaque
                }
            );
        }
    }
}

// ---- issues ----

#[test]
fn issue_colours_labels_dates_and_chat_drafts() {
    let colors = Palette::for_dark(false);
    let closed = Issue {
        state: "closed".into(),
    };
    let open = Issue {
        state: "open".into(),
    };
    assert_eq!(issue_color(&closed, colors), colors.accent);
    assert_eq!(issue_color(&open, colors), colors.success);
    let chip = |color: &str| {
        issue_label(
            &Label {
                name: "bug".into(),
                color: color.into(),
            },
            colors,
        )
        .color
    };
    assert_eq!(chip("#ff0000"), 0xff0000);
    assert_eq!(chip("#00A0fF"), 0x00a0ff);
    assert_eq!(chip("#+12345"), 0x12345);
    assert_eq!(chip("#12345"), colors.accent);
    assert_eq!(chip("#1234567"), colors.accent);
    assert_eq!(chip("#GG0000"), colors.accent);
    assert_eq!(chip("ff0000"), colors.accent);
    assert_eq!(chip(""), colors.accent);
    assert_eq!(
        issue_label(
            &Label {
                name: "bug".into(),
                color: "#ff0000".into()
            },
            colors
        )
        .name,
        "bug"
    );
    assert_eq!(issue_date_text(Some("2024-01-02 03:04".into())), "2024-01-02 03:04");
    assert_eq!(issue_date_text(None), "—");
    assert_eq!(issue_date("not a date"), "—");
    assert_ne!(issue_date("2024-01-02T03:04:05Z"), "—");
    assert_eq!(compose_issue_prompt("", "Fix #1".into()), "Fix #1");
    assert_eq!(
        compose_issue_prompt("draft", "Fix #1".into()),
        "draft\n\nFix #1"
    );
}

// ---- lifecycle ----

#[test]
fn window_commands_and_deletion_prompts() {
    assert_eq!(toggle_window(true), WindowAction::Show);
    assert_eq!(toggle_window(false), WindowAction::Hide);
    assert!(quit_shows_window(2, true));
    assert!(!quit_shows_window(2, false));
    assert_eq!(
        quit_message(Language::English, 3),
        "3 task(s) running. Quitting Nexus Agent interrupts them immediately."
    );
    let tasks = vec![TaskEntry {
        id: 1,
        title: "open task".into(),
    }];
    let archived = vec![TaskEntry {
        id: 2,
        title: "old task".into(),
    }];
    let prompt = delete_task_prompt(Language::Chinese, &tasks, &archived, 2).unwrap();
    assert_eq!(prompt.message, "永久删除“old task”？");
    assert!(prompt.detail.contains("无法撤销"));
    assert_eq!(prompt.confirm, "永久删除");
    assert_eq!(prompt.cancel, "取消");
    assert!(delete_task_prompt(Language::Chinese, &tasks, &archived, 3).is_none());
    let prompt = delete_archived_prompt(Language::Chinese, 2, false).unwrap();
    assert_eq!(prompt.message, "永久删除 2 个归档对话？");
    assert!(prompt.detail.contains("这 2 个对话"));
    assert_eq!(prompt.confirm, "全部删除");
    assert!(delete_archived_prompt(Language::Chinese, 0, false).is_none());
    assert!(delete_archived_prompt(Language::Chinese, 2, true).is_none());
}

// ---- player ----

#[test]
fn html_escaping_and_media_types() {
    assert_eq!(
        escape_html("<a href=\"x\">Tom & 'Jerry'</a>"),
        "&lt;a href=&quot;x&quot;&gt;Tom &amp; &#39;Jerry&#39;&lt;/a&gt;"
    );
    assert_eq!(escape_html("plain 文本"), "plain 文本");
    assert_eq!(media_mime(Some("M4A")), Some("audio/mp4"));
    assert_eq!(media_mime(Some("m4v")), Some("video/mp4"));
    assert_eq!(media_mime(Some("mp4")), None);
    assert_eq!(media_mime(None), None);
    let page = player_html("https://example.test/a.mp3", MediaKind::Audio, Language::Chinese);
    assert!(page.starts_with("<!doctype html><html lang=\"zh-CN\">"));
    assert!(page.contains("</audio>"));
    assert!(page.contains("无法播放此素材，请尝试打开原始文件。"));
    let page = player_html("x", MediaKind::Video, Language::English);
    assert!(page.contains("<html lang=\"en\">"));
    assert!(page.contains("This media can&#39;t be played."));
}

// ---- media paragraphs ----

#[test]
fn media_paragraphs_split_around_media_children() {
    let text = |s: &str| ParagraphChild::Text {
        source: Some(s.into()),
    };
    let media = |s: &str| ParagraphChild::Media { label: s.into() };
    let parts = split_media_paragraph(&[
        text("before "),
        media("clip.mp4"),
        text("  "),
        media("shot.png"),
        ParagraphChild::Text { source: None },
        text(" after"),
    ])
    .unwrap();
    assert_eq!(parts.len(), 4);
    assert!(matches!(&parts[0], Part::Markdown(s) if s == "before "));
    assert!(matches!(&parts[1], Part::Media { child: 1, label } if label == "clip.mp4"));
    assert!(matches!(&parts[2], Part::Media { child: 3, label } if label == "shot.png"));
    assert!(matches!(&parts[3], Part::Markdown(s) if s == " after"));
    assert!(split_media_paragraph(&[text("just prose")]).is_none());
    assert!(split_media_paragraph(&[]).is_none());
    let only = split_media_paragraph(&[media("a.mp3"), text(" \n")]).unwrap();
    assert_eq!(only.len(), 1);
}

#[test]
fn bare_urls_are_recognized_only_at_the_start() {
    assert_eq!(
        bare_url(" https://example.test/sound.mp3?signature=abc \n").as_deref(),
        Some("https://example.test/sound.mp3?signature=abc")
    );
    assert_eq!(bare_url("http://a.test/v.mp4").as_deref(), Some("http://a.test/v.mp4"));
    assert_eq!(bare_url("这个文件叫 demo.mp4"), None);
    assert_eq!(bare_url("see https://a.test/v.mp4"), None);
    assert_eq!(bare_url("ftp://a.test/v.mp4"), None);
    assert_eq!(
        link_label(&["clip".to_string(), ".mp4".to_string()]),
        "clip.mp4"
    );
    assert_eq!(link_label(&[]), "");
}

// ---- fonts ----

#[test]
fn font_menu_hides_system_families_and_keeps_missing_choices() {
    let names = vec![
        ".SystemUIFont".to_string(),
        ".Hidden".to_string(),
        "DengXian".to_string(),
        "Inter".to_string(),
    ];
    let settings = FontSettings {
        reading: Some("Missing Font".into()),
        code: Some("Inter".into()),
    };
    let menu = font_choices(&names, &settings, Language::English);
    let families: Vec<&str> = menu.iter().map(|c| c.family.as_str()).collect();
    assert_eq!(
        families,
        vec![".SystemUIFont", "DengXian", "Inter", "Missing Font"]
    );
    assert_eq!(menu[0].label, "System UI font");
    assert_eq!(menu[1].label, "等线 · DengXian");
    assert_eq!(menu[2].label, "Inter");
    assert_eq!(
        menu[3].label,
        "Missing Font (unavailable, using the default font)"
    );
    assert!(menu[2].available && !menu[3].available);
}

// ---- review ----

const PATCH: &str = "diff --git a/src/lib.rs b/src/lib.rs\nindex 1..2 100644\n--- a/src/lib.rs\n+++ b/src/lib.rs\n@@ -1,2 +1,2 @@\n-old\n+new\n+more\n context\ndiff --git a/new.txt b/new.txt\nnew file mode 100644\n--- /dev/null\n+++ b/new.txt\n@@ -0,0 +1 @@\n+hello\n";

#[test]
fn patches_split_into_files_with_counts_and_status() {
    let files = patch_files(PATCH, ReviewSection::Staged);
    assert_eq!(files.len(), 2);
    assert_eq!(files[0].path, "src/lib.rs");
    assert_eq!((files[0].additions, files[0].deletions), (2, 1));
    assert_eq!(files[0].status, FileStatus::Modified);
    assert_eq!(files[1].path, "new.txt");
    assert_eq!(files[1].status, FileStatus::Added);
    assert_eq!(files[1].status.as_str(), "A");
    assert_eq!((files[1].additions, files[1].deletions), (1, 0));
    assert_eq!(format!("{}{}", files[0].patch, files[1].patch), PATCH);
    let head = patch_files("just text\n", ReviewSection::Committed);
    assert_eq!(head.len(), 1);
    assert_eq!(head[0].path, "HEAD");
    assert_eq!(head[0].patch, "just text\n");
    assert!(patch_files("", ReviewSection::Unstaged).is_empty());
    let deleted = patch_files(
        "diff --git a/x b/x\ndeleted file mode 100644\n",
        ReviewSection::Unstaged,
    );
    assert_eq!(deleted[0].status, FileStatus::Deleted);
    assert_eq!(deleted[0].status.as_str(), "D");
}

#[test]
fn header_paths_and_quoted_names_are_decoded() {
    assert_eq!(patch_path("diff --git a/src/x.rs b/src/x.rs"), "src/x.rs");
    assert_eq!(patch_path("diff --git a/a b c b/a b c"), "a b c");
    assert_eq!(patch_path("diff --git \"a/tab\\there\" \"b/tab\\there\""), "tab\there");
    assert_eq!(patch_path("diff --cc merged.rs"), "merged.rs");
    assert_eq!(patch_path("something else"), "something else");
    assert_eq!(decode_path("plain/path"), "plain/path");
    assert_eq!(decode_path("\"\\344\\270\\255.txt\""), "中.txt");
    assert_eq!(decode_path("\"a\\\"b\""), "a\"b");
}

#[test]
fn review_details_show_hunks_and_describe_binary_or_empty_files() {
    let files = patch_files(PATCH, ReviewSection::Staged);
    let detail = files[0].detail(Language::English);
    assert_eq!(detail.title, "src/lib.rs");
    assert_eq!(detail.language, "rs");
    assert!(detail.diff);
    assert!(detail.text.starts_with("@@ -1,2 +1,2 @@"));
    let key = files[1].key();
    assert_eq!(key.0, ReviewSection::Staged);
    assert_eq!(key.1, "new.txt");
    let untracked = ReviewFile {
        path: "notes".into(),
        patch: "a\nb\n".into(),
        section: ReviewSection::Untracked,
        status: FileStatus::Added,
        additions: 0,
        deletions: 0,
    };
    let detail = untracked.detail(Language::English);
    assert_eq!(detail.language, "text");
    assert_eq!(detail.text, "@@ -0,0 +1,2 @@\n+a\n+b\n");
    assert!(detail.diff);
    let empty = ReviewFile {
        patch: String::new(),
        ..untracked
    };
    assert_eq!(empty.detail(Language::Chinese).text, "空文件");
    let binary = ReviewFile {
        patch: "x\0y".into(),
        ..empty
    };
    let detail = binary.detail(Language::Chinese);
    assert_eq!(detail.text, "二进制文件，无法显示文本差异。");
    assert!(!detail.diff);
    let mode = ReviewFile {
        path: "run.sh".into(),
        patch: "diff --git a/run.sh b/run.sh\nold mode 100644\nnew mode 100755\n".into(),
        section: ReviewSection::Unstaged,
        status: FileStatus::Modified,
        additions: 0,
        deletions: 0,
    };
    assert_eq!(
        mode.detail(Language::English).text,
        "old mode 100644\nnew mode 100755"
    );
    assert_eq!(ReviewSection::Merge.label(Language::Chinese), "合入预览");
}

#[test]
fn review_lists_every_section_in_order() {
    let review = WorkspaceReview {
        unstaged: "diff --git a/u b/u\n+x\n".into(),
        staged: "diff --git a/s b/s\n".into(),
        committed: String::new(),
        resolution_diff: String::new(),
        resolution_staged: String::new(),
        untracked: vec![("n.txt".to_string(), "hi\n".to_string())],
    };
    let files = review_files(&review, None);
    let sections: Vec<ReviewSection> = files.iter().map(|f| f.section).collect();
    assert!(sections.contains(&ReviewSection::Unstaged));
    assert!(sections.contains(&ReviewSection::Untracked));
    assert!(sections.contains(&ReviewSection::Staged));
    assert_eq!(files.len(), 3);
    let plan = MergePlan {
        diff: "diff --git a/m b/m\n".into(),
    };
    let with_plan = review_files(&review, Some(&plan));
    assert!(with_plan.iter().any(|f| f.section == ReviewSection::Merge && f.path == "m"));
}

// ---- web views ----

#[test]
fn web_views_stay_on_their_own_pages() {
    let page = "http://127.0.0.1:1234/secret/player";
    assert!(player_navigation_allowed(page, page));
    assert!(!player_navigation_allowed("https://evil.test/", page));
    assert!(!player_navigation_allowed("http://127.0.0.1:1234/secret/player#x", page));
    let pdf = "http://127.0.0.1:9/doc/viewer.html";
    assert!(pdf_navigation_allowed(pdf, pdf));
    assert!(pdf_navigation_allowed("http://127.0.0.1:9/doc/viewer.html#page=3", pdf));
    assert!(!pdf_navigation_allowed("http://127.0.0.1:9/doc/viewer.htmlx", pdf));
    assert!(!pdf_navigation_allowed("http://127.0.0.1:9/doc/", pdf));
    assert!(!pdf_navigation_allowed("https://evil.test/#", pdf));
}

#[test]
fn pdf_window_closes_only_when_its_page_allows() {
    let d = pdf_close_request(false, false);
    assert!(!d.close && !d.closed && d.ask_page);
    let d = pdf_close_request(false, true);
    assert!(d.close && d.closed && !d.ask_page);
    let d = pdf_close_request(true, false);
    assert!(d.close && d.closed && !d.ask_page);
}

// ---- more of the picker, search and review page ----

#[test]
fn confirming_a_row_selects_the_default_or_a_model() {
    let mut model = app_model(ModelCatalogState::Ready(vec![omp_model("p", "p/m")]));
    model.model_override = Some("gone".into());
    let list = ModelPickerList::new(CatalogModelSelectContent::from_model(&model));
    assert_eq!(titles(&list.groups), vec!["默认", "当前选择", "p"]);
    assert_eq!(list.confirm(IndexPath { section: 0, row: 0 }), Some(None));
    assert_eq!(list.confirm(IndexPath { section: 1, row: 0 }), None);
    assert_eq!(
        list.confirm(IndexPath { section: 2, row: 0 }),
        Some(Some("p/m".to_string()))
    );
    assert_eq!(list.confirm(IndexPath { section: 3, row: 0 }), None);
    let idle = ModelPickerList::new(CatalogModelSelectContent::from_model(&app_model(
        ModelCatalogState::Empty,
    )));
    assert_eq!(titles(&idle.groups), vec!["默认", "状态"]);
    assert_eq!(idle.confirm(IndexPath { section: 1, row: 0 }), None);
}

#[test]
fn search_filter_keeps_matching_positions_in_order() {
    let titles = vec![
        "Fix Runner output".to_string(),
        "优化会话交互".to_string(),
        "runner docs".to_string(),
    ];
    assert_eq!(search_filter(&titles, " RUNNER "), vec![0, 2]);
    assert_eq!(search_filter(&titles, "会话"), vec![1]);
    assert_eq!(search_filter(&titles, ""), vec![0, 1, 2]);
    assert!(search_filter(&titles, "storage").is_empty());
}

#[test]
fn review_page_selects_files_and_heads_sections() {
    let file = |section: ReviewSection, path: &str| ReviewFile {
        path: path.into(),
        patch: String::new(),
        section,
        status: FileStatus::Modified,
        additions: 0,
        deletions: 0,
    };
    let files = vec![
        file(ReviewSection::Unstaged, "a"),
        file(ReviewSection::Unstaged, "b"),
        file(ReviewSection::Staged, "a"),
        file(ReviewSection::Unstaged, "c"),
    ];
    assert_eq!(
        selected_file(&files, Some(&(ReviewSection::Staged, "a".to_string()))),
        Some(2)
    );
    assert_eq!(
        selected_file(&files, Some(&(ReviewSection::Committed, "a".to_string()))),
        Some(0)
    );
    assert_eq!(selected_file(&files, None), Some(0));
    assert_eq!(selected_file(&[], None), None);
    assert_eq!(
        section_headers(&files),
        vec![
            SectionHeader {
                index: 0,
                section: ReviewSection::Unstaged,
                count: 3
            },
            SectionHeader {
                index: 2,
                section: ReviewSection::Staged,
                count: 1
            },
            SectionHeader {
                index: 3,
                section: ReviewSection::Unstaged,
                count: 3
            },
        ]
    );
    assert!(section_headers(&[]).is_empty());
    assert_eq!(
        review_path_parts("src/view/mod.rs"),
        ("mod.rs".to_string(), Some("src/view".to_string()))
    );
    assert_eq!(review_path_parts("README"), ("README".to_string(), None));
    assert_eq!(
        review_path_parts("/top"),
        ("top".to_string(), Some(String::new()))
    );
    assert_eq!(
        review_heading(Some("feature/x"), "0123456789abcdef"),
        ("feature/x".to_string(), "01234567".to_string())
    );
    assert_eq!(
        review_heading(None, "abc"),
        ("HEAD".to_string(), "abc".to_string())
    );
}

// ---- workspace header and composer ----

fn header_model() -> HeaderModel {
    HeaderModel {
        history: false,
        active_run: false,
        running_count: 0,
        thread_loading: false,
        model_catalog: ModelCatalogState::Ready(vec![]),
        task_status: None,
        thread_title: None,
        task_title: None,
        project: Some(("nexus".to_string(), "/work/nexus".to_string())),
        probe: Some(AgentProbe {
            available: true,
            authenticated: true,
        }),
        profile_ready: false,
        status_text: "Ready".to_string(),
    }
}

#[test]
fn workspace_header_names_project_task_and_status() {
    let mut m = header_model();
    let h = workspace_header(&m, Language::English);
    assert_eq!(h.project, "nexus");
    assert_eq!(h.project_tooltip, "nexus\n/work/nexus");
    assert_eq!(h.task.as_deref(), Some("New task"));
    assert_eq!(h.status, "Ready");
    assert_eq!(h.status_color, ColorRole::Success);
    assert_eq!(h.status_kind, HeaderStatusKind::Settled);
    m.task_title = Some("Fix it".into());
    m.running_count = 1;
    let h = workspace_header(&m, Language::Chinese);
    assert_eq!(h.task.as_deref(), Some("Fix it"));
    assert_eq!(h.status, "其他任务 · Ready");
    assert_eq!(h.status_kind, HeaderStatusKind::Background);
    m.active_run = true;
    let h = workspace_header(&m, Language::Chinese);
    assert_eq!(h.status, "Ready");
    assert_eq!(h.status_kind, HeaderStatusKind::Pending);
    assert_eq!(h.status_color, ColorRole::Accent);
    m.active_run = false;
    m.running_count = 0;
    m.task_status = Some(RunStatus::Failed);
    assert_eq!(workspace_header(&m, Language::English).status_color, ColorRole::Danger);
    m.task_status = Some(RunStatus::Interrupted);
    assert_eq!(workspace_header(&m, Language::English).status_color, ColorRole::Warning);
    m.task_status = None;
    m.probe = Some(AgentProbe {
        available: true,
        authenticated: false,
    });
    assert_eq!(workspace_header(&m, Language::English).status_color, ColorRole::Danger);
    m.profile_ready = true;
    assert_eq!(workspace_header(&m, Language::English).status_color, ColorRole::Success);
    m.probe = None;
    assert_eq!(workspace_header(&m, Language::English).status_color, ColorRole::Muted);
    m.model_catalog = ModelCatalogState::NotReady("x".into());
    assert_eq!(workspace_header(&m, Language::English).status_color, ColorRole::Danger);
    m.history = true;
    m.thread_title = Some("old thread".into());
    let h = workspace_header(&m, Language::English);
    assert_eq!(h.project, "Codex history");
    assert_eq!(h.project_tooltip, "Codex history");
    assert_eq!(h.task.as_deref(), Some("old thread"));
    assert_eq!(h.status_color, ColorRole::Muted);
    m.history = false;
    m.thread_title = None;
    m.project = None;
    let h = workspace_header(&m, Language::Chinese);
    assert_eq!(h.project, "未选择项目");
    assert_eq!(h.project_tooltip, "未选择项目");
    assert_eq!(h.task, None);
    m.model_catalog = ModelCatalogState::Loading { models: vec![] };
    assert_eq!(
        workspace_header(&m, Language::Chinese).status_kind,
        HeaderStatusKind::Pending
    );
}

#[test]
fn composer_hint_explains_why_a_prompt_cannot_be_sent() {
    let hint = |h, p, a, c, mac| composer_hint(h, p, a, c, mac, Language::Chinese);
    assert_eq!(
        hint(true, true, false, true, true),
        "这是只读历史。选择项目并新建任务后即可开始。"
    );
    assert_eq!(
        hint(false, false, false, true, true),
        "先选择本地项目，再描述你希望完成的工作。"
    );
    assert_eq!(
        hint(false, true, true, true, true),
        "Agent 正在执行 · 发送后排队，每轮结束后发送一条"
    );
    assert_eq!(
        hint(false, true, false, false, true),
        "Agent 尚未就绪 · 打开设置检查探测和登录状态"
    );
    assert_eq!(hint(false, true, false, true, true), "⌘ Enter 发送消息 · Enter 换行");
    assert_eq!(hint(false, true, false, true, false), "Ctrl Enter 发送消息 · Enter 换行");
}

#[test]
fn message_cards_fold_long_tool_output_and_caption_authors() {
    let long_lines = "a\n".repeat(7);
    let six_lines = "a\n".repeat(6);
    let long_text = "x".repeat(401);
    let l = message_layout(MessageRole::Tool, MessageKind::ToolResult, &long_lines);
    assert!(l.collapsible && l.is_panel && l.show_label && !l.is_user);
    assert!(!message_layout(MessageRole::Tool, MessageKind::ToolResult, &six_lines).collapsible);
    assert!(message_layout(MessageRole::Tool, MessageKind::ToolCall, &long_text).collapsible);
    assert!(!message_layout(MessageRole::Tool, MessageKind::ToolCall, &"x".repeat(400)).collapsible);
    assert!(!message_layout(MessageRole::Assistant, MessageKind::Text, &long_text).collapsible);
    let l = message_layout(MessageRole::Assistant, MessageKind::Text, "hi");
    assert!(!l.show_label && !l.is_panel);
    let l = message_layout(MessageRole::Assistant, MessageKind::Error, "boom");
    assert!(l.show_label && l.is_panel);
    let l = message_layout(MessageRole::User, MessageKind::Text, "hello");
    assert!(l.is_user && !l.show_label);
    assert!(message_layout(MessageRole::System, MessageKind::Status, "s").show_label);
    assert_eq!(message_label(MessageRole::Assistant), "Agent");
    assert_eq!(message_label(MessageRole::User), "You");
    assert_eq!(disclosure_label(true), "收起工具输出");
    assert_eq!(disclosure_label(false), "展开完整工具输出");
}

// ---- white space, case, sidebar, escaping and quoting ----

#[test]
fn white_space_is_the_unicode_list() {
    for c in ['\t', '\n', '\u{b}', '\u{c}', '\r', ' ', '\u{85}', '\u{a0}', '\u{1680}', '\u{2000}', '\u{200a}', '\u{2028}', '\u{2029}', '\u{202f}', '\u{205f}', '\u{3000}'] {
        assert!(is_white_space(c), "{c:?}");
        assert_eq!(is_white_space(c), c.is_whitespace());
    }
    for c in ['a', '\u{200b}', '\u{feff}', '\u{8}', '\u{1f}', '中', '\u{180e}'] {
        assert!(!is_white_space(c), "{c:?}");
        assert_eq!(is_white_space(c), c.is_whitespace());
    }
    assert!(matches_search("anything", "\n\t\u{3000}"));
}

#[test]
fn ascii_search_ignores_case_and_surrounding_blanks() {
    assert!(matches_search("FIX THE RUNNER", "the runner"));
    assert!(matches_search("fix the runner", "  THE RUNNER\t"));
    assert!(!matches_search("fix the runner", "the  runner"));
    assert_eq!(
        matches_search("Shared Model", "shared"),
        matches_search("SHARED MODEL", "shared")
    );
}

#[test]
fn sidebar_rows_and_empty_notes() {
    assert!(can_manage_task(false, false));
    assert!(!can_manage_task(true, false));
    assert!(!can_manage_task(false, true));
    assert_eq!(
        empty_task_list_text("  ", Language::Chinese),
        "开始任务后，记录会出现在这里"
    );
    assert_eq!(empty_task_list_text("x", Language::Chinese), "没有匹配的任务");
    assert_eq!(empty_task_list_text("", Language::English), "Conversations appear here once a task starts");
}

#[test]
fn escaping_round_trips_through_the_five_entities() {
    assert_eq!(escape_html("it's"), "it&#39;s");
    assert_eq!(escape_html("&lt;"), "&amp;lt;");
    let value = "a<b>&\"c\"'d' &amp;";
    let unescaped = escape_html(value)
        .replace("&#39;", "'")
        .replace("&quot;", "\"")
        .replace("&gt;", ">")
        .replace("&lt;", "<")
        .replace("&amp;", "&");
    assert_eq!(unescaped, value);
}

#[test]
fn decoding_undoes_git_quoting() {
    assert_eq!(
        decode_path("\"tab\\there \\\"q\\\" \\\\ \\303\\244\\001\" trailing"),
        "tab\there \"q\" \\ ä\u{1}"
    );
    assert_eq!(decode_path("\"\\a\\b\\f\\v\\n\\r\""), "\u{7}\u{8}\u{c}\u{b}\n\r");
    assert_eq!(decode_path("\"\\177\""), "\u{7f}");
}

#[test]
fn issue_dates_are_never_a_dash_when_readable() {
    assert_ne!(issue_date("2024-01-02T03:04:05+08:00"), "—");
    assert_eq!(issue_date(""), "—");
}
