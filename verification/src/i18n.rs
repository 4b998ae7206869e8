//! Localised interface text.

use vstd::prelude::*;

verus! {

/// Interface language.
#[derive(Clone, Copy, Debug, PartialEq, Eq, Structural)]
pub enum Language {
    Chinese,
    English,
}

/// A piece of interface text that has a translation.
#[derive(Clone, Copy, Debug, PartialEq, Eq, Structural)]
pub enum Text {
    ReviewUnstaged,
    ReviewUntracked,
    ReviewStaged,
    ReviewCommitted,
    ReviewMerge,
    ReviewResolution,
    ReviewResolutionStaged,
    BinaryFile,
    EmptyFile,
    SettingsGeneral,
    SettingsAppearance,
    SettingsAgent,
    SettingsProviders,
    SettingsRemote,
    SettingsArchived,
    SettingsVoice,
    SidebarNoTasksYet,
    SidebarNoMatchingTasks,
    Unavailable,
    Unverified,
    Verifying,
    DefaultGroup,
    CurrentSelection,
    SelectProjectToLoadCatalog,
    CatalogNotLoaded,
    CatalogLoading,
    CatalogEmpty,
    CatalogFailedPrefix,
    StatusGroup,
    CatalogLoadFailed,
    CatalogUnverified,
    FollowProfileDefaultPrefix,
    DefaultPrefix,
    FollowCliDefaultPrefix,
    CliDefaultPrefix,
    NoteOpen,
    NoteClose,
    CatalogLoadingSuffix,
    CatalogFailedSuffix,
    CatalogEmptySuffix,
    NotReadySuffix,
    FollowCliDefaultModel,
    CliDefaultModel,
    NoMatchingModels,
    FollowDefault,
    UnknownDirectory,
    NoDirectory,
    PlaybackFailed,
    SystemUiFont,
    FontUnavailableSuffix,
    QuitRunningPrefix,
    QuitRunningSuffix,
    QuitDetail,
    Quit,
    Cancel,
    DeleteTaskPrefix,
    DeleteTaskSuffix,
    DeleteTaskDetail,
    DeletePermanently,
    DeleteArchivedPrefix,
    DeleteArchivedSuffix,
    DeleteArchivedDetailPrefix,
    DeleteArchivedDetailSuffix,
    DeleteAll,
    CodexHistory,
    NoProject,
    NewTask,
    OtherTasksPrefix,
    HintReadOnlyHistory,
    HintChooseProject,
    HintAgentBusy,
    HintAgentNotReady,
    HintSendCommand,
    HintSendControl,
    PagePrefix,
    PageOf,
    PageSuffix,
    PreviousPage,
    NextPage,
    CloseIssue,
    ReopenIssue,
    NotScanned,
    VersionUnknown,
    NotInstalled,
    UpdateAvailable,
    InstallingUpdate,
    WaitingToInstall,
    DownloadingUpdate,
    Unassigned,
    IssueClosed,
    IssueOpen,
    NoIssueDescription,
    ReadingChanges,
    DiffUnavailable,
    NoChanges,
}

/// The words of `t` in language `l`.
pub open spec fn translation(l: Language, t: Text) -> Seq<char> {
    match l {
        Language::Chinese => match t {
            Text::ReviewUnstaged => "未暂存"@,
            Text::ReviewUntracked => "新文件"@,
            Text::ReviewStaged => "已暂存"@,
            Text::ReviewCommitted => "已提交"@,
            Text::ReviewMerge => "合入预览"@,
            Text::ReviewResolution => "冲突解决"@,
            Text::ReviewResolutionStaged => "已暂存的冲突解决内容"@,
            Text::BinaryFile => "二进制文件，无法显示文本差异。"@,
            Text::EmptyFile => "空文件"@,
            Text::SettingsGeneral => "通用"@,
            Text::SettingsAppearance => "外观"@,
            Text::SettingsAgent => "执行引擎"@,
            Text::SettingsProviders => "凭据配置"@,
            Text::SettingsRemote => "远程访问"@,
            Text::SettingsArchived => "归档对话"@,
            Text::SettingsVoice => "语音输入"@,
            Text::SidebarNoTasksYet => "开始任务后，记录会出现在这里"@,
            Text::SidebarNoMatchingTasks => "没有匹配的任务"@,
            Text::Unavailable => "不可用"@,
            Text::Unverified => "未验证"@,
            Text::Verifying => "验证中"@,
            Text::DefaultGroup => "默认"@,
            Text::CurrentSelection => "当前选择"@,
            Text::SelectProjectToLoadCatalog => "选择项目后加载模型目录"@,
            Text::CatalogNotLoaded => "模型目录尚未加载"@,
            Text::CatalogLoading => "正在加载模型目录…"@,
            Text::CatalogEmpty => "当前模型目录为空"@,
            Text::CatalogFailedPrefix => "模型目录加载失败："@,
            Text::StatusGroup => "状态"@,
            Text::CatalogLoadFailed => "目录加载失败"@,
            Text::CatalogUnverified => "目录未验证"@,
            Text::FollowProfileDefaultPrefix => "跟随 Profile 默认 · "@,
            Text::DefaultPrefix => "默认 · "@,
            Text::FollowCliDefaultPrefix => "跟随 CLI 默认 · "@,
            Text::CliDefaultPrefix => "CLI 默认 · "@,
            Text::NoteOpen => "（"@,
            Text::NoteClose => "）"@,
            Text::CatalogLoadingSuffix => " · 目录加载中"@,
            Text::CatalogFailedSuffix => " · 目录加载失败"@,
            Text::CatalogEmptySuffix => " · 目录为空"@,
            Text::NotReadySuffix => " · 未就绪"@,
            Text::FollowCliDefaultModel => "跟随 CLI 默认模型"@,
            Text::CliDefaultModel => "CLI 默认模型"@,
            Text::NoMatchingModels => "没有匹配的模型"@,
            Text::FollowDefault => "跟随默认"@,
            Text::UnknownDirectory => "未知目录"@,
            Text::NoDirectory => "未选择目录"@,
            Text::PlaybackFailed => "无法播放此素材，请尝试打开原始文件。"@,
            Text::SystemUiFont => "系统界面字体"@,
            Text::FontUnavailableSuffix => "（不可用，使用默认字体）"@,
            Text::QuitRunningPrefix => "有 "@,
            Text::QuitRunningSuffix => " 个任务正在运行，退出 Nexus Agent 会立即中断它们。"@,
            Text::QuitDetail => "正在运行的任务会被停止；重新启动后它们会显示为已中断，历史记录仍可阅读。"@,
            Text::Quit => "退出"@,
            Text::Cancel => "取消"@,
            Text::DeleteTaskPrefix => "永久删除“"@,
            Text::DeleteTaskSuffix => "”？"@,
            Text::DeleteTaskDetail => "此操作会删除该对话的全部消息和运行记录，且无法撤销。"@,
            Text::DeletePermanently => "永久删除"@,
            Text::DeleteArchivedPrefix => "永久删除 "@,
            Text::DeleteArchivedSuffix => " 个归档对话？"@,
            Text::DeleteArchivedDetailPrefix => "此操作会删除这 "@,
            Text::DeleteArchivedDetailSuffix => " 个对话的全部消息和运行记录，且无法撤销。"@,
            Text::DeleteAll => "全部删除"@,
            Text::CodexHistory => "Codex 历史"@,
            Text::NoProject => "未选择项目"@,
            Text::NewTask => "新建任务"@,
            Text::OtherTasksPrefix => "其他任务 · "@,
            Text::HintReadOnlyHistory => "这是只读历史。选择项目并新建任务后即可开始。"@,
            Text::HintChooseProject => "先选择本地项目，再描述你希望完成的工作。"@,
            Text::HintAgentBusy => "Agent 正在执行 · 发送后排队，每轮结束后发送一条"@,
            Text::HintAgentNotReady => "Agent 尚未就绪 · 打开设置检查探测和登录状态"@,
            Text::HintSendCommand => "⌘ Enter 发送消息 · Enter 换行"@,
            Text::HintSendControl => "Ctrl Enter 发送消息 · Enter 换行"@,
            Text::PagePrefix => "第 "@,
            Text::PageOf => " / "@,
            Text::PageSuffix => " 页"@,
            Text::PreviousPage => "上一页"@,
            Text::NextPage => "下一页"@,
            Text::CloseIssue => "关闭 Issue"@,
            Text::ReopenIssue => "重新打开 Issue"@,
            Text::NotScanned => "尚未扫描"@,
            Text::VersionUnknown => "版本未知"@,
            Text::NotInstalled => "未安装"@,
            Text::UpdateAvailable => "发现新版本"@,
            Text::InstallingUpdate => "正在安装更新"@,
            Text::WaitingToInstall => "等待安装"@,
            Text::DownloadingUpdate => "正在下载更新"@,
            Text::Unassigned => "未分配"@,
            Text::IssueClosed => "已关闭"@,
            Text::IssueOpen => "未关闭"@,
            Text::NoIssueDescription => "此 Issue 暂无描述。"@,
            Text::ReadingChanges => "正在读取变更…"@,
            Text::DiffUnavailable => "无法显示差异，请刷新重试。"@,
            Text::NoChanges => "没有可审查的变更"@,
        },
        Language::English => match t {
            Text::ReviewUnstaged => "Unstaged"@,
            Text::ReviewUntracked => "New files"@,
            Text::ReviewStaged => "Staged"@,
            Text::ReviewCommitted => "Committed"@,
            Text::ReviewMerge => "Merge preview"@,
            Text::ReviewResolution => "Conflict resolution"@,
            Text::ReviewResolutionStaged => "Staged conflict resolution"@,
            Text::BinaryFile => "Binary file; no text diff to show."@,
            Text::EmptyFile => "Empty file"@,
            Text::SettingsGeneral => "General"@,
            Text::SettingsAppearance => "Appearance"@,
            Text::SettingsAgent => "Agents"@,
            Text::SettingsProviders => "Credentials"@,
            Text::SettingsRemote => "Remote access"@,
            Text::SettingsArchived => "Archived conversations"@,
            Text::SettingsVoice => "Voice input"@,
            Text::SidebarNoTasksYet => "Conversations appear here once a task starts"@,
            Text::SidebarNoMatchingTasks => "No matching tasks"@,
            Text::Unavailable => "Unavailable"@,
            Text::Unverified => "Unverified"@,
            Text::Verifying => "Verifying"@,
            Text::DefaultGroup => "Default"@,
            Text::CurrentSelection => "Current selection"@,
            Text::SelectProjectToLoadCatalog => "Select a project to load the model catalog"@,
            Text::CatalogNotLoaded => "The model catalog has not been loaded"@,
            Text::CatalogLoading => "Loading the model catalog…"@,
            Text::CatalogEmpty => "The model catalog is empty"@,
            Text::CatalogFailedPrefix => "Failed to load the model catalog: "@,
            Text::StatusGroup => "Status"@,
            Text::CatalogLoadFailed => "catalog failed to load"@,
            Text::CatalogUnverified => "not in the catalog"@,
            Text::FollowProfileDefaultPrefix => "Follow profile default · "@,
            Text::DefaultPrefix => "Default · "@,
            Text::FollowCliDefaultPrefix => "Follow CLI default · "@,
            Text::CliDefaultPrefix => "CLI default · "@,
            Text::NoteOpen => " ("@,
            Text::NoteClose => ")"@,
            Text::CatalogLoadingSuffix => " · loading catalog"@,
            Text::CatalogFailedSuffix => " · catalog failed to load"@,
            Text::CatalogEmptySuffix => " · catalog is empty"@,
            Text::NotReadySuffix => " · not ready"@,
            Text::FollowCliDefaultModel => "Follow the CLI default model"@,
            Text::CliDefaultModel => "CLI default model"@,
            Text::NoMatchingModels => "No matching models"@,
            Text::FollowDefault => "Follow default"@,
            Text::UnknownDirectory => "Unknown directory"@,
            Text::NoDirectory => "No directory selected"@,
            Text::PlaybackFailed => "This media can't be played. Try opening the original file."@,
            Text::SystemUiFont => "System UI font"@,
            Text::FontUnavailableSuffix => " (unavailable, using the default font)"@,
            Text::QuitRunningPrefix => ""@,
            Text::QuitRunningSuffix => " task(s) running. Quitting Nexus Agent interrupts them immediately."@,
            Text::QuitDetail => "Running tasks will be stopped; after a restart they show as interrupted and their history stays readable."@,
            Text::Quit => "Quit"@,
            Text::Cancel => "Cancel"@,
            Text::DeleteTaskPrefix => "Permanently delete “"@,
            Text::DeleteTaskSuffix => "”?"@,
            Text::DeleteTaskDetail => "This deletes every message and run record of the conversation and cannot be undone."@,
            Text::DeletePermanently => "Delete permanently"@,
            Text::DeleteArchivedPrefix => "Permanently delete "@,
            Text::DeleteArchivedSuffix => " archived conversation(s)?"@,
            Text::DeleteArchivedDetailPrefix => "This deletes every message and run record of these "@,
            Text::DeleteArchivedDetailSuffix => " conversation(s) and cannot be undone."@,
            Text::DeleteAll => "Delete all"@,
            Text::CodexHistory => "Codex history"@,
            Text::NoProject => "No project selected"@,
            Text::NewTask => "New task"@,
            Text::OtherTasksPrefix => "Other tasks · "@,
            Text::HintReadOnlyHistory => "This is read-only history. Choose a project and start a new task to begin."@,
            Text::HintChooseProject => "Choose a local project first, then describe the work you want done."@,
            Text::HintAgentBusy => "The agent is working · messages queue and one is sent after each turn"@,
            Text::HintAgentNotReady => "The agent is not ready · open settings to check detection and sign-in"@,
            Text::HintSendCommand => "⌘ Enter to send · Enter for a new line"@,
            Text::HintSendControl => "Ctrl Enter to send · Enter for a new line"@,
            Text::PagePrefix => "Page "@,
            Text::PageOf => " of "@,
            Text::PageSuffix => ""@,
            Text::PreviousPage => "Previous"@,
            Text::NextPage => "Next"@,
            Text::CloseIssue => "Close issue"@,
            Text::ReopenIssue => "Reopen issue"@,
            Text::NotScanned => "Not scanned yet"@,
            Text::VersionUnknown => "Version unknown"@,
            Text::NotInstalled => "Not installed"@,
            Text::UpdateAvailable => "Update available"@,
            Text::InstallingUpdate => "Installing update"@,
            Text::WaitingToInstall => "Ready to install"@,
            Text::DownloadingUpdate => "Downloading update"@,
            Text::Unassigned => "Unassigned"@,
            Text::IssueClosed => "Closed"@,
            Text::IssueOpen => "Open"@,
            Text::NoIssueDescription => "This issue has no description."@,
            Text::ReadingChanges => "Reading changes…"@,
            Text::DiffUnavailable => "The diff can't be shown; refresh to try again."@,
            Text::NoChanges => "No changes to review"@,
        },
    }
}

/// The language tag of a language, as written into HTML documents.
pub open spec fn language_tag(l: Language) -> Seq<char> {
    match l {
        Language::Chinese => "zh-CN"@,
        Language::English => "en"@,
    }
}

impl Language {
    /// The words of `t` in this language.
    pub fn text(self, t: Text) -> (s: &'static str)
        ensures
            s@ == translation(self, t),
    {
        match self {
            Language::Chinese => match t {
                Text::ReviewUnstaged => "未暂存",
                Text::ReviewUntracked => "新文件",
                Text::ReviewStaged => "已暂存",
                Text::ReviewCommitted => "已提交",
                Text::ReviewMerge => "合入预览",
                Text::ReviewResolution => "冲突解决",
                Text::ReviewResolutionStaged => "已暂存的冲突解决内容",
                Text::BinaryFile => "二进制文件，无法显示文本差异。",
                Text::EmptyFile => "空文件",
                Text::SettingsGeneral => "通用",
                Text::SettingsAppearance => "外观",
                Text::SettingsAgent => "执行引擎",
                Text::SettingsProviders => "凭据配置",
                Text::SettingsRemote => "远程访问",
                Text::SettingsArchived => "归档对话",
                Text::SettingsVoice => "语音输入",
                Text::SidebarNoTasksYet => "开始任务后，记录会出现在这里",
                Text::SidebarNoMatchingTasks => "没有匹配的任务",
                Text::Unavailable => "不可用",
                Text::Unverified => "未验证",
                Text::Verifying => "验证中",
                Text::DefaultGroup => "默认",
                Text::CurrentSelection => "当前选择",
                Text::SelectProjectToLoadCatalog => "选择项目后加载模型目录",
                Text::CatalogNotLoaded => "模型目录尚未加载",
                Text::CatalogLoading => "正在加载模型目录…",
                Text::CatalogEmpty => "当前模型目录为空",
                Text::CatalogFailedPrefix => "模型目录加载失败：",
                Text::StatusGroup => "状态",
                Text::CatalogLoadFailed => "目录加载失败",
                Text::CatalogUnverified => "目录未验证",
                Text::FollowProfileDefaultPrefix => "跟随 Profile 默认 · ",
                Text::DefaultPrefix => "默认 · ",
                Text::FollowCliDefaultPrefix => "跟随 CLI 默认 · ",
                Text::CliDefaultPrefix => "CLI 默认 · ",
                Text::NoteOpen => "（",
                Text::NoteClose => "）",
                Text::CatalogLoadingSuffix => " · 目录加载中",
                Text::CatalogFailedSuffix => " · 目录加载失败",
                Text::CatalogEmptySuffix => " · 目录为空",
                Text::NotReadySuffix => " · 未就绪",
                Text::FollowCliDefaultModel => "跟随 CLI 默认模型",
                Text::CliDefaultModel => "CLI 默认模型",
                Text::NoMatchingModels => "没有匹配的模型",
                Text::FollowDefault => "跟随默认",
                Text::UnknownDirectory => "未知目录",
                Text::NoDirectory => "未选择目录",
                Text::PlaybackFailed => "无法播放此素材，请尝试打开原始文件。",
                Text::SystemUiFont => "系统界面字体",
                Text::FontUnavailableSuffix => "（不可用，使用默认字体）",
                Text::QuitRunningPrefix => "有 ",
                Text::QuitRunningSuffix => " 个任务正在运行，退出 Nexus Agent 会立即中断它们。",
                Text::QuitDetail => "正在运行的任务会被停止；重新启动后它们会显示为已中断，历史记录仍可阅读。",
                Text::Quit => "退出",
                Text::Cancel => "取消",
                Text::DeleteTaskPrefix => "永久删除“",
                Text::DeleteTaskSuffix => "”？",
                Text::DeleteTaskDetail => "此操作会删除该对话的全部消息和运行记录，且无法撤销。",
                Text::DeletePermanently => "永久删除",
                Text::DeleteArchivedPrefix => "永久删除 ",
                Text::DeleteArchivedSuffix => " 个归档对话？",
                Text::DeleteArchivedDetailPrefix => "此操作会删除这 ",
                Text::DeleteArchivedDetailSuffix => " 个对话的全部消息和运行记录，且无法撤销。",
                Text::DeleteAll => "全部删除",
                Text::CodexHistory => "Codex 历史",
                Text::NoProject => "未选择项目",
                Text::NewTask => "新建任务",
                Text::OtherTasksPrefix => "其他任务 · ",
                Text::HintReadOnlyHistory => "这是只读历史。选择项目并新建任务后即可开始。",
                Text::HintChooseProject => "先选择本地项目，再描述你希望完成的工作。",
                Text::HintAgentBusy => "Agent 正在执行 · 发送后排队，每轮结束后发送一条",
                Text::HintAgentNotReady => "Agent 尚未就绪 · 打开设置检查探测和登录状态",
                Text::HintSendCommand => "⌘ Enter 发送消息 · Enter 换行",
                Text::HintSendControl => "Ctrl Enter 发送消息 · Enter 换行",
                Text::PagePrefix => "第 ",
                Text::PageOf => " / ",
                Text::PageSuffix => " 页",
                Text::PreviousPage => "上一页",
                Text::NextPage => "下一页",
                Text::CloseIssue => "关闭 Issue",
                Text::ReopenIssue => "重新打开 Issue",
                Text::NotScanned => "尚未扫描",
                Text::VersionUnknown => "版本未知",
                Text::NotInstalled => "未安装",
                Text::UpdateAvailable => "发现新版本",
                Text::InstallingUpdate => "正在安装更新",
                Text::WaitingToInstall => "等待安装",
                Text::DownloadingUpdate => "正在下载更新",
                Text::Unassigned => "未分配",
                Text::IssueClosed => "已关闭",
                Text::IssueOpen => "未关闭",
                Text::NoIssueDescription => "此 Issue 暂无描述。",
                Text::ReadingChanges => "正在读取变更…",
                Text::DiffUnavailable => "无法显示差异，请刷新重试。",
                Text::NoChanges => "没有可审查的变更",
            },
            Language::English => match t {
                Text::ReviewUnstaged => "Unstaged",
                Text::ReviewUntracked => "New files",
                Text::ReviewStaged => "Staged",
                Text::ReviewCommitted => "Committed",
                Text::ReviewMerge => "Merge preview",
                Text::ReviewResolution => "Conflict resolution",
                Text::ReviewResolutionStaged => "Staged conflict resolution",
                Text::BinaryFile => "Binary file; no text diff to show.",
                Text::EmptyFile => "Empty file",
                Text::SettingsGeneral => "General",
                Text::SettingsAppearance => "Appearance",
                Text::SettingsAgent => "Agents",
                Text::SettingsProviders => "Credentials",
                Text::SettingsRemote => "Remote access",
                Text::SettingsArchived => "Archived conversations",
                Text::SettingsVoice => "Voice input",
                Text::SidebarNoTasksYet => "Conversations appear here once a task starts",
                Text::SidebarNoMatchingTasks => "No matching tasks",
                Text::Unavailable => "Unavailable",
                Text::Unverified => "Unverified",
                Text::Verifying => "Verifying",
                Text::DefaultGroup => "Default",
                Text::CurrentSelection => "Current selection",
                Text::SelectProjectToLoadCatalog => "Select a project to load the model catalog",
                Text::CatalogNotLoaded => "The model catalog has not been loaded",
                Text::CatalogLoading => "Loading the model catalog…",
                Text::CatalogEmpty => "The model catalog is empty",
                Text::CatalogFailedPrefix => "Failed to load the model catalog: ",
                Text::StatusGroup => "Status",
                Text::CatalogLoadFailed => "catalog failed to load",
                Text::CatalogUnverified => "not in the catalog",
                Text::FollowProfileDefaultPrefix => "Follow profile default · ",
                Text::DefaultPrefix => "Default · ",
                Text::FollowCliDefaultPrefix => "Follow CLI default · ",
                Text::CliDefaultPrefix => "CLI default · ",
                Text::NoteOpen => " (",
                Text::NoteClose => ")",
                Text::CatalogLoadingSuffix => " · loading catalog",
                Text::CatalogFailedSuffix => " · catalog failed to load",
                Text::CatalogEmptySuffix => " · catalog is empty",
                Text::NotReadySuffix => " · not ready",
                Text::FollowCliDefaultModel => "Follow the CLI default model",
                Text::CliDefaultModel => "CLI default model",
                Text::NoMatchingModels => "No matching models",
                Text::FollowDefault => "Follow default",
                Text::UnknownDirectory => "Unknown directory",
                Text::NoDirectory => "No directory selected",
                Text::PlaybackFailed => "This media can't be played. Try opening the original file.",
                Text::SystemUiFont => "System UI font",
                Text::FontUnavailableSuffix => " (unavailable, using the default font)",
                Text::QuitRunningPrefix => "",
                Text::QuitRunningSuffix => " task(s) running. Quitting Nexus Agent interrupts them immediately.",
                Text::QuitDetail => "Running tasks will be stopped; after a restart they show as interrupted and their history stays readable.",
                Text::Quit => "Quit",
                Text::Cancel => "Cancel",
                Text::DeleteTaskPrefix => "Permanently delete “",
                Text::DeleteTaskSuffix => "”?",
                Text::DeleteTaskDetail => "This deletes every message and run record of the conversation and cannot be undone.",
                Text::DeletePermanently => "Delete permanently",
                Text::DeleteArchivedPrefix => "Permanently delete ",
                Text::DeleteArchivedSuffix => " archived conversation(s)?",
                Text::DeleteArchivedDetailPrefix => "This deletes every message and run record of these ",
                Text::DeleteArchivedDetailSuffix => " conversation(s) and cannot be undone.",
                Text::DeleteAll => "Delete all",
                Text::CodexHistory => "Codex history",
                Text::NoProject => "No project selected",
                Text::NewTask => "New task",
                Text::OtherTasksPrefix => "Other tasks · ",
                Text::HintReadOnlyHistory => "This is read-only history. Choose a project and start a new task to begin.",
                Text::HintChooseProject => "Choose a local project first, then describe the work you want done.",
                Text::HintAgentBusy => "The agent is working · messages queue and one is sent after each turn",
                Text::HintAgentNotReady => "The agent is not ready · open settings to check detection and sign-in",
                Text::HintSendCommand => "⌘ Enter to send · Enter for a new line",
                Text::HintSendControl => "Ctrl Enter to send · Enter for a new line",
                Text::PagePrefix => "Page ",
                Text::PageOf => " of ",
                Text::PageSuffix => "",
                Text::PreviousPage => "Previous",
                Text::NextPage => "Next",
                Text::CloseIssue => "Close issue",
                Text::ReopenIssue => "Reopen issue",
                Text::NotScanned => "Not scanned yet",
                Text::VersionUnknown => "Version unknown",
                Text::NotInstalled => "Not installed",
                Text::UpdateAvailable => "Update available",
                Text::InstallingUpdate => "Installing update",
                Text::WaitingToInstall => "Ready to install",
                Text::DownloadingUpdate => "Downloading update",
                Text::Unassigned => "Unassigned",
                Text::IssueClosed => "Closed",
                Text::IssueOpen => "Open",
                Text::NoIssueDescription => "This issue has no description.",
                Text::ReadingChanges => "Reading changes…",
                Text::DiffUnavailable => "The diff can't be shown; refresh to try again.",
                Text::NoChanges => "No changes to review",
            },
        }
    }

    /// The language tag (`zh-CN`, `en`).
    pub fn as_str(self) -> (s: &'static str)
        ensures
            s@ == language_tag(self),
    {
        match self {
            Language::Chinese => "zh-CN",
            Language::English => "en",
        }
    }
}

} // verus!
