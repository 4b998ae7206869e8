//! Small decisions shared by the view's components: status colours, whether
//! a prompt may be sent, and the label of the working directory.

use vstd::prelude::*;
use crate::catalog::ModelCatalogState;
use crate::review::{lines, split_lines};
use crate::i18n::{translation, Language, Text};
use crate::text::{
    contains_seq, file_name_of, from_chars, is_white_space, portable_path, to_chars, trim, trim_chars,
};

verus! {

/// The palette colour a status is drawn in.
#[derive(Clone, Copy, Debug, PartialEq, Eq, Structural)]
pub enum ColorRole {
    Muted,
    Accent,
    Success,
    Warning,
    Danger,
    Tool,
}

/// The kind of a conversation message.
#[derive(Clone, Copy, Debug, PartialEq, Eq, Structural)]
pub enum MessageKind {
    Text,
    Thinking,
    ToolCall,
    ToolResult,
    Status,
    Error,
}

/// The state of a run.
#[derive(Clone, Copy, Debug, PartialEq, Eq, Structural)]
pub enum RunStatus {
    Queued,
    Starting,
    Running,
    Cancelling,
    Completed,
    Failed,
    Cancelled,
    Interrupted,
}

/// Errors are drawn in the danger colour, tool traffic in the tool colour,
/// everything else muted.
pub fn message_indicator(kind: MessageKind) -> (c: ColorRole)
    ensures
        c == match kind {
            MessageKind::Error => ColorRole::Danger,
            MessageKind::ToolCall | MessageKind::ToolResult => ColorRole::Tool,
            _ => ColorRole::Muted,
        },
{
    match kind {
        MessageKind::Error => ColorRole::Danger,
        MessageKind::ToolCall | MessageKind::ToolResult => ColorRole::Tool,
        _ => ColorRole::Muted,
    }
}

/// Completed runs are drawn in the success colour, failed ones in the danger
/// colour, live ones in the accent colour, the rest muted.
pub fn run_status_color(status: RunStatus) -> (c: ColorRole)
    ensures
        c == match status {
            RunStatus::Completed => ColorRole::Success,
            RunStatus::Failed => ColorRole::Danger,
            RunStatus::Running | RunStatus::Starting | RunStatus::Cancelling => ColorRole::Accent,
            _ => ColorRole::Muted,
        },
{
    match status {
        RunStatus::Completed => ColorRole::Success,
        RunStatus::Failed => ColorRole::Danger,
        RunStatus::Running | RunStatus::Starting | RunStatus::Cancelling => ColorRole::Accent,
        _ => ColorRole::Muted,
    }
}

/// A caption above a value.
pub struct LabelValue {
    pub label: String,
    pub value: String,
}

/// Pairs a caption with the value it describes.
pub fn label_value(label: String, value: String) -> (lv: LabelValue)
    ensures
        lv.label@ == label@,
        lv.value@ == value@,
{
    LabelValue { label, value }
}

/// What the composer needs to know about the application.
pub struct ComposerModel {
    /// The application can start a run now (project, agent and no run busy).
    pub can_submit: bool,
    /// A read-only history thread is open.
    pub selected_codex_thread: Option<String>,
}

/// A prompt can be sent when the application can start a run, no history
/// thread is being read, and the prompt is not blank.
pub fn can_send_prompt(model: &ComposerModel, prompt: &str) -> (b: bool)
    ensures
        b == (model.can_submit && model.selected_codex_thread is None && trim(prompt@).len() > 0),
{
    if !model.can_submit || model.selected_codex_thread.is_some() {
        return false;
    }
    let t = trim_chars(to_chars(prompt).as_slice());
    t.len() > 0
}

/// A history thread that was run in some directory.
pub struct ThreadSummary {
    pub id: String,
    pub cwd: String,
}

/// What decides the working directory.
pub struct WorkingDirectoryModel {
    pub project_path: Option<String>,
    pub selected_codex_thread: Option<String>,
    pub codex_threads: Vec<ThreadSummary>,
}

/// The directory of the first thread with id `id`, if any.
pub open spec fn thread_cwd(threads: Seq<ThreadSummary>, id: Seq<char>) -> Option<Seq<char>>
    decreases threads.len(),
{
    if threads.len() == 0 {
        None
    } else if threads[0].id@ == id {
        Some(threads[0].cwd@)
    } else {
        thread_cwd(threads.drop_first(), id)
    }
}

/// The directory work happens in: a history thread's own directory when one
/// is open (none when it is unknown or empty), else the selected project's.
pub open spec fn working_directory_of(m: WorkingDirectoryModel) -> Option<Seq<char>> {
    match m.selected_codex_thread {
        Some(id) => match thread_cwd(m.codex_threads@, id@) {
            Some(cwd) => if cwd.len() > 0 {
                Some(cwd)
            } else {
                None
            },
            None => None,
        },
        None => match m.project_path {
            Some(p) => Some(p@),
            None => None,
        },
    }
}

impl WorkingDirectoryModel {
    /// The directory work happens in.
    #[verifier::loop_isolation(false)]
    pub fn working_directory(&self) -> (d: Option<&str>)
        ensures
            match d {
                Some(s) => working_directory_of(*self) == Some(s@),
                None => working_directory_of(*self) is None,
            },
    {
        match &self.selected_codex_thread {
            Some(id) => {
                let mut i: usize = 0;
                assert(self.codex_threads@.skip(0) =~= self.codex_threads@);
                while i < self.codex_threads.len()
                    invariant
                        i <= self.codex_threads@.len(),
                        thread_cwd(self.codex_threads@, id@) == thread_cwd(
                            self.codex_threads@.skip(i as int),
                            id@,
                        ),
                    decreases self.codex_threads.len() - i,
                {
                    let t = &self.codex_threads[i];
                    assert(self.codex_threads@.skip(i as int)[0] == *t);
                    assert(self.codex_threads@.skip(i as int).drop_first() =~= self.codex_threads@.skip(
                        i + 1,
                    ));
                    if crate::text::chars_eq(
                        to_chars(t.id.as_str()).as_slice(),
                        to_chars(id.as_str()).as_slice(),
                    ) {
                        assert(t.id@ == id@);
                        assert(thread_cwd(self.codex_threads@, id@) == Some(t.cwd@));
                        if t.cwd.as_str().is_empty() {
                            return None;
                        }
                        return Some(t.cwd.as_str());
                    }
                    i = i + 1;
                }
                None
            },
            None => match &self.project_path {
                Some(p) => Some(p.as_str()),
                None => None,
            },
        }
    }
}

/// `Path::file_name` followed by `OsStr::to_str`: claims that a name found
/// occurs in the path, is not empty and holds no `/` (a path component never
/// does), and that on a path written with `/` only (no `\`, no `:`, no
/// leading `//`, which some platforms read as a prefix) it is the path's last
/// component other than `.`, none when that is `..` or there is none.
#[verifier::external_body]
fn path_file_name(path: &str) -> (r: Option<String>)
    ensures
        r matches Some(n) ==> contains_seq(path@, n@) && n@.len() > 0 && !n@.contains('/'),
        portable_path(path@) ==> match r {
            Some(n) => file_name_of(path@) == Some(n@),
            None => file_name_of(path@) is None,
        },
{
    std::path::Path::new(path).file_name().and_then(|n| n.to_str()).map(|n| n.to_owned())
}

/// The label of the working directory, given the file name of the
/// directory's path: that name, or the whole path when it has none; without
/// a directory, "unknown" while reading history and "none selected" else.
pub fn working_directory_label_for(
    directory: Option<&str>,
    file_name: Option<String>,
    reading_history: bool,
    locale: Language,
) -> (r: String)
    ensures
        r@ == match directory {
            Some(path) => match file_name {
                Some(n) => n@,
                None => path@,
            },
            None => if reading_history {
                translation(locale, Text::UnknownDirectory)
            } else {
                translation(locale, Text::NoDirectory)
            },
        },
{
    match directory {
        Some(path) => match file_name {
            Some(n) => n,
            None => path.to_owned(),
        },
        None => if reading_history {
            locale.text(Text::UnknownDirectory).to_owned()
        } else {
            locale.text(Text::NoDirectory).to_owned()
        },
    }
}

/// The label of the working directory: its last path component (a non-empty
/// name without `/`), or the whole path when it has none.
pub fn working_directory_label(model: &WorkingDirectoryModel, locale: Language) -> (r: String)
    ensures
        working_directory_of(*model) is None ==> r@ == if model.selected_codex_thread is Some {
            translation(locale, Text::UnknownDirectory)
        } else {
            translation(locale, Text::NoDirectory)
        },
        working_directory_of(*model) matches Some(p) ==> contains_seq(p, r@) && (r@ == p || (
        r@.len() > 0 && !r@.contains('/'))),
        working_directory_of(*model) matches Some(p) ==> portable_path(p) ==> r@ == match file_name_of(
            p,
        ) {
            Some(n) => n,
            None => p,
        },
{
    let directory = model.working_directory();
    let file_name = match directory {
        Some(path) => path_file_name(path),
        None => None,
    };
    let r = working_directory_label_for(
        directory,
        file_name,
        model.selected_codex_thread.is_some(),
        locale,
    );
    proof {
        if let Some(p) = directory {
            if file_name is None {
                assert(crate::text::occurs_at(p@, p@, 0)) by {
                    assert(p@.subrange(0, p@.len() as int) =~= p@);
                }
            }
        }
    }
    r
}


/// What the workspace header knows about the selected agent: whether it is
/// installed and whether it is signed in.
#[derive(Clone, Copy, Debug, PartialEq, Eq, Structural)]
pub struct AgentProbe {
    pub available: bool,
    pub authenticated: bool,
}

/// Which kind of status the header shows.
#[derive(Clone, Copy, Debug, PartialEq, Eq, Structural)]
pub enum HeaderStatusKind {
    /// A run of another conversation is going on.
    Background,
    /// Something is under way in this conversation.
    Pending,
    /// Nothing is under way.
    Settled,
}

/// What the workspace header is drawn from.
pub struct HeaderModel {
    /// A history thread is being read.
    pub history: bool,
    /// This conversation has a run.
    pub active_run: bool,
    /// Runs going on across all conversations.
    pub running_count: usize,
    /// A history thread is being loaded.
    pub thread_loading: bool,
    pub model_catalog: ModelCatalogState,
    /// The status of the selected conversation's last run.
    pub task_status: Option<RunStatus>,
    /// The title of the selected history thread, if it is known.
    pub thread_title: Option<String>,
    /// The title of the selected conversation, if there is one.
    pub task_title: Option<String>,
    /// The selected project: its name and its path.
    pub project: Option<(String, String)>,
    pub probe: Option<AgentProbe>,
    /// The selected provider profile has its credential configured.
    pub profile_ready: bool,
    /// The application's status line.
    pub status_text: String,
}

/// The workspace header: the project, its tooltip, the conversation, the
/// status line, its colour and its kind.
pub struct WorkspaceHeader {
    pub project: String,
    pub project_tooltip: String,
    pub task: Option<String>,
    pub status: String,
    pub status_color: ColorRole,
    pub status_kind: HeaderStatusKind,
}

/// Something is under way: a run of this conversation, a history thread
/// loading, or (outside history) the model catalog loading.
pub open spec fn header_pending(m: HeaderModel) -> bool {
    m.active_run || m.thread_loading || (!m.history && m.model_catalog is Loading)
}

/// The colour of the header's status: the accent while something is under
/// way; the danger colour for a catalog that failed or is not ready, or a
/// failed run (outside history); the warning colour for a cancelled or
/// interrupted run; else the agent's readiness: success when it is installed
/// and signed in (or its profile has a credential), danger when not, muted
/// when unknown.
pub open spec fn header_color(m: HeaderModel) -> ColorRole {
    if header_pending(m) {
        ColorRole::Accent
    } else if !m.history && (m.model_catalog is Failed || m.model_catalog is NotReady || m.task_status
        == Some(RunStatus::Failed)) {
        ColorRole::Danger
    } else if m.task_status == Some(RunStatus::Cancelled) || m.task_status == Some(
        RunStatus::Interrupted,
    ) {
        ColorRole::Warning
    } else {
        match m.probe {
            Some(p) => if p.available && (p.authenticated || m.profile_ready) {
                ColorRole::Success
            } else {
                ColorRole::Danger
            },
            None => ColorRole::Muted,
        }
    }
}

/// A run goes on in another conversation only.
pub open spec fn background_run(m: HeaderModel) -> bool {
    !m.active_run && m.running_count > 0
}

/// The header's texts and status for `m`.
pub open spec fn header_of(m: HeaderModel, l: Language) -> (Seq<char>, Seq<char>, Option<Seq<char>>, Seq<char>) {
    let project = if m.history {
        translation(l, Text::CodexHistory)
    } else {
        match m.project {
            Some(p) => p.0@,
            None => translation(l, Text::NoProject),
        }
    };
    let tooltip = if m.history {
        project
    } else {
        match m.project {
            Some(p) => p.0@ + "\n"@ + p.1@,
            None => project,
        }
    };
    let task = match m.thread_title {
        Some(t) => Some(t@),
        None => match m.project {
            Some(_) => Some(
                match m.task_title {
                    Some(t) => t@,
                    None => translation(l, Text::NewTask),
                },
            ),
            None => None,
        },
    };
    let status = if background_run(m) {
        translation(l, Text::OtherTasksPrefix) + m.status_text@
    } else {
        m.status_text@
    };
    (project, tooltip, task, status)
}

/// The workspace header for `model`.
pub fn workspace_header(model: &HeaderModel, locale: Language) -> (h: WorkspaceHeader)
    ensures
        (h.project@, h.project_tooltip@, match h.task {
            Some(t) => Some(t@),
            None => None,
        }, h.status@) == header_of(*model, locale),
        h.status_color == header_color(*model),
        h.status_kind == (if background_run(*model) {
            HeaderStatusKind::Background
        } else if header_pending(*model) {
            HeaderStatusKind::Pending
        } else {
            HeaderStatusKind::Settled
        }),
{
    let catalog_loading = match &model.model_catalog {
        ModelCatalogState::Loading { .. } => true,
        _ => false,
    };
    let catalog_broken = match &model.model_catalog {
        ModelCatalogState::Failed { .. } | ModelCatalogState::NotReady(_) => true,
        _ => false,
    };
    let pending = model.active_run || model.thread_loading || (!model.history && catalog_loading);
    let failed = match model.task_status {
        Some(RunStatus::Failed) => true,
        _ => false,
    };
    let stopped = match model.task_status {
        Some(RunStatus::Cancelled) | Some(RunStatus::Interrupted) => true,
        _ => false,
    };
    let status_color = if pending {
        ColorRole::Accent
    } else if !model.history && (catalog_broken || failed) {
        ColorRole::Danger
    } else if stopped {
        ColorRole::Warning
    } else {
        match model.probe {
            Some(p) => if p.available && (p.authenticated || model.profile_ready) {
                ColorRole::Success
            } else {
                ColorRole::Danger
            },
            None => ColorRole::Muted,
        }
    };
    let background = !model.active_run && model.running_count > 0;
    let project = if model.history {
        locale.text(Text::CodexHistory).to_owned()
    } else {
        match &model.project {
            Some(p) => p.0.clone(),
            None => locale.text(Text::NoProject).to_owned(),
        }
    };
    let project_tooltip = if model.history {
        project.clone()
    } else {
        match &model.project {
            Some(p) => {
                let mut t = to_chars(p.0.as_str());
                crate::text::push_all(&mut t, to_chars("\n").as_slice());
                crate::text::push_all(&mut t, to_chars(p.1.as_str()).as_slice());
                from_chars(t.as_slice())
            },
            None => project.clone(),
        }
    };
    let task = match &model.thread_title {
        Some(t) => Some(t.clone()),
        None => match &model.project {
            Some(_) => Some(
                match &model.task_title {
                    Some(t) => t.clone(),
                    None => locale.text(Text::NewTask).to_owned(),
                },
            ),
            None => None,
        },
    };
    let status = if background {
        let mut t = to_chars(locale.text(Text::OtherTasksPrefix));
        crate::text::push_all(&mut t, to_chars(model.status_text.as_str()).as_slice());
        from_chars(t.as_slice())
    } else {
        model.status_text.clone()
    };
    let status_kind = if background {
        HeaderStatusKind::Background
    } else if pending {
        HeaderStatusKind::Pending
    } else {
        HeaderStatusKind::Settled
    };
    WorkspaceHeader { project, project_tooltip, task, status, status_color, status_kind }
}


/// The hint under the composer: read-only history, no project, a busy
/// agent, an agent not ready, else the send shortcut of the platform
/// (`⌘` on macOS, `Ctrl` elsewhere).
pub open spec fn hint_text(history: bool, has_project: bool, active_run: bool, can_submit: bool, mac: bool) -> Text {
    if history {
        Text::HintReadOnlyHistory
    } else if !has_project {
        Text::HintChooseProject
    } else if active_run {
        Text::HintAgentBusy
    } else if !can_submit {
        Text::HintAgentNotReady
    } else if mac {
        Text::HintSendCommand
    } else {
        Text::HintSendControl
    }
}

/// The hint shown under the composer.
pub fn composer_hint(
    history: bool,
    has_project: bool,
    active_run: bool,
    can_submit: bool,
    mac: bool,
    locale: Language,
) -> (s: &'static str)
    ensures
        s@ == translation(locale, hint_text(history, has_project, active_run, can_submit, mac)),
{
    locale.text(
        if history {
            Text::HintReadOnlyHistory
        } else if !has_project {
            Text::HintChooseProject
        } else if active_run {
            Text::HintAgentBusy
        } else if !can_submit {
            Text::HintAgentNotReady
        } else if mac {
            Text::HintSendCommand
        } else {
            Text::HintSendControl
        },
    )
}


/// Who wrote a conversation message.
#[derive(Clone, Copy, Debug, PartialEq, Eq, Structural)]
pub enum MessageRole {
    User,
    Assistant,
    Tool,
    System,
}

/// The caption of a message's author.
pub open spec fn role_label(role: MessageRole) -> Seq<char> {
    match role {
        MessageRole::User => "You"@,
        MessageRole::Assistant => "Agent"@,
        MessageRole::Tool => "Tool"@,
        MessageRole::System => "System"@,
    }
}

/// How a message card is laid out.
#[derive(Clone, Copy, Debug, PartialEq, Eq, Structural)]
pub struct MessageLayout {
    /// Drawn as the user's bubble, on the right.
    pub is_user: bool,
    /// Drawn as a panel: tool traffic and errors.
    pub is_panel: bool,
    /// The author's caption is shown.
    pub show_label: bool,
    /// Long tool output that starts folded to three lines.
    pub collapsible: bool,
}

/// Tool calls and results are panels, and so are errors.
pub open spec fn is_panel_kind(kind: MessageKind) -> bool {
    kind == MessageKind::ToolCall || kind == MessageKind::ToolResult || kind == MessageKind::Error
}

/// The layout of a message: tool traffic longer than six lines or four
/// hundred characters can be folded; the caption is shown for everyone but
/// the user, and for the agent only on panels.
pub open spec fn layout_of(role: MessageRole, kind: MessageKind, content: Seq<char>) -> MessageLayout {
    MessageLayout {
        is_user: role == MessageRole::User,
        is_panel: is_panel_kind(kind),
        show_label: role != MessageRole::User && (role != MessageRole::Assistant || is_panel_kind(kind)),
        collapsible: (kind == MessageKind::ToolCall || kind == MessageKind::ToolResult) && (lines(
            content,
        ).len() > 6 || content.len() > 400),
    }
}

/// The caption of a message's author.
pub fn message_label(role: MessageRole) -> (s: &'static str)
    ensures
        s@ == role_label(role),
{
    match role {
        MessageRole::User => "You",
        MessageRole::Assistant => "Agent",
        MessageRole::Tool => "Tool",
        MessageRole::System => "System",
    }
}

/// The layout of a message card.
pub fn message_layout(role: MessageRole, kind: MessageKind, content: &str) -> (l: MessageLayout)
    ensures
        l == layout_of(role, kind, content@),
{
    let is_panel = match kind {
        MessageKind::ToolCall | MessageKind::ToolResult | MessageKind::Error => true,
        _ => false,
    };
    let tool = match kind {
        MessageKind::ToolCall | MessageKind::ToolResult => true,
        _ => false,
    };
    let collapsible = if tool {
        let c = to_chars(content);
        let ls = split_lines(c.as_slice());
        assert(ls@.len() == crate::review::char_views(ls@).len());
        ls.len() > 6 || c.len() > 400
    } else {
        false
    };
    let is_user = role == MessageRole::User;
    MessageLayout {
        is_user,
        is_panel,
        show_label: !is_user && (role != MessageRole::Assistant || is_panel),
        collapsible,
    }
}

/// The label of the button that folds or unfolds long tool output.
pub fn disclosure_label(expanded: bool) -> (s: &'static str)
    ensures
        s@ == (if expanded {
            "收起工具输出"@
        } else {
            "展开完整工具输出"@
        }),
{
    if expanded {
        "收起工具输出"
    } else {
        "展开完整工具输出"
    }
}

} // verus!
