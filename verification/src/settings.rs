//! Settings navigation and the display of secrets.

use vstd::prelude::*;
use crate::i18n::{translation, Language, Text};
use crate::text::{chars_eq, chars_from, chars_until, from_chars, push_all, to_chars, trim, trim_chars};

verus! {

/// A page of the settings window.
#[derive(Clone, Copy, Debug, PartialEq, Eq, Structural)]
pub enum SettingsSection {
    General,
    Appearance,
    Agent,
    Voice,
    Providers,
    Remote,
    Archived,
}

/// The icon shown beside a settings page.
#[derive(Clone, Copy, Debug, PartialEq, Eq, Structural)]
pub enum SettingsIcon {
    Settings2,
    Palette,
    Bot,
    Mic,
    Cpu,
    Globe,
    Inbox,
}

/// The stable identifier of a settings page.
pub open spec fn section_id(s: SettingsSection) -> Seq<char> {
    match s {
        SettingsSection::General => "general"@,
        SettingsSection::Appearance => "appearance"@,
        SettingsSection::Agent => "agent"@,
        SettingsSection::Voice => "voice"@,
        SettingsSection::Providers => "providers"@,
        SettingsSection::Remote => "remote"@,
        SettingsSection::Archived => "archived"@,
    }
}

/// The text naming a settings page.
pub open spec fn section_label(s: SettingsSection) -> Text {
    match s {
        SettingsSection::General => Text::SettingsGeneral,
        SettingsSection::Appearance => Text::SettingsAppearance,
        SettingsSection::Agent => Text::SettingsAgent,
        SettingsSection::Voice => Text::SettingsVoice,
        SettingsSection::Providers => Text::SettingsProviders,
        SettingsSection::Remote => Text::SettingsRemote,
        SettingsSection::Archived => Text::SettingsArchived,
    }
}

/// The icon of a settings page.
pub open spec fn section_icon(s: SettingsSection) -> SettingsIcon {
    match s {
        SettingsSection::General => SettingsIcon::Settings2,
        SettingsSection::Appearance => SettingsIcon::Palette,
        SettingsSection::Agent => SettingsIcon::Bot,
        SettingsSection::Voice => SettingsIcon::Mic,
        SettingsSection::Providers => SettingsIcon::Cpu,
        SettingsSection::Remote => SettingsIcon::Globe,
        SettingsSection::Archived => SettingsIcon::Inbox,
    }
}

/// No two settings pages share an identifier, so each navigation entry
/// (`settings-nav-<id>`) names one page.
pub proof fn lemma_section_ids_distinct(a: SettingsSection, b: SettingsSection)
    requires
        a != b,
    ensures
        section_id(a) != section_id(b),
{
    reveal_strlit("general");
    reveal_strlit("appearance");
    reveal_strlit("agent");
    reveal_strlit("voice");
    reveal_strlit("providers");
    reveal_strlit("remote");
    reveal_strlit("archived");
    if section_id(a).len() == section_id(b).len() {
        assert(section_id(a)[0] != section_id(b)[0] || section_id(a)[1] != section_id(b)[1]);
    }
}

impl SettingsSection {
    /// The pages in navigation order.
    pub fn all() -> (pages: [SettingsSection; 7])
        ensures
            pages@ == seq![
                SettingsSection::General,
                SettingsSection::Appearance,
                SettingsSection::Agent,
                SettingsSection::Voice,
                SettingsSection::Providers,
                SettingsSection::Remote,
                SettingsSection::Archived,
            ],
    {
        let pages = [
            SettingsSection::General,
            SettingsSection::Appearance,
            SettingsSection::Agent,
            SettingsSection::Voice,
            SettingsSection::Providers,
            SettingsSection::Remote,
            SettingsSection::Archived,
        ];
        assert(pages@ =~= seq![
            SettingsSection::General,
            SettingsSection::Appearance,
            SettingsSection::Agent,
            SettingsSection::Voice,
            SettingsSection::Providers,
            SettingsSection::Remote,
            SettingsSection::Archived,
        ]);
        pages
    }

    /// The stable identifier of this page.
    pub fn id(self) -> (s: &'static str)
        ensures
            s@ == section_id(self),
    {
        match self {
            SettingsSection::General => "general",
            SettingsSection::Appearance => "appearance",
            SettingsSection::Agent => "agent",
            SettingsSection::Voice => "voice",
            SettingsSection::Providers => "providers",
            SettingsSection::Remote => "remote",
            SettingsSection::Archived => "archived",
        }
    }

    /// The name of this page.
    pub fn label(self, locale: Language) -> (s: &'static str)
        ensures
            s@ == translation(locale, section_label(self)),
    {
        locale.text(
            match self {
                SettingsSection::General => Text::SettingsGeneral,
                SettingsSection::Appearance => Text::SettingsAppearance,
                SettingsSection::Agent => Text::SettingsAgent,
                SettingsSection::Voice => Text::SettingsVoice,
                SettingsSection::Providers => Text::SettingsProviders,
                SettingsSection::Remote => Text::SettingsRemote,
                SettingsSection::Archived => Text::SettingsArchived,
            },
        )
    }

    /// The icon of this page.
    pub fn icon(self) -> (i: SettingsIcon)
        ensures
            i == section_icon(self),
    {
        match self {
            SettingsSection::General => SettingsIcon::Settings2,
            SettingsSection::Appearance => SettingsIcon::Palette,
            SettingsSection::Agent => SettingsIcon::Bot,
            SettingsSection::Voice => SettingsIcon::Mic,
            SettingsSection::Providers => SettingsIcon::Cpu,
            SettingsSection::Remote => SettingsIcon::Globe,
            SettingsSection::Archived => SettingsIcon::Inbox,
        }
    }
}

/// A token as shown on screen: short tokens are fully hidden; longer ones
/// keep their first six and last four characters.
pub open spec fn masked(token: Seq<char>) -> Seq<char> {
    if token.len() <= 10 {
        "••••••••"@
    } else {
        token.take(6) + "••••"@ + token.skip(token.len() - 4)
    }
}

/// A masked token shows at most ten of its characters (its first six and
/// last four) and does not give away its length: the mask is eight bullets
/// for a short token and fourteen characters for any longer one.
pub proof fn lemma_masked_shape(token: Seq<char>)
    ensures
        masked(token).len() == (if token.len() <= 10 {
            8nat
        } else {
            14nat
        }),
        token.len() > 10 ==> masked(token).take(6) == token.take(6) && masked(token).skip(10)
            == token.skip(token.len() - 4),
{
    reveal_strlit("••••••••");
    reveal_strlit("••••");
    if token.len() > 10 {
        let m = masked(token);
        assert(m.take(6) =~= token.take(6));
        assert(m.skip(10) =~= token.skip(token.len() - 4));
    }
}

/// The token with its middle hidden.
pub fn masked_token(token: &str) -> (r: String)
    ensures
        r@ == masked(token@),
{
    let t = to_chars(token);
    if t.len() <= 10 {
        return "••••••••".to_owned();
    }
    let mut out = chars_until(t.as_slice(), 6);
    push_all(&mut out, to_chars("••••").as_slice());
    push_all(&mut out, chars_from(t.as_slice(), t.len() - 4).as_slice());
    from_chars(out.as_slice())
}


/// The agent command-line tools.
#[derive(Clone, Copy, Debug, PartialEq, Eq, Structural)]
pub enum HarnessKind {
    Claude,
    Codex,
    Omp,
}

/// The environment variables a new provider profile of a harness reads its
/// key and its base URL from (no variable for the base URL: empty).
pub open spec fn environment_defaults(h: HarnessKind) -> (Seq<char>, Seq<char>) {
    match h {
        HarnessKind::Claude => ("ANTHROPIC_API_KEY"@, "ANTHROPIC_BASE_URL"@),
        HarnessKind::Codex => ("CODEX_API_KEY"@, "OPENAI_BASE_URL"@),
        HarnessKind::Omp => ("DEEPSEEK_API_KEY"@, ""@),
    }
}

/// The key and base-URL variables a new profile of `harness` starts with.
pub fn provider_environment_defaults(harness: HarnessKind) -> (r: (&'static str, &'static str))
    ensures
        (r.0@, r.1@) == environment_defaults(harness),
{
    match harness {
        HarnessKind::Claude => ("ANTHROPIC_API_KEY", "ANTHROPIC_BASE_URL"),
        HarnessKind::Codex => ("CODEX_API_KEY", "OPENAI_BASE_URL"),
        HarnessKind::Omp => ("DEEPSEEK_API_KEY", ""),
    }
}

/// A saved provider profile; its id is the profile's UUID as an integer.
pub struct ProviderProfile {
    pub id: u128,
    pub name: String,
    pub api_key_env: String,
    pub base_url_env: Option<String>,
    pub base_url: Option<String>,
    pub model: Option<String>,
}

/// The provider-profile form: the profile it edits (none for a new one) and
/// its fields. The key itself is never shown again.
pub struct ProviderProfileDraft {
    pub id: Option<u128>,
    pub name: String,
    pub api_key_env: String,
    pub api_key: String,
    pub base_url_env: String,
    pub base_url: String,
    pub model: String,
}

/// The text of an optional field, empty when absent.
pub open spec fn or_empty(s: Option<String>) -> Seq<char> {
    match s {
        Some(v) => v@,
        None => Seq::empty(),
    }
}

fn text_or_empty(s: &Option<String>) -> (r: String)
    ensures
        r@ == or_empty(*s),
{
    match s {
        Some(v) => v.clone(),
        None => String::new(),
    }
}

/// The form that edits `profile`, or a fresh form for `harness` with its
/// default variables.
pub fn profile_form_draft(profile: Option<&ProviderProfile>, harness: HarnessKind) -> (d: ProviderProfileDraft)
    ensures
        d.api_key@ == Seq::<char>::empty(),
        match profile {
            Some(p) => d.id == Some(p.id) && d.name@ == p.name@ && d.api_key_env@ == p.api_key_env@
                && d.base_url_env@ == or_empty(p.base_url_env) && d.base_url@ == or_empty(p.base_url)
                && d.model@ == or_empty(p.model),
            None => d.id is None && d.name@ == Seq::<char>::empty() && d.api_key_env@
                == environment_defaults(harness).0 && d.base_url_env@ == environment_defaults(harness).1
                && d.base_url@ == Seq::<char>::empty() && d.model@ == Seq::<char>::empty(),
        },
{
    let (default_api_key_env, default_base_url_env) = provider_environment_defaults(harness);
    match profile {
        Some(p) => ProviderProfileDraft {
            id: Some(p.id),
            name: p.name.clone(),
            api_key_env: p.api_key_env.clone(),
            api_key: String::new(),
            base_url_env: text_or_empty(&p.base_url_env),
            base_url: text_or_empty(&p.base_url),
            model: text_or_empty(&p.model),
        },
        None => ProviderProfileDraft {
            id: None,
            name: String::new(),
            api_key_env: default_api_key_env.to_owned(),
            api_key: String::new(),
            base_url_env: default_base_url_env.to_owned(),
            base_url: String::new(),
            model: String::new(),
        },
    }
}

/// What a harness card in the settings shows and which of its buttons are
/// offered or disabled.
pub struct HarnessCard {
    /// The current-version field.
    pub version: String,
    /// The update and install buttons are disabled.
    pub actions_disabled: bool,
    /// The copy-command button is offered.
    pub show_copy_command: bool,
    /// The update button is offered.
    pub show_update: bool,
    /// The install menu is offered.
    pub show_install: bool,
    /// The rescan button is disabled.
    pub rescan_disabled: bool,
}

/// The current-version field of a harness card: the scanned version, or why
/// there is none.
pub open spec fn harness_version(
    scanned: bool,
    installed: bool,
    version: Option<String>,
    locale: Language,
) -> Seq<char> {
    if !scanned {
        translation(locale, Text::NotScanned)
    } else {
        match version {
            Some(v) => v@,
            None => if installed {
                translation(locale, Text::VersionUnknown)
            } else {
                translation(locale, Text::NotInstalled)
            },
        }
    }
}

/// The card of one harness. `draft` is the executable field as typed and
/// `executable` the saved one; `scanned` says whether the harness has been
/// scanned at all, `installed` whether an executable was found, `has_update`
/// whether an update command is known, `update_available` whether it leads
/// to a newer version, and `install_options` how many ways to install it
/// there are. Maintenance is refused while the agent is busy, a run is
/// active, or the executable field holds unsaved changes.
pub fn harness_card(
    busy: bool,
    active_run: bool,
    draft: &str,
    executable: &str,
    scanned: bool,
    installed: bool,
    version: Option<String>,
    has_update: bool,
    update_available: bool,
    install_options: usize,
    locale: Language,
) -> (c: HarnessCard)
    ensures
        c.actions_disabled == (busy || active_run || trim(draft@) != executable@),
        c.version@ == harness_version(scanned, installed, version, locale),
        c.show_copy_command == has_update,
        c.show_update == (has_update && update_available),
        c.show_install == (install_options > 0),
        c.rescan_disabled == (busy || active_run),
{
    let typed = trim_chars(to_chars(draft).as_slice());
    let saved = to_chars(executable);
    let unsaved = !chars_eq(typed.as_slice(), saved.as_slice());
    let text = if !scanned {
        locale.text(Text::NotScanned).to_owned()
    } else {
        match version {
            Some(v) => v,
            None => if installed {
                locale.text(Text::VersionUnknown).to_owned()
            } else {
                locale.text(Text::NotInstalled).to_owned()
            },
        }
    };
    HarnessCard {
        version: text,
        actions_disabled: busy || active_run || unsaved,
        show_copy_command: has_update,
        show_update: has_update && update_available,
        show_install: install_options > 0,
        rescan_disabled: busy || active_run,
    }
}

} // verus!
