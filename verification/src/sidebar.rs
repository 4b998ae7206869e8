//! Sidebar decisions: the project rows, the update badge and the settings
//! entry.

use vstd::prelude::*;
use crate::components::{AgentProbe, ColorRole};
use crate::i18n::Text;
use crate::settings::SettingsSection;

verus! {

/// What a click on a project row leaves behind: whether the project becomes
/// the selected one, and whether its row is collapsed afterwards.
pub struct ProjectClick {
    pub select: bool,
    pub collapsed: bool,
}

/// A click on a project row. Another project's row selects that project and
/// opens it; the selected project's row opens or folds it.
pub fn project_click(selected: bool, collapsed: bool) -> (c: ProjectClick)
    ensures
        c.select == !selected,
        c.collapsed == (selected && !collapsed),
{
    if !selected {
        ProjectClick { select: true, collapsed: false }
    } else {
        ProjectClick { select: false, collapsed: !collapsed }
    }
}

/// Where an update of the application stands, once a package is known.
#[derive(Clone, Copy, Debug, PartialEq, Eq, Structural)]
pub enum UpdateStage {
    Available,
    Downloading,
    Ready,
    Installing,
}

/// The badge beside the settings entry: none without an update package,
/// otherwise what the update is doing.
pub fn update_badge(stage: Option<UpdateStage>) -> (t: Option<Text>)
    ensures
        t == match stage {
            None => None,
            Some(UpdateStage::Available) => Some(Text::UpdateAvailable),
            Some(UpdateStage::Installing) => Some(Text::InstallingUpdate),
            Some(UpdateStage::Ready) => Some(Text::WaitingToInstall),
            Some(UpdateStage::Downloading) => Some(Text::DownloadingUpdate),
        },
{
    match stage {
        None => None,
        Some(UpdateStage::Available) => Some(Text::UpdateAvailable),
        Some(UpdateStage::Installing) => Some(Text::InstallingUpdate),
        Some(UpdateStage::Ready) => Some(Text::WaitingToInstall),
        Some(UpdateStage::Downloading) => Some(Text::DownloadingUpdate),
    }
}

/// The status dot of the settings entry: success when the selected agent is
/// installed and signed in, a warning when it is not, muted when it was not
/// probed.
pub fn settings_status_color(probe: Option<AgentProbe>) -> (c: ColorRole)
    ensures
        c == match probe {
            None => ColorRole::Muted,
            Some(p) => if p.available && p.authenticated {
                ColorRole::Success
            } else {
                ColorRole::Warning
            },
        },
{
    match probe {
        None => ColorRole::Muted,
        Some(p) => if p.available && p.authenticated {
            ColorRole::Success
        } else {
            ColorRole::Warning
        },
    }
}

/// The settings page a click on the settings entry opens at: the general
/// page, where the update is, while an update package is known; otherwise
/// the page last shown.
pub fn settings_click_section(has_package: bool, current: SettingsSection) -> (s: SettingsSection)
    ensures
        s == if has_package {
            SettingsSection::General
        } else {
            current
        },
{
    if has_package {
        SettingsSection::General
    } else {
        current
    }
}

} // verus!
