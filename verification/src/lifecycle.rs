//! Decisions taken when the user quits the application or closes its window.

use vstd::prelude::*;
use crate::i18n::{translation, Language, Text};
use crate::text::{decimal, decimal_chars, from_chars, push_all, to_chars};

verus! {

/// What quitting does.
#[derive(Clone, Copy, Debug, PartialEq, Eq, Structural)]
pub enum QuitAction {
    /// Nothing is running: stop at once.
    Shutdown,
    /// Tasks are running: ask before interrupting them.
    Confirm,
}

/// Quitting stops at once when no task runs, and asks first otherwise.
pub fn quit_action(running: usize) -> (a: QuitAction)
    ensures
        a == (if running == 0 {
            QuitAction::Shutdown
        } else {
            QuitAction::Confirm
        }),
{
    if running == 0 {
        QuitAction::Shutdown
    } else {
        QuitAction::Confirm
    }
}

/// The question asked before quitting with `running` tasks.
pub fn quit_message(locale: Language, running: usize) -> (m: String)
    ensures
        m@ == translation(locale, Text::QuitRunningPrefix) + decimal(running as nat) + translation(
            locale,
            Text::QuitRunningSuffix,
        ),
{
    let mut out = to_chars(locale.text(Text::QuitRunningPrefix));
    push_all(&mut out, decimal_chars(running).as_slice());
    push_all(&mut out, to_chars(locale.text(Text::QuitRunningSuffix)).as_slice());
    from_chars(out.as_slice())
}

/// The answer to the quit question stops the tasks only when the first
/// button, "quit", was chosen.
pub fn quit_confirmed(answer: Option<usize>) -> (b: bool)
    ensures
        b == (answer == Some(0usize)),
{
    match answer {
        Some(0) => true,
        _ => false,
    }
}

/// What the status item does to the main window.
#[derive(Clone, Copy, Debug, PartialEq, Eq, Structural)]
pub enum WindowAction {
    /// Unhide the application and bring the window to the front.
    Show,
    /// Hide the application; tasks keep running.
    Hide,
}

/// The status item entry toggles: a hidden window is shown, a shown one is
/// hidden.
pub fn toggle_window(hidden: bool) -> (a: WindowAction)
    ensures
        a == (if hidden {
            WindowAction::Show
        } else {
            WindowAction::Hide
        }),
{
    if hidden {
        WindowAction::Show
    } else {
        WindowAction::Hide
    }
}

/// ⌘N brings the window back only when it is hidden: pressed while the
/// window is visible it must not take the focus away from where it is.
pub fn new_task_shows_window(hidden: bool) -> (show: bool)
    ensures
        show == hidden,
{
    hidden
}

/// Before the quit question is asked, a hidden window is shown so that the
/// question can be read; quitting with nothing running shows nothing.
pub fn quit_shows_window(running: usize, hidden: bool) -> (show: bool)
    ensures
        show == (running > 0 && hidden),
{
    running > 0 && hidden
}

/// Platforms whose main window reacts to a close request.
#[derive(Clone, Copy, Debug, PartialEq, Eq, Structural)]
pub enum ClosePlatform {
    MacOs,
    Windows,
}

/// What a close request on the main window does besides closing it or not.
#[derive(Clone, Copy, Debug, PartialEq, Eq, Structural)]
pub enum CloseEffect {
    /// The application is hidden; tasks keep running.
    Hide,
    /// Nothing else happens.
    Nothing,
    /// The quit question is asked.
    AskToQuit,
}

/// On macOS the main window is never closed but hidden. On Windows it closes
/// when no task runs; otherwise the quit question is asked and the window
/// stays.
pub fn should_close_window(platform: ClosePlatform, running: usize) -> (r: (bool, CloseEffect))
    ensures
        r == match platform {
            ClosePlatform::MacOs => (false, CloseEffect::Hide),
            ClosePlatform::Windows => if running == 0 {
                (true, CloseEffect::Nothing)
            } else {
                (false, CloseEffect::AskToQuit)
            },
        },
{
    match platform {
        ClosePlatform::MacOs => (false, CloseEffect::Hide),
        ClosePlatform::Windows => if running == 0 {
            (true, CloseEffect::Nothing)
        } else {
            (false, CloseEffect::AskToQuit)
        },
    }
}


/// A question asked before something is deleted for good: its message, its
/// detail, and the labels of its two buttons.
pub struct ConfirmPrompt {
    pub message: String,
    pub detail: String,
    pub confirm: String,
    pub cancel: String,
}

/// A conversation as the deletion prompt sees it: its id (the UUID as an
/// integer) and its title.
pub struct TaskEntry {
    pub id: u128,
    pub title: String,
}

/// The title of the first conversation of `tasks` with id `id`.
pub open spec fn find_title(tasks: Seq<TaskEntry>, id: u128) -> Option<Seq<char>>
    decreases tasks.len(),
{
    if tasks.len() == 0 {
        None
    } else if tasks[0].id == id {
        Some(tasks[0].title@)
    } else {
        find_title(tasks.drop_first(), id)
    }
}

fn title_in(tasks: &[TaskEntry], id: u128) -> (r: Option<String>)
    ensures
        match r {
            Some(t) => find_title(tasks@, id) == Some(t@),
            None => find_title(tasks@, id) is None,
        },
{
    let mut i: usize = 0;
    assert(tasks@.skip(0) =~= tasks@);
    while i < tasks.len()
        invariant
            i <= tasks@.len(),
            find_title(tasks@, id) == find_title(tasks@.skip(i as int), id),
        decreases tasks.len() - i,
    {
        assert(tasks@.skip(i as int)[0] == tasks@[i as int]);
        assert(tasks@.skip(i as int).drop_first() =~= tasks@.skip(i + 1));
        if tasks[i].id == id {
            return Some(tasks[i].title.clone());
        }
        i = i + 1;
    }
    None
}

/// The question asked before deleting conversation `id`, looked up among the
/// open conversations and then the archived ones; none when it is in neither.
pub fn delete_task_prompt(locale: Language, tasks: &[TaskEntry], archived: &[TaskEntry], id: u128) -> (r:
    Option<ConfirmPrompt>)
    ensures
        ({
            let title = match find_title(tasks@, id) {
                Some(t) => Some(t),
                None => find_title(archived@, id),
            };
            match r {
                None => title is None,
                Some(p) => title matches Some(t) && p.message@ == translation(
                    locale,
                    Text::DeleteTaskPrefix,
                ) + t + translation(locale, Text::DeleteTaskSuffix) && p.detail@ == translation(
                    locale,
                    Text::DeleteTaskDetail,
                ) && p.confirm@ == translation(locale, Text::DeletePermanently) && p.cancel@
                    == translation(locale, Text::Cancel),
            }
        }),
{
    let title = match title_in(tasks, id) {
        Some(t) => t,
        None => match title_in(archived, id) {
            Some(t) => t,
            None => {
                return None;
            },
        },
    };
    let mut message = to_chars(locale.text(Text::DeleteTaskPrefix));
    push_all(&mut message, to_chars(title.as_str()).as_slice());
    push_all(&mut message, to_chars(locale.text(Text::DeleteTaskSuffix)).as_slice());
    Some(
        ConfirmPrompt {
            message: from_chars(message.as_slice()),
            detail: locale.text(Text::DeleteTaskDetail).to_owned(),
            confirm: locale.text(Text::DeletePermanently).to_owned(),
            cancel: locale.text(Text::Cancel).to_owned(),
        },
    )
}

/// The question asked before deleting all `count` archived conversations;
/// none when there is nothing to delete or a run is active.
pub fn delete_archived_prompt(locale: Language, count: usize, running: bool) -> (r: Option<ConfirmPrompt>)
    ensures
        r is None <==> (count == 0 || running),
        r matches Some(p) ==> p.message@ == translation(locale, Text::DeleteArchivedPrefix) + decimal(
            count as nat,
        ) + translation(locale, Text::DeleteArchivedSuffix) && p.detail@ == translation(
            locale,
            Text::DeleteArchivedDetailPrefix,
        ) + decimal(count as nat) + translation(locale, Text::DeleteArchivedDetailSuffix)
            && p.confirm@ == translation(locale, Text::DeleteAll) && p.cancel@ == translation(
            locale,
            Text::Cancel,
        ),
{
    if count == 0 || running {
        return None;
    }
    let digits = decimal_chars(count);
    let mut message = to_chars(locale.text(Text::DeleteArchivedPrefix));
    push_all(&mut message, digits.as_slice());
    push_all(&mut message, to_chars(locale.text(Text::DeleteArchivedSuffix)).as_slice());
    let mut detail = to_chars(locale.text(Text::DeleteArchivedDetailPrefix));
    push_all(&mut detail, digits.as_slice());
    push_all(&mut detail, to_chars(locale.text(Text::DeleteArchivedDetailSuffix)).as_slice());
    Some(
        ConfirmPrompt {
            message: from_chars(message.as_slice()),
            detail: from_chars(detail.as_slice()),
            confirm: locale.text(Text::DeleteAll).to_owned(),
            cancel: locale.text(Text::Cancel).to_owned(),
        },
    )
}

} // verus!
