//! The decisions of the main loop: whether a configuration can start,
//! what a command does, and where an event goes. The loop's outside work
//! (the environment, the accounts, the terminal, the components) is
//! handed back as actions for the caller to perform.
use vstd::prelude::*;
use vstd::string::*;
use crate::events::{
    batch_target_spec, notice_message, notice_spec, notification_text, notification_spec, opt_view,
    refresh_batch_target,
};

verus! {

broadcast use vstd::string::group_string_axioms;

/// Why a configuration cannot start.
#[derive(Clone, Debug, PartialEq, Eq)]
pub struct ConfigError {
    pub message: String,
}

/// The message of a configuration without accounts.
pub open spec fn no_accounts_msg() -> Seq<char> {
    "No accounts are configured. Add at least one `[accounts.<name>]` section to your configuration file; see the `accounts` section of meli.conf(5)."@
}

/// A configuration with `accounts` accounts can start exactly when it has
/// one: without, the error says so (the mail listing needs an account).
pub fn check_settings(accounts: usize) -> (r: Result<(), ConfigError>)
    ensures
        r is Err <==> accounts == 0,
        r matches Err(e) ==> e.message@ == no_accounts_msg(),
{
    if accounts == 0 {
        return Err(
            ConfigError {
                message: String::from_str(
                    "No accounts are configured. Add at least one `[accounts.<name>]` section to your configuration file; see the `accounts` section of meli.conf(5).",
                ),
            },
        );
    }
    Ok(())
}

/// An account as the commands see it: its name and whether its search
/// backend is the sqlite3 index.
#[derive(Clone, Debug)]
pub struct AccountInfo {
    pub name: String,
    pub sqlite_index: bool,
}

/// What the main loop keeps of its own between events.
#[derive(Clone, Debug)]
pub struct MainState {
    /// An exit was asked for; the loop ends after this turn.
    pub exit_requested: bool,
    /// The expiry clock of the message box was started by a key.
    pub message_expiry_started: bool,
    /// A foreground child owns the terminal.
    pub fork_mode: bool,
    /// Mouse capture is on.
    pub mouse: bool,
    /// The current directory of the client.
    pub current_dir: String,
    /// The configured accounts, in order.
    pub accounts: Vec<AccountInfo>,
    /// Whether the client was built with the sqlite3 index.
    pub sqlite3: bool,
    /// Whether notifications show in the message box.
    pub ui_notifications: bool,
}

/// A command of the command line, as far as the main loop decides on it.
#[derive(Clone, Debug)]
pub enum CommandModel {
    SetEnv(String, String),
    PrintEnv(String),
    ChangeCurrentDirectory(String),
    CurrentDirectory,
    /// A mailbox operation on the named account.
    Mailbox(String),
    /// Rebuild the search index of the named account.
    ReIndex(String),
    PrintAccountSetting(String, String),
    PrintSetting(String),
    ToggleMouse,
    ToggleTheme,
    Quit,
    /// Any other action, handed on to the components.
    Other,
}

/// Outside work the main loop asks for.
#[derive(Clone, Debug)]
pub enum MainAction {
    /// Set an environment variable.
    SetEnv(String, String),
    /// Show an environment variable (or why it cannot be read).
    ShowEnv(String),
    /// Show a message in the message box.
    ShowMessage(String),
    /// A notification: informational or an error.
    Notify { error: bool, body: String },
    /// Run the pending mailbox operation on the account at this index.
    MailboxOperation(usize),
    /// Start rebuilding the index of the account at this index.
    StartReIndex(usize),
    /// Show the value of a setting of the account at this index.
    ShowAccountSetting(usize, String),
    /// Show the value of a setting.
    ShowSetting(String),
    /// Turn mouse capture on or off, and tell the components.
    SetMouse(bool),
    OpenThemePicker,
    /// Ask the loop to exit.
    RequestExit,
    /// Hand the action on to the components.
    ForwardAction,
    /// Apply a theme, and save it when asked.
    ApplyTheme { name: String, persist: bool },
    /// Parse the command line and run what it names.
    RunCommandLine(String),
    /// Keep a background child.
    StoreChild,
    /// Give the terminal to a foreground child.
    ForegroundChild,
    /// Announce the account's new state.
    AccountStatusChange,
    /// Refresh a mailbox with the event's changes.
    Refresh(u64, u64),
    /// Pass a mode change to the main loop.
    SendModeChange,
    /// Restart the draw timer and redraw.
    Redraw,
    ShowPreviousMessage,
    ShowNextMessage,
    /// Run the action a closed dialog returned.
    RunDialogAction,
    RunCallback,
    /// Show a dialog over the screen.
    OpenGlobalDialog,
    /// Run a process for a component.
    RunProcess,
    /// Hand the event on to the components.
    ToComponents,
}

/// The first account named `name`.
pub open spec fn find_account_spec(accounts: Seq<AccountInfo>, name: Seq<char>) -> Option<int> {
    if exists|i: int| 0 <= i < accounts.len() && #[trigger] accounts[i].name@ == name {
        Some(
            choose|i: int|
                0 <= i < accounts.len() && #[trigger] accounts[i].name@ == name && forall|j: int|
                    0 <= j < i ==> (#[trigger] accounts[j]).name@ != name,
        )
    } else {
        None
    }
}

/// The position of the first account named `name`.
pub fn find_account(accounts: &Vec<AccountInfo>, name: &str) -> (r: Option<usize>)
    ensures
        match r {
            Some(i) => i < accounts@.len() && accounts@[i as int].name@ == name@ && forall|j: int|
                0 <= j < i ==> (#[trigger] accounts@[j]).name@ != name@,
            None => forall|j: int| 0 <= j < accounts@.len() ==> (#[trigger] accounts@[j]).name@ != name@,
        },
        r matches Some(i) ==> find_account_spec(accounts@, name@) == Some(i as int),
        r is None ==> find_account_spec(accounts@, name@) is None,
{
    let wanted = name.to_owned();
    let mut i: usize = 0;
    while i < accounts.len()
        invariant
            i <= accounts@.len(),
            wanted@ == name@,
            forall|j: int| 0 <= j < i ==> (#[trigger] accounts@[j]).name@ != name@,
        decreases accounts@.len() - i,
    {
        if accounts[i].name == wanted {
            proof {
                let k = i as int;
                assert(accounts@[k].name@ == name@);
                let c = choose|c: int|
                    0 <= c < accounts@.len() && #[trigger] accounts@[c].name@ == name@ && forall|j: int|
                        0 <= j < c ==> (#[trigger] accounts@[j]).name@ != name@;
                assert(accounts@[k].name@ == name@ && forall|j: int|
                    0 <= j < k ==> (#[trigger] accounts@[j]).name@ != name@);
                if c < k {
                } else if c > k {
                    assert(accounts@[k].name@ != name@);
                }
            }
            return Some(i);
        }
        i = i + 1;
    }
    None
}

/// `Account with name `name` not found.`
pub open spec fn mailbox_missing_msg(name: Seq<char>) -> Seq<char> {
    "Account with name `"@ + name + "` not found."@
}

/// `Account name was not found.`
pub open spec fn account_missing_msg(name: Seq<char>) -> Seq<char> {
    "Account "@ + name + " was not found."@
}

/// `Account name doesn't have an sqlite3 search backend.`
pub open spec fn no_index_msg(name: Seq<char>) -> Seq<char> {
    "Account "@ + name + " doesn't have an sqlite3 search backend."@
}

/// The message of a rebuild in a client built without the index.
pub open spec fn reindex_unsupported_msg() -> Seq<char> {
    "Message index rebuild failed: meli is not built with sqlite3 support."@
}

/// The message of a rebuild that started.
pub open spec fn reindex_started_msg() -> Seq<char> {
    "Message index rebuild started."@
}

/// `prefix` + `name` + `suffix`.
fn framed(prefix: &str, name: &str, suffix: &str) -> (r: String)
    ensures
        r@ == prefix@ + name@ + suffix@,
{
    let mut s = prefix.to_owned();
    s.append(name);
    s.append(suffix);
    s
}

/// A notification whose body is `body`.
pub open spec fn is_notify(a: MainAction, error: bool, body: Seq<char>) -> bool {
    match a {
        MainAction::Notify { error: e, body: b } => e == error && b@ == body,
        _ => false,
    }
}

/// What a command does: the state after it, and the actions it asks for
/// (one, or none for a command that only changes the state).
pub open spec fn exec_outcome(s: MainState, cmd: CommandModel, t: MainState, acts: Seq<MainAction>) -> bool {
    &&& acts.len() == 1
    &&& match cmd {
        CommandModel::SetEnv(k, v) => {
            &&& t == s
            &&& (acts[0] matches MainAction::SetEnv(k2, v2) && k2@ == k@ && v2@ == v@)
        },
        CommandModel::PrintEnv(k) => {
            &&& t == s
            &&& (acts[0] matches MainAction::ShowEnv(k2) && k2@ == k@)
        },
        CommandModel::ChangeCurrentDirectory(d) => {
            &&& t.current_dir@ == d@
            &&& t == (MainState { current_dir: t.current_dir, ..s })
            &&& (acts[0] matches MainAction::ShowMessage(m) && m@ == d@)
        },
        CommandModel::CurrentDirectory => {
            &&& t == s
            &&& (acts[0] matches MainAction::ShowMessage(m) && m@ == s.current_dir@)
        },
        CommandModel::Mailbox(name) => {
            &&& t == s
            &&& match find_account_spec(s.accounts@, name@) {
                Some(i) => acts[0] == MainAction::MailboxOperation(i as usize),
                None => is_notify(acts[0], false, mailbox_missing_msg(name@)),
            }
        },
        CommandModel::ReIndex(name) => {
            &&& t == s
            &&& if !s.sqlite3 {
                is_notify(acts[0], true, reindex_unsupported_msg())
            } else {
                match find_account_spec(s.accounts@, name@) {
                    None => is_notify(acts[0], true, account_missing_msg(name@)),
                    Some(i) => if s.accounts@[i].sqlite_index {
                        acts[0] == MainAction::StartReIndex(i as usize)
                    } else {
                        is_notify(acts[0], true, no_index_msg(name@))
                    },
                }
            }
        },
        CommandModel::PrintAccountSetting(name, setting) => {
            &&& t == s
            &&& match find_account_spec(s.accounts@, name@) {
                Some(i) => (acts[0] matches MainAction::ShowAccountSetting(j, st) && j == i && st@
                    == setting@),
                None => is_notify(acts[0], true, account_missing_msg(name@)),
            }
        },
        CommandModel::PrintSetting(setting) => {
            &&& t == s
            &&& (acts[0] matches MainAction::ShowSetting(st) && st@ == setting@)
        },
        CommandModel::ToggleMouse => {
            &&& t == (MainState { mouse: !s.mouse, ..s })
            &&& acts[0] == MainAction::SetMouse(!s.mouse)
        },
        CommandModel::ToggleTheme => t == s && acts[0] == MainAction::OpenThemePicker,
        CommandModel::Quit => t == s && acts[0] == MainAction::RequestExit,
        CommandModel::Other => t == s && acts[0] == MainAction::ForwardAction,
    }
}

/// Runs a command: the environment and setting commands become actions,
/// the directory commands change and show the current directory, the
/// account commands look the account up by name (telling when it is not
/// there), the mouse command flips mouse capture, quitting asks for an
/// exit, and any other action goes on to the components.
pub fn exec_command_step(state: &mut MainState, cmd: &CommandModel) -> (r: Vec<MainAction>)
    ensures
        exec_outcome(*old(state), *cmd, *final(state), r@),
{
    match cmd {
        CommandModel::SetEnv(k, v) => vec![MainAction::SetEnv(k.clone(), v.clone())],
        CommandModel::PrintEnv(k) => vec![MainAction::ShowEnv(k.clone())],
        CommandModel::ChangeCurrentDirectory(d) => {
            state.current_dir = d.clone();
            vec![MainAction::ShowMessage(d.clone())]
        },
        CommandModel::CurrentDirectory => vec![MainAction::ShowMessage(state.current_dir.clone())],
        CommandModel::Mailbox(name) => match find_account(&state.accounts, name.as_str()) {
            Some(i) => vec![MainAction::MailboxOperation(i)],
            None => vec![
                MainAction::Notify {
                    error: false,
                    body: framed("Account with name `", name.as_str(), "` not found."),
                },
            ],
        },
        CommandModel::ReIndex(name) => {
            if !state.sqlite3 {
                return vec![
                    MainAction::Notify {
                        error: true,
                        body: String::from_str(
                            "Message index rebuild failed: meli is not built with sqlite3 support.",
                        ),
                    },
                ];
            }
            match find_account(&state.accounts, name.as_str()) {
                None => vec![
                    MainAction::Notify {
                        error: true,
                        body: framed("Account ", name.as_str(), " was not found."),
                    },
                ],
                Some(i) => {
                    if state.accounts[i].sqlite_index {
                        vec![MainAction::StartReIndex(i)]
                    } else {
                        vec![
                            MainAction::Notify {
                                error: true,
                                body: framed(
                                    "Account ",
                                    name.as_str(),
                                    " doesn't have an sqlite3 search backend.",
                                ),
                            },
                        ]
                    }
                },
            }
        },
        CommandModel::PrintAccountSetting(name, setting) => match find_account(
            &state.accounts,
            name.as_str(),
        ) {
            Some(i) => vec![MainAction::ShowAccountSetting(i, setting.clone())],
            None => vec![
                MainAction::Notify {
                    error: true,
                    body: framed("Account ", name.as_str(), " was not found."),
                },
            ],
        },
        CommandModel::PrintSetting(setting) => vec![MainAction::ShowSetting(setting.clone())],
        CommandModel::ToggleMouse => {
            let new_val = !state.mouse;
            state.mouse = new_val;
            vec![MainAction::SetMouse(new_val)]
        },
        CommandModel::ToggleTheme => vec![MainAction::OpenThemePicker],
        CommandModel::Quit => vec![MainAction::RequestExit],
        CommandModel::Other => vec![MainAction::ForwardAction],
    }
}

/// An event as far as the main loop decides on it before the components.
#[derive(Clone, Debug)]
pub enum MainEvent {
    /// The theme picker asks for a theme (and for it to be saved).
    ChangeTheme { name: String, persist: bool },
    /// A key, and whether it is bound to the previous or the next message.
    Input { info_previous: bool, info_next: bool },
    Exit,
    /// A command line typed by the user.
    Command(String),
    /// A forked process: a background one, or one that takes the terminal.
    Fork { background: bool },
    /// A notice from a backend: the account's name when it is known.
    BackendNotice { account: Option<String>, description: String, content: Option<String> },
    /// A backend changed the state of its account.
    AccountStateChange,
    /// A refresh event for an account and mailbox.
    Refresh(u64, u64),
    /// A batch of refresh events, by account and mailbox.
    RefreshBatch(Vec<(u64, u64)>),
    ChangeMode,
    /// A timer fired; whether it is the draw timer.
    Timer { draw_rate_limit: bool },
    Notification { title: Option<String>, body: String },
    /// A dialog closed: whether it was over the screen and returned an action.
    FinishedUIDialog { in_overlay: bool, has_action: bool },
    Callback,
    GlobalUIDialog,
    ProcessRequest,
    /// Any other event.
    Other,
}

/// The optional string's view.
pub open spec fn opt_string_view(s: Option<String>) -> Option<Seq<char>> {
    match s {
        Some(t) => Some(t@),
        None => None,
    }
}

/// What an event does: the state after it and the actions it asks for,
/// in order.
pub open spec fn rcv_outcome(s: MainState, ev: MainEvent, t: MainState, acts: Seq<MainAction>) -> bool {
    let s1 = match ev {
        MainEvent::Input { .. } => MainState { message_expiry_started: true, ..s },
        _ => s,
    };
    match ev {
        MainEvent::ChangeTheme { name, persist } => {
            &&& t == s
            &&& acts.len() == 1
            &&& (acts[0] matches MainAction::ApplyTheme { name: n, persist: p } && n@ == name@ && p
                == persist)
        },
        MainEvent::Exit => t == (MainState { exit_requested: true, ..s }) && acts.len() == 0,
        MainEvent::Command(cmd) => {
            &&& t == s
            &&& acts.len() == 1
            &&& (acts[0] matches MainAction::RunCommandLine(c) && c@ == cmd@)
        },
        MainEvent::Fork { background } => if background {
            t == s && acts =~= seq![MainAction::StoreChild]
        } else {
            t == (MainState { fork_mode: true, ..s }) && acts =~= seq![MainAction::ForegroundChild]
        },
        MainEvent::BackendNotice { account, description, content } => {
            &&& t == s
            &&& acts.len() == 1
            &&& (acts[0] matches MainAction::ShowMessage(m) && m@ == notice_spec(
                opt_string_view(account),
                description@,
                opt_string_view(content),
            ))
        },
        MainEvent::AccountStateChange => t == s && acts =~= seq![MainAction::AccountStatusChange],
        MainEvent::Refresh(a, m) => t == s && acts =~= seq![MainAction::Refresh(a, m)],
        MainEvent::RefreshBatch(events) => t == s && acts =~= (match batch_target_spec(events@) {
            Some((a, m)) => seq![MainAction::Refresh(a, m)],
            None => Seq::empty(),
        }),
        MainEvent::ChangeMode => t == s && acts =~= seq![
            MainAction::SendModeChange,
            MainAction::ToComponents,
        ],
        MainEvent::Timer { draw_rate_limit } => t == s && (acts =~= (if draw_rate_limit {
            seq![MainAction::Redraw]
        } else {
            seq![MainAction::ToComponents]
        })),
        MainEvent::Input { info_previous, info_next } => t == s1 && (acts =~= (if info_previous {
            seq![MainAction::ShowPreviousMessage]
        } else if info_next {
            seq![MainAction::ShowNextMessage]
        } else {
            seq![MainAction::ToComponents]
        })),
        MainEvent::Notification { title, body } => {
            &&& t == s
            &&& if s.ui_notifications {
                &&& acts.len() == 2
                &&& (acts[0] matches MainAction::ShowMessage(m) && m@ == notification_spec(
                    opt_string_view(title),
                    body@,
                ))
                &&& acts[1] == MainAction::ToComponents
            } else {
                acts =~= seq![MainAction::ToComponents]
            }
        },
        MainEvent::FinishedUIDialog { in_overlay, has_action } => t == s && (acts =~= (if in_overlay
            && has_action {
            seq![MainAction::RunDialogAction]
        } else {
            seq![MainAction::ToComponents]
        })),
        MainEvent::Callback => t == s && acts =~= seq![MainAction::RunCallback],
        MainEvent::GlobalUIDialog => t == s && acts =~= seq![MainAction::OpenGlobalDialog],
        MainEvent::ProcessRequest => t == s && acts =~= seq![MainAction::RunProcess],
        MainEvent::Other => t == s && acts =~= seq![MainAction::ToComponents],
    }
}

fn opt_str(s: &Option<String>) -> (r: Option<&str>)
    ensures
        opt_view(r) == opt_string_view(*s),
{
    match s {
        Some(t) => Some(t.as_str()),
        None => None,
    }
}

/// Where an event goes before the components see it: a theme request is
/// applied; the first key starts the message box's expiry clock; an exit
/// request is only recorded; a command line is run; a forked process is
/// kept, or given the terminal; a backend notice is shown; refreshes go to
/// their mailbox (a mixed batch is dropped); the draw timer redraws; the
/// keys of the message box page through it; a notification is shown (when
/// notifications show) and goes on; a closed dialog's action is run; a
/// callback, a dialog over the screen and a process request are carried
/// out; anything else goes to the components.
pub fn rcv_event_step(state: &mut MainState, event: &MainEvent) -> (r: Vec<MainAction>)
    ensures
        rcv_outcome(*old(state), *event, *final(state), r@),
{
    match event {
        MainEvent::ChangeTheme { name, persist } => vec![
            MainAction::ApplyTheme { name: name.clone(), persist: *persist },
        ],
        MainEvent::Exit => {
            state.exit_requested = true;
            Vec::new()
        },
        MainEvent::Command(cmd) => vec![MainAction::RunCommandLine(cmd.clone())],
        MainEvent::Fork { background } => {
            if *background {
                vec![MainAction::StoreChild]
            } else {
                state.fork_mode = true;
                vec![MainAction::ForegroundChild]
            }
        },
        MainEvent::BackendNotice { account, description, content } => vec![
            MainAction::ShowMessage(
                notice_message(opt_str(account), description.as_str(), opt_str(content)),
            ),
        ],
        MainEvent::AccountStateChange => vec![MainAction::AccountStatusChange],
        MainEvent::Refresh(a, m) => vec![MainAction::Refresh(*a, *m)],
        MainEvent::RefreshBatch(events) => match refresh_batch_target(events) {
            Some((a, m)) => vec![MainAction::Refresh(a, m)],
            None => Vec::new(),
        },
        MainEvent::ChangeMode => vec![MainAction::SendModeChange, MainAction::ToComponents],
        MainEvent::Timer { draw_rate_limit } => {
            if *draw_rate_limit {
                vec![MainAction::Redraw]
            } else {
                vec![MainAction::ToComponents]
            }
        },
        MainEvent::Input { info_previous, info_next } => {
            state.message_expiry_started = true;
            if *info_previous {
                vec![MainAction::ShowPreviousMessage]
            } else if *info_next {
                vec![MainAction::ShowNextMessage]
            } else {
                vec![MainAction::ToComponents]
            }
        },
        MainEvent::Notification { title, body } => {
            if state.ui_notifications {
                vec![
                    MainAction::ShowMessage(notification_text(opt_str(title), body.as_str())),
                    MainAction::ToComponents,
                ]
            } else {
                vec![MainAction::ToComponents]
            }
        },
        MainEvent::FinishedUIDialog { in_overlay, has_action } => {
            if *in_overlay && *has_action {
                vec![MainAction::RunDialogAction]
            } else {
                vec![MainAction::ToComponents]
            }
        },
        MainEvent::Callback => vec![MainAction::RunCallback],
        MainEvent::GlobalUIDialog => vec![MainAction::OpenGlobalDialog],
        MainEvent::ProcessRequest => vec![MainAction::RunProcess],
        MainEvent::Other => vec![MainAction::ToComponents],
    }
}

} // verus!
