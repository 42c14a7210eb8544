//! The shell's decisions around its window, tray, auto-start and
//! notifications, and the order of its start-up.

use vstd::prelude::*;
use crate::fspath::{joined, FsPath};
use crate::text::{contains_bytes, contains_run, same_text};
use vstd::string::StringSliceAdditionalSpecFns;

verus! {

/// The label of the shell's only window.
pub const WINDOW_LABEL: &'static str = "main";

/// The application's name, used as window title, tray tooltip and
/// notification title.
pub const APP_TITLE: &'static str = "DeepSeek Harness";

/// A tray menu item.
#[derive(Debug, PartialEq)]
pub struct MenuEntry {
    pub id: String,
    pub label: String,
    /// A check item (with a check mark) rather than a plain one.
    pub checkable: bool,
    pub checked: bool,
}

/// The tray menu, top to bottom: show the window, the launch-at-login
/// toggle (checked where auto-start is enabled; an unknown state shows
/// unchecked), and quit.
pub open spec fn tray_menu_spec(autostart_enabled: Option<bool>) -> Seq<(Seq<char>, Seq<char>, bool, bool)> {
    seq![
        ("show"@, "显示 DeepSeek Harness"@, false, false),
        ("autostart"@, "开机自启动"@, true, autostart_enabled == Some(true)),
        ("quit"@, "退出"@, false, false),
    ]
}

/// The model of a menu.
pub open spec fn menu_view(m: Seq<MenuEntry>) -> Seq<(Seq<char>, Seq<char>, bool, bool)> {
    m.map_values(|e: MenuEntry| (e.id@, e.label@, e.checkable, e.checked))
}

fn entry(id: &str, label: &str, checkable: bool, checked: bool) -> (e: MenuEntry)
    ensures
        e.id@ == id@,
        e.label@ == label@,
        e.checkable == checkable,
        e.checked == checked,
{
    MenuEntry { id: id.to_owned(), label: label.to_owned(), checkable, checked }
}

/// Builds the tray menu.
pub fn tray_menu(autostart_enabled: Option<bool>) -> (m: Vec<MenuEntry>)
    ensures
        menu_view(m@) == tray_menu_spec(autostart_enabled),
{
    let checked = match autostart_enabled {
        Some(b) => b,
        None => false,
    };
    let mut m: Vec<MenuEntry> = Vec::new();
    m.push(entry("show", "显示 DeepSeek Harness", false, false));
    m.push(entry("autostart", "开机自启动", true, checked));
    m.push(entry("quit", "退出", false, false));
    assert(menu_view(m@) =~= tray_menu_spec(autostart_enabled));
    m
}

/// What a click on a tray menu item does.
#[derive(Debug, Clone, Copy, PartialEq, Eq, Structural)]
pub enum TrayCommand {
    /// Show the window and give it focus.
    ShowWindow,
    /// Turn launch-at-login off where it is on, else on.
    ToggleAutostart,
    /// Leave the application.
    Quit,
    /// Nothing (an unknown item).
    Nothing,
}

/// The command of the menu item with id `id`.
pub fn tray_command(id: &str) -> (c: TrayCommand)
    ensures
        c == (if id@ == "show"@ {
            TrayCommand::ShowWindow
        } else if id@ == "autostart"@ {
            TrayCommand::ToggleAutostart
        } else if id@ == "quit"@ {
            TrayCommand::Quit
        } else {
            TrayCommand::Nothing
        }),
{
    if same_text(id, "show") {
        TrayCommand::ShowWindow
    } else if same_text(id, "autostart") {
        TrayCommand::ToggleAutostart
    } else if same_text(id, "quit") {
        TrayCommand::Quit
    } else {
        TrayCommand::Nothing
    }
}

/// A change to launch-at-login.
#[derive(Debug, Clone, Copy, PartialEq, Eq, Structural)]
pub enum AutostartChange {
    Enable,
    Disable,
}

/// The toggle: disable where auto-start is known to be enabled, else enable
/// (an unknown state counts as disabled).
pub fn autostart_toggle(enabled: Option<bool>) -> (c: AutostartChange)
    ensures
        c == (if enabled == Some(true) { AutostartChange::Disable } else { AutostartChange::Enable }),
{
    match enabled {
        Some(true) => AutostartChange::Disable,
        _ => AutostartChange::Enable,
    }
}

/// What the first-run auto-start set-up does next.
#[derive(Debug, Clone, Copy, PartialEq, Eq, Structural)]
pub enum FirstRunAction {
    /// Enable launch-at-login.
    Enable,
    /// Write the marker that records a successful enable.
    WriteMarker,
    /// Nothing more.
    Done,
}

/// The marker that records that auto-start was enabled on a first run:
/// `autostart-initialized` in the application's config directory.
pub fn autostart_marker(config_dir: &FsPath) -> (p: FsPath)
    ensures
        p@ == joined(config_dir@, seq!["autostart-initialized"@]),
{
    config_dir.join("autostart-initialized")
}

/// Launch-at-login is enabled on the first run only, so that a later tray
/// toggle sticks; the marker is written only after an enable that
/// succeeded, so a transient failure is retried on the next start.
/// `enable_outcome` is the outcome of the enable, `None` before it is tried.
pub fn first_run_autostart(marker_exists: bool, enable_outcome: Option<bool>) -> (a: FirstRunAction)
    ensures
        a == (if marker_exists {
            FirstRunAction::Done
        } else {
            match enable_outcome {
                None => FirstRunAction::Enable,
                Some(true) => FirstRunAction::WriteMarker,
                Some(false) => FirstRunAction::Done,
            }
        }),
{
    if marker_exists {
        FirstRunAction::Done
    } else {
        match enable_outcome {
            None => FirstRunAction::Enable,
            Some(true) => FirstRunAction::WriteMarker,
            Some(false) => FirstRunAction::Done,
        }
    }
}

/// Whether a request to close the window labelled `label` hides it instead
/// (so the application keeps running in the tray): exactly for the main
/// window.
pub fn hide_instead_of_close(label: &str) -> (b: bool)
    ensures
        b == (label@ == WINDOW_LABEL@),
{
    same_text(label, WINDOW_LABEL)
}

/// The marker of a finished task in the bridge's output.
pub open spec fn turn_end_marker() -> Seq<u8> {
    "turn-end".spec_bytes()
}

/// Whether a line of the bridge's output reports a finished task: whether
/// it contains `turn-end`.
pub fn is_turn_end(line: &str) -> (b: bool)
    ensures
        b == contains_run(line.spec_bytes(), turn_end_marker()),
{
    contains_bytes(line.as_bytes(), "turn-end".as_bytes())
}

/// A desktop notification.
#[derive(Debug, PartialEq)]
pub struct Notification {
    pub title: String,
    pub body: String,
}

/// The notification for a finished task, where one is due: only where the
/// window is not known to have focus (a focused window already shows the
/// finished task; a missing window or an unreadable focus state still
/// notifies, rather than drop the signal).
pub fn turn_end_notification(window_focused: Option<bool>) -> (n: Option<Notification>)
    ensures
        match n {
            Some(n) => window_focused != Some(true) && n.title@ == APP_TITLE@ && n.body@ == "任务已完成"@,
            None => window_focused == Some(true),
        },
{
    match window_focused {
        Some(true) => None,
        _ => Some(Notification { title: APP_TITLE.to_owned(), body: "任务已完成".to_owned() }),
    }
}

/// The stages of the shell's start-up, in order.
#[derive(Debug, Clone, Copy, PartialEq, Eq, Structural)]
pub enum SetupStage {
    /// Create the main window.
    Window,
    /// Enable launch-at-login on the first run.
    Autostart,
    /// Build the tray icon and menu.
    Tray,
    /// Pick the sidecar's port.
    Port,
    /// Find the sidecar runtime.
    Runtime,
    /// Install the bundled plugin.
    Plugin,
    /// Start the sidecar.
    Sidecar,
    /// Start the notification bridge.
    Bridge,
    /// Wait, in the background, for the backend and then show it.
    Watch,
}

/// What follows a stage of the start-up.
#[derive(Debug, Clone, Copy, PartialEq, Eq, Structural)]
pub enum SetupNext {
    Run(SetupStage),
    /// Start-up fails with the stage's error.
    Fail,
    /// Start-up is complete.
    Finished,
}

/// The stages whose failure ends the start-up: the window, the tray, the
/// runtime and the sidecar. A failed first-run auto-start, plugin install or
/// bridge is passed over (the plugin's is logged; notifications are
/// optional).
pub open spec fn stage_is_required(s: SetupStage) -> bool {
    s is Window || s is Tray || s is Runtime || s is Sidecar
}

/// The stage after `s`, where there is one.
pub open spec fn stage_after(s: SetupStage) -> Option<SetupStage> {
    match s {
        SetupStage::Window => Some(SetupStage::Autostart),
        SetupStage::Autostart => Some(SetupStage::Tray),
        SetupStage::Tray => Some(SetupStage::Port),
        SetupStage::Port => Some(SetupStage::Runtime),
        SetupStage::Runtime => Some(SetupStage::Plugin),
        SetupStage::Plugin => Some(SetupStage::Sidecar),
        SetupStage::Sidecar => Some(SetupStage::Bridge),
        SetupStage::Bridge => Some(SetupStage::Watch),
        SetupStage::Watch => None,
    }
}

/// The start-up's first stage.
pub fn first_stage() -> (s: SetupStage)
    ensures
        s is Window,
{
    SetupStage::Window
}

/// What follows stage `s`, which succeeded or not.
pub fn setup_next(s: SetupStage, succeeded: bool) -> (n: SetupNext)
    ensures
        n == (if !succeeded && stage_is_required(s) {
            SetupNext::Fail
        } else {
            match stage_after(s) {
                Some(t) => SetupNext::Run(t),
                None => SetupNext::Finished,
            }
        }),
{
    let required = match s {
        SetupStage::Window | SetupStage::Tray | SetupStage::Runtime | SetupStage::Sidecar => true,
        _ => false,
    };
    if !succeeded && required {
        return SetupNext::Fail;
    }
    match s {
        SetupStage::Window => SetupNext::Run(SetupStage::Autostart),
        SetupStage::Autostart => SetupNext::Run(SetupStage::Tray),
        SetupStage::Tray => SetupNext::Run(SetupStage::Port),
        SetupStage::Port => SetupNext::Run(SetupStage::Runtime),
        SetupStage::Runtime => SetupNext::Run(SetupStage::Plugin),
        SetupStage::Plugin => SetupNext::Run(SetupStage::Sidecar),
        SetupStage::Sidecar => SetupNext::Run(SetupStage::Bridge),
        SetupStage::Bridge => SetupNext::Run(SetupStage::Watch),
        SetupStage::Watch => SetupNext::Finished,
    }
}

/// The marker of a finished task is the eight ASCII bytes of `turn-end`,
/// so a line is a finished task's exactly when those bytes occur in it.
pub proof fn lemma_turn_end_marker()
    ensures
        turn_end_marker() == seq![116u8, 117u8, 114u8, 110u8, 45u8, 101u8, 110u8, 100u8],
{
    reveal_strlit("turn-end");
    broadcast use vstd::string::is_ascii_spec_bytes;
    assert(vstd::string::is_ascii("turn-end"));
    assert("turn-end".spec_bytes() =~= seq![116u8, 117u8, 114u8, 110u8, 45u8, 101u8, 110u8, 100u8]);
}

} // verus!
