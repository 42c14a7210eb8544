use deepseek_harness_windows::shell::{
    autostart_marker, autostart_toggle, first_run_autostart, first_stage, hide_instead_of_close, is_turn_end,
    setup_next, tray_command, tray_menu, turn_end_notification, AutostartChange, FirstRunAction, SetupNext,
    SetupStage, TrayCommand, APP_TITLE, WINDOW_LABEL,
};
use deepseek_harness_windows::fspath::FsPath;

#[test]
fn tray_menu_items() {
    let m = tray_menu(Some(true));
    let ids: Vec<&str> = m.iter().map(|e| e.id.as_str()).collect();
    assert_eq!(ids, vec!["show", "autostart", "quit"]);
    assert_eq!(m[0].label, "显示 DeepSeek Harness");
    assert_eq!(m[1].label, "开机自启动");
    assert_eq!(m[2].label, "退出");
    assert!(m[1].checkable && m[1].checked);
    assert!(!m[0].checkable && !m[2].checkable);
    assert!(!tray_menu(Some(false))[1].checked);
    assert!(!tray_menu(None)[1].checked);
}

#[test]
fn tray_commands() {
    assert_eq!(tray_command("show"), TrayCommand::ShowWindow);
    assert_eq!(tray_command("autostart"), TrayCommand::ToggleAutostart);
    assert_eq!(tray_command("quit"), TrayCommand::Quit);
    assert_eq!(tray_command("other"), TrayCommand::Nothing);
    assert_eq!(tray_command(""), TrayCommand::Nothing);
}

#[test]
fn autostart_toggling() {
    assert_eq!(autostart_toggle(Some(true)), AutostartChange::Disable);
    assert_eq!(autostart_toggle(Some(false)), AutostartChange::Enable);
    assert_eq!(autostart_toggle(None), AutostartChange::Enable);
}

#[test]
fn first_run_auto_start() {
    assert_eq!(first_run_autostart(true, None), FirstRunAction::Done);
    assert_eq!(first_run_autostart(false, None), FirstRunAction::Enable);
    assert_eq!(first_run_autostart(false, Some(true)), FirstRunAction::WriteMarker);
    assert_eq!(first_run_autostart(false, Some(false)), FirstRunAction::Done);
    let dir = FsPath::from_root("C:/cfg".to_string());
    assert_eq!(
        autostart_marker(&dir),
        FsPath { root: "C:/cfg".to_string(), parts: vec!["autostart-initialized".to_string()] }
    );
}

#[test]
fn closing_the_main_window_hides_it() {
    assert_eq!(WINDOW_LABEL, "main");
    assert!(hide_instead_of_close("main"));
    assert!(!hide_instead_of_close("other"));
}

#[test]
fn turn_end_lines() {
    assert!(is_turn_end("{\"type\":\"turn-end\"}"));
    assert!(is_turn_end("任务 turn-end 完成"));
    assert!(!is_turn_end("{\"type\":\"turn-start\"}"));
    assert!(!is_turn_end(""));
}

#[test]
fn notifications_only_when_unfocused() {
    assert_eq!(turn_end_notification(Some(true)), None);
    let n = turn_end_notification(Some(false)).unwrap();
    assert_eq!(n.title, "DeepSeek Harness");
    assert_eq!(n.title, APP_TITLE);
    assert_eq!(n.body, "任务已完成");
    assert!(turn_end_notification(None).is_some());
}

#[test]
fn start_up_order() {
    let mut stage = first_stage();
    let mut order = vec![stage];
    loop {
        match setup_next(stage, true) {
            SetupNext::Run(next) => {
                stage = next;
                order.push(next);
            }
            SetupNext::Finished => break,
            SetupNext::Fail => panic!("no stage fails here"),
        }
    }
    assert_eq!(
        order,
        vec![
            SetupStage::Window,
            SetupStage::Autostart,
            SetupStage::Tray,
            SetupStage::Port,
            SetupStage::Runtime,
            SetupStage::Plugin,
            SetupStage::Sidecar,
            SetupStage::Bridge,
            SetupStage::Watch,
        ]
    );
}

#[test]
fn start_up_failures() {
    assert_eq!(setup_next(SetupStage::Window, false), SetupNext::Fail);
    assert_eq!(setup_next(SetupStage::Tray, false), SetupNext::Fail);
    assert_eq!(setup_next(SetupStage::Runtime, false), SetupNext::Fail);
    assert_eq!(setup_next(SetupStage::Sidecar, false), SetupNext::Fail);
    assert_eq!(setup_next(SetupStage::Autostart, false), SetupNext::Run(SetupStage::Tray));
    assert_eq!(setup_next(SetupStage::Plugin, false), SetupNext::Run(SetupStage::Sidecar));
    assert_eq!(setup_next(SetupStage::Bridge, false), SetupNext::Run(SetupStage::Watch));
    assert_eq!(setup_next(SetupStage::Watch, true), SetupNext::Finished);
}
