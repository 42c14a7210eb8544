use deepseek_harness_windows::fspath::FsPath;
use deepseek_harness_windows::launch::{bridge_command, bridge_script, sidecar_command};
use deepseek_harness_windows::plugin::{
    copy_step, dsh_home, plugin_destination, plugin_install_wanted, plugin_marker, plugin_payload,
    profile_manifest, web_profile, CopyStep,
};
use deepseek_harness_windows::runtime::{runtime_at, runtime_bin, runtime_candidates, select_runtime};

fn path(root: &str, parts: &[&str]) -> FsPath {
    FsPath { root: root.to_string(), parts: parts.iter().map(|p| p.to_string()).collect() }
}

#[test]
fn join_appends_components() {
    let p = FsPath::from_root("C:/app".to_string());
    assert_eq!(p, path("C:/app", &[]));
    assert_eq!(p.join("a").join("b"), path("C:/app", &["a", "b"]));
    assert_eq!(p.join("a").duplicate(), path("C:/app", &["a"]));
}

#[test]
fn runtime_layout() {
    let base = path("D:/sidecar", &[]);
    assert_eq!(
        runtime_bin(&base),
        path("D:/sidecar", &["node_modules", "@deepseek-ai", "dsh", "lib", "bin.js"])
    );
    let rt = runtime_at(path("D:/sidecar", &[]));
    assert_eq!(rt.node, path("D:/sidecar", &["node.exe"]));
    assert_eq!(rt.dir, path("D:/sidecar", &[]));
    assert_eq!(rt.bin, runtime_bin(&base));
}

#[test]
fn runtime_search_order() {
    let c = runtime_candidates(Some("D:/dev".to_string()), Some(path("C:/res", &[])));
    assert_eq!(
        c,
        vec![
            path("D:/dev", &[]),
            path("C:/res", &["runtime"]),
            path("C:/res", &["resources", "runtime"]),
            path("C:/res", &[]),
        ]
    );
    assert_eq!(runtime_candidates(None, None), vec![]);
    assert_eq!(runtime_candidates(Some("x".to_string()), None), vec![path("x", &[])]);
    assert_eq!(runtime_candidates(None, Some(path("r", &[]))).len(), 3);
}

#[test]
fn runtime_selection() {
    let c = runtime_candidates(Some("D:/dev".to_string()), Some(path("C:/res", &[])));
    let rt = select_runtime(c, &vec![false, false, true, true]).unwrap();
    assert_eq!(rt.dir, path("C:/res", &["resources", "runtime"]));
    assert_eq!(rt.node, path("C:/res", &["resources", "runtime", "node.exe"]));

    let c = runtime_candidates(Some("D:/dev".to_string()), Some(path("C:/res", &[])));
    assert_eq!(select_runtime(c, &vec![true, true, true, true]).unwrap().dir, path("D:/dev", &[]));

    let c = runtime_candidates(None, Some(path("C:/res", &[])));
    assert_eq!(
        select_runtime(c, &vec![false, false, false]),
        Err("dsh runtime not found; set DSH_RUNTIME_DIR to the sidecar directory".to_string())
    );
    assert!(select_runtime(vec![], &vec![]).is_err());
}

#[test]
fn sidecar_launch() {
    let rt = runtime_at(path("D:/sidecar", &[]));
    let c = sidecar_command(&rt, true, 47794);
    assert_eq!(c.program, path("D:/sidecar", &["node.exe"]));
    assert_eq!(c.script, rt.bin);
    assert_eq!(c.args, vec!["web", "--host", "127.0.0.1", "--port", "47794"]);
    assert_eq!(c.cwd, Some(path("D:/sidecar", &[])));
    assert!(c.env.is_empty());
    let c = sidecar_command(&rt, false, 8);
    assert_eq!(c.program, path("node", &[]));
    assert_eq!(c.args[4], "8");
}

#[test]
fn bridge_launch() {
    let rt = runtime_at(path("D:/sidecar", &[]));
    assert_eq!(bridge_script(&rt), path("D:/sidecar", &["bridge.mjs"]));
    assert_eq!(bridge_command(&rt, false, true, 47794), Err("bridge.mjs not found".to_string()));
    let c = bridge_command(&rt, true, false, 47795).unwrap();
    assert_eq!(c.program, path("node", &[]));
    assert_eq!(c.script, path("D:/sidecar", &["bridge.mjs"]));
    assert!(c.args.is_empty());
    assert_eq!(c.cwd, None);
    assert_eq!(c.env, vec![("DSH_PORT".to_string(), "47795".to_string())]);
}

#[test]
fn plugin_layout() {
    let dir = path("R", &[]);
    assert_eq!(plugin_marker(&dir), path("R", &["plugins", "install-smooth-stream"]));
    assert_eq!(plugin_payload(&dir), path("R", &["plugins", "dsh-plugin-smooth-stream"]));
    let profile = web_profile(&path("H", &[".dsh"]));
    assert_eq!(profile, path("H", &[".dsh", "profiles", "web"]));
    assert_eq!(
        plugin_destination(&profile),
        path("H", &[".dsh", "profiles", "web", "node_modules", "dsh-plugin-smooth-stream"])
    );
    assert_eq!(profile_manifest(&profile), path("H", &[".dsh", "profiles", "web", "package.json"]));
}

#[test]
fn plugin_install_needs_marker_and_payload() {
    assert!(plugin_install_wanted(true, true));
    assert!(!plugin_install_wanted(true, false));
    assert!(!plugin_install_wanted(false, true));
    assert!(!plugin_install_wanted(false, false));
}

#[test]
fn dsh_home_resolution() {
    assert_eq!(dsh_home(Some("E:/dsh".to_string()), Some(path("U", &[]))), Ok(path("E:/dsh", &[])));
    assert_eq!(dsh_home(None, Some(path("U", &[]))), Ok(path("U", &[".dsh"])));
    assert_eq!(dsh_home(None, None), Err("cannot resolve dsh home".to_string()));
}

#[test]
fn copy_steps() {
    let src = path("S", &["a"]);
    let dst = path("D", &[]);
    assert_eq!(
        copy_step(&src, &dst, "lib", true),
        CopyStep::Descend { from: path("S", &["a", "lib"]), to: path("D", &["lib"]) }
    );
    assert_eq!(
        copy_step(&src, &dst, "index.js", false),
        CopyStep::CopyFile { from: path("S", &["a", "index.js"]), to: path("D", &["index.js"]) }
    );
}

use deepseek_harness_windows::plugin::{install_next, InstallNext, InstallStage};

#[test]
fn install_stages_in_order() {
    let mut stage = InstallStage::Check;
    let mut seen = vec![stage];
    loop {
        match install_next(stage, true) {
            InstallNext::Run(next) => {
                stage = next;
                seen.push(next);
            }
            end => {
                assert_eq!(end, InstallNext::Done);
                break;
            }
        }
    }
    assert_eq!(
        seen,
        vec![
            InstallStage::Check,
            InstallStage::Home,
            InstallStage::ClearDestination,
            InstallStage::Copy,
            InstallStage::Manifest,
            InstallStage::Write,
            InstallStage::RemoveMarker,
        ]
    );
}

#[test]
fn install_keeps_marker_on_failure() {
    assert_eq!(install_next(InstallStage::Check, false), InstallNext::Skip);
    for s in [
        InstallStage::Home,
        InstallStage::ClearDestination,
        InstallStage::Copy,
        InstallStage::Manifest,
        InstallStage::Write,
    ] {
        assert_eq!(install_next(s, false), InstallNext::Fail);
    }
    assert_eq!(install_next(InstallStage::Write, true), InstallNext::Run(InstallStage::RemoveMarker));
    assert_eq!(install_next(InstallStage::RemoveMarker, false), InstallNext::Done);
}
