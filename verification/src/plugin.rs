//! Installing the bundled smooth-stream plugin into the dsh web profile: where
//! its marker and payload are, where it goes, and how its directory is copied.

use vstd::prelude::*;
use crate::fspath::{joined, root_only, FsPath};
use crate::manifest::PLUGIN_PACKAGE;

verus! {

/// The marker the installer leaves (its component, selected by default)
/// when the plugin is to be installed: `plugins/install-smooth-stream` in the
/// runtime directory.
pub fn plugin_marker(runtime_dir: &FsPath) -> (p: FsPath)
    ensures
        p@ == joined(runtime_dir@, seq!["plugins"@, "install-smooth-stream"@]),
{
    let p = runtime_dir.join("plugins").join("install-smooth-stream");
    assert(p@.1 =~= runtime_dir@.1 + seq!["plugins"@, "install-smooth-stream"@]);
    p
}

/// The plugin's package files: `plugins/<package>` in the runtime directory.
pub fn plugin_payload(runtime_dir: &FsPath) -> (p: FsPath)
    ensures
        p@ == joined(runtime_dir@, seq!["plugins"@, PLUGIN_PACKAGE@]),
{
    let p = runtime_dir.join("plugins").join(PLUGIN_PACKAGE);
    assert(p@.1 =~= runtime_dir@.1 + seq!["plugins"@, PLUGIN_PACKAGE@]);
    p
}

/// The install runs only where both the marker and the payload exist;
/// otherwise it does nothing.
pub fn plugin_install_wanted(marker_exists: bool, payload_exists: bool) -> (b: bool)
    ensures
        b == (marker_exists && payload_exists),
{
    marker_exists && payload_exists
}

/// The message given when no dsh home can be found.
pub open spec fn home_missing_message() -> Seq<char> {
    "cannot resolve dsh home"@
}

/// The dsh home directory: the one named by `DSH_HOME`, else `.dsh` in the
/// user's home directory, else an error.
pub fn dsh_home(env_home: Option<String>, user_home: Option<FsPath>) -> (r: Result<FsPath, String>)
    ensures
        match r {
            Ok(h) => match env_home {
                Some(e) => h@ == root_only(e@),
                None => user_home matches Some(u) && h@ == joined(u@, seq![".dsh"@]),
            },
            Err(msg) => env_home is None && user_home is None && msg@ == home_missing_message(),
        },
{
    match env_home {
        Some(e) => Ok(FsPath::from_root(e)),
        None => match user_home {
            Some(u) => Ok(u.join(".dsh")),
            None => Err("cannot resolve dsh home".to_owned()),
        },
    }
}

/// The web profile in the dsh home: `profiles/web`.
pub fn web_profile(home: &FsPath) -> (p: FsPath)
    ensures
        p@ == joined(home@, seq!["profiles"@, "web"@]),
{
    let p = home.join("profiles").join("web");
    assert(p@.1 =~= home@.1 + seq!["profiles"@, "web"@]);
    p
}

/// Where the plugin's package files land: `node_modules/<package>` in the
/// profile.
pub fn plugin_destination(profile: &FsPath) -> (p: FsPath)
    ensures
        p@ == joined(profile@, seq!["node_modules"@, PLUGIN_PACKAGE@]),
{
    let p = profile.join("node_modules").join(PLUGIN_PACKAGE);
    assert(p@.1 =~= profile@.1 + seq!["node_modules"@, PLUGIN_PACKAGE@]);
    p
}

/// The profile's manifest: `package.json` in the profile.
pub fn profile_manifest(profile: &FsPath) -> (p: FsPath)
    ensures
        p@ == joined(profile@, seq!["package.json"@]),
{
    profile.join("package.json")
}

/// What the recursive copy does with one entry of a directory being copied.
#[derive(Debug, PartialEq)]
pub enum CopyStep {
    /// The entry is a directory: copy it, recursively, to `to`.
    Descend { from: FsPath, to: FsPath },
    /// The entry is a file: copy its contents to `to`.
    CopyFile { from: FsPath, to: FsPath },
}

/// The step for the entry `name` (a directory where `is_dir`) of the
/// directory `src` that is being copied to `dst`: both sides are the
/// entry's name joined onto their directory.
pub fn copy_step(src: &FsPath, dst: &FsPath, name: &str, is_dir: bool) -> (s: CopyStep)
    ensures
        match s {
            CopyStep::Descend { from, to } => is_dir && from@ == joined(src@, seq![name@]) && to@ == joined(dst@, seq![name@]),
            CopyStep::CopyFile { from, to } => !is_dir && from@ == joined(src@, seq![name@]) && to@ == joined(dst@, seq![name@]),
        },
{
    let from = src.join(name);
    let to = dst.join(name);
    if is_dir {
        CopyStep::Descend { from, to }
    } else {
        CopyStep::CopyFile { from, to }
    }
}


/// The stages of the plugin install, in order.
#[derive(Debug, Clone, Copy, PartialEq, Eq, Structural)]
pub enum InstallStage {
    /// Look for the marker and the payload.
    Check,
    /// Find the dsh home.
    Home,
    /// Remove an earlier copy of the plugin from the profile.
    ClearDestination,
    /// Copy the payload into the profile.
    Copy,
    /// Read the profile's manifest and merge the plugin in.
    Manifest,
    /// Write the manifest.
    Write,
    /// Remove the marker.
    RemoveMarker,
}

/// What follows a stage of the plugin install.
#[derive(Debug, Clone, Copy, PartialEq, Eq, Structural)]
pub enum InstallNext {
    Run(InstallStage),
    /// Nothing to install: no marker or no payload.
    Skip,
    /// The install fails with the stage's error; the marker stays, so the
    /// next start tries again.
    Fail,
    /// The install is complete.
    Done,
}

/// What follows stage `s`, which succeeded or not.
pub open spec fn install_next_spec(s: InstallStage, succeeded: bool) -> InstallNext {
    match s {
        InstallStage::Check => if succeeded { InstallNext::Run(InstallStage::Home) } else { InstallNext::Skip },
        InstallStage::Home => if succeeded { InstallNext::Run(InstallStage::ClearDestination) } else { InstallNext::Fail },
        InstallStage::ClearDestination => if succeeded { InstallNext::Run(InstallStage::Copy) } else { InstallNext::Fail },
        InstallStage::Copy => if succeeded { InstallNext::Run(InstallStage::Manifest) } else { InstallNext::Fail },
        InstallStage::Manifest => if succeeded { InstallNext::Run(InstallStage::Write) } else { InstallNext::Fail },
        InstallStage::Write => if succeeded { InstallNext::Run(InstallStage::RemoveMarker) } else { InstallNext::Fail },
        InstallStage::RemoveMarker => InstallNext::Done,
    }
}

/// What follows stage `s`, which succeeded or not. At `Check`, success
/// means both the marker and the payload exist. The marker is removed only
/// after the manifest was written; a failure before that ends the install
/// with the marker in place; a failure to remove the marker is passed over.
pub fn install_next(s: InstallStage, succeeded: bool) -> (n: InstallNext)
    ensures
        n == install_next_spec(s, succeeded),
        n == InstallNext::Run(InstallStage::RemoveMarker) <==> (s == InstallStage::Write && succeeded),
{
    match s {
        InstallStage::Check => if succeeded { InstallNext::Run(InstallStage::Home) } else { InstallNext::Skip },
        InstallStage::Home => if succeeded { InstallNext::Run(InstallStage::ClearDestination) } else { InstallNext::Fail },
        InstallStage::ClearDestination => if succeeded { InstallNext::Run(InstallStage::Copy) } else { InstallNext::Fail },
        InstallStage::Copy => if succeeded { InstallNext::Run(InstallStage::Manifest) } else { InstallNext::Fail },
        InstallStage::Manifest => if succeeded { InstallNext::Run(InstallStage::Write) } else { InstallNext::Fail },
        InstallStage::Write => if succeeded { InstallNext::Run(InstallStage::RemoveMarker) } else { InstallNext::Fail },
        InstallStage::RemoveMarker => InstallNext::Done,
    }
}

/// The stages an install runs, when `outcomes[i]` is whether its `i`-th
/// stage succeeds, starting at `s`: the stages run, and how the install ends.
pub open spec fn install_run(s: InstallStage, outcomes: Seq<bool>) -> (Seq<InstallStage>, InstallNext)
    decreases outcomes.len(),
{
    if outcomes.len() == 0 {
        (seq![s], InstallNext::Run(s))
    } else {
        let n = install_next_spec(s, outcomes[0]);
        match n {
            InstallNext::Run(t) => {
                let rest = install_run(t, outcomes.drop_first());
                (seq![s] + rest.0, rest.1)
            },
            other => (seq![s], other),
        }
    }
}

/// Where a run of the install removes the marker.
pub open spec fn removes_marker_at(run: Seq<InstallStage>, i: int) -> bool {
    0 <= i < run.len() && run[i] == InstallStage::RemoveMarker
}

/// The marker is kept unless the manifest was written: in every install, a
/// run that reaches the marker's removal ran the write just before, and the
/// write succeeded; an install that fails never reaches the removal.
pub proof fn lemma_marker_removed_only_after_write(outcomes: Seq<bool>)
    ensures
        forall|i: int| #[trigger] removes_marker_at(install_run(InstallStage::Check, outcomes).0, i) ==> {
            &&& 0 < i
            &&& install_run(InstallStage::Check, outcomes).0[i - 1] == InstallStage::Write
            &&& outcomes[i - 1]
        },
        install_run(InstallStage::Check, outcomes).1 is Fail ==> forall|i: int|
            !removes_marker_at(install_run(InstallStage::Check, outcomes).0, i),
{
    lemma_install_run(InstallStage::Check, outcomes);
}

proof fn lemma_install_run(s: InstallStage, outcomes: Seq<bool>)
    requires
        s != InstallStage::RemoveMarker,
    ensures
        forall|i: int| #[trigger] removes_marker_at(install_run(s, outcomes).0, i) ==> {
            &&& 0 < i
            &&& install_run(s, outcomes).0[i - 1] == InstallStage::Write
            &&& outcomes[i - 1]
        },
        install_run(s, outcomes).1 is Fail ==> forall|i: int| !removes_marker_at(install_run(s, outcomes).0, i),
        install_run(s, outcomes).0.len() <= outcomes.len() + 1,
    decreases outcomes.len(),
{
    let r = install_run(s, outcomes);
    if outcomes.len() > 0 {
        let rest_o = outcomes.drop_first();
        if let InstallNext::Run(t) = install_next_spec(s, outcomes[0]) {
            let rest = install_run(t, rest_o);
            assert(r.0 == seq![s] + rest.0);
            if t == InstallStage::RemoveMarker {
                assert(s == InstallStage::Write && outcomes[0]);
                assert(rest.0 =~= seq![InstallStage::RemoveMarker]);
                assert forall|i: int| #[trigger] removes_marker_at(r.0, i) implies 0 < i && r.0[i - 1]
                    == InstallStage::Write && outcomes[i - 1] by {
                    assert(r.0[0] == s);
                }
            } else {
                lemma_install_run(t, rest_o);
                assert forall|i: int| #[trigger] removes_marker_at(r.0, i) implies 0 < i && r.0[i - 1]
                    == InstallStage::Write && outcomes[i - 1] by {
                    assert(r.0[0] == s);
                    assert(r.0[i] == rest.0[i - 1]);
                    assert(removes_marker_at(rest.0, i - 1));
                    assert(r.0[i - 1] == rest.0[i - 2]);
                    assert(outcomes[i - 1] == rest_o[i - 2]);
                }
                if r.1 is Fail {
                    assert forall|i: int| !removes_marker_at(r.0, i) by {
                        if removes_marker_at(r.0, i) {
                            assert(r.0[0] == s);
                            assert(r.0[i] == rest.0[i - 1]);
                            assert(removes_marker_at(rest.0, i - 1));
                        }
                    }
                }
            }
        } else {
            assert(r.0 == seq![s]);
        }
    } else {
        assert(r.0 == seq![s]);
    }
}

} // verus!
