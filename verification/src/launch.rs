//! How the shell starts its two Node processes: the dsh web backend (the
//! sidecar) and the notification bridge.

use vstd::prelude::*;
use crate::fspath::{joined, root_only, texts, FsPath};
use crate::runtime::Runtime;
use crate::text::{decimal, decimal_string};

verus! {

/// A process to start: `program script args...`, optionally in the working
/// directory `cwd`, with the environment variables `env` added. Both output
/// streams are piped to the shell.
#[derive(Debug, PartialEq)]
pub struct CommandPlan {
    pub program: FsPath,
    pub script: FsPath,
    pub args: Vec<String>,
    pub cwd: Option<FsPath>,
    pub env: Vec<(String, String)>,
}

/// The node binary to run: the runtime's own where it exists, else `node`
/// from the search path.
pub open spec fn node_program(rt: Runtime, node_exists: bool) -> (Seq<char>, Seq<Seq<char>>) {
    if node_exists {
        rt.node@
    } else {
        root_only("node"@)
    }
}

fn choose_node(rt: &Runtime, node_exists: bool) -> (p: FsPath)
    ensures
        p@ == node_program(*rt, node_exists),
{
    if node_exists {
        rt.node.duplicate()
    } else {
        FsPath::from_root("node".to_owned())
    }
}

/// The sidecar's arguments after the CLI entry: serve the web app on the
/// loopback interface at `port`.
pub open spec fn sidecar_args(port: u16) -> Seq<Seq<char>> {
    seq!["web"@, "--host"@, "127.0.0.1"@, "--port"@, decimal(port as nat)]
}

/// The command that starts the dsh web backend on `port`, in the runtime's
/// directory (`node_exists` tells whether the runtime's node binary exists).
pub fn sidecar_command(rt: &Runtime, node_exists: bool, port: u16) -> (c: CommandPlan)
    ensures
        c.program@ == node_program(*rt, node_exists),
        c.script@ == rt.bin@,
        texts(c.args@) == sidecar_args(port),
        c.cwd matches Some(d) && d@ == rt.dir@,
        c.env@.len() == 0,
{
    let program = choose_node(rt, node_exists);
    let mut args: Vec<String> = Vec::new();
    args.push("web".to_owned());
    args.push("--host".to_owned());
    args.push("127.0.0.1".to_owned());
    args.push("--port".to_owned());
    args.push(decimal_string(port));
    assert(texts(args@) =~= sidecar_args(port));
    CommandPlan {
        program,
        script: rt.bin.duplicate(),
        args,
        cwd: Some(rt.dir.duplicate()),
        env: Vec::new(),
    }
}

/// The bridge script in the runtime's directory.
pub fn bridge_script(rt: &Runtime) -> (p: FsPath)
    ensures
        p@ == joined(rt.dir@, seq!["bridge.mjs"@]),
{
    rt.dir.join("bridge.mjs")
}

/// The message given when the bridge script is missing.
pub open spec fn bridge_missing_message() -> Seq<char> {
    "bridge.mjs not found"@
}

/// The command that starts the notification bridge for the backend on
/// `port`, which the bridge reads from `DSH_PORT`; an error where the bridge
/// script does not exist (`bridge_exists`), since notifications are optional.
pub fn bridge_command(rt: &Runtime, bridge_exists: bool, node_exists: bool, port: u16) -> (r: Result<CommandPlan, String>)
    ensures
        match r {
            Ok(c) => {
                &&& bridge_exists
                &&& c.program@ == node_program(*rt, node_exists)
                &&& c.script@ == joined(rt.dir@, seq!["bridge.mjs"@])
                &&& c.args@.len() == 0
                &&& c.cwd is None
                &&& c.env@.len() == 1
                &&& c.env@[0].0@ == "DSH_PORT"@
                &&& c.env@[0].1@ == decimal(port as nat)
            },
            Err(e) => !bridge_exists && e@ == bridge_missing_message(),
        },
{
    if !bridge_exists {
        return Err("bridge.mjs not found".to_owned());
    }
    let program = choose_node(rt, node_exists);
    let mut env: Vec<(String, String)> = Vec::new();
    env.push(("DSH_PORT".to_owned(), decimal_string(port)));
    Ok(CommandPlan { program, script: bridge_script(rt), args: Vec::new(), cwd: None, env })
}

/// The sidecar's arguments are the same for every port but for the last,
/// which is the port itself in decimal; the backend listens on the loopback
/// interface only.
pub proof fn lemma_sidecar_args(p: u16, q: u16)
    ensures
        sidecar_args(p).len() == 5,
        sidecar_args(p).take(4) == sidecar_args(q).take(4),
        sidecar_args(p)[2] == "127.0.0.1"@,
        crate::text::numeral_value(sidecar_args(p)[4]) == p,
        crate::text::all_digits(sidecar_args(p)[4]),
{
    crate::text::lemma_decimal_reads_back(p as nat);
    assert(sidecar_args(p).take(4) =~= sidecar_args(q).take(4));
}

} // verus!
