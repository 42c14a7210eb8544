//! Where the sidecar runtime lives, how its processes are started, and where
//! the bundled plugin is installed from and to.

use vstd::prelude::*;
use crate::fspath::{joined, root_only, FsPath};

verus! {

/// A resolved sidecar runtime: the node binary, the dsh CLI entry, and the
/// runtime's base directory.
#[derive(Debug, PartialEq)]
pub struct Runtime {
    pub node: FsPath,
    pub bin: FsPath,
    pub dir: FsPath,
}

/// The dsh CLI entry below a runtime base directory.
pub open spec fn bin_parts() -> Seq<Seq<char>> {
    seq!["node_modules"@, "@deepseek-ai"@, "dsh"@, "lib"@, "bin.js"@]
}

/// The runtime found in the base directory `base`.
pub open spec fn runtime_in(
    rt: Runtime,
    base: (Seq<char>, Seq<Seq<char>>),
) -> bool {
    &&& rt.node@ == joined(base, seq!["node.exe"@])
    &&& rt.bin@ == joined(base, bin_parts())
    &&& rt.dir@ == base
}

/// The dsh CLI entry that marks `base` as a runtime directory.
pub fn runtime_bin(base: &FsPath) -> (p: FsPath)
    ensures
        p@ == joined(base@, bin_parts()),
{
    let p = base.join("node_modules").join("@deepseek-ai").join("dsh").join("lib").join("bin.js");
    assert(p@.1 =~= base@.1 + bin_parts());
    p
}

/// The runtime in the base directory `base`.
pub fn runtime_at(base: FsPath) -> (rt: Runtime)
    ensures
        runtime_in(rt, base@),
{
    let node = base.join("node.exe");
    let bin = runtime_bin(&base);
    Runtime { node, bin, dir: base }
}

/// The base directories searched for the runtime, in order: the directory
/// named by `DSH_RUNTIME_DIR` (development), then, where the application's
/// resource directory is known, its `runtime` and `resources/runtime`
/// subdirectories and the resource directory itself.
pub open spec fn runtime_search_order(
    env_dir: Option<Seq<char>>,
    resource_dir: Option<(Seq<char>, Seq<Seq<char>>)>,
) -> Seq<(Seq<char>, Seq<Seq<char>>)> {
    let first = match env_dir {
        Some(d) => seq![root_only(d)],
        None => Seq::empty(),
    };
    let rest = match resource_dir {
        Some(r) => seq![
            joined(r, seq!["runtime"@]),
            joined(r, seq!["resources"@, "runtime"@]),
            r,
        ],
        None => Seq::empty(),
    };
    first + rest
}

/// The models of a list of paths.
pub open spec fn path_views(ps: Seq<FsPath>) -> Seq<(Seq<char>, Seq<Seq<char>>)> {
    ps.map_values(|p: FsPath| p@)
}

/// The model of an optional text.
pub open spec fn opt_text(o: Option<String>) -> Option<Seq<char>> {
    match o {
        Some(t) => Some(t@),
        None => None,
    }
}

/// The model of an optional path.
pub open spec fn opt_path(o: Option<FsPath>) -> Option<(Seq<char>, Seq<Seq<char>>)> {
    match o {
        Some(p) => Some(p@),
        None => None,
    }
}

/// The candidate base directories of the runtime, in the order they are
/// tried.
pub fn runtime_candidates(env_dir: Option<String>, resource_dir: Option<FsPath>) -> (c: Vec<FsPath>)
    ensures
        path_views(c@) == runtime_search_order(opt_text(env_dir), opt_path(resource_dir)),
{
    let ghost e = opt_text(env_dir);
    let ghost r = opt_path(resource_dir);
    let mut c: Vec<FsPath> = Vec::new();
    match env_dir {
        Some(d) => {
            c.push(FsPath::from_root(d));
        },
        None => {},
    }
    match resource_dir {
        Some(res) => {
            let a = res.join("runtime");
            let b = res.join("resources").join("runtime");
            assert(b@.1 =~= res@.1 + seq!["resources"@, "runtime"@]);
            c.push(a);
            c.push(b);
            c.push(res);
        },
        None => {},
    }
    assert(path_views(c@) =~= runtime_search_order(e, r));
    c
}

/// The first position where `found` holds, or -1.
pub open spec fn first_true(found: Seq<bool>) -> int {
    if exists|i: int| 0 <= i < found.len() && found[i] && forall|j: int| 0 <= j < i ==> !found[j] {
        choose|i: int| 0 <= i < found.len() && found[i] && forall|j: int| 0 <= j < i ==> !found[j]
    } else {
        -1
    }
}

/// The message given when no candidate holds the runtime.
pub open spec fn runtime_missing_message() -> Seq<char> {
    "dsh runtime not found; set DSH_RUNTIME_DIR to the sidecar directory"@
}

/// The runtime in the first candidate whose CLI entry exists (`bin_found[i]`
/// tells whether `runtime_bin(&candidates[i])` exists), or the error that
/// asks for `DSH_RUNTIME_DIR`.
pub fn select_runtime(candidates: Vec<FsPath>, bin_found: &Vec<bool>) -> (r: Result<Runtime, String>)
    requires
        candidates@.len() == bin_found@.len(),
    ensures
        match r {
            Ok(rt) => {
                &&& 0 <= first_true(bin_found@)
                &&& runtime_in(rt, candidates@[first_true(bin_found@)]@)
            },
            Err(e) => {
                &&& first_true(bin_found@) == -1
                &&& e@ == runtime_missing_message()
            },
        },
{
    let ghost found = bin_found@;
    let ghost cs = candidates@;
    let mut rest = candidates;
    let mut i: usize = 0;
    let n = bin_found.len();
    while i < n
        invariant
            n == found.len(),
            i <= n,
            rest@.len() == n - i,
            cs.len() == n,
            cs == candidates@,
            forall|t: int| 0 <= t < rest@.len() ==> #[trigger] rest@[t] == cs[i + t],
            forall|j: int| 0 <= j < i ==> !found[j],
            bin_found@ == found,
        decreases n - i,
    {
        assert(rest@[0] == cs[i + 0]);
        let base = rest.remove(0);
        if bin_found[i] {
            assert(0 <= i < found.len() && found[i as int] && forall|j: int| 0 <= j < i ==> !found[j]);
            let ghost f = first_true(found);
            assert(f == i) by {
                if f < i {
                    assert(!found[f]);
                } else if f > i {
                    assert(found[i as int]);
                }
            }
            return Ok(runtime_at(base));
        }
        i += 1;
    }
    Err("dsh runtime not found; set DSH_RUNTIME_DIR to the sidecar directory".to_owned())
}

/// The search order: the development directory, where `DSH_RUNTIME_DIR`
/// names one, comes first and changes nothing else; from a known resource
/// directory `r` come, in order, `r/runtime`, `r/resources/runtime` and `r`
/// itself; nothing else is searched.
pub proof fn lemma_runtime_search_order(
    env_dir: Option<Seq<char>>,
    resource_dir: Option<(Seq<char>, Seq<Seq<char>>)>,
)
    ensures
        env_dir matches Some(d) ==> runtime_search_order(env_dir, resource_dir) == seq![(d, Seq::<Seq<char>>::empty())]
            + runtime_search_order(None, resource_dir),
        resource_dir is None ==> runtime_search_order(None, resource_dir).len() == 0,
        resource_dir matches Some(r) ==> {
            let o = runtime_search_order(None, resource_dir);
            &&& o.len() == 3
            &&& o[0] == (r.0, r.1.push("runtime"@))
            &&& o[1] == (r.0, r.1.push("resources"@).push("runtime"@))
            &&& o[2] == r
        },
{
    if let Some(r) = resource_dir {
        assert(r.1 + seq!["runtime"@] =~= r.1.push("runtime"@));
        assert(r.1 + seq!["resources"@, "runtime"@] =~= r.1.push("resources"@).push("runtime"@));
    }
    if let Some(d) = env_dir {
        assert(runtime_search_order(env_dir, resource_dir) =~= seq![(d, Seq::<Seq<char>>::empty())]
            + runtime_search_order(None, resource_dir));
    }
    assert(Seq::<(Seq<char>, Seq<Seq<char>>)>::empty() + runtime_search_order(None, resource_dir)
        =~= runtime_search_order(None, resource_dir));
}

/// The runtime chosen is in the first candidate whose CLI entry exists:
/// that one exists and none before it does; and there is none only where no
/// candidate's entry exists.
pub proof fn lemma_first_true(found: Seq<bool>)
    ensures
        first_true(found) == -1 <==> forall|i: int| 0 <= i < found.len() ==> !found[i],
        first_true(found) != -1 ==> {
            &&& 0 <= first_true(found) < found.len()
            &&& found[first_true(found)]
            &&& forall|j: int| 0 <= j < first_true(found) ==> !found[j]
        },
{
    if exists|i: int| 0 <= i < found.len() && found[i] {
        let i = choose|i: int| 0 <= i < found.len() && found[i];
        lemma_first_true_exists(found, i);
    }
}

proof fn lemma_first_true_exists(found: Seq<bool>, i: int)
    requires
        0 <= i < found.len(),
        found[i],
    ensures
        exists|f: int| 0 <= f < found.len() && found[f] && forall|j: int| 0 <= j < f ==> !found[j],
    decreases i,
{
    if exists|j: int| 0 <= j < i && found[j] {
        let j = choose|j: int| 0 <= j < i && found[j];
        lemma_first_true_exists(found, j);
    } else {
        assert(forall|j: int| 0 <= j < i ==> !found[j]);
    }
}

} // verus!
