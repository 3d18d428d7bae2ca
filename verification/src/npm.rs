//! The decisions of the service that builds a Node project and serves its
//! output: whether to build at start, which tool builds, which file events
//! start a rebuild, and which services a rebuild replaces.
use std::path::PathBuf;
use vstd::prelude::*;

verus! {

/// A single-page app built with npm or yarn from `src_directory` into
/// `output_directory`, whose files are served and rebuilt on change.
pub struct NpmSinglePageApp {
    /// The ids of the services serving the built files.
    pub managed_files: Vec<u128>,
    pub src_directory: PathBuf,
    pub output_directory: PathBuf,
    pub build_command: String,
    pub editable: bool,
}

/// How long after a rebuild file events are ignored, in milliseconds.
pub const REBUILD_QUIET_MILLIS: u64 = 5000;

/// How long to wait after a rebuild before clearing the events it caused, in milliseconds.
pub const SETTLE_MILLIS: u64 = 1000;

/// Files up to this size are kept in memory once read.
pub const FILE_CACHE_THRESHOLD: u64 = 65536;

impl NpmSinglePageApp {
    /// An editable app that manages no services yet.
    pub fn new(src_directory: PathBuf, output_directory: PathBuf, build_command: String) -> (app: Self)
        ensures
            app.managed_files@.len() == 0,
            app.src_directory == src_directory,
            app.output_directory == output_directory,
            app.build_command == build_command,
            app.editable,
    {
        NpmSinglePageApp { managed_files: Vec::new(), src_directory, output_directory, build_command, editable: true }
    }

    /// The name of the watching task.
    pub fn name(&self) -> (name: &'static str)
        ensures
            name@ == "Npm Watcher Service"@,
    {
        "Npm Watcher Service"
    }
}

/// What a file event in the source directory was.
#[derive(Clone, Copy, PartialEq, Eq, Structural, Debug)]
pub enum WatchEventKind {
    Create,
    Modify,
    Remove,
    Other,
}

/// What the watcher does with an event.
#[derive(Clone, Copy, PartialEq, Eq, Structural, Debug)]
pub enum WatchAction {
    Ignore,
    Rebuild,
}

/// A created, changed or removed file starts a rebuild, unless the last
/// rebuild ended less than `REBUILD_QUIET_MILLIS` ago; other events are ignored.
pub open spec fn watch_action(kind: WatchEventKind, millis_since_rebuild: u64) -> WatchAction {
    if kind != WatchEventKind::Other && millis_since_rebuild >= REBUILD_QUIET_MILLIS {
        WatchAction::Rebuild
    } else {
        WatchAction::Ignore
    }
}

/// What the watcher does with an event: see `watch_action`.
pub fn on_event(kind: WatchEventKind, millis_since_rebuild: u64) -> (action: WatchAction)
    ensures
        action == watch_action(kind, millis_since_rebuild),
{
    match kind {
        WatchEventKind::Other => WatchAction::Ignore,
        _ => if millis_since_rebuild < REBUILD_QUIET_MILLIS {
            WatchAction::Ignore
        } else {
            WatchAction::Rebuild
        },
    }
}

/// Whether the app is built when it is set up: both directories are there
/// (or were made) and the source holds a `package.json`.
pub fn should_build(src_ready: bool, output_ready: bool, has_package_json: bool) -> (build: bool)
    ensures
        build == (src_ready && output_ready && has_package_json),
{
    src_ready && output_ready && has_package_json
}

/// The tool that builds a Node project.
#[derive(Clone, Copy, PartialEq, Eq, Structural, Debug)]
pub enum BuildTool {
    Npm,
    Yarn,
}

/// Whether to look for yarn: only when npm is missing.
pub fn look_for_yarn(npm_found: bool) -> (look: bool)
    ensures
        look == !npm_found,
{
    !npm_found
}

/// The tool to build with: npm where it is found, else yarn where it is
/// found, else none.
pub fn build_tool(npm_found: bool, yarn_found: bool) -> (tool: Option<BuildTool>)
    ensures
        tool == (if npm_found {
            Some(BuildTool::Npm)
        } else if yarn_found {
            Some(BuildTool::Yarn)
        } else {
            None
        }),
{
    if npm_found {
        Some(BuildTool::Npm)
    } else if yarn_found {
        Some(BuildTool::Yarn)
    } else {
        None
    }
}

/// The program and arguments a build runs: `<tool> run build`.
pub fn build_command_line(tool: BuildTool) -> (line: (&'static str, Vec<&'static str>))
    ensures
        line.0@ == (match tool {
            BuildTool::Npm => "npm"@,
            BuildTool::Yarn => "yarn"@,
        }),
        line.1@.len() == 2,
        line.1@[0]@ == "run"@,
        line.1@[1]@ == "build"@,
{
    let program = match tool {
        BuildTool::Npm => "npm",
        BuildTool::Yarn => "yarn",
    };
    let args = vec!["run", "build"];
    (program, args)
}

/// Whether `id` is among `ids`.
pub open spec fn listed(ids: Seq<u128>, id: u128) -> bool {
    exists|i: int| 0 <= i < ids.len() && ids[i] == id
}

/// The services left in place by a rebuild: those whose id is not among
/// the app's managed files, in order.
pub fn retain_unmanaged<S>(services: Vec<(u128, S)>, managed: &Vec<u128>) -> (kept: Vec<(u128, S)>)
    ensures
        kept@ == services@.filter(|s: (u128, S)| !listed(managed@, s.0)),
{
    let ghost all = services@;
    let total = services.len();
    let mut rest = services;
    let mut kept: Vec<(u128, S)> = Vec::new();
    let mut taken: usize = 0;
    proof {
        reveal(Seq::filter);
        assert(all.take(0).filter(|s: (u128, S)| !listed(managed@, s.0)) =~= Seq::<(u128, S)>::empty());
        assert(rest@ =~= all.skip(0));
    }
    while rest.len() > 0
        invariant
            taken <= all.len(),
            all.len() == total,
            rest@ == all.skip(taken as int),
            kept@ == all.take(taken as int).filter(|s: (u128, S)| !listed(managed@, s.0)),
        decreases rest.len(),
    {
        let item = rest.remove(0);
        let mut found = false;
        let mut j: usize = 0;
        while j < managed.len()
            invariant
                j <= managed@.len(),
                found == exists|k: int| 0 <= k < j && managed@[k] == item.0,
            decreases managed.len() - j,
        {
            if managed[j] == item.0 {
                found = true;
            }
            j = j + 1;
        }
        proof {
            reveal(Seq::filter);
            assert(item == all[taken as int]);
            assert(all.take(taken + 1 as int).drop_last() =~= all.take(taken as int));
            assert(all.take(taken + 1 as int).last() == all[taken as int]);
            assert(rest@ =~= all.skip(taken + 1 as int));
        }
        if !found {
            kept.push(item);
        }
        taken = taken + 1;
    }
    assert(all.take(taken as int) =~= all);
    kept
}

/// A created, changed or removed file starts a rebuild once five seconds
/// (5000 ms) have passed since the last rebuild, and never sooner; any other
/// event never does.
pub proof fn law_rebuild_after_five_quiet_seconds(kind: WatchEventKind, millis_since_rebuild: u64)
    ensures
        kind != WatchEventKind::Other && millis_since_rebuild >= 5000 ==> watch_action(kind, millis_since_rebuild)
            == WatchAction::Rebuild,
        millis_since_rebuild < 5000 ==> watch_action(kind, millis_since_rebuild) == WatchAction::Ignore,
        watch_action(WatchEventKind::Other, millis_since_rebuild) == WatchAction::Ignore,
{
}

/// The watcher's fixed timings and sizes: rebuilds at most every 5000 ms,
/// events settle for 1000 ms after a rebuild, and files up to 65536 bytes
/// are kept in memory.
pub proof fn law_watch_settings()
    ensures
        REBUILD_QUIET_MILLIS == 5000,
        SETTLE_MILLIS == 1000,
        FILE_CACHE_THRESHOLD == 65536,
{
}

} // verus!
