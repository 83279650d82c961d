//! Whether the workspace of a checkpoint is still the one that the
//! configuration owns. What the paths resolve to is looked up by the caller.
use vstd::prelude::*;
use vstd::string::*;

use crate::checkpoint::Checkpoint;
use crate::config::Config;
use crate::text::{ends_with, same, starts_with};
#[allow(unused_imports)]
use crate::text::{ends, starts};

#[allow(unused_imports)]
use super::model_turn::run_message;
use super::RunError;

verus! {

/// The adapter that a configuration names.
pub open spec fn configured_adapter(config: Config) -> Seq<char> {
    if config.workspace.adapter@ == "directory-inplace"@ {
        "inplace"@
    } else {
        config.workspace.adapter@
    }
}

/// The adapter that a configuration names, under its one name.
pub fn configured_workspace_adapter(config: &Config) -> (s: String)
    ensures
        s@ == configured_adapter(*config),
{
    if same(config.workspace.adapter.as_str(), "directory-inplace") {
        "inplace".to_owned()
    } else {
        config.workspace.adapter.clone()
    }
}

/// The adapter of a checkpoint; one that names none has the configured one.
pub open spec fn checkpoint_adapter(config: Config, c: Checkpoint) -> Seq<char> {
    if c.workspace_adapter@.len() == 0 {
        configured_adapter(config)
    } else {
        c.workspace_adapter@
    }
}

/// The adapter of a checkpoint; one that names none has the configured one.
pub fn adapter_of(config: &Config, checkpoint: &Checkpoint) -> (s: String)
    ensures
        s@ == checkpoint_adapter(*config, *checkpoint),
{
    if checkpoint.workspace_adapter.as_str().is_empty() {
        configured_workspace_adapter(config)
    } else {
        checkpoint.workspace_adapter.clone()
    }
}

/// A path with a component behind it.
pub open spec fn joined(path: Seq<char>, component: Seq<char>) -> Seq<char> {
    if starts(component, "/"@) {
        component
    } else if path.len() == 0 || ends(path, "/"@) {
        path + component
    } else {
        path + "/"@ + component
    }
}

/// A path with a component behind it.
pub fn join_path(path: &str, component: &str) -> (s: String)
    ensures
        s@ == joined(path@, component@),
{
    if starts_with(component, "/") {
        return component.to_owned();
    }
    let mut s = path.to_owned();
    if !path.is_empty() && !ends_with(path, "/") {
        s.append("/");
    }
    s.append(component);
    assert(s@ =~= joined(path@, component@));
    s
}

/// Whether a resolved path is a resolved directory or lies below it.
pub open spec fn lies_below(path: Seq<char>, root: Seq<char>) -> bool {
    path == root || starts(path, joined(root, Seq::empty()))
}

/// Whether a resolved path is a resolved directory or lies below it. Sibling
/// directories with a longer name do not lie below it.
pub fn is_below(path: &str, root: &str) -> (r: bool)
    ensures
        r == lies_below(path@, root@),
{
    proof {
        reveal_strlit("");
        reveal_strlit("/");
    }
    let prefix = join_path(root, "");
    assert(""@ =~= Seq::<char>::empty());
    same(path, root) || starts_with(path, prefix.as_str())
}

/// What is known of one component of an expected workspace.
#[derive(Debug)]
pub enum Component {
    /// It could not be inspected, and why.
    Unknown(String),
    Symlink,
    Plain,
}

/// What is known of an expected workspace below a root.
#[derive(Debug)]
pub struct BelowProbe {
    /// What the root resolves to, or why it does not.
    pub root: Result<String, String>,
    pub first: Component,
    pub second: Component,
    /// What the workspace resolves to, or why it does not.
    pub target: Result<String, String>,
}

pub open spec fn path_error(label: Seq<char>, path: Seq<char>, why: Seq<char>) -> Seq<char> {
    label + path + ": "@ + why
}

/// What is wrong with a component, if anything is.
pub open spec fn component_fault(c: Component, path: Seq<char>) -> Option<Seq<char>> {
    match c {
        Component::Unknown(why) => Some(
            path_error("expected checkpoint workspace cannot be inspected: "@, path, why@),
        ),
        Component::Symlink => Some(
            "checkpoint workspace path must not contain symlinks: "@ + path,
        ),
        Component::Plain => None,
    }
}

/// The workspace two components below a root, or why it is not trusted: the
/// root resolves, no component is a link, and the workspace resolves to a place
/// below the root.
pub open spec fn below(
    root: Seq<char>,
    a: Seq<char>,
    b: Seq<char>,
    probe: BelowProbe,
) -> Result<Seq<char>, Seq<char>> {
    let first = joined(root, a);
    let second = joined(first, b);
    match probe.root {
        Err(why) => Err(path_error("configured workspace root cannot be resolved: "@, root, why@)),
        Ok(trusted) => match component_fault(probe.first, first) {
            Some(m) => Err(m),
            None => match component_fault(probe.second, second) {
                Some(m) => Err(m),
                None => match probe.target {
                    Err(why) => Err(
                        path_error(
                            "expected checkpoint workspace cannot be resolved: "@,
                            second,
                            why@,
                        ),
                    ),
                    Ok(target) => if lies_below(target@, trusted@) {
                        Ok(target@)
                    } else {
                        Err(
                            "checkpoint workspace "@ + target@ + " escapes configured root "@
                                + trusted@,
                        )
                    },
                },
            },
        },
    }
}

/// Whether a result is the one that is stated.
pub open spec fn found(r: Result<String, RunError>, stated: Result<Seq<char>, Seq<char>>) -> bool {
    match stated {
        Ok(path) => r matches Ok(p) && p@ == path,
        Err(m) => r matches Err(e) && run_message(e, m),
    }
}

fn unresolved(label: &str, path: &str, why: &String) -> (e: RunError)
    ensures
        run_message(e, path_error(label@, path@, why@)),
{
    let mut s = label.to_owned();
    s.append(path);
    s.append(": ");
    s.append(why.as_str());
    RunError::Message(s)
}

fn check_component(c: &Component, path: &str) -> (r: Result<(), RunError>)
    ensures
        match component_fault(*c, path@) {
            Some(m) => r matches Err(e) && run_message(e, m),
            None => r is Ok,
        },
{
    match c {
        Component::Unknown(why) => Err(
            unresolved("expected checkpoint workspace cannot be inspected: ", path, why),
        ),
        Component::Symlink => {
            let mut s = "checkpoint workspace path must not contain symlinks: ".to_owned();
            s.append(path);
            Err(RunError::Message(s))
        },
        Component::Plain => Ok(()),
    }
}

/// The workspace two components below a root, where it is trusted.
pub fn canonical_workspace_below(root: &str, a: &str, b: &str, probe: &BelowProbe) -> (r: Result<
    String,
    RunError,
>)
    ensures
        found(r, below(root@, a@, b@, *probe)),
{
    match &probe.root {
        Err(why) => Err(unresolved("configured workspace root cannot be resolved: ", root, why)),
        Ok(trusted) => {
            let first = join_path(root, a);
            if let Err(e) = check_component(&probe.first, first.as_str()) {
                return Err(e);
            }
            let second = join_path(first.as_str(), b);
            if let Err(e) = check_component(&probe.second, second.as_str()) {
                return Err(e);
            }
            match &probe.target {
                Err(why) => Err(
                    unresolved(
                        "expected checkpoint workspace cannot be resolved: ",
                        second.as_str(),
                        why,
                    ),
                ),
                Ok(target) => {
                    if is_below(target.as_str(), trusted.as_str()) {
                        Ok(target.clone())
                    } else {
                        let mut s = "checkpoint workspace ".to_owned();
                        s.append(target.as_str());
                        s.append(" escapes configured root ");
                        s.append(trusted.as_str());
                        Err(RunError::Message(s))
                    }
                },
            }
        },
    }
}

/// Where the workspace of a run is expected.
#[derive(Debug)]
pub enum WorkspacePlace {
    /// Two components below a root.
    Below { root: String, first: String, second: String },
    /// The configured root itself.
    Root(String),
    /// The adapter is none that can be checked.
    Unchecked(String),
}

/// Whether a place is where the configuration expects the workspace of a run.
pub open spec fn expected_place(
    place: WorkspacePlace,
    config: Config,
    state_runs: Seq<char>,
    run_id: Seq<char>,
) -> bool {
    let adapter = configured_adapter(config);
    let root = config.workspace.root@;
    if adapter == "directory"@ {
        place matches WorkspacePlace::Below { root: r, first, second } && if root == "."@ {
            r@ == state_runs && first@ == run_id && second@ == "workspace"@
        } else {
            r@ == root && first@ == "shikigami-runs"@ && second@ == run_id
        }
    } else if adapter == "git-worktree"@ {
        place matches WorkspacePlace::Below { root: r, first, second } && r@ == state_runs
            && first@ == run_id && second@ == "worktree"@
    } else if adapter == "inplace"@ {
        place matches WorkspacePlace::Root(r) && r@ == root
    } else {
        place matches WorkspacePlace::Unchecked(a) && a@ == adapter
    }
}

/// Where the configuration expects the workspace of a run.
pub fn workspace_place(config: &Config, state_runs: &str, run_id: &str) -> (p: WorkspacePlace)
    ensures
        expected_place(p, *config, state_runs@, run_id@),
{
    let adapter = configured_workspace_adapter(config);
    if same(adapter.as_str(), "directory") {
        if same(config.workspace.root.as_str(), ".") {
            WorkspacePlace::Below {
                root: state_runs.to_owned(),
                first: run_id.to_owned(),
                second: "workspace".to_owned(),
            }
        } else {
            WorkspacePlace::Below {
                root: config.workspace.root.clone(),
                first: "shikigami-runs".to_owned(),
                second: run_id.to_owned(),
            }
        }
    } else if same(adapter.as_str(), "git-worktree") {
        WorkspacePlace::Below {
            root: state_runs.to_owned(),
            first: run_id.to_owned(),
            second: "worktree".to_owned(),
        }
    } else if same(adapter.as_str(), "inplace") {
        WorkspacePlace::Root(config.workspace.root.clone())
    } else {
        WorkspacePlace::Unchecked(adapter)
    }
}

/// What the expected workspace resolves to, or why it is not trusted.
pub open spec fn expected_at(place: WorkspacePlace, probe: BelowProbe) -> Result<
    Seq<char>,
    Seq<char>,
> {
    match place {
        WorkspacePlace::Below { root, first, second } => below(root@, first@, second@, probe),
        WorkspacePlace::Root(root) => match probe.root {
            Err(why) => Err(
                path_error("configured workspace root cannot be resolved: "@, root@, why@),
            ),
            Ok(path) => Ok(path@),
        },
        WorkspacePlace::Unchecked(a) => Err(
            "cannot validate checkpoint workspace for adapter `"@ + a@ + "`"@,
        ),
    }
}

/// The workspace that a run resumes in, or why it cannot.
pub open spec fn resumed_workspace(
    config: Config,
    place: WorkspacePlace,
    c: Checkpoint,
    actual: Result<String, String>,
    probe: BelowProbe,
) -> Result<Seq<char>, Seq<char>> {
    match actual {
        Err(why) => Err(
            path_error("checkpoint workspace cannot be resolved: "@, c.workspace@, why@),
        ),
        Ok(path) => if checkpoint_adapter(config, c) != configured_adapter(config) {
            Err(
                "checkpoint workspace adapter `"@ + checkpoint_adapter(config, c)
                    + "` does not match configured adapter `"@ + configured_adapter(config) + "`"@,
            )
        } else {
            match expected_at(place, probe) {
                Err(m) => Err(m),
                Ok(expected) => if path@ == expected {
                    Ok(path@)
                } else {
                    Err(
                        "checkpoint workspace "@ + path@ + " does not match configured workspace "@
                            + expected,
                    )
                },
            }
        },
    }
}

/// Ensures that a resumed checkpoint still points at the workspace that the
/// configuration owns. `actual` is what its workspace resolves to, `probe` what
/// is known of the expected place.
pub fn validate_resumed_workspace(
    config: &Config,
    place: &WorkspacePlace,
    checkpoint: &Checkpoint,
    actual: &Result<String, String>,
    probe: &BelowProbe,
) -> (r: Result<String, RunError>)
    ensures
        found(r, resumed_workspace(*config, *place, *checkpoint, *actual, *probe)),
{
    match actual {
        Err(why) => Err(
            unresolved(
                "checkpoint workspace cannot be resolved: ",
                checkpoint.workspace.as_str(),
                why,
            ),
        ),
        Ok(path) => {
            let configured = configured_workspace_adapter(config);
            let own = adapter_of(config, checkpoint);
            if !same(own.as_str(), configured.as_str()) {
                let mut s = "checkpoint workspace adapter `".to_owned();
                s.append(own.as_str());
                s.append("` does not match configured adapter `");
                s.append(configured.as_str());
                s.append("`");
                return Err(RunError::Message(s));
            }
            let expected = match place {
                WorkspacePlace::Below { root, first, second } => canonical_workspace_below(
                    root.as_str(),
                    first.as_str(),
                    second.as_str(),
                    probe,
                ),
                WorkspacePlace::Root(root) => match &probe.root {
                    Err(why) => Err(
                        unresolved(
                            "configured workspace root cannot be resolved: ",
                            root.as_str(),
                            why,
                        ),
                    ),
                    Ok(p) => Ok(p.clone()),
                },
                WorkspacePlace::Unchecked(a) => {
                    let mut s = "cannot validate checkpoint workspace for adapter `".to_owned();
                    s.append(a.as_str());
                    s.append("`");
                    Err(RunError::Message(s))
                },
            };
            match expected {
                Err(e) => Err(e),
                Ok(expected) => {
                    if same(path.as_str(), expected.as_str()) {
                        Ok(path.clone())
                    } else {
                        let mut s = "checkpoint workspace ".to_owned();
                        s.append(path.as_str());
                        s.append(" does not match configured workspace ");
                        s.append(expected.as_str());
                        Err(RunError::Message(s))
                    }
                },
            }
        },
    }
}

/// A run that keeps its files in a directory of its own or in a worktree
/// resumes only in a workspace below the root that the configuration trusts.
pub proof fn resumed_workspace_is_contained(
    config: Config,
    place: WorkspacePlace,
    c: Checkpoint,
    actual: Result<String, String>,
    probe: BelowProbe,
)
    requires
        place is Below,
        resumed_workspace(config, place, c, actual, probe) is Ok,
    ensures
        probe.root is Ok,
        probe.first is Plain,
        probe.second is Plain,
        lies_below(resumed_workspace(config, place, c, actual, probe)->Ok_0, probe.root->Ok_0@),
{
}

/// The two names of the adapter that works in place are one; any other name is kept.
pub proof fn adapter_in_place_has_one_name(config: Config)
    ensures
        config.workspace.adapter@ == "inplace"@ || config.workspace.adapter@
            == "directory-inplace"@ ==> configured_adapter(config) == "inplace"@,
        config.workspace.adapter@ != "directory-inplace"@ ==> configured_adapter(config)
            == config.workspace.adapter@,
{
}

/// A path that is joined below another begins with it and ends with the component, with one
/// slash between them; an absolute component stands alone.
pub proof fn joined_path_keeps_its_pieces(path: Seq<char>, component: Seq<char>)
    ensures
        component.len() > 0 && component[0] == '/' ==> joined(path, component) == component,
        (component.len() == 0 || component[0] != '/') && path.len() > 0 && path.last() != '/'
            ==> joined(path, component) == path + seq!['/'] + component,
        (component.len() == 0 || component[0] != '/') && path.len() > 0 && path.last() == '/'
            ==> joined(path, component) == path + component,
        (component.len() == 0 || component[0] != '/') && path.len() == 0 ==> joined(path, component)
            == component,
{
    reveal_strlit("/");
    assert("/"@ =~= seq!['/']);
    if component.len() > 0 {
        assert(component.subrange(0, 1)[0] == component[0]);
        if component[0] == '/' {
            assert(component.subrange(0, 1) =~= "/"@);
        }
    }
    if path.len() > 0 {
        let n = path.len() - 1;
        assert(path.subrange(n, n + 1)[0] == path.last());
        if path.last() == '/' {
            assert(path.subrange(n, n + 1) =~= "/"@);
        }
    } else {
        assert(path + component =~= component);
    }
}

/// A path lies below a root just where it is the root or goes on behind it with a slash: one
/// that only begins with the same letters does not.
pub proof fn path_below_goes_on_with_a_slash(root: Seq<char>, rest: Seq<char>)
    requires
        root.len() > 0,
        root.last() != '/',
    ensures
        lies_below(root, root),
        lies_below(root + seq!['/'] + rest, root),
        rest.len() > 0 && rest[0] != '/' ==> !lies_below(root + rest, root),
{
    joined_path_keeps_its_pieces(root, Seq::empty());
    let below = joined(root, Seq::empty());
    assert(below =~= root + seq!['/']);
    let path = root + seq!['/'] + rest;
    assert(path.subrange(0, below.len() as int) =~= below);
    if rest.len() > 0 && rest[0] != '/' {
        let other = root + rest;
        assert(other.len() != root.len());
        assert(other.subrange(0, below.len() as int)[root.len() as int] == rest[0]);
        assert(below[root.len() as int] == '/');
    }
}

/// A run resumes in its workspace just where that resolves, the adapter is the configured
/// one, and the path is the one that the configuration gives the run.
pub proof fn run_resumes_in_its_own_workspace(
    config: Config,
    place: WorkspacePlace,
    c: Checkpoint,
    actual: Result<String, String>,
    probe: BelowProbe,
)
    ensures
        resumed_workspace(config, place, c, actual, probe) is Ok <==> actual is Ok
            && checkpoint_adapter(config, c) == configured_adapter(config) && expected_at(
            place,
            probe,
        ) is Ok && expected_at(place, probe)->Ok_0 == actual->Ok_0@,
        resumed_workspace(config, place, c, actual, probe) is Ok ==> resumed_workspace(
            config,
            place,
            c,
            actual,
            probe,
        )->Ok_0 == actual->Ok_0@,
{
}

/// A path is expected below a root just where root and target resolve, no component on the
/// way is a link or unknown, and the target lies below the root.
pub proof fn place_is_found_without_links(root: Seq<char>, a: Seq<char>, b: Seq<char>, probe: BelowProbe)
    ensures
        below(root, a, b, probe) is Ok <==> probe.root is Ok && probe.first is Plain
            && probe.second is Plain && probe.target is Ok && lies_below(
            probe.target->Ok_0@,
            probe.root->Ok_0@,
        ),
        below(root, a, b, probe) is Ok ==> below(root, a, b, probe)->Ok_0 == probe.target->Ok_0@,
{
}

/// A run works where its configuration puts it: in a directory of its own below the state or
/// the configured root, in a worktree below the state, or in the root itself. Of any other
/// adapter nothing is expected.
pub proof fn each_adapter_has_its_place(
    place: WorkspacePlace,
    config: Config,
    state_runs: Seq<char>,
    run_id: Seq<char>,
)
    requires
        expected_place(place, config, state_runs, run_id),
    ensures
        config.workspace.adapter@ == "directory"@ && config.workspace.root@ == "."@ ==> place
            is Below && place->root@ == state_runs && place->first@ == run_id && place->second@
            == "workspace"@,
        config.workspace.adapter@ == "directory"@ && config.workspace.root@ != "."@ ==> place
            is Below && place->root@ == config.workspace.root@ && place->first@
            == "shikigami-runs"@ && place->second@ == run_id,
        config.workspace.adapter@ == "git-worktree"@ ==> place is Below && place->root@
            == state_runs && place->first@ == run_id && place->second@ == "worktree"@,
        config.workspace.adapter@ == "inplace"@ || config.workspace.adapter@
            == "directory-inplace"@ ==> place is Root && place->Root_0@ == config.workspace.root@,
        place is Below ==> place->first@ == run_id || place->second@ == run_id,
{
    reveal_strlit("directory");
    reveal_strlit("directory-inplace");
    reveal_strlit("git-worktree");
    reveal_strlit("inplace");
    assert("directory"@.len() == 9 && "directory-inplace"@.len() == 17 && "git-worktree"@.len()
        == 12 && "inplace"@.len() == 7);
}

} // verus!
