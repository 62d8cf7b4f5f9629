//! Git worktrees: where they lie, when one is made unasked, and what `/worktree` calls for.
use crate::paths::{components, join_path, joined_path, parent, parent_of, same_path};
use crate::text::{
    decimal, number, same, split_words, strip_prefix_of, texts, trim_white, trimmed,
    without_prefix, words,
};
use vstd::prelude::*;
use vstd::string::*;

verus! {

broadcast use {vstd::seq::group_seq_axioms, vstd::string::group_string_axioms};

/// Where the worktree of a given name lies: beside the workspace, among the others.
pub open spec fn worktree_place(workspace: Seq<char>, name: Seq<char>) -> Seq<char> {
    joined_path(
        joined_path(
            match parent(workspace) {
                Some(dir) => dir,
                None => workspace,
            },
            "worktrees"@,
        ),
        name,
    )
}

/// Where the worktree of a given name lies.
pub fn worktree_path(workspace: &str, name: &str) -> (r: String)
    ensures
        r@ == worktree_place(workspace@, name@),
{
    let dir = match parent_of(workspace) {
        Some(dir) => dir,
        None => workspace.to_owned(),
    };
    join_path(&join_path(&dir, "worktrees"), name)
}

/// The name of a worktree that is made unasked at a given time.
pub fn auto_worktree_name(now: u64) -> (r: String)
    ensures
        r@ == "autofix-"@ + decimal(now as nat),
{
    let mut out = "autofix-".to_owned();
    out.append(number(now).as_str());
    out
}

/// Whether a workspace is the root of a repository, and not of one of its worktrees. Given
/// are what git calls the top level, its own directory and the one that worktrees share.
pub open spec fn is_repository_root(
    workspace: Seq<char>,
    top: Seq<char>,
    own_dir: Seq<char>,
    common_dir: Seq<char>,
) -> bool {
    components(workspace) == components(top) && components(own_dir) == components(common_dir)
}

/// Whether a workspace is the root of a repository, and not of one of its worktrees.
pub fn at_repository_root(workspace: &str, top: &str, own_dir: &str, common_dir: &str) -> (r: bool)
    ensures
        r == is_repository_root(workspace@, top@, own_dir@, common_dir@),
{
    same_path(workspace, top) && same_path(own_dir, common_dir)
}

/// How `/worktree` is used.
pub const WORKTREE_USAGE: &'static str =
    "usage: /worktree [status|list|auto|add <path> [branch]|switch <path>|remove <path>|prune]";

/// What `/worktree` calls for.
#[derive(Debug)]
pub enum WorktreeEffect {
    /// The user is told that something is wrong.
    Error(String),
    /// A git command runs.
    Git { args: Vec<String> },
    /// A git command makes a worktree, and the agent moves there.
    Add { args: Vec<String>, path: String },
    /// The agent moves to a worktree.
    Switch { path: String },
    /// A worktree is made if the agent is at the root of the repository, and it moves there.
    Auto,
}

/// What `/worktree` calls for as a mathematical object.
pub ghost enum WorktreeWish {
    Error(Seq<char>),
    Git { args: Seq<Seq<char>> },
    Add { args: Seq<Seq<char>>, path: Seq<char> },
    Switch { path: Seq<char> },
    Auto,
}

impl View for WorktreeEffect {
    type V = WorktreeWish;

    open spec fn view(&self) -> WorktreeWish {
        match self {
            WorktreeEffect::Error(t) => WorktreeWish::Error(t@),
            WorktreeEffect::Git { args } => WorktreeWish::Git { args: texts(args@) },
            WorktreeEffect::Add { args, path } => WorktreeWish::Add {
                args: texts(args@),
                path: path@,
            },
            WorktreeEffect::Switch { path } => WorktreeWish::Switch { path: path@ },
            WorktreeEffect::Auto => WorktreeWish::Auto,
        }
    }
}

/// The arguments with which git makes a worktree, on a new branch where one is named.
pub open spec fn add_args(path: Seq<char>, branch: Option<Seq<char>>) -> Seq<Seq<char>> {
    match branch {
        None => seq!["worktree"@, "add"@, path],
        Some(branch) => seq!["worktree"@, "add"@, "-b"@, branch, path],
    }
}

/// What `/worktree add` calls for, given the words behind it.
pub open spec fn adding(rest: Seq<Seq<char>>) -> WorktreeWish {
    if rest.len() == 1 {
        WorktreeWish::Add { args: add_args(rest[0], None), path: rest[0] }
    } else if rest.len() == 2 {
        WorktreeWish::Add { args: add_args(rest[0], Some(rest[1])), path: rest[0] }
    } else {
        WorktreeWish::Error(WORKTREE_USAGE@)
    }
}

/// What `/worktree` calls for where its argument names a path.
pub open spec fn pathed(arg: Seq<char>) -> WorktreeWish {
    match without_prefix(arg, "add "@) {
        Some(rest) => adding(words(rest)),
        None => match (without_prefix(arg, "switch "@), without_prefix(arg, "remove "@)) {
            (Some(path), _) => if trimmed(path).len() == 0 {
                WorktreeWish::Error(WORKTREE_USAGE@)
            } else {
                WorktreeWish::Switch { path: trimmed(path) }
            },
            (None, Some(path)) => if trimmed(path).len() == 0 {
                WorktreeWish::Error(WORKTREE_USAGE@)
            } else {
                WorktreeWish::Git { args: seq!["worktree"@, "remove"@, trimmed(path)] }
            },
            (None, None) => WorktreeWish::Error(WORKTREE_USAGE@),
        },
    }
}

/// What `/worktree` calls for, given its argument.
pub open spec fn worktree_wish(arg: Seq<char>) -> WorktreeWish {
    if arg.len() == 0 || arg == "status"@ {
        WorktreeWish::Git { args: seq!["worktree"@, "list"@] }
    } else if arg == "list"@ {
        WorktreeWish::Git { args: seq!["worktree"@, "list"@, "--porcelain"@] }
    } else if arg == "auto"@ {
        WorktreeWish::Auto
    } else if arg == "prune"@ {
        WorktreeWish::Git { args: seq!["worktree"@, "prune"@] }
    } else {
        pathed(arg)
    }
}

fn usage() -> (r: WorktreeEffect)
    ensures
        r@ == WorktreeWish::Error(WORKTREE_USAGE@),
{
    WorktreeEffect::Error(WORKTREE_USAGE.to_owned())
}

fn git_args(a: &str, b: Option<&str>) -> (r: Vec<String>)
    ensures
        texts(r@) == (match b {
            None => seq!["worktree"@, a@],
            Some(b) => seq!["worktree"@, a@, b@],
        }),
{
    let mut args: Vec<String> = Vec::new();
    args.push("worktree".to_owned());
    args.push(a.to_owned());
    if let Some(b) = b {
        args.push(b.to_owned());
        assert(texts(args@) =~= seq!["worktree"@, a@, b@]);
    } else {
        assert(texts(args@) =~= seq!["worktree"@, a@]);
    }
    args
}

/// The arguments with which git makes a worktree, on a new branch where one is named.
pub fn worktree_add_args(path: &str, branch: Option<&str>) -> (r: Vec<String>)
    ensures
        texts(r@) == add_args(
            path@,
            match branch {
                Some(b) => Some(b@),
                None => None,
            },
        ),
{
    let mut args: Vec<String> = Vec::new();
    args.push("worktree".to_owned());
    args.push("add".to_owned());
    if let Some(b) = branch {
        args.push("-b".to_owned());
        args.push(b.to_owned());
        args.push(path.to_owned());
        assert(texts(args@) =~= add_args(path@, Some(b@)));
    } else {
        args.push(path.to_owned());
        assert(texts(args@) =~= add_args(path@, None));
    }
    args
}

fn add_command(rest: &str) -> (r: WorktreeEffect)
    ensures
        r@ == adding(words(rest@)),
{
    let parts = split_words(rest);
    assert(texts(parts@).len() == parts@.len());
    if parts.len() == 1 {
        assert(texts(parts@)[0] == parts@[0]@);
        WorktreeEffect::Add {
            args: worktree_add_args(&parts[0], None),
            path: parts[0].clone(),
        }
    } else if parts.len() == 2 {
        assert(texts(parts@)[0] == parts@[0]@);
        assert(texts(parts@)[1] == parts@[1]@);
        WorktreeEffect::Add {
            args: worktree_add_args(&parts[0], Some(parts[1].as_str())),
            path: parts[0].clone(),
        }
    } else {
        usage()
    }
}

fn path_command(arg: &str) -> (r: WorktreeEffect)
    ensures
        r@ == pathed(arg@),
{
    match strip_prefix_of(arg, "add ") {
        Some(rest) => add_command(&rest),
        None => match (strip_prefix_of(arg, "switch "), strip_prefix_of(arg, "remove ")) {
            (Some(path), _) => {
                let path = trim_white(&path);
                if path.as_str().unicode_len() == 0 {
                    usage()
                } else {
                    WorktreeEffect::Switch { path }
                }
            },
            (None, Some(path)) => {
                let path = trim_white(&path);
                if path.as_str().unicode_len() == 0 {
                    usage()
                } else {
                    WorktreeEffect::Git { args: git_args("remove", Some(path.as_str())) }
                }
            },
            (None, None) => usage(),
        },
    }
}

/// `/worktree`, given its argument.
pub fn worktree_command(arg: &str) -> (r: WorktreeEffect)
    ensures
        r@ == worktree_wish(arg@),
{
    if arg.unicode_len() == 0 || same(arg, "status") {
        WorktreeEffect::Git { args: git_args("list", None) }
    } else if same(arg, "list") {
        WorktreeEffect::Git { args: git_args("list", Some("--porcelain")) }
    } else if same(arg, "auto") {
        WorktreeEffect::Auto
    } else if same(arg, "prune") {
        WorktreeEffect::Git { args: git_args("prune", None) }
    } else {
        path_command(arg)
    }
}

// ---------------------------------------------------------------------------
// Laws
// ---------------------------------------------------------------------------

/// Whatever is typed, git is asked about worktrees alone, and a worktree that is made is
/// the one that the agent moves to.
pub proof fn law_worktree_commands_are_about_worktrees(arg: Seq<char>)
    ensures
        worktree_wish(arg) matches WorktreeWish::Git { args } ==> args.len() > 0 && args[0]
            == "worktree"@,
        worktree_wish(arg) matches WorktreeWish::Add { args, path } ==> args.len() > 0 && args[0]
            == "worktree"@ && args.last() == path,
{
}

/// A worktree lies beside its workspace, in a directory that is shared with the others and
/// under its own name.
pub proof fn law_worktrees_lie_beside(workspace: Seq<char>, dir: Seq<char>, name: Seq<char>)
    requires
        parent(workspace) == Some(dir),
        dir.len() > 0,
        dir.last() != '/',
        !crate::paths::is_absolute_path(name),
    ensures
        worktree_place(workspace, name) == dir + "/"@ + "worktrees"@ + "/"@ + name,
{
    reveal_strlit("worktrees");
    let shared = dir + "/"@ + "worktrees"@;
    assert(shared.last() == 's');
}

/// A workspace is the root of its repository where it is the top of it and has the directory
/// of git for itself.
pub proof fn law_roots_are_told_from_worktrees(
    workspace: Seq<char>,
    top: Seq<char>,
    own_dir: Seq<char>,
    common_dir: Seq<char>,
)
    ensures
        is_repository_root(workspace, workspace, own_dir, own_dir),
        components(workspace) != components(top) ==> !is_repository_root(
            workspace,
            top,
            own_dir,
            common_dir,
        ),
        components(own_dir) != components(common_dir) ==> !is_repository_root(
            workspace,
            top,
            own_dir,
            common_dir,
        ),
{
}

/// A worktree is added at the path that is named, on a new branch where one is.
pub proof fn law_worktrees_are_added(path: Seq<char>, branch: Seq<char>)
    ensures
        add_args(path, None) == seq!["worktree"@, "add"@, path],
        add_args(path, Some(branch)) == seq!["worktree"@, "add"@, "-b"@, branch, path],
        adding(seq![path]) == (WorktreeWish::Add { args: add_args(path, None), path }),
        adding(seq![path, branch]) == (WorktreeWish::Add {
            args: add_args(path, Some(branch)),
            path,
        }),
        adding(seq![]) == WorktreeWish::Error(WORKTREE_USAGE@),
{
}

/// `/worktree` shows and lists the worktrees, makes one where it is needed, prunes them, or
/// adds, switches to or removes the one that is named; what is none of these is told its usage.
pub proof fn law_worktree_commands_are_carried_out(path: Seq<char>, arg: Seq<char>)
    ensures
        worktree_wish(""@) == (WorktreeWish::Git { args: seq!["worktree"@, "list"@] }),
        worktree_wish("status"@) == (WorktreeWish::Git { args: seq!["worktree"@, "list"@] }),
        worktree_wish("list"@) == (WorktreeWish::Git {
            args: seq!["worktree"@, "list"@, "--porcelain"@],
        }),
        worktree_wish("auto"@) == WorktreeWish::Auto,
        worktree_wish("prune"@) == (WorktreeWish::Git { args: seq!["worktree"@, "prune"@] }),
        worktree_wish("add "@ + path) == adding(words(path)),
        trimmed(path).len() > 0 ==> worktree_wish("switch "@ + path) == (WorktreeWish::Switch {
            path: trimmed(path),
        }),
        trimmed(path).len() > 0 ==> worktree_wish("remove "@ + path) == (WorktreeWish::Git {
            args: seq!["worktree"@, "remove"@, trimmed(path)],
        }),
        trimmed(path).len() == 0 ==> worktree_wish("switch "@ + path) == WorktreeWish::Error(
            WORKTREE_USAGE@,
        ) && worktree_wish("remove "@ + path) == WorktreeWish::Error(WORKTREE_USAGE@),
        arg.len() > 0 && arg != "status"@ && arg != "list"@ && arg != "auto"@ && arg != "prune"@
            && !crate::text::begins(arg, "add "@) && !crate::text::begins(arg, "switch "@)
            && !crate::text::begins(arg, "remove "@) ==> worktree_wish(arg) == WorktreeWish::Error(
            WORKTREE_USAGE@,
        ),
{
    reveal_strlit("");
    reveal_strlit("status");
    reveal_strlit("list");
    reveal_strlit("auto");
    reveal_strlit("prune");
    reveal_strlit("add ");
    reveal_strlit("switch ");
    reveal_strlit("remove ");
    let a = "add "@ + path;
    let s = "switch "@ + path;
    let r = "remove "@ + path;
    assert(a.subrange(0, 4) =~= "add "@);
    assert(a.skip(4) =~= path);
    assert(s.subrange(0, 7) =~= "switch "@);
    assert(s.skip(7) =~= path);
    assert(r.subrange(0, 7) =~= "remove "@);
    assert(r.skip(7) =~= path);
    assert(a[0] == 'a' && a[1] == 'd' && s[0] == 's' && s[1] == 'w' && r[0] == 'r');
    assert("status"@[1] == 't' && "list"@[0] == 'l' && "auto"@[1] == 'u' && "prune"@[0] == 'p');
    assert("status"@.len() == 6 && "list"@.len() == 4 && "auto"@.len() == 4 && "prune"@.len() == 5);
    if crate::text::begins(s, "add "@) {
        assert(s.subrange(0, 4)[0] == s[0]);
    }
    if crate::text::begins(r, "add "@) {
        assert(r.subrange(0, 4)[0] == r[0]);
    }
    if crate::text::begins(r, "switch "@) {
        assert(r.subrange(0, 7)[0] == r[0]);
    }
}

/// More words than a path and a branch are told the usage, and a workspace without a parent has
/// its worktrees below itself.
pub proof fn law_other_worktree_requests(rest: Seq<Seq<char>>, workspace: Seq<char>, name: Seq<char>)
    ensures
        rest.len() > 2 ==> adding(rest) == WorktreeWish::Error(WORKTREE_USAGE@),
        parent(workspace) is None ==> worktree_place(workspace, name) == joined_path(
            joined_path(workspace, "worktrees"@),
            name,
        ),
        parent(workspace) is Some ==> worktree_place(workspace, name) == joined_path(
            joined_path(parent(workspace)->0, "worktrees"@),
            name,
        ),
{
}

}
