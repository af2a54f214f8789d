//! `pass git`: git in the store. `init` also teaches git to show what
//! changed inside an entry.
use crate::git_ops::git_args;
use crate::store_path::{join_path, path_joined};
use crate::text::{same, texts};
use vstd::prelude::*;

verus! {

/// The program by which git shows an entry.
pub const PIGGY_DIFF_TEXTCONV: &'static str = "pivy-box stream decrypt";

/// What the file of attributes holds.
pub const GIT_ATTRIBUTES: &'static str = "*.ebox diff=ebox\n";

/// One step of setting up a repository.
pub enum InitStep {
    /// Call git, and give up where it fails.
    Git(Vec<String>),
    /// Add a path and commit it.
    AddAndCommit(String, String),
    /// Write a file, and give up where that fails.
    Write(String, String),
}

/// [`InitStep`] over plain text.
pub enum InitStepView {
    Git(Seq<Seq<char>>),
    AddAndCommit(Seq<char>, Seq<char>),
    Write(Seq<char>, Seq<char>),
}

impl View for InitStep {
    type V = InitStepView;

    open spec fn view(&self) -> InitStepView {
        match self {
            InitStep::Git(a) => InitStepView::Git(texts(a@)),
            InitStep::AddAndCommit(p, m) => InitStepView::AddAndCommit(p@, m@),
            InitStep::Write(p, c) => InitStepView::Write(p@, c@),
        }
    }
}

/// The steps, over plain text.
pub open spec fn steps_view(v: Seq<InitStep>) -> Seq<InitStepView> {
    v.map_values(|s: InitStep| s@)
}

/// The settings of a repository that shows entries.
pub open spec fn config_args(root: Seq<char>, key: Seq<char>, value: Seq<char>) -> InitStepView {
    InitStepView::Git(seq!["-C"@, root] + seq!["config"@, "--local"@, key, value])
}

/// The steps of setting up a repository, in order.
pub open spec fn init_steps(root: Seq<char>, args: Seq<Seq<char>>) -> Seq<InitStepView> {
    seq![
        InitStepView::Git(seq!["-C"@, root] + args),
        InitStepView::AddAndCommit(root, "Add current contents of password store."@),
        InitStepView::Write(path_joined(root, ".gitattributes"@), GIT_ATTRIBUTES@),
        InitStepView::AddAndCommit(
            ".gitattributes"@,
            "Configure git repository for ebox file diff."@,
        ),
        config_args(root, "diff.ebox.binary"@, "true"@),
        config_args(root, "diff.ebox.textconv"@, PIGGY_DIFF_TEXTCONV@),
    ]
}

/// What `pass git` does.
pub enum GitPlan {
    Init(Vec<InitStep>),
    /// Become git, with these arguments.
    Passthrough(Vec<String>),
}

/// [`GitPlan`] over plain text.
pub enum GitPlanView {
    Init(Seq<InitStepView>),
    Passthrough(Seq<Seq<char>>),
}

impl View for GitPlan {
    type V = GitPlanView;

    open spec fn view(&self) -> GitPlanView {
        match self {
            GitPlan::Init(steps) => GitPlanView::Init(steps_view(steps@)),
            GitPlan::Passthrough(a) => GitPlanView::Passthrough(texts(a@)),
        }
    }
}

/// What `pass git` does.
pub open spec fn planned(root: Seq<char>, args: Seq<Seq<char>>) -> GitPlanView {
    if args.len() > 0 && args[0] == "init"@ {
        GitPlanView::Init(init_steps(root, args))
    } else {
        GitPlanView::Passthrough(seq!["-C"@, root] + args)
    }
}

fn config_step(root: &str, key: &str, value: &str) -> (r: InitStep)
    ensures
        r@ == config_args(root@, key@, value@),
{
    let mut args: Vec<String> = Vec::new();
    args.push("config".to_owned());
    args.push("--local".to_owned());
    args.push(key.to_owned());
    args.push(value.to_owned());
    assert(texts(args@) =~= seq!["config"@, "--local"@, key@, value@]);
    InitStep::Git(git_args(root, &args))
}

/// Decides what `pass git` does.
pub fn run(root: &str, args: &Vec<String>) -> (r: GitPlan)
    ensures
        r@ == planned(root@, texts(args@)),
        if args@.len() > 0 && args@[0]@ == "init"@ {
            r matches GitPlan::Init(steps) && steps_view(steps@) == init_steps(root@, texts(args@))
        } else {
            r matches GitPlan::Passthrough(a) && texts(a@) == seq!["-C"@, root@] + texts(args@)
        },
{
    assert(args@.len() > 0 ==> texts(args@)[0] == args@[0]@);
    if args.len() > 0 && same(args[0].as_str(), "init") {
        let mut steps: Vec<InitStep> = Vec::new();
        steps.push(InitStep::Git(git_args(root, args)));
        steps.push(
            InitStep::AddAndCommit(
                root.to_owned(),
                "Add current contents of password store.".to_owned(),
            ),
        );
        steps.push(InitStep::Write(join_path(root, ".gitattributes"), GIT_ATTRIBUTES.to_owned()));
        steps.push(
            InitStep::AddAndCommit(
                ".gitattributes".to_owned(),
                "Configure git repository for ebox file diff.".to_owned(),
            ),
        );
        steps.push(config_step(root, "diff.ebox.binary", "true"));
        steps.push(config_step(root, "diff.ebox.textconv", PIGGY_DIFF_TEXTCONV));
        assert(steps_view(steps@) =~= init_steps(root@, texts(args@)));
        GitPlan::Init(steps)
    } else {
        GitPlan::Passthrough(git_args(root, args))
    }
}

/// What is said of a store outside git.
pub fn not_a_repository() -> (r: String)
    ensures
        r@
            == "Error: the password store is not a git repository. Try \"piggy pass git init\"."@,
{
    "Error: the password store is not a git repository. Try \"piggy pass git init\".".to_owned()
}

/// The folder for git's temporary files, where one was named.
pub fn temp_dir(secure_tmpdir: Option<String>) -> (r: Option<String>)
    ensures
        r == match secure_tmpdir {
            Some(d) => if d@.len() == 0 {
                None::<String>
            } else {
                Some(d)
            },
            None => None::<String>,
        },
{
    match secure_tmpdir {
        Some(d) => {
            if d.as_str().is_empty() {
                None
            } else {
                Some(d)
            }
        },
        None => None,
    }
}

} // verus!
