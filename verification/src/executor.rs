//! What every executor shares: the task prompt, the choice of executor by name, the
//! command line that runs an agent (natively or in a container), and the record of its output.
use vstd::prelude::*;
use vstd::string::*;
use crate::config::{home_dir, RepoConfig};
use crate::error::LelouchError;
use crate::path::{join, join_path};
use crate::text::{blank, concat, is_blank, str_eq, trim, trim_end, trim_end_str, trim_str, views};
use crate::work_db::{opt_view, Task};

verus! {

/// The prompt for a task: the trimmed pre-prompt and a blank line when there is a
/// non-blank one, then `Work on issue <id>: <title>`, then the description under a
/// `Description:` heading when it is not empty.
pub open spec fn prompt_text(
    id: Seq<char>,
    title: Seq<char>,
    description: Option<Seq<char>>,
    pre_prompt: Option<Seq<char>>,
) -> Seq<char> {
    let head = if pre_prompt is Some && !is_blank(pre_prompt->0) {
        trim(pre_prompt->0) + "\n\n"@
    } else {
        seq![]
    };
    let desc = if description is Some && description->0.len() > 0 {
        "\n\nDescription:\n"@ + description->0
    } else {
        seq![]
    };
    head + "Work on issue "@ + id + ": "@ + title + desc
}

/// Law: every prompt names the task as `Work on issue <id>: <title>`, whatever its
/// description: alone when there is neither a (non-blank) pre-prompt nor a (non-empty)
/// description, after the trimmed pre-prompt and a blank line when there is one, and
/// followed by the description under a `Description:` heading when there is one.
pub proof fn law_prompt_names_task(
    id: Seq<char>,
    title: Seq<char>,
    description: Option<Seq<char>>,
    pre_prompt: Option<Seq<char>>,
)
    ensures
        ({
            let named = "Work on issue "@ + id + ": "@ + title;
            let p = prompt_text(id, title, description, pre_prompt);
            let no_pre = pre_prompt is None || is_blank(pre_prompt->0);
            let no_desc = description is None || description->0.len() == 0;
            &&& no_pre && no_desc ==> p == named
            &&& !no_pre && no_desc ==> p == trim(pre_prompt->0) + "\n\n"@ + named
            &&& no_pre && !no_desc ==> p == named + "\n\nDescription:\n"@ + description->0
            &&& !no_pre && !no_desc ==> p == trim(pre_prompt->0) + "\n\n"@ + named
                + "\n\nDescription:\n"@ + description->0
        }),
{
    let named = "Work on issue "@ + id + ": "@ + title;
    assert(seq![] + "Work on issue "@ + id + ": "@ + title =~= named);
    assert(named + seq![] =~= named);
}

/// The view of an optional `&str`.
pub open spec fn opt_str_view(o: Option<&str>) -> Option<Seq<char>> {
    match o {
        Some(s) => Some(s@),
        None => None,
    }
}

/// Constructs the task prompt string, optionally prepending a pre-prompt.
pub fn build_prompt(task: &Task, pre_prompt: Option<&str>) -> (p: String)
    ensures
        p@ == prompt_text(task.id@, task.title@, opt_view(task.description), opt_str_view(pre_prompt)),
{
    let mut p = String::new();
    match pre_prompt {
        Some(pre) => {
            if !blank(pre) {
                let t = trim_str(pre);
                p.append(t.as_str());
                p.append("\n\n");
            }
        },
        None => {},
    }
    p.append("Work on issue ");
    p.append(task.id.as_str());
    p.append(": ");
    p.append(task.title.as_str());
    match &task.description {
        Some(d) => {
            if d.as_str().unicode_len() > 0 {
                p.append("\n\nDescription:\n");
                p.append(d.as_str());
            }
        },
        None => {},
    }
    assert(p@ =~= prompt_text(
        task.id@,
        task.title@,
        opt_view(task.description),
        opt_str_view(pre_prompt),
    ));
    p
}

/// The coding agents lelouch can dispatch tasks to.
#[derive(Clone, Copy, Debug, PartialEq, Eq)]
pub enum ExecutorKind {
    Antigravity,
    CursorAgent,
    Gemini,
}

/// The name an executor is configured by.
pub open spec fn kind_name(k: ExecutorKind) -> Seq<char> {
    match k {
        ExecutorKind::Antigravity => "antigravity"@,
        ExecutorKind::CursorAgent => "cursor-agent"@,
        ExecutorKind::Gemini => "gemini"@,
    }
}

impl ExecutorKind {
    /// The name this executor is configured by.
    pub fn name(&self) -> (s: &'static str)
        ensures
            s@ == kind_name(*self),
    {
        match self {
            ExecutorKind::Antigravity => "antigravity",
            ExecutorKind::CursorAgent => "cursor-agent",
            ExecutorKind::Gemini => "gemini",
        }
    }
}

/// Resolves an executor by name; an unknown name is an error.
pub fn resolve_executor(name: &str) -> (r: Result<ExecutorKind, LelouchError>)
    ensures
        match r {
            Ok(k) => kind_name(k) == name@,
            Err(e) => (e matches LelouchError::UnknownExecutor { name: n } && n@ == name@)
                && forall|k: ExecutorKind| kind_name(k) != name@,
        },
{
    if str_eq(name, "antigravity") {
        Ok(ExecutorKind::Antigravity)
    } else if str_eq(name, "cursor-agent") {
        Ok(ExecutorKind::CursorAgent)
    } else if str_eq(name, "gemini") {
        Ok(ExecutorKind::Gemini)
    } else {
        Err(LelouchError::UnknownExecutor { name: String::from_str(name) })
    }
}

/// A directory made visible inside the container.
#[derive(Debug)]
pub struct Mount {
    pub host: String,
    pub container: String,
    pub read_only: bool,
}

/// A mount as plain values.
pub struct MountSpec {
    pub host: Seq<char>,
    pub container: Seq<char>,
    pub read_only: bool,
}

/// The mounts as plain values.
pub open spec fn mount_views(s: Seq<Mount>) -> Seq<MountSpec> {
    s.map_values(|m: Mount| MountSpec { host: m.host@, container: m.container@, read_only: m.read_only })
}

/// The `-v` value of a mount: `host:container`, with `:ro` for a read-only one.
pub open spec fn mount_arg(m: MountSpec) -> Seq<char> {
    m.host + ":"@ + m.container + if m.read_only {
        ":ro"@
    } else {
        seq![]
    }
}

/// A program to start: what it is, its arguments, and the directory it starts in
/// (`None`: the caller's).
#[derive(Debug)]
pub struct Invocation {
    pub program: String,
    pub args: Vec<String>,
    pub cwd: Option<String>,
}

/// Whether tasks of this repository run in a container.
pub open spec fn runs_in_container(no_sandbox: bool, in_repo: bool) -> bool {
    !(no_sandbox || in_repo)
}

/// The `-v` arguments for the mounts, in order.
pub open spec fn mount_args(s: Seq<MountSpec>) -> Seq<Seq<char>>
    decreases s.len(),
{
    if s.len() == 0 {
        seq![]
    } else {
        mount_args(s.drop_last()) + seq!["-v"@, mount_arg(s.last())]
    }
}

/// The credential mount arguments: the home's credential directory at `/root/<dir>`.
pub open spec fn credential_args(home: Option<Seq<char>>, credential_dir: Option<Seq<char>>) -> Seq<
    Seq<char>,
> {
    if home is Some && credential_dir is Some {
        seq!["-v"@, join_path(home->0, credential_dir->0) + ":/root/"@ + credential_dir->0]
    } else {
        seq![]
    }
}

/// The arguments of `docker` that run `args` in the repository's image with the worktree
/// as working directory.
pub open spec fn docker_args(
    image: Seq<char>,
    home: Option<Seq<char>>,
    credential_dir: Option<Seq<char>>,
    mounts: Seq<MountSpec>,
    worktree: Seq<char>,
    args: Seq<Seq<char>>,
) -> Seq<Seq<char>> {
    seq!["run"@, "--rm"@, "-i"@] + credential_args(home, credential_dir) + mount_args(mounts) + seq![
        "-v"@,
        worktree + ":"@ + worktree,
        "-w"@,
        worktree,
        image,
    ] + args
}

fn push_str(v: &mut Vec<String>, s: &str)
    ensures
        views(final(v)@) == views(old(v)@).push(s@),
{
    v.push(String::from_str(s));
    assert(views(v@) =~= views(old(v)@).push(s@));
}

fn push_string(v: &mut Vec<String>, s: String)
    ensures
        views(final(v)@) == views(old(v)@).push(s@),
{
    v.push(s);
    assert(views(v@) =~= views(old(v)@).push(s@));
}

fn clone_strings(v: &Vec<String>, from: usize) -> (r: Vec<String>)
    requires
        from <= v@.len(),
    ensures
        views(r@) == views(v@).subrange(from as int, v@.len() as int),
{
    let mut r: Vec<String> = Vec::new();
    let n = v.len();
    let mut i = from;
    while i < n
        invariant
            n == v@.len(),
            from <= i <= n,
            views(r@) == views(v@).subrange(from as int, i as int),
        decreases n - i,
    {
        push_string(&mut r, v[i].clone());
        assert(views(v@).subrange(from as int, i + 1) =~= views(v@).subrange(
            from as int,
            i as int,
        ).push(v@[i as int]@));
        i = i + 1;
    }
    r
}

/// The mount argument text of one mount.
fn mount_text(m: &Mount) -> (s: String)
    ensures
        s@ == mount_arg(MountSpec { host: m.host@, container: m.container@, read_only: m.read_only }),
{
    let mut s = m.host.clone();
    s.append(":");
    s.append(m.container.as_str());
    if m.read_only {
        s.append(":ro");
    }
    assert(s@ =~= mount_arg(
        MountSpec { host: m.host@, container: m.container@, read_only: m.read_only },
    ));
    s
}

/// Whether tasks of `repo` run in a container (not without sandbox, and not in the
/// repository itself).
pub fn uses_container(repo: &RepoConfig) -> (b: bool)
    ensures
        b == runs_in_container(repo.no_sandbox, repo.in_repo),
{
    !(repo.no_sandbox || repo.in_repo)
}

/// The arguments of `docker` that build the repository's image from `context`.
pub open spec fn docker_build_args(image: Seq<char>, context: Seq<char>) -> Seq<Seq<char>> {
    seq!["build"@, "-t"@, image, context]
}

/// The command that builds a repository's image before its container runs: `docker build`
/// tagging the image with the repository's image name, with the repository as build
/// context; nothing when its tasks run natively.
pub fn image_build_invocation(repo: &RepoConfig, context: &str) -> (inv: Option<Invocation>)
    ensures
        !runs_in_container(repo.no_sandbox, repo.in_repo) ==> inv is None,
        runs_in_container(repo.no_sandbox, repo.in_repo) ==> (inv matches Some(i) && i.program@
            == "docker"@ && views(i.args@) == docker_build_args(repo.docker_image_name@, context@)
            && i.cwd is None),
{
    if repo.no_sandbox || repo.in_repo {
        return None;
    }
    let mut v: Vec<String> = Vec::new();
    push_str(&mut v, "build");
    push_str(&mut v, "-t");
    push_string(&mut v, repo.docker_image_name.clone());
    push_str(&mut v, context);
    assert(views(v@) =~= docker_build_args(repo.docker_image_name@, context@));
    Some(Invocation { program: String::from_str("docker"), args: v, cwd: None })
}

/// The command that runs an agent for a repository, given the home directory. Natively
/// (no sandbox, or working in the repository itself) it is `args[0]` with the remaining
/// arguments in the worktree; otherwise it is `docker run` with the home's credential
/// directory, the version control mounts and the worktree mounted, the worktree as
/// working directory, then the image and `args`.
pub fn container_invocation_with_home(
    repo: &RepoConfig,
    credential_dir: Option<&str>,
    worktree_path: &str,
    home: Option<String>,
    mounts: &Vec<Mount>,
    args: &Vec<String>,
) -> (inv: Invocation)
    requires
        args@.len() > 0,
    ensures
        !runs_in_container(repo.no_sandbox, repo.in_repo) ==> {
            &&& inv.program@ == args@[0]@
            &&& views(inv.args@) == views(args@).drop_first()
            &&& inv.cwd matches Some(c) && c@ == worktree_path@
        },
        runs_in_container(repo.no_sandbox, repo.in_repo) ==> {
            &&& inv.program@ == "docker"@
            &&& views(inv.args@) == docker_args(
                repo.docker_image_name@,
                opt_view(home),
                opt_str_view(credential_dir),
                mount_views(mounts@),
                worktree_path@,
                views(args@),
            )
            &&& inv.cwd is None
        },
{
    if repo.no_sandbox || repo.in_repo {
        let rest = clone_strings(args, 1);
        assert(views(args@).subrange(1, args@.len() as int) =~= views(args@).drop_first());
        return Invocation {
            program: args[0].clone(),
            args: rest,
            cwd: Some(String::from_str(worktree_path)),
        };
    }
    let mut v: Vec<String> = Vec::new();
    push_str(&mut v, "run");
    push_str(&mut v, "--rm");
    push_str(&mut v, "-i");
    assert(views(v@) =~= seq!["run"@, "--rm"@, "-i"@]);
    match (&home, credential_dir) {
        (Some(h), Some(cred)) => {
            push_str(&mut v, "-v");
            let mut m = join(h.as_str(), cred);
            m.append(":/root/");
            m.append(cred);
            push_string(&mut v, m);
        },
        _ => {},
    }
    let ghost base = views(v@);
    assert(base =~= seq!["run"@, "--rm"@, "-i"@] + credential_args(
        opt_view(home),
        opt_str_view(credential_dir),
    ));
    let n = mounts.len();
    let mut i: usize = 0;
    while i < n
        invariant
            n == mounts@.len(),
            i <= n,
            views(v@) == base + mount_args(mount_views(mounts@).take(i as int)),
        decreases n - i,
    {
        push_str(&mut v, "-v");
        let t = mount_text(&mounts[i]);
        push_string(&mut v, t);
        let ghost ms = mount_views(mounts@);
        assert(ms.take(i + 1).drop_last() =~= ms.take(i as int));
        assert(views(v@) =~= base + mount_args(ms.take(i + 1)));
        i = i + 1;
    }
    assert(mount_views(mounts@).take(n as int) =~= mount_views(mounts@));
    push_str(&mut v, "-v");
    let mut wt = String::from_str(worktree_path);
    wt.append(":");
    wt.append(worktree_path);
    push_string(&mut v, wt);
    push_str(&mut v, "-w");
    push_str(&mut v, worktree_path);
    push_string(&mut v, repo.docker_image_name.clone());
    let ghost before_args = views(v@);
    let m = args.len();
    let mut j: usize = 0;
    while j < m
        invariant
            m == args@.len(),
            j <= m,
            views(v@) == before_args + views(args@).take(j as int),
        decreases m - j,
    {
        push_string(&mut v, args[j].clone());
        assert(views(args@).take(j + 1) =~= views(args@).take(j as int).push(args@[j as int]@));
        j = j + 1;
    }
    assert(views(args@).take(m as int) =~= views(args@));
    assert(views(v@) =~= docker_args(
        repo.docker_image_name@,
        opt_view(home),
        opt_str_view(credential_dir),
        mount_views(mounts@),
        worktree_path@,
        views(args@),
    ));
    Invocation { program: String::from_str("docker"), args: v, cwd: None }
}

/// The command that runs an agent for a repository (see `container_invocation_with_home`),
/// with the user's home directory as the platform reports it.
pub fn container_invocation(
    repo: &RepoConfig,
    credential_dir: Option<&str>,
    worktree_path: &str,
    mounts: &Vec<Mount>,
    args: &Vec<String>,
) -> (inv: Invocation)
    requires
        args@.len() > 0,
    ensures
        !runs_in_container(repo.no_sandbox, repo.in_repo) ==> {
            &&& inv.program@ == args@[0]@
            &&& views(inv.args@) == views(args@).drop_first()
            &&& inv.cwd matches Some(c) && c@ == worktree_path@
        },
        runs_in_container(repo.no_sandbox, repo.in_repo) ==> exists|home: Option<Seq<char>>|
            {
                &&& inv.program@ == "docker"@
                &&& views(inv.args@) == docker_args(
                    repo.docker_image_name@,
                    home,
                    opt_str_view(credential_dir),
                    mount_views(mounts@),
                    worktree_path@,
                    views(args@),
                )
                &&& inv.cwd is None
            },
{
    let home = home_dir();
    let ghost h = opt_view(home);
    container_invocation_with_home(repo, credential_dir, worktree_path, home, mounts, args)
}

/// The output an agent has written so far: its standard output lines, each ended by a
/// newline, and its standard error lines, each marked `[stderr] `.
#[derive(Debug)]
pub struct OutputLog {
    pub stdout: String,
    pub stderr: String,
}

impl OutputLog {
    /// An empty record.
    pub fn new() -> (o: Self)
        ensures
            o.stdout@.len() == 0,
            o.stderr@.len() == 0,
    {
        OutputLog { stdout: String::new(), stderr: String::new() }
    }

    /// Records a line of standard output (without its newline); it is streamed as is.
    pub fn push_stdout_line(&mut self, line: &str)
        ensures
            final(self).stdout@ == old(self).stdout@ + line@ + "\n"@,
            final(self).stderr@ == old(self).stderr@,
    {
        self.stdout.append(line);
        self.stdout.append("\n");
    }

    /// Records a line of standard error as read (with its line ending), and gives the
    /// form it is streamed in: marked, without trailing whitespace.
    pub fn push_stderr_line(&mut self, raw: &str) -> (streamed: String)
        ensures
            final(self).stderr@ == old(self).stderr@ + "[stderr] "@ + raw@,
            final(self).stdout@ == old(self).stdout@,
            streamed@ == "[stderr] "@ + trim_end(raw@),
    {
        self.stderr.append("[stderr] ");
        self.stderr.append(raw);
        let t = trim_end_str(raw);
        concat("[stderr] ", t.as_str())
    }

    /// All output: standard output, then standard error.
    pub fn combined(&self) -> (s: String)
        ensures
            s@ == self.stdout@ + self.stderr@,
    {
        concat(self.stdout.as_str(), self.stderr.as_str())
    }
}

} // verus!
