//! The executors: how each one is invoked and how its outcome is read.
use vstd::prelude::*;
use vstd::string::*;
use crate::error::LelouchError;
use crate::executor::{build_prompt, opt_str_view, prompt_text};
use crate::text::{blank, is_blank, last_line_not_blank, last_nonblank_line, opt_seq, trim, trim_str, views};
use crate::work_db::{opt_view, Task};

verus! {

fn push_str(v: &mut Vec<String>, s: &str)
    ensures
        views(final(v)@) == views(old(v)@).push(s@),
{
    v.push(String::from_str(s));
    assert(views(v@) =~= views(old(v)@).push(s@));
}

/// The `-m <model>` arguments when a model is configured.
pub open spec fn model_args(model: Option<Seq<char>>) -> Seq<Seq<char>> {
    match model {
        Some(m) => seq!["-m"@, m],
        None => seq![],
    }
}

fn push_model(v: &mut Vec<String>, model: Option<&str>)
    ensures
        views(final(v)@) == views(old(v)@) + model_args(opt_str_view(model)),
{
    match model {
        Some(m) => {
            push_str(v, "-m");
            push_str(v, m);
        },
        None => {},
    }
}

/// The response of an executor whose output is taken as is: none when it is blank.
pub open spec fn plain_response(output: Seq<char>) -> Option<Seq<char>> {
    if is_blank(output) {
        None
    } else {
        Some(output)
    }
}

fn plain_response_of(output: String) -> (r: Option<String>)
    ensures
        opt_seq(r) == plain_response(output@),
{
    if blank(output.as_str()) {
        None
    } else {
        Some(output)
    }
}

/// Executor that dispatches tasks to the antigravity agent, run in the worktree.
#[derive(Debug)]
pub struct AntigravityExecutor;

impl AntigravityExecutor {
    pub fn new() -> Self {
        AntigravityExecutor
    }

    /// The name this executor is configured by.
    pub fn name(&self) -> (s: &'static str)
        ensures
            s@ == "antigravity"@,
    {
        "antigravity"
    }

    /// The prompt for a task, with the repository's pre-prompt (when it is not blank)
    /// put before it, as every executor has it.
    pub fn build_prompt(task: &Task, pre_prompt: Option<&str>) -> (p: String)
        ensures
            p@ == prompt_text(
                task.id@,
                task.title@,
                opt_view(task.description),
                opt_str_view(pre_prompt),
            ),
    {
        build_prompt(task, pre_prompt)
    }

    /// The command line: `antigravity --prompt <prompt>`.
    pub fn command(&self, prompt: &str) -> (v: Vec<String>)
        ensures
            views(v@) == seq!["antigravity"@, "--prompt"@, prompt@],
    {
        let mut v: Vec<String> = Vec::new();
        push_str(&mut v, "antigravity");
        push_str(&mut v, "--prompt");
        push_str(&mut v, prompt);
        v
    }

    /// The outcome of a run: a failure when the process failed or wrote something other
    /// than UTF-8 (`stdout` is `None`), else the output as response unless it is blank.
    pub fn finish(&self, task_id: &str, success: bool, stdout: Option<String>) -> (r: Result<
        Option<String>,
        LelouchError,
    >)
        ensures
            !success ==> (r matches Err(LelouchError::ExecutorFailed { executor: e, task_id: t })
                && e@ == "antigravity"@ && t@ == task_id@),
            success && stdout is None ==> (r matches Err(LelouchError::InvalidUtf8 { executor: e })
                && e@ == "antigravity"@),
            success && stdout is Some ==> (r matches Ok(o) && opt_seq(o) == plain_response(
                stdout->0@,
            )),
    {
        if !success {
            return Err(
                LelouchError::ExecutorFailed {
                    executor: String::from_str("antigravity"),
                    task_id: String::from_str(task_id),
                },
            );
        }
        match stdout {
            Some(out) => Ok(plain_response_of(out)),
            None => Err(LelouchError::InvalidUtf8 { executor: String::from_str("antigravity") }),
        }
    }
}

/// Executor that dispatches tasks to the gemini agent, in a container.
#[derive(Debug)]
pub struct GeminiExecutor;

impl GeminiExecutor {
    pub fn new() -> Self {
        GeminiExecutor
    }

    /// The name this executor is configured by.
    pub fn name(&self) -> (s: &'static str)
        ensures
            s@ == "gemini"@,
    {
        "gemini"
    }

    /// The credential directory (in the home directory) mounted into the container.
    pub fn credential_dir(&self) -> (s: &'static str)
        ensures
            s@ == ".gemini"@,
    {
        ".gemini"
    }

    /// The command line: `gemini --prompt <prompt> --yolo`, then `-m <model>` if configured.
    pub fn command(&self, prompt: &str, model: Option<&str>) -> (v: Vec<String>)
        ensures
            views(v@) == seq!["gemini"@, "--prompt"@, prompt@, "--yolo"@] + model_args(
                opt_str_view(model),
            ),
    {
        let mut v: Vec<String> = Vec::new();
        push_str(&mut v, "gemini");
        push_str(&mut v, "--prompt");
        push_str(&mut v, prompt);
        push_str(&mut v, "--yolo");
        push_model(&mut v, model);
        v
    }

    /// The outcome of a run: a failure when the process failed, else the output as
    /// response unless it is blank.
    pub fn finish(&self, task_id: &str, success: bool, output: String) -> (r: Result<
        Option<String>,
        LelouchError,
    >)
        ensures
            !success ==> (r matches Err(LelouchError::ExecutorFailed { executor: e, task_id: t })
                && e@ == "gemini"@ && t@ == task_id@),
            success ==> (r matches Ok(o) && opt_seq(o) == plain_response(output@)),
    {
        if !success {
            return Err(
                LelouchError::ExecutorFailed {
                    executor: String::from_str("gemini"),
                    task_id: String::from_str(task_id),
                },
            );
        }
        Ok(plain_response_of(output))
    }
}

/// Executor that dispatches tasks to the Cursor Agent CLI, in a container.
#[derive(Debug)]
pub struct CursorAgentExecutor;

/// The texts the agent's JSON result is looked for in: the trimmed output, then its last
/// non-blank line.
pub open spec fn result_candidates(output: Seq<char>) -> Seq<Seq<char>> {
    let s = trim(output);
    match last_nonblank_line(s) {
        Some(l) => seq![s, l],
        None => seq![s],
    }
}

/// The first candidate that parsed, if any.
pub open spec fn first_parsed(parsed: Seq<Option<Option<Seq<char>>>>) -> Option<Option<Seq<char>>>
    decreases parsed.len(),
{
    if parsed.len() == 0 {
        None
    } else if parsed[0] is Some {
        parsed[0]
    } else {
        first_parsed(parsed.drop_first())
    }
}

/// The parse results as plain values.
pub open spec fn parsed_views(p: Seq<Option<Option<String>>>) -> Seq<Option<Option<Seq<char>>>> {
    p.map_values(|x: Option<Option<String>>| match x {
        Some(r) => Some(opt_seq(r)),
        None => None,
    })
}

/// A result field that is missing or blank gives no response.
pub open spec fn nonblank(r: Option<Seq<char>>) -> Option<Seq<char>> {
    match r {
        Some(t) => if is_blank(t) {
            None
        } else {
            Some(t)
        },
        None => None,
    }
}

impl CursorAgentExecutor {
    pub fn new() -> Self {
        CursorAgentExecutor
    }

    /// The name this executor is configured by.
    pub fn name(&self) -> (s: &'static str)
        ensures
            s@ == "cursor-agent"@,
    {
        "cursor-agent"
    }

    /// The credential directory (in the home directory) mounted into the container.
    pub fn credential_dir(&self) -> (s: &'static str)
        ensures
            s@ == ".cursor"@,
    {
        ".cursor"
    }

    /// The command line: `agent -p --output-format json --workspace /workspace --force
    /// <prompt>`, then `-m <model>` if configured.
    pub fn command(&self, prompt: &str, model: Option<&str>) -> (v: Vec<String>)
        ensures
            views(v@) == seq![
                "agent"@,
                "-p"@,
                "--output-format"@,
                "json"@,
                "--workspace"@,
                "/workspace"@,
                "--force"@,
                prompt@,
            ] + model_args(opt_str_view(model)),
    {
        let mut v: Vec<String> = Vec::new();
        push_str(&mut v, "agent");
        push_str(&mut v, "-p");
        push_str(&mut v, "--output-format");
        push_str(&mut v, "json");
        push_str(&mut v, "--workspace");
        push_str(&mut v, "/workspace");
        push_str(&mut v, "--force");
        push_str(&mut v, prompt);
        push_model(&mut v, model);
        v
    }

    /// The texts to parse as the agent's JSON result object, in the order they are tried.
    pub fn result_candidates(output: &str) -> (v: Vec<String>)
        ensures
            views(v@) == result_candidates(output@),
    {
        let s = trim_str(output);
        let line = last_line_not_blank(s.as_str());
        let mut v: Vec<String> = Vec::new();
        match line {
            Some(l) => {
                v.push(s);
                v.push(l);
            },
            None => {
                v.push(s);
            },
        }
        assert(views(v@) =~= result_candidates(output@));
        v
    }

    /// The response from the parsed candidates (`Some(result field)` for one that parsed
    /// as a result object): the first that parsed, its result unless blank; an error when
    /// none parsed.
    pub fn select_result(parsed: &Vec<Option<Option<String>>>) -> (r: Result<
        Option<String>,
        LelouchError,
    >)
        ensures
            match first_parsed(parsed_views(parsed@)) {
                Some(res) => r matches Ok(o) && opt_seq(o) == nonblank(res),
                None => r matches Err(LelouchError::NoResultObject),
            },
    {
        let ghost pv = parsed_views(parsed@);
        let n = parsed.len();
        let mut i: usize = 0;
        assert(pv.skip(0) =~= pv);
        while i < n
            invariant
                n == parsed@.len(),
                pv == parsed_views(parsed@),
                i <= n,
                first_parsed(pv) == first_parsed(pv.skip(i as int)),
            decreases n - i,
        {
            assert(pv.skip(i as int).drop_first() =~= pv.skip(i + 1));
            match &parsed[i] {
                Some(res) => {
                    return match res {
                        Some(t) => {
                            if blank(t.as_str()) {
                                Ok(None)
                            } else {
                                Ok(Some(t.clone()))
                            }
                        },
                        None => Ok(None),
                    };
                },
                None => {},
            }
            i = i + 1;
        }
        Err(LelouchError::NoResultObject)
    }

    /// The outcome of a run: a failure when the process failed, else the result selected
    /// from the parsed candidates.
    pub fn finish(&self, task_id: &str, success: bool, parsed: &Vec<Option<Option<String>>>) -> (r:
        Result<Option<String>, LelouchError>)
        ensures
            !success ==> (r matches Err(LelouchError::ExecutorFailed { executor: e, task_id: t })
                && e@ == "cursor-agent"@ && t@ == task_id@),
            success ==> match first_parsed(parsed_views(parsed@)) {
                Some(res) => r matches Ok(o) && opt_seq(o) == nonblank(res),
                None => r matches Err(LelouchError::NoResultObject),
            },
    {
        if !success {
            return Err(
                LelouchError::ExecutorFailed {
                    executor: String::from_str("cursor-agent"),
                    task_id: String::from_str(task_id),
                },
            );
        }
        Self::select_result(parsed)
    }
}

} // verus!
