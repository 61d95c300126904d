//! Run options: the analysis tool, the rerun policy, the pool size, and the
//! sandbox that each worker starts.
use vstd::prelude::*;
use vstd::string::*;
use crate::text::{decimal, decimal_string, same_text, texts};

verus! {

broadcast use vstd::string::group_string_axioms;

/// The analysis that the sandboxes run.
#[derive(Clone, Copy, Debug, PartialEq, Eq, Structural)]
pub enum Tool {
    Miri,
    Asan,
}

/// When a job whose artifact already exists is run again.
#[derive(Clone, Copy, Debug, PartialEq, Eq, Structural)]
pub enum RerunWhen {
    Always,
    Never,
}

pub open spec fn tool_name(t: Tool) -> Seq<char> {
    match t {
        Tool::Miri => "miri"@,
        Tool::Asan => "asan"@,
    }
}

pub open spec fn rerun_name(r: RerunWhen) -> Seq<char> {
    match r {
        RerunWhen::Always => "always"@,
        RerunWhen::Never => "never"@,
    }
}

impl Tool {
    /// The tool's name on the command line.
    pub fn name(&self) -> (r: &'static str)
        ensures
            r@ == tool_name(*self),
    {
        match self {
            Tool::Miri => "miri",
            Tool::Asan => "asan",
        }
    }

    /// Reads a tool's name; any other text is refused with a message that
    /// quotes it.
    pub fn parse(s: &str) -> (r: Result<Tool, String>)
        ensures
            s@ == "miri"@ ==> r == Ok::<Tool, String>(Tool::Miri),
            s@ == "asan"@ ==> r == Ok::<Tool, String>(Tool::Asan),
            s@ != "miri"@ && s@ != "asan"@ ==> r is Err && r->Err_0@ == "Invalid tool "@ + s@,
    {
        proof {
            reveal_strlit("miri");
            reveal_strlit("asan");
            assert("miri"@[0] != "asan"@[0]);
            assert("miri"@ != "asan"@);
        }
        if same_text(s, "miri") {
            Ok(Tool::Miri)
        } else if same_text(s, "asan") {
            Ok(Tool::Asan)
        } else {
            let mut m = String::from_str("Invalid tool ");
            m.append(s);
            Err(m)
        }
    }

    /// The tag of the sandbox image: `<tool>-the-world`.
    pub fn docker_tag(&self) -> (r: String)
        ensures
            r@ == tool_name(*self) + "-the-world"@,
    {
        let mut s = String::from_str(self.name());
        s.append("-the-world");
        s
    }

    /// The file that describes the sandbox image: `docker/Dockerfile-<tool>`.
    pub fn dockerfile(&self) -> (r: String)
        ensures
            r@ == "docker/Dockerfile-"@ + tool_name(*self),
    {
        let mut s = String::from_str("docker/Dockerfile-");
        s.append(self.name());
        s
    }
}

impl RerunWhen {
    /// Whether a job whose artifact exists is scheduled again.
    pub fn reruns_completed(&self) -> (r: bool)
        ensures
            r == (*self == RerunWhen::Always),
    {
        match self {
            RerunWhen::Always => true,
            RerunWhen::Never => false,
        }
    }

    /// The policy's name on the command line.
    pub fn name(&self) -> (r: &'static str)
        ensures
            r@ == rerun_name(*self),
    {
        match self {
            RerunWhen::Always => "always",
            RerunWhen::Never => "never",
        }
    }

    /// Reads a policy's name.
    pub fn parse(s: &str) -> (r: Result<RerunWhen, &'static str>)
        ensures
            s@ == "always"@ ==> r == Ok::<RerunWhen, &'static str>(RerunWhen::Always),
            s@ == "never"@ ==> r == Ok::<RerunWhen, &'static str>(RerunWhen::Never),
            s@ != "always"@ && s@ != "never"@ ==> r is Err && r->Err_0@
                == "invalid rerun-when option"@,
    {
        proof {
            reveal_strlit("always");
            reveal_strlit("never");
            assert("always"@.len() != "never"@.len());
            assert("always"@ != "never"@);
        }
        if same_text(s, "always") {
            Ok(RerunWhen::Always)
        } else if same_text(s, "never") {
            Ok(RerunWhen::Never)
        } else {
            Err("invalid rerun-when option")
        }
    }
}

/// The number of workers: the one asked for, else one less than the number of
/// physical cores.
pub fn pool_size(jobs: Option<usize>, physical_cores: usize) -> (r: usize)
    requires
        jobs is Some || physical_cores >= 1,
    ensures
        r == match jobs {
            Some(n) => n as int,
            None => physical_cores - 1,
        },
{
    match jobs {
        Some(n) => n,
        None => physical_cores - 1,
    }
}

/// The arguments of `docker` that start one sandbox for `tool`: one CPU at low
/// priority, scratch directories in memory, a memory ceiling of
/// `memory_limit_gb` with swap off, and the run's `token` in its environment.
pub open spec fn sandbox_args_of(tool: Tool, memory_limit_gb: nat, token: Seq<char>) -> Seq<
    Seq<char>,
> {
    let head = seq![
        "run"@,
        "--rm"@,
        "--interactive"@,
        "--cpus=1"@,
        "--cpu-shares=2"@,
        "--tmpfs=/root/build:exec"@,
        "--tmpfs=/root/.cache"@,
        "--tmpfs=/tmp:exec"@,
        "--env"@,
        "RUSTFLAGS=-Zrandomize-layout --cap-lints allow -Copt-level=0 -Cdebuginfo=0 -Zvalidate-mir"@,
        "--env"@,
        "RUSTDOCFLAGS=-Zrandomize-layout --cap-lints allow -Copt-level=0 -Cdebuginfo=0 -Zvalidate-mir"@,
        "--env"@,
        "CARGO_INCREMENTAL=0"@,
        "--env"@,
    ];
    let env = match tool {
        Tool::Asan => seq!["RUST_BACKTRACE=1"@],
        Tool::Miri => seq![
            "RUST_BACKTRACE=0"@,
            "--env"@,
            "MIRIFLAGS=-Zmiri-disable-isolation -Zmiri-ignore-leaks -Zmiri-panic-on-unsupported"@,
        ],
    };
    let tail = seq![
        "--env"@,
        "TEST_END_DELIMITER="@ + token,
        "--memory="@ + decimal(memory_limit_gb) + "g"@,
        "--memory-swap="@ + decimal(memory_limit_gb) + "g"@,
        tool_name(tool) + "-the-world"@ + ":latest"@,
    ];
    head + env + tail
}

fn push_str(v: &mut Vec<String>, s: &str)
    ensures
        texts(final(v)@) == texts(old(v)@).push(s@),
{
    v.push(String::from_str(s));
    assert(texts(final(v)@) =~= texts(old(v)@).push(s@));
}

/// The arguments of `docker` that start one sandbox.
pub fn sandbox_args(tool: Tool, memory_limit_gb: usize, token: &str) -> (r: Vec<String>)
    ensures
        texts(r@) == sandbox_args_of(tool, memory_limit_gb as nat, token@),
{
    let mut v: Vec<String> = Vec::new();
    push_str(&mut v, "run");
    push_str(&mut v, "--rm");
    push_str(&mut v, "--interactive");
    push_str(&mut v, "--cpus=1");
    push_str(&mut v, "--cpu-shares=2");
    push_str(&mut v, "--tmpfs=/root/build:exec");
    push_str(&mut v, "--tmpfs=/root/.cache");
    push_str(&mut v, "--tmpfs=/tmp:exec");
    push_str(&mut v, "--env");
    push_str(
        &mut v,
        "RUSTFLAGS=-Zrandomize-layout --cap-lints allow -Copt-level=0 -Cdebuginfo=0 -Zvalidate-mir",
    );
    push_str(&mut v, "--env");
    push_str(
        &mut v,
        "RUSTDOCFLAGS=-Zrandomize-layout --cap-lints allow -Copt-level=0 -Cdebuginfo=0 -Zvalidate-mir",
    );
    push_str(&mut v, "--env");
    push_str(&mut v, "CARGO_INCREMENTAL=0");
    push_str(&mut v, "--env");
    match tool {
        Tool::Asan => {
            push_str(&mut v, "RUST_BACKTRACE=1");
        },
        Tool::Miri => {
            push_str(&mut v, "RUST_BACKTRACE=0");
            push_str(&mut v, "--env");
            push_str(
                &mut v,
                "MIRIFLAGS=-Zmiri-disable-isolation -Zmiri-ignore-leaks -Zmiri-panic-on-unsupported",
            );
        },
    }
    push_str(&mut v, "--env");
    let mut delim = String::from_str("TEST_END_DELIMITER=");
    delim.append(token);
    push_str(&mut v, delim.as_str());
    let gb = decimal_string(memory_limit_gb);
    let mut mem = String::from_str("--memory=");
    mem.append(gb.as_str());
    mem.append("g");
    push_str(&mut v, mem.as_str());
    let mut swap = String::from_str("--memory-swap=");
    swap.append(gb.as_str());
    swap.append("g");
    push_str(&mut v, swap.as_str());
    let mut image = tool.docker_tag();
    image.append(":latest");
    push_str(&mut v, image.as_str());
    let ghost expect = sandbox_args_of(tool, memory_limit_gb as nat, token@);
    assert(texts(v@) =~= expect);
    v
}

} // verus!
