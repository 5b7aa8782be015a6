//! From the description of a process to the child processes that run it: how
//! a command text names a program and its arguments, and how a text is handed
//! to the shell.

use crate::config::{ProcessSpec, RunType, WatchProcess};
use crate::text::{lemma_split_join, split, split_text};
use vstd::prelude::*;

verus! {

/// Name of the shell interpreter that runs gates and `Shell` commands.
pub const SHELL: &'static str = "bash";

/// The flag that makes the shell run the text that follows it.
pub const SHELL_RUN_FLAG: &'static str = "-c";

/// The characters of `SHELL`.
pub open spec fn shell() -> Seq<char> {
    seq!['b', 'a', 's', 'h']
}

/// The characters of `SHELL_RUN_FLAG`.
pub open spec fn shell_run_flag() -> Seq<char> {
    seq!['-', 'c']
}

/// How many empty pieces stand at the front of `pieces`.
pub open spec fn leading_blanks(pieces: Seq<Seq<char>>) -> nat
    decreases pieces.len(),
{
    if pieces.len() == 0 || pieces[0].len() > 0 {
        0
    } else {
        1 + leading_blanks(pieces.skip(1))
    }
}

/// The program that a `Cmd` command names: the first piece between single
/// spaces that is not empty. A command of spaces alone names the empty program.
pub open spec fn program_of(command: Seq<char>) -> Seq<char> {
    let pieces = split(command, ' ');
    let at = leading_blanks(pieces) as int;
    if at < pieces.len() {
        pieces[at]
    } else {
        Seq::empty()
    }
}

/// The arguments that a `Cmd` command gives its program: every piece after the
/// program, empty ones included. No quoting or escaping is honoured.
pub open spec fn arguments_of(command: Seq<char>) -> Seq<Seq<char>> {
    let pieces = split(command, ' ');
    let at = leading_blanks(pieces) as int;
    if at < pieces.len() {
        pieces.skip(at + 1)
    } else {
        Seq::empty()
    }
}

/// A child process to create. Its standard output and standard error are
/// always piped to the runner, never attached to those of the host, and `env`
/// is added to the environment that the child inherits.
#[derive(Debug, PartialEq, Eq)]
pub struct SpawnRequest {
    pub program: String,
    pub args: Vec<String>,
    pub env: Vec<(String, String)>,
}

/// Mathematical model of a `SpawnRequest`.
pub struct SpawnRequestSpec {
    pub program: Seq<char>,
    pub args: Seq<Seq<char>>,
    pub env: Seq<(Seq<char>, Seq<char>)>,
}

impl View for SpawnRequest {
    type V = SpawnRequestSpec;

    open spec fn view(&self) -> SpawnRequestSpec {
        SpawnRequestSpec {
            program: self.program@,
            args: self.args.deep_view(),
            env: self.env.deep_view(),
        }
    }
}

/// The request that runs `script` through the shell.
pub open spec fn shell_request(
    script: Seq<char>,
    env: Seq<(Seq<char>, Seq<char>)>,
) -> SpawnRequestSpec {
    SpawnRequestSpec { program: shell(), args: seq![shell_run_flag(), script], env }
}

impl ProcessSpec {
    /// The child process that runs the gating command: always the shell,
    /// whatever the run type of the process.
    pub open spec fn gate_request(self) -> SpawnRequestSpec {
        shell_request(self.wait_for, self.environment)
    }

    /// The child process that runs the main command: for `Shell`, the shell
    /// with the whole command text, unchanged; for `Cmd`, the program and the
    /// arguments that the text names.
    pub open spec fn main_request(self) -> SpawnRequestSpec {
        match self.kind() {
            RunType::Shell => shell_request(self.command, self.environment),
            RunType::Cmd => SpawnRequestSpec {
                program: program_of(self.command),
                args: arguments_of(self.command),
                env: self.environment,
            },
        }
    }
}

/// `at` is where the leading empty pieces of `pieces` end.
proof fn lemma_leading_blanks(pieces: Seq<Seq<char>>, at: int)
    requires
        0 <= at <= pieces.len(),
        forall|j: int| 0 <= j < at ==> (#[trigger] pieces[j]).len() == 0,
        at < pieces.len() ==> pieces[at].len() > 0,
    ensures
        leading_blanks(pieces) == at,
    decreases at,
{
    if at > 0 {
        assert(pieces[0].len() == 0);
        let rest = pieces.skip(1);
        assert forall|j: int| 0 <= j < at - 1 implies (#[trigger] rest[j]).len() == 0 by {
            assert(rest[j] == pieces[j + 1]);
        }
        lemma_leading_blanks(rest, at - 1);
    }
}

/// Splits a `Cmd` command into the program and its arguments.
pub fn command_line(command: &str) -> (line: (String, Vec<String>))
    ensures
        line.0@ == program_of(command@),
        line.1.deep_view() == arguments_of(command@),
{
    let mut pieces = split_text(command, ' ');
    let ghost all = pieces.deep_view();
    let n = pieces.len();
    let mut at: usize = 0;
    while at < n && pieces[at].as_str().is_empty()
        invariant
            n == pieces.len(),
            all == pieces.deep_view(),
            at <= n,
            forall|j: int| 0 <= j < at ==> (#[trigger] all[j]).len() == 0,
        decreases n - at,
    {
        assert(all[at as int] == pieces[at as int]@);
        at = at + 1;
    }
    proof {
        if at < n {
            assert(all[at as int] == pieces[at as int]@);
        }
        lemma_leading_blanks(all, at as int);
    }
    if at < n {
        let args = pieces.split_off(at + 1);
        let program = pieces.pop().unwrap();
        proof {
            assert(program@ == all[at as int]);
            assert(args.deep_view() =~= all.skip(at + 1)) by {
                assert forall|j: int| 0 <= j < args.len() implies args.deep_view()[j] == all.skip(
                    at + 1,
                )[j] by {
                    assert(all[at + 1 + j] == args@[j]@);
                }
            }
        }
        (program, args)
    } else {
        let args: Vec<String> = Vec::new();
        assert(args.deep_view() =~= Seq::<Seq<char>>::empty());
        (String::new(), args)
    }
}

/// A copy of the additions to the environment.
fn copy_env(env: &Vec<(String, String)>) -> (copy: Vec<(String, String)>)
    ensures
        copy.deep_view() == env.deep_view(),
{
    let mut copy: Vec<(String, String)> = Vec::new();
    let n = env.len();
    let mut i: usize = 0;
    while i < n
        invariant
            n == env.len(),
            i <= n,
            copy.len() == i,
            forall|j: int| 0 <= j < i ==> copy@[j] == env@[j],
        decreases n - i,
    {
        let name = env[i].0.clone();
        let value = env[i].1.clone();
        copy.push((name, value));
        i = i + 1;
    }
    assert(copy.deep_view() =~= env.deep_view());
    copy
}

/// The request that runs `script` through the shell.
fn through_shell(script: &str, env: &Vec<(String, String)>) -> (request: SpawnRequest)
    ensures
        request@ == shell_request(script@, env.deep_view()),
{
    let mut args: Vec<String> = Vec::new();
    args.push(SHELL_RUN_FLAG.to_owned());
    args.push(script.to_owned());
    let program = SHELL.to_owned();
    proof {
        reveal_strlit("bash");
        reveal_strlit("-c");
        assert(program@ =~= shell());
        assert(args@[0]@ =~= shell_run_flag());
        assert(args.deep_view() =~= seq![shell_run_flag(), script@]);
    }
    SpawnRequest { program, args, env: copy_env(env) }
}

impl WatchProcess {
    /// The child process that runs the gating command.
    pub fn gate_request(&self) -> (request: SpawnRequest)
        ensures
            request@ == self@.gate_request(),
    {
        through_shell(self.wait_for(), self.env())
    }

    /// The child process that runs the main command.
    pub fn main_request(&self) -> (request: SpawnRequest)
        ensures
            request@ == self@.main_request(),
    {
        match self.kind() {
            RunType::Shell => through_shell(self.cmd(), self.env()),
            RunType::Cmd => {
                let (program, args) = command_line(self.cmd());
                SpawnRequest { program, args, env: copy_env(self.env()) }
            },
        }
    }
}

/// In `Cmd` mode neither the program nor any argument holds a space: an
/// argument with a space in it cannot be expressed.
pub proof fn lemma_no_space_in_command_line(command: Seq<char>)
    ensures
        forall|j: int| 0 <= j < program_of(command).len() ==> program_of(command)[j] != ' ',
        forall|i: int, j: int|
            0 <= i < arguments_of(command).len() && 0 <= j < arguments_of(command)[i].len()
                ==> arguments_of(command)[i][j] != ' ',
{
    lemma_split_join(command, ' ');
    let pieces = split(command, ' ');
    let at = leading_blanks(pieces) as int;
    assert forall|i: int, j: int|
        0 <= i < arguments_of(command).len() && 0 <= j < arguments_of(command)[i].len()
            implies arguments_of(command)[i][j] != ' ' by {
        assert(arguments_of(command)[i] == pieces[at + 1 + i]);
    }
}

} // verus!
